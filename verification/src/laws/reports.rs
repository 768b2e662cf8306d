//! The bytes that go to the mouse, and the models.
use crate::protocol;
use vstd::prelude::*;

verus! {

/// The command that sets a stage: 64 bytes, the profile in the seventh, the
/// stage in the eighth, sent as they are.
pub proof fn law_set_stage_bytes(profile: u8, stage: u8)
    ensures
        ({
            let r = protocol::set_active_dpi(profile, stage);
            &&& r.len() == 64
            &&& r[0] == 0 && r[1] == 0
            &&& r[2] == 2 && r[3] == 2 && r[4] == 1 && r[5] == 2
            &&& r[6] == profile
            &&& r[7] == stage
            &&& forall|i: int| 8 <= i < 64 ==> #[trigger] r[i] == 0
        }),
{
}

/// Two stages or two profiles never share a command.
pub proof fn law_set_stage_is_one_to_one(p: u8, s: u8, q: u8, t: u8)
    requires
        protocol::set_active_dpi(p, s) == protocol::set_active_dpi(q, t),
    ensures
        p == q && s == t,
{
    let a = protocol::set_active_dpi(p, s);
    let b = protocol::set_active_dpi(q, t);
    assert(a[6] == b[6] && a[7] == b[7]);
}

/// A report holds its head from the third byte on, and zeros elsewhere.
pub proof fn law_report_bytes(head: Seq<u8>)
    requires
        head.len() <= 62,
    ensures
        protocol::report(head).len() == 64,
        forall|i: int| 0 <= i < head.len() ==> protocol::report(head)[i + 2] == #[trigger] head[i],
        forall|i: int|
            0 <= i < 64 && !(2 <= i < 2 + head.len()) ==> #[trigger] protocol::report(head)[i] == 0,
{
}

/// On the wire a zero stands in front of the report.
pub proof fn law_frame_bytes(data: Seq<u8>)
    ensures
        protocol::framed(data).len() == data.len() + 1,
        protocol::framed(data)[0] == 0,
        protocol::framed(data).skip(1) == data,
{
    assert(protocol::framed(data).skip(1) =~= data);
}

/// The numbers of the protocol.
pub proof fn law_protocol_numbers()
    ensures
        protocol::WL_VID == 0x36A7,
        protocol::REPORT_ID == 0,
        protocol::RESPONSE_OK == 0xA1,
        protocol::RESPONSE_SLEEPING == 0xA0,
        protocol::MAX_RETRIES == 10,
        protocol::SETTLE_MS == 30,
        protocol::ASLEEP_MS == 500,
        protocol::RETRY_MS == 50,
{
}

/// The models by product id; a product that is not listed is unknown.
pub proof fn law_models(pid: u16)
    ensures
        ({
            let m = protocol::model_text(pid);
            &&& pid == 0xA863 ==> m == "HUAN (dongle)"@
            &&& pid == 0xA864 ==> m == "HUAN (wired)"@
            &&& pid == 0xA866 ==> m == "BEAST MIAO (dongle)"@
            &&& pid == 0xA867 ==> m == "BEAST MIAO (wired)"@
            &&& pid == 0xA868 ==> m == "BEAST MINI PRO (dongle)"@
            &&& pid == 0xA869 ==> m == "BEAST MINI PRO (wired)"@
            &&& pid == 0xA870 ==> m == "BEAST X PRO (dongle)"@
            &&& pid == 0xA871 ==> m == "BEAST X PRO (wired)"@
            &&& pid == 0xA872 ==> m == "STRIDER (dongle)"@
            &&& pid == 0xA873 ==> m == "STRIDER (wired)"@
            &&& pid == 0xA874 ==> m == "YING (dongle)"@
            &&& pid == 0xA875 ==> m == "YING (wired)"@
            &&& pid == 0xA878 ==> m == "SWORD X (dongle)"@
            &&& pid == 0xA879 ==> m == "SWORD X (wired)"@
            &&& pid == 0xA880 ==> m == "BEAST MAX (dongle)"@
            &&& pid == 0xA881 ==> m == "BEAST MAX (wired)"@
            &&& pid == 0xA882 ==> m == "WLmouse (1K dongle)"@
            &&& pid == 0xA883 ==> m == "BEAST X (dongle)"@
            &&& pid == 0xA884 ==> m == "BEAST X (wired)"@
            &&& pid == 0xA885 ==> m == "BEAST MINI (dongle)"@
            &&& pid == 0xA886 ==> m == "BEAST MINI (wired)"@
            &&& !(pid == 0xA863 || pid == 0xA864 || 0xA866 <= pid <= 0xA869 || 0xA870 <= pid
                <= 0xA875 || pid == 0xA878 || pid == 0xA879 || 0xA880 <= pid <= 0xA886) ==> m
                == "unknown model"@
        }),
{
}

} // verus!
