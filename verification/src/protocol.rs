//! The vendor command protocol: the models, the reports and the bytes of
//! replies.
use vstd::prelude::*;

verus! {

pub const WL_VID: u16 = 0x36A7;

pub const REPORT_ID: u8 = 0;

pub const REPORT_SIZE: usize = 64;

/// A report with the report id in front.
pub const FRAME_SIZE: usize = 65;

pub const RESPONSE_OK: u8 = 0xA1;

pub const RESPONSE_SLEEPING: u8 = 0xA0;

pub const MAX_RETRIES: u8 = 10;

/// How long the mouse gets to answer a report.
pub const SETTLE_MS: u64 = 30;

/// The pause after a reply that says that the mouse sleeps.
pub const ASLEEP_MS: u64 = 500;

/// The pause after a reply that says neither that nor success.
pub const RETRY_MS: u64 = 50;

// ---------------------------------------------------------------- models
/// The models by product id.
pub open spec fn known_model(pid: u16) -> Option<Seq<char>> {
    if pid == 0xA864 {
        Some("HUAN (wired)"@)
    } else if pid == 0xA863 {
        Some("HUAN (dongle)"@)
    } else if pid == 0xA867 {
        Some("BEAST MIAO (wired)"@)
    } else if pid == 0xA866 {
        Some("BEAST MIAO (dongle)"@)
    } else if pid == 0xA882 {
        Some("WLmouse (1K dongle)"@)
    } else if pid == 0xA873 {
        Some("STRIDER (wired)"@)
    } else if pid == 0xA872 {
        Some("STRIDER (dongle)"@)
    } else if pid == 0xA875 {
        Some("YING (wired)"@)
    } else if pid == 0xA874 {
        Some("YING (dongle)"@)
    } else if pid == 0xA879 {
        Some("SWORD X (wired)"@)
    } else if pid == 0xA878 {
        Some("SWORD X (dongle)"@)
    } else if pid == 0xA886 {
        Some("BEAST MINI (wired)"@)
    } else if pid == 0xA885 {
        Some("BEAST MINI (dongle)"@)
    } else if pid == 0xA869 {
        Some("BEAST MINI PRO (wired)"@)
    } else if pid == 0xA868 {
        Some("BEAST MINI PRO (dongle)"@)
    } else if pid == 0xA881 {
        Some("BEAST MAX (wired)"@)
    } else if pid == 0xA880 {
        Some("BEAST MAX (dongle)"@)
    } else if pid == 0xA884 {
        Some("BEAST X (wired)"@)
    } else if pid == 0xA883 {
        Some("BEAST X (dongle)"@)
    } else if pid == 0xA871 {
        Some("BEAST X PRO (wired)"@)
    } else if pid == 0xA870 {
        Some("BEAST X PRO (dongle)"@)
    } else {
        None
    }
}

pub open spec fn model_text(pid: u16) -> Seq<char> {
    match known_model(pid) {
        Some(name) => name,
        None => "unknown model"@,
    }
}

pub fn model_name(pid: u16) -> (r: &'static str)
    ensures
        r@ == model_text(pid),
{
    if pid == 0xA864 {
        "HUAN (wired)"
    } else if pid == 0xA863 {
        "HUAN (dongle)"
    } else if pid == 0xA867 {
        "BEAST MIAO (wired)"
    } else if pid == 0xA866 {
        "BEAST MIAO (dongle)"
    } else if pid == 0xA882 {
        "WLmouse (1K dongle)"
    } else if pid == 0xA873 {
        "STRIDER (wired)"
    } else if pid == 0xA872 {
        "STRIDER (dongle)"
    } else if pid == 0xA875 {
        "YING (wired)"
    } else if pid == 0xA874 {
        "YING (dongle)"
    } else if pid == 0xA879 {
        "SWORD X (wired)"
    } else if pid == 0xA878 {
        "SWORD X (dongle)"
    } else if pid == 0xA886 {
        "BEAST MINI (wired)"
    } else if pid == 0xA885 {
        "BEAST MINI (dongle)"
    } else if pid == 0xA869 {
        "BEAST MINI PRO (wired)"
    } else if pid == 0xA868 {
        "BEAST MINI PRO (dongle)"
    } else if pid == 0xA881 {
        "BEAST MAX (wired)"
    } else if pid == 0xA880 {
        "BEAST MAX (dongle)"
    } else if pid == 0xA884 {
        "BEAST X (wired)"
    } else if pid == 0xA883 {
        "BEAST X (dongle)"
    } else if pid == 0xA871 {
        "BEAST X PRO (wired)"
    } else if pid == 0xA870 {
        "BEAST X PRO (dongle)"
    } else {
        "unknown model"
    }
}

// ---------------------------------------------------------------- reports
/// A report of zeros but for what `head` puts from the third byte on.
pub open spec fn report(head: Seq<u8>) -> Seq<u8> {
    Seq::new(
        REPORT_SIZE as nat,
        |i: int|
            if 2 <= i < 2 + head.len() {
                head[i - 2]
            } else {
                0u8
            },
    )
}

fn build_profile_get(len: u8, page: u8, cmd: u8, profile: u8) -> (r: [u8; REPORT_SIZE])
    ensures
        r@ == report(seq![0x02u8, len, page, cmd, profile]),
{
    let mut buf: [u8; REPORT_SIZE] = [0u8; 64];
    buf[2] = 0x02;
    buf[3] = len;
    buf[4] = page;
    buf[5] = cmd;
    buf[6] = profile;
    assert(buf@ =~= report(seq![0x02u8, len, page, cmd, profile]));
    buf
}

fn build_profile_set(len: u8, page: u8, cmd: u8, profile: u8, value: u8) -> (r: [u8; REPORT_SIZE])
    ensures
        r@ == report(seq![0x02u8, len, page, cmd, profile, value]),
{
    let mut buf = build_profile_get(len, page, cmd, profile);
    buf[7] = value;
    assert(buf@ =~= report(seq![0x02u8, len, page, cmd, profile, value]));
    buf
}

/// The value byte of a reply.
pub fn resp_u8(resp: &[u8; REPORT_SIZE], hid_index: u8) -> (r: u8)
    requires
        hid_index <= 8,
    ensures
        r == resp@[8 - hid_index],
{
    resp[(8 - hid_index) as usize]
}

/// The active profile in the reply to `build_get_profile_id`.
pub fn resp_profile(resp: &[u8; REPORT_SIZE], hid_index: u8) -> (r: u8)
    requires
        hid_index <= 7,
    ensures
        r == resp@[7 - hid_index],
{
    resp[(7 - hid_index) as usize]
}

pub fn build_get_firmware(device_id: u8) -> (r: [u8; REPORT_SIZE])
    ensures
        r@ == report(seq![device_id, 0x10u8, 0x00u8, 0x81u8]),
{
    let mut buf: [u8; REPORT_SIZE] = [0u8; 64];
    buf[2] = device_id;
    buf[3] = 0x10;
    buf[4] = 0x00;
    buf[5] = 0x81;
    assert(buf@ =~= report(seq![device_id, 0x10u8, 0x00u8, 0x81u8]));
    buf
}

pub fn build_get_profile_id() -> (r: [u8; REPORT_SIZE])
    ensures
        r@ == report(seq![0x02u8, 0x01u8, 0x00u8, 0x85u8]),
{
    let mut buf: [u8; REPORT_SIZE] = [0u8; 64];
    buf[2] = 0x02;
    buf[3] = 0x01;
    buf[4] = 0x00;
    buf[5] = 0x85;
    assert(buf@ =~= report(seq![0x02u8, 0x01u8, 0x00u8, 0x85u8]));
    buf
}

/// The report that makes `stage` the active DPI stage of `profile`.
pub open spec fn set_active_dpi(profile: u8, stage: u8) -> Seq<u8> {
    report(seq![0x02u8, 0x02u8, 0x01u8, 0x02u8, profile, stage])
}

/// WRITE — set active DPI stage. `stage` is 1-based (1..=6) and is sent
/// verbatim. Fire-and-forget on the button path.
pub fn build_set_active_dpi(profile: u8, stage: u8) -> (r: [u8; REPORT_SIZE])
    ensures
        r@ == set_active_dpi(profile, stage),
{
    build_profile_set(0x02, 0x01, 0x02, profile, stage)
}

/// What goes over the wire for a report: the report id, then the report.
pub open spec fn framed(data: Seq<u8>) -> Seq<u8> {
    seq![REPORT_ID] + data
}

pub fn frame(data: &[u8; REPORT_SIZE]) -> (r: [u8; FRAME_SIZE])
    ensures
        r@ == framed(data@),
{
    let mut buf: [u8; FRAME_SIZE] = [0u8; 65];
    buf[0] = REPORT_ID;
    for i in 0..64usize
        invariant
            buf@.len() == 65,
            data@.len() == 64,
            buf@[0] == REPORT_ID,
            forall|j: int| 0 <= j < i ==> buf@[j + 1] == data@[j],
    {
        buf[i + 1] = data[i];
    }
    assert(buf@ =~= framed(data@));
    buf
}

} // verus!
