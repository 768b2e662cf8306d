//! The probe's command line.
use crate::keys;
use crate::keys::{ButtonError, ButtonFault, DEFAULT_BUTTON};
use crate::text;
use vstd::prelude::*;

verus! {

/// What the command line asks for.
#[derive(Clone, Copy, Debug, PartialEq, Eq, Structural)]
pub struct ProbeArgs {
    pub button: u16,
    pub help: bool,
    pub tail: bool,
}

/// The request after these arguments. The last button counts; the first text
/// that is no button ends the reading.
pub open spec fn asked(args: Seq<Seq<char>>) -> Result<ProbeArgs, (ButtonFault, Seq<char>)>
    decreases args.len(),
{
    if args.len() == 0 {
        Ok(ProbeArgs { button: DEFAULT_BUTTON, help: false, tail: false })
    } else {
        match asked(args.drop_last()) {
            Err(e) => Err(e),
            Ok(before) => {
                let arg = args.last();
                if arg == "-h"@ || arg == "--help"@ {
                    Ok(ProbeArgs { help: true, ..before })
                } else if arg == "--tail"@ {
                    Ok(ProbeArgs { tail: true, ..before })
                } else {
                    match keys::button_code(arg) {
                        Ok(button) => Ok(ProbeArgs { button, ..before }),
                        Err(fault) => Err((fault, arg)),
                    }
                }
            },
        }
    }
}

proof fn lemma_error_stays(args: Seq<Seq<char>>, k: int)
    requires
        0 <= k <= args.len(),
        asked(args.take(k)) is Err,
    ensures
        asked(args) == asked(args.take(k)),
    decreases args.len() - k,
{
    if k == args.len() {
        assert(args.take(k) =~= args);
    } else {
        assert(args.take(k + 1).drop_last() =~= args.take(k));
        lemma_error_stays(args, k + 1);
    }
}

/// Reads the arguments behind the program's name.
pub fn parse_args(args: &Vec<String>) -> (r: Result<ProbeArgs, ButtonError>)
    ensures
        match r {
            Ok(a) => asked(text::texts(args@)) == Ok::<ProbeArgs, (ButtonFault, Seq<char>)>(a),
            Err(e) => asked(text::texts(args@)) == Err::<ProbeArgs, (ButtonFault, Seq<char>)>(
                (e.fault, e.given@),
            ),
        },
{
    let mut out = ProbeArgs { button: DEFAULT_BUTTON, help: false, tail: false };
    let ghost all = text::texts(args@);
    for i in 0..args.len()
        invariant
            all == text::texts(args@),
            asked(all.take(i as int)) == Ok::<ProbeArgs, (ButtonFault, Seq<char>)>(out),
    {
        let arg = args[i].as_str();
        assert(all.take(i + 1).drop_last() =~= all.take(i as int));
        assert(all.take(i + 1).last() == arg@);
        if text::same_text(arg, "-h") || text::same_text(arg, "--help") {
            out.help = true;
        } else if text::same_text(arg, "--tail") {
            out.tail = true;
        } else {
            match keys::parse_button(arg) {
                Ok(button) => {
                    out.button = button;
                },
                Err(e) => {
                    proof {
                        lemma_error_stays(all, i + 1);
                    }
                    return Err(e);
                },
            }
        }
    }
    assert(all.take(all.len() as int) =~= all);
    Ok(out)
}

/// The help text.
pub fn usage() -> (r: &'static str)
    ensures
        r@
            == "usage: wl-probe [BUTTON] [--tail] | -h\n\nRead-only capability probe for wl-sniper. Never writes to any device.\n\nBUTTON  evdev key name (SCROLLLOCK, F12, BTN_EXTRA, ...) or code (70, 0x46).\nDefault: SCROLLLOCK (70).\n--tail  after the static report, tail EV_KEY events from the dongle's\nnodes: press the sniper button and see which node emits which\nkey. Ctrl-C to stop."@,
{
    "usage: wl-probe [BUTTON] [--tail] | -h\n\nRead-only capability probe for wl-sniper. Never writes to any device.\n\nBUTTON  evdev key name (SCROLLLOCK, F12, BTN_EXTRA, ...) or code (70, 0x46).\nDefault: SCROLLLOCK (70).\n--tail  after the static report, tail EV_KEY events from the dongle's\nnodes: press the sniper button and see which node emits which\nkey. Ctrl-C to stop."
}

} // verus!
