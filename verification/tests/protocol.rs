use wl_sniper::protocol::{
    build_get_firmware, build_get_profile_id, build_set_active_dpi, frame, model_name, resp_profile,
    resp_u8, MAX_RETRIES, REPORT_SIZE, RESPONSE_OK, RESPONSE_SLEEPING,
};
use wl_sniper::transport::{
    asleep_notice, Action, Event, Exchange, ExchangeError, Goal, HidTransport, Judgement, Phase,
};

#[test]
fn set_active_dpi_report_bytes() {
    let b = build_set_active_dpi(1, 2);
    assert_eq!(&b[2..8], &[0x02, 0x02, 0x01, 0x02, 0x01, 0x02]);
    assert!(b[8..].iter().all(|&x| x == 0));
}

#[test]
fn get_profile_id_report_bytes() {
    let b = build_get_profile_id();
    assert_eq!(&b[2..6], &[0x02, 0x01, 0x00, 0x85]);
    assert!(b[6..].iter().all(|&x| x == 0));
}

#[test]
fn active_dpi_response_is_0_based() {
    // The active-stage *readout* is 0-based; the *set* command above is
    // 1-based.
    let hid_index = 0u8;
    let mut resp = [0u8; REPORT_SIZE];
    resp[(8 - hid_index) as usize] = 1; // stage index 1 => stage 2 (1-based)
    assert_eq!(resp_u8(&resp, hid_index) + 1, 2);

    let mut resp = [0u8; REPORT_SIZE];
    resp[(8 - 1) as usize] = 0; // stage index 0 => stage 1 (1-based), hid_index 1
    assert_eq!(resp_u8(&resp, 1) + 1, 1);
}

#[test]
fn firmware_report_bytes() {
    let b = build_get_firmware(0x02);
    assert_eq!(&b[..6], &[0, 0, 0x02, 0x10, 0x00, 0x81]);
    assert!(b[6..].iter().all(|&x| x == 0));
    assert_eq!(build_get_firmware(9)[2], 9);
}

#[test]
fn profile_stands_before_the_value() {
    let mut resp = [0u8; REPORT_SIZE];
    for i in 0..REPORT_SIZE {
        resp[i] = i as u8;
    }
    assert_eq!(resp_profile(&resp, 0), 7);
    assert_eq!(resp_profile(&resp, 1), 6);
    assert_eq!(resp_u8(&resp, 0), 8);
    assert_eq!(resp_u8(&resp, 8), 0);
}

#[test]
fn frame_puts_the_report_id_in_front() {
    let report = build_set_active_dpi(3, 6);
    let wire = frame(&report);
    assert_eq!(wire.len(), 65);
    assert_eq!(wire[0], 0);
    assert_eq!(&wire[1..], &report[..]);
    assert_eq!(HidTransport::new().send_only(&report), wire);
}

#[test]
fn models_by_product_id() {
    assert_eq!(model_name(0xA863), "HUAN (dongle)");
    assert_eq!(model_name(0xA864), "HUAN (wired)");
    assert_eq!(model_name(0xA867), "BEAST MIAO (wired)");
    assert_eq!(model_name(0xA866), "BEAST MIAO (dongle)");
    assert_eq!(model_name(0xA882), "WLmouse (1K dongle)");
    assert_eq!(model_name(0xA873), "STRIDER (wired)");
    assert_eq!(model_name(0xA872), "STRIDER (dongle)");
    assert_eq!(model_name(0xA875), "YING (wired)");
    assert_eq!(model_name(0xA874), "YING (dongle)");
    assert_eq!(model_name(0xA879), "SWORD X (wired)");
    assert_eq!(model_name(0xA878), "SWORD X (dongle)");
    assert_eq!(model_name(0xA886), "BEAST MINI (wired)");
    assert_eq!(model_name(0xA885), "BEAST MINI (dongle)");
    assert_eq!(model_name(0xA869), "BEAST MINI PRO (wired)");
    assert_eq!(model_name(0xA868), "BEAST MINI PRO (dongle)");
    assert_eq!(model_name(0xA881), "BEAST MAX (wired)");
    assert_eq!(model_name(0xA880), "BEAST MAX (dongle)");
    assert_eq!(model_name(0xA884), "BEAST X (wired)");
    assert_eq!(model_name(0xA883), "BEAST X (dongle)");
    assert_eq!(model_name(0xA871), "BEAST X PRO (wired)");
    assert_eq!(model_name(0xA870), "BEAST X PRO (dongle)");
    assert_eq!(model_name(0x1234), "unknown model");
}

fn reply(status0: u8, status1: u8, cmd: u8) -> [u8; 65] {
    let mut b = [0u8; 65];
    b[1] = status0;
    b[2] = status1;
    b[6] = cmd;
    b
}

/// Runs an exchange on these replies; gives the log of what it did.
fn run(x: &mut Exchange, replies: &[[u8; 65]]) -> Vec<String> {
    let mut log = Vec::new();
    let mut next = 0;
    loop {
        let event = match x.action() {
            Action::Write(f) => {
                assert_eq!(f[0], 0);
                assert_eq!(&f[1..], &x.report[..]);
                log.push("write".to_string());
                Event::Done
            }
            Action::Pause(ms) => {
                log.push(format!("pause {ms}"));
                Event::Done
            }
            Action::Read(b) => {
                assert!(b.iter().all(|&v| v == 0));
                if next == replies.len() {
                    log.push("starved".to_string());
                    return log;
                }
                next += 1;
                log.push("read".to_string());
                Event::Reply(replies[next - 1])
            }
            Action::NoticeAsleep => {
                log.push("notice".to_string());
                Event::Done
            }
            Action::Finish(resp) => {
                log.push(format!("finish {:02x} {:02x} {:02x}", resp[0], resp[1], resp[5]));
                return log;
            }
            Action::Fail => {
                log.push("fail".to_string());
                return log;
            }
        };
        x.advance(event);
    }
}

#[test]
fn accepted_at_once() {
    let t = HidTransport::new();
    let mut x = t.send_and_recv(&build_get_profile_id());
    assert_eq!(x.goal, Goal::Command { cmd: 0x85, hid_index: 0 });
    let log = run(&mut x, &[reply(0, RESPONSE_OK, 0x85)]);
    assert_eq!(log, ["write", "pause 30", "read", "finish 00 a1 85"]);
}

#[test]
fn a_command_waits_for_its_own_byte() {
    let t = HidTransport { hid_index: 1 };
    let mut x = t.send_and_recv(&build_get_profile_id());
    let log = run(
        &mut x,
        &[
            reply(RESPONSE_SLEEPING, 0, 0),
            reply(RESPONSE_OK, 0, 0x81),
            reply(0x55, RESPONSE_OK, 0x85),
            reply(RESPONSE_OK, 0, 0x85),
        ],
    );
    assert_eq!(
        log,
        [
            "write", "pause 30", "read", "notice", "pause 500", "write", "pause 30", "read",
            "pause 500", "write", "pause 30", "read", "pause 50", "write", "pause 30", "read",
            "finish a1 00 85",
        ]
    );
    assert_eq!(x.attempt, 3);
}

#[test]
fn a_command_gives_up_after_its_attempts() {
    let t = HidTransport::new();
    let mut x = t.send_and_recv(&build_get_profile_id());
    let junk = vec![reply(1, 2, 3); 20];
    let log = run(&mut x, &junk);
    assert_eq!(log.iter().filter(|l| *l == "write").count(), MAX_RETRIES as usize);
    // No pause behind the last attempt.
    assert_eq!(log.iter().filter(|l| *l == "pause 50").count(), MAX_RETRIES as usize - 1);
    assert_eq!(log.last().unwrap(), "fail");
    match x.phase {
        Phase::Failed(e) => assert_eq!(e.message(), "no response from mouse (is it asleep or out of range?)"),
        _ => panic!("not failed"),
    }
}

#[test]
fn a_sleeping_mouse_is_told_of_once() {
    let t = HidTransport::new();
    let mut x = t.send_and_recv(&build_get_profile_id());
    let asleep = vec![reply(0, RESPONSE_SLEEPING, 0); 10];
    let log = run(&mut x, &asleep);
    assert_eq!(log.iter().filter(|l| *l == "notice").count(), 1);
    assert_eq!(log.iter().filter(|l| *l == "pause 500").count(), 10);
    assert_eq!(log.last().unwrap(), "fail");
    assert_eq!(
        asleep_notice(),
        "    mouse is asleep, waiting for it to wake up (wiggle it if needed)..."
    );
}

#[test]
fn a_late_sleeper_is_not_told_of() {
    let t = HidTransport::new();
    let mut x = t.send_and_recv(&build_get_profile_id());
    let log = run(&mut x, &[reply(1, 2, 3), reply(0, RESPONSE_SLEEPING, 0), reply(0, RESPONSE_OK, 0x85)]);
    assert!(!log.contains(&"notice".to_string()));
    assert_eq!(log.last().unwrap(), "finish 00 a1 85");
}

#[test]
fn detection_finds_the_status_in_either_place() {
    let mut t = HidTransport::new();
    let mut x = t.detect_hid_index();
    assert_eq!(x.report, build_get_firmware(0x02));
    run(&mut x, &[reply(RESPONSE_OK, 0, 0x81)]);
    match &x.phase {
        Phase::Finished(resp) => t.use_detected(resp),
        _ => panic!("not finished"),
    }
    assert_eq!(t.hid_index, 1);

    let mut x = t.detect_hid_index();
    run(&mut x, &[reply(7, RESPONSE_OK, 0)]);
    match &x.phase {
        Phase::Finished(resp) => {
            t.use_detected(resp);
            // Where the detection read the status a command reads it too.
            let goal = Goal::Command { cmd: resp[5], hid_index: t.hid_index };
            assert_eq!(goal.judge(resp), Judgement::Accepted);
        }
        _ => panic!("not finished"),
    }
    assert_eq!(t.hid_index, 0);
}

#[test]
fn detection_goes_on_at_once_after_junk() {
    let t = HidTransport::new();
    let mut x = t.detect_hid_index();
    let log = run(
        &mut x,
        &[reply(1, 2, 0), reply(RESPONSE_SLEEPING, 0, 0), reply(0, RESPONSE_SLEEPING, 0), reply(0, RESPONSE_OK, 0)],
    );
    assert_eq!(
        log,
        [
            "write", "pause 30", "read", "write", "pause 30", "read", "pause 500", "write", "pause 30",
            "read", "pause 500", "write", "pause 30", "read", "finish 00 a1 00",
        ]
    );
    let mut x = t.detect_hid_index();
    let log = run(&mut x, &vec![reply(9, 9, 9); 12]);
    assert_eq!(log.len(), 31);
    assert_eq!(log[30], "fail");
}

#[test]
fn a_device_that_fails_ends_the_exchange() {
    let t = HidTransport::new();
    let mut x = t.send_and_recv(&build_get_profile_id());
    x.advance(Event::Failed("gone".to_string()));
    match &x.phase {
        Phase::Failed(ExchangeError::Io(e)) => assert_eq!(e, "gone"),
        _ => panic!("not failed"),
    }
    let mut x = t.detect_hid_index();
    x.advance(Event::Done);
    // A pause cannot fail.
    x.advance(Event::Failed("gone".to_string()));
    assert!(matches!(x.phase, Phase::Settle));
    x.advance(Event::Done);
    x.advance(Event::Failed("cable".to_string()));
    match &x.phase {
        Phase::Failed(e) => assert_eq!(e.message(), "cable"),
        _ => panic!("not failed"),
    }
    // The end is the end.
    x.advance(Event::Done);
    x.advance(Event::Reply(reply(RESPONSE_OK, RESPONSE_OK, 0)));
    assert!(matches!(x.action(), Action::Fail));
}
