use vvd_screen::clock::{epoch_millis, now_ms};
use vvd_screen::config::{capture_opts, clamp_quality, endpoint, token_preview};
use vvd_screen::poll::{PollAction, PollEvent, Wait};
use vvd_screen::vvd::GrpcTarget;

#[test]
fn wait_probes_until_the_deadline() {
    let w = Wait { timeout_ms: 25_000, interval_ms: 400 };
    assert_eq!(w.step(PollEvent::Clock(0)), PollAction::Probe);
    assert_eq!(w.step(PollEvent::Clock(24_999_999_999)), PollAction::Probe);
    assert_eq!(w.step(PollEvent::Clock(25_000_000_000)), PollAction::TimedOut);
    assert_eq!(w.step(PollEvent::Probed(true)), PollAction::Found);
    assert_eq!(w.step(PollEvent::Probed(false)), PollAction::Sleep { millis: 400 });
    assert_eq!(w.step(PollEvent::Slept), PollAction::ReadClock);
}

#[test]
fn wait_without_time_does_not_probe() {
    let w = Wait { timeout_ms: 0, interval_ms: 1 };
    assert_eq!(w.step(PollEvent::Clock(0)), PollAction::TimedOut);
}

#[test]
fn wait_ends_within_its_time() {
    let w = Wait { timeout_ms: 1000, interval_ms: 300 };
    let mut elapsed: u128 = 0;
    let mut probes = 0;
    let mut event = PollEvent::Clock(elapsed);
    loop {
        match w.step(event) {
            PollAction::ReadClock => event = PollEvent::Clock(elapsed),
            PollAction::Probe => {
                probes += 1;
                event = PollEvent::Probed(false);
            }
            PollAction::Sleep { millis } => {
                elapsed += millis as u128 * 1_000_000;
                event = PollEvent::Slept;
            }
            PollAction::Found => panic!("found nothing"),
            PollAction::TimedOut => break,
        }
    }
    assert_eq!(probes, 4);
}

#[test]
fn milliseconds_are_kept_to_64_bits() {
    assert_eq!(epoch_millis(None), 0);
    assert_eq!(epoch_millis(Some(1_700_000_000_123)), 1_700_000_000_123);
    assert_eq!(epoch_millis(Some((1u128 << 64) + 5)), 5);
}

#[test]
fn clock_is_that_of_the_system() {
    let before = std::time::SystemTime::now()
        .duration_since(std::time::UNIX_EPOCH)
        .unwrap()
        .as_millis() as u64;
    let now = now_ms();
    let after = std::time::SystemTime::now()
        .duration_since(std::time::UNIX_EPOCH)
        .unwrap()
        .as_millis() as u64;
    assert!(before <= now && now <= after);
}

#[test]
fn quality_is_clamped() {
    assert_eq!(clamp_quality(0), 1);
    assert_eq!(clamp_quality(1), 1);
    assert_eq!(clamp_quality(80), 80);
    assert_eq!(clamp_quality(100), 100);
    assert_eq!(clamp_quality(255), 100);
}

#[test]
fn options_follow_the_target() {
    assert_eq!(endpoint(8554), "http://127.0.0.1:8554");
    let o = capture_opts(GrpcTarget { port: 8554, token: "tok".to_string() }, 720, 1, 0);
    assert_eq!(o.endpoint, "http://127.0.0.1:8554");
    assert_eq!(o.token, "tok");
    assert_eq!((o.width, o.display, o.quality), (720, 1, 1));
    let p = o.clone();
    assert_eq!((p.endpoint, p.token, p.quality), (o.endpoint, o.token, o.quality));
}

#[test]
fn token_is_shown_in_part() {
    assert_eq!(token_preview("0123456789"), "01234567");
    assert_eq!(token_preview("01234567"), "01234567");
    assert_eq!(token_preview("abc"), "abc");
    assert_eq!(token_preview("éééé9"), "éééé");
}
