use vvd_screen::capture::{
    auth_header, check_frame, encode_jpeg, screenshot_request, size_fits, Action, Capture,
    CaptureOpts, Cause, Event, Failure, FrameCheck, PixelFormat, ScreenshotRequest, Stats,
};
use vvd_screen::outside::EncodeError;

fn opts() -> CaptureOpts {
    CaptureOpts {
        endpoint: "http://127.0.0.1:8554".to_string(),
        token: "tok".to_string(),
        width: 2,
        display: 3,
        quality: 80,
    }
}

fn step(c: &mut Capture, event: Event) -> Action {
    assert!(c.accepts(&event));
    c.step(event)
}

fn streaming() -> Capture {
    let (mut c, _) = Capture::new(opts());
    step(&mut c, Event::Connected(true));
    step(&mut c, Event::Subscribed(true));
    c
}

#[test]
fn stats_start_at_zero() {
    let s = Stats::default();
    assert_eq!((s.frames, s.width, s.height), (0, 0, 0));
    assert_eq!((s.last_frame_unix_ms, s.jpeg_bytes, s.connected), (0, 0, false));
}

#[test]
fn frames_are_checked() {
    assert_eq!(check_frame(0, Some((2, 2))), FrameCheck::Inactive);
    assert_eq!(check_frame(5, None), FrameCheck::NoSize);
    assert_eq!(check_frame(5, Some((0, 2))), FrameCheck::NoSize);
    assert_eq!(check_frame(5, Some((2, 0))), FrameCheck::NoSize);
    assert_eq!(check_frame(11, Some((2, 2))), FrameCheck::Short { len: 11, needed: 12 });
    let complete = FrameCheck::Complete { needed: 12, width: 2, height: 2 };
    assert_eq!(check_frame(12, Some((2, 2))), complete);
    assert_eq!(check_frame(13, Some((2, 2))), complete);
}

#[test]
fn frames_that_cannot_be_sized_are_told() {
    assert!(size_fits(0, Some((u32::MAX, u32::MAX))));
    assert!(!size_fits(1, Some((u32::MAX, u32::MAX))));
    assert!(size_fits(1, Some((1920, 1080))));
    assert!(size_fits(1, None));
}

#[test]
fn pixels_are_encoded() {
    let rgb = [255u8, 0, 0, 0, 255, 0, 0, 0, 255, 255, 255, 255];
    let jpeg = encode_jpeg(&rgb, 2, 2, 80).unwrap();
    assert_eq!(&jpeg[..2], &[0xff, 0xd8]);
    assert_eq!(&jpeg[jpeg.len() - 2..], &[0xff, 0xd9]);
    let mut direct: Vec<u8> = Vec::new();
    jpeg_encoder::Encoder::new(&mut direct, 80)
        .encode(&rgb, 2, 2, jpeg_encoder::ColorType::Rgb)
        .unwrap();
    assert_eq!(jpeg, direct);
    assert_ne!(jpeg, encode_jpeg(&rgb, 2, 2, 10).unwrap());
    assert_ne!(jpeg, encode_jpeg(&rgb, 1, 4, 80).unwrap());
}

#[test]
fn bad_pixels_are_refused() {
    assert!(matches!(
        encode_jpeg(&[0; 11], 2, 2, 80),
        Err(EncodeError::BadImageData { length: 11, required: 12 })
    ));
    assert!(matches!(
        encode_jpeg(&[0; 11], 0, 2, 80),
        Err(EncodeError::ZeroImageDimensions { width: 0, height: 2 })
    ));
}

#[test]
fn request_follows_the_options() {
    assert_eq!(
        screenshot_request(&opts()),
        ScreenshotRequest { format: PixelFormat::Rgb888, width: 2, height: 0, display: 3 }
    );
}

#[test]
fn token_makes_a_header() {
    assert_eq!(auth_header("tok"), Some(b"Bearer tok".to_vec()));
    assert_eq!(auth_header(""), Some(b"Bearer ".to_vec()));
    assert_eq!(auth_header("a\tb"), Some(b"Bearer a\tb".to_vec()));
    assert_eq!(auth_header("é"), Some("Bearer é".as_bytes().to_vec()));
    assert_eq!(auth_header("a\nb"), None);
    assert_eq!(auth_header("a\u{7f}"), None);
}

#[test]
fn session_streams_frames() {
    let (mut c, first) = Capture::new(opts());
    assert!(matches!(first, Action::Connect));
    match step(&mut c, Event::Connected(true)) {
        Action::Subscribe { authorization, request } => {
            assert_eq!(authorization, b"Bearer tok".to_vec());
            assert_eq!(request, screenshot_request(&opts()));
        }
        other => panic!("{:?}", other),
    }
    assert!(!c.stats().connected);
    assert!(matches!(step(&mut c, Event::Subscribed(true)), Action::Receive { skipped: None }));
    assert!(c.stats().connected);
    let message = Event::Message { image: (0..14).collect(), format: Some((2, 2)) };
    match step(&mut c, message) {
        Action::Encode { rgb, width, height, quality } => {
            assert_eq!(rgb, (0..12).collect::<Vec<u8>>());
            assert_eq!((width, height, quality), (2, 2, 80));
        }
        other => panic!("{:?}", other),
    }
    match step(&mut c, Event::Encoded { result: Ok(vec![1, 2, 3]), now: 77 }) {
        Action::Publish { frame } => assert_eq!(&frame[..], &[1, 2, 3]),
        other => panic!("{:?}", other),
    }
    let expected = Stats {
        frames: 1,
        width: 2,
        height: 2,
        last_frame_unix_ms: 77,
        jpeg_bytes: 3,
        connected: true,
    };
    assert_eq!(c.stats(), expected);
    assert!(matches!(step(&mut c, Event::Published), Action::Receive { skipped: None }));
    assert_eq!(c.stats(), expected);
}

#[test]
fn useless_frames_are_skipped() {
    let mut c = streaming();
    for (image, format, check) in [
        (vec![], Some((2, 2)), FrameCheck::Inactive),
        (vec![1], None, FrameCheck::NoSize),
        (vec![1], Some((1, 1)), FrameCheck::Short { len: 1, needed: 3 }),
    ] {
        match step(&mut c, Event::Message { image, format }) {
            Action::Receive { skipped } => assert_eq!(skipped, Some(check)),
            other => panic!("{:?}", other),
        }
        assert_eq!(c.stats().frames, 0);
    }
}

#[test]
fn wide_frames_keep_their_low_bits() {
    let mut c = streaming();
    let message = Event::Message { image: vec![0; 65_537 * 3], format: Some((65_537, 1)) };
    match step(&mut c, message) {
        Action::Encode { rgb, width, height, .. } => {
            assert_eq!(rgb.len(), 65_537 * 3);
            assert_eq!((width, height), (1, 1));
        }
        other => panic!("{:?}", other),
    }
    step(&mut c, Event::Encoded { result: Ok(vec![1]), now: 1 });
    assert_eq!(c.stats().width, 65_537);
}

fn retry(action: Action) -> (u64, Cause) {
    match action {
        Action::Retry { after_ms, cause } => (after_ms, cause),
        other => panic!("{:?}", other),
    }
}

#[test]
fn refusals_are_retried_with_growing_delays() {
    let (mut c, _) = Capture::new(opts());
    let mut delays = Vec::new();
    for _ in 0..6 {
        let (delay, cause) = retry(step(&mut c, Event::Connected(false)));
        assert!(matches!(cause, Cause::Failed(Failure::Connect)));
        delays.push(delay);
        assert!(matches!(step(&mut c, Event::Slept), Action::Connect));
    }
    assert_eq!(delays, vec![250, 500, 1000, 2000, 3000, 3000]);
    step(&mut c, Event::Connected(true));
    step(&mut c, Event::Subscribed(true));
    let (delay, cause) = retry(step(&mut c, Event::StreamEnded));
    assert!(matches!(cause, Cause::StreamEnded));
    assert_eq!(delay, 250);
    assert!(!c.stats().connected);
    step(&mut c, Event::Slept);
    assert_eq!(retry(step(&mut c, Event::Connected(false))).0, 500);
}

#[test]
fn every_failure_ends_the_session() {
    let mut bad = opts();
    bad.token = "a\nb".to_string();
    let (mut c, _) = Capture::new(bad);
    let (_, cause) = retry(step(&mut c, Event::Connected(true)));
    assert!(matches!(cause, Cause::Failed(Failure::AuthHeader)));

    let (mut c, _) = Capture::new(opts());
    step(&mut c, Event::Connected(true));
    let (_, cause) = retry(step(&mut c, Event::Subscribed(false)));
    assert!(matches!(cause, Cause::Failed(Failure::Subscribe)));

    let mut c = streaming();
    let (_, cause) = retry(step(&mut c, Event::ReceiveFailed));
    assert!(matches!(cause, Cause::Failed(Failure::Receive)));
    assert!(!c.stats().connected);

    let mut c = streaming();
    step(&mut c, Event::Message { image: vec![0; 3], format: Some((1, 1)) });
    let (_, cause) = retry(step(&mut c, Event::EncoderLost));
    assert!(matches!(cause, Cause::Failed(Failure::JoinEncoder)));

    let mut c = streaming();
    step(&mut c, Event::Message { image: vec![0; 65_536 * 3], format: Some((65_536, 1)) });
    let result = encode_jpeg(&vec![0; 65_536 * 3], 0, 1, 80);
    let (_, cause) = retry(step(&mut c, Event::Encoded { result, now: 1 }));
    match cause {
        Cause::Failed(f) => {
            assert_eq!(f.activity(), "jpeg encode");
            assert!(matches!(
                f,
                Failure::Encode(EncodeError::ZeroImageDimensions { width: 0, height: 1 })
            ));
        }
        other => panic!("{:?}", other),
    }
    assert_eq!(c.stats().frames, 0);
}

#[test]
fn events_out_of_turn_are_told() {
    let (c, _) = Capture::new(opts());
    assert!(!c.accepts(&Event::Published));
    assert!(!c.accepts(&Event::StreamEnded));
    let c = streaming();
    assert!(!c.accepts(&Event::Slept));
    assert!(!c.accepts(&Event::Message { image: vec![1], format: Some((u32::MAX, u32::MAX)) }));
    assert_eq!(c.opts().token, "tok");
}

#[test]
fn failures_name_what_was_being_done() {
    assert_eq!(Failure::Connect.activity(), "connect gRPC channel");
    assert_eq!(Failure::AuthHeader.activity(), "build auth header");
    assert_eq!(Failure::Subscribe.activity(), "streamScreenshot");
    assert_eq!(Failure::Receive.activity(), "receive frame");
    assert_eq!(Failure::JoinEncoder.activity(), "join encoder");
}
