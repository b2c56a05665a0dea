use bytes::Bytes;
use vvd_screen::capture::Stats;
use vvd_screen::server::{
    age_ms, frame, healthz, healthz_at, index, part, stream, stream_headers, Body, StreamAction,
    StreamEvent,
};

fn stats() -> Stats {
    Stats {
        frames: 12,
        width: 1920,
        height: 1080,
        last_frame_unix_ms: 1000,
        jpeg_bytes: 4567,
        connected: true,
    }
}

#[test]
fn part_frames_a_jpeg() {
    let p = part(&Bytes::from(vec![0xff, 0xd8, 0xff, 0xd9]));
    let mut expected =
        b"--vvdframe\r\nContent-Type: image/jpeg\r\nContent-Length: 4\r\n\r\n".to_vec();
    expected.extend_from_slice(&[0xff, 0xd8, 0xff, 0xd9]);
    expected.extend_from_slice(b"\r\n");
    assert_eq!(&p[..], &expected[..]);
}

#[test]
fn length_of_a_part_is_decimal() {
    let p = part(&Bytes::from(vec![7u8; 1200]));
    assert!(p.starts_with(
        b"--vvdframe\r\nContent-Type: image/jpeg\r\nContent-Length: 1200\r\n\r\n\x07"
    ));
}

#[test]
fn stream_sends_frames_and_ends() {
    assert!(matches!(stream(StreamEvent::Frame(Bytes::new())), StreamAction::Wait));
    assert!(matches!(stream(StreamEvent::Closed), StreamAction::End));
    let f = Bytes::from(vec![1u8, 2]);
    match stream(StreamEvent::Frame(f.clone())) {
        StreamAction::Send(p) => assert_eq!(p, part(&f)),
        other => panic!("{:?}", other),
    }
}

#[test]
fn viewer_reads_frames_from_a_stream() {
    let frames: Vec<Vec<u8>> = vec![b"\r\n\r\n--vvdframe".to_vec(), vec![], vec![1; 10]];
    let mut sent: Vec<u8> = Vec::new();
    for f in &frames {
        if let StreamAction::Send(p) = stream(StreamEvent::Frame(Bytes::from(f.clone()))) {
            sent.extend_from_slice(&p);
        }
    }
    let lead = b"--vvdframe\r\nContent-Type: image/jpeg\r\nContent-Length: ";
    let mut rest: &[u8] = &sent;
    let mut read: Vec<Vec<u8>> = Vec::new();
    while !rest.is_empty() {
        assert!(rest.starts_with(lead));
        rest = &rest[lead.len()..];
        let n = rest.iter().take_while(|b| b.is_ascii_digit()).count();
        let len: usize = std::str::from_utf8(&rest[..n]).unwrap().parse().unwrap();
        rest = &rest[n..];
        assert!(rest.starts_with(b"\r\n\r\n"));
        rest = &rest[4..];
        read.push(rest[..len].to_vec());
        rest = &rest[len..];
        assert!(rest.starts_with(b"\r\n"));
        rest = &rest[2..];
    }
    assert_eq!(read, vec![frames[0].clone(), frames[2].clone()]);
}

#[test]
fn stream_names_its_boundary() {
    let h: Vec<(&str, &str)> = stream_headers().iter().map(|h| (h.name, h.value)).collect();
    assert_eq!(
        h,
        vec![
            ("content-type", "multipart/x-mixed-replace; boundary=vvdframe"),
            ("cache-control", "no-store, no-cache, must-revalidate"),
            ("pragma", "no-cache"),
            ("connection", "close"),
        ]
    );
}

#[test]
fn latest_frame_is_answered() {
    let r = frame(Bytes::new());
    assert_eq!(r.status, 503);
    let h: Vec<(&str, &str)> = r.headers.iter().map(|h| (h.name, h.value)).collect();
    assert_eq!(h, vec![("content-type", "text/plain; charset=utf-8")]);
    assert!(matches!(&r.body, Body::Text(t) if t == "no frame captured yet"));
    let r = frame(Bytes::from(vec![1u8, 2]));
    assert_eq!(r.status, 200);
    let h: Vec<(&str, &str)> = r.headers.iter().map(|h| (h.name, h.value)).collect();
    assert_eq!(h, vec![("content-type", "image/jpeg"), ("cache-control", "no-store")]);
    assert!(matches!(&r.body, Body::Frame(f) if f[..] == [1u8, 2]));
}

#[test]
fn age_counts_from_the_last_frame() {
    assert_eq!(age_ms(0, 5000), -1);
    assert_eq!(age_ms(1000, 1500), 500);
    assert_eq!(age_ms(1000, 999), 0);
    assert_eq!(age_ms(1, u64::MAX), -2);
    assert_eq!(age_ms(1, 1 << 63), i64::MAX);
    assert_eq!(age_ms(1, (1 << 63) + 1), i64::MIN);
}

fn json(body: &Body) -> &str {
    match body {
        Body::Text(t) => t,
        Body::Frame(_) => panic!("a frame"),
    }
}

#[test]
fn health_is_reported() {
    let r = healthz_at(&stats(), 1042);
    assert_eq!(r.status, 200);
    let h: Vec<(&str, &str)> = r.headers.iter().map(|h| (h.name, h.value)).collect();
    assert_eq!(h, vec![("content-type", "application/json"), ("cache-control", "no-store")]);
    assert_eq!(
        json(&r.body),
        "{\"connected\":true,\"frames\":12,\"width\":1920,\"height\":1080,\"jpeg_bytes\":4567,\"frame_age_ms\":42}"
    );
    let r = healthz_at(&Stats::default(), 1042);
    assert_eq!(
        json(&r.body),
        "{\"connected\":false,\"frames\":0,\"width\":0,\"height\":0,\"jpeg_bytes\":0,\"frame_age_ms\":-1}"
    );
    let mut s = stats();
    s.last_frame_unix_ms = 1;
    assert!(json(&healthz_at(&s, (1 << 63) + 1).body).ends_with(":-9223372036854775808}"));
}

#[test]
fn health_is_reported_by_the_clock() {
    let mut s = stats();
    s.last_frame_unix_ms = u64::MAX;
    assert!(json(&healthz(&s).body).ends_with("\"frame_age_ms\":0}"));
}

#[test]
fn viewer_page_is_answered() {
    let r = index();
    assert_eq!(r.status, 200);
    assert_eq!((r.headers[0].name, r.headers[0].value), ("content-type", "text/html; charset=utf-8"));
    assert_eq!(r.headers.len(), 1);
    let page = json(&r.body);
    assert!(page.starts_with("<!doctype html>\n"));
    assert!(page.contains("src=\"/stream\""));
    assert!(page.contains("fetch('/healthz'"));
    assert!(page.ends_with("</html>\n"));
}
