//! What the HTTP server answers: the viewer page, the MJPEG stream, the latest frame, and the
//! health of the capture.
use crate::capture::Stats;
use crate::clock::now_ms;
use crate::outside::{buffer_of, buffer_slice, content, jpeg_framed};
use crate::page::INDEX_HTML;
use crate::text::{
    begins_with, decimal, decimal_reads_back, decimal_text, digits_value, is_digit,
    first_index, joined_sides_split, lemma_first_index_bounds, lemma_first_index_is_first, no_sides, number_of, parse_undoes_decimal, sides_of,
};
use bytes::Bytes;
use vstd::prelude::*;
use vstd::utf8::{encode_utf8, is_ascii_chars, is_ascii_chars_encode_utf8};

verus! {

/// A header field of an answer.
#[derive(Debug)]
pub struct Header {
    pub name: &'static str,
    pub value: &'static str,
}

/// What the header fields of a list say, in order.
pub open spec fn fields(headers: Seq<Header>) -> Seq<(Seq<char>, Seq<char>)> {
    headers.map_values(|h: Header| (h.name@, h.value@))
}

/// The body of an answer.
#[derive(Debug)]
pub enum Body {
    Text(String),
    Frame(Bytes),
}

/// What a body says.
pub enum BodyModel {
    Text(Seq<char>),
    Frame(Seq<u8>),
}

impl View for Body {
    type V = BodyModel;

    open spec fn view(&self) -> BodyModel {
        match *self {
            Body::Text(text) => BodyModel::Text(text@),
            Body::Frame(frame) => BodyModel::Frame(content(frame)),
        }
    }
}

/// An answer.
#[derive(Debug)]
pub struct Reply {
    pub status: u16,
    pub headers: Vec<Header>,
    pub body: Body,
}

/// What an answer says.
pub struct ReplyModel {
    pub status: u16,
    pub headers: Seq<(Seq<char>, Seq<char>)>,
    pub body: BodyModel,
}

impl View for Reply {
    type V = ReplyModel;

    open spec fn view(&self) -> ReplyModel {
        ReplyModel { status: self.status, headers: fields(self.headers@), body: self.body@ }
    }
}

/// The boundary between the parts of a stream.
pub const BOUNDARY: &'static str = "vvdframe";

/// The content type of a stream.
pub const STREAM_TYPE: &'static str = "multipart/x-mixed-replace; boundary=vvdframe";

/// The header of a part of the stream, for a frame of `len` bytes.
pub open spec fn part_header(len: nat) -> Seq<char> {
    "--vvdframe\r\nContent-Type: image/jpeg\r\nContent-Length: "@ + decimal(len) + "\r\n\r\n"@
}

/// The part of the stream that carries a frame.
pub open spec fn part_of(jpeg: Seq<u8>) -> Seq<u8> {
    encode_utf8(part_header(jpeg.len())) + jpeg + encode_utf8("\r\n"@)
}

/// The part of the stream that carries a frame.
pub fn part(jpeg: &Bytes) -> (r: Bytes)
    ensures
        content(r) == part_of(content(*jpeg)),
{
    let mut header = "--vvdframe\r\nContent-Type: image/jpeg\r\nContent-Length: ".to_owned();
    header.append(decimal_text(jpeg.len() as u64).as_str());
    header.append("\r\n\r\n");
    assert(header@ == part_header(content(*jpeg).len()));
    let mut v: Vec<u8> = Vec::with_capacity(jpeg.len());
    v.extend_from_slice(header.as_str().as_bytes());
    assert(v@ =~= encode_utf8(header@));
    v.extend_from_slice(buffer_slice(jpeg));
    assert(v@ =~= encode_utf8(header@) + content(*jpeg));
    let ghost before = v@;
    v.extend_from_slice("\r\n".as_bytes());
    assert(v@ =~= before + encode_utf8("\r\n"@));
    buffer_of(v)
}

/// What a viewer's stream is told.
#[derive(Debug)]
pub enum StreamEvent {
    /// The latest frame: the one that is there when the stream opens, or a new
    /// one. It is empty before the first capture.
    Frame(Bytes),
    /// There will be no more frames.
    Closed,
}

/// What a viewer's stream does next.
#[derive(Debug)]
pub enum StreamAction {
    /// Send a part, then wait for a new frame.
    Send(Bytes),
    /// Wait for a new frame.
    Wait,
    /// End the stream.
    End,
}

/// What a stream action says.
pub enum StreamModel {
    Send(Seq<u8>),
    Wait,
    End,
}

impl View for StreamAction {
    type V = StreamModel;

    open spec fn view(&self) -> StreamModel {
        match *self {
            StreamAction::Send(part) => StreamModel::Send(content(part)),
            StreamAction::Wait => StreamModel::Wait,
            StreamAction::End => StreamModel::End,
        }
    }
}

/// What a stream does with a frame: an empty one is passed over.
pub open spec fn on_frame(frame: Seq<u8>) -> StreamModel {
    if frame.len() == 0 {
        StreamModel::Wait
    } else {
        StreamModel::Send(part_of(frame))
    }
}

/// Decides what a viewer's stream does next.
pub fn stream(event: StreamEvent) -> (action: StreamAction)
    ensures
        action@ == match event {
            StreamEvent::Frame(frame) => on_frame(content(frame)),
            StreamEvent::Closed => StreamModel::End,
        },
{
    match event {
        StreamEvent::Frame(frame) => {
            if frame.is_empty() {
                StreamAction::Wait
            } else {
                StreamAction::Send(part(&frame))
            }
        },
        StreamEvent::Closed => StreamAction::End,
    }
}

/// The status of a stream, and of every other answer that holds what was asked
/// for.
pub const OK: u16 = 200;

/// The status of an answer before there is a frame.
pub const UNAVAILABLE: u16 = 503;

/// The header fields of a stream: a sequence of parts that replace one
/// another, not to be kept anywhere.
pub fn stream_headers() -> (headers: Vec<Header>)
    ensures
        fields(headers@) == seq![
            ("content-type"@, STREAM_TYPE@),
            ("cache-control"@, "no-store, no-cache, must-revalidate"@),
            ("pragma"@, "no-cache"@),
            ("connection"@, "close"@),
        ],
{
    let headers = vec![
        Header { name: "content-type", value: STREAM_TYPE },
        Header { name: "cache-control", value: "no-store, no-cache, must-revalidate" },
        Header { name: "pragma", value: "no-cache" },
        Header { name: "connection", value: "close" },
    ];
    assert(fields(headers@) =~= seq![
        ("content-type"@, STREAM_TYPE@),
        ("cache-control"@, "no-store, no-cache, must-revalidate"@),
        ("pragma"@, "no-cache"@),
        ("connection"@, "close"@),
    ]);
    headers
}

/// Answers a request for the viewer page.
pub fn index() -> (reply: Reply)
    ensures
        reply@ == (ReplyModel {
            status: OK,
            headers: seq![("content-type"@, "text/html; charset=utf-8"@)],
            body: BodyModel::Text(INDEX_HTML@),
        }),
{
    let headers = vec![Header { name: "content-type", value: "text/html; charset=utf-8" }];
    assert(fields(headers@) =~= seq![("content-type"@, "text/html; charset=utf-8"@)]);
    Reply { status: OK, headers, body: Body::Text(INDEX_HTML.to_owned()) }
}

/// The answer to a request for the latest frame.
pub open spec fn frame_reply(frame: Seq<u8>) -> ReplyModel {
    if frame.len() == 0 {
        ReplyModel {
            status: UNAVAILABLE,
            headers: seq![("content-type"@, "text/plain; charset=utf-8"@)],
            body: BodyModel::Text("no frame captured yet"@),
        }
    } else {
        ReplyModel {
            status: OK,
            headers: seq![("content-type"@, "image/jpeg"@), ("cache-control"@, "no-store"@)],
            body: BodyModel::Frame(frame),
        }
    }
}

/// Answers a request for the latest frame, which is empty before the first
/// capture.
pub fn frame(latest: Bytes) -> (reply: Reply)
    ensures
        reply@ == frame_reply(content(latest)),
{
    if latest.is_empty() {
        let headers = vec![Header { name: "content-type", value: "text/plain; charset=utf-8" }];
        assert(fields(headers@) =~= seq![("content-type"@, "text/plain; charset=utf-8"@)]);
        Reply { status: UNAVAILABLE, headers, body: Body::Text("no frame captured yet".to_owned()) }
    } else {
        let headers = vec![
            Header { name: "content-type", value: "image/jpeg" },
            Header { name: "cache-control", value: "no-store" },
        ];
        assert(fields(headers@) =~= seq![
            ("content-type"@, "image/jpeg"@),
            ("cache-control"@, "no-store"@),
        ]);
        Reply { status: OK, headers, body: Body::Frame(latest) }
    }
}

/// The 64-bit two's complement value of the low 64 bits of `n`.
pub open spec fn as_signed(n: u64) -> int {
    if n <= i64::MAX {
        n as int
    } else {
        n - 0x1_0000_0000_0000_0000
    }
}

/// The age in milliseconds of a frame of the time `last`, at the time `now`:
/// -1 where there is no frame yet, and 0 where the clock has gone back.
pub open spec fn frame_age(last: u64, now: u64) -> int {
    if last == 0 {
        -1
    } else if now >= last {
        as_signed((now - last) as u64)
    } else {
        0
    }
}

/// The age of the last frame.
pub fn age_ms(last: u64, now: u64) -> (age: i64)
    ensures
        age == frame_age(last, now),
{
    if last == 0 {
        return -1;
    }
    let age: u64 = if now >= last {
        now - last
    } else {
        0
    };
    if age <= i64::MAX as u64 {
        age as i64
    } else {
        -((u64::MAX - age) as i64) - 1
    }
}

/// `n` in decimal, with a minus sign where it is negative.
pub open spec fn signed_decimal(n: int) -> Seq<char> {
    if n < 0 {
        "-"@ + decimal((-n) as nat)
    } else {
        decimal(n as nat)
    }
}

fn signed_text(n: i64) -> (s: String)
    ensures
        s@ == signed_decimal(n as int),
{
    if n < 0 {
        let mut s = "-".to_owned();
        let magnitude: u64 = (-(n + 1)) as u64 + 1;
        s.append(decimal_text(magnitude).as_str());
        s
    } else {
        decimal_text(n as u64)
    }
}

/// A truth value in JSON.
pub open spec fn json_bool(b: bool) -> Seq<char> {
    if b {
        "true"@
    } else {
        "false"@
    }
}

/// The health report: the statistics and the age of the last frame, in JSON.
pub open spec fn health_json(s: Stats, now: u64) -> Seq<char> {
    "{\"connected\":"@ + json_bool(s.connected) + ",\"frames\":"@ + decimal(s.frames as nat)
        + ",\"width\":"@ + decimal(s.width as nat) + ",\"height\":"@ + decimal(s.height as nat)
        + ",\"jpeg_bytes\":"@ + decimal(s.jpeg_bytes as nat) + ",\"frame_age_ms\":"@
        + signed_decimal(frame_age(s.last_frame_unix_ms, now)) + "}"@
}

/// The answer to a request for the health report.
pub open spec fn health_reply(s: Stats, now: u64) -> ReplyModel {
    ReplyModel {
        status: OK,
        headers: seq![("content-type"@, "application/json"@), ("cache-control"@, "no-store"@)],
        body: BodyModel::Text(health_json(s, now)),
    }
}

/// Answers a request for the health report at the time `now`.
pub fn healthz_at(s: &Stats, now: u64) -> (reply: Reply)
    ensures
        reply@ == health_reply(*s, now),
{
    let mut json = "{\"connected\":".to_owned();
    json.append(
        if s.connected {
            "true"
        } else {
            "false"
        },
    );
    json.append(",\"frames\":");
    json.append(decimal_text(s.frames).as_str());
    json.append(",\"width\":");
    json.append(decimal_text(s.width as u64).as_str());
    json.append(",\"height\":");
    json.append(decimal_text(s.height as u64).as_str());
    json.append(",\"jpeg_bytes\":");
    json.append(decimal_text(s.jpeg_bytes).as_str());
    json.append(",\"frame_age_ms\":");
    json.append(signed_text(age_ms(s.last_frame_unix_ms, now)).as_str());
    json.append("}");
    let headers = vec![
        Header { name: "content-type", value: "application/json" },
        Header { name: "cache-control", value: "no-store" },
    ];
    assert(fields(headers@) =~= seq![
        ("content-type"@, "application/json"@),
        ("cache-control"@, "no-store"@),
    ]);
    Reply { status: OK, headers, body: Body::Text(json) }
}

/// Answers a request for the health report, at the time that the system clock
/// shows.
pub fn healthz(s: &Stats) -> (reply: Reply)
    ensures
        exists|now: u64| reply@ == #[trigger] health_reply(*s, now),
{
    let now: u64 = now_ms();
    let reply = healthz_at(s, now);
    assert(reply@ == health_reply(*s, now));
    reply
}

/// The number of leading decimal digits of a byte sequence.
pub open spec fn digit_run(s: Seq<u8>) -> int
    decreases s.len(),
{
    if s.len() > 0 && 0x30 <= s[0] <= 0x39 {
        1 + digit_run(s.drop_first())
    } else {
        0
    }
}

/// The value of a run of decimal digits in ASCII.
pub open spec fn ascii_value(s: Seq<u8>) -> nat
    decreases s.len(),
{
    if s.len() == 0 {
        0
    } else {
        (ascii_value(s.drop_last()) * 10 + (s.last() - 0x30)) as nat
    }
}

/// Whether `s` begins with the bytes `t`.
pub open spec fn leads(s: Seq<u8>, t: Seq<u8>) -> bool {
    t.len() <= s.len() && s.take(t.len() as int) == t
}

/// How a viewer reads the first part of a stream: the boundary and the content
/// type, the length in decimal, an empty line, as many bytes as the length
/// says, and a line ending. The frame, and what comes after the part.
pub open spec fn first_frame(s: Seq<u8>) -> Option<(Seq<u8>, Seq<u8>)> {
    let lead = encode_utf8("--vvdframe\r\nContent-Type: image/jpeg\r\nContent-Length: "@);
    let gap = encode_utf8("\r\n\r\n"@);
    let end = encode_utf8("\r\n"@);
    if !leads(s, lead) {
        None
    } else {
        let a = s.skip(lead.len() as int);
        let n = digit_run(a);
        let len = ascii_value(a.take(n)) as int;
        let b = a.skip(n);
        if n == 0 || !leads(b, gap) {
            None
        } else {
            let c = b.skip(gap.len() as int);
            if len > c.len() || !leads(c.skip(len), end) {
                None
            } else {
                Some((c.take(len), c.skip(len + end.len())))
            }
        }
    }
}

proof fn lemma_digit_run(s: Seq<u8>, n: int)
    requires
        0 <= n < s.len(),
        forall|j: int| 0 <= j < n ==> 0x30 <= #[trigger] s[j] <= 0x39,
        !(0x30 <= s[n] <= 0x39),
    ensures
        digit_run(s) == n,
    decreases n,
{
    if n > 0 {
        let rest = s.drop_first();
        assert forall|j: int| 0 <= j < n - 1 implies 0x30 <= #[trigger] rest[j] <= 0x39 by {
            assert(rest[j] == s[j + 1]);
        }
        lemma_digit_run(rest, n - 1);
    }
}

/// The bytes of ASCII characters.
spec fn ascii(s: Seq<char>) -> Seq<u8> {
    Seq::new(s.len(), |i: int| s[i] as u8)
}

proof fn lemma_ascii_value(s: Seq<char>)
    requires
        forall|j: int| 0 <= j < s.len() ==> is_digit(#[trigger] s[j]),
    ensures
        ascii_value(ascii(s)) == digits_value(s),
    decreases s.len(),
{
    if s.len() > 0 {
        lemma_ascii_value(s.drop_last());
        assert(ascii(s).drop_last() =~= ascii(s.drop_last()));
        assert(is_digit(s[s.len() - 1]));
        assert(ascii(s).last() == s.last() as u8);
    }
}

/// A part gives its frame back: a viewer reads from the stream the frame that
/// was sent, whatever bytes it holds and whatever comes after it.
pub proof fn viewer_reads_what_was_sent(jpeg: Seq<u8>, rest: Seq<u8>)
    ensures
        first_frame(part_of(jpeg) + rest) == Some((jpeg, rest)),
{
    let lead_text = "--vvdframe\r\nContent-Type: image/jpeg\r\nContent-Length: "@;
    reveal_strlit("--vvdframe\r\nContent-Type: image/jpeg\r\nContent-Length: ");
    reveal_strlit("\r\n\r\n");
    reveal_strlit("\r\n");
    let digits = decimal(jpeg.len());
    decimal_reads_back(jpeg.len());
    let header = part_header(jpeg.len());
    assert forall|i: int| 0 <= i < header.len() implies (header[i] as u32) < 128 by {
        let k = i - lead_text.len();
        if 0 <= k < digits.len() {
            assert(header[i] == digits[k]);
            assert(is_digit(digits[k]));
        } else if i < lead_text.len() {
            assert(header[i] == lead_text[i]);
        }
    }
    assert(is_ascii_chars(header));
    is_ascii_chars_encode_utf8(header);
    is_ascii_chars_encode_utf8(lead_text);
    is_ascii_chars_encode_utf8("\r\n\r\n"@);
    is_ascii_chars_encode_utf8("\r\n"@);
    let lead = encode_utf8(lead_text);
    let gap = encode_utf8("\r\n\r\n"@);
    let end = encode_utf8("\r\n"@);
    assert(encode_utf8(header) =~= lead + ascii(digits) + gap);
    let s = part_of(jpeg) + rest;
    let a = s.skip(lead.len() as int);
    let n = digits.len() as int;
    assert(s.take(lead.len() as int) =~= lead);
    assert(a =~= ascii(digits) + gap + jpeg + end + rest);
    assert forall|j: int| 0 <= j < n implies 0x30 <= #[trigger] a[j] <= 0x39 by {
        assert(a[j] == digits[j] as u8);
        assert(is_digit(digits[j]));
    }
    assert(a[n] == gap[0]);
    assert(gap[0] == 13);
    lemma_digit_run(a, n);
    assert(a.take(n) =~= ascii(digits));
    lemma_ascii_value(digits);
    let b = a.skip(n);
    assert(b =~= gap + jpeg + end + rest);
    assert(b.take(gap.len() as int) =~= gap);
    let c = b.skip(gap.len() as int);
    assert(c =~= jpeg + end + rest);
    let len = jpeg.len() as int;
    assert(c.take(len) =~= jpeg);
    assert(c.skip(len) =~= end + rest);
    assert(c.skip(len).take(end.len() as int) =~= end);
    assert(c.skip(len + end.len()) =~= rest);
}

/// What a viewer is sent in the course of the frames that it is shown.
pub open spec fn sent(frames: Seq<Seq<u8>>) -> Seq<u8>
    decreases frames.len(),
{
    if frames.len() == 0 {
        Seq::empty()
    } else {
        let now = match on_frame(frames[0]) {
            StreamModel::Send(part) => part,
            _ => Seq::empty(),
        };
        now + sent(frames.drop_first())
    }
}

/// The frames that a viewer reads from `n` parts of a stream, and what comes
/// after them.
pub open spec fn read_frames(s: Seq<u8>, n: nat) -> Option<(Seq<Seq<u8>>, Seq<u8>)>
    decreases n,
{
    if n == 0 {
        Some((Seq::empty(), s))
    } else {
        match first_frame(s) {
            Some((frame, rest)) => match read_frames(rest, (n - 1) as nat) {
                Some((more, tail)) => Some((seq![frame] + more, tail)),
                None => None,
            },
            None => None,
        }
    }
}

/// The frames that are not empty, in order.
pub open spec fn shown(frames: Seq<Seq<u8>>) -> Seq<Seq<u8>>
    decreases frames.len(),
{
    if frames.len() == 0 {
        Seq::empty()
    } else if frames[0].len() == 0 {
        shown(frames.drop_first())
    } else {
        seq![frames[0]] + shown(frames.drop_first())
    }
}

/// A viewer reads from the stream the frames that it was shown, in order, each
/// once, without the empty ones, and nothing else.
pub proof fn viewer_reads_every_frame(frames: Seq<Seq<u8>>)
    ensures
        read_frames(sent(frames), shown(frames).len()) == Some((shown(frames), Seq::<u8>::empty())),
    decreases frames.len(),
{
    if frames.len() > 0 {
        let rest = frames.drop_first();
        viewer_reads_every_frame(rest);
        if frames[0].len() == 0 {
            assert(sent(frames) =~= sent(rest));
        } else {
            viewer_reads_what_was_sent(frames[0], sent(rest));
            assert(shown(frames).len() == shown(rest).len() + 1);
        }
    }
}

/// What the encoder makes is never taken for the absence of a frame: the latest
/// frame is answered with it, and a stream sends it.
pub proof fn encoded_frame_is_served(jpeg: Seq<u8>)
    requires
        jpeg_framed(jpeg),
    ensures
        frame_reply(jpeg).status == OK,
        frame_reply(jpeg).body == BodyModel::Frame(jpeg),
        on_frame(jpeg) == StreamModel::Send(part_of(jpeg)),
{
}

/// The age of the last frame is -1 exactly where there is no time of a last
/// frame, and it does not shrink while the clock goes on, for as long as it
/// fits 63 bits.
pub proof fn age_tells_whether_there_is_a_frame(last: u64, now: u64, later: u64)
    ensures
        frame_age(last, now) == -1 <==> last == 0,
        last != 0 && now <= later && later - last <= i64::MAX ==> 0 <= frame_age(last, now)
            <= frame_age(last, later),
{
}

/// The boundary that the header fields of a stream name is the one that opens
/// every part: two dashes and the boundary, on a line of their own.
pub proof fn named_boundary_opens_every_part(len: nat)
    ensures
        STREAM_TYPE@ == "multipart/x-mixed-replace; boundary="@ + BOUNDARY@,
        begins_with(part_header(len), "--"@ + BOUNDARY@ + "\r\n"@),
{
    reveal_strlit("multipart/x-mixed-replace; boundary=vvdframe");
    reveal_strlit("multipart/x-mixed-replace; boundary=");
    reveal_strlit("vvdframe");
    reveal_strlit("--");
    reveal_strlit("\r\n");
    reveal_strlit("--vvdframe\r\nContent-Type: image/jpeg\r\nContent-Length: ");
    assert(STREAM_TYPE@ =~= "multipart/x-mixed-replace; boundary="@ + BOUNDARY@);
    let opening = "--"@ + BOUNDARY@ + "\r\n"@;
    assert(part_header(len).take(opening.len() as int) =~= opening);
}

/// What a stream does with a frame, by what a viewer gets: nothing where the
/// frame is empty, and otherwise one part from which the frame, and nothing
/// else, is read.
pub proof fn stream_sends_what_is_read(frame: Seq<u8>)
    ensures
        frame.len() == 0 ==> on_frame(frame) is Wait,
        frame.len() > 0 ==> (on_frame(frame) matches StreamModel::Send(part) && first_frame(part)
            == Some((frame, Seq::<u8>::empty()))),
{
    viewer_reads_what_was_sent(frame, Seq::empty());
    assert(part_of(frame) + Seq::<u8>::empty() =~= part_of(frame));
}

/// What the stream decides on is what is sent.
pub proof fn stream_actions_are_asked_for_as_decided(action: StreamAction)
    ensures
        match action@ {
            StreamModel::Send(p) => action matches StreamAction::Send(part) && content(part) == p,
            StreamModel::Wait => action is Wait,
            StreamModel::End => action is End,
        },
{
}

/// The latest frame is answered as it is, as a JPEG image that is not to be
/// kept; where there is none yet, that is what the answer says, in plain text,
/// and the status tells that it may come.
pub proof fn latest_frame_is_answered_as_it_is(reply: Reply, frame: Seq<u8>)
    requires
        reply@ == frame_reply(frame),
    ensures
        frame.len() > 0 ==> {
            &&& reply.status == 200
            &&& reply.headers@.len() == 2
            &&& reply.headers@[0].name@ == "content-type"@
            &&& reply.headers@[0].value@ == "image/jpeg"@
            &&& reply.headers@[1].name@ == "cache-control"@
            &&& reply.headers@[1].value@ == "no-store"@
            &&& reply.body matches Body::Frame(body) && content(body) == frame
        },
        frame.len() == 0 ==> {
            &&& reply.status == 503
            &&& reply.headers@.len() == 1
            &&& reply.headers@[0].name@ == "content-type"@
            &&& reply.headers@[0].value@ == "text/plain; charset=utf-8"@
            &&& reply.body matches Body::Text(text) && text@ == "no frame captured yet"@
        },
{
    let f = fields(reply.headers@);
    lemma_fields(reply.headers@);
    assert(f[0] == (reply.headers@[0].name@, reply.headers@[0].value@));
    if frame.len() > 0 {
        assert(f[1] == (reply.headers@[1].name@, reply.headers@[1].value@));
    }
}

proof fn lemma_fields(headers: Seq<Header>)
    ensures
        fields(headers).len() == headers.len(),
        forall|i: int|
            0 <= i < headers.len() ==> #[trigger] fields(headers)[i] == (
                headers[i].name@,
                headers[i].value@,
            ),
{
}

/// The age of a frame is the time since it was published, in milliseconds, kept
/// to the range of 64 bits with a sign; a clock that has gone back counts as no
/// time, and without a frame the age is -1.
pub proof fn age_is_the_time_since_the_frame(last: u64, now: u64)
    ensures
        last == 0 ==> frame_age(last, now) == -1,
        last > 0 && now < last ==> frame_age(last, now) == 0,
        last > 0 && 0 <= now - last < 0x8000_0000_0000_0000 ==> frame_age(last, now) == now - last,
        last > 0 && now - last >= 0x8000_0000_0000_0000 ==> frame_age(last, now) == now - last
            - 0x1_0000_0000_0000_0000,
{
}

/// The members of a JSON object without nesting, between whose braces `s`
/// stands: the texts between the commas.
pub open spec fn json_members(s: Seq<char>) -> Seq<Seq<char>>
    decreases s.len(),
{
    match sides_of(s, ',') {
        Some((member, rest)) => {
            proof {
                lemma_first_index_bounds(s, ',');
            }
            seq![member] + json_members(rest)
        },
        None => seq![s],
    }
}

/// The value of the first of some members that has a name: what stands behind
/// the colon after the name in quotes.
pub open spec fn member_value(members: Seq<Seq<char>>, name: Seq<char>) -> Option<Seq<char>>
    decreases members.len(),
{
    if members.len() == 0 {
        None
    } else {
        match sides_of(members[0], ':') {
            Some((quoted, value)) => if quoted == seq!['"'] + name + seq!['"'] {
                Some(value)
            } else {
                member_value(members.drop_first(), name)
            },
            None => member_value(members.drop_first(), name),
        }
    }
}

/// How a reader finds a value by its name in a JSON object without nesting.
pub open spec fn json_value(s: Seq<char>, name: Seq<char>) -> Option<Seq<char>> {
    if s.len() < 2 || s[0] != '{' || s.last() != '}' {
        None
    } else {
        member_value(json_members(s.subrange(1, s.len() - 1)), name)
    }
}

/// The number that a JSON value writes.
pub open spec fn json_number(s: Seq<char>) -> Option<int> {
    if s.len() > 0 && s[0] == '-' {
        match number_of(s.drop_first(), u64::MAX as nat) {
            Some(n) => Some(-n),
            None => None,
        }
    } else {
        match number_of(s, u64::MAX as nat) {
            Some(n) => Some(n as int),
            None => None,
        }
    }
}

/// The number under a name in a JSON object.
pub open spec fn number_under(s: Seq<char>, name: Seq<char>) -> Option<int> {
    match json_value(s, name) {
        Some(value) => json_number(value),
        None => None,
    }
}

/// Whether a text can stand in a member without ending it.
spec fn plain(s: Seq<char>) -> bool {
    !s.contains(',') && !s.contains(':')
}

proof fn lemma_decimal_is_plain(n: nat)
    ensures
        plain(decimal(n)),
{
    decimal_reads_back(n);
    let s = decimal(n);
    assert forall|i: int| 0 <= i < s.len() implies s[i] != ',' && s[i] != ':' by {
        assert(is_digit(s[i]));
    }
}

/// A member of a JSON object.
spec fn member(name: Seq<char>, value: Seq<char>) -> Seq<char> {
    (seq!['"'] + name + seq!['"']).push(':') + value
}

proof fn lemma_member(name: Seq<char>, value: Seq<char>)
    requires
        plain(name),
        plain(value),
    ensures
        !member(name, value).contains(','),
        json_members(member(name, value)) == seq![member(name, value)],
        sides_of(member(name, value), ':') == Some((seq!['"'] + name + seq!['"'], value)),
{
    let quoted = seq!['"'] + name + seq!['"'];
    let m = member(name, value);
    assert forall|i: int| 0 <= i < quoted.len() implies quoted[i] != ',' && quoted[i] != ':' by {
        if 0 < i < quoted.len() - 1 {
            assert(quoted[i] == name[i - 1]);
            assert(name.contains(name[i - 1]));
        }
    }
    assert(!quoted.contains(':'));
    assert forall|i: int| 0 <= i < m.len() implies m[i] != ',' by {
        if i < quoted.len() {
            assert(m[i] == quoted[i]);
        } else if i > quoted.len() {
            assert(m[i] == value[i - quoted.len() - 1]);
            assert(value.contains(value[i - quoted.len() - 1]));
        }
    }
    joined_sides_split(quoted, ':', value);
    no_sides(m, ',');
}

/// Behind a comma comes one more member.
proof fn lemma_one_more_member(s: Seq<char>, m: Seq<char>)
    requires
        !m.contains(','),
    ensures
        json_members(s.push(',') + m) == json_members(s).push(m),
    decreases s.len(),
{
    let all = s.push(',') + m;
    let i = first_index(s, ',');
    lemma_first_index_bounds(s, ',');
    lemma_first_index_is_first(s, ',');
    no_sides(m, ',');
    assert(json_members(m) =~= seq![m]);
    if i < s.len() {
        let (a, rest) = (s.take(i), s.skip(i + 1));
        let more = rest.push(',') + m;
        lemma_one_more_member(rest, m);
        assert(!a.contains(','));
        assert(all =~= a.push(',') + more);
        joined_sides_split(a, ',', more);
        assert(json_members(all) == seq![a] + json_members(more));
        assert(json_members(all) =~= json_members(s).push(m));
    } else {
        assert(!s.contains(','));
        joined_sides_split(s, ',', m);
        assert(json_members(all) == seq![s] + json_members(m));
        assert(json_members(all) =~= json_members(s).push(m));
    }
}

/// A label and a value behind some members are one more member.
proof fn lemma_label(s: Seq<char>, label: Seq<char>, name: Seq<char>, value: Seq<char>)
    requires
        label == seq![',', '"'] + name + seq!['"', ':'],
        plain(name),
        plain(value),
    ensures
        ({
            let all = s.push(',') + member(name, value);
            &&& seq!['{'] + s + label + value == seq!['{'] + all
            &&& json_members(all) == json_members(s).push(member(name, value))
        }),
{
    let all = s.push(',') + member(name, value);
    assert(seq!['{'] + s + label + value =~= seq!['{'] + all);
    lemma_member(name, value);
    lemma_one_more_member(s, member(name, value));
}

/// The names of the health report, in order.
spec fn health_names() -> Seq<Seq<char>> {
    seq!["connected"@, "frames"@, "width"@, "height"@, "jpeg_bytes"@, "frame_age_ms"@]
}

proof fn lemma_health_names()
    ensures
        forall|i: int| 0 <= i < 6 ==> plain(#[trigger] health_names()[i]),
        forall|i: int, j: int|
            0 <= i < j < 6 ==> #[trigger] health_names()[i] != #[trigger] health_names()[j],
{
    reveal_strlit("connected");
    reveal_strlit("frames");
    reveal_strlit("width");
    reveal_strlit("height");
    reveal_strlit("jpeg_bytes");
    reveal_strlit("frame_age_ms");
    assert("frames"@[0] == 'f' && "height"@[0] == 'h');
    assert("connected"@.len() == 9 && "frames"@.len() == 6 && "width"@.len() == 5 && "height"@.len()
        == 6 && "jpeg_bytes"@.len() == 10 && "frame_age_ms"@.len() == 12);
}

proof fn lemma_health_labels()
    ensures
        "{\"connected\":"@ == seq!['{', '"'] + "connected"@ + seq!['"', ':'],
        ",\"frames\":"@ == seq![',', '"'] + "frames"@ + seq!['"', ':'],
        ",\"width\":"@ == seq![',', '"'] + "width"@ + seq!['"', ':'],
        ",\"height\":"@ == seq![',', '"'] + "height"@ + seq!['"', ':'],
        ",\"jpeg_bytes\":"@ == seq![',', '"'] + "jpeg_bytes"@ + seq!['"', ':'],
        ",\"frame_age_ms\":"@ == seq![',', '"'] + "frame_age_ms"@ + seq!['"', ':'],
        "}"@ == seq!['}'],
{
    assert("{\"connected\":"@ =~= seq!['{', '"'] + "connected"@ + seq!['"', ':']) by {
        reveal_strlit("{\"connected\":");
        reveal_strlit("connected");
    }
    assert(",\"frames\":"@ =~= seq![',', '"'] + "frames"@ + seq!['"', ':']) by {
        reveal_strlit(",\"frames\":");
        reveal_strlit("frames");
    }
    assert(",\"width\":"@ =~= seq![',', '"'] + "width"@ + seq!['"', ':']) by {
        reveal_strlit(",\"width\":");
        reveal_strlit("width");
    }
    assert(",\"height\":"@ =~= seq![',', '"'] + "height"@ + seq!['"', ':']) by {
        reveal_strlit(",\"height\":");
        reveal_strlit("height");
    }
    assert(",\"jpeg_bytes\":"@ =~= seq![',', '"'] + "jpeg_bytes"@ + seq!['"', ':']) by {
        reveal_strlit(",\"jpeg_bytes\":");
        reveal_strlit("jpeg_bytes");
    }
    assert(",\"frame_age_ms\":"@ =~= seq![',', '"'] + "frame_age_ms"@ + seq!['"', ':']) by {
        reveal_strlit(",\"frame_age_ms\":");
        reveal_strlit("frame_age_ms");
    }
    assert("}"@ =~= seq!['}']) by {
        reveal_strlit("}");
    }
}

/// The values of the health report, in the order of the names.
spec fn health_values(s: Stats, now: u64) -> Seq<Seq<char>> {
    seq![
        json_bool(s.connected),
        decimal(s.frames as nat),
        decimal(s.width as nat),
        decimal(s.height as nat),
        decimal(s.jpeg_bytes as nat),
        signed_decimal(frame_age(s.last_frame_unix_ms, now)),
    ]
}

proof fn lemma_health_values(s: Stats, now: u64)
    ensures
        forall|i: int| 0 <= i < 6 ==> plain(#[trigger] health_values(s, now)[i]),
{
    reveal_strlit("true");
    reveal_strlit("false");
    reveal_strlit("-");
    let n = frame_age(s.last_frame_unix_ms, now);
    let age = signed_decimal(n);
    lemma_decimal_is_plain(s.frames as nat);
    lemma_decimal_is_plain(s.width as nat);
    lemma_decimal_is_plain(s.height as nat);
    lemma_decimal_is_plain(s.jpeg_bytes as nat);
    if n < 0 {
        let d = decimal((-n) as nat);
        lemma_decimal_is_plain((-n) as nat);
        assert forall|i: int| 0 <= i < age.len() implies age[i] != ',' && age[i] != ':' by {
            if i > 0 {
                assert(age[i] == d[i - 1]);
                assert(d.contains(d[i - 1]));
            }
        }
    } else {
        lemma_decimal_is_plain(n as nat);
    }
}

proof fn lemma_health_members(s: Stats, now: u64)
    ensures
        ({
            let text = health_json(s, now);
            let members = json_members(text.subrange(1, text.len() - 1));
            &&& text.len() >= 2 && text[0] == '{' && text.last() == '}'
            &&& members.len() == 6
            &&& forall|i: int|
                0 <= i < 6 ==> #[trigger] members[i] == member(
                    health_names()[i],
                    health_values(s, now)[i],
                )
        }),
{
    lemma_health_labels();
    lemma_health_names();
    lemma_health_values(s, now);
    let (n, v) = (health_names(), health_values(s, now));
    assert(plain(n[0]) && plain(n[1]) && plain(n[2]) && plain(n[3]) && plain(n[4]) && plain(n[5]));
    assert(plain(v[0]) && plain(v[1]) && plain(v[2]) && plain(v[3]) && plain(v[4]) && plain(v[5]));
    let text = health_json(s, now);
    let l0 = member(n[0], v[0]);
    let l1 = l0.push(',') + member(n[1], v[1]);
    let l2 = l1.push(',') + member(n[2], v[2]);
    let l3 = l2.push(',') + member(n[3], v[3]);
    let l4 = l3.push(',') + member(n[4], v[4]);
    let l5 = l4.push(',') + member(n[5], v[5]);
    assert("{\"connected\":"@ + v[0] =~= seq!['{'] + l0);
    lemma_member(n[0], v[0]);
    lemma_label(l0, ",\"frames\":"@, n[1], v[1]);
    lemma_label(l1, ",\"width\":"@, n[2], v[2]);
    lemma_label(l2, ",\"height\":"@, n[3], v[3]);
    lemma_label(l3, ",\"jpeg_bytes\":"@, n[4], v[4]);
    lemma_label(l4, ",\"frame_age_ms\":"@, n[5], v[5]);
    assert(text == seq!['{'] + l5 + seq!['}']);
    assert(text.subrange(1, text.len() - 1) =~= l5);
}

/// A value is found by its name.
proof fn lemma_member_value(
    members: Seq<Seq<char>>,
    names: Seq<Seq<char>>,
    values: Seq<Seq<char>>,
    k: int,
)
    requires
        0 <= k < members.len(),
        names.len() == members.len() && values.len() == members.len(),
        forall|i: int| 0 <= i < names.len() ==> plain(#[trigger] names[i]),
        forall|i: int| 0 <= i < names.len() ==> plain(#[trigger] values[i]),
        forall|i: int|
            0 <= i < members.len() ==> #[trigger] members[i] == member(names[i], values[i]),
        forall|i: int| 0 <= i < k ==> #[trigger] names[i] != names[k],
    ensures
        member_value(members, names[k]) == Some(values[k]),
    decreases k,
{
    assert(members[0] == member(names[0], values[0]));
    assert(plain(names[0]) && plain(values[0]));
    lemma_member(names[0], values[0]);
    let quoted = seq!['"'] + names[0] + seq!['"'];
    let wanted = seq!['"'] + names[k] + seq!['"'];
    if k > 0 {
        assert(quoted != wanted) by {
            if quoted == wanted {
                assert(names[0] =~= quoted.subrange(1, quoted.len() - 1));
                assert(names[k] =~= wanted.subrange(1, wanted.len() - 1));
            }
        }
        let (m, n, v) = (members.drop_first(), names.drop_first(), values.drop_first());
        assert forall|i: int| 0 <= i < n.len() implies plain(#[trigger] n[i]) by {
            assert(n[i] == names[i + 1]);
        }
        assert forall|i: int| 0 <= i < n.len() implies plain(#[trigger] v[i]) by {
            assert(v[i] == values[i + 1]);
        }
        assert forall|i: int| 0 <= i < m.len() implies #[trigger] m[i] == member(n[i], v[i]) by {
            assert(m[i] == members[i + 1]);
        }
        assert forall|i: int| 0 <= i < k - 1 implies #[trigger] n[i] != n[k - 1] by {
            assert(n[i] == names[i + 1]);
        }
        lemma_member_value(m, n, v, k - 1);
    }
}

proof fn lemma_numbers_read_back(n: int)
    requires
        -0x1_0000_0000_0000_0000 < n < 0x1_0000_0000_0000_0000,
    ensures
        json_number(signed_decimal(n)) == Some(n),
        n >= 0 ==> json_number(decimal(n as nat)) == Some(n),
{
    reveal_strlit("-");
    let magnitude = if n < 0 {
        (-n) as nat
    } else {
        n as nat
    };
    parse_undoes_decimal(magnitude, u64::MAX as nat);
    decimal_reads_back(magnitude);
    assert(is_digit(decimal(magnitude)[0]));
    if n < 0 {
        assert(signed_decimal(n).drop_first() =~= decimal(magnitude));
    }
}

/// A reader of the health report finds in it whether the capture is connected,
/// the frames, the dimensions and the size of the last frame as the statistics
/// have them, and the age of the last frame.
pub proof fn health_is_read_back(s: Stats, now: u64)
    ensures
        ({
            let text = health_json(s, now);
            &&& s.connected ==> json_value(text, "connected"@) == Some("true"@)
            &&& !s.connected ==> json_value(text, "connected"@) == Some("false"@)
            &&& number_under(text, "frames"@) == Some(s.frames as int)
            &&& number_under(text, "width"@) == Some(s.width as int)
            &&& number_under(text, "height"@) == Some(s.height as int)
            &&& number_under(text, "jpeg_bytes"@) == Some(s.jpeg_bytes as int)
            &&& number_under(text, "frame_age_ms"@) == Some(frame_age(s.last_frame_unix_ms, now))
        }),
{
    lemma_health_members(s, now);
    lemma_health_names();
    lemma_health_values(s, now);
    let text = health_json(s, now);
    let members = json_members(text.subrange(1, text.len() - 1));
    let (names, values) = (health_names(), health_values(s, now));
    assert forall|k: int| 0 <= k < 6 implies json_value(text, #[trigger] names[k]) == Some(
        values[k],
    ) by {
        lemma_member_value(members, names, values, k);
    }
    assert(names[0] == "connected"@ && names[1] == "frames"@ && names[2] == "width"@);
    assert(names[3] == "height"@ && names[4] == "jpeg_bytes"@ && names[5] == "frame_age_ms"@);
    lemma_numbers_read_back(s.frames as int);
    lemma_numbers_read_back(s.width as int);
    lemma_numbers_read_back(s.height as int);
    lemma_numbers_read_back(s.jpeg_bytes as int);
    lemma_numbers_read_back(frame_age(s.last_frame_unix_ms, now));
}

/// The health report is answered with success, as JSON that is not to be kept,
/// and the report is the whole of the answer.
pub proof fn health_report_is_answered(reply: Reply, s: Stats, now: u64)
    requires
        reply@ == health_reply(s, now),
    ensures
        reply.status == 200,
        reply.headers@.len() == 2,
        reply.headers@[0].name@ == "content-type"@,
        reply.headers@[0].value@ == "application/json"@,
        reply.headers@[1].name@ == "cache-control"@,
        reply.headers@[1].value@ == "no-store"@,
        reply.body matches Body::Text(text) && text@ == health_json(s, now),
{
    let f = fields(reply.headers@);
    lemma_fields(reply.headers@);
    assert(f[0] == (reply.headers@[0].name@, reply.headers@[0].value@));
    assert(f[1] == (reply.headers@[1].name@, reply.headers@[1].value@));
}

} // verus!
