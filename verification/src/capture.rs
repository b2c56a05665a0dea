//! Screen capture: the loop that connects to the emulator, subscribes to its
//! screenshots, has each frame encoded as JPEG and publishes it, and connects
//! again with a growing delay when the stream ends or fails.
//!
//! `Capture` decides; its caller performs the action it asks for and reports
//! what came of it.
use crate::outside::{
    buffer_of, content, encode_refusal, jpeg_framed, jpeg_image, metadata_safe, metadata_value,
    write_jpeg, EncodeError,
};
use crate::text::utf8_of_parts;
use bytes::Bytes;
use vstd::arithmetic::power2::{lemma2_to64, lemma_pow2_unfold, pow2};
use vstd::prelude::*;
use vstd::utf8::{encode_utf8, encode_utf8_decode_utf8, is_ascii_chars_encode_utf8};

verus! {

/// What to capture, and with which credentials.
#[derive(Debug)]
pub struct CaptureOpts {
    /// The gRPC endpoint, such as `http://127.0.0.1:8554`.
    pub endpoint: String,
    /// The token that authenticates every call.
    pub token: String,
    /// The requested width; 0 asks for the native width of the device.
    pub width: u32,
    /// The display to capture.
    pub display: u32,
    /// The JPEG quality, from 1 to 100.
    pub quality: u8,
}

impl Clone for CaptureOpts {
    fn clone(&self) -> (r: CaptureOpts)
        ensures
            r == *self,
    {
        CaptureOpts {
            endpoint: self.endpoint.clone(),
            token: self.token.clone(),
            width: self.width,
            display: self.display,
            quality: self.quality,
        }
    }
}

/// What the capture has done so far.
#[derive(Clone, Copy, Debug, PartialEq, Eq, Structural)]
pub struct Stats {
    /// Frames published.
    pub frames: u64,
    /// The width of the last frame.
    pub width: u32,
    /// The height of the last frame.
    pub height: u32,
    /// When the last frame was published; 0 before the first.
    pub last_frame_unix_ms: u64,
    /// The size of the last JPEG image.
    pub jpeg_bytes: u64,
    /// Whether the screenshot stream is open.
    pub connected: bool,
}

impl Default for Stats {
    fn default() -> (s: Stats)
        ensures
            s == no_stats(),
    {
        Stats {
            frames: 0,
            width: 0,
            height: 0,
            last_frame_unix_ms: 0,
            jpeg_bytes: 0,
            connected: false,
        }
    }
}

/// The statistics before anything has happened.
pub open spec fn no_stats() -> Stats {
    Stats {
        frames: 0,
        width: 0,
        height: 0,
        last_frame_unix_ms: 0,
        jpeg_bytes: 0,
        connected: false,
    }
}

/// The low 16 bits of a dimension.
pub open spec fn low16(n: u32) -> u16 {
    (n as int % 0x1_0000) as u16
}

/// What a received screenshot is good for.
#[derive(Clone, Copy, Debug, PartialEq, Eq, Structural)]
pub enum FrameCheck {
    /// No bytes: the display is inactive.
    Inactive,
    /// No dimensions, or one that is zero.
    NoSize,
    /// Fewer bytes than the dimensions need.
    Short { len: usize, needed: usize },
    /// Enough bytes, of which the first `needed` are the pixels.
    Complete { needed: usize, width: u32, height: u32 },
}

/// The dimensions of a screenshot, where absent ones count as zero.
pub open spec fn dimensions(format: Option<(u32, u32)>) -> (u32, u32) {
    match format {
        Some(size) => size,
        None => (0, 0),
    }
}

/// The bytes that `width` times `height` RGB pixels take.
pub open spec fn rgb_len(width: u32, height: u32) -> int {
    width * height * 3
}

/// Whether the number of bytes that a screenshot needs fits a `usize`.
pub open spec fn frame_fits(len: nat, format: Option<(u32, u32)>) -> bool {
    len == 0 || rgb_len(dimensions(format).0, dimensions(format).1) <= usize::MAX
}

/// What a screenshot of `len` bytes is good for.
pub open spec fn frame_check(len: nat, format: Option<(u32, u32)>) -> FrameCheck {
    let (width, height) = dimensions(format);
    let needed = rgb_len(width, height);
    if len == 0 {
        FrameCheck::Inactive
    } else if width == 0 || height == 0 {
        FrameCheck::NoSize
    } else if len < needed {
        FrameCheck::Short { len: len as usize, needed: needed as usize }
    } else {
        FrameCheck::Complete { needed: needed as usize, width, height }
    }
}

/// Whether the number of bytes that a screenshot needs fits a `usize`.
pub fn size_fits(len: usize, format: Option<(u32, u32)>) -> (r: bool)
    ensures
        r == frame_fits(len as nat, format),
{
    if len == 0 {
        return true;
    }
    let (width, height) = match format {
        Some(size) => size,
        None => (0, 0),
    };
    assert(0 <= width * height <= 0xffff_ffff * 0xffff_ffff) by (nonlinear_arith)
        requires
            0 <= width <= 0xffff_ffff,
            0 <= height <= 0xffff_ffff,
    ;
    (width as u128) * (height as u128) * 3 <= usize::MAX as u128
}

/// Decides what a screenshot of `len` bytes is good for.
pub fn check_frame(len: usize, format: Option<(u32, u32)>) -> (r: FrameCheck)
    requires
        frame_fits(len as nat, format),
    ensures
        r == frame_check(len as nat, format),
{
    if len == 0 {
        return FrameCheck::Inactive;
    }
    let (width, height) = match format {
        Some(size) => size,
        None => (0, 0),
    };
    if width == 0 || height == 0 {
        return FrameCheck::NoSize;
    }
    assert(0 <= width * height) by (nonlinear_arith)
        requires
            0 <= width,
            0 <= height,
    ;
    let needed: usize = (width as usize) * (height as usize) * 3;
    if len < needed {
        FrameCheck::Short { len, needed }
    } else {
        FrameCheck::Complete { needed, width, height }
    }
}

/// Encodes `w` times `h` RGB pixels as a JPEG image.
pub fn encode_jpeg(rgb: &[u8], w: u16, h: u16, quality: u8) -> (r: Result<Vec<u8>, EncodeError>)
    requires
        w * h * 3 <= usize::MAX,
    ensures
        match r {
            Ok(jpeg) => {
                &&& encode_refusal(rgb@.len(), w, h) is None
                &&& jpeg@ == jpeg_image(rgb@, w, h, quality)
                &&& jpeg_framed(jpeg@)
            },
            Err(e) => encode_refusal(rgb@.len(), w, h) == Some(e),
        },
{
    let out: Vec<u8> = Vec::with_capacity(rgb.len() / 8 + 1024);
    write_jpeg(out, rgb, w, h, quality)
}

/// A pixel format of the emulator's screenshots.
#[derive(Clone, Copy, Debug, PartialEq, Eq, Structural)]
pub enum PixelFormat {
    Png,
    Rgba8888,
    Rgb888,
}

/// A subscription to screenshots.
#[derive(Clone, Copy, Debug, PartialEq, Eq, Structural)]
pub struct ScreenshotRequest {
    pub format: PixelFormat,
    pub width: u32,
    pub height: u32,
    pub display: u32,
}

/// The subscription that the options ask for: raw RGB at the requested width,
/// with the height left to the aspect ratio of the device.
pub open spec fn request_for(opts: CaptureOpts) -> ScreenshotRequest {
    ScreenshotRequest {
        format: PixelFormat::Rgb888,
        width: opts.width,
        height: 0,
        display: opts.display,
    }
}

/// The subscription that the options ask for.
pub fn screenshot_request(opts: &CaptureOpts) -> (r: ScreenshotRequest)
    ensures
        r == request_for(*opts),
{
    ScreenshotRequest {
        format: PixelFormat::Rgb888,
        width: opts.width,
        height: 0,
        display: opts.display,
    }
}

/// The text of the authorization header for a token.
pub open spec fn bearer(token: Seq<char>) -> Seq<char> {
    "Bearer "@ + token
}

/// The value of the authorization header for a token, or `None` where the
/// token holds a byte that cannot stand in a header.
pub fn auth_header(token: &str) -> (r: Option<Vec<u8>>)
    ensures
        match r {
            Some(value) => {
                &&& metadata_safe(encode_utf8(bearer(token@)))
                &&& value@ == encode_utf8(bearer(token@))
                &&& value@ == encode_utf8("Bearer "@) + encode_utf8(token@)
            },
            None => !metadata_safe(encode_utf8(bearer(token@))),
        },
{
    let mut text = "Bearer ".to_owned();
    text.append(token);
    proof {
        utf8_of_parts("Bearer "@, token@);
    }
    match metadata_value(text.as_str()) {
        Ok(value) => Some(value),
        Err(_) => None,
    }
}

/// The first delay before connecting again, in milliseconds.
pub const FIRST_BACKOFF_MS: u64 = 250;

/// The longest delay before connecting again, in milliseconds.
pub const MAX_BACKOFF_MS: u64 = 3000;

/// How long to wait for a connection, in milliseconds.
pub const CONNECT_TIMEOUT_MS: u64 = 5000;

/// The largest message that is decoded, in bytes.
pub const MAX_MESSAGE_BYTES: usize = 268_435_456;

/// Where a capture session failed.
#[derive(Debug)]
pub enum Failure {
    /// The channel could not be connected.
    Connect,
    /// The token makes no authorization header.
    AuthHeader,
    /// The subscription was refused.
    Subscribe,
    /// A message could not be received.
    Receive,
    /// The encoding task was lost.
    JoinEncoder,
    /// A frame could not be encoded.
    Encode(EncodeError),
}

impl Failure {
    /// What was being done when the session failed.
    pub open spec fn activity_text(self) -> Seq<char> {
        match self {
            Failure::Connect => "connect gRPC channel"@,
            Failure::AuthHeader => "build auth header"@,
            Failure::Subscribe => "streamScreenshot"@,
            Failure::Receive => "receive frame"@,
            Failure::JoinEncoder => "join encoder"@,
            Failure::Encode(_) => "jpeg encode"@,
        }
    }

    /// What was being done when the session failed.
    pub fn activity(&self) -> (s: &'static str)
        ensures
            s@ == self.activity_text(),
    {
        match self {
            Failure::Connect => "connect gRPC channel",
            Failure::AuthHeader => "build auth header",
            Failure::Subscribe => "streamScreenshot",
            Failure::Receive => "receive frame",
            Failure::JoinEncoder => "join encoder",
            Failure::Encode(_) => "jpeg encode",
        }
    }
}

/// Why a capture session is over.
#[derive(Debug)]
pub enum Cause {
    /// The emulator closed the stream.
    StreamEnded,
    /// Something failed.
    Failed(Failure),
}

/// What a capture is waiting for.
#[derive(Clone, Copy, Debug, PartialEq, Eq, Structural)]
pub enum Phase {
    Connecting,
    Subscribing,
    Receiving,
    Encoding { width: u32, height: u32 },
    Publishing,
    Waiting,
}

impl Phase {
    /// Whether the screenshot stream is open in this phase.
    pub open spec fn streaming(self) -> bool {
        self is Receiving || self is Encoding || self is Publishing
    }
}

/// What came of the action that a capture asked for.
#[derive(Debug)]
pub enum Event {
    /// Whether the channel was connected.
    Connected(bool),
    /// Whether the subscription was accepted.
    Subscribed(bool),
    /// A screenshot, with its dimensions where it has any.
    Message { image: Vec<u8>, format: Option<(u32, u32)> },
    /// The stream ended.
    StreamEnded,
    /// The stream failed.
    ReceiveFailed,
    /// The encoder's result, and the time in milliseconds since the epoch.
    Encoded { result: Result<Vec<u8>, EncodeError>, now: u64 },
    /// The encoding task was lost.
    EncoderLost,
    /// The frame was published.
    Published,
    /// The delay is over.
    Slept,
}

/// What an event says.
pub enum EventModel {
    Connected(bool),
    Subscribed(bool),
    Message { image: Seq<u8>, format: Option<(u32, u32)> },
    StreamEnded,
    ReceiveFailed,
    Encoded { result: Result<Seq<u8>, EncodeError>, now: u64 },
    EncoderLost,
    Published,
    Slept,
}

impl View for Event {
    type V = EventModel;

    open spec fn view(&self) -> EventModel {
        match *self {
            Event::Connected(ok) => EventModel::Connected(ok),
            Event::Subscribed(ok) => EventModel::Subscribed(ok),
            Event::Message { image, format } => EventModel::Message { image: image@, format },
            Event::StreamEnded => EventModel::StreamEnded,
            Event::ReceiveFailed => EventModel::ReceiveFailed,
            Event::Encoded { result, now } => EventModel::Encoded {
                result: match result {
                    Ok(jpeg) => Ok(jpeg@),
                    Err(e) => Err(e),
                },
                now,
            },
            Event::EncoderLost => EventModel::EncoderLost,
            Event::Published => EventModel::Published,
            Event::Slept => EventModel::Slept,
        }
    }
}

/// What a capture asks its caller to do next.
#[derive(Debug)]
pub enum Action {
    /// Connect to the endpoint.
    Connect,
    /// Subscribe to screenshots.
    Subscribe { authorization: Vec<u8>, request: ScreenshotRequest },
    /// Receive the next message; `skipped` says why the last one was dropped.
    Receive { skipped: Option<FrameCheck> },
    /// Encode pixels as JPEG.
    Encode { rgb: Vec<u8>, width: u16, height: u16, quality: u8 },
    /// Hand a frame to the viewers.
    Publish { frame: Bytes },
    /// Wait, then connect again.
    Retry { after_ms: u64, cause: Cause },
}

/// What an action says.
pub enum ActionModel {
    Connect,
    Subscribe { authorization: Seq<u8>, request: ScreenshotRequest },
    Receive { skipped: Option<FrameCheck> },
    Encode { rgb: Seq<u8>, width: u16, height: u16, quality: u8 },
    Publish { frame: Seq<u8> },
    Retry { after_ms: u64, cause: Cause },
}

impl View for Action {
    type V = ActionModel;

    open spec fn view(&self) -> ActionModel {
        match *self {
            Action::Connect => ActionModel::Connect,
            Action::Subscribe { authorization, request } => ActionModel::Subscribe {
                authorization: authorization@,
                request,
            },
            Action::Receive { skipped } => ActionModel::Receive { skipped },
            Action::Encode { rgb, width, height, quality } => ActionModel::Encode {
                rgb: rgb@,
                width,
                height,
                quality,
            },
            Action::Publish { frame } => ActionModel::Publish { frame: content(frame) },
            Action::Retry { after_ms, cause } => ActionModel::Retry { after_ms, cause },
        }
    }
}

/// The state of a capture.
pub struct CaptureState {
    pub opts: CaptureOpts,
    pub phase: Phase,
    pub backoff_ms: u64,
    pub stats: Stats,
}

impl CaptureState {
    /// The states that a capture can be in: the delay is within its bounds,
    /// and `connected` tells whether the stream is open.
    pub open spec fn wf(self) -> bool {
        &&& FIRST_BACKOFF_MS <= self.backoff_ms <= MAX_BACKOFF_MS
        &&& self.stats.connected == self.phase.streaming()
    }

    /// The state that a capture starts in.
    pub open spec fn initial(opts: CaptureOpts) -> CaptureState {
        CaptureState {
            opts,
            phase: Phase::Connecting,
            backoff_ms: FIRST_BACKOFF_MS,
            stats: no_stats(),
        }
    }

    /// Whether an event can come in this state.
    pub open spec fn expects(self, event: EventModel) -> bool {
        match (self.phase, event) {
            (Phase::Connecting, EventModel::Connected(_)) => true,
            (Phase::Subscribing, EventModel::Subscribed(_)) => true,
            (Phase::Receiving, EventModel::Message { image, format }) => frame_fits(
                image.len(),
                format,
            ),
            (Phase::Receiving, EventModel::StreamEnded) => true,
            (Phase::Receiving, EventModel::ReceiveFailed) => true,
            (Phase::Encoding { .. }, EventModel::Encoded { .. }) => true,
            (Phase::Encoding { .. }, EventModel::EncoderLost) => true,
            (Phase::Publishing, EventModel::Published) => true,
            (Phase::Waiting, EventModel::Slept) => true,
            _ => false,
        }
    }

    /// The state after a session that is over, where `delay` passes before the
    /// next one.
    pub open spec fn waiting(self, delay: u64) -> CaptureState {
        CaptureState {
            phase: Phase::Waiting,
            backoff_ms: next_backoff(delay),
            stats: Stats { connected: false, ..self.stats },
            ..self
        }
    }

    /// A session that failed: the delay is the current one.
    pub open spec fn failed(self, failure: Failure) -> (CaptureState, ActionModel) {
        (
            self.waiting(self.backoff_ms),
            ActionModel::Retry { after_ms: self.backoff_ms, cause: Cause::Failed(failure) },
        )
    }

    /// A session whose stream ended: the delay starts over.
    pub open spec fn ended(self) -> (CaptureState, ActionModel) {
        (
            self.waiting(FIRST_BACKOFF_MS),
            ActionModel::Retry { after_ms: FIRST_BACKOFF_MS, cause: Cause::StreamEnded },
        )
    }

    /// The state with the phase changed.
    pub open spec fn in_phase(self, phase: Phase) -> CaptureState {
        CaptureState { phase, ..self }
    }

    /// The next state and action, for an event that this state expects.
    pub open spec fn next(self, event: EventModel) -> (CaptureState, ActionModel) {
        match event {
            EventModel::Connected(ok) => {
                let authorization = encode_utf8(bearer(self.opts.token@));
                if !ok {
                    self.failed(Failure::Connect)
                } else if !metadata_safe(authorization) {
                    self.failed(Failure::AuthHeader)
                } else {
                    (
                        self.in_phase(Phase::Subscribing),
                        ActionModel::Subscribe { authorization, request: request_for(self.opts) },
                    )
                }
            },
            EventModel::Subscribed(ok) => if ok {
                (
                    CaptureState {
                        phase: Phase::Receiving,
                        stats: Stats { connected: true, ..self.stats },
                        ..self
                    },
                    ActionModel::Receive { skipped: None },
                )
            } else {
                self.failed(Failure::Subscribe)
            },
            EventModel::Message { image, format } => {
                let check = frame_check(image.len(), format);
                match check {
                    FrameCheck::Complete { needed, width, height } => (
                        self.in_phase(Phase::Encoding { width, height }),
                        ActionModel::Encode {
                            rgb: image.take(needed as int),
                            width: low16(width),
                            height: low16(height),
                            quality: self.opts.quality,
                        },
                    ),
                    _ => (self, ActionModel::Receive { skipped: Some(check) }),
                }
            },
            EventModel::StreamEnded => self.ended(),
            EventModel::ReceiveFailed => self.failed(Failure::Receive),
            EventModel::Encoded { result, now } => match result {
                Ok(jpeg) => (
                    CaptureState {
                        phase: Phase::Publishing,
                        stats: counted(self.stats, self.phase, jpeg.len(), now),
                        ..self
                    },
                    ActionModel::Publish { frame: jpeg },
                ),
                Err(e) => self.failed(Failure::Encode(e)),
            },
            EventModel::EncoderLost => self.failed(Failure::JoinEncoder),
            EventModel::Published => (
                self.in_phase(Phase::Receiving),
                ActionModel::Receive { skipped: None },
            ),
            EventModel::Slept => (self.in_phase(Phase::Connecting), ActionModel::Connect),
        }
    }
}

/// The delay after one of `delay`: twice as long, up to the longest.
pub open spec fn next_backoff(delay: u64) -> u64 {
    if 2 * delay <= MAX_BACKOFF_MS {
        (2 * delay) as u64
    } else {
        MAX_BACKOFF_MS
    }
}

/// The statistics once a frame of the phase's dimensions has been encoded to
/// `len` bytes. The frame counter wraps.
pub open spec fn counted(stats: Stats, phase: Phase, len: nat, now: u64) -> Stats {
    Stats {
        frames: if stats.frames == u64::MAX {
            0
        } else {
            (stats.frames + 1) as u64
        },
        width: phase->width,
        height: phase->height,
        last_frame_unix_ms: now,
        jpeg_bytes: len as u64,
        ..stats
    }
}

/// A capture: the state of the loop.
#[derive(Debug)]
pub struct Capture {
    opts: CaptureOpts,
    phase: Phase,
    backoff_ms: u64,
    stats: Stats,
}

impl View for Capture {
    type V = CaptureState;

    closed spec fn view(&self) -> CaptureState {
        CaptureState {
            opts: self.opts,
            phase: self.phase,
            backoff_ms: self.backoff_ms,
            stats: self.stats,
        }
    }
}

impl Capture {
    /// A capture that has yet to connect, which is its first action.
    pub fn new(opts: CaptureOpts) -> (r: (Capture, Action))
        ensures
            r.0@ == CaptureState::initial(opts),
            r.0@.wf(),
            r.1@ == ActionModel::Connect,
    {
        let capture = Capture {
            opts,
            phase: Phase::Connecting,
            backoff_ms: FIRST_BACKOFF_MS,
            stats: Stats::default(),
        };
        (capture, Action::Connect)
    }

    /// The options.
    pub fn opts(&self) -> (r: &CaptureOpts)
        ensures
            *r == self@.opts,
    {
        &self.opts
    }

    /// The statistics.
    pub fn stats(&self) -> (r: Stats)
        ensures
            r == self@.stats,
    {
        self.stats
    }

    /// Whether an event can come in this state.
    pub fn accepts(&self, event: &Event) -> (r: bool)
        ensures
            r == self@.expects(event@),
    {
        match (self.phase, event) {
            (Phase::Connecting, Event::Connected(_)) => true,
            (Phase::Subscribing, Event::Subscribed(_)) => true,
            (Phase::Receiving, Event::Message { image, format }) => size_fits(image.len(), *format),
            (Phase::Receiving, Event::StreamEnded) => true,
            (Phase::Receiving, Event::ReceiveFailed) => true,
            (Phase::Encoding { .. }, Event::Encoded { .. }) => true,
            (Phase::Encoding { .. }, Event::EncoderLost) => true,
            (Phase::Publishing, Event::Published) => true,
            (Phase::Waiting, Event::Slept) => true,
            _ => false,
        }
    }

    /// Ends the session: `delay` passes before the next one.
    fn wait(&mut self, delay: u64, cause: Cause) -> (action: Action)
        requires
            delay <= MAX_BACKOFF_MS,
        ensures
            final(self)@ == old(self)@.waiting(delay),
            action@ == (ActionModel::Retry { after_ms: delay, cause }),
    {
        self.phase = Phase::Waiting;
        self.stats.connected = false;
        let doubled: u64 = delay * 2;
        self.backoff_ms = if doubled <= MAX_BACKOFF_MS {
            doubled
        } else {
            MAX_BACKOFF_MS
        };
        Action::Retry { after_ms: delay, cause }
    }

    fn fail(&mut self, failure: Failure) -> (action: Action)
        requires
            old(self)@.wf(),
        ensures
            (final(self)@, action@) == old(self)@.failed(failure),
    {
        let delay: u64 = self.backoff_ms;
        self.wait(delay, Cause::Failed(failure))
    }

    fn message(&mut self, image: Vec<u8>, format: Option<(u32, u32)>) -> (action: Action)
        requires
            frame_fits(image@.len(), format),
        ensures
            (final(self)@, action@) == old(self)@.next(
                EventModel::Message { image: image@, format },
            ),
    {
        let check = check_frame(image.len(), format);
        match check {
            FrameCheck::Complete { needed, width, height } => {
                self.phase = Phase::Encoding { width, height };
                let mut rgb = image;
                rgb.truncate(needed);
                assert(rgb@ == image@.take(needed as int));
                assert(width as u16 == width % 0x1_0000) by (bit_vector);
                assert(height as u16 == height % 0x1_0000) by (bit_vector);
                Action::Encode {
                    rgb,
                    width: #[verifier::truncate] (width as u16),
                    height: #[verifier::truncate] (height as u16),
                    quality: self.opts.quality,
                }
            },
            _ => Action::Receive { skipped: Some(check) },
        }
    }

    fn encoded(&mut self, width: u32, height: u32, jpeg: Vec<u8>, now: u64) -> (action: Action)
        requires
            old(self)@.phase == (Phase::Encoding { width, height }),
        ensures
            (final(self)@, action@) == old(self)@.next(
                EventModel::Encoded { result: Ok(jpeg@), now },
            ),
    {
        self.phase = Phase::Publishing;
        self.stats.frames = if self.stats.frames == u64::MAX {
            0
        } else {
            self.stats.frames + 1
        };
        self.stats.width = width;
        self.stats.height = height;
        self.stats.jpeg_bytes = jpeg.len() as u64;
        self.stats.last_frame_unix_ms = now;
        Action::Publish { frame: buffer_of(jpeg) }
    }

    /// Takes note of what came of the last action, and decides on the next.
    pub fn step(&mut self, event: Event) -> (action: Action)
        requires
            old(self)@.wf(),
            old(self)@.expects(event@),
        ensures
            (final(self)@, action@) == old(self)@.next(event@),
            final(self)@.wf(),
    {
        match event {
            Event::Connected(ok) => {
                if !ok {
                    return self.fail(Failure::Connect);
                }
                match auth_header(self.opts.token.as_str()) {
                    Some(authorization) => {
                        self.phase = Phase::Subscribing;
                        let request = screenshot_request(&self.opts);
                        Action::Subscribe { authorization, request }
                    },
                    None => self.fail(Failure::AuthHeader),
                }
            },
            Event::Subscribed(ok) => {
                if ok {
                    self.phase = Phase::Receiving;
                    self.stats.connected = true;
                    Action::Receive { skipped: None }
                } else {
                    self.fail(Failure::Subscribe)
                }
            },
            Event::Message { image, format } => self.message(image, format),
            Event::StreamEnded => self.wait(FIRST_BACKOFF_MS, Cause::StreamEnded),
            Event::ReceiveFailed => self.fail(Failure::Receive),
            Event::Encoded { result, now } => match result {
                Ok(jpeg) => match self.phase {
                    Phase::Encoding { width, height } => self.encoded(width, height, jpeg, now),
                    _ => {
                        assert(false);
                        Action::Connect
                    },
                },
                Err(e) => self.fail(Failure::Encode(e)),
            },
            Event::EncoderLost => self.fail(Failure::JoinEncoder),
            Event::Published => {
                self.phase = Phase::Receiving;
                Action::Receive { skipped: None }
            },
            Event::Slept => {
                self.phase = Phase::Connecting;
                Action::Connect
            },
        }
    }
}

/// The state after a sequence of events.
pub open spec fn after(s: CaptureState, events: Seq<EventModel>) -> CaptureState
    decreases events.len(),
{
    if events.len() == 0 {
        s
    } else {
        after(s, events.drop_last()).next(events.last()).0
    }
}

/// Whether each event of a sequence can come when it does.
pub open spec fn possible(s: CaptureState, events: Seq<EventModel>) -> bool
    decreases events.len(),
{
    events.len() > 0 ==> possible(s, events.drop_last()) && after(s, events.drop_last()).expects(
        events.last(),
    )
}

/// How many frames are published in the course of a sequence of events.
pub open spec fn published(s: CaptureState, events: Seq<EventModel>) -> nat
    decreases events.len(),
{
    if events.len() == 0 {
        0
    } else {
        let earlier = published(s, events.drop_last());
        if after(s, events.drop_last()).next(events.last()).1 is Publish {
            earlier + 1
        } else {
            earlier
        }
    }
}

/// Whatever happens, a capture keeps its options, its delay stays within its
/// bounds, `connected` tells whether the stream is open, and the frame counter
/// is the number of frames published, kept to 64 bits.
pub proof fn capture_invariant(opts: CaptureOpts, events: Seq<EventModel>)
    requires
        possible(CaptureState::initial(opts), events),
    ensures
        ({
            let s = after(CaptureState::initial(opts), events);
            &&& s.wf()
            &&& s.opts == opts
            &&& s.stats.frames == published(CaptureState::initial(opts), events) as int
                % 0x1_0000_0000_0000_0000
        }),
    decreases events.len(),
{
    if events.len() > 0 {
        capture_invariant(opts, events.drop_last());
    }
}

/// A frame counts when it is published, and nothing else changes what the
/// statistics say of the last frame.
pub proof fn only_publishing_counts(s: CaptureState, event: EventModel)
    requires
        s.wf(),
        s.expects(event),
    ensures
        ({
            let (t, action) = s.next(event);
            action !is Publish ==> t.stats == (Stats {
                connected: t.stats.connected,
                ..s.stats
            })
        }),
{
}

/// The pixels that are handed to the encoder are enough for the dimensions
/// that go with them, so the encoder can refuse them for nothing but a
/// dimension whose low 16 bits are zero.
pub proof fn encoder_gets_enough_pixels(s: CaptureState, event: EventModel)
    requires
        s.expects(event),
    ensures
        s.next(event).1 matches ActionModel::Encode { rgb, width, height, .. } ==> {
            &&& width * height * 3 <= rgb.len() <= usize::MAX
            &&& encode_refusal(rgb.len(), width, height) is Some ==> width == 0 || height == 0
        },
{
    if let EventModel::Message { image, format } = event {
        if let FrameCheck::Complete { needed, width, height } = frame_check(image.len(), format) {
            let (w, h) = (low16(width), low16(height));
            assert(0 <= w * h <= width * height) by (nonlinear_arith)
                requires
                    0 <= w <= width,
                    0 <= h <= height,
            ;
        }
    }
}

/// The delay after `n` doublings of the first one.
pub open spec fn backoff_after(n: nat) -> u64
    decreases n,
{
    if n == 0 {
        FIRST_BACKOFF_MS
    } else {
        next_backoff(backoff_after((n - 1) as nat))
    }
}

/// The state after `n` sessions in a row that could not connect.
pub open spec fn after_refusals(s: CaptureState, n: nat) -> CaptureState
    decreases n,
{
    if n == 0 {
        s
    } else {
        after_refusals(s, (n - 1) as nat).next(EventModel::Connected(false)).0.next(
            EventModel::Slept,
        ).0
    }
}

/// The delays double from 250 ms until they reach 3 s, where they stay.
pub proof fn backoff_doubles_up_to_the_longest(n: nat)
    ensures
        backoff_after(n) == if FIRST_BACKOFF_MS * pow2(n) <= MAX_BACKOFF_MS {
            FIRST_BACKOFF_MS * pow2(n)
        } else {
            MAX_BACKOFF_MS as int
        },
    decreases n,
{
    lemma2_to64();
    if n > 0 {
        backoff_doubles_up_to_the_longest((n - 1) as nat);
        lemma_pow2_unfold(n);
    }
}

/// When the emulator cannot be reached, the wait after the n-th failure in a
/// row is the first delay doubled n times, up to the longest; a stream that
/// ended is tried again after the first delay, whatever came before.
pub proof fn refusals_back_off(s: CaptureState, n: nat)
    requires
        s.phase == Phase::Connecting,
        s.backoff_ms == FIRST_BACKOFF_MS,
    ensures
        after_refusals(s, n).phase == Phase::Connecting,
        after_refusals(s, n).next(EventModel::Connected(false)).1 == (ActionModel::Retry {
            after_ms: backoff_after(n),
            cause: Cause::Failed(Failure::Connect),
        }),
        forall|t: CaptureState| #[trigger]
            t.next(EventModel::StreamEnded).1 == (ActionModel::Retry {
                after_ms: FIRST_BACKOFF_MS,
                cause: Cause::StreamEnded,
            }),
    decreases n,
{
    if n > 0 {
        refusals_back_off(s, (n - 1) as nat);
    }
}

/// A complete screenshot ends up with the viewers: its pixels are encoded at
/// the quality of the options, what the encoder made of them is published as
/// it is, and the statistics tell of that frame.
pub proof fn captured_frame_is_published(
    s: CaptureState,
    image: Seq<u8>,
    width: u32,
    height: u32,
    jpeg: Seq<u8>,
    now: u64,
)
    requires
        s.wf(),
        s.phase == Phase::Receiving,
        width > 0 && height > 0,
        rgb_len(width, height) <= image.len() <= usize::MAX,
        jpeg.len() <= u64::MAX,
    ensures
        ({
            let message = EventModel::Message { image, format: Some((width, height)) };
            let done = EventModel::Encoded { result: Ok(jpeg), now };
            let (t, encode) = s.next(message);
            let (u, publish) = t.next(done);
            &&& s.expects(message)
            &&& encode == ActionModel::Encode {
                rgb: image.take(rgb_len(width, height)),
                width: low16(width),
                height: low16(height),
                quality: s.opts.quality,
            }
            &&& t.expects(done)
            &&& publish == ActionModel::Publish { frame: jpeg }
            &&& u.expects(EventModel::Published)
            &&& u.stats.width == width && u.stats.height == height
            &&& u.stats.jpeg_bytes == jpeg.len()
            &&& u.stats.last_frame_unix_ms == now
            &&& u.stats.connected
        }),
{
    assert(width * height > 0) by (nonlinear_arith)
        requires
            width > 0,
            height > 0,
    ;
}

/// Every subscription carries the token: its authorization is the bytes of
/// `Bearer` and the token, which may all stand in a header, and it asks for
/// what the options ask for. Without such a header nothing is asked of the
/// emulator.
pub proof fn every_subscription_is_authorized(s: CaptureState, event: EventModel)
    requires
        s.expects(event),
    ensures
        s.next(event).1 matches ActionModel::Subscribe { authorization, request } ==> {
            &&& authorization == encode_utf8(bearer(s.opts.token@))
            &&& metadata_safe(authorization)
            &&& request == request_for(s.opts)
        },
        s.next(event).0.phase is Subscribing ==> s.next(event).1 is Subscribe,
        s.next(event).0.phase is Receiving && !(s.phase.streaming()) ==> s.phase is Subscribing,
{
}

/// In every state some event is expected, so a capture goes on forever.
pub proof fn capture_is_never_stuck(s: CaptureState)
    ensures
        exists|event: EventModel| s.expects(event),
{
    let event = match s.phase {
        Phase::Connecting => EventModel::Connected(true),
        Phase::Subscribing => EventModel::Subscribed(true),
        Phase::Receiving => EventModel::StreamEnded,
        Phase::Encoding { .. } => EventModel::EncoderLost,
        Phase::Publishing => EventModel::Published,
        Phase::Waiting => EventModel::Slept,
    };
    assert(s.expects(event));
}

/// The authorization for a token is the seven bytes of `Bearer` and a space,
/// and behind them the UTF-8 bytes of the whole token, so different tokens are
/// sent differently. It can be sent exactly where no byte of the token is a
/// control character other than the tab.
pub proof fn authorization_carries_the_whole_token(token: Seq<char>, other: Seq<char>)
    ensures
        ({
            let value = encode_utf8(bearer(token));
            let bytes = encode_utf8(token);
            &&& value.len() == 7 + bytes.len()
            &&& value.take(7) == seq![0x42u8, 0x65, 0x61, 0x72, 0x65, 0x72, 0x20]
            &&& value.skip(7) == bytes
            &&& other != token ==> encode_utf8(bearer(other)) != value
            &&& metadata_safe(value) <==> forall|i: int|
                0 <= i < bytes.len() ==> (#[trigger] bytes[i] == 9 || (bytes[i] >= 32 && bytes[i]
                    != 127))
        }),
{
    let lead = "Bearer "@;
    reveal_strlit("Bearer ");
    is_ascii_chars_encode_utf8(lead);
    utf8_of_parts(lead, token);
    utf8_of_parts(lead, other);
    let value = encode_utf8(bearer(token));
    let bytes = encode_utf8(token);
    assert(encode_utf8(lead) =~= seq![0x42u8, 0x65, 0x61, 0x72, 0x65, 0x72, 0x20]);
    assert(value.take(7) =~= encode_utf8(lead));
    assert(value.skip(7) =~= bytes);
    assert(encode_utf8(bearer(other)).skip(7) =~= encode_utf8(other));
    encode_utf8_decode_utf8(token);
    encode_utf8_decode_utf8(other);
    if metadata_safe(value) {
        assert forall|i: int| 0 <= i < bytes.len() implies (#[trigger] bytes[i] == 9 || (bytes[i]
            >= 32 && bytes[i] != 127)) by {
            assert(value[i + 7] == bytes[i]);
        }
    }
    if forall|i: int|
        0 <= i < bytes.len() ==> (#[trigger] bytes[i] == 9 || (bytes[i] >= 32 && bytes[i] != 127)) {
        assert forall|i: int| 0 <= i < value.len() implies (#[trigger] value[i] == 9 || (value[i]
            >= 32 && value[i] != 127)) by {
            if i >= 7 {
                assert(value[i] == bytes[i - 7]);
            } else {
                assert(value[i] == value.take(7)[i]);
            }
        }
    }
}

/// A capture starts by connecting, with the shortest delay and nothing done.
pub proof fn capture_starts_afresh(opts: CaptureOpts)
    ensures
        ({
            let s = CaptureState::initial(opts);
            &&& s.opts == opts
            &&& s.phase is Connecting
            &&& s.backoff_ms == 250
            &&& s.stats.frames == 0 && s.stats.width == 0 && s.stats.height == 0
            &&& s.stats.last_frame_unix_ms == 0 && s.stats.jpeg_bytes == 0
            &&& !s.stats.connected
        }),
{
}

/// A connection leads to a subscription for raw RGB at the width and of the
/// display that the options ask for, with the height left open, authorized by
/// the token; a token that cannot be sent ends the session. Nothing else
/// changes.
pub proof fn connection_leads_to_a_subscription(s: CaptureState)
    requires
        s.phase is Connecting,
    ensures
        s.expects(EventModel::Connected(true)),
        ({
            let token = encode_utf8(s.opts.token@);
            let (t, action) = s.next(EventModel::Connected(true));
            if forall|i: int|
                0 <= i < token.len() ==> (#[trigger] token[i] == 9 || (token[i] >= 32 && token[i]
                    != 127)) {
                &&& action matches ActionModel::Subscribe { authorization, request }
                &&& authorization == encode_utf8("Bearer "@) + token
                &&& request.format is Rgb888
                &&& request.width == s.opts.width
                &&& request.height == 0
                &&& request.display == s.opts.display
                &&& t == (CaptureState { phase: Phase::Subscribing, ..s })
            } else {
                &&& action == ActionModel::Retry {
                    after_ms: s.backoff_ms,
                    cause: Cause::Failed(Failure::AuthHeader),
                }
                &&& t.phase is Waiting
            }
        }),
{
    authorization_carries_the_whole_token(s.opts.token@, s.opts.token@);
    utf8_of_parts("Bearer "@, s.opts.token@);
}

/// A subscription opens the stream: the capture is connected and waits for the
/// first frame. Nothing else changes.
pub proof fn subscription_opens_the_stream(s: CaptureState)
    requires
        s.phase is Subscribing,
    ensures
        s.expects(EventModel::Subscribed(true)),
        s.next(EventModel::Subscribed(true)) == (
            CaptureState {
                phase: Phase::Receiving,
                stats: Stats { connected: true, ..s.stats },
                ..s
            },
            ActionModel::Receive { skipped: None },
        ),
{
}

/// Which screenshots are encoded: those that are not empty, have dimensions
/// that are not zero, and hold three bytes for each pixel. Their first bytes
/// go to the encoder, with the low 16 bits of the dimensions and the quality
/// of the options. Every other one is passed over, with the reason, and
/// changes nothing.
pub proof fn complete_screenshots_are_encoded(s: CaptureState, image: Seq<u8>, w: u32, h: u32)
    requires
        s.phase is Receiving,
        image.len() <= usize::MAX,
        image.len() > 0 ==> w * h * 3 <= usize::MAX,
    ensures
        ({
            let message = EventModel::Message { image, format: Some((w, h)) };
            let (t, action) = s.next(message);
            &&& s.expects(message)
            &&& image.len() > 0 && w > 0 && h > 0 && w * h * 3 <= image.len() ==> {
                &&& action matches ActionModel::Encode { rgb, width, height, quality }
                &&& rgb == image.take(w * h * 3)
                &&& width as int == w as int % 65536
                &&& height as int == h as int % 65536
                &&& quality == s.opts.quality
                &&& t == (CaptureState { phase: Phase::Encoding { width: w, height: h }, ..s })
            }
            &&& image.len() == 0 ==> t == s && action == ActionModel::Receive {
                skipped: Some(FrameCheck::Inactive),
            }
            &&& image.len() > 0 && (w == 0 || h == 0) ==> t == s && action
                == ActionModel::Receive { skipped: Some(FrameCheck::NoSize) }
            &&& 0 < image.len() < w * h * 3 ==> {
                &&& t == s
                &&& action matches ActionModel::Receive {
                    skipped: Some(FrameCheck::Short { len, needed }),
                }
                &&& len == image.len()
                &&& needed == w * h * 3
            }
        }),
{
    if w == 0 || h == 0 {
        assert(w * h == 0) by (nonlinear_arith)
            requires
                w == 0 || h == 0,
        ;
    } else {
        assert(w * h > 0) by (nonlinear_arith)
            requires
                w > 0,
                h > 0,
        ;
    }
}

/// A screenshot without dimensions is passed over like one whose dimensions are
/// zero; a screenshot comes in turn exactly where it is empty or its size can
/// be told.
pub proof fn screenshots_without_dimensions_are_passed_over(s: CaptureState, image: Seq<u8>)
    requires
        s.phase is Receiving,
    ensures
        ({
            let message = EventModel::Message { image, format: None };
            &&& s.expects(message)
            &&& s.next(message) == (
                s,
                ActionModel::Receive {
                    skipped: Some(
                        if image.len() == 0 {
                            FrameCheck::Inactive
                        } else {
                            FrameCheck::NoSize
                        },
                    ),
                },
            )
        }),
        forall|w: u32, h: u32|
            (#[trigger] s.expects(EventModel::Message { image, format: Some((w, h)) })) <==> (
            image.len() == 0 || w * h * 3 <= usize::MAX),
{
}

/// What the encoder made is published as it is and counted: one frame more,
/// kept to 64 bits, of the dimensions of the screenshot, of as many bytes as
/// there are, at the time that was told. Nothing else changes.
pub proof fn encoded_frame_is_counted(s: CaptureState, jpeg: Seq<u8>, now: u64)
    requires
        s.phase is Encoding,
        jpeg.len() <= u64::MAX,
    ensures
        ({
            let done = EventModel::Encoded { result: Ok(jpeg), now };
            let (t, action) = s.next(done);
            &&& s.expects(done)
            &&& action == ActionModel::Publish { frame: jpeg }
            &&& t.opts == s.opts && t.backoff_ms == s.backoff_ms
            &&& t.phase is Publishing
            &&& t.stats.frames as int == (s.stats.frames + 1) % 0x1_0000_0000_0000_0000
            &&& s.phase == Phase::Encoding { width: t.stats.width, height: t.stats.height }
            &&& t.stats.jpeg_bytes == jpeg.len()
            &&& t.stats.last_frame_unix_ms == now
            &&& t.stats.connected == s.stats.connected
        }),
{
}

/// Once a frame is published the next one is waited for on the same stream, and
/// nothing else changes, however many came before.
pub proof fn publishing_goes_on_with_the_stream(s: CaptureState)
    requires
        s.phase is Publishing,
    ensures
        s.expects(EventModel::Published),
        s.next(EventModel::Published) == (
            CaptureState { phase: Phase::Receiving, ..s },
            ActionModel::Receive { skipped: None },
        ),
{
}

/// An open stream is left only when it ends or fails, or when a frame cannot be
/// encoded; and a capture waits only after something ended or failed.
pub proof fn open_stream_is_left_for_a_reason(s: CaptureState, event: EventModel)
    requires
        s.expects(event),
    ensures
        ({
            let (t, action) = s.next(event);
            let over = event is StreamEnded || event is ReceiveFailed || event is EncoderLost || (
            event matches EventModel::Encoded { result: Err(_), .. });
            let refused = event == EventModel::Connected(false) || event == EventModel::Subscribed(
                false,
            ) || (event is Connected && !metadata_safe(encode_utf8(bearer(s.opts.token@))));
            &&& (s.phase is Receiving || s.phase is Encoding || s.phase is Publishing) && !over ==> (
            t.phase is Receiving || t.phase is Encoding || t.phase is Publishing) && t.stats.connected
                == s.stats.connected
            &&& action is Retry <==> over || refused
            &&& t.phase is Waiting <==> over || refused
            &&& t.opts == s.opts
        }),
{
}

/// A session that is over is followed by a wait and another connection. After a
/// failure the wait is the current delay, and the next one is twice as long, up
/// to three seconds; after a stream that ended it is a quarter of a second, and
/// the next one half a second. The cause is what happened. The capture is not
/// connected, and the other statistics stay.
pub proof fn failed_session_is_tried_again(s: CaptureState, event: EventModel)
    requires
        s.wf(),
        s.expects(event),
    ensures
        ({
            let (t, action) = s.next(event);
            action matches ActionModel::Retry { after_ms, cause } ==> {
                &&& t.opts == s.opts
                &&& t.phase is Waiting
                &&& t.stats == (Stats { connected: false, ..s.stats })
                &&& match event {
                    EventModel::StreamEnded => cause is StreamEnded && after_ms == 250
                        && t.backoff_ms == 500,
                    _ => {
                        &&& after_ms == s.backoff_ms
                        &&& 2 * s.backoff_ms <= 3000 ==> t.backoff_ms == 2 * s.backoff_ms
                        &&& 2 * s.backoff_ms > 3000 ==> t.backoff_ms == 3000
                    },
                }
                &&& event == EventModel::Connected(false) ==> cause == Cause::Failed(
                    Failure::Connect,
                )
                &&& event == EventModel::Connected(true) ==> cause == Cause::Failed(
                    Failure::AuthHeader,
                )
                &&& event is Subscribed ==> cause == Cause::Failed(Failure::Subscribe)
                &&& event is ReceiveFailed ==> cause == Cause::Failed(Failure::Receive)
                &&& event is EncoderLost ==> cause == Cause::Failed(Failure::JoinEncoder)
                &&& event matches EventModel::Encoded { result: Err(e), .. } ==> cause
                    == Cause::Failed(Failure::Encode(e))
                &&& t.expects(EventModel::Slept)
                &&& t.next(EventModel::Slept) == (
                    CaptureState { phase: Phase::Connecting, ..t },
                    ActionModel::Connect,
                )
            }
        }),
{
}

/// What can come in each phase, whatever the options, the delay and the
/// statistics.
pub proof fn every_outcome_is_expected(s: CaptureState, yes: bool, e: EncodeError, now: u64)
    ensures
        s.phase is Connecting <==> s.expects(EventModel::Connected(yes)),
        s.phase is Subscribing <==> s.expects(EventModel::Subscribed(yes)),
        s.phase is Receiving <==> s.expects(EventModel::StreamEnded),
        s.phase is Receiving <==> s.expects(EventModel::ReceiveFailed),
        s.phase is Encoding <==> s.expects(EventModel::Encoded { result: Err(e), now }),
        s.phase is Encoding <==> s.expects(EventModel::EncoderLost),
        s.phase is Publishing <==> s.expects(EventModel::Published),
        s.phase is Waiting <==> s.expects(EventModel::Slept),
{
}

/// What an event holds is what the capture is told.
pub proof fn events_are_told_as_they_are(event: Event)
    ensures
        match event {
            Event::Connected(ok) => event@ == EventModel::Connected(ok),
            Event::Subscribed(ok) => event@ == EventModel::Subscribed(ok),
            Event::Message { image, format } => event@ == (EventModel::Message {
                image: image@,
                format,
            }),
            Event::StreamEnded => event@ is StreamEnded,
            Event::ReceiveFailed => event@ is ReceiveFailed,
            Event::Encoded { result: Ok(jpeg), now } => event@ == (EventModel::Encoded {
                result: Ok(jpeg@),
                now,
            }),
            Event::Encoded { result: Err(e), now } => event@ == (EventModel::Encoded {
                result: Err(e),
                now,
            }),
            Event::EncoderLost => event@ is EncoderLost,
            Event::Published => event@ is Published,
            Event::Slept => event@ is Slept,
        },
{
}

/// What the capture decides on is what its caller is asked to do.
pub proof fn actions_are_asked_for_as_decided(action: Action)
    ensures
        match action@ {
            ActionModel::Connect => action is Connect,
            ActionModel::Subscribe { authorization: a, request: r } => {
                &&& action matches Action::Subscribe { authorization, request }
                &&& authorization@ == a && request == r
            },
            ActionModel::Receive { skipped } => action == (Action::Receive { skipped }),
            ActionModel::Encode { rgb: p, width: w, height: h, quality: q } => {
                &&& action matches Action::Encode { rgb, width, height, quality }
                &&& rgb@ == p && width == w && height == h && quality == q
            },
            ActionModel::Publish { frame: f } => {
                &&& action matches Action::Publish { frame }
                &&& content(frame) == f
            },
            ActionModel::Retry { after_ms, cause } => action == (Action::Retry {
                after_ms,
                cause,
            }),
        },
{
}

/// Each failure is told apart by what was being done.
pub proof fn failures_are_told_apart(a: Failure, b: Failure)
    ensures
        a.activity_text() == b.activity_text() <==> {
            ||| a is Connect && b is Connect
            ||| a is AuthHeader && b is AuthHeader
            ||| a is Subscribe && b is Subscribe
            ||| a is Receive && b is Receive
            ||| a is JoinEncoder && b is JoinEncoder
            ||| a is Encode && b is Encode
        },
{
    reveal_strlit("connect gRPC channel");
    reveal_strlit("build auth header");
    reveal_strlit("streamScreenshot");
    reveal_strlit("receive frame");
    reveal_strlit("join encoder");
    reveal_strlit("jpeg encode");
    assert("connect gRPC channel"@[1] == 'o');
    assert("build auth header"@[1] == 'u');
    assert("streamScreenshot"@[1] == 't');
    assert("receive frame"@[1] == 'e');
    assert("join encoder"@[1] == 'o' && "join encoder"@[0] == 'j');
    assert("connect gRPC channel"@[0] == 'c');
    assert("jpeg encode"@[1] == 'p');
}

/// A connection is given five seconds, and a message of up to 256 MiB is
/// decoded, which every screenshot of up to 8192 by 8192 pixels fits with room
/// for what describes it.
pub proof fn connection_limits(width: u32, height: u32)
    requires
        width <= 8192,
        height <= 8192,
    ensures
        CONNECT_TIMEOUT_MS == 5 * 1000,
        MAX_MESSAGE_BYTES == 256 * 1024 * 1024,
        rgb_len(width, height) + 1024 * 1024 <= MAX_MESSAGE_BYTES,
{
    assert(width * height <= 8192 * 8192) by (nonlinear_arith)
        requires
            0 <= width <= 8192,
            0 <= height <= 8192,
    ;
}

} // verus!
