//! What the command line and the server that was brought up make of a capture.
use crate::capture::CaptureOpts;
use crate::text::{decimal, decimal_reads_back, decimal_text, number_of, parse_undoes_decimal};
use crate::vvd::GrpcTarget;
use vstd::prelude::*;
use vstd::string::StringSliceAdditionalSpecFns;
use vstd::utf8::is_char_boundary;

verus! {

/// The quality that is used where `asked` is asked for: the nearest from 1 to
/// 100.
pub open spec fn usable_quality(asked: u8) -> u8 {
    if asked < 1 {
        1
    } else if asked > 100 {
        100
    } else {
        asked
    }
}

/// The quality that is used where `asked` is asked for.
pub fn clamp_quality(asked: u8) -> (q: u8)
    ensures
        q == usable_quality(asked),
        1 <= q <= 100,
        1 <= asked <= 100 ==> q == asked,
{
    if asked < 1 {
        1
    } else if asked > 100 {
        100
    } else {
        asked
    }
}

/// The endpoint of the server on `port`.
pub open spec fn endpoint_text(port: u16) -> Seq<char> {
    "http://127.0.0.1:"@ + decimal(port as nat)
}

/// The endpoint of the server on `port`.
pub fn endpoint(port: u16) -> (s: String)
    ensures
        s@ == endpoint_text(port),
{
    let mut s = "http://127.0.0.1:".to_owned();
    s.append(decimal_text(port as u64).as_str());
    s
}

/// The options for capturing from a server.
pub fn capture_opts(target: GrpcTarget, width: u32, display: u32, quality: u8) -> (o: CaptureOpts)
    ensures
        o.endpoint@ == endpoint_text(target.port),
        o.token@ == target.token@,
        o.width == width,
        o.display == display,
        o.quality == usable_quality(quality),
{
    CaptureOpts {
        endpoint: endpoint(target.port),
        token: target.token,
        width,
        display,
        quality: clamp_quality(quality),
    }
}

/// How many bytes of a token are shown, at most.
pub const PREVIEW_BYTES: usize = 8;

/// Whether the bytes of a token that are shown end at the end of a character.
pub open spec fn previewable(token: &str) -> bool {
    token.spec_bytes().len() <= PREVIEW_BYTES || is_char_boundary(
        token.spec_bytes(),
        PREVIEW_BYTES as int,
    )
}

/// The first bytes of a token, for showing which one it is.
pub fn token_preview<'a>(token: &'a str) -> (s: &'a str)
    requires
        previewable(token),
    ensures
        s.spec_bytes() == if token.spec_bytes().len() <= PREVIEW_BYTES {
            token.spec_bytes()
        } else {
            token.spec_bytes().take(PREVIEW_BYTES as int)
        },
{
    if token.as_bytes().len() <= PREVIEW_BYTES {
        token
    } else {
        let (shown, _) = token.split_at(PREVIEW_BYTES);
        assert(token.spec_bytes().subrange(0, PREVIEW_BYTES as int) == token.spec_bytes().take(
            PREVIEW_BYTES as int,
        ));
        shown
    }
}

/// The quality that is used can be used, and no other that can be is nearer to
/// the one that is asked for.
pub proof fn nearest_quality_is_used(asked: u8, other: u8)
    requires
        1 <= other <= 100,
    ensures
        1 <= usable_quality(asked) <= 100,
        asked <= other ==> usable_quality(asked) <= other,
        other <= asked ==> other <= usable_quality(asked),
{
}

/// The endpoint is on the loopback interface, on the port and no other.
pub proof fn endpoint_is_on_the_port(port: u16, other: u16)
    ensures
        endpoint_text(port).len() > 17,
        endpoint_text(port).take(17) == "http://127.0.0.1:"@,
        number_of(endpoint_text(port).skip(17), 0xffff) == Some(port as nat),
        endpoint_text(port).skip(17) == decimal(port as nat),
        port != other ==> endpoint_text(port) != endpoint_text(other),
{
    reveal_strlit("http://127.0.0.1:");
    decimal_reads_back(port as nat);
    parse_undoes_decimal(port as nat, 0xffff);
    parse_undoes_decimal(other as nat, 0xffff);
    assert(endpoint_text(port).take(17) =~= "http://127.0.0.1:"@);
    assert(endpoint_text(port).skip(17) =~= decimal(port as nat));
    assert(endpoint_text(other).skip(17) =~= decimal(other as nat));
}

/// A token can be shown where its bytes are eight at most, or a character ends
/// with the eighth.
pub proof fn short_tokens_can_be_shown(token: &str)
    ensures
        previewable(token) <==> token.spec_bytes().len() <= 8 || is_char_boundary(
            token.spec_bytes(),
            8,
        ),
{
}

} // verus!
