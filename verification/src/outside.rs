//! What the library takes from other crates: byte buffers, the JPEG encoder,
//! gRPC metadata values, and lossy UTF-8 decoding.
use bytes::Bytes;
use jpeg_encoder::{ColorType, Encoder, EncodingError};
use tonic::metadata::errors::InvalidMetadataValue;
use tonic::metadata::{Ascii, MetadataValue};
use vstd::prelude::*;
use vstd::string::StringSliceAdditionalSpecFns;
use vstd::utf8::{
    decode_utf8, encode_utf8, encode_utf8_decode_utf8, encode_utf8_valid_utf8, valid_utf8,
};

verus! {

/// `bytes::Bytes`, an immutable shared byte buffer.
#[verifier::external_type_specification]
#[verifier::external_body]
pub struct ExBytes(bytes::Bytes);

/// The bytes that a `Bytes` buffer holds, in order.
pub uninterp spec fn content(b: Bytes) -> Seq<u8>;

/// `Bytes::len`: the number of bytes held.
pub assume_specification[ bytes::Bytes::len ](b: &bytes::Bytes) -> (n: usize)
    ensures
        n == content(*b).len(),
;

/// `Bytes::is_empty`: whether no byte is held.
pub assume_specification[ bytes::Bytes::is_empty ](b: &bytes::Bytes) -> (r: bool)
    ensures
        r == (content(*b).len() == 0),
;

/// `<Bytes as From<Vec<u8>>>::from`: a buffer of the vector's bytes.
#[verifier::external_body]
pub(crate) fn buffer_of(v: Vec<u8>) -> (b: Bytes)
    ensures
        content(b) == v@,
{
    Bytes::from(v)
}

/// `<Bytes as AsRef<[u8]>>::as_ref`: the bytes held, as a slice.
#[verifier::external_body]
pub(crate) fn buffer_slice(b: &Bytes) -> (s: &[u8])
    ensures
        s@ == content(*b),
{
    b.as_ref()
}

/// Why the JPEG encoder refused an image.
#[derive(Debug)]
pub enum EncodeError {
    /// An application segment with a number out of range.
    InvalidAppSegment(u8),
    /// An application segment that is too long.
    AppSegmentTooLarge(usize),
    /// A colour profile that is too long.
    IccTooLarge(usize),
    /// Fewer bytes than the dimensions need.
    BadImageData { length: usize, required: usize },
    /// A width or a height of zero.
    ZeroImageDimensions { width: u16, height: u16 },
    /// An I/O error while writing the image.
    Io(String),
    /// Another error while writing the image.
    Write(String),
}

/// The bytes of the JPEG image that the encoder writes for `width` times
/// `height` RGB pixels at a quality.
pub uninterp spec fn jpeg_image(rgb: Seq<u8>, width: u16, height: u16, quality: u8) -> Seq<u8>;

/// What the encoder refuses: too few bytes first, then an empty image.
pub open spec fn encode_refusal(len: nat, width: u16, height: u16) -> Option<EncodeError> {
    let required = width * height * 3;
    if len < required {
        Some(EncodeError::BadImageData { length: len as usize, required: required as usize })
    } else if width == 0 || height == 0 {
        Some(EncodeError::ZeroImageDimensions { width, height })
    } else {
        None
    }
}

/// Whether `s` begins with the start-of-image marker and ends in the
/// end-of-image marker of a JPEG file.
pub open spec fn jpeg_framed(s: Seq<u8>) -> bool {
    &&& s.len() >= 4
    &&& s[0] == 0xff && s[1] == 0xd8
    &&& s[s.len() - 2] == 0xff && s[s.len() - 1] == 0xd9
}

/// `jpeg_encoder::Encoder::encode` for RGB pixels, writing to an empty vector.
/// Claimed: it fails exactly where `encode_refusal` says and for that reason,
/// since writing to a vector does not fail; what it writes depends on the
/// pixels, the dimensions and the quality alone, and stands between the two
/// markers of a JPEG file.
#[verifier::external_body]
pub(crate) fn write_jpeg(
    mut out: Vec<u8>,
    rgb: &[u8],
    width: u16,
    height: u16,
    quality: u8,
) -> (r: Result<Vec<u8>, EncodeError>)
    requires
        out@.len() == 0,
        width * height * 3 <= usize::MAX,
    ensures
        match r {
            Ok(jpeg) => {
                &&& encode_refusal(rgb@.len(), width, height) is None
                &&& jpeg@ == jpeg_image(rgb@, width, height, quality)
                &&& jpeg_framed(jpeg@)
            },
            Err(e) => encode_refusal(rgb@.len(), width, height) == Some(e),
        },
{
    match Encoder::new(&mut out, quality).encode(rgb, width, height, ColorType::Rgb) {
        Ok(()) => Ok(out),
        Err(EncodingError::InvalidAppSegment(n)) => Err(EncodeError::InvalidAppSegment(n)),
        Err(EncodingError::AppSegmentTooLarge(n)) => Err(EncodeError::AppSegmentTooLarge(n)),
        Err(EncodingError::IccTooLarge(n)) => Err(EncodeError::IccTooLarge(n)),
        Err(EncodingError::BadImageData { length, required }) => {
            Err(EncodeError::BadImageData { length, required })
        },
        Err(EncodingError::ZeroImageDimensions { width, height }) => {
            Err(EncodeError::ZeroImageDimensions { width, height })
        },
        Err(EncodingError::IoError(e)) => Err(EncodeError::Io(e.to_string())),
        Err(EncodingError::Write(text)) => Err(EncodeError::Write(text)),
    }
}

/// `tonic::metadata::errors::InvalidMetadataValue`, the error of a text that
/// is no metadata value.
#[verifier::external_type_specification]
#[verifier::external_body]
pub struct ExInvalidMetadataValue(tonic::metadata::errors::InvalidMetadataValue);

/// Whether every byte may stand in a metadata value: a tab, or any byte from
/// the space up but the delete character.
pub open spec fn metadata_safe(s: Seq<u8>) -> bool {
    forall|i: int| 0 <= i < s.len() ==> (#[trigger] s[i] == 9 || (s[i] >= 32 && s[i] != 127))
}

/// `<MetadataValue<Ascii> as FromStr>::from_str`, with the value as its bytes.
/// Claimed: a text is a value exactly where its UTF-8 bytes may all stand in
/// one, and the value is those bytes.
#[verifier::external_body]
pub(crate) fn metadata_value(text: &str) -> (r: Result<Vec<u8>, InvalidMetadataValue>)
    ensures
        match r {
            Ok(value) => metadata_safe(text.spec_bytes()) && value@ == text.spec_bytes(),
            Err(_) => !metadata_safe(text.spec_bytes()),
        },
{
    let value: MetadataValue<Ascii> = text.parse()?;
    Ok(value.as_encoded_bytes().to_vec())
}

/// The text that a byte sequence decodes to, with replacement characters for
/// what is not UTF-8.
pub uninterp spec fn lossy_text(bytes: Seq<u8>) -> Seq<char>;

/// The text of a command's output: the characters that it encodes where it is
/// valid UTF-8, and what lossy decoding makes of it where it is not.
pub open spec fn output_text(bytes: Seq<u8>) -> Seq<char> {
    if valid_utf8(bytes) {
        decode_utf8(bytes)
    } else {
        lossy_text(bytes)
    }
}

/// `String::from_utf8_lossy`. Claimed: the text depends on the bytes alone,
/// and valid UTF-8 decodes to the characters that it encodes.
#[verifier::external_body]
pub(crate) fn utf8_lossy(bytes: &[u8]) -> (s: String)
    ensures
        s@ == lossy_text(bytes@),
        valid_utf8(bytes@) ==> s@ == decode_utf8(bytes@),
{
    String::from_utf8_lossy(bytes).into_owned()
}

/// The output of a command that writes a text is that text.
pub proof fn written_output_is_read(text: Seq<char>, bytes: Seq<u8>)
    ensures
        output_text(encode_utf8(text)) == text,
        !valid_utf8(bytes) ==> output_text(bytes) == lossy_text(bytes),
{
    encode_utf8_valid_utf8(text);
    encode_utf8_decode_utf8(text);
}

} // verus!
