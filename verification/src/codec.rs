//! What the library has from other crates to write and to read session descriptions: Base64,
//! Zstandard, JSON, UTF-8 and SDP.

use crate::description::{Description, DescriptionView, SdpKind};
use base64::prelude::{Engine, BASE64_STANDARD};
use vstd::prelude::*;
use vstd::utf8::{decode_utf8, valid_utf8};
use webrtc::peer_connection::sdp::sdp_type::RTCSdpType;
use webrtc::peer_connection::sdp::session_description::RTCSessionDescription;

verus! {

#[verifier::external_type_specification]
#[verifier::external_body]
pub struct ExBase64DecodeError(base64::DecodeError);

#[verifier::external_type_specification]
#[verifier::external_body]
pub struct ExIoError(std::io::Error);

#[verifier::external_type_specification]
#[verifier::external_body]
pub struct ExFromUtf8Error(std::string::FromUtf8Error);

#[verifier::external_type_specification]
#[verifier::external_body]
pub struct ExJsonError(serde_json::Error);

#[verifier::external_type_specification]
#[verifier::external_body]
pub struct ExWebrtcError(webrtc::Error);

/// The bytes that the Base64 text `text` stands for, or `None` where it is malformed.
pub uninterp spec fn base64_bytes(text: Seq<char>) -> Option<Seq<u8>>;

/// The Zstandard frame that holds `data`, compressed at `level`.
pub uninterp spec fn zstd_frame(data: Seq<u8>, level: int) -> Seq<u8>;

/// What the Zstandard frames in `frames` hold, or `None` where they are malformed.
pub uninterp spec fn zstd_content(frames: Seq<u8>) -> Option<Seq<u8>>;

/// The JSON text of a session description.
pub uninterp spec fn json_text(description: DescriptionView) -> Seq<char>;

/// The session description in the JSON text `text`, or `None` where it holds none.
pub uninterp spec fn json_description(text: Seq<char>) -> Option<DescriptionView>;

/// What the JSON text of a session description starts with.
pub open spec fn json_start() -> Seq<char> {
    "{\"type\":\""@
}

/// Whether `sdp` follows the grammar of SDP as far as the parser of the `sdp` crate goes.
pub uninterp spec fn is_sdp(sdp: Seq<char>) -> bool;

/// The character of the standard Base64 alphabet for a number below 64.
pub open spec fn base64_digit(n: int) -> char {
    if n < 26 {
        ('A' as int + n) as char
    } else if n < 52 {
        ('a' as int + n - 26) as char
    } else if n < 62 {
        ('0' as int + n - 52) as char
    } else if n == 62 {
        '+'
    } else {
        '/'
    }
}

/// The byte at index `i` of `data`, or zero after its end.
pub open spec fn byte_at(data: Seq<u8>, i: int) -> int {
    if i < data.len() {
        data[i] as int
    } else {
        0
    }
}

/// The character at index `i` of the Base64 text of `data`: four characters stand for the bits of
/// three bytes, six bits each, and padding for what goes past the end.
pub open spec fn base64_char(data: Seq<u8>, i: int) -> char {
    let start = i / 4 * 3;
    let bits = byte_at(data, start) * 0x10000 + byte_at(data, start + 1) * 0x100 + byte_at(
        data,
        start + 2,
    );
    if start + i % 4 > data.len() {
        '='
    } else if i % 4 == 0 {
        base64_digit(bits / 0x40000)
    } else if i % 4 == 1 {
        base64_digit(bits / 0x1000 % 64)
    } else if i % 4 == 2 {
        base64_digit(bits / 64 % 64)
    } else {
        base64_digit(bits % 64)
    }
}

/// The Base64 text of `data`, in the standard alphabet and with padding.
pub open spec fn base64_text(data: Seq<u8>) -> Seq<char> {
    Seq::new((data.len() + 2) / 3 * 4, |i: int| base64_char(data, i))
}

/// The characters of Base64 text in the standard alphabet, padding counted in.
pub open spec fn is_base64_char(c: char) -> bool {
    ||| 'A' <= c <= 'Z'
    ||| 'a' <= c <= 'z'
    ||| '0' <= c <= '9'
    ||| c == '+'
    ||| c == '/'
    ||| c == '='
}

/// Base64 text holds characters of the alphabet and padding alone, four for every three bytes and
/// for what is left.
pub proof fn law_base64_alphabet(data: Seq<u8>)
    ensures
        base64_text(data).len() % 4 == 0,
        forall|i: int|
            0 <= i < base64_text(data).len() ==> is_base64_char(#[trigger] base64_text(data)[i]),
{
    assert forall|i: int| 0 <= i < base64_text(data).len() implies is_base64_char(
        #[trigger] base64_text(data)[i],
    ) by {
        assert(base64_text(data)[i] == base64_char(data, i));
        assert(0 <= byte_at(data, i / 4 * 3) < 256);
    }
}

/// The four bytes with which a Zstandard frame starts.
pub open spec fn zstd_magic() -> Seq<u8> {
    seq![0x28u8, 0xb5u8, 0x2fu8, 0xfdu8]
}

/// Whether `data` starts as a frame does that the decompressor takes: with the magic number of
/// Zstandard frames, of skippable ones, or of those of an earlier version of the format.
pub open spec fn is_frame_start(data: Seq<u8>) -> bool {
    &&& data.len() >= 4
    &&& {
        ||| 0x22 <= data[0] <= 0x28 && data[1] == 0xb5 && data[2] == 0x2f && data[3] == 0xfd
        ||| 0x50 <= data[0] <= 0x5f && data[1] == 0x2a && data[2] == 0x4d && data[3] == 0x18
        ||| data[0] == 0xfd && data[1] == 0x2f && data[2] == 0xb5 && data[3] == 0x1e
    }
}

/// Whether the Base64 text of `len` bytes, four characters for every three of them and for what
/// is left, fits into one allocation.
pub open spec fn base64_fits(len: nat) -> bool {
    (len + 2) / 3 * 4 <= isize::MAX
}

/// `Engine::encode` of `BASE64_STANDARD`: gives the Base64 text in the standard alphabet and with
/// padding, from which `Engine::decode` gives the bytes back. The call panics where the text does
/// not fit into one allocation, so such bytes are left out.
#[verifier::external_body]
pub(crate) fn base64_encode(data: &[u8]) -> (r: String)
    requires
        base64_fits(data@.len()),
    ensures
        r@ == base64_text(data@),
        base64_bytes(r@) == Some(data@),
{
    BASE64_STANDARD.encode(data)
}

/// `Engine::decode` of `BASE64_STANDARD`: names the bytes, and says that the call fails where
/// there are none.
#[verifier::external_body]
pub(crate) fn base64_decode(text: &str) -> (r: Result<Vec<u8>, base64::DecodeError>)
    ensures
        match r {
            Ok(data) => base64_bytes(text@) == Some(data@),
            Err(_) => base64_bytes(text@) is None,
        },
{
    BASE64_STANDARD.decode(text)
}

/// `zstd::encode_all`: where the call succeeds, names the frame, and says that it starts with the
/// magic number of frames and holds `data`.
/// Nothing is said of when the call fails: it reads and writes memory alone, and fails only where
/// the compressor cannot get the memory that it works in, which no input decides.
#[verifier::external_body]
pub(crate) fn zstd_encode(data: &[u8], level: i32) -> (r: Result<Vec<u8>, std::io::Error>)
    ensures
        r matches Ok(frame) ==> frame@ == zstd_frame(data@, level as int) && zstd_content(frame@)
            == Some(data@) && zstd_magic().is_prefix_of(frame@),
{
    zstd::encode_all(data, level)
}

/// `zstd::decode_all`: where the call succeeds, names what the frames hold, and says that they
/// start as a frame does; so it fails where they are malformed. Nothing more is said of when the
/// call fails: the decompressor reports a lack of memory in the same way.
#[verifier::external_body]
pub(crate) fn zstd_decode(frames: &[u8]) -> (r: Result<Vec<u8>, std::io::Error>)
    ensures
        r matches Ok(data) ==> zstd_content(frames@) == Some(data@) && is_frame_start(frames@),
{
    zstd::decode_all(frames)
}

/// `serde_json::to_string` of an `RTCSessionDescription` with the given type and text: names the
/// JSON text, and says that it starts with the name of the type, which comes first, and that
/// `serde_json::from_str` reads the same type and text from it. The call does not fail: the fields
/// are an enum without data and a string.
#[verifier::external_body]
pub(crate) fn json_encode(description: &Description) -> (r: Result<String, serde_json::Error>)
    ensures
        match r {
            Ok(text) => text@ == json_text(description@) && json_description(text@)
                == Some(description@) && json_start().is_prefix_of(text@),
            Err(_) => false,
        },
{
    let mut value = RTCSessionDescription::default();
    value.sdp_type = match description.kind {
        SdpKind::Unspecified => RTCSdpType::Unspecified,
        SdpKind::Offer => RTCSdpType::Offer,
        SdpKind::Pranswer => RTCSdpType::Pranswer,
        SdpKind::Answer => RTCSdpType::Answer,
        SdpKind::Rollback => RTCSdpType::Rollback,
    };
    value.sdp = description.sdp.clone();
    serde_json::to_string(&value)
}

/// `serde_json::from_str` into an `RTCSessionDescription`: names its type and text, and says
/// that the call fails where there are none.
#[verifier::external_body]
pub(crate) fn json_decode(text: &str) -> (r: Result<Description, serde_json::Error>)
    ensures
        match r {
            Ok(description) => json_description(text@) == Some(description@),
            Err(_) => json_description(text@) is None,
        },
{
    let value: RTCSessionDescription = serde_json::from_str(text)?;
    let kind = match value.sdp_type {
        RTCSdpType::Unspecified => SdpKind::Unspecified,
        RTCSdpType::Offer => SdpKind::Offer,
        RTCSdpType::Pranswer => SdpKind::Pranswer,
        RTCSdpType::Answer => SdpKind::Answer,
        RTCSdpType::Rollback => SdpKind::Rollback,
    };
    Ok(Description { kind, sdp: value.sdp })
}

/// `RTCSessionDescription::offer`: names whether the text is SDP. Where it is, the description
/// is an offer with this text; where it is not, the call fails.
#[verifier::external_body]
pub(crate) fn sdp_offer(sdp: String) -> (r: Result<Description, webrtc::Error>)
    ensures
        match r {
            Ok(description) => is_sdp(sdp@) && description@ == (DescriptionView {
                kind: SdpKind::Offer,
                sdp: sdp@,
            }),
            Err(_) => !is_sdp(sdp@),
        },
{
    let value = RTCSessionDescription::offer(sdp)?;
    let kind = match value.sdp_type {
        RTCSdpType::Unspecified => SdpKind::Unspecified,
        RTCSdpType::Offer => SdpKind::Offer,
        RTCSdpType::Pranswer => SdpKind::Pranswer,
        RTCSdpType::Answer => SdpKind::Answer,
        RTCSdpType::Rollback => SdpKind::Rollback,
    };
    Ok(Description { kind, sdp: value.sdp })
}

/// `String::from_utf8` succeeds on valid UTF-8 and only there; the string is what the bytes
/// encode.
pub assume_specification[ String::from_utf8 ](vec: Vec<u8>) -> (r: Result<
    String,
    std::string::FromUtf8Error,
>)
    ensures
        match r {
            Ok(s) => valid_utf8(vec@) && s@ == decode_utf8(vec@),
            Err(_) => !valid_utf8(vec@),
        },
;

/// The Base64 text of some bytes is longer than one allocation can be exactly where there are more
/// than three of them for every four characters that one can hold. So it fits wherever there are
/// fewer than a thousand million bytes.
pub proof fn law_base64_fits(data: Seq<u8>)
    ensures
        base64_fits(data.len()) <==> data.len() <= isize::MAX / 4 * 3,
        base64_fits(data.len()) <==> base64_text(data).len() <= isize::MAX,
        data.len() < 1_000_000_000 ==> base64_fits(data.len()),
{
}

} // verus!
