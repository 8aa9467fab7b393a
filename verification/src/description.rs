//! Session descriptions, and the text in which two peers exchange them.

use crate::codec::{
    base64_bytes, base64_char, base64_decode, base64_encode, base64_fits, base64_text,
    is_base64_char, is_frame_start, json_decode, json_description, json_encode, json_start,
    json_text, law_base64_alphabet, zstd_content, zstd_decode, zstd_encode, zstd_frame, zstd_magic,
};
use crate::text::{
    is_white_space, join_lines, joined, law_lines, law_lines_hold_no_line_feed,
    law_lines_of_joined, lines, lines_of, starts_with, texts, without_empty_end,
};
use vstd::prelude::*;
use vstd::utf8::{decode_utf8, encode_utf8, valid_utf8};

verus! {

/// What a session description is for.
#[derive(Clone, Copy, Debug, PartialEq, Eq, Structural)]
pub enum SdpKind {
    Unspecified,
    Offer,
    Pranswer,
    Answer,
    Rollback,
}

/// A session description: its kind and its SDP text.
#[derive(Debug)]
pub struct Description {
    pub kind: SdpKind,
    pub sdp: String,
}

/// What a [`Description`] holds.
pub struct DescriptionView {
    pub kind: SdpKind,
    pub sdp: Seq<char>,
}

impl View for Description {
    type V = DescriptionView;

    open spec fn view(&self) -> DescriptionView {
        DescriptionView { kind: self.kind, sdp: self.sdp@ }
    }
}

/// The level at which descriptions are compressed.
pub const COMPRESSION_LEVEL: i32 = 3;

/// Why a description could not be written.
#[derive(Debug)]
pub enum WriteError {
    /// The description has no JSON form.
    Json(serde_json::Error),
    /// The compressor failed.
    Compression(std::io::Error),
    /// The Base64 text would not fit into one allocation.
    TooLong,
}

/// Why a description could not be read.
#[derive(Debug)]
pub enum ReadError {
    /// The text is not Base64.
    Base64(base64::DecodeError),
    /// The bytes could not be decompressed.
    Compression(std::io::Error),
    /// The bytes are not UTF-8.
    Utf8(std::string::FromUtf8Error),
    /// The text is not the JSON form of a description.
    Json(serde_json::Error),
}

/// The step at which reading a description failed.
pub enum ReadFault {
    Base64,
    Compression,
    Utf8,
    Json,
}

impl ReadError {
    /// The step that failed.
    pub open spec fn fault(self) -> ReadFault {
        match self {
            ReadError::Base64(_) => ReadFault::Base64,
            ReadError::Compression(_) => ReadFault::Compression,
            ReadError::Utf8(_) => ReadFault::Utf8,
            ReadError::Json(_) => ReadFault::Json,
        }
    }
}

/// The description that was read, or the step that failed.
pub open spec fn outcome(r: Result<Description, ReadError>) -> Result<
    DescriptionView,
    ReadFault,
> {
    match r {
        Ok(description) => Ok(description@),
        Err(e) => Err(e.fault()),
    }
}

/// The description whose JSON form is UTF-8 encoded in `data`.
pub open spec fn parsed(data: Seq<u8>) -> Result<DescriptionView, ReadFault> {
    if !valid_utf8(data) {
        Err(ReadFault::Utf8)
    } else {
        match json_description(decode_utf8(data)) {
            Some(description) => Ok(description),
            None => Err(ReadFault::Json),
        }
    }
}

/// The description that `text` stands for: Base64 of its JSON form, which is compressed where
/// `compress` holds.
pub open spec fn decoded(text: Seq<char>, compress: bool) -> Result<DescriptionView, ReadFault> {
    match base64_bytes(text) {
        None => Err(ReadFault::Base64),
        Some(payload) => if compress {
            match zstd_content(payload) {
                None => Err(ReadFault::Compression),
                Some(data) => parsed(data),
            }
        } else {
            parsed(payload)
        },
    }
}

/// The bytes whose Base64 text stands for the JSON form `json`.
pub open spec fn payload(json: Seq<char>, compress: bool) -> Seq<u8> {
    if compress {
        zstd_frame(encode_utf8(json), COMPRESSION_LEVEL as int)
    } else {
        encode_utf8(json)
    }
}

/// What the bytes start with whose Base64 text stands for a description.
pub open spec fn payload_start(compress: bool) -> Seq<u8> {
    if compress {
        zstd_magic()
    } else {
        encode_utf8(json_start())
    }
}

/// Text that is made of the characters of Base64 text alone.
pub open spec fn is_base64(text: Seq<char>) -> bool {
    forall|i: int| 0 <= i < text.len() ==> is_base64_char(#[trigger] text[i])
}

/// Whether the decompressor gives `r` for the bytes `frames`.
pub closed spec fn decompresses(frames: Seq<u8>, r: Result<Vec<u8>, std::io::Error>) -> bool {
    exists|s: &[u8]| s@ == frames && #[trigger] call_ensures(zstd_decode, (s,), r)
}

/// Whether the compressor gives `r` for the bytes `data` at `level`.
pub closed spec fn compresses(
    data: Seq<u8>,
    level: i32,
    r: Result<Vec<u8>, std::io::Error>,
) -> bool {
    exists|s: &[u8]| s@ == data && #[trigger] call_ensures(zstd_encode, (s, level), r)
}

/// Whether `r` is what is read out of what the decompressor gave.
pub open spec fn unpacked(
    data: Result<Vec<u8>, std::io::Error>,
    r: Result<Description, ReadError>,
) -> bool {
    match data {
        Ok(data) => outcome(r) == parsed(data@),
        Err(e) => r == Err::<Description, ReadError>(ReadError::Compression(e)),
    }
}

/// Whether `r` is the Base64 text of what the compressor gave.
pub open spec fn packed(
    frame: Result<Vec<u8>, std::io::Error>,
    r: Result<String, WriteError>,
) -> bool {
    match frame {
        Ok(frame) => match r {
            Ok(text) => base64_fits(frame@.len()) && text@ == base64_text(frame@) && base64_bytes(
                text@,
            ) == Some(frame@),
            Err(e) => e is TooLong && !base64_fits(frame@.len()),
        },
        Err(e) => r == Err::<String, WriteError>(WriteError::Compression(e)),
    }
}

/// Whether `r` is what comes of writing `description`: the text that stands for it, from which
/// it is read back, unless that would be too long. Only where it is to be compressed can writing
/// fail for another reason: where compressing its JSON form failed, for lack of memory.
pub open spec fn written(
    r: Result<String, WriteError>,
    description: DescriptionView,
    compress: bool,
) -> bool {
    let payload = payload(json_text(description), compress);
    match r {
        Ok(text) => {
            &&& base64_fits(payload.len())
            &&& text@ == base64_text(payload)
            &&& base64_bytes(text@) == Some(payload)
            &&& payload_start(compress).is_prefix_of(payload)
            &&& compress ==> zstd_content(payload) == Some(encode_utf8(json_text(description)))
            &&& is_base64(text@)
            &&& is_solid(text@)
            &&& decoded(text@, compress) == Ok::<DescriptionView, ReadFault>(description)
        },
        Err(WriteError::Json(_)) => false,
        Err(WriteError::Compression(e)) => compress && compresses(
            encode_utf8(json_text(description)),
            COMPRESSION_LEVEL,
            Err(e),
        ),
        Err(WriteError::TooLong) => !base64_fits(payload.len()),
    }
}

/// Whether `r` is what comes of reading `text`. Only where it is compressed can reading fail on
/// text that stands for a description: for lack of memory. It does fail there on bytes that do not
/// start as a frame does, and else only where decompressing these very bytes failed.
pub open spec fn read(r: Result<Description, ReadError>, text: Seq<char>, compress: bool) -> bool {
    let unpacking_failed = Err::<DescriptionView, ReadFault>(ReadFault::Compression);
    &&& {
        ||| outcome(r) == decoded(text, compress)
        ||| compress && base64_bytes(text) is Some && outcome(r) == unpacking_failed
    }
    &&& compress && (base64_bytes(text) matches Some(payload) && !is_frame_start(payload))
        ==> outcome(r) == unpacking_failed
    &&& compress ==> (base64_bytes(text) matches Some(payload) ==> exists|data: Result<
        Vec<u8>,
        std::io::Error,
    >| #[trigger]
        unpacked(data, r) && decompresses(payload, data))
}

/// Text that holds no white space.
pub open spec fn is_solid(text: Seq<char>) -> bool {
    forall|i: int| 0 <= i < text.len() ==> !is_white_space(#[trigger] text[i])
}

/// Whether `line` is not one that offers a candidate over UDP.
pub open spec fn is_kept(line: Seq<char>) -> bool {
    !"a=candidate:udp"@.is_prefix_of(line)
}

/// The lines of `sdp` that are kept.
pub open spec fn kept_lines(sdp: Seq<char>) -> Seq<Seq<char>> {
    lines(sdp).filter(|line: Seq<char>| is_kept(line))
}

/// Reads the description whose JSON form is UTF-8 encoded in `data`.
pub fn parse_description(data: Vec<u8>) -> (r: Result<Description, ReadError>)
    ensures
        outcome(r) == parsed(data@),
        match r {
            Ok(description) => valid_utf8(data@) && json_description(decode_utf8(data@)) == Some(
                description@,
            ),
            Err(ReadError::Utf8(_)) => !valid_utf8(data@),
            Err(ReadError::Json(_)) => valid_utf8(data@) && json_description(
                decode_utf8(data@),
            ) is None,
            Err(_) => false,
        },
{
    match String::from_utf8(data) {
        Ok(json) => match json_decode(json.as_str()) {
            Ok(description) => Ok(description),
            Err(e) => Err(ReadError::Json(e)),
        },
        Err(e) => Err(ReadError::Utf8(e)),
    }
}

/// Reads a description out of what the decompressor gave.
pub fn read_decompressed(data: Result<Vec<u8>, std::io::Error>) -> (r: Result<
    Description,
    ReadError,
>)
    ensures
        match data {
            Ok(data) => outcome(r) == parsed(data@),
            Err(e) => r == Err::<Description, ReadError>(ReadError::Compression(e)),
        },
        unpacked(data, r),
{
    match data {
        Ok(data) => parse_description(data),
        Err(e) => Err(ReadError::Compression(e)),
    }
}

/// Reads the description that `description` stands for.
pub fn decode_description(description: &str, compress: bool) -> (r: Result<
    Description,
    ReadError,
>)
    ensures
        read(r, description@, compress),
        r matches Err(ReadError::Base64(_)) <==> base64_bytes(description@) is None,
{
    match base64_decode(description) {
        Ok(payload) => if compress {
            read_decompressed(zstd_decode(payload.as_slice()))
        } else {
            parse_description(payload)
        },
        Err(e) => Err(ReadError::Base64(e)),
    }
}

/// The Base64 text of `payload`.
pub fn encode_payload(payload: &[u8]) -> (r: Result<String, WriteError>)
    ensures
        match r {
            Ok(text) => base64_fits(payload@.len()) && text@ == base64_text(payload@)
                && base64_bytes(text@) == Some(payload@) && is_base64(text@) && is_solid(text@),
            Err(e) => e is TooLong && !base64_fits(payload@.len()),
        },
        r is Ok <==> payload@.len() <= isize::MAX / 4 * 3,
{
    if payload.len() > isize::MAX as usize / 4 * 3 {
        return Err(WriteError::TooLong);
    }
    let text = base64_encode(payload);
    proof {
        law_base64_alphabet(payload@);
    }
    assert forall|i: int| 0 <= i < text@.len() implies !is_white_space(#[trigger] text@[i]) by {
        assert(is_base64_char(text@[i]));
    }
    Ok(text)
}

/// The Base64 text of what the compressor gave.
pub fn write_compressed(frame: Result<Vec<u8>, std::io::Error>) -> (r: Result<String, WriteError>)
    ensures
        match frame {
            Ok(frame) => match r {
                Ok(text) => base64_fits(frame@.len()) && text@ == base64_text(frame@)
                    && base64_bytes(text@) == Some(frame@) && is_base64(text@) && is_solid(text@),
                Err(e) => e is TooLong && !base64_fits(frame@.len()),
            },
            Err(e) => r == Err::<String, WriteError>(WriteError::Compression(e)),
        },
        packed(frame, r),
{
    match frame {
        Ok(frame) => encode_payload(frame.as_slice()),
        Err(e) => Err(WriteError::Compression(e)),
    }
}

/// The text that stands for the description with the JSON form `json`. Only where it is to be
/// compressed can it fail for another reason than its length: for lack of memory.
pub fn encode_json(json: &str, compress: bool) -> (r: Result<String, WriteError>)
    ensures
        match r {
            Ok(text) => base64_fits(payload(json@, compress).len()) && text@ == base64_text(
                payload(json@, compress),
            ) && base64_bytes(text@) == Some(payload(json@, compress)) && (compress
                ==> zstd_magic().is_prefix_of(payload(json@, compress)) && zstd_content(
                payload(json@, compress),
            ) == Some(encode_utf8(json@))) && is_base64(text@)
                && is_solid(text@) && decoded(text@, compress) == parsed(encode_utf8(json@)),
            Err(WriteError::Json(_)) => false,
            Err(WriteError::Compression(_)) => compress,
            Err(WriteError::TooLong) => !base64_fits(payload(json@, compress).len()),
        },
        !compress ==> (r is Ok <==> encode_utf8(json@).len() <= isize::MAX / 4 * 3),
        compress ==> exists|frame: Result<Vec<u8>, std::io::Error>| #[trigger]
            packed(frame, r) && compresses(encode_utf8(json@), COMPRESSION_LEVEL, frame),
{
    if compress {
        write_compressed(zstd_encode(json.as_bytes(), COMPRESSION_LEVEL))
    } else {
        encode_payload(json.as_bytes())
    }
}

/// The text that stands for `description`: what [`decode_description`] reads it back from.
pub fn encode_description(description: &Description, compress: bool) -> (r: Result<
    String,
    WriteError,
>)
    ensures
        written(r, description@, compress),
{
    match json_encode(description) {
        Ok(json) => {
            proof {
                vstd::utf8::encode_utf8_valid_utf8(json@);
                vstd::utf8::encode_utf8_decode_utf8(json@);
                lemma_encode_prefix(json_start(), json@);
            }
            encode_json(json.as_str(), compress)
        },
        Err(e) => Err(WriteError::Json(e)),
    }
}

/// `sdp` without the lines that offer a candidate over UDP. The other lines are joined by line
/// breaks, with none after the last.
pub fn remove_udp_candidates(sdp: &str) -> (r: String)
    ensures
        r@ == joined(kept_lines(sdp@)),
        r@ == joined(
            lines(sdp@).filter(|line: Seq<char>| !"a=candidate:udp"@.is_prefix_of(line)),
        ),
{
    let all = lines_of(sdp);
    let ghost pred = |line: Seq<char>| is_kept(line);
    let mut kept: Vec<String> = Vec::new();
    let mut i: usize = 0;
    assert(texts(all@).take(0).filter(pred) == texts(kept@)) by {
        reveal(Seq::filter);
    }
    while i < all.len()
        invariant
            i <= all.len(),
            pred == (|line: Seq<char>| is_kept(line)),
            texts(kept@) == texts(all@).take(i as int).filter(pred),
        decreases all.len() - i,
    {
        let ghost before = texts(kept@);
        proof {
            reveal(Seq::filter);
            assert(texts(all@).take(i + 1).drop_last() == texts(all@).take(i as int));
            assert(texts(all@).take(i + 1).last() == all@[i as int]@);
        }
        if !starts_with(all[i].as_str(), "a=candidate:udp") {
            kept.push(all[i].clone());
            assert(texts(kept@) == before.push(all@[i as int]@));
        }
        i = i + 1;
    }
    assert(texts(all@).take(all@.len() as int) == texts(all@));
    assert(pred =~= |line: Seq<char>| !"a=candidate:udp"@.is_prefix_of(line));
    join_lines(&kept)
}

/// No line that offers a candidate over UDP is left, and the other lines are read back as they
/// were and in their order, but for an empty last line.
pub proof fn law_candidates_removed(sdp: Seq<char>)
    ensures
        lines(joined(kept_lines(sdp))) == without_empty_end(kept_lines(sdp)),
        forall|i: int|
            0 <= i < lines(joined(kept_lines(sdp))).len() ==> is_kept(
                #[trigger] lines(joined(kept_lines(sdp)))[i],
            ),
{
    let pred = |line: Seq<char>| is_kept(line);
    let kept = kept_lines(sdp);
    law_lines_hold_no_line_feed(sdp);
    assert forall|i: int| 0 <= i < kept.len() implies !(#[trigger] kept[i]).contains('\n') by {
        assert(kept.contains(kept[i]));
        lines(sdp).lemma_filter_contains_rev(pred, kept[i]);
    }
    law_lines_of_joined(kept);
    assert forall|i: int| 0 <= i < lines(joined(kept)).len() implies is_kept(
        #[trigger] lines(joined(kept))[i],
    ) by {
        assert(lines(joined(kept))[i] == kept[i]);
        lines(sdp).lemma_filter_pred(pred, i);
    }
}

/// What was written is read back as it was. Only where it is compressed can reading it fail: where
/// the decompressor lacks memory.
pub proof fn law_written_is_read_back(
    text: Result<String, WriteError>,
    description: DescriptionView,
    compress: bool,
    r: Result<Description, ReadError>,
)
    requires
        written(text, description, compress),
        text is Ok,
        read(r, text->Ok_0@, compress),
    ensures
        match r {
            Ok(back) => back@ == description,
            Err(e) => compress && e is Compression,
        },
{
}

/// Two descriptions that are written to the same text are the same.
pub proof fn law_text_identifies_description(
    a: Result<String, WriteError>,
    b: Result<String, WriteError>,
    first: DescriptionView,
    second: DescriptionView,
    compress: bool,
)
    requires
        written(a, first, compress),
        written(b, second, compress),
        a is Ok,
        b is Ok,
        a->Ok_0@ == b->Ok_0@,
    ensures
        first == second,
{
}

/// The UTF-8 encoding of a text starts with that of the start of the text.
proof fn lemma_encode_prefix(start: Seq<char>, text: Seq<char>)
    requires
        start.is_prefix_of(text),
    ensures
        encode_utf8(start).is_prefix_of(encode_utf8(text)),
    decreases start.len(),
{
    if start.len() > 0 {
        assert(start[0] == text[0]);
        lemma_encode_prefix(start.drop_first(), text.drop_first());
    }
}

/// What the text of a description looks like: four characters for every three bytes and for what
/// is left, and the same start for all descriptions that are compressed, and for all that are not.
#[verifier::rlimit(30)]
pub proof fn law_written_text(
    r: Result<String, WriteError>,
    description: DescriptionView,
    compress: bool,
)
    requires
        written(r, description, compress),
        r is Ok,
    ensures
        r->Ok_0@.len() > 0,
        r->Ok_0@.len() % 4 == 0,
        compress ==> "KLUv/"@.is_prefix_of(r->Ok_0@),
        !compress ==> "eyJ0eXBlIjoi"@.is_prefix_of(r->Ok_0@),
{
    let payload = payload(json_text(description), compress);
    let start = payload_start(compress);
    let text = r->Ok_0@;
    assert forall|i: int| 0 <= i < start.len() implies payload[i] == start[i] by {}
    law_base64_alphabet(payload);
    reveal_strlit("KLUv/");
    reveal_strlit("eyJ0eXBlIjoi");
    reveal_strlit("{\"type\":\"");
    if compress {
        assert(text.len() >= 8);
        assert forall|i: int| 0 <= i < 5 implies "KLUv/"@[i] == text[i] by {
            assert(text[i] == base64_char(payload, i));
        }
    } else {
        vstd::utf8::is_ascii_chars_encode_utf8(json_start());
        assert(start == seq![0x7bu8, 0x22, 0x74, 0x79, 0x70, 0x65, 0x22, 0x3a, 0x22]);
        assert(text.len() >= 12);
        assert forall|i: int| 0 <= i < 12 implies "eyJ0eXBlIjoi"@[i] == text[i] by {
            assert(text[i] == base64_char(payload, i));
        }
    }
}

/// Text that was written with compression is refused where it is read without, and the other way
/// round.
pub proof fn law_other_flag_refused(
    text: Result<String, WriteError>,
    description: DescriptionView,
    compress: bool,
    r: Result<Description, ReadError>,
)
    requires
        written(text, description, compress),
        text is Ok,
        read(r, text->Ok_0@, !compress),
    ensures
        r is Err,
{
    let payload = payload(json_text(description), compress);
    let start = payload_start(compress);
    assert forall|i: int| 0 <= i < start.len() implies payload[i] == start[i] by {}
    if compress {
        let rest = vstd::utf8::pop_first_scalar(payload);
        assert(payload[0] == 0x28);
        assert(rest == payload.skip(1));
        assert(rest[0] == 0xb5);
        assert(!valid_utf8(rest));
        assert(!valid_utf8(payload));
    } else {
        reveal_strlit("{\"type\":\"");
        vstd::utf8::is_ascii_chars_encode_utf8(json_start());
        assert(payload[0] == 0x7b);
    }
}

/// A description holds its kind and its text, and its view holds nothing less.
pub proof fn law_description_view(description: Description)
    ensures
        description@.kind == description.kind,
        description@.sdp == description.sdp@,
{
}

/// What the decompressor gives for some bytes comes of a call on exactly these bytes, and what the
/// compressor gives of a call on exactly these bytes and this level.
pub(crate) proof fn law_codec_calls(
    data: Seq<u8>,
    level: i32,
    r: Result<Vec<u8>, std::io::Error>,
)
    ensures
        decompresses(data, r) <==> exists|s: &[u8]|
            s@ == data && #[trigger] call_ensures(zstd_decode, (s,), r),
        compresses(data, level, r) <==> exists|s: &[u8]|
            s@ == data && #[trigger] call_ensures(zstd_encode, (s, level), r),
{
}

/// Where the decompressor succeeds, it gives what the frames hold; and they do start as frames do.
pub proof fn law_decompresses(frames: Seq<u8>, data: Vec<u8>)
    requires
        decompresses(frames, Ok(data)),
    ensures
        zstd_content(frames) == Some(data@),
        is_frame_start(frames),
{
}

/// Where the compressor succeeds, it gives the frame of the data, which holds the data.
pub proof fn law_compresses(data: Seq<u8>, level: i32, frame: Vec<u8>)
    requires
        compresses(data, level, Ok(frame)),
    ensures
        frame@ == zstd_frame(data, level as int),
        zstd_content(frame@) == Some(data),
{
}

/// Text is read without compression as Base64 of the UTF-8 encoding of a JSON form, all of it: the
/// description is the one in that form, and each error says what the text is not.
pub proof fn law_plain_text_is_read(text: &str, r: Result<Description, ReadError>)
    requires
        call_ensures(decode_description, (text, false), r),
    ensures
        match base64_bytes(text@) {
            None => r matches Err(e) && e is Base64,
            Some(payload) => if !valid_utf8(payload) {
                r matches Err(e) && e is Utf8
            } else {
                match json_description(decode_utf8(payload)) {
                    None => r matches Err(e) && e is Json,
                    Some(held) => r matches Ok(description) && description.kind == held.kind
                        && description.sdp@ == held.sdp,
                }
            },
        },
{
}

/// Compressed text is read out of what the decompressor gives for all the bytes that its Base64
/// stands for. Reading it fails with a compression error only where the decompressor failed on
/// these very bytes, and with the error that came of that; where it gave data, the outcome is that
/// of reading that data.
pub proof fn law_compressed_text_is_read(
    text: &str,
    payload: Seq<u8>,
    r: Result<Description, ReadError>,
)
    requires
        call_ensures(decode_description, (text, true), r),
        base64_bytes(text@) == Some(payload),
    ensures
        exists|unpacked: Result<Vec<u8>, std::io::Error>| #[trigger]
            decompresses(payload, unpacked) && match unpacked {
                Err(cause) => r == Err::<Description, ReadError>(ReadError::Compression(cause)),
                Ok(data) => if !valid_utf8(data@) {
                    r matches Err(e) && e is Utf8
                } else {
                    match json_description(decode_utf8(data@)) {
                        None => r matches Err(e) && e is Json,
                        Some(held) => r matches Ok(description) && description.kind == held.kind
                            && description.sdp@ == held.sdp,
                    }
                },
            },
{
    let data = choose|data: Result<Vec<u8>, std::io::Error>| #[trigger]
        unpacked(data, r) && decompresses(payload, data);
    assert(decompresses(payload, data));
}

/// Text that is not Base64 is refused as such, compressed or not, and no other text is.
pub proof fn law_malformed_text_is_refused(
    text: &str,
    compress: bool,
    r: Result<Description, ReadError>,
)
    requires
        call_ensures(decode_description, (text, compress), r),
    ensures
        base64_bytes(text@) is None <==> (r matches Err(e) && e is Base64),
{
}

/// A description is written as the Base64 text of its whole JSON form in UTF-8, or of the frame
/// that holds all of it, compressed at level 3. Writing fails only where that text is longer than
/// an allocation can be, or where the compressor failed on the whole of that form.
pub proof fn law_description_is_written(
    description: &Description,
    compress: bool,
    r: Result<String, WriteError>,
)
    requires
        call_ensures(encode_description, (description, compress), r),
    ensures
        ({
            let json = encode_utf8(json_text(description@));
            match r {
                Ok(text) => {
                    &&& base64_bytes(text@) matches Some(payload)
                    &&& text@ == base64_text(payload)
                    &&& compress ==> payload == zstd_frame(json, 3) && zstd_content(payload)
                        == Some(json)
                    &&& !compress ==> payload == json
                    &&& payload.len() <= isize::MAX / 4 * 3
                },
                Err(WriteError::Json(_)) => false,
                Err(WriteError::Compression(cause)) => compress && compresses(json, 3, Err(cause)),
                Err(WriteError::TooLong) => if compress {
                    zstd_frame(json, 3).len() > isize::MAX / 4 * 3
                } else {
                    json.len() > isize::MAX / 4 * 3
                },
            }
        }),
{
    let json = json_text(description@);
    vstd::utf8::encode_utf8_valid_utf8(json);
    vstd::utf8::encode_utf8_decode_utf8(json);
}

/// What was written is read back: the same kind and the same text. Without compression, it always
/// is. With it, reading fails only where the decompressor fails on the very bytes that were
/// written.
pub proof fn law_round_trip(
    description: &Description,
    compress: bool,
    written: String,
    text: &str,
    r: Result<Description, ReadError>,
)
    requires
        call_ensures(encode_description, (description, compress), Ok(written)),
        text@ == written@,
        call_ensures(decode_description, (text, compress), r),
    ensures
        match r {
            Ok(back) => back.kind == description.kind && back.sdp@ == description.sdp@,
            Err(ReadError::Compression(cause)) => compress && (base64_bytes(text@) matches Some(
                payload,
            ) && decompresses(payload, Err(cause))),
            Err(_) => false,
        },
        !compress ==> r is Ok,
{
    law_written_is_read_back(Ok(written), description@, compress, r);
    if compress {
        law_compressed_text_is_read(text, base64_bytes(text@)->Some_0, r);
    }
}

/// The lines of an SDP text are kept one by one: a line that starts with `a=candidate:udp` is
/// dropped, any other is kept where it stands, and what comes after it is not touched by that.
pub proof fn law_lines_are_kept(line: Seq<char>, rest: Seq<char>)
    requires
        !line.contains('\n'),
    ensures
        kept_lines(Seq::empty()) == Seq::<Seq<char>>::empty(),
        "a=candidate:udp"@.is_prefix_of(line) ==> {
            &&& kept_lines(line) == Seq::<Seq<char>>::empty()
            &&& kept_lines(line + seq!['\r', '\n'] + rest) == kept_lines(rest)
            &&& line.last() != '\r' ==> kept_lines(line + seq!['\n'] + rest) == kept_lines(rest)
        },
        !"a=candidate:udp"@.is_prefix_of(line) ==> {
            &&& line.len() > 0 ==> kept_lines(line) == seq![line]
            &&& kept_lines(line + seq!['\r', '\n'] + rest) == seq![line] + kept_lines(rest)
            &&& line.len() == 0 || line.last() != '\r' ==> kept_lines(line + seq!['\n'] + rest)
                == seq![line] + kept_lines(rest)
        },
{
    let pred = |line: Seq<char>| is_kept(line);
    reveal_strlit("a=candidate:udp");
    law_lines(line, rest);
    Seq::filter_distributes_over_add(seq![line], lines(rest), pred);
    reveal(Seq::filter);
    assert(seq![line].drop_last() == Seq::<Seq<char>>::empty());
    let none = Seq::<Seq<char>>::empty();
    assert(none.filter(pred) == none);
    if is_kept(line) {
        assert(seq![line].filter(pred) == seq![line]);
    } else {
        assert(seq![line].filter(pred) == none);
        assert(none + kept_lines(rest) == kept_lines(rest));
    }
}

/// A sequence all of whose elements are kept is kept as it is.
proof fn lemma_filter_all(all: Seq<Seq<char>>, pred: spec_fn(Seq<char>) -> bool)
    requires
        forall|i: int| 0 <= i < all.len() ==> pred(#[trigger] all[i]),
    ensures
        all.filter(pred) == all,
    decreases all.len(),
{
    reveal(Seq::filter);
    if all.len() > 0 {
        lemma_filter_all(all.drop_last(), pred);
        assert(pred(all[all.len() - 1]));
        assert(all.drop_last().push(all.last()) == all);
    }
}

/// An SDP text of which no line starts with `a=candidate:udp` keeps all of its lines, and so no
/// text of it is lost but the end of its last line.
pub proof fn law_other_lines_stay(sdp: &str, r: String)
    requires
        call_ensures(remove_udp_candidates, (sdp,), r),
        forall|i: int|
            0 <= i < lines(sdp@).len() ==> !"a=candidate:udp"@.is_prefix_of(
                #[trigger] lines(sdp@)[i],
            ),
    ensures
        kept_lines(sdp@) == lines(sdp@),
        r@ == joined(lines(sdp@)),
{
    let pred = |line: Seq<char>| is_kept(line);
    assert forall|i: int| 0 <= i < lines(sdp@).len() implies pred(#[trigger] lines(sdp@)[i]) by {}
    lemma_filter_all(lines(sdp@), pred);
}

/// What is left of an SDP text has every line that does not start with `a=candidate:udp`, and no
/// other line, as often as the text had it.
pub proof fn law_kept_as_often(sdp: Seq<char>, line: Seq<char>)
    ensures
        kept_lines(sdp).to_multiset().count(line) == if "a=candidate:udp"@.is_prefix_of(line) {
            0
        } else {
            lines(sdp).to_multiset().count(line)
        },
{
    lemma_filter_count(lines(sdp), |line: Seq<char>| is_kept(line), line);
}

/// How often a sequence has an element after it was filtered.
proof fn lemma_filter_count(
    all: Seq<Seq<char>>,
    pred: spec_fn(Seq<char>) -> bool,
    line: Seq<char>,
)
    ensures
        all.filter(pred).to_multiset().count(line) == if pred(line) {
            all.to_multiset().count(line)
        } else {
            0
        },
    decreases all.len(),
{
    broadcast use vstd::seq_lib::group_to_multiset_ensures;

    reveal(Seq::filter);
    if all.len() > 0 {
        let rest = all.drop_last();
        lemma_filter_count(rest, pred, line);
        assert(rest.push(all.last()) == all);
        assert(all.to_multiset() == rest.to_multiset().insert(all.last()));
        if pred(all.last()) {
            assert(all.filter(pred) == rest.filter(pred).push(all.last()));
        }
    }
}

} // verus!
