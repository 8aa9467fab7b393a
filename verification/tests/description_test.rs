use easyp2p::description::{
    decode_description, encode_description, encode_json, encode_payload, parse_description,
    read_decompressed, remove_udp_candidates, write_compressed, Description, ReadError, SdpKind,
    WriteError,
};

fn description(kind: SdpKind, sdp: &str) -> Description {
    Description {
        kind,
        sdp: sdp.to_string(),
    }
}

#[test]
fn a_description_is_read_back_as_it_was_written() {
    let kinds = [
        SdpKind::Unspecified,
        SdpKind::Offer,
        SdpKind::Pranswer,
        SdpKind::Answer,
        SdpKind::Rollback,
    ];
    let texts = ["", "sdp", "v=0\r\ns=-\r\n", "\"\\\u{1}\u{7f}ä\u{1f600}"];
    for kind in kinds {
        for sdp in texts {
            for compress in [false, true] {
                let text = encode_description(&description(kind, sdp), compress).unwrap();
                assert!(!text.contains(char::is_whitespace));
                let back = decode_description(&text, compress).unwrap();
                assert_eq!(back.kind, kind);
                assert_eq!(back.sdp, sdp);
            }
        }
    }
}

#[test]
fn an_uncompressed_description_is_base64_of_json() {
    let text = encode_description(&description(SdpKind::Offer, "sdp"), false).unwrap();
    assert_eq!(text, "eyJ0eXBlIjoib2ZmZXIiLCJzZHAiOiJzZHAifQ==");
    let text = encode_json("{\"type\":\"offer\",\"sdp\":\"sdp\"}", false).unwrap();
    assert_eq!(text, "eyJ0eXBlIjoib2ZmZXIiLCJzZHAiOiJzZHAifQ==");
}

#[test]
fn a_compressed_description_is_base64_of_a_zstandard_frame() {
    let text = encode_description(&description(SdpKind::Answer, "sdp"), true).unwrap();
    assert!(text.starts_with("KLUv/"));
    assert_eq!(
        encode_description(&description(SdpKind::Answer, "sdp"), true).unwrap(),
        text
    );
    let frame = zstd::encode_all(
        "{\"type\":\"answer\",\"sdp\":\"sdp\"}".as_bytes(),
        3,
    );
    assert_eq!(write_compressed(frame).unwrap(), text);
    let long = "a=fmtp:96 x\r\n".repeat(1000);
    let text = encode_description(&description(SdpKind::Offer, &long), true).unwrap();
    assert!(text.len() < 1000);
    assert_eq!(decode_description(&text, true).unwrap().sdp, long);
}

#[test]
fn payloads_are_base64() {
    assert_eq!(encode_payload(b"").unwrap(), "");
    assert_eq!(encode_payload(b"hello").unwrap(), "aGVsbG8=");
    assert_eq!(encode_payload(b"hell").unwrap(), "aGVsbA==");
    assert_eq!(encode_payload(b"hel").unwrap(), "aGVs");
    assert_eq!(encode_payload(&[0]).unwrap(), "AA==");
    assert_eq!(encode_payload(&[0xfb, 0xef, 0xbe]).unwrap(), "++++");
    assert_eq!(
        encode_payload(&[
            0x00, 0x10, 0x83, 0x10, 0x51, 0x87, 0x20, 0x92, 0x8b, 0x30, 0xd3, 0x8f, 0x41, 0x14,
            0x93, 0x51, 0x55, 0x97, 0x61, 0x96, 0x9b, 0x71, 0xd7, 0x9f, 0x82, 0x18, 0xa3, 0x92,
            0x59, 0xa7, 0xa2, 0x9a, 0xab, 0xb2, 0xdb, 0xaf, 0xc3, 0x1c, 0xb3, 0xd3, 0x5d, 0xb7,
            0xe3, 0x9e, 0xbb, 0xf3, 0xdf, 0xbf,
        ])
        .unwrap(),
        "ABCDEFGHIJKLMNOPQRSTUVWXYZabcdefghijklmnopqrstuvwxyz0123456789+/"
    );
    assert_eq!(encode_payload(&[0xff, 0xfe, 0xfd]).unwrap(), "//79");
}

#[test]
fn text_that_is_not_base64_is_refused() {
    for compress in [false, true] {
        assert!(matches!(
            decode_description("not base64!", compress),
            Err(ReadError::Base64(_))
        ));
    }
}

#[test]
fn bytes_that_are_not_compressed_are_refused() {
    assert!(matches!(
        decode_description("eyJ0eXBlIjoib2ZmZXIiLCJzZHAiOiJzZHAifQ==", true),
        Err(ReadError::Compression(_))
    ));
}

#[test]
fn bytes_that_are_not_text_are_refused() {
    assert!(matches!(
        decode_description("/w==", false),
        Err(ReadError::Utf8(_))
    ));
    assert!(matches!(
        parse_description(vec![0xff]),
        Err(ReadError::Utf8(_))
    ));
}

#[test]
fn text_that_is_no_description_is_refused() {
    assert!(matches!(
        decode_description("e30=", false),
        Err(ReadError::Json(_))
    ));
    assert!(matches!(
        parse_description(b"{\"type\":\"other\",\"sdp\":\"\"}".to_vec()),
        Err(ReadError::Json(_))
    ));
    let ok = parse_description(b"{\"sdp\":\"x\",\"type\":\"answer\"}".to_vec()).unwrap();
    assert_eq!((ok.kind, ok.sdp.as_str()), (SdpKind::Answer, "x"));
}

#[test]
fn the_empty_text_stands_for_no_description() {
    assert!(matches!(
        decode_description("", false),
        Err(ReadError::Json(_))
    ));
    assert!(matches!(
        decode_description("", true),
        Err(ReadError::Compression(_))
    ));
}

#[test]
fn failures_of_the_compressor_are_handed_on() {
    let failure = || std::io::Error::new(std::io::ErrorKind::Other, "no memory");
    assert!(matches!(
        read_decompressed(Err(failure())),
        Err(ReadError::Compression(_))
    ));
    assert!(matches!(
        write_compressed(Err(failure())),
        Err(WriteError::Compression(_))
    ));
    let read = read_decompressed(Ok(b"{\"type\":\"offer\",\"sdp\":\"x\"}".to_vec())).unwrap();
    assert_eq!(read.sdp, "x");
}

#[test]
fn candidates_over_udp_are_removed() {
    assert_eq!(
        remove_udp_candidates("v=0\r\na=candidate:udp 1 2\r\na=candidate:1 1 udp 3\r\ns=-\r\n"),
        "v=0\r\na=candidate:1 1 udp 3\r\ns=-"
    );
    assert_eq!(remove_udp_candidates("a=candidate:udp"), "");
    assert_eq!(remove_udp_candidates(""), "");
    assert_eq!(remove_udp_candidates("a\nb\n\n"), "a\r\nb\r\n");
}

#[test]
fn written_text_is_base64_with_a_known_start() {
    for sdp in ["", "x", "xy", "xyz", "v=0\r\n"] {
        for (compress, start) in [(false, "eyJ0eXBlIjoi"), (true, "KLUv/")] {
            let text = encode_description(&description(SdpKind::Offer, sdp), compress).unwrap();
            assert!(text.starts_with(start));
            assert_eq!(text.len() % 4, 0);
            assert!(text
                .chars()
                .all(|c| c.is_ascii_alphanumeric() || "+/=".contains(c)));
        }
    }
}

#[test]
fn text_is_refused_where_the_other_form_is_expected() {
    for sdp in ["", "sdp", "v=0\r\ns=-\r\n"] {
        let packed = encode_description(&description(SdpKind::Offer, sdp), true).unwrap();
        assert!(matches!(
            decode_description(&packed, false),
            Err(ReadError::Utf8(_))
        ));
        let plain = encode_description(&description(SdpKind::Offer, sdp), false).unwrap();
        assert!(matches!(
            decode_description(&plain, true),
            Err(ReadError::Compression(_))
        ));
    }
}

#[test]
fn different_descriptions_have_different_texts() {
    for compress in [false, true] {
        let offer = encode_description(&description(SdpKind::Offer, "x"), compress).unwrap();
        let answer = encode_description(&description(SdpKind::Answer, "x"), compress).unwrap();
        let other = encode_description(&description(SdpKind::Offer, "y"), compress).unwrap();
        assert_ne!(offer, answer);
        assert_ne!(offer, other);
    }
}
