use bytes::Bytes;
use easyp2p::chat::{choose_role, incoming, outgoing, read_line, Output, Role};
use easyp2p::p2p::Receive;

#[test]
fn the_first_line_says_who_creates_the_code() {
    assert!(matches!(choose_role(" a\r\n"), Role::Create));
    match choose_role("ABC234\n") {
        Role::Join(code) => assert_eq!(code, "ABC234"),
        other => panic!("{other:?}"),
    }
    match choose_role("A\n") {
        Role::Join(code) => assert_eq!(code, "A"),
        other => panic!("{other:?}"),
    }
    assert_eq!(read_line("  x \n"), "x");
}

#[test]
fn a_line_is_shown_as_it_was_entered() {
    let message = outgoing("  hello there \r\n");
    assert_eq!(message, "hello there\n");
    match incoming(Some(Receive::Data(Bytes::from(message.into_bytes())))) {
        Output::Show(text) => assert_eq!(text, "Received: hello there\n"),
        other => panic!("{other:?}"),
    }
}

#[test]
fn the_chat_ends_with_the_connection() {
    for received in [Some(Receive::Close), None] {
        match incoming(received) {
            Output::Over(text) => assert_eq!(text, "P2P Closed!\n"),
            other => panic!("{other:?}"),
        }
    }
    assert!(matches!(
        incoming(Some(Receive::Data(Bytes::from_static(b"\xff")))),
        Output::NotText
    ));
}
