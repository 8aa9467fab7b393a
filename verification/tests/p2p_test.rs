use bytes::Bytes;
use easyp2p::description::{decode_description, Description, ReadError, SdpKind, WriteError};
use easyp2p::p2p::{
    Configuration, ConnectionCode, P2PError, PeerAction, PeerEvent, PeerState, Receive,
    SendData, SessionDescription, ShutdownAction, ShutdownEvent, P2P,
};

const SDP: &str = "v=0\r\no=- 1 1 IN IP4 0.0.0.0\r\ns=-\r\nt=0 0\r\na=candidate:udp x\r\n";

fn local(sdp: &str) -> Option<Description> {
    Some(Description {
        kind: SdpKind::Answer,
        sdp: sdp.to_string(),
    })
}

#[test]
fn text_is_received_as_it_was_sent() {
    match P2P::send_text("grüße\n") {
        SendData::Text(text) => {
            let received = Receive::Data(Bytes::from(text.into_bytes()));
            assert_eq!(P2P::receive_text(Some(received)).unwrap(), "grüße\n");
        }
        other => panic!("{other:?}"),
    }
    match P2P::send(Bytes::from_static(b"\x00\xff")) {
        SendData::Binary(data) => assert_eq!(&data[..], b"\x00\xff"),
        other => panic!("{other:?}"),
    }
}

#[test]
fn what_is_not_text_is_not_received_as_text() {
    let received = Receive::Data(Bytes::from_static(b"\xff"));
    assert!(matches!(
        P2P::receive_text(Some(received)),
        Err(P2PError::NotText(_))
    ));
    assert!(matches!(
        P2P::receive_text(Some(Receive::Close)),
        Err(P2PError::Closed)
    ));
    assert!(matches!(
        P2P::receive_text(None),
        Err(P2PError::NotReceived)
    ));
}

#[test]
fn errors_say_what_they_are() {
    let not_text = P2P::receive_text(Some(Receive::Data(Bytes::from_static(b"\xff"))));
    assert_eq!(not_text.unwrap_err().message(), Some("Failed to convert"));
    let json = decode_description("e30=", false).unwrap_err();
    assert_eq!(
        P2PError::Read(json).message(),
        Some("Failed to parse description")
    );
    let base64 = decode_description("!", false).unwrap_err();
    assert_eq!(P2PError::Read(base64).message(), None);
    assert_eq!(P2PError::Write(WriteError::TooLong).message(), None);
    let messages = [
        (
            P2PError::SessionNotFetched,
            "Failed to get remote session description",
        ),
        (
            P2PError::SessionNotSent,
            "Failed to send local session description",
        ),
        (P2PError::NoConnectionCode, "Failed to get connection code"),
        (P2PError::NotSent, "Failed to send data"),
        (P2PError::NotReceived, "Failed to receive data"),
        (P2PError::Closed, "Session closed"),
        (
            P2PError::NoLocalDescription,
            "Failed to generate local_description.",
        ),
        (P2PError::AnswerNotSet, "Failed to set answer"),
    ];
    for (error, message) in messages {
        assert_eq!(error.message(), Some(message));
    }
}

#[test]
fn a_given_configuration_is_used() {
    assert!(matches!(
        P2P::configuration(Some(7)),
        Configuration::Given(7)
    ));
    match P2P::configuration::<u8>(None) {
        Configuration::Default { ice_urls } => {
            assert_eq!(ice_urls, vec!["stun:stun.l.google.com:19302"])
        }
        other => panic!("{other:?}"),
    }
}

#[test]
fn events_ask_for_what_they_should() {
    for state in [PeerState::Failed, PeerState::Disconnected, PeerState::Closed] {
        assert!(matches!(
            P2P::on_event(PeerEvent::StateChanged(state)),
            PeerAction::OfferDone
        ));
    }
    for state in [
        PeerState::Unspecified,
        PeerState::New,
        PeerState::Connecting,
        PeerState::Connected,
    ] {
        assert!(matches!(
            P2P::on_event(PeerEvent::StateChanged(state)),
            PeerAction::Ignore
        ));
    }
    assert!(matches!(
        P2P::on_event(PeerEvent::ChannelOpened),
        PeerAction::SignalOpen
    ));
    assert!(matches!(
        P2P::on_event(PeerEvent::ChannelClosed),
        PeerAction::SendDone
    ));
    match P2P::on_event(PeerEvent::Message(Bytes::from_static(b"abc"))) {
        PeerAction::Deliver(Receive::Data(data)) => assert_eq!(&data[..], b"abc"),
        other => panic!("{other:?}"),
    }
}

#[test]
fn the_receiver_is_told_once_after_the_connection_was_closed() {
    let mut p2p = P2P::new();
    assert!(p2p.expects(ShutdownEvent::Done));
    assert!(!p2p.expects(ShutdownEvent::Delivered));
    assert!(matches!(
        p2p.shutdown(ShutdownEvent::Done),
        ShutdownAction::CloseConnection
    ));
    assert!(!p2p.expects(ShutdownEvent::Done));
    assert!(p2p.expects(ShutdownEvent::ConnectionClosed));
    assert!(matches!(
        p2p.shutdown(ShutdownEvent::ConnectionClosed),
        ShutdownAction::Deliver(Receive::Close)
    ));
    assert!(!p2p.expects(ShutdownEvent::ConnectionClosed));
    assert!(matches!(
        p2p.shutdown(ShutdownEvent::Delivered),
        ShutdownAction::AwaitReceiverGone
    ));
    assert!(matches!(
        p2p.shutdown(ShutdownEvent::ReceiverGone),
        ShutdownAction::Finish
    ));
    assert!(!p2p.expects(ShutdownEvent::ReceiverGone));

    let mut p2p = P2P::new();
    assert!(matches!(
        p2p.shutdown(ShutdownEvent::Abandoned),
        ShutdownAction::Finish
    ));
    assert!(!p2p.expects(ShutdownEvent::ConnectionClosed));
}

#[test]
fn an_offer_is_the_local_description_without_candidates_over_udp() {
    for compress in [false, true] {
        let text = P2P::offer_text(local(SDP), compress).unwrap();
        let offer = P2P::set_answer(&text, compress).unwrap();
        assert_eq!(offer.kind, SdpKind::Offer);
        assert_eq!(offer.sdp, "v=0\r\no=- 1 1 IN IP4 0.0.0.0\r\ns=-\r\nt=0 0");
    }
    assert!(matches!(
        P2P::offer_text(local("not sdp"), true),
        Err(P2PError::Sdp(_))
    ));
    assert!(matches!(
        P2P::offer_text(None, true),
        Err(P2PError::NoLocalDescription)
    ));
}

#[test]
fn an_answer_is_the_local_description() {
    for compress in [false, true] {
        let text = P2P::answer_text(local(SDP), compress).unwrap();
        let answer = P2P::set_answer(&text, compress).unwrap();
        assert_eq!(answer.kind, SdpKind::Answer);
        assert_eq!(answer.sdp, SDP);
    }
    assert!(matches!(
        P2P::answer_text(None, false),
        Err(P2PError::NoLocalDescription)
    ));
    assert!(matches!(
        P2P::set_answer("!", false),
        Err(P2PError::Read(ReadError::Base64(_)))
    ));
}

#[test]
fn copies_hold_the_same_text() {
    let session = SessionDescription {
        session_description: "text".to_string(),
    };
    assert_eq!(session.clone().session_description, "text");
    let code = ConnectionCode {
        connection_code: "ABC234".to_string(),
    };
    assert_eq!(code.clone().connection_code, "ABC234");
}
