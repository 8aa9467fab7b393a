use easyp2p::connect::{ConnectAction, ConnectEvent};
use easyp2p::p2p::{P2PError, SessionDescription, P2P};

fn session(text: &str) -> SessionDescription {
    SessionDescription {
        session_description: text.to_string(),
    }
}

#[test]
fn a_peer_connects_by_a_code() {
    for sent in [true, false] {
        let (mut flow, action) = P2P::connect_with_code("https://server", "ABC234");
        match action {
            ConnectAction::Get { url } => assert_eq!(url, "https://server/session/ABC234"),
            _ => panic!("no request"),
        }
        assert!(flow.expects(&ConnectEvent::Status(true)));
        assert!(!flow.expects(&ConnectEvent::Answer(String::new())));
        assert!(matches!(
            flow.step(ConnectEvent::Status(true)),
            ConnectAction::ReadSession
        ));
        match flow.step(ConnectEvent::Session(session("offer"))) {
            ConnectAction::SetOffer { offer, compress } => {
                assert_eq!((offer.as_str(), compress), ("offer", true))
            }
            _ => panic!("no offer"),
        }
        match flow.step(ConnectEvent::Answer("answer".to_string())) {
            ConnectAction::Post { url, body } => {
                assert_eq!(url, "https://server/session/ABC234");
                assert_eq!(body.session_description, "answer");
            }
            _ => panic!("no answer"),
        }
        match flow.step(ConnectEvent::Status(sent)) {
            ConnectAction::Finish(Ok(())) => assert!(sent),
            ConnectAction::Finish(Err(e)) => {
                assert!(!sent);
                assert!(matches!(e, P2PError::SessionNotSent));
            }
            _ => panic!("no end"),
        }
        assert!(!flow.expects(&ConnectEvent::Status(true)));
    }
}

#[test]
fn a_peer_stops_where_there_is_no_session() {
    let (mut flow, _) = P2P::connect_with_code("https://server", "ABC234");
    assert!(matches!(
        flow.step(ConnectEvent::Status(false)),
        ConnectAction::Finish(Err(P2PError::SessionNotFetched))
    ));
    assert!(!flow.expects(&ConnectEvent::Session(session("offer"))));
}

#[test]
fn a_peer_registers_its_offer() {
    let (url, body) = P2P::create_code("https://server", "offer".to_string());
    assert_eq!(url, "https://server/register");
    assert_eq!(body.session_description, "offer");
    assert_eq!(
        P2P::created_code(Some("ABC234".to_string())).unwrap(),
        "ABC234"
    );
    assert!(matches!(
        P2P::created_code(None),
        Err(P2PError::NoConnectionCode)
    ));
}
