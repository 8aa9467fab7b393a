use easyp2p::description::{decode_description, Description, ReadError, SdpKind};
use easyp2p::negotiation::{NegotiationAction, NegotiationEvent};
use easyp2p::p2p::{P2PError, P2P};

const SDP: &str = "v=0\r\no=- 1 1 IN IP4 0.0.0.0\r\ns=-\r\nt=0 0\r\n";

fn local(kind: SdpKind) -> Option<Description> {
    Some(Description {
        kind,
        sdp: SDP.to_string(),
    })
}

fn name(action: &NegotiationAction) -> &'static str {
    match action {
        NegotiationAction::OpenChannel { .. } => "open channel",
        NegotiationAction::AcceptChannels => "accept channels",
        NegotiationAction::SetRemote(_) => "set remote",
        NegotiationAction::CreateOffer => "create offer",
        NegotiationAction::CreateAnswer => "create answer",
        NegotiationAction::SetLocal(_) => "set local",
        NegotiationAction::WatchGathering => "watch gathering",
        NegotiationAction::AwaitGathered => "await gathered",
        NegotiationAction::ReadLocal => "read local",
        NegotiationAction::Finish(_) => "finish",
    }
}

fn made(sdp: &str) -> NegotiationEvent {
    NegotiationEvent::Made(Description {
        kind: SdpKind::Pranswer,
        sdp: sdp.to_string(),
    })
}

/// What happens after `action`, up to the reading of the local description.
fn after(action: &NegotiationAction, sdp: &str) -> NegotiationEvent {
    match action {
        NegotiationAction::CreateOffer | NegotiationAction::CreateAnswer => made(sdp),
        _ => NegotiationEvent::Done,
    }
}

#[test]
fn an_offer_is_made_in_order() {
    let (mut negotiation, mut action) = P2P::create_offer(true);
    match &action {
        NegotiationAction::OpenChannel { label } => assert_eq!(label, "data"),
        other => panic!("{other:?}"),
    }
    let mut names = vec![name(&action)];
    while !matches!(action, NegotiationAction::ReadLocal) {
        let describing = matches!(action, NegotiationAction::CreateOffer);
        assert_eq!(negotiation.expects(&NegotiationEvent::Done), !describing);
        assert_eq!(negotiation.expects(&made("x")), describing);
        assert!(!negotiation.expects(&NegotiationEvent::Local(None)));
        action = negotiation.advance(after(&action, "x"));
        names.push(name(&action));
    }
    assert_eq!(
        names,
        vec![
            "open channel",
            "create offer",
            "set local",
            "watch gathering",
            "await gathered",
            "read local"
        ]
    );
    assert!(!negotiation.expects(&NegotiationEvent::Done));
    assert!(!negotiation.expects(&made("x")));
    match negotiation.advance(NegotiationEvent::Local(local(SdpKind::Unspecified))) {
        NegotiationAction::Finish(Ok(text)) => {
            let offer = decode_description(&text, true).unwrap();
            assert_eq!(offer.kind, SdpKind::Offer);
            assert_eq!(offer.sdp, SDP.trim_end());
        }
        other => panic!("{other:?}"),
    }
    assert!(!negotiation.expects(&NegotiationEvent::Done));
}

#[test]
fn an_offer_is_answered_in_order() {
    let offer = P2P::offer_text(local(SdpKind::Offer), false).unwrap();
    let (mut negotiation, mut action) = P2P::set_offer(&offer, false).unwrap();
    let mut names = vec![name(&action)];
    while !matches!(action, NegotiationAction::ReadLocal) {
        action = negotiation.advance(after(&action, "x"));
        names.push(name(&action));
    }
    assert_eq!(
        names,
        vec![
            "accept channels",
            "set remote",
            "create answer",
            "watch gathering",
            "set local",
            "await gathered",
            "read local"
        ]
    );
    match negotiation.advance(NegotiationEvent::Local(local(SdpKind::Answer))) {
        NegotiationAction::Finish(Ok(text)) => {
            let answer = decode_description(&text, false).unwrap();
            assert_eq!((answer.kind, answer.sdp.as_str()), (SdpKind::Answer, SDP));
        }
        other => panic!("{other:?}"),
    }
}

#[test]
fn a_negotiation_fails_without_a_local_description() {
    let (mut negotiation, mut action) = P2P::create_offer(false);
    while !matches!(action, NegotiationAction::ReadLocal) {
        action = negotiation.advance(after(&action, "x"));
    }
    assert!(matches!(
        negotiation.advance(NegotiationEvent::Local(None)),
        NegotiationAction::Finish(Err(P2PError::NoLocalDescription))
    ));
}

#[test]
fn an_offer_that_cannot_be_read_is_refused() {
    assert!(matches!(
        P2P::set_offer("e30=", false),
        Err(P2PError::Read(ReadError::Json(_)))
    ));
}

#[test]
fn the_offer_that_was_made_is_set() {
    let (mut negotiation, mut action) = P2P::create_offer(false);
    let mut set: Vec<String> = Vec::new();
    while !matches!(action, NegotiationAction::ReadLocal) {
        action = negotiation.advance(after(&action, "made"));
        match &action {
            NegotiationAction::SetLocal(d) => set.push(format!("local {:?} {}", d.kind, d.sdp)),
            NegotiationAction::SetRemote(d) => set.push(format!("remote {:?} {}", d.kind, d.sdp)),
            _ => {}
        }
    }
    assert_eq!(set, vec!["local Pranswer made"]);
}

#[test]
fn the_offer_and_the_answer_that_was_made_are_set() {
    for compress in [false, true] {
        let sent = Some(Description {
            kind: SdpKind::Answer,
            sdp: "sent".to_string(),
        });
        let text = P2P::answer_text(sent, compress).unwrap();
        let (mut negotiation, mut action) = P2P::set_offer(&text, compress).unwrap();
        let mut set: Vec<String> = Vec::new();
        while !matches!(action, NegotiationAction::ReadLocal) {
            action = negotiation.advance(after(&action, "made"));
            match &action {
                NegotiationAction::SetLocal(d) => set.push(format!("local {:?} {}", d.kind, d.sdp)),
                NegotiationAction::SetRemote(d) => {
                    set.push(format!("remote {:?} {}", d.kind, d.sdp))
                }
                _ => {}
            }
        }
        assert_eq!(set, vec!["remote Answer sent", "local Pranswer made"]);
    }
}

#[test]
fn the_peer_reads_the_offer_that_was_sent() {
    let with_udp = "v=0\r\no=- 1 1 IN IP4 0.0.0.0\r\ns=-\r\nt=0 0\r\na=candidate:udp 1\r\n";
    for compress in [false, true] {
        let local = Some(Description {
            kind: SdpKind::Offer,
            sdp: with_udp.to_string(),
        });
        let text = P2P::offer_text(local, compress).unwrap();
        let (mut negotiation, _) = P2P::set_offer(&text, compress).unwrap();
        match negotiation.advance(NegotiationEvent::Done) {
            NegotiationAction::SetRemote(offer) => {
                assert_eq!(offer.kind, SdpKind::Offer);
                assert_eq!(offer.sdp, SDP.trim_end());
            }
            other => panic!("{other:?}"),
        }
    }
}
