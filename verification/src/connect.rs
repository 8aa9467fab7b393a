//! How two peers find each other through the signaling server: one registers its offer and gets a
//! connection code, the other one fetches the offer by that code and sends its answer.

use crate::p2p::{P2PError, SessionDescription, P2P};
use vstd::prelude::*;

verus! {

/// Whether the descriptions that go over the signaling server are compressed.
pub const COMPRESSED: bool = true;

/// The address at which a peer registers.
pub open spec fn register_url(signaling_server: Seq<char>) -> Seq<char> {
    signaling_server + "/register"@
}

/// The address of the session under `code`.
pub open spec fn session_url(signaling_server: Seq<char>, code: Seq<char>) -> Seq<char> {
    signaling_server + "/session/"@ + code
}

/// How far a peer got that connects by a code.
#[derive(Clone, Copy, Debug, PartialEq, Eq, Structural)]
pub enum ConnectPhase {
    /// The description of the other peer is asked for.
    Fetching,
    /// The description of the other peer is read.
    Reading,
    /// The answer is made.
    Answering,
    /// The answer is sent.
    Sending,
    /// Nothing more is to be done.
    Finished,
}

/// What moves a peer on that connects by a code.
pub enum ConnectEvent {
    /// The server answered a request, with success or not.
    Status(bool),
    /// The server sent the description of the other peer.
    Session(SessionDescription),
    /// The answer was made.
    Answer(String),
}

/// What a [`ConnectEvent`] holds.
pub enum ConnectEventView {
    Status(bool),
    Session(Seq<char>),
    Answer(Seq<char>),
}

impl View for ConnectEvent {
    type V = ConnectEventView;

    open spec fn view(&self) -> ConnectEventView {
        match self {
            ConnectEvent::Status(success) => ConnectEventView::Status(*success),
            ConnectEvent::Session(session) => ConnectEventView::Session(session@),
            ConnectEvent::Answer(answer) => ConnectEventView::Answer(answer@),
        }
    }
}

/// What a peer that connects by a code does next.
pub enum ConnectAction {
    /// Ask for what is at an address.
    Get { url: String },
    /// Read the body of the answer to the last request.
    ReadSession,
    /// Take an offer, and make the answer to it.
    SetOffer { offer: String, compress: bool },
    /// Send something to an address.
    Post { url: String, body: SessionDescription },
    /// Stop, with success or not.
    Finish(Result<(), P2PError>),
}

/// Why a peer could not connect.
pub enum ConnectFault {
    SessionNotFetched,
    SessionNotSent,
}

/// What a [`ConnectAction`] holds.
pub enum ConnectActionView {
    Get { url: Seq<char> },
    ReadSession,
    SetOffer { offer: Seq<char>, compress: bool },
    Post { url: Seq<char>, body: Seq<char> },
    Finish(Result<(), ConnectFault>),
}

impl ConnectAction {
    /// Whether the action holds what `view` says.
    pub open spec fn holds(self, view: ConnectActionView) -> bool {
        match view {
            ConnectActionView::Get { url } => self matches ConnectAction::Get { url: u } && u@ == url,
            ConnectActionView::ReadSession => self is ReadSession,
            ConnectActionView::SetOffer { offer, compress } =>
                self matches ConnectAction::SetOffer { offer: o, compress: c } && o@ == offer && c
                    == compress,
            ConnectActionView::Post { url, body } =>
                self matches ConnectAction::Post { url: u, body: b } && u@ == url && b@ == body,
            ConnectActionView::Finish(Ok(_)) =>
                self matches ConnectAction::Finish(r) && r is Ok,
            ConnectActionView::Finish(Err(ConnectFault::SessionNotFetched)) =>
                self matches ConnectAction::Finish(Err(e)) && e is SessionNotFetched,
            ConnectActionView::Finish(Err(ConnectFault::SessionNotSent)) =>
                self matches ConnectAction::Finish(Err(e)) && e is SessionNotSent,
        }
    }
}

/// Whether `event` can happen in `phase`.
pub open spec fn connect_expects(phase: ConnectPhase, event: ConnectEventView) -> bool {
    match phase {
        ConnectPhase::Fetching => event is Status,
        ConnectPhase::Reading => event is Session,
        ConnectPhase::Answering => event is Answer,
        ConnectPhase::Sending => event is Status,
        ConnectPhase::Finished => false,
    }
}

/// The phase to which `event` leads from `phase`, and what is done there; the session is at `url`.
pub open spec fn connect_next(
    phase: ConnectPhase,
    url: Seq<char>,
    event: ConnectEventView,
) -> (ConnectPhase, ConnectActionView) {
    match (phase, event) {
        (ConnectPhase::Fetching, ConnectEventView::Status(true)) => (
            ConnectPhase::Reading,
            ConnectActionView::ReadSession,
        ),
        (ConnectPhase::Reading, ConnectEventView::Session(session)) => (
            ConnectPhase::Answering,
            ConnectActionView::SetOffer { offer: session, compress: COMPRESSED },
        ),
        (ConnectPhase::Answering, ConnectEventView::Answer(answer)) => (
            ConnectPhase::Sending,
            ConnectActionView::Post { url, body: answer },
        ),
        (ConnectPhase::Sending, ConnectEventView::Status(true)) => (
            ConnectPhase::Finished,
            ConnectActionView::Finish(Ok(())),
        ),
        (ConnectPhase::Sending, _) => (
            ConnectPhase::Finished,
            ConnectActionView::Finish(Err(ConnectFault::SessionNotSent)),
        ),
        (_, _) => (
            ConnectPhase::Finished,
            ConnectActionView::Finish(Err(ConnectFault::SessionNotFetched)),
        ),
    }
}

/// A peer that connects by a code.
pub struct ConnectFlow {
    url: String,
    phase: ConnectPhase,
}

impl ConnectFlow {
    /// The address of the session.
    pub closed spec fn url(self) -> Seq<char> {
        self.url@
    }

    /// How far the peer got.
    pub closed spec fn phase(self) -> ConnectPhase {
        self.phase
    }

    /// Whether `event` can happen now.
    pub fn expects(&self, event: &ConnectEvent) -> (r: bool)
        ensures
            r == connect_expects(self.phase(), event@),
            r <==> match self.phase() {
                ConnectPhase::Fetching => event is Status,
                ConnectPhase::Reading => event is Session,
                ConnectPhase::Answering => event is Answer,
                ConnectPhase::Sending => event is Status,
                ConnectPhase::Finished => false,
            },
    {
        match (self.phase, event) {
            (ConnectPhase::Fetching, ConnectEvent::Status(_)) => true,
            (ConnectPhase::Reading, ConnectEvent::Session(_)) => true,
            (ConnectPhase::Answering, ConnectEvent::Answer(_)) => true,
            (ConnectPhase::Sending, ConnectEvent::Status(_)) => true,
            _ => false,
        }
    }

    /// Moves the peer on, and says what it does next.
    pub fn step(&mut self, event: ConnectEvent) -> (r: ConnectAction)
        requires
            connect_expects(old(self).phase(), event@),
        ensures
            final(self).url() == old(self).url(),
            final(self).phase() == connect_next(old(self).phase(), old(self).url(), event@).0,
            r.holds(connect_next(old(self).phase(), old(self).url(), event@).1),
            stepped(*old(self), event, *final(self), r),
            match (old(self).phase(), event) {
                (ConnectPhase::Fetching, ConnectEvent::Status(true)) => r is ReadSession,
                (ConnectPhase::Reading, ConnectEvent::Session(session)) =>
                    r matches ConnectAction::SetOffer { offer, compress } && offer@
                        == session.session_description@ && compress,
                (ConnectPhase::Answering, ConnectEvent::Answer(answer)) =>
                    r matches ConnectAction::Post { url, body } && url@ == old(self).url()
                        && body.session_description@ == answer@,
                (ConnectPhase::Sending, ConnectEvent::Status(true)) =>
                    r matches ConnectAction::Finish(end) && end is Ok,
                (ConnectPhase::Sending, _) =>
                    r matches ConnectAction::Finish(Err(e)) && e is SessionNotSent,
                (_, _) => r matches ConnectAction::Finish(Err(e)) && e is SessionNotFetched,
            },
    {
        match (self.phase, event) {
            (ConnectPhase::Fetching, ConnectEvent::Status(true)) => {
                self.phase = ConnectPhase::Reading;
                ConnectAction::ReadSession
            },
            (ConnectPhase::Reading, ConnectEvent::Session(session)) => {
                self.phase = ConnectPhase::Answering;
                ConnectAction::SetOffer { offer: session.session_description, compress: COMPRESSED }
            },
            (ConnectPhase::Answering, ConnectEvent::Answer(answer)) => {
                self.phase = ConnectPhase::Sending;
                ConnectAction::Post {
                    url: self.url.clone(),
                    body: SessionDescription { session_description: answer },
                }
            },
            (ConnectPhase::Sending, ConnectEvent::Status(true)) => {
                self.phase = ConnectPhase::Finished;
                ConnectAction::Finish(Ok(()))
            },
            (ConnectPhase::Sending, _) => {
                self.phase = ConnectPhase::Finished;
                ConnectAction::Finish(Err(P2PError::SessionNotSent))
            },
            (_, _) => {
                self.phase = ConnectPhase::Finished;
                ConnectAction::Finish(Err(P2PError::SessionNotFetched))
            },
        }
    }
}

/// Whether `event` moves a peer that connects by a code on from `before` to `after` and makes it do
/// `action`.
pub open spec fn stepped(
    before: ConnectFlow,
    event: ConnectEvent,
    after: ConnectFlow,
    action: ConnectAction,
) -> bool {
    &&& connect_expects(before.phase(), event@)
    &&& after.url() == before.url()
    &&& after.phase() == connect_next(before.phase(), before.url(), event@).0
    &&& action.holds(connect_next(before.phase(), before.url(), event@).1)
}

impl P2P {
    /// Starts to connect by `code`: asks for the description of the peer that registered under it.
    pub fn connect_with_code(signaling_server: &str, code: &str) -> (r: (ConnectFlow, ConnectAction))
        ensures
            r.0.url() == session_url(signaling_server@, code@),
            r.0.phase() == ConnectPhase::Fetching,
            r.1.holds(ConnectActionView::Get { url: session_url(signaling_server@, code@) }),
            r.1 matches ConnectAction::Get { url } && url@ == signaling_server@ + "/session/"@
                + code@ && r.0.url() == url@,
    {
        let mut url = signaling_server.to_owned();
        url.append("/session/");
        url.append(code);
        let action = ConnectAction::Get { url: url.clone() };
        (ConnectFlow { url, phase: ConnectPhase::Fetching }, action)
    }

    /// The request that registers the offer `offer` and gets a code for it: where it is posted,
    /// and what.
    pub fn create_code(signaling_server: &str, offer: String) -> (r: (String, SessionDescription))
        ensures
            r.0@ == register_url(signaling_server@),
            r.1@ == offer@,
            r.0@ == signaling_server@ + "/register"@,
            r.1.session_description@ == offer@,
    {
        let mut url = signaling_server.to_owned();
        url.append("/register");
        (url, SessionDescription { session_description: offer })
    }

    /// The connection code of a registration; `None` stands for a stream that ended before it.
    pub fn created_code(code: Option<String>) -> (r: Result<String, P2PError>)
        ensures
            match code {
                Some(code) => r == Ok::<String, P2PError>(code),
                None => r matches Err(e) && e is NoConnectionCode,
            },
    {
        match code {
            Some(code) => Ok(code),
            None => Err(P2PError::NoConnectionCode),
        }
    }
}

/// What a peer does from `phase` on where the server answers the request for the description
/// with `fetched` and then `session`, the answer to that is `answer`, and the server answers to
/// it with `sent`.
pub open spec fn connect_run(
    phase: ConnectPhase,
    url: Seq<char>,
    fetched: bool,
    session: Seq<char>,
    answer: Seq<char>,
    sent: bool,
    fuel: nat,
) -> Seq<ConnectActionView>
    decreases fuel,
{
    let event = match phase {
        ConnectPhase::Fetching => ConnectEventView::Status(fetched),
        ConnectPhase::Reading => ConnectEventView::Session(session),
        ConnectPhase::Answering => ConnectEventView::Answer(answer),
        _ => ConnectEventView::Status(sent),
    };
    let (next, action) = connect_next(phase, url, event);
    if fuel == 0 || action is Finish {
        seq![action]
    } else {
        seq![action] + connect_run(
            next,
            url,
            fetched,
            session,
            answer,
            sent,
            (fuel - 1) as nat,
        )
    }
}

/// A peer that connects by a code takes the description that it fetched as the offer, sends the
/// answer to it to where it fetched the description, and succeeds where the server took both
/// requests and only there. Where the server has no description to give, nothing is sent.
pub proof fn law_connect_run(
    url: Seq<char>,
    fetched: bool,
    session: Seq<char>,
    answer: Seq<char>,
    sent: bool,
    fuel: nat,
)
    requires
        fuel >= 3,
    ensures
        connect_run(ConnectPhase::Fetching, url, fetched, session, answer, sent, fuel)
            == if fetched {
            seq![
                ConnectActionView::ReadSession,
                ConnectActionView::SetOffer { offer: session, compress: COMPRESSED },
                ConnectActionView::Post { url, body: answer },
                ConnectActionView::Finish(
                    if sent {
                        Ok(())
                    } else {
                        Err(ConnectFault::SessionNotSent)
                    },
                ),
            ]
        } else {
            seq![ConnectActionView::Finish(Err(ConnectFault::SessionNotFetched))]
        },
{
    reveal_with_fuel(connect_run, 4);
}

/// The address that is asked for is the whole address of the server, `/session/`, and the whole
/// code, and nothing else.
pub proof fn law_session_address(server: &str, code: &str, r: (ConnectFlow, ConnectAction))
    requires
        call_ensures(P2P::connect_with_code, (server, code), r),
    ensures
        r.1 matches ConnectAction::Get { url } && {
            &&& url@.len() == server@.len() + 9 + code@.len()
            &&& server@.is_prefix_of(url@)
            &&& url@.subrange(server@.len() as int, server@.len() as int + 9) == "/session/"@
            &&& code@.is_suffix_of(url@)
            &&& url@ == session_url(server@, code@)
        },
{
    reveal_strlit("/session/");
    let url = r.1->Get_url@;
    assert(url.subrange(server@.len() as int, server@.len() as int + 9) == "/session/"@);
    assert(server@.is_prefix_of(url));
    assert(code@.is_suffix_of(url));
}

/// Two codes on the same server, and two servers whose addresses are equally long, have different
/// addresses for their sessions.
pub proof fn law_session_addresses_differ(
    server: &str,
    code: &str,
    first: (ConnectFlow, ConnectAction),
    other_server: &str,
    other_code: &str,
    second: (ConnectFlow, ConnectAction),
)
    requires
        call_ensures(P2P::connect_with_code, (server, code), first),
        call_ensures(P2P::connect_with_code, (other_server, other_code), second),
        server@.len() == other_server@.len(),
        first.1->Get_url@ == second.1->Get_url@,
    ensures
        server@ == other_server@,
        code@ == other_code@,
{
    reveal_strlit("/session/");
    let n = server@.len() as int;
    let url = first.1->Get_url@;
    assert(url.take(n) == server@);
    assert(url.take(n) == other_server@);
    assert(url.skip(n + 9) == code@);
    assert(url.skip(n + 9) == other_code@);
}

/// A registration is posted to the whole address of the server and `/register`, with the whole
/// offer as its body.
pub proof fn law_register_address(
    server: &str,
    offer: String,
    r: (String, SessionDescription),
)
    requires
        call_ensures(P2P::create_code, (server, offer), r),
    ensures
        r.0@.len() == server@.len() + 9,
        server@.is_prefix_of(r.0@),
        r.0@.skip(server@.len() as int) == "/register"@,
        r.1.session_description@ == offer@,
        r.0@ == register_url(server@),
{
    reveal_strlit("/register");
    assert(r.0@.skip(server@.len() as int) == "/register"@);
    assert(server@.is_prefix_of(r.0@));
}

/// However far a peer gets that connects by a code: it asks for the session at the address of the
/// code, takes all that it was given as a compressed offer, posts all of its answer to that same
/// address, and succeeds where the server took both requests and only there.
pub proof fn law_connect_flow(
    server: &str,
    code: &str,
    start: (ConnectFlow, ConnectAction),
    states: Seq<ConnectFlow>,
    events: Seq<ConnectEvent>,
    actions: Seq<ConnectAction>,
)
    requires
        call_ensures(P2P::connect_with_code, (server, code), start),
        states.len() == events.len() + 1,
        actions.len() == events.len(),
        states[0] == start.0,
        forall|i: int|
            0 <= i < events.len() ==> stepped(
                states[i],
                #[trigger] events[i],
                states[i + 1],
                actions[i],
            ),
    ensures
        start.1 matches ConnectAction::Get { url } && url@ == server@ + "/session/"@ + code@,
        events.len() <= 4,
        events.len() > 0 ==> match events[0] {
            ConnectEvent::Status(true) => actions[0] is ReadSession,
            ConnectEvent::Status(false) => events.len() == 1 && (
            actions[0] matches ConnectAction::Finish(Err(e)) && e is SessionNotFetched),
            _ => false,
        },
        events.len() > 1 ==> (events[1] matches ConnectEvent::Session(session)
            && actions[1] matches ConnectAction::SetOffer { offer, compress } && offer@
            == session.session_description@ && compress),
        events.len() > 2 ==> (events[2] matches ConnectEvent::Answer(answer)
            && actions[2] matches ConnectAction::Post { url, body } && url@ == server@
            + "/session/"@ + code@ && body.session_description@ == answer@),
        events.len() > 3 ==> match events[3] {
            ConnectEvent::Status(true) => actions[3] matches ConnectAction::Finish(end)
                && end is Ok,
            ConnectEvent::Status(false) => actions[3] matches ConnectAction::Finish(Err(e))
                && e is SessionNotSent,
            _ => false,
        },
{
    if events.len() > 0 {
        assert(stepped(states[0], events[0], states[1], actions[0]));
    }
    if events.len() > 1 {
        assert(stepped(states[1], events[1], states[2], actions[1]));
    }
    if events.len() > 2 {
        assert(stepped(states[2], events[2], states[3], actions[2]));
    }
    if events.len() > 3 {
        assert(stepped(states[3], events[3], states[4], actions[3]));
    }
    if events.len() > 4 {
        assert(stepped(states[4], events[4], states[5], actions[4]));
    }
}

} // verus!
