//! A connection to one peer: what is sent to it and received from it, what is made of the events
//! of the connection, and the descriptions by which it is set up.

use crate::codec::{base64_bytes, is_sdp, json_text, sdp_offer, zstd_frame};
use crate::description::{
    compresses, decode_description, decompresses, encode_description, kept_lines,
    law_written_is_read_back, read, remove_udp_candidates, unpacked, written, Description,
    DescriptionView, ReadError, SdpKind, WriteError,
};
use crate::text::{joined, lines};
use bytes::Bytes;
use vstd::prelude::*;
use vstd::utf8::{decode_utf8, encode_utf8, valid_utf8};

verus! {

#[verifier::external_type_specification]
#[verifier::external_body]
pub struct ExBytes(bytes::Bytes);

/// The bytes in `data`.
pub uninterp spec fn content(data: Bytes) -> Seq<u8>;

/// `to_vec` on the slice that a `Bytes` dereferences to: a vector of the same bytes.
#[verifier::external_body]
fn bytes_to_vec(data: &Bytes) -> (r: Vec<u8>)
    ensures
        r@ == content(*data),
{
    data.to_vec()
}

/// The body of the messages to and from the signaling server: the text of a description.
pub struct SessionDescription {
    pub session_description: String,
}

impl View for SessionDescription {
    type V = Seq<char>;

    open spec fn view(&self) -> Seq<char> {
        self.session_description@
    }
}

impl Clone for SessionDescription {
    fn clone(&self) -> (r: Self)
        ensures
            r@ == self@,
    {
        SessionDescription { session_description: self.session_description.clone() }
    }
}

/// The code by which one peer finds the other on the signaling server.
pub struct ConnectionCode {
    pub connection_code: String,
}

impl View for ConnectionCode {
    type V = Seq<char>;

    open spec fn view(&self) -> Seq<char> {
        self.connection_code@
    }
}

impl Clone for ConnectionCode {
    fn clone(&self) -> (r: Self)
        ensures
            r@ == self@,
    {
        ConnectionCode { connection_code: self.connection_code.clone() }
    }
}

/// What waits to be sent to the peer.
#[derive(Debug)]
pub enum SendData {
    Binary(Bytes),
    Text(String),
}

/// What came from the peer.
#[derive(Debug)]
pub enum Receive {
    Data(Bytes),
    Close,
}

/// Why an operation on a connection failed.
#[derive(Debug)]
pub enum P2PError {
    /// The signaling server did not give the description of the other peer.
    SessionNotFetched,
    /// The signaling server did not take the description of this peer.
    SessionNotSent,
    /// The stream of the signaling server ended before the connection code.
    NoConnectionCode,
    /// The queue of what is to be sent is gone.
    NotSent,
    /// The queue of what was received is gone.
    NotReceived,
    /// What was received is not text.
    NotText(std::string::FromUtf8Error),
    /// The connection was closed.
    Closed,
    /// The connection has no description of this peer.
    NoLocalDescription,
    /// The connection did not take the answer of the other peer.
    AnswerNotSet,
    /// The description of the other peer could not be read.
    Read(ReadError),
    /// The description of this peer could not be written.
    Write(WriteError),
    /// The description of this peer is not SDP.
    Sdp(webrtc::Error),
}

impl P2PError {
    /// What the library itself has to say of the error.
    pub open spec fn text(self) -> Option<Seq<char>> {
        match self {
            P2PError::SessionNotFetched => Some("Failed to get remote session description"@),
            P2PError::SessionNotSent => Some("Failed to send local session description"@),
            P2PError::NoConnectionCode => Some("Failed to get connection code"@),
            P2PError::NotSent => Some("Failed to send data"@),
            P2PError::NotReceived => Some("Failed to receive data"@),
            P2PError::NotText(_) => Some("Failed to convert"@),
            P2PError::Closed => Some("Session closed"@),
            P2PError::NoLocalDescription => Some("Failed to generate local_description."@),
            P2PError::AnswerNotSet => Some("Failed to set answer"@),
            P2PError::Read(ReadError::Json(_)) => Some("Failed to parse description"@),
            P2PError::Read(_) => None,
            P2PError::Write(_) => None,
            P2PError::Sdp(_) => None,
        }
    }

    /// What the library itself has to say of the error. Of an error that it only hands on, it
    /// says nothing.
    pub fn message(&self) -> (r: Option<&'static str>)
        ensures
            match r {
                Some(message) => self.text() == Some(message@),
                None => self.text() is None,
            },
    {
        match self {
            P2PError::SessionNotFetched => Some("Failed to get remote session description"),
            P2PError::SessionNotSent => Some("Failed to send local session description"),
            P2PError::NoConnectionCode => Some("Failed to get connection code"),
            P2PError::NotSent => Some("Failed to send data"),
            P2PError::NotReceived => Some("Failed to receive data"),
            P2PError::NotText(_) => Some("Failed to convert"),
            P2PError::Closed => Some("Session closed"),
            P2PError::NoLocalDescription => Some("Failed to generate local_description."),
            P2PError::AnswerNotSet => Some("Failed to set answer"),
            P2PError::Read(ReadError::Json(_)) => Some("Failed to parse description"),
            P2PError::Read(_) => None,
            P2PError::Write(_) => None,
            P2PError::Sdp(_) => None,
        }
    }
}

/// The address of the STUN server that is used where no configuration is given.
pub open spec fn default_ice_url() -> Seq<char> {
    "stun:stun.l.google.com:19302"@
}

/// The configuration of a connection.
#[derive(Debug)]
pub enum Configuration<C> {
    /// The one that was given.
    Given(C),
    /// The default in everything but the ICE servers: one, with these addresses.
    Default { ice_urls: Vec<String> },
}

/// The state of the connection under a [`P2P`].
#[derive(Clone, Copy, Debug, PartialEq, Eq, Structural)]
pub enum PeerState {
    Unspecified,
    New,
    Connecting,
    Connected,
    Disconnected,
    Failed,
    Closed,
}

impl PeerState {
    /// Whether the connection came to its end.
    pub open spec fn is_end(self) -> bool {
        self == PeerState::Failed || self == PeerState::Disconnected || self == PeerState::Closed
    }
}

/// What happens on a connection.
#[derive(Debug)]
pub enum PeerEvent {
    /// The state of the connection changed.
    StateChanged(PeerState),
    /// The data channel opened.
    ChannelOpened,
    /// The data channel closed.
    ChannelClosed,
    /// A message came over the data channel.
    Message(Bytes),
}

/// What an event asks for.
#[derive(Debug)]
pub enum PeerAction {
    /// Nothing.
    Ignore,
    /// Signal that the connection is done, unless such a signal waits already.
    OfferDone,
    /// Signal that the connection is done, and wait until there is room for the signal.
    SendDone,
    /// Signal that the connection is open, and from then on send what waits to be sent.
    SignalOpen,
    /// Put something into the queue of what was received.
    Deliver(Receive),
}

/// What `event` asks for.
pub open spec fn reaction(event: PeerEvent) -> PeerAction {
    match event {
        PeerEvent::StateChanged(state) => if state.is_end() {
            PeerAction::OfferDone
        } else {
            PeerAction::Ignore
        },
        PeerEvent::ChannelOpened => PeerAction::SignalOpen,
        PeerEvent::ChannelClosed => PeerAction::SendDone,
        PeerEvent::Message(data) => PeerAction::Deliver(Receive::Data(data)),
    }
}

/// How far a connection is on the way to its end.
#[derive(Clone, Copy, Debug, PartialEq, Eq, Structural)]
pub enum Lifecycle {
    /// Nobody signalled that it is done.
    Live,
    /// The connection is being closed.
    Closing,
    /// The receiver is being told.
    Notifying,
    /// The receiver was told and is still there.
    Draining,
    /// Nothing more is to be done.
    Ended,
}

/// What moves a connection on to its end.
#[derive(Clone, Copy, Debug, PartialEq, Eq, Structural)]
pub enum ShutdownEvent {
    /// Somebody signalled that the connection is done.
    Done,
    /// Nobody can signal any more that the connection is done.
    Abandoned,
    /// The connection was closed.
    ConnectionClosed,
    /// What was to be delivered is in the queue.
    Delivered,
    /// Nobody can receive any more.
    ReceiverGone,
}

/// What is to be done on the way to the end of a connection.
#[derive(Debug)]
pub enum ShutdownAction {
    /// Close the connection.
    CloseConnection,
    /// Put something into the queue of what was received.
    Deliver(Receive),
    /// Keep the queue until nobody can receive any more.
    AwaitReceiverGone,
    /// Nothing more.
    Finish,
}

/// Whether `event` can happen at `stage`.
pub open spec fn shutdown_expects(stage: Lifecycle, event: ShutdownEvent) -> bool {
    match event {
        ShutdownEvent::Done => stage == Lifecycle::Live,
        ShutdownEvent::Abandoned => stage == Lifecycle::Live,
        ShutdownEvent::ConnectionClosed => stage == Lifecycle::Closing,
        ShutdownEvent::Delivered => stage == Lifecycle::Notifying,
        ShutdownEvent::ReceiverGone => stage == Lifecycle::Draining,
    }
}

/// The stage to which `event` leads, and what is to be done there.
pub open spec fn shutdown_next(event: ShutdownEvent) -> (Lifecycle, ShutdownAction) {
    match event {
        ShutdownEvent::Done => (Lifecycle::Closing, ShutdownAction::CloseConnection),
        ShutdownEvent::Abandoned => (Lifecycle::Ended, ShutdownAction::Finish),
        ShutdownEvent::ConnectionClosed => (
            Lifecycle::Notifying,
            ShutdownAction::Deliver(Receive::Close),
        ),
        ShutdownEvent::Delivered => (Lifecycle::Draining, ShutdownAction::AwaitReceiverGone),
        ShutdownEvent::ReceiverGone => (Lifecycle::Ended, ShutdownAction::Finish),
    }
}

/// Whether `event` moves a connection on from `before` to `after` and asks for `action`.
pub open spec fn shut_down(
    before: P2P,
    event: ShutdownEvent,
    after: P2P,
    action: ShutdownAction,
) -> bool {
    &&& shutdown_expects(before.lifecycle(), event)
    &&& (after.lifecycle(), action) == shutdown_next(event)
}

/// Whether `events` can happen one after the other from `stage` on.
pub open spec fn is_shutdown(stage: Lifecycle, events: Seq<ShutdownEvent>) -> bool
    decreases events.len(),
{
    events.len() > 0 ==> shutdown_expects(stage, events[0]) && is_shutdown(
        shutdown_next(events[0]).0,
        events.skip(1),
    )
}

/// What is done for `events`.
pub open spec fn shutdown_actions(events: Seq<ShutdownEvent>) -> Seq<ShutdownAction> {
    Seq::new(events.len(), |i: int| shutdown_next(events[i]).1)
}

/// The end of a connection goes one way: it is closed, then its receiver is told, then it waits
/// for the receiver to leave. So [`Receive::Close`] is delivered at most once, after the connection
/// was closed, and never where nobody signalled that the connection is done.
pub proof fn law_shutdown(events: Seq<ShutdownEvent>)
    requires
        is_shutdown(Lifecycle::Live, events),
    ensures
        events.len() <= 4,
        shutdown_actions(events) == seq![ShutdownAction::Finish] || shutdown_actions(events)
            == seq![
            ShutdownAction::CloseConnection,
            ShutdownAction::Deliver(Receive::Close),
            ShutdownAction::AwaitReceiverGone,
            ShutdownAction::Finish,
        ].take(events.len() as int),
{
    reveal_with_fuel(is_shutdown, 6);
    let full = seq![
        ShutdownAction::CloseConnection,
        ShutdownAction::Deliver(Receive::Close),
        ShutdownAction::AwaitReceiverGone,
        ShutdownAction::Finish,
    ];
    if events.len() > 0 && events[0] == ShutdownEvent::Abandoned {
        assert(events.len() == 1);
        assert(shutdown_actions(events) == seq![ShutdownAction::Finish]);
    } else {
        if events.len() > 1 {
            assert(events.skip(1)[0] == events[1]);
        }
        if events.len() > 2 {
            assert(events.skip(1).skip(1)[0] == events[2]);
        }
        if events.len() > 3 {
            assert(events.skip(1).skip(1).skip(1)[0] == events[3]);
        }
        assert(events.len() <= 4);
        assert(shutdown_actions(events) == full.take(events.len() as int));
    }
}

/// What reading the description of the other peer gave, where the error is of that kind.
pub open spec fn as_read(r: Result<Description, P2PError>) -> Option<
    Result<Description, ReadError>,
> {
    match r {
        Ok(description) => Some(Ok(description)),
        Err(P2PError::Read(e)) => Some(Err(e)),
        Err(_) => None,
    }
}

/// What writing the description of this peer gave, where the error is of that kind.
pub open spec fn as_written(r: Result<String, P2PError>) -> Option<Result<String, WriteError>> {
    match r {
        Ok(text) => Some(Ok(text)),
        Err(P2PError::Write(e)) => Some(Err(e)),
        Err(_) => None,
    }
}

/// The offer that is sent for the local description `description`.
pub open spec fn sent_offer(description: DescriptionView) -> DescriptionView {
    DescriptionView { kind: SdpKind::Offer, sdp: joined(kept_lines(description.sdp)) }
}

/// Whether `r` is the text of the answer to an offer where the connection has the local
/// description `local`.
pub open spec fn is_answer_text(
    r: Result<String, P2PError>,
    local: Option<Description>,
    compress: bool,
) -> bool {
    match local {
        None => r matches Err(e) && e is NoLocalDescription,
        Some(description) => as_written(r) matches Some(w) && written(w, description@, compress),
    }
}

/// Whether `r` is the text of an offer where the connection has the local description `local`.
pub open spec fn is_offer_text(
    r: Result<String, P2PError>,
    local: Option<Description>,
    compress: bool,
) -> bool {
    match local {
        None => r matches Err(e) && e is NoLocalDescription,
        Some(description) => if is_sdp(sent_offer(description@).sdp) {
            as_written(r) matches Some(w) && written(w, sent_offer(description@), compress)
        } else {
            r matches Err(e) && e is Sdp
        },
    }
}

/// The part of a connection that decides: what its events ask for, and what its messages and its
/// descriptions mean.
#[derive(Debug)]
pub struct P2P {
    lifecycle: Lifecycle,
}

impl P2P {
    /// How far the connection is on the way to its end.
    pub closed spec fn lifecycle(self) -> Lifecycle {
        self.lifecycle
    }

    /// A connection that is not on the way to its end.
    pub fn new() -> (r: P2P)
        ensures
            r.lifecycle() == Lifecycle::Live,
    {
        P2P { lifecycle: Lifecycle::Live }
    }

    /// The configuration of a new connection.
    pub fn configuration<C>(option: Option<C>) -> (r: Configuration<C>)
        ensures
            match option {
                Some(given) => r == Configuration::Given(given),
                None => r matches Configuration::Default { ice_urls } && ice_urls@.len() == 1
                    && ice_urls@[0]@ == default_ice_url() && ice_urls@[0]@
                    == "stun:stun.l.google.com:19302"@,
            },
    {
        match option {
            Some(given) => Configuration::Given(given),
            None => {
                let mut ice_urls: Vec<String> = Vec::new();
                ice_urls.push("stun:stun.l.google.com:19302".to_owned());
                Configuration::Default { ice_urls }
            },
        }
    }

    /// What `event` asks for.
    pub fn on_event(event: PeerEvent) -> (r: PeerAction)
        ensures
            r == reaction(event),
            match event {
                PeerEvent::Message(data) => r == PeerAction::Deliver(Receive::Data(data)),
                PeerEvent::ChannelOpened => r is SignalOpen,
                PeerEvent::ChannelClosed => r is SendDone,
                PeerEvent::StateChanged(PeerState::Failed) => r is OfferDone,
                PeerEvent::StateChanged(PeerState::Disconnected) => r is OfferDone,
                PeerEvent::StateChanged(PeerState::Closed) => r is OfferDone,
                PeerEvent::StateChanged(_) => r is Ignore,
            },
    {
        match event {
            PeerEvent::StateChanged(state) => match state {
                PeerState::Failed => PeerAction::OfferDone,
                PeerState::Disconnected => PeerAction::OfferDone,
                PeerState::Closed => PeerAction::OfferDone,
                _ => PeerAction::Ignore,
            },
            PeerEvent::ChannelOpened => PeerAction::SignalOpen,
            PeerEvent::ChannelClosed => PeerAction::SendDone,
            PeerEvent::Message(data) => PeerAction::Deliver(Receive::Data(data)),
        }
    }

    /// Whether `event` can happen now.
    pub fn expects(&self, event: ShutdownEvent) -> (r: bool)
        ensures
            r == shutdown_expects(self.lifecycle(), event),
            r <==> match self.lifecycle() {
                Lifecycle::Live => event is Done || event is Abandoned,
                Lifecycle::Closing => event is ConnectionClosed,
                Lifecycle::Notifying => event is Delivered,
                Lifecycle::Draining => event is ReceiverGone,
                Lifecycle::Ended => false,
            },
    {
        match (self.lifecycle, event) {
            (Lifecycle::Live, ShutdownEvent::Done) => true,
            (Lifecycle::Live, ShutdownEvent::Abandoned) => true,
            (Lifecycle::Closing, ShutdownEvent::ConnectionClosed) => true,
            (Lifecycle::Notifying, ShutdownEvent::Delivered) => true,
            (Lifecycle::Draining, ShutdownEvent::ReceiverGone) => true,
            _ => false,
        }
    }

    /// Moves the connection on to its end, and says what is to be done.
    pub fn shutdown(&mut self, event: ShutdownEvent) -> (r: ShutdownAction)
        requires
            shutdown_expects(old(self).lifecycle(), event),
        ensures
            (final(self).lifecycle(), r) == shutdown_next(event),
            shut_down(*old(self), event, *final(self), r),
    {
        match event {
            ShutdownEvent::Done => {
                self.lifecycle = Lifecycle::Closing;
                ShutdownAction::CloseConnection
            },
            ShutdownEvent::Abandoned => {
                self.lifecycle = Lifecycle::Ended;
                ShutdownAction::Finish
            },
            ShutdownEvent::ConnectionClosed => {
                self.lifecycle = Lifecycle::Notifying;
                ShutdownAction::Deliver(Receive::Close)
            },
            ShutdownEvent::Delivered => {
                self.lifecycle = Lifecycle::Draining;
                ShutdownAction::AwaitReceiverGone
            },
            ShutdownEvent::ReceiverGone => {
                self.lifecycle = Lifecycle::Ended;
                ShutdownAction::Finish
            },
        }
    }

    /// What waits to be sent where `data` is sent.
    pub fn send(data: Bytes) -> (r: SendData)
        ensures
            r == SendData::Binary(data),
    {
        SendData::Binary(data)
    }

    /// What waits to be sent where the text `data` is sent.
    pub fn send_text(data: &str) -> (r: SendData)
        ensures
            r matches SendData::Text(text) && text@ == data@,
    {
        SendData::Text(data.to_owned())
    }

    /// The text in what came from the queue of what was received; `None` stands for the end of
    /// the queue.
    pub fn receive_text(received: Option<Receive>) -> (r: Result<String, P2PError>)
        ensures
            match received {
                None => r matches Err(e) && e is NotReceived,
                Some(Receive::Close) => r matches Err(e) && e is Closed,
                Some(Receive::Data(data)) => match r {
                    Ok(text) => valid_utf8(content(data)) && text@ == decode_utf8(content(data)),
                    Err(e) => e is NotText && !valid_utf8(content(data)),
                },
            },
    {
        match received {
            None => Err(P2PError::NotReceived),
            Some(Receive::Close) => Err(P2PError::Closed),
            Some(Receive::Data(data)) => match String::from_utf8(bytes_to_vec(&data)) {
                Ok(text) => Ok(text),
                Err(e) => Err(P2PError::NotText(e)),
            },
        }
    }

    /// The description to set as the remote one for the answer `answer` of the other peer.
    pub fn set_answer(answer: &str, compress: bool) -> (r: Result<Description, P2PError>)
        ensures
            as_read(r) matches Some(reading) && read(reading, answer@, compress),
            match r {
                Ok(description) => read(Ok(description), answer@, compress),
                Err(P2PError::Read(e)) => read(Err(e), answer@, compress),
                Err(_) => false,
            },
    {
        match decode_description(answer, compress) {
            Ok(description) => Ok(description),
            Err(e) => Err(P2PError::Read(e)),
        }
    }

    /// The text of the answer to an offer, once the connection has the local description `local`.
    pub fn answer_text(local: Option<Description>, compress: bool) -> (r: Result<
        String,
        P2PError,
    >)
        ensures
            is_answer_text(r, local, compress),
            match (local, r) {
                (None, r) => r matches Err(e) && e is NoLocalDescription,
                (Some(d), Ok(text)) => written(Ok(text), d@, compress),
                (Some(d), Err(P2PError::Write(e))) => written(Err(e), d@, compress),
                (Some(_), Err(_)) => false,
            },
    {
        match local {
            None => Err(P2PError::NoLocalDescription),
            Some(description) => match encode_description(&description, compress) {
                Ok(text) => Ok(text),
                Err(e) => Err(P2PError::Write(e)),
            },
        }
    }

    /// The text of an offer, once the connection has the local description `local`.
    pub fn offer_text(local: Option<Description>, compress: bool) -> (r: Result<
        String,
        P2PError,
    >)
        ensures
            is_offer_text(r, local, compress),
            match local {
                None => r matches Err(e) && e is NoLocalDescription,
                Some(description) => {
                    let kept = lines(description.sdp@).filter(
                        |line: Seq<char>| !"a=candidate:udp"@.is_prefix_of(line),
                    );
                    let offer = DescriptionView { kind: SdpKind::Offer, sdp: joined(kept) };
                    match r {
                        Ok(text) => is_sdp(offer.sdp) && written(Ok(text), offer, compress),
                        Err(P2PError::Write(e)) => is_sdp(offer.sdp) && written(
                            Err(e),
                            offer,
                            compress,
                        ),
                        Err(P2PError::Sdp(_)) => !is_sdp(offer.sdp),
                        Err(_) => false,
                    }
                },
            },
    {
        proof {
            if local is Some {
                lemma_sent_offer(local->Some_0);
            }
        }
        match local {
            None => Err(P2PError::NoLocalDescription),
            Some(description) => match sdp_offer(remove_udp_candidates(description.sdp.as_str())) {
                Ok(offer) => match encode_description(&offer, compress) {
                    Ok(text) => Ok(text),
                    Err(e) => Err(P2PError::Write(e)),
                },
                Err(e) => Err(P2PError::Sdp(e)),
            },
        }
    }
}

/// The other peer reads, out of the text of an offer, the offer that is sent for the local
/// description. Only where it is compressed can reading it fail: where the decompressor lacks
/// memory.
pub proof fn law_offer_is_read(
    text: Result<String, P2PError>,
    local: Description,
    compress: bool,
    r: Result<Description, ReadError>,
)
    requires
        is_offer_text(text, Some(local), compress),
        text is Ok,
        read(r, text->Ok_0@, compress),
    ensures
        match r {
            Ok(offer) => offer@ == sent_offer(local@),
            Err(e) => compress && e is Compression,
        },
{
    law_written_is_read_back(Ok(text->Ok_0), sent_offer(local@), compress, r);
}

/// The other peer reads, out of the text of an answer, the local description itself. Only where it
/// is compressed can reading it fail: where the decompressor lacks memory.
pub proof fn law_answer_is_read(
    text: Result<String, P2PError>,
    local: Description,
    compress: bool,
    r: Result<Description, ReadError>,
)
    requires
        is_answer_text(text, Some(local), compress),
        text is Ok,
        read(r, text->Ok_0@, compress),
    ensures
        match r {
            Ok(answer) => answer@ == local@,
            Err(e) => compress && e is Compression,
        },
{
    law_written_is_read_back(Ok(text->Ok_0), local@, compress, r);
}

/// Text that is sent is what is received: where the bytes in a message are the UTF-8 encoding of a
/// text, they are valid, and what [`P2P::receive_text`] reads out of them is that text.
pub proof fn law_text_arrives(text: Seq<char>, data: Bytes)
    requires
        content(data) == encode_utf8(text),
    ensures
        valid_utf8(content(data)),
        decode_utf8(content(data)) == text,
{
    vstd::utf8::encode_utf8_valid_utf8(text);
    vstd::utf8::encode_utf8_decode_utf8(text);
}

/// Every message is delivered as it came, whatever it holds.
pub proof fn law_message_is_delivered(data: Bytes, r: PeerAction)
    requires
        call_ensures(P2P::on_event, (PeerEvent::Message(data),), r),
    ensures
        r == PeerAction::Deliver(Receive::Data(data)),
{
}

/// What does not come over the data channel is never put into the queue of what was received, and
/// the end of the connection is signalled in the three states that are an end and in no other.
pub proof fn law_events(event: PeerEvent, r: PeerAction)
    requires
        call_ensures(P2P::on_event, (event,), r),
    ensures
        r is Deliver <==> event is Message,
        r is SignalOpen <==> event is ChannelOpened,
        r is SendDone <==> event is ChannelClosed,
        r is OfferDone <==> (event matches PeerEvent::StateChanged(state) && (state
            == PeerState::Failed || state == PeerState::Disconnected || state
            == PeerState::Closed)),
{
}

/// Text travels from the one that sends it to the one that receives it: it waits to be sent as it
/// is, and a message with its UTF-8 encoding is delivered and read as the same text.
pub proof fn law_text_travels(
    text: &str,
    sent: SendData,
    message: Bytes,
    action: PeerAction,
    received: Receive,
    r: Result<String, P2PError>,
)
    requires
        call_ensures(P2P::send_text, (text,), sent),
        content(message) == encode_utf8(text@),
        call_ensures(P2P::on_event, (PeerEvent::Message(message),), action),
        action == PeerAction::Deliver(received),
        call_ensures(P2P::receive_text, (Some(received),), r),
    ensures
        sent matches SendData::Text(waiting) && waiting@ == text@,
        r matches Ok(back) && back@ == text@,
{
    law_text_arrives(text@, message);
}

/// Bytes travel from the one that sends them to the one that receives them.
pub proof fn law_bytes_travel(
    data: Bytes,
    sent: SendData,
    message: Bytes,
    action: PeerAction,
)
    requires
        call_ensures(P2P::send, (data,), sent),
        content(message) == content(data),
        call_ensures(P2P::on_event, (PeerEvent::Message(message),), action),
    ensures
        sent == SendData::Binary(data),
        action matches PeerAction::Deliver(Receive::Data(received)) && content(received)
            == content(data),
{
}

/// What was received is read as text exactly where it is the UTF-8 encoding of one; the end of the
/// queue and the end of the connection are told apart.
pub proof fn law_received_text(received: Option<Receive>, r: Result<String, P2PError>)
    requires
        call_ensures(P2P::receive_text, (received,), r),
    ensures
        received is None <==> (r matches Err(e) && e is NotReceived),
        received == Some(Receive::Close) <==> (r matches Err(e) && e is Closed),
        r matches Ok(text) ==> (received matches Some(Receive::Data(data)) && content(data)
            == encode_utf8(text@)),
        received matches Some(Receive::Data(data)) ==> (r is Ok <==> valid_utf8(content(data))),
{
    if let Some(Receive::Data(data)) = received {
        if valid_utf8(content(data)) {
            vstd::utf8::decode_utf8_encode_utf8(content(data));
        }
    }
}

/// However far a connection is brought to its end, it is closed first, then the receiver is told,
/// once, and then waited for. Where nobody can signal any more that it is done, nothing of that
/// happens.
pub proof fn law_shutdown_run(
    states: Seq<P2P>,
    events: Seq<ShutdownEvent>,
    actions: Seq<ShutdownAction>,
)
    requires
        states.len() == events.len() + 1,
        actions.len() == events.len(),
        states[0].lifecycle() == Lifecycle::Live,
        forall|i: int|
            0 <= i < events.len() ==> shut_down(
                states[i],
                #[trigger] events[i],
                states[i + 1],
                actions[i],
            ),
    ensures
        events.len() > 0 ==> events[0] == ShutdownEvent::Done || events[0]
            == ShutdownEvent::Abandoned,
        events.len() > 0 && events[0] == ShutdownEvent::Abandoned ==> events.len() == 1
            && actions[0] is Finish,
        events.len() <= 4,
        events.len() > 0 && events[0] == ShutdownEvent::Done ==> actions[0] is CloseConnection,
        events.len() > 1 ==> events[1] == ShutdownEvent::ConnectionClosed && actions[1]
            == ShutdownAction::Deliver(Receive::Close),
        events.len() > 2 ==> events[2] == ShutdownEvent::Delivered
            && actions[2] is AwaitReceiverGone,
        events.len() > 3 ==> events[3] == ShutdownEvent::ReceiverGone && actions[3] is Finish,
{
    if events.len() > 0 {
        assert(shut_down(states[0], events[0], states[1], actions[0]));
    }
    if events.len() > 1 {
        assert(shut_down(states[1], events[1], states[2], actions[1]));
    }
    if events.len() > 2 {
        assert(shut_down(states[2], events[2], states[3], actions[2]));
    }
    if events.len() > 3 {
        assert(shut_down(states[3], events[3], states[4], actions[3]));
    }
    if events.len() > 4 {
        assert(shut_down(states[4], events[4], states[5], actions[4]));
    }
}

/// An answer is written whole, as the local description that it is. Writing it fails only where
/// there is no local description, where the text is longer than an allocation can be, or where the
/// compressor failed on all of its JSON form.
pub proof fn law_answer_is_written(
    local: Option<Description>,
    compress: bool,
    r: Result<String, P2PError>,
)
    requires
        call_ensures(P2P::answer_text, (local, compress), r),
    ensures
        local is None <==> (r matches Err(e) && e is NoLocalDescription),
        local matches Some(description) ==> ({
            let json = encode_utf8(json_text(description@));
            let payload = if compress {
                zstd_frame(json, 3)
            } else {
                json
            };
            match r {
                Ok(text) => base64_bytes(text@) == Some(payload),
                Err(P2PError::Write(WriteError::TooLong)) => payload.len() > isize::MAX / 4 * 3,
                Err(P2PError::Write(WriteError::Compression(cause))) => compress && compresses(
                    json,
                    3,
                    Err(cause),
                ),
                Err(_) => false,
            }
        }),
{
}

/// An offer is written whole, as an offer with the lines of the local description that do not
/// start with `a=candidate:udp`. Writing it fails only where there is no local description, where
/// these lines are not SDP, where the text is longer than an allocation can be, or where the
/// compressor failed on all of its JSON form.
pub proof fn law_offer_is_written(
    local: Option<Description>,
    compress: bool,
    r: Result<String, P2PError>,
)
    requires
        call_ensures(P2P::offer_text, (local, compress), r),
    ensures
        local is None <==> (r matches Err(e) && e is NoLocalDescription),
        local matches Some(description) ==> ({
            let kept = lines(description.sdp@).filter(
                |line: Seq<char>| !"a=candidate:udp"@.is_prefix_of(line),
            );
            let offer = DescriptionView { kind: SdpKind::Offer, sdp: joined(kept) };
            if is_sdp(offer.sdp) {
                let json = encode_utf8(json_text(offer));
                let payload = if compress {
                    zstd_frame(json, 3)
                } else {
                    json
                };
                match r {
                    Ok(text) => base64_bytes(text@) == Some(payload),
                    Err(P2PError::Write(WriteError::TooLong)) => payload.len() > isize::MAX / 4 * 3,
                    Err(P2PError::Write(WriteError::Compression(cause))) => compress && compresses(
                        json,
                        3,
                        Err(cause),
                    ),
                    Err(_) => false,
                }
            } else {
                r matches Err(e) && e is Sdp
            }
        }),
{
    if let Some(description) = local {
        lemma_sent_offer(description);
    }
}

/// The lines of the offer that is sent for a local description.
proof fn lemma_sent_offer(local: Description)
    ensures
        sent_offer(local@).kind == SdpKind::Offer,
        sent_offer(local@).sdp == joined(
            lines(local.sdp@).filter(|line: Seq<char>| !"a=candidate:udp"@.is_prefix_of(line)),
        ),
{
    let kept = |line: Seq<char>| crate::description::is_kept(line);
    let other = |line: Seq<char>| !"a=candidate:udp"@.is_prefix_of(line);
    assert(kept =~= other);
}

/// The one that offered gets the answer that the other one wrote: the same kind and the same text.
/// With compression, it can fail to, where the decompressor fails on the very bytes that were
/// written.
pub proof fn law_answer_reaches_peer(
    local: Description,
    compress: bool,
    written: String,
    text: &str,
    r: Result<Description, P2PError>,
)
    requires
        call_ensures(P2P::answer_text, (Some(local), compress), Ok(written)),
        text@ == written@,
        call_ensures(P2P::set_answer, (text, compress), r),
    ensures
        match r {
            Ok(answer) => answer.kind == local.kind && answer.sdp@ == local.sdp@,
            Err(P2PError::Read(ReadError::Compression(cause))) => compress && (base64_bytes(
                text@,
            ) matches Some(payload) && decompresses(payload, Err(cause))),
            Err(_) => false,
        },
{
    let reading = as_read(r)->Some_0;
    law_written_is_read_back(Ok(written), local@, compress, reading);
    if compress {
        let payload = base64_bytes(text@)->Some_0;
        let data = choose|data: Result<Vec<u8>, std::io::Error>| #[trigger]
            unpacked(data, reading) && decompresses(payload, data);
        assert(decompresses(payload, data));
    }
}

/// What the library says of each error.
pub proof fn law_error_messages(e: &P2PError, r: Option<&'static str>)
    requires
        call_ensures(P2PError::message, (e,), r),
    ensures
        match *e {
            P2PError::SessionNotFetched => r matches Some(m) && m@
                == "Failed to get remote session description"@,
            P2PError::SessionNotSent => r matches Some(m) && m@
                == "Failed to send local session description"@,
            P2PError::NoConnectionCode => r matches Some(m) && m@
                == "Failed to get connection code"@,
            P2PError::NotSent => r matches Some(m) && m@ == "Failed to send data"@,
            P2PError::NotReceived => r matches Some(m) && m@ == "Failed to receive data"@,
            P2PError::NotText(_) => r matches Some(m) && m@ == "Failed to convert"@,
            P2PError::Closed => r matches Some(m) && m@ == "Session closed"@,
            P2PError::NoLocalDescription => r matches Some(m) && m@
                == "Failed to generate local_description."@,
            P2PError::AnswerNotSet => r matches Some(m) && m@ == "Failed to set answer"@,
            P2PError::Read(ReadError::Json(_)) => r matches Some(m) && m@
                == "Failed to parse description"@,
            _ => r is None,
        },
{
}

/// A configuration that was given is used as it is.
pub proof fn law_given_configuration<C>(given: C, r: Configuration<C>)
    requires
        call_ensures(P2P::configuration::<C>, (Some(given),), r),
    ensures
        r == Configuration::Given(given),
{
}

/// The body of a message is its text, all of it.
pub proof fn law_message_views(session: SessionDescription, code: ConnectionCode)
    ensures
        session@ == session.session_description@,
        code@ == code.connection_code@,
{
}

} // verus!
