//! The signaling server: it keeps the description of a peer under a connection code, gives it to
//! whoever asks for that code, and passes one answer back.

use crate::description::{decoded, is_solid, written, DescriptionView, ReadFault, WriteError};
use crate::event_stream::{
    cut_at_line_feeds, event_text, law_cut_at_line_feeds, law_event_data_arrives,
    law_one_code_one_answer, law_values_concat, notices, run, values_of, whole, NoticeView,
};
use crate::p2p::SessionDescription;
use crate::text::is_white_space;
use rand::Rng;
use vstd::hash_map::StringHashMap;
use vstd::prelude::*;

verus! {

/// The number of characters in a connection code.
pub const CODE_LEN: usize = 6;

/// How often a connection code is drawn at random before one is searched for.
pub const MAX_DRAWS: u64 = 1_000_000;

/// The seconds for which a session is kept after its answer was passed on.
pub const REMOVAL_DELAY_SECS: u64 = 1;

/// The characters of which connection codes are made: none that is easily taken for another.
pub open spec fn charset() -> Seq<char> {
    "ABCDEFGHJKLMNPRTUVWXYZ234678"@
}

/// Whether `code` is a connection code.
pub open spec fn is_code(code: Seq<char>) -> bool {
    &&& code.len() == CODE_LEN
    &&& forall|i: int| 0 <= i < code.len() ==> charset().contains(#[trigger] code[i])
}

/// The characters at `indices` in the set of characters.
pub open spec fn code_at(indices: Seq<usize>) -> Seq<char> {
    Seq::new(indices.len(), |i: int| charset()[indices[i] as int])
}

/// `Rng::gen_range` of `rand::thread_rng`: some number below `bound`. The call panics on an empty
/// range, so the range is not empty. It also panics where the system gives no random seed.
#[verifier::external_body]
fn random_index(bound: usize) -> (r: usize)
    requires
        bound > 0,
    ensures
        r < bound,
{
    rand::thread_rng().gen_range(0..bound)
}

/// The text made of the characters at `indices` in the set of characters.
pub fn connection_code(indices: &Vec<usize>) -> (r: String)
    requires
        forall|i: int| 0 <= i < indices@.len() ==> #[trigger] indices@[i] < charset().len(),
    ensures
        r@ == code_at(indices@),
        r@.len() == indices@.len(),
        forall|i: int|
            0 <= i < r@.len() ==> #[trigger] r@[i]
                == "ABCDEFGHJKLMNPRTUVWXYZ234678"@[indices@[i] as int],
{
    let mut r = String::new();
    let mut i: usize = 0;
    while i < indices.len()
        invariant
            i <= indices.len(),
            forall|i: int| 0 <= i < indices@.len() ==> #[trigger] indices@[i] < charset().len(),
            r@ == code_at(indices@.take(i as int)),
        decreases indices.len() - i,
    {
        let ghost before = r@;
        r.push("ABCDEFGHJKLMNPRTUVWXYZ234678".get_char(indices[i]));
        assert(code_at(indices@.take(i + 1)) == before.push(charset()[indices@[i as int] as int]));
        i = i + 1;
    }
    assert(indices@.take(indices@.len() as int) == indices@);
    r
}

/// Whether each of the six characters of `code` was drawn at random out of all 28.
pub closed spec fn is_drawn(code: Seq<char>) -> bool {
    exists|indices: Seq<usize>|
        indices.len() == 6 && code == #[trigger] code_at(indices) && forall|i: int|
            0 <= i < indices.len() ==> call_ensures(random_index, (28usize,), #[trigger] indices[i])
}

/// A connection code drawn at random.
pub fn generate_connection_code() -> (r: String)
    ensures
        is_code(r@),
        is_drawn(r@),
        r@.len() == 6,
        forall|i: int|
            0 <= i < r@.len() ==> "ABCDEFGHJKLMNPRTUVWXYZ234678"@.contains(#[trigger] r@[i]),
{
    proof {
        reveal_strlit("ABCDEFGHJKLMNPRTUVWXYZ234678");
    }
    let mut indices: Vec<usize> = Vec::new();
    while indices.len() < CODE_LEN
        invariant
            indices.len() <= CODE_LEN,
            charset().len() == 28,
            forall|i: int| 0 <= i < indices@.len() ==> #[trigger] indices@[i] < charset().len(),
            forall|i: int|
                0 <= i < indices@.len() ==> call_ensures(
                    random_index,
                    (28usize,),
                    #[trigger] indices@[i],
                ),
        decreases CODE_LEN - indices.len(),
    {
        indices.push(random_index(28));
    }
    connection_code(&indices)
}

/// What the server keeps: the description and the way to a peer, by connection code.
pub struct SignalingView<T> {
    pub sessions: Map<Seq<char>, Seq<char>>,
    pub broadcasters: Map<Seq<char>, T>,
}

impl<T> SignalingView<T> {
    /// The server before any registration.
    pub open spec fn empty() -> Self {
        SignalingView { sessions: Map::empty(), broadcasters: Map::empty() }
    }

    /// The server after a registration under `code`.
    pub open spec fn registered(self, code: Seq<char>, description: Seq<char>, tx: T) -> Self {
        SignalingView {
            sessions: self.sessions.insert(code, description),
            broadcasters: self.broadcasters.insert(code, tx),
        }
    }

    /// The server without what it kept under `code`.
    pub open spec fn removed(self, code: Seq<char>) -> Self {
        SignalingView {
            sessions: self.sessions.remove(code),
            broadcasters: self.broadcasters.remove(code),
        }
    }

    /// The description under `code`; an empty one where there is none.
    pub open spec fn description(self, code: Seq<char>) -> Seq<char> {
        if self.sessions.contains_key(code) {
            self.sessions[code]
        } else {
            seq![]
        }
    }

    /// The way to the peer that registered under `code`.
    pub open spec fn broadcaster(self, code: Seq<char>) -> Option<T> {
        if self.broadcasters.contains_key(code) {
            Some(self.broadcasters[code])
        } else {
            None
        }
    }

    /// Every description comes with a way to the peer that it describes, and the other way round.
    pub open spec fn consistent(self) -> bool {
        self.sessions.dom() == self.broadcasters.dom()
    }

    /// Every description, and every way to a peer, is kept under a connection code.
    pub open spec fn keyed_by_codes(self) -> bool {
        &&& forall|code: Seq<char>| #[trigger] self.sessions.contains_key(code) ==> is_code(code)
        &&& forall|code: Seq<char>| #[trigger] self.broadcasters.contains_key(code) ==> is_code(code)
    }

    /// Whether every connection code is in use.
    pub open spec fn is_full(self) -> bool {
        forall|code: Seq<char>| #[trigger] is_code(code) ==> self.sessions.contains_key(code)
    }
}

/// The state of the server. A `T` is a way to send text to a peer that registered.
#[verifier::reject_recursive_types(T)]
pub struct AppState<T> {
    sessions: StringHashMap<String>,
    broadcasters: StringHashMap<T>,
}

impl<T> View for AppState<T> {
    type V = SignalingView<T>;

    closed spec fn view(&self) -> SignalingView<T> {
        SignalingView {
            sessions: self.sessions@.map_values(|s: String| s@),
            broadcasters: self.broadcasters@,
        }
    }
}

impl<T> AppState<T> {
    /// The server before any registration.
    pub fn new() -> (r: Self)
        ensures
            r@ == SignalingView::<T>::empty(),
            r@.consistent(),
            r@.keyed_by_codes(),
    {
        let r = AppState { sessions: StringHashMap::new(), broadcasters: StringHashMap::new() };
        assert(r@.sessions == Map::<Seq<char>, Seq<char>>::empty());
        assert(r@.sessions.dom() == r@.broadcasters.dom());
        r
    }

    /// Gives `code` back where no session has it.
    pub fn unused_code(&self, code: String) -> (r: Option<String>)
        ensures
            r == if self@.sessions.contains_key(code@) {
                None
            } else {
                Some(code)
            },
    {
        if self.sessions.contains_key(code.as_str()) {
            None
        } else {
            Some(code)
        }
    }

    /// A connection code that no session has and that starts with `start`, to which `missing`
    /// characters are missing; `None` where every such code is in use.
    fn search(&self, start: &str, missing: usize) -> (r: Option<String>)
        requires
            start@.len() + missing == CODE_LEN,
            forall|i: int| 0 <= i < start@.len() ==> charset().contains(#[trigger] start@[i]),
        ensures
            match r {
                Some(code) => is_code(code@) && !self@.sessions.contains_key(code@),
                None => forall|code: Seq<char>| #[trigger]
                    is_code(code) && start@.is_prefix_of(code) ==> self@.sessions.contains_key(
                        code,
                    ),
            },
        decreases missing,
    {
        if missing == 0 {
            assert forall|code: Seq<char>| #[trigger]
                is_code(code) && start@.is_prefix_of(code) implies code == start@ by {
                assert(start@ == code.take(start@.len() as int));
            }
            return self.unused_code(start.to_owned());
        }
        proof {
            reveal_strlit("ABCDEFGHJKLMNPRTUVWXYZ234678");
        }
        let mut i: usize = 0;
        while i < 28
            invariant
                i <= 28,
                missing > 0,
                charset().len() == 28,
                start@.len() + missing == CODE_LEN,
                forall|i: int| 0 <= i < start@.len() ==> charset().contains(#[trigger] start@[i]),
                forall|code: Seq<char>, j: int|
                    #![trigger is_code(code), charset()[j]]
                    0 <= j < i && is_code(code) && start@.push(charset()[j]).is_prefix_of(code)
                        ==> self@.sessions.contains_key(code),
            decreases 28 - i,
        {
            let mut next = start.to_owned();
            next.push("ABCDEFGHJKLMNPRTUVWXYZ234678".get_char(i));
            assert forall|k: int| 0 <= k < next@.len() implies charset().contains(
                #[trigger] next@[k],
            ) by {
                if k < start@.len() {
                    assert(next@[k] == start@[k]);
                }
            }
            let found = self.search(next.as_str(), missing - 1);
            if found.is_some() {
                return found;
            }
            i = i + 1;
        }
        proof {
            let n = start@.len() as int;
            assert forall|code: Seq<char>| #[trigger]
                is_code(code) && start@.is_prefix_of(code) implies self@.sessions.contains_key(
                code,
            ) by {
                assert(charset().contains(code[n]));
                let j = choose|j: int| 0 <= j < charset().len() && charset()[j] == code[n];
                assert(start@.push(charset()[j]).is_prefix_of(code));
            }
        }
        None
    }

    /// A connection code that no session has; `None` where every code is in use. It is drawn at
    /// random, up to `draws` times; where each draw gave a code in use, one is searched for.
    pub fn find_connection_code(&self, draws: u64) -> (r: Option<String>)
        ensures
            match r {
                Some(code) => is_code(code@) && !self@.sessions.contains_key(code@),
                None => self@.is_full(),
            },
            draws > 0 ==> (r matches Some(code) && is_drawn(code@)) || exists|drawn: Seq<char>|
                #[trigger] is_drawn(drawn) && self@.sessions.contains_key(drawn),
    {
        let mut left: u64 = draws;
        while left > 0
            invariant
                left <= draws,
                left < draws ==> exists|drawn: Seq<char>| #[trigger]
                    is_drawn(drawn) && self@.sessions.contains_key(drawn),
            decreases left,
        {
            let code = generate_connection_code();
            let unused = self.unused_code(code);
            if unused.is_some() {
                return unused;
            }
            left = left - 1;
        }
        proof {
            reveal_strlit("");
        }
        self.search("", CODE_LEN)
    }

    /// A connection code that no session has; `None` where every code is in use.
    pub fn get_unique_connection_code(&self) -> (r: Option<String>)
        ensures
            match r {
                Some(code) => is_code(code@) && !self@.sessions.contains_key(code@),
                None => self@.is_full(),
            },
            (r matches Some(code) && is_drawn(code@)) || exists|drawn: Seq<char>| #[trigger]
                is_drawn(drawn) && self@.sessions.contains_key(drawn),
    {
        self.find_connection_code(MAX_DRAWS)
    }

    /// Keeps a description, and the way to the peer that it describes, under a connection code
    /// that no session has. Where every code is in use, gives both back.
    pub fn register(&mut self, payload: SessionDescription, tx: T) -> (r: Result<
        RegisterStream,
        (SessionDescription, T),
    >)
        ensures
            match r {
                Ok(stream) => {
                    &&& is_code(stream.code())
                    &&& !old(self)@.sessions.contains_key(stream.code())
                    &&& final(self)@ == old(self)@.registered(stream.code(), payload@, tx)
                    &&& stream.phase() == StreamPhase::Start
                },
                Err((given, way)) => given == payload && way == tx && final(self)@ == old(self)@
                    && old(self)@.is_full(),
            },
            old(self)@.consistent() ==> final(self)@.consistent(),
            old(self)@.keyed_by_codes() ==> final(self)@.keyed_by_codes(),
            r matches Ok(stream) ==> {
                &&& final(self)@.sessions == old(self)@.sessions.insert(
                    stream.code(),
                    payload.session_description@,
                )
                &&& final(self)@.broadcasters == old(self)@.broadcasters.insert(stream.code(), tx)
            },
            (r matches Ok(stream) && is_drawn(stream.code())) || exists|drawn: Seq<char>| #[trigger]
                is_drawn(drawn) && old(self)@.sessions.contains_key(drawn),
    {
        match self.get_unique_connection_code() {
            Some(code) => Ok(self.register_under(code.as_str(), payload, tx)),
            None => Err((payload, tx)),
        }
    }

    /// Keeps a description, and the way to the peer that it describes, under `connection_code`.
    pub fn register_under(
        &mut self,
        connection_code: &str,
        payload: SessionDescription,
        tx: T,
    ) -> (r: RegisterStream)
        ensures
            final(self)@ == old(self)@.registered(connection_code@, payload@, tx),
            final(self)@.sessions == old(self)@.sessions.insert(
                connection_code@,
                payload.session_description@,
            ),
            final(self)@.broadcasters == old(self)@.broadcasters.insert(connection_code@, tx),
            r.code() == connection_code@,
            r.phase() == StreamPhase::Start,
            old(self)@.consistent() ==> final(self)@.consistent(),
            old(self)@.keyed_by_codes() && is_code(connection_code@)
                ==> final(self)@.keyed_by_codes(),
    {
        proof {
            if self@.consistent() {
                law_consistent(self@, connection_code@, payload@, tx);
            }
        }
        self.sessions.insert(connection_code.to_owned(), payload.session_description);
        self.broadcasters.insert(connection_code.to_owned(), tx);
        assert(self@.sessions == old(self)@.sessions.insert(connection_code@, payload@));
        RegisterStream { connection_code: connection_code.to_owned(), phase: StreamPhase::Start }
    }

    /// The description that is kept under `connection_code`; an empty one where none is.
    pub fn get_session(&self, connection_code: &str) -> (r: SessionDescription)
        ensures
            r@ == self@.description(connection_code@),
            self@.sessions.contains_key(connection_code@) ==> r.session_description@
                == self@.sessions[connection_code@],
            !self@.sessions.contains_key(connection_code@) ==> r.session_description@.len() == 0,
    {
        match self.sessions.get(connection_code) {
            Some(session) => SessionDescription { session_description: session.clone() },
            None => SessionDescription { session_description: String::new() },
        }
    }

    /// What is to be sent where, for an answer to the peer that registered under
    /// `connection_code`; nothing where none did.
    pub fn send_session(&self, connection_code: &str, payload: SessionDescription) -> (r: Option<
        (&T, String),
    >)
        ensures
            match r {
                Some((tx, answer)) => self@.broadcaster(connection_code@) == Some(*tx) && answer@
                    == payload@,
                None => self@.broadcaster(connection_code@) is None,
            },
            r is Some <==> self@.broadcasters.contains_key(connection_code@),
            r matches Some((tx, answer)) ==> *tx == self@.broadcasters[connection_code@] && answer@
                == payload.session_description@,
    {
        match self.broadcasters.get(connection_code) {
            Some(tx) => Some((tx, payload.session_description)),
            None => None,
        }
    }

    /// Drops what is kept under `connection_code`.
    pub fn remove(&mut self, connection_code: &str)
        ensures
            final(self)@ == old(self)@.removed(connection_code@),
            final(self)@.sessions == old(self)@.sessions.remove(connection_code@),
            final(self)@.broadcasters == old(self)@.broadcasters.remove(connection_code@),
            old(self)@.consistent() ==> final(self)@.consistent(),
            old(self)@.keyed_by_codes() ==> final(self)@.keyed_by_codes(),
    {
        assert(self@.consistent() ==> self@.removed(connection_code@).sessions.dom()
            == self@.removed(connection_code@).broadcasters.dom());
        self.sessions.remove(connection_code);
        self.broadcasters.remove(connection_code);
        assert(self@.sessions == old(self)@.sessions.remove(connection_code@));
    }
}

/// How far the answer to a registration got.
#[derive(Clone, Copy, Debug, PartialEq, Eq, Structural)]
pub enum StreamPhase {
    /// Nothing was sent.
    Start,
    /// The connection code was sent.
    Announced,
    /// The stream waits for the answer of a peer.
    Waiting,
    /// The answer was sent.
    Answered,
    /// Nothing more is to be done.
    Finished,
}

/// What moves the stream on.
#[derive(Debug)]
pub enum StreamInput {
    /// The last action was carried out.
    Resume,
    /// The answer that was waited for; `None` where none can come any more.
    Message(Option<String>),
}

/// What a [`StreamInput`] holds.
pub enum StreamInputView {
    Resume,
    Message(Option<Seq<char>>),
}

impl View for StreamInput {
    type V = StreamInputView;

    open spec fn view(&self) -> StreamInputView {
        match self {
            StreamInput::Resume => StreamInputView::Resume,
            StreamInput::Message(None) => StreamInputView::Message(None),
            StreamInput::Message(Some(message)) => StreamInputView::Message(Some(message@)),
        }
    }
}

/// What is to be done next for the stream.
#[derive(Debug)]
pub enum StreamAction {
    /// Send an event.
    Emit { event: String, data: String },
    /// Wait for the answer of a peer.
    Await,
    /// Have the session under the code removed after some seconds, and do not wait for that.
    ScheduleRemoval { connection_code: String, delay_secs: u64 },
    /// End the stream.
    End,
}

/// What a [`StreamAction`] holds.
pub enum StreamActionView {
    Emit { event: Seq<char>, data: Seq<char> },
    Await,
    ScheduleRemoval { connection_code: Seq<char>, delay_secs: int },
    End,
}

impl View for StreamAction {
    type V = StreamActionView;

    open spec fn view(&self) -> StreamActionView {
        match self {
            StreamAction::Emit { event, data } => StreamActionView::Emit {
                event: event@,
                data: data@,
            },
            StreamAction::Await => StreamActionView::Await,
            StreamAction::ScheduleRemoval { connection_code, delay_secs } =>
                StreamActionView::ScheduleRemoval {
                connection_code: connection_code@,
                delay_secs: *delay_secs as int,
            },
            StreamAction::End => StreamActionView::End,
        }
    }
}

/// Whether the stream takes `input` in this phase: an answer where it waits for one, and else
/// that it may go on.
pub open spec fn stream_expects(phase: StreamPhase, input: StreamInputView) -> bool {
    (phase == StreamPhase::Waiting) == (input is Message)
}

/// The next phase of the stream for `code`, and what is to be done.
pub open spec fn stream_next(
    phase: StreamPhase,
    code: Seq<char>,
    input: StreamInputView,
) -> (StreamPhase, StreamActionView) {
    match phase {
        StreamPhase::Start => (
            StreamPhase::Announced,
            StreamActionView::Emit { event: "connection_code"@, data: code },
        ),
        StreamPhase::Announced => (StreamPhase::Waiting, StreamActionView::Await),
        StreamPhase::Waiting => match input {
            StreamInputView::Message(Some(message)) => (
                StreamPhase::Answered,
                StreamActionView::Emit { event: "peer_description"@, data: message },
            ),
            _ => (StreamPhase::Finished, StreamActionView::End),
        },
        StreamPhase::Answered => (
            StreamPhase::Finished,
            StreamActionView::ScheduleRemoval {
                connection_code: code,
                delay_secs: REMOVAL_DELAY_SECS as int,
            },
        ),
        StreamPhase::Finished => (StreamPhase::Finished, StreamActionView::End),
    }
}

/// The stream of events that answers a registration.
#[derive(Debug)]
pub struct RegisterStream {
    connection_code: String,
    phase: StreamPhase,
}

impl RegisterStream {
    /// The code of the registration.
    pub closed spec fn code(self) -> Seq<char> {
        self.connection_code@
    }

    /// How far the stream got.
    pub closed spec fn phase(self) -> StreamPhase {
        self.phase
    }

    /// Whether the stream takes `input` now.
    pub fn expects(&self, input: &StreamInput) -> (r: bool)
        ensures
            r == stream_expects(self.phase(), input@),
            r <==> (input is Message <==> self.phase() == StreamPhase::Waiting),
    {
        match (self.phase, input) {
            (StreamPhase::Waiting, StreamInput::Message(_)) => true,
            (StreamPhase::Waiting, StreamInput::Resume) => false,
            (_, StreamInput::Message(_)) => false,
            (_, StreamInput::Resume) => true,
        }
    }

    /// Moves the stream on, and says what is to be done.
    pub fn step(&mut self, input: StreamInput) -> (r: StreamAction)
        requires
            stream_expects(old(self).phase(), input@),
        ensures
            final(self).code() == old(self).code(),
            (final(self).phase(), r@) == stream_next(old(self).phase(), old(self).code(), input@),
            streamed(*old(self), input, *final(self), r),
            match (old(self).phase(), input) {
                (StreamPhase::Start, _) => final(self).phase() == StreamPhase::Announced && (
                r matches StreamAction::Emit { event, data } && event@ == "connection_code"@
                    && data@ == old(self).code()),
                (StreamPhase::Announced, _) => final(self).phase() == StreamPhase::Waiting
                    && r is Await,
                (StreamPhase::Waiting, StreamInput::Message(Some(message))) => final(self).phase()
                    == StreamPhase::Answered && (r matches StreamAction::Emit { event, data }
                    && event@ == "peer_description"@ && data@ == message@),
                (StreamPhase::Answered, _) => final(self).phase() == StreamPhase::Finished && (
                r matches StreamAction::ScheduleRemoval { connection_code, delay_secs }
                    && connection_code@ == old(self).code() && delay_secs == 1),
                (_, _) => final(self).phase() == StreamPhase::Finished && r is End,
            },
    {
        match self.phase {
            StreamPhase::Start => {
                self.phase = StreamPhase::Announced;
                StreamAction::Emit {
                    event: "connection_code".to_owned(),
                    data: self.connection_code.clone(),
                }
            },
            StreamPhase::Announced => {
                self.phase = StreamPhase::Waiting;
                StreamAction::Await
            },
            StreamPhase::Waiting => match input {
                StreamInput::Message(Some(message)) => {
                    self.phase = StreamPhase::Answered;
                    StreamAction::Emit { event: "peer_description".to_owned(), data: message }
                },
                _ => {
                    self.phase = StreamPhase::Finished;
                    StreamAction::End
                },
            },
            StreamPhase::Answered => {
                self.phase = StreamPhase::Finished;
                StreamAction::ScheduleRemoval {
                    connection_code: self.connection_code.clone(),
                    delay_secs: REMOVAL_DELAY_SECS,
                }
            },
            StreamPhase::Finished => StreamAction::End,
        }
    }
}

/// Whether `input` moves a stream on from `before` to `after` and asks for `action`.
pub open spec fn streamed(
    before: RegisterStream,
    input: StreamInput,
    after: RegisterStream,
    action: StreamAction,
) -> bool {
    &&& stream_expects(before.phase(), input@)
    &&& after.code() == before.code()
    &&& (after.phase(), action@) == stream_next(before.phase(), before.code(), input@)
}

/// What the stream for `code` does from `phase` on where the answer that it waits for turns out
/// to be `message`, up to its end.
pub open spec fn stream_run(
    phase: StreamPhase,
    code: Seq<char>,
    message: Option<Seq<char>>,
    fuel: nat,
) -> Seq<StreamActionView>
    decreases fuel,
{
    let input = if phase == StreamPhase::Waiting {
        StreamInputView::Message(message)
    } else {
        StreamInputView::Resume
    };
    let (next, action) = stream_next(phase, code, input);
    if fuel == 0 || action is End {
        seq![action]
    } else {
        seq![action] + stream_run(next, code, message, (fuel - 1) as nat)
    }
}

/// The stream sends the connection code, waits, and where an answer comes, sends it and has the
/// session removed; where none comes, the session is not removed. No more than five steps lead to
/// its end.
pub proof fn law_stream_run(code: Seq<char>, message: Option<Seq<char>>, fuel: nat)
    requires
        fuel >= 4,
    ensures
        stream_run(StreamPhase::Start, code, message, fuel) == match message {
            Some(answer) => seq![
                StreamActionView::Emit { event: "connection_code"@, data: code },
                StreamActionView::Await,
                StreamActionView::Emit { event: "peer_description"@, data: answer },
                StreamActionView::ScheduleRemoval {
                    connection_code: code,
                    delay_secs: REMOVAL_DELAY_SECS as int,
                },
                StreamActionView::End,
            ],
            None => seq![
                StreamActionView::Emit { event: "connection_code"@, data: code },
                StreamActionView::Await,
                StreamActionView::End,
            ],
        },
{
    reveal_with_fuel(stream_run, 5);
}

/// A connection code holds no white space.
pub proof fn law_code_is_solid(code: Seq<char>)
    requires
        is_code(code),
    ensures
        is_solid(code),
{
    reveal_strlit("ABCDEFGHJKLMNPRTUVWXYZ234678");
    assert forall|i: int| 0 <= i < code.len() implies !is_white_space(#[trigger] code[i]) by {
        assert(charset().contains(code[i]));
    }
}

/// A registered peer learns its code, and then the answer, from the events of the stream, however
/// the stream is cut into chunks after line feeds.
pub proof fn law_registered_peer_learns(
    code: Seq<char>,
    answer: Seq<char>,
    chunks: Seq<Seq<char>>,
)
    requires
        is_code(code),
        is_solid(answer),
        cut_at_line_feeds(chunks),
        whole(chunks) == event_text("connection_code"@, code) + event_text(
            "peer_description"@,
            answer,
        ),
    ensures
        run(0, chunks) == seq![NoticeView::Code(code), NoticeView::Answer(answer)],
{
    let first = event_text("connection_code"@, code);
    let second = event_text("peer_description"@, answer);
    reveal_strlit("connection_code");
    reveal_strlit("peer_description");
    law_code_is_solid(code);
    law_event_data_arrives("connection_code"@, code);
    law_event_data_arrives("peer_description"@, answer);
    law_one_code_one_answer(0, chunks);
    law_cut_at_line_feeds(chunks);
    assert(first.last() == '\n');
    law_values_concat(first, second);
    assert(values_of(whole(chunks)) == seq![code, answer]);
    assert(notices(0, seq![code, answer]) == seq![
        NoticeView::Code(code),
        NoticeView::Answer(answer),
    ]);
}

/// After a registration, its code gives its description and the way to its peer.
pub proof fn law_registered_is_found<T>(
    s: SignalingView<T>,
    code: Seq<char>,
    description: Seq<char>,
    tx: T,
)
    ensures
        s.registered(code, description, tx).description(code) == description,
        s.registered(code, description, tx).broadcaster(code) == Some(tx),
{
}

/// The peer that asks for a code reads the very description that was written for it.
pub proof fn law_description_reaches_peer<T>(
    s: SignalingView<T>,
    code: Seq<char>,
    text: Result<String, WriteError>,
    description: DescriptionView,
    compress: bool,
    tx: T,
)
    requires
        written(text, description, compress),
        text is Ok,
    ensures
        decoded(s.registered(code, text->Ok_0@, tx).description(code), compress) == Ok::<
            DescriptionView,
            ReadFault,
        >(description),
{
}

/// After a removal, the code gives the empty description and no way to a peer, as a code that
/// was never registered does.
pub proof fn law_removed_is_gone<T>(s: SignalingView<T>, code: Seq<char>)
    ensures
        s.removed(code).description(code) == Seq::<char>::empty(),
        s.removed(code).broadcaster(code) is None,
        SignalingView::<T>::empty().description(code) == Seq::<char>::empty(),
        SignalingView::<T>::empty().broadcaster(code) is None,
{
}

/// A registration or a removal under one code leaves every other code as it was.
pub proof fn law_other_codes_unchanged<T>(
    s: SignalingView<T>,
    code: Seq<char>,
    description: Seq<char>,
    tx: T,
    other: Seq<char>,
)
    requires
        other != code,
    ensures
        s.registered(code, description, tx).description(other) == s.description(other),
        s.registered(code, description, tx).broadcaster(other) == s.broadcaster(other),
        s.removed(code).description(other) == s.description(other),
        s.removed(code).broadcaster(other) == s.broadcaster(other),
{
}

/// A registration under a code that no session has leaves every session that there was, and the
/// way to its peer, as they were.
pub proof fn law_registration_keeps_sessions<T>(
    s: SignalingView<T>,
    code: Seq<char>,
    description: Seq<char>,
    tx: T,
    other: Seq<char>,
)
    requires
        !s.sessions.contains_key(code),
        s.sessions.contains_key(other),
    ensures
        s.registered(code, description, tx).sessions.contains_key(other),
        s.registered(code, description, tx).description(other) == s.description(other),
        s.registered(code, description, tx).broadcaster(other) == s.broadcaster(other),
{
}

/// The server starts with connection codes as its only keys; a registration under such a code and
/// any removal keep that so.
pub proof fn law_keyed_by_codes<T>(
    s: SignalingView<T>,
    code: Seq<char>,
    description: Seq<char>,
    tx: T,
    removed: Seq<char>,
)
    requires
        s.keyed_by_codes(),
        is_code(code),
    ensures
        SignalingView::<T>::empty().keyed_by_codes(),
        s.registered(code, description, tx).keyed_by_codes(),
        s.removed(removed).keyed_by_codes(),
{
}

/// A removal undoes a registration under a code that was not in use.
pub proof fn law_removal_undoes_registration<T>(
    s: SignalingView<T>,
    code: Seq<char>,
    description: Seq<char>,
    tx: T,
)
    requires
        !s.sessions.contains_key(code),
        !s.broadcasters.contains_key(code),
    ensures
        s.registered(code, description, tx).removed(code) == s,
{
    assert(s.registered(code, description, tx).removed(code).sessions == s.sessions);
    assert(s.registered(code, description, tx).removed(code).broadcasters == s.broadcasters);
}

/// The server starts consistent, and registrations and removals keep it so.
pub proof fn law_consistent<T>(
    s: SignalingView<T>,
    code: Seq<char>,
    description: Seq<char>,
    tx: T,
)
    requires
        s.consistent(),
    ensures
        SignalingView::<T>::empty().consistent(),
        s.registered(code, description, tx).consistent(),
        s.removed(code).consistent(),
{
    assert(s.registered(code, description, tx).sessions.dom() == s.sessions.dom().insert(code));
    assert(s.registered(code, description, tx).broadcasters.dom() == s.broadcasters.dom().insert(
        code,
    ));
    assert(s.removed(code).sessions.dom() == s.sessions.dom().remove(code));
    assert(s.removed(code).broadcasters.dom() == s.broadcasters.dom().remove(code));
    assert(SignalingView::<T>::empty().sessions.dom() == SignalingView::<
        T,
    >::empty().broadcasters.dom());
}

/// The characters of connection codes are the capital letters without I, O, Q and S, and the digits
/// without 0, 1, 5 and 9.
pub proof fn law_charset(c: char)
    ensures
        charset().len() == 28,
        charset().contains(c) <==> {
            ||| 'A' <= c <= 'Z' && c != 'I' && c != 'O' && c != 'Q' && c != 'S'
            ||| '2' <= c <= '8' && c != '5'
        },
{
    reveal_strlit("ABCDEFGHJKLMNPRTUVWXYZ234678");
    let set = charset();
    assert(set[0] == 'A' && set[1] == 'B' && set[2] == 'C' && set[3] == 'D' && set[4] == 'E');
    assert(set[5] == 'F' && set[6] == 'G' && set[7] == 'H' && set[8] == 'J' && set[9] == 'K');
    assert(set[10] == 'L' && set[11] == 'M' && set[12] == 'N' && set[13] == 'P' && set[14] == 'R');
    assert(set[15] == 'T' && set[16] == 'U' && set[17] == 'V' && set[18] == 'W' && set[19] == 'X');
    assert(set[20] == 'Y' && set[21] == 'Z' && set[22] == '2' && set[23] == '3' && set[24] == '4');
    assert(set[25] == '6' && set[26] == '7' && set[27] == '8');
}

/// A connection code is any six of these characters, and nothing else is one.
pub proof fn law_is_code(code: Seq<char>)
    ensures
        is_code(code) <==> code.len() == 6 && forall|i: int|
            0 <= i < code.len() ==> "ABCDEFGHJKLMNPRTUVWXYZ234678"@.contains(#[trigger] code[i]),
{
}

/// Two codes are the same only where all of their numbers are.
pub proof fn law_codes_differ(
    indices: &Vec<usize>,
    other: &Vec<usize>,
    first: String,
    second: String,
)
    requires
        call_ensures(connection_code, (indices,), first),
        call_ensures(connection_code, (other,), second),
        forall|i: int| 0 <= i < indices@.len() ==> #[trigger] indices@[i] < 28,
        forall|i: int| 0 <= i < other@.len() ==> #[trigger] other@[i] < 28,
        first@ == second@,
    ensures
        indices@ == other@,
{
    assert forall|i: int| 0 <= i < indices@.len() implies indices@[i] == other@[i] by {
        assert(indices@[i] < 28 && other@[i] < 28);
        assert(first@[i] == charset()[indices@[i] as int]);
        assert(second@[i] == charset()[other@[i] as int]);
        lemma_charset_distinct(indices@[i] as int, other@[i] as int);
    }
}

/// No character stands in the set twice.
proof fn lemma_charset_distinct(i: int, j: int)
    requires
        0 <= i < 28,
        0 <= j < 28,
        charset()[i] == charset()[j],
    ensures
        i == j,
{
    reveal_strlit("ABCDEFGHJKLMNPRTUVWXYZ234678");
}

/// A code that was drawn comes of six draws out of 28, and is a connection code.
proof fn law_drawn(code: Seq<char>)
    ensures
        is_drawn(code) <==> exists|indices: Seq<usize>|
            indices.len() == 6 && code == #[trigger] code_at(indices) && forall|i: int|
                0 <= i < indices.len() ==> call_ensures(
                    random_index,
                    (28usize,),
                    #[trigger] indices[i],
                ),
        is_drawn(code) ==> is_code(code),
{
    reveal_strlit("ABCDEFGHJKLMNPRTUVWXYZ234678");
}

/// Whoever asks for a code that was registered gets the whole text that was registered under it.
pub proof fn law_session_comes_back<T>(
    before: SignalingView<T>,
    state: &AppState<T>,
    code: &str,
    text: Seq<char>,
    tx: T,
    r: SessionDescription,
)
    requires
        state@ == before.registered(code@, text, tx),
        call_ensures(AppState::<T>::get_session, (state, code), r),
    ensures
        r.session_description@ == text,
{
}

/// An answer goes, whole, to the peer that registered under the code, and to no other.
pub proof fn law_answer_goes_to_peer<T>(
    before: SignalingView<T>,
    state: &AppState<T>,
    code: &str,
    text: Seq<char>,
    tx: T,
    payload: SessionDescription,
    r: Option<(&T, String)>,
)
    requires
        state@ == before.registered(code@, text, tx),
        call_ensures(AppState::<T>::send_session, (state, code, payload), r),
    ensures
        r matches Some((way, answer)) && *way == tx && answer@ == payload.session_description@,
{
}

/// A code under which nothing is registered any more gives the empty text, and an answer to it goes
/// nowhere.
pub proof fn law_removed_session<T>(
    before: SignalingView<T>,
    state: &AppState<T>,
    code: &str,
    payload: SessionDescription,
    session: SessionDescription,
    sent: Option<(&T, String)>,
)
    requires
        state@ == before.removed(code@),
        call_ensures(AppState::<T>::get_session, (state, code), session),
        call_ensures(AppState::<T>::send_session, (state, code, payload), sent),
    ensures
        session.session_description@.len() == 0,
        sent is None,
{
}

/// However far the answer to a registration gets: the code is sent first, then it is waited, then
/// the answer of the peer is sent whole, and then the session under that same code is to be removed
/// after a second. Where no answer comes, the stream ends and nothing is removed.
pub proof fn law_stream_flow(
    states: Seq<RegisterStream>,
    inputs: Seq<StreamInput>,
    actions: Seq<StreamAction>,
)
    requires
        states.len() == inputs.len() + 1,
        actions.len() == inputs.len(),
        states[0].phase() == StreamPhase::Start,
        forall|i: int|
            0 <= i < inputs.len() ==> streamed(
                states[i],
                #[trigger] inputs[i],
                states[i + 1],
                actions[i],
            ),
    ensures
        inputs.len() > 0 ==> (actions[0] matches StreamAction::Emit { event, data } && event@
            == "connection_code"@ && data@ == states[0].code()),
        inputs.len() > 1 ==> actions[1] is Await,
        inputs.len() > 2 ==> match inputs[2] {
            StreamInput::Message(Some(message)) => actions[2] matches StreamAction::Emit {
                event,
                data,
            } && event@ == "peer_description"@ && data@ == message@,
            StreamInput::Message(None) => actions[2] is End,
            StreamInput::Resume => false,
        },
        inputs.len() > 3 ==> match inputs[2] {
            StreamInput::Message(Some(_)) => actions[3] matches StreamAction::ScheduleRemoval {
                connection_code,
                delay_secs,
            } && connection_code@ == states[0].code() && delay_secs == 1,
            _ => actions[3] is End,
        },
        forall|i: int| 4 <= i < inputs.len() ==> #[trigger] actions[i] is End,
{
    if inputs.len() > 0 {
        assert(streamed(states[0], inputs[0], states[1], actions[0]));
    }
    if inputs.len() > 1 {
        assert(streamed(states[1], inputs[1], states[2], actions[1]));
    }
    if inputs.len() > 2 {
        assert(streamed(states[2], inputs[2], states[3], actions[2]));
    }
    if inputs.len() > 3 {
        assert(streamed(states[3], inputs[3], states[4], actions[3]));
        assert forall|i: int| 4 <= i < inputs.len() implies #[trigger] actions[i] is End by {
            lemma_stream_stays_finished(states, inputs, actions, i);
        }
    }
}

/// A stream that came to its end stays there.
proof fn lemma_stream_stays_finished(
    states: Seq<RegisterStream>,
    inputs: Seq<StreamInput>,
    actions: Seq<StreamAction>,
    i: int,
)
    requires
        states.len() == inputs.len() + 1,
        actions.len() == inputs.len(),
        4 <= i < inputs.len(),
        states[4].phase() == StreamPhase::Finished,
        forall|i: int|
            0 <= i < inputs.len() ==> streamed(
                states[i],
                #[trigger] inputs[i],
                states[i + 1],
                actions[i],
            ),
    ensures
        states[i].phase() == StreamPhase::Finished,
        actions[i] is End,
    decreases i,
{
    if i > 4 {
        lemma_stream_stays_finished(states, inputs, actions, i - 1);
        assert(streamed(states[i - 1], inputs[i - 1], states[i], actions[i - 1]));
    }
    assert(streamed(states[i], inputs[i], states[i + 1], actions[i]));
}

} // verus!
