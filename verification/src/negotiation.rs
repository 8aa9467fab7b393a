//! How a peer comes to the text of its own description: as the one that offers, or as the one
//! that answers an offer.

use crate::codec::base64_bytes;
use crate::description::{
    decode_description, decompresses, law_written_is_read_back, read, unpacked, Description,
    DescriptionView, ReadError, SdpKind,
};
use crate::p2p::{is_answer_text, is_offer_text, P2PError, P2P};
use crate::text::{joined, lines};
use vstd::prelude::*;

verus! {

/// What a peer makes: an offer, or the answer to one.
#[derive(Clone, Copy, Debug, PartialEq, Eq, Structural)]
pub enum Side {
    Offering,
    Answering,
}

/// What a peer is about to do.
#[derive(Clone, Copy, Debug, PartialEq, Eq, Structural)]
pub enum NegotiationStep {
    OpenChannel,
    AcceptChannels,
    SetRemote,
    Describe,
    SetLocal,
    WatchGathering,
    AwaitGathered,
    ReadLocal,
    Finished,
}

/// What comes after `step`. The candidates for the connection are gathered once the local
/// description is set, and the text is made of the local description that holds them.
pub open spec fn step_after(side: Side, step: NegotiationStep) -> NegotiationStep {
    match (side, step) {
        (_, NegotiationStep::OpenChannel) => NegotiationStep::Describe,
        (_, NegotiationStep::AcceptChannels) => NegotiationStep::SetRemote,
        (_, NegotiationStep::SetRemote) => NegotiationStep::Describe,
        (Side::Offering, NegotiationStep::Describe) => NegotiationStep::SetLocal,
        (Side::Offering, NegotiationStep::SetLocal) => NegotiationStep::WatchGathering,
        (Side::Offering, NegotiationStep::WatchGathering) => NegotiationStep::AwaitGathered,
        (Side::Answering, NegotiationStep::Describe) => NegotiationStep::WatchGathering,
        (Side::Answering, NegotiationStep::WatchGathering) => NegotiationStep::SetLocal,
        (Side::Answering, NegotiationStep::SetLocal) => NegotiationStep::AwaitGathered,
        (_, NegotiationStep::AwaitGathered) => NegotiationStep::ReadLocal,
        (_, NegotiationStep::ReadLocal) => NegotiationStep::Finished,
        (_, NegotiationStep::Finished) => NegotiationStep::Finished,
    }
}

/// What moves a negotiation on.
#[derive(Debug)]
pub enum NegotiationEvent {
    /// The last action was carried out.
    Done,
    /// The connection made this offer or answer.
    Made(Description),
    /// The local description of the connection, where it has one.
    Local(Option<Description>),
}

/// What a peer does next.
#[derive(Debug)]
pub enum NegotiationAction {
    /// Open a data channel under a name, and react to its events.
    OpenChannel { label: String },
    /// React to the events of every data channel that the other peer opens.
    AcceptChannels,
    /// Set the offer of the other peer as the remote description.
    SetRemote(Description),
    /// Have the connection make an offer.
    CreateOffer,
    /// Have the connection make an answer.
    CreateAnswer,
    /// Set what was made as the local description.
    SetLocal(Description),
    /// Ask to be told when all candidates are gathered.
    WatchGathering,
    /// Wait until all candidates are gathered.
    AwaitGathered,
    /// Read the local description.
    ReadLocal,
    /// Stop, with the text of the local description or without.
    Finish(Result<String, P2PError>),
}

/// Whether `event` can happen at `step`.
pub open spec fn negotiation_expects(step: NegotiationStep, event: NegotiationEvent) -> bool {
    match step {
        NegotiationStep::Describe => event is Made,
        NegotiationStep::ReadLocal => event is Local,
        NegotiationStep::Finished => false,
        _ => event is Done,
    }
}

/// The description that a peer has at hand after `event` where it held `held` before: the one that
/// was just made, or else the one that it held.
pub open spec fn at_hand(held: Option<Description>, event: NegotiationEvent) -> Option<
    Description,
> {
    match event {
        NegotiationEvent::Made(made) => Some(made),
        _ => held,
    }
}

/// Whether the peer sets a description at `step`.
pub open spec fn sets(step: NegotiationStep) -> bool {
    step == NegotiationStep::SetRemote || step == NegotiationStep::SetLocal
}

/// The description that is set at `step`: the one at hand.
pub open spec fn set_at(step: NegotiationStep, description: Option<Description>) -> Option<
    Description,
> {
    if sets(step) {
        description
    } else {
        None
    }
}

/// The description that a peer holds on to at `step`: the one at hand, unless it is set there.
pub open spec fn held_at(step: NegotiationStep, description: Option<Description>) -> Option<
    Description,
> {
    if sets(step) {
        None
    } else {
        description
    }
}

/// Whether `action` is what a peer with the description `description` at hand does at `step`.
pub open spec fn asks_for(
    side: Side,
    step: NegotiationStep,
    description: Option<Description>,
    action: NegotiationAction,
) -> bool {
    match step {
        NegotiationStep::OpenChannel =>
            action matches NegotiationAction::OpenChannel { label } && label@ == "data"@,
        NegotiationStep::AcceptChannels => action is AcceptChannels,
        NegotiationStep::SetRemote => action matches NegotiationAction::SetRemote(set)
            && description == Some(set),
        NegotiationStep::Describe => match side {
            Side::Offering => action is CreateOffer,
            Side::Answering => action is CreateAnswer,
        },
        NegotiationStep::SetLocal => action matches NegotiationAction::SetLocal(set) && description
            == Some(set),
        NegotiationStep::WatchGathering => action is WatchGathering,
        NegotiationStep::AwaitGathered => action is AwaitGathered,
        NegotiationStep::ReadLocal => action is ReadLocal,
        NegotiationStep::Finished => action is Finish,
    }
}

/// Whether `r` is the text that a peer has to send where its local description is `local`.
pub open spec fn is_text(
    side: Side,
    r: Result<String, P2PError>,
    local: Option<Description>,
    compress: bool,
) -> bool {
    match side {
        Side::Offering => is_offer_text(r, local, compress),
        Side::Answering => is_answer_text(r, local, compress),
    }
}

/// A peer on the way to the text of its description.
#[derive(Debug)]
pub struct Negotiation {
    side: Side,
    compress: bool,
    step: NegotiationStep,
    held: Option<Description>,
}

impl Negotiation {
    /// The one that offers neither accepts channels nor sets an offer, and holds on to nothing. The
    /// one that answers opens no channel; it holds on to the offer until it sets it, and to its
    /// answer while it asks to be told of the candidates.
    #[verifier::type_invariant]
    spec fn well_formed(self) -> bool {
        match self.side {
            Side::Offering => self.held is None && self.step != NegotiationStep::AcceptChannels
                && self.step != NegotiationStep::SetRemote,
            Side::Answering => self.step != NegotiationStep::OpenChannel && (self.held is Some) == (
            self.step == NegotiationStep::AcceptChannels || self.step
                == NegotiationStep::WatchGathering),
        }
    }

    /// What the peer makes.
    pub closed spec fn side(self) -> Side {
        self.side
    }

    /// Whether the text is compressed.
    pub closed spec fn compress(self) -> bool {
        self.compress
    }

    /// What the peer is about to do.
    pub closed spec fn step(self) -> NegotiationStep {
        self.step
    }

    /// The description that the peer holds on to.
    pub closed spec fn held(self) -> Option<Description> {
        self.held
    }

    /// Whether `event` can happen now.
    pub fn expects(&self, event: &NegotiationEvent) -> (r: bool)
        ensures
            r == negotiation_expects(self.step(), *event),
            r <==> match self.step() {
                NegotiationStep::Describe => event is Made,
                NegotiationStep::ReadLocal => event is Local,
                NegotiationStep::Finished => false,
                _ => event is Done,
            },
    {
        match (self.step, event) {
            (NegotiationStep::Finished, _) => false,
            (NegotiationStep::Describe, NegotiationEvent::Made(_)) => true,
            (NegotiationStep::Describe, _) => false,
            (NegotiationStep::ReadLocal, NegotiationEvent::Local(_)) => true,
            (NegotiationStep::ReadLocal, _) => false,
            (_, NegotiationEvent::Done) => true,
            (_, _) => false,
        }
    }

    /// The step after the one that was carried out.
    fn following(&self) -> (r: NegotiationStep)
        ensures
            r == step_after(self.side, self.step),
    {
        match (self.side, self.step) {
            (_, NegotiationStep::OpenChannel) => NegotiationStep::Describe,
            (_, NegotiationStep::AcceptChannels) => NegotiationStep::SetRemote,
            (_, NegotiationStep::SetRemote) => NegotiationStep::Describe,
            (Side::Offering, NegotiationStep::Describe) => NegotiationStep::SetLocal,
            (Side::Offering, NegotiationStep::SetLocal) => NegotiationStep::WatchGathering,
            (Side::Offering, NegotiationStep::WatchGathering) => NegotiationStep::AwaitGathered,
            (Side::Answering, NegotiationStep::Describe) => NegotiationStep::WatchGathering,
            (Side::Answering, NegotiationStep::WatchGathering) => NegotiationStep::SetLocal,
            (Side::Answering, NegotiationStep::SetLocal) => NegotiationStep::AwaitGathered,
            (_, NegotiationStep::AwaitGathered) => NegotiationStep::ReadLocal,
            (_, NegotiationStep::ReadLocal) => NegotiationStep::Finished,
            (_, NegotiationStep::Finished) => NegotiationStep::Finished,
        }
    }

    /// Moves the negotiation on, and says what the peer does next.
    pub fn advance(&mut self, event: NegotiationEvent) -> (r: NegotiationAction)
        requires
            negotiation_expects(old(self).step(), event),
        ensures
            final(self).side() == old(self).side(),
            final(self).compress() == old(self).compress(),
            final(self).step() == step_after(old(self).side(), old(self).step()),
            final(self).held() == held_at(final(self).step(), at_hand(old(self).held(), event)),
            asks_for(
                final(self).side(),
                final(self).step(),
                at_hand(old(self).held(), event),
                r,
            ),
            event matches NegotiationEvent::Local(local) ==> (r matches NegotiationAction::Finish(
                text,
            ) && is_text(old(self).side(), text, local, old(self).compress())),
            advanced(*old(self), event, *final(self), r),
            event matches NegotiationEvent::Made(made) ==> match old(self).side() {
                Side::Offering => r == NegotiationAction::SetLocal(made),
                Side::Answering => r is WatchGathering && final(self).held() == Some(made),
            },
            old(self).step() == NegotiationStep::AcceptChannels ==> (old(self).held() matches Some(
                offer,
            ) && r == NegotiationAction::SetRemote(offer)),
            old(self).side() == Side::Answering && old(self).step()
                == NegotiationStep::WatchGathering ==> (old(self).held() matches Some(made) && r
                == NegotiationAction::SetLocal(made)),
            event matches NegotiationEvent::Local(local) ==> (r matches NegotiationAction::Finish(
                text,
            ) && match old(self).side() {
                Side::Offering => call_ensures(
                    P2P::offer_text,
                    (local, old(self).compress()),
                    text,
                ),
                Side::Answering => call_ensures(
                    P2P::answer_text,
                    (local, old(self).compress()),
                    text,
                ),
            }),
    {
        proof {
            use_type_invariant(&*self);
        }
        let step = self.following();
        let side = self.side;
        let compress = self.compress;
        let mut before = Negotiation {
            side,
            compress,
            step: NegotiationStep::Finished,
            held: None,
        };
        std::mem::swap(&mut before, self);
        match (event, before.held) {
            (NegotiationEvent::Local(local), _) => {
                *self = Negotiation { side, compress, step, held: None };
                NegotiationAction::Finish(
                    match side {
                        Side::Offering => P2P::offer_text(local, compress),
                        Side::Answering => P2P::answer_text(local, compress),
                    },
                )
            },
            (NegotiationEvent::Made(made), _) => match side {
                Side::Offering => {
                    *self = Negotiation { side, compress, step, held: None };
                    NegotiationAction::SetLocal(made)
                },
                Side::Answering => {
                    *self = Negotiation { side, compress, step, held: Some(made) };
                    NegotiationAction::WatchGathering
                },
            },
            (NegotiationEvent::Done, Some(held)) => {
                *self = Negotiation { side, compress, step, held: None };
                match step {
                    NegotiationStep::SetRemote => NegotiationAction::SetRemote(held),
                    _ => NegotiationAction::SetLocal(held),
                }
            },
            (NegotiationEvent::Done, None) => {
                *self = Negotiation { side, compress, step, held: None };
                match step {
                    NegotiationStep::Describe => match side {
                        Side::Offering => NegotiationAction::CreateOffer,
                        Side::Answering => NegotiationAction::CreateAnswer,
                    },
                    NegotiationStep::WatchGathering => NegotiationAction::WatchGathering,
                    NegotiationStep::AwaitGathered => NegotiationAction::AwaitGathered,
                    _ => NegotiationAction::ReadLocal,
                }
            },
        }
    }
}

/// Whether `event` moves a negotiation on from `before` to `after` and makes the peer do `action`.
pub open spec fn advanced(
    before: Negotiation,
    event: NegotiationEvent,
    after: Negotiation,
    action: NegotiationAction,
) -> bool {
    &&& negotiation_expects(before.step(), event)
    &&& after.side() == before.side()
    &&& after.compress() == before.compress()
    &&& after.step() == step_after(before.side(), before.step())
    &&& after.held() == held_at(after.step(), at_hand(before.held(), event))
    &&& asks_for(after.side(), after.step(), at_hand(before.held(), event), action)
    &&& event matches NegotiationEvent::Local(local) ==> (action matches NegotiationAction::Finish(
        text,
    ) && match before.side() {
        Side::Offering => call_ensures(P2P::offer_text, (local, before.compress()), text),
        Side::Answering => call_ensures(P2P::answer_text, (local, before.compress()), text),
    })
}

impl P2P {
    /// Starts to make an offer.
    pub fn create_offer(compress: bool) -> (r: (Negotiation, NegotiationAction))
        ensures
            r.0.side() == Side::Offering,
            r.0.compress() == compress,
            r.0.step() == NegotiationStep::OpenChannel,
            r.0.held() is None,
            asks_for(r.0.side(), r.0.step(), None, r.1),
            r.1 matches NegotiationAction::OpenChannel { label } && label@ == "data"@,
    {
        (
            Negotiation {
                side: Side::Offering,
                compress,
                step: NegotiationStep::OpenChannel,
                held: None,
            },
            NegotiationAction::OpenChannel { label: "data".to_owned() },
        )
    }

    /// Starts to answer the offer `offer`: reads it, and holds on to it as the description to set
    /// as the remote one.
    pub fn set_offer(offer: &str, compress: bool) -> (r: Result<
        (Negotiation, NegotiationAction),
        P2PError,
    >)
        ensures
            match r {
                Ok((negotiation, action)) => {
                    &&& negotiation.held() matches Some(description)
                    &&& read(Ok(description), offer@, compress)
                    &&& negotiation.side() == Side::Answering
                    &&& negotiation.compress() == compress
                    &&& negotiation.step() == NegotiationStep::AcceptChannels
                    &&& asks_for(negotiation.side(), negotiation.step(), None, action)
                    &&& action is AcceptChannels
                },
                Err(P2PError::Read(e)) => read(Err(e), offer@, compress),
                Err(_) => false,
            },
    {
        match decode_description(offer, compress) {
            Ok(description) => Ok(
                (
                    Negotiation {
                        side: Side::Answering,
                        compress,
                        step: NegotiationStep::AcceptChannels,
                        held: Some(description),
                    },
                    NegotiationAction::AcceptChannels,
                ),
            ),
            Err(e) => Err(P2PError::Read(e)),
        }
    }
}

/// The steps from `step` on, `count` of them.
pub open spec fn steps(side: Side, step: NegotiationStep, count: nat) -> Seq<NegotiationStep>
    decreases count,
{
    if count == 0 {
        seq![]
    } else {
        seq![step] + steps(side, step_after(side, step), (count - 1) as nat)
    }
}

/// The one that offers opens a channel before it makes its offer; the one that answers sets the
/// offer before it makes its answer. Both read the local description only when it was set and all
/// candidates were gathered, and stop then.
pub proof fn law_negotiation_order()
    ensures
        steps(Side::Offering, NegotiationStep::OpenChannel, 7) == seq![
            NegotiationStep::OpenChannel,
            NegotiationStep::Describe,
            NegotiationStep::SetLocal,
            NegotiationStep::WatchGathering,
            NegotiationStep::AwaitGathered,
            NegotiationStep::ReadLocal,
            NegotiationStep::Finished,
        ],
        steps(Side::Answering, NegotiationStep::AcceptChannels, 8) == seq![
            NegotiationStep::AcceptChannels,
            NegotiationStep::SetRemote,
            NegotiationStep::Describe,
            NegotiationStep::WatchGathering,
            NegotiationStep::SetLocal,
            NegotiationStep::AwaitGathered,
            NegotiationStep::ReadLocal,
            NegotiationStep::Finished,
        ],
        forall|side: Side, step: NegotiationStep|
            #[trigger] step_after(side, step) == NegotiationStep::ReadLocal ==> step
                == NegotiationStep::AwaitGathered,
{
    reveal_with_fuel(steps, 9);
}

/// Whether `events` can happen one after the other from `step` on.
pub open spec fn is_negotiation(
    side: Side,
    step: NegotiationStep,
    events: Seq<NegotiationEvent>,
) -> bool
    decreases events.len(),
{
    events.len() > 0 ==> negotiation_expects(step, events[0]) && is_negotiation(
        side,
        step_after(side, step),
        events.skip(1),
    )
}

/// The steps to which `events` lead a peer that is at `step` and holds `held`, each with the
/// description that is set there.
pub open spec fn descriptions_set(
    side: Side,
    step: NegotiationStep,
    held: Option<Description>,
    events: Seq<NegotiationEvent>,
) -> Seq<(NegotiationStep, Option<Description>)>
    decreases events.len(),
{
    if events.len() == 0 {
        seq![]
    } else {
        let next = step_after(side, step);
        let description = at_hand(held, events[0]);
        seq![(next, set_at(next, description))] + descriptions_set(
            side,
            next,
            held_at(next, description),
            events.skip(1),
        )
    }
}

/// However far the making of an offer gets, the only description that is set is the offer that was
/// made, and it is set as the local one as soon as it was made.
pub proof fn law_made_offer_is_set(events: Seq<NegotiationEvent>)
    requires
        is_negotiation(Side::Offering, NegotiationStep::OpenChannel, events),
    ensures
        events.len() <= 6,
        events.len() > 1 ==> events[1] is Made,
        descriptions_set(Side::Offering, NegotiationStep::OpenChannel, None, events) == seq![
            (NegotiationStep::Describe, None),
            (NegotiationStep::SetLocal, Some(events[1]->Made_0)),
            (NegotiationStep::WatchGathering, None),
            (NegotiationStep::AwaitGathered, None),
            (NegotiationStep::ReadLocal, None),
            (NegotiationStep::Finished, None),
        ].take(events.len() as int),
{
    reveal_with_fuel(is_negotiation, 8);
    reveal_with_fuel(descriptions_set, 8);
}

/// However far the answering of an offer gets, the offer is set as the remote description, the
/// answer that was made as the local one, and no other description is set.
pub proof fn law_offer_and_answer_are_set(offer: Description, events: Seq<NegotiationEvent>)
    requires
        is_negotiation(Side::Answering, NegotiationStep::AcceptChannels, events),
    ensures
        events.len() <= 7,
        events.len() > 2 ==> events[2] is Made,
        descriptions_set(Side::Answering, NegotiationStep::AcceptChannels, Some(offer), events)
            == seq![
            (NegotiationStep::SetRemote, Some(offer)),
            (NegotiationStep::Describe, None),
            (NegotiationStep::WatchGathering, None),
            (NegotiationStep::SetLocal, Some(events[2]->Made_0)),
            (NegotiationStep::AwaitGathered, None),
            (NegotiationStep::ReadLocal, None),
            (NegotiationStep::Finished, None),
        ].take(events.len() as int),
{
    reveal_with_fuel(is_negotiation, 9);
    reveal_with_fuel(descriptions_set, 9);
}

/// What a peer does at a step that sets a description is to set the very description that it has at
/// hand, kind and text; without one at hand, there is nothing that it could do there.
pub proof fn law_description_at_hand_is_set(
    side: Side,
    description: Option<Description>,
    action: NegotiationAction,
)
    ensures
        asks_for(side, NegotiationStep::SetLocal, description, action) <==> (
        description matches Some(d) && action == NegotiationAction::SetLocal(d)),
        asks_for(side, NegotiationStep::SetRemote, description, action) <==> (
        description matches Some(d) && action == NegotiationAction::SetRemote(d)),
{
}

/// However far the making of an offer gets: the channel is opened, the offer is made, and that very
/// offer is set as the local description, at once; then it is waited for the candidates, and the
/// text is that of an offer for the local description that was read at the end.
pub proof fn law_offer_run(
    states: Seq<Negotiation>,
    events: Seq<NegotiationEvent>,
    actions: Seq<NegotiationAction>,
    start: (Negotiation, NegotiationAction),
    compress: bool,
)
    requires
        call_ensures(P2P::create_offer, (compress,), start),
        states.len() == events.len() + 1,
        actions.len() == events.len(),
        states[0] == start.0,
        forall|i: int|
            0 <= i < events.len() ==> advanced(
                states[i],
                #[trigger] events[i],
                states[i + 1],
                actions[i],
            ),
    ensures
        start.1 matches NegotiationAction::OpenChannel { label } && label@ == "data"@,
        events.len() <= 6,
        events.len() > 0 ==> events[0] is Done && actions[0] is CreateOffer,
        events.len() > 1 ==> (events[1] matches NegotiationEvent::Made(made) && actions[1]
            == NegotiationAction::SetLocal(made)),
        events.len() > 2 ==> events[2] is Done && actions[2] is WatchGathering,
        events.len() > 3 ==> events[3] is Done && actions[3] is AwaitGathered,
        events.len() > 4 ==> events[4] is Done && actions[4] is ReadLocal,
        events.len() > 5 ==> (events[5] matches NegotiationEvent::Local(local)
            && actions[5] matches NegotiationAction::Finish(text) && call_ensures(
            P2P::offer_text,
            (local, compress),
            text,
        )),
{
    lemma_run(states, events, actions);
}

/// However far the answering of an offer gets: the offer that was read is set as the remote
/// description, the answer is made, and that very answer is set as the local description, kind and
/// text; then it is waited for the candidates, and the text is that of an answer for the local
/// description that was read at the end.
pub proof fn law_answer_run(
    states: Seq<Negotiation>,
    events: Seq<NegotiationEvent>,
    actions: Seq<NegotiationAction>,
    text: &str,
    compress: bool,
    start: (Negotiation, NegotiationAction),
)
    requires
        call_ensures(P2P::set_offer, (text, compress), Ok(start)),
        states.len() == events.len() + 1,
        actions.len() == events.len(),
        states[0] == start.0,
        forall|i: int|
            0 <= i < events.len() ==> advanced(
                states[i],
                #[trigger] events[i],
                states[i + 1],
                actions[i],
            ),
    ensures
        start.1 is AcceptChannels,
        events.len() <= 7,
        events.len() > 0 ==> events[0] is Done && (actions[0] matches NegotiationAction::SetRemote(
            offer,
        ) && read(Ok(offer), text@, compress)),
        events.len() > 1 ==> events[1] is Done && actions[1] is CreateAnswer,
        events.len() > 2 ==> events[2] is Made && actions[2] is WatchGathering,
        events.len() > 3 ==> events[3] is Done && actions[3] == NegotiationAction::SetLocal(
            events[2]->Made_0,
        ),
        events.len() > 4 ==> events[4] is Done && actions[4] is AwaitGathered,
        events.len() > 5 ==> events[5] is Done && actions[5] is ReadLocal,
        events.len() > 6 ==> (events[6] matches NegotiationEvent::Local(local)
            && actions[6] matches NegotiationAction::Finish(answer) && call_ensures(
            P2P::answer_text,
            (local, compress),
            answer,
        )),
{
    lemma_run(states, events, actions);
}

/// The first steps of a run, one by one.
proof fn lemma_run(
    states: Seq<Negotiation>,
    events: Seq<NegotiationEvent>,
    actions: Seq<NegotiationAction>,
)
    requires
        states.len() == events.len() + 1,
        actions.len() == events.len(),
        forall|i: int|
            0 <= i < events.len() ==> advanced(
                states[i],
                #[trigger] events[i],
                states[i + 1],
                actions[i],
            ),
    ensures
        events.len() > 0 ==> advanced(states[0], events[0], states[1], actions[0]),
        events.len() > 1 ==> advanced(states[1], events[1], states[2], actions[1]),
        events.len() > 2 ==> advanced(states[2], events[2], states[3], actions[2]),
        events.len() > 3 ==> advanced(states[3], events[3], states[4], actions[3]),
        events.len() > 4 ==> advanced(states[4], events[4], states[5], actions[4]),
        events.len() > 5 ==> advanced(states[5], events[5], states[6], actions[5]),
        events.len() > 6 ==> advanced(states[6], events[6], states[7], actions[6]),
        events.len() > 7 ==> advanced(states[7], events[7], states[8], actions[7]),
{
}

/// The one that answers sets the very offer that the other one sent: an offer, with the lines of
/// its local description that do not start with `a=candidate:udp`. With compression, it can fail
/// to, where the decompressor fails on the very bytes that were written.
pub proof fn law_offer_reaches_peer(
    local: Description,
    compress: bool,
    written: String,
    text: &str,
    r: Result<(Negotiation, NegotiationAction), P2PError>,
)
    requires
        call_ensures(P2P::offer_text, (Some(local), compress), Ok(written)),
        text@ == written@,
        call_ensures(P2P::set_offer, (text, compress), r),
    ensures
        match r {
            Ok((negotiation, _)) => negotiation.held() matches Some(offer) && offer.kind
                == SdpKind::Offer && offer.sdp@ == joined(
                lines(local.sdp@).filter(
                    |line: Seq<char>| !"a=candidate:udp"@.is_prefix_of(line),
                ),
            ),
            Err(P2PError::Read(ReadError::Compression(cause))) => compress && (base64_bytes(
                text@,
            ) matches Some(payload) && decompresses(payload, Err(cause))),
            Err(_) => false,
        },
{
    let reading = match r {
        Ok((negotiation, _)) => Ok(negotiation.held()->Some_0),
        Err(e) => Err(e->Read_0),
    };
    let kept = lines(local.sdp@).filter(
        |line: Seq<char>| !"a=candidate:udp"@.is_prefix_of(line),
    );
    let offer = DescriptionView { kind: SdpKind::Offer, sdp: joined(kept) };
    law_written_is_read_back(Ok(written), offer, compress, reading);
    if compress {
        let payload = base64_bytes(text@)->Some_0;
        let data = choose|data: Result<Vec<u8>, std::io::Error>| #[trigger]
            unpacked(data, reading) && decompresses(payload, data);
        assert(decompresses(payload, data));
    }
}

} // verus!
