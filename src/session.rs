//! The decisions of one dispatch or publish attempt, as a state machine. The
//! caller performs each action and feeds back what happened.
use vstd::prelude::*;

verus! {

/// Where an attempt stands.
#[derive(Debug, Clone, Copy, PartialEq, Eq, Structural)]
pub enum Phase {
    /// Nothing has happened yet.
    Idle,
    /// The message is being built from the inputs.
    Encoding,
    /// The message is built and the connection is being opened.
    Connected,
    /// The message was sent; its single response is awaited.
    AwaitingResponse,
    /// The response arrived and was accepted.
    Completed,
    /// Something along the way failed.
    Failed,
}

/// What happened since the last action.
#[derive(Debug, Clone, Copy, PartialEq, Eq, Structural)]
pub enum Event {
    /// The caller starts the attempt.
    Begin,
    /// The message was built.
    Encoded,
    /// The inputs were invalid (unreadable file, bad hex).
    InputRejected,
    /// The connection is open.
    ConnectOk,
    /// The peer answered and accepted.
    Accepted,
    /// The peer answered and refused.
    Refused,
    /// The peer could not be reached or the connection dropped.
    TransportLost,
}

/// What the caller must do next.
#[derive(Debug, Clone, Copy, PartialEq, Eq, Structural)]
pub enum Action {
    /// Build the message.
    Encode,
    /// Open a fresh connection.
    Connect,
    /// Send the message once and wait for the response.
    Send,
    /// Hand the response to the user.
    Deliver,
    /// Report the failure to the user.
    Report,
    /// Nothing to do.
    Ignore,
}

/// The transition table.
pub open spec fn transition(p: Phase, e: Event) -> (Phase, Action) {
    match (p, e) {
        (Phase::Idle, Event::Begin) => (Phase::Encoding, Action::Encode),
        (Phase::Encoding, Event::Encoded) => (Phase::Connected, Action::Connect),
        (Phase::Encoding, Event::InputRejected) => (Phase::Failed, Action::Report),
        (Phase::Connected, Event::ConnectOk) => (Phase::AwaitingResponse, Action::Send),
        (Phase::Connected, Event::TransportLost) => (Phase::Failed, Action::Report),
        (Phase::AwaitingResponse, Event::Accepted) => (Phase::Completed, Action::Deliver),
        (Phase::AwaitingResponse, Event::Refused) => (Phase::Failed, Action::Report),
        (Phase::AwaitingResponse, Event::TransportLost) => (Phase::Failed, Action::Report),
        _ => (p, Action::Ignore),
    }
}

/// The actions asked for while the events are fed in order from phase `p`.
pub open spec fn run(p: Phase, events: Seq<Event>) -> Seq<Action>
    decreases events.len(),
{
    if events.len() == 0 {
        Seq::empty()
    } else {
        let (q, a) = transition(p, events[0]);
        seq![a] + run(q, events.drop_first())
    }
}

/// How many times `Send` occurs.
pub open spec fn sends(actions: Seq<Action>) -> nat
    decreases actions.len(),
{
    if actions.len() == 0 {
        0
    } else {
        (if actions[0] == Action::Send { 1nat } else { 0nat }) + sends(actions.drop_first())
    }
}

/// The action opens a connection or sends on one.
pub open spec fn is_network(a: Action) -> bool {
    a == Action::Connect || a == Action::Send
}

/// The attempt is over.
pub open spec fn is_terminal(p: Phase) -> bool {
    p == Phase::Completed || p == Phase::Failed
}

/// Decides the next phase and action.
pub fn step(p: Phase, e: Event) -> (r: (Phase, Action))
    ensures
        r == transition(p, e),
{
    match (p, e) {
        (Phase::Idle, Event::Begin) => (Phase::Encoding, Action::Encode),
        (Phase::Encoding, Event::Encoded) => (Phase::Connected, Action::Connect),
        (Phase::Encoding, Event::InputRejected) => (Phase::Failed, Action::Report),
        (Phase::Connected, Event::ConnectOk) => (Phase::AwaitingResponse, Action::Send),
        (Phase::Connected, Event::TransportLost) => (Phase::Failed, Action::Report),
        (Phase::AwaitingResponse, Event::Accepted) => (Phase::Completed, Action::Deliver),
        (Phase::AwaitingResponse, Event::Refused) => (Phase::Failed, Action::Report),
        (Phase::AwaitingResponse, Event::TransportLost) => (Phase::Failed, Action::Report),
        _ => (p, Action::Ignore),
    }
}

proof fn lemma_sends_bound(p: Phase, events: Seq<Event>)
    ensures
        sends(run(p, events)) <= (if p == Phase::Idle || p == Phase::Encoding || p == Phase::Connected {
            1nat
        } else {
            0nat
        }),
    decreases events.len(),
{
    if events.len() > 0 {
        let (q, a) = transition(p, events[0]);
        lemma_sends_bound(q, events.drop_first());
        assert((seq![a] + run(q, events.drop_first())).drop_first() =~= run(q, events.drop_first()));
    }
}

/// An attempt sends its message at most once, whatever happens: a failed
/// send is never followed by a second one.
pub proof fn lemma_single_send(events: Seq<Event>)
    ensures
        sends(run(Phase::Idle, events)) <= 1,
{
    lemma_sends_bound(Phase::Idle, events);
}

/// Once an attempt is over, no event makes it act again.
pub proof fn lemma_terminal_is_final(p: Phase, events: Seq<Event>)
    requires
        is_terminal(p),
    ensures
        forall|i: int| 0 <= i < events.len() ==> #[trigger] run(p, events)[i] == Action::Ignore,
        run(p, events).len() == events.len(),
    decreases events.len(),
{
    if events.len() > 0 {
        lemma_terminal_is_final(p, events.drop_first());
        let tail = run(p, events.drop_first());
        assert(run(p, events) =~= seq![Action::Ignore] + tail);
        assert forall|i: int| 0 <= i < events.len() implies #[trigger] run(p, events)[i] == Action::Ignore by {
            if i > 0 {
                assert(run(p, events)[i] == tail[i - 1]);
            }
        }
    }
}

/// Invalid inputs end the attempt before any connection is opened or any
/// message sent, whatever follows.
pub proof fn lemma_input_failure_offline(events: Seq<Event>)
    requires
        events.len() >= 2,
        events[0] == Event::Begin,
        events[1] == Event::InputRejected,
    ensures
        forall|i: int|
            0 <= i < run(Phase::Idle, events).len() ==> !is_network(#[trigger] run(Phase::Idle, events)[i]),
{
    let evs1 = events.drop_first();
    let rest = evs1.drop_first();
    lemma_terminal_is_final(Phase::Failed, rest);
    let tail = run(Phase::Failed, rest);
    assert(run(Phase::Encoding, evs1) == seq![Action::Report] + tail);
    assert(run(Phase::Idle, events) == seq![Action::Encode] + (seq![Action::Report] + tail));
    assert forall|i: int| 0 <= i < run(Phase::Idle, events).len() implies !is_network(
        #[trigger] run(Phase::Idle, events)[i],
    ) by {
        if i >= 2 {
            assert(run(Phase::Idle, events)[i] == tail[i - 2]);
        }
    }
}

} // verus!
