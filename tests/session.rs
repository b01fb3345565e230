use anoma_client::session::{step, Action, Event, Phase};

fn drive(events: &[Event]) -> (Phase, Vec<Action>) {
    let mut phase = Phase::Idle;
    let mut actions = Vec::new();
    for e in events {
        let (p, a) = step(phase, *e);
        phase = p;
        actions.push(a);
    }
    (phase, actions)
}

#[test]
fn successful_attempt() {
    let (phase, actions) = drive(&[Event::Begin, Event::Encoded, Event::ConnectOk, Event::Accepted]);
    assert_eq!(phase, Phase::Completed);
    assert_eq!(actions, vec![Action::Encode, Action::Connect, Action::Send, Action::Deliver]);
}

#[test]
fn failed_send_is_never_retried() {
    let (phase, actions) = drive(&[
        Event::Begin,
        Event::Encoded,
        Event::ConnectOk,
        Event::TransportLost,
        Event::ConnectOk,
        Event::Encoded,
        Event::Begin,
    ]);
    assert_eq!(phase, Phase::Failed);
    assert_eq!(actions.iter().filter(|a| **a == Action::Send).count(), 1);
    assert_eq!(actions[3], Action::Report);
    assert!(actions[4..].iter().all(|a| *a == Action::Ignore));
}

#[test]
fn refused_reply_fails() {
    let (phase, actions) = drive(&[Event::Begin, Event::Encoded, Event::ConnectOk, Event::Refused]);
    assert_eq!(phase, Phase::Failed);
    assert_eq!(actions[3], Action::Report);
}

#[test]
fn input_failure_opens_no_connection() {
    let (phase, actions) = drive(&[Event::Begin, Event::InputRejected, Event::Encoded, Event::ConnectOk]);
    assert_eq!(phase, Phase::Failed);
    assert!(!actions.contains(&Action::Connect));
    assert!(!actions.contains(&Action::Send));
}

#[test]
fn connect_failure_fails() {
    let (phase, actions) = drive(&[Event::Begin, Event::Encoded, Event::TransportLost]);
    assert_eq!(phase, Phase::Failed);
    assert_eq!(actions, vec![Action::Encode, Action::Connect, Action::Report]);
}

#[test]
fn unexpected_event_is_ignored() {
    assert_eq!(step(Phase::Idle, Event::Accepted), (Phase::Idle, Action::Ignore));
    assert_eq!(step(Phase::Completed, Event::Begin), (Phase::Completed, Action::Ignore));
}
