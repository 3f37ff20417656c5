use slagw::irc::{FailureKind, IrcFailure};
use slagw::lifecycle::{
    conclude_attempt, next_outgoing, ConnResult, ErrResolution, ErrState, NextStep, Outgoing,
    SenderEnd,
};
use slagw::message::{PrivMsg, SlackMsg};
use slagw::names::NameMap;
use slagw::queue::OutboundQueue;

fn delay(r: ErrResolution) -> u64 {
    match r {
        ErrResolution::Backoff(d) => d,
        ErrResolution::Die(e) => panic!("unexpected fatal {:?}", e),
    }
}

#[test]
fn backoff_doubles_while_kind_repeats() {
    let mut st = ErrState::new();
    assert_eq!(delay(st.handle_error(IrcFailure::Disconnect)), 0);
    assert_eq!(st.occurrence(), 0);
    assert_eq!(delay(st.handle_error(IrcFailure::Disconnect)), 1);
    assert_eq!(st.occurrence(), 1);
    assert_eq!(delay(st.handle_error(IrcFailure::Disconnect)), 2);
    assert_eq!(delay(st.handle_error(IrcFailure::Disconnect)), 4);
    assert_eq!(delay(st.handle_error(IrcFailure::Disconnect)), 8);
    assert_eq!(st.occurrence(), 4);
    assert_eq!(st.last_kind(), Some(FailureKind::Disconnect));
}

#[test]
fn backoff_resets_when_kind_changes() {
    let mut st = ErrState::new();
    delay(st.handle_error(IrcFailure::Disconnect));
    delay(st.handle_error(IrcFailure::Disconnect));
    assert_eq!(st.occurrence(), 1);
    assert_eq!(delay(st.handle_error(IrcFailure::Connection("dns".to_string()))), 0);
    assert_eq!(st.occurrence(), 0);
    assert_eq!(st.last_kind(), Some(FailureKind::Connection));
    assert_eq!(delay(st.handle_error(IrcFailure::Connection("tcp".to_string()))), 1);
    assert_eq!(delay(st.handle_error(IrcFailure::Disconnect)), 0);
}

#[test]
fn backoff_reset_after_connecting() {
    let mut st = ErrState::new();
    delay(st.handle_error(IrcFailure::Disconnect));
    delay(st.handle_error(IrcFailure::Disconnect));
    st.reset();
    assert_eq!(st.occurrence(), 0);
    assert_eq!(st.last_kind(), None);
    assert_eq!(delay(st.handle_error(IrcFailure::Disconnect)), 0);
}

#[test]
fn backoff_saturates() {
    let mut st = ErrState::new();
    let mut last = 0;
    for _ in 0..64 {
        last = delay(st.handle_error(IrcFailure::Disconnect));
    }
    assert_eq!(st.occurrence(), 63);
    assert_eq!(last, 1u64 << 62);
    assert_eq!(delay(st.handle_error(IrcFailure::Disconnect)), 1u64 << 63);
    assert_eq!(delay(st.handle_error(IrcFailure::Disconnect)), u64::MAX);
    assert_eq!(st.occurrence(), 65);
}

#[test]
fn fatal_failures_leave_state_alone() {
    let mut st = ErrState::new();
    delay(st.handle_error(IrcFailure::Disconnect));
    delay(st.handle_error(IrcFailure::Disconnect));
    for f in vec![
        IrcFailure::Error("frame".to_string()),
        IrcFailure::BadConf("conf".to_string()),
        IrcFailure::CantIdentify("nick".to_string()),
        IrcFailure::Shutdown,
    ] {
        match st.handle_error(f) {
            ErrResolution::Die(_) => {}
            ErrResolution::Backoff(d) => panic!("unexpected backoff {}", d),
        }
        assert_eq!(st.occurrence(), 1);
        assert_eq!(st.last_kind(), Some(FailureKind::Disconnect));
    }
}

#[test]
fn next_step_outcomes() {
    let mut st = ErrState::new();
    match st.next_step(ConnResult::Recoverable(7u8, IrcFailure::CantIdentify("no".to_string()))) {
        NextStep::Abort(IrcFailure::CantIdentify(e)) => assert_eq!(e, "no"),
        other => panic!("unexpected {:?}", other),
    }
    assert!(matches!(st.next_step(ConnResult::<u8>::Shutdown), NextStep::Finish));
    assert!(matches!(
        st.next_step(ConnResult::Recoverable(7u8, IrcFailure::Shutdown)),
        NextStep::Finish
    ));
    match st.next_step(ConnResult::Recoverable(7u8, IrcFailure::Error("x".to_string()))) {
        NextStep::Abort(IrcFailure::Error(e)) => assert_eq!(e, "x"),
        other => panic!("unexpected {:?}", other),
    }
}

#[test]
fn attempt_ends_combine() {
    match conclude_attempt(Ok(()), SenderEnd::Stopped(3u8)) {
        ConnResult::Recoverable(3, IrcFailure::Disconnect) => {}
        other => panic!("unexpected {:?}", other),
    }
    match conclude_attempt(Err(IrcFailure::Error("e".to_string())), SenderEnd::Stopped(3u8)) {
        ConnResult::Recoverable(3, IrcFailure::Error(e)) => assert_eq!(e, "e"),
        other => panic!("unexpected {:?}", other),
    }
    assert!(matches!(
        conclude_attempt::<u8>(Err(IrcFailure::Disconnect), SenderEnd::QueueClosed),
        ConnResult::Shutdown
    ));
}

#[test]
fn reconnect_after_two_disconnects_keeps_queue() {
    let mut chans = NameMap::new();
    chans.insert("c1".to_string(), "#general".to_string());
    let mut st = ErrState::new();
    let mut q: OutboundQueue<SlackMsg> = OutboundQueue::new(1024);
    let msg = |t: &str| {
        SlackMsg::OutMsg(PrivMsg {
            nick: "alice".to_string(),
            chan: "c1".to_string(),
            msg: t.to_string(),
        })
    };
    assert!(q.try_send(msg("before")).is_ok());

    // First attempt: the receive loop sees the server go away.
    q.request_stop();
    assert!(matches!(next_outgoing(&mut q, &chans), Outgoing::Stop));
    let res = conclude_attempt(Ok(()), SenderEnd::Stopped(q));
    let mut q = match st.next_step(res) {
        NextStep::Reconnect(q, d) => {
            assert_eq!(d, 0);
            q
        }
        other => panic!("unexpected {:?}", other),
    };
    assert!(q.try_send(msg("during first outage")).is_ok());

    // Second attempt ends the same way.
    q.request_stop();
    assert!(matches!(next_outgoing(&mut q, &chans), Outgoing::Stop));
    let res = conclude_attempt(Err(IrcFailure::Disconnect), SenderEnd::Stopped(q));
    let mut q = match st.next_step(res) {
        NextStep::Reconnect(q, d) => {
            assert_eq!(d, 1);
            q
        }
        other => panic!("unexpected {:?}", other),
    };
    assert!(q.try_send(msg("during second outage")).is_ok());

    // Third attempt connects and drains the same queue.
    st.reset();
    let mut texts = Vec::new();
    loop {
        match next_outgoing(&mut q, &chans) {
            Outgoing::Send(c) => {
                assert_eq!(c.target, "#general");
                texts.push(c.text);
            }
            Outgoing::Idle => break,
            other => panic!("unexpected {:?}", other),
        }
    }
    assert_eq!(
        texts,
        vec![
            "[alice]: before".to_string(),
            "[alice]: during first outage".to_string(),
            "[alice]: during second outage".to_string(),
        ]
    );
}
