use slagw::irc::{
    handle_irc_msg, handle_privmsg, handle_slack_msg, Incoming, IrcCommand, IrcEvent,
};
use slagw::lifecycle::{drain_ready, next_outgoing, on_irc_event, DrainEnd, Outgoing, RecvStep};
use slagw::message::{PrivMsg, SlackMsg};
use slagw::names::NameMap;
use slagw::queue::{OutboundQueue, Recv, TrySendError};

fn line(nick: &str, chan: &str, msg: &str) -> PrivMsg {
    PrivMsg {
        nick: nick.to_string(),
        chan: chan.to_string(),
        msg: msg.to_string(),
    }
}

fn map(pairs: &[(&str, &str)]) -> NameMap {
    let mut m = NameMap::new();
    for (k, v) in pairs {
        m.insert(k.to_string(), v.to_string());
    }
    m
}

fn drain(q: &mut OutboundQueue<SlackMsg>, chans: &NameMap) -> (Vec<(String, String)>, usize) {
    let mut sent = Vec::new();
    let mut unmapped = 0;
    loop {
        match next_outgoing(q, chans) {
            Outgoing::Send(c) => sent.push((c.target, c.text)),
            Outgoing::Unmapped(_) => unmapped += 1,
            Outgoing::Idle => return (sent, unmapped),
            Outgoing::Stop => panic!("unexpected stop"),
            Outgoing::Shutdown => panic!("unexpected shutdown"),
        }
    }
}

#[test]
fn normal_message_round_trip() {
    let chans = map(&[("c1", "#general")]);
    let m = SlackMsg::OutMsg(line("alice", "c1", "hi"));
    let c = handle_slack_msg(&m, &chans).expect("mapped");
    assert_eq!(c.target, "#general");
    assert_eq!(c.text, "[alice]: hi");
}

#[test]
fn action_message_format() {
    let chans = map(&[("c1", "#general")]);
    let m = SlackMsg::ActionMsg(line("alice", "c1", "hi"));
    let c = handle_slack_msg(&m, &chans).expect("mapped");
    assert_eq!(c.target, "#general");
    assert_eq!(c.text, "[alice] hi");
}

#[test]
fn status_message_has_no_prefix() {
    let chans = map(&[("c1", "#general")]);
    let m = SlackMsg::StatusMsg(line("", "c1", "! DISCONNECTED FROM SLACK !"));
    let c = handle_slack_msg(&m, &chans).expect("mapped");
    assert_eq!(c.target, "#general");
    assert_eq!(c.text, "! DISCONNECTED FROM SLACK !");
}

#[test]
fn unmapped_channel_translates_to_none() {
    let chans = map(&[("c1", "#general")]);
    let m = SlackMsg::OutMsg(line("alice", "c2", "hi"));
    assert!(handle_slack_msg(&m, &chans).is_none());
}

#[test]
fn unmapped_message_dropped_without_reordering() {
    let chans = map(&[("c1", "#general"), ("c3", "#ops")]);
    let mut q = OutboundQueue::new(8);
    assert!(q.try_send(SlackMsg::OutMsg(line("a", "c1", "one"))).is_ok());
    assert!(q.try_send(SlackMsg::OutMsg(line("b", "c2", "lost"))).is_ok());
    assert!(q.try_send(SlackMsg::OutMsg(line("c", "c3", "two"))).is_ok());
    assert!(q.try_send(SlackMsg::ActionMsg(line("d", "c1", "three"))).is_ok());
    match next_outgoing(&mut q, &chans) {
        Outgoing::Send(c) => assert_eq!(c.text, "[a]: one"),
        other => panic!("unexpected {:?}", other),
    }
    match next_outgoing(&mut q, &chans) {
        Outgoing::Unmapped(SlackMsg::OutMsg(p)) => assert_eq!(p.msg, "lost"),
        other => panic!("unexpected {:?}", other),
    }
    let (sent, unmapped) = drain(&mut q, &chans);
    assert_eq!(unmapped, 0);
    assert_eq!(
        sent,
        vec![
            ("#ops".to_string(), "[c]: two".to_string()),
            ("#general".to_string(), "[d] three".to_string()),
        ]
    );
}

#[test]
fn delivery_in_enqueue_order_without_duplicates() {
    let chans = map(&[("c1", "#a"), ("c2", "#b")]);
    let mut q = OutboundQueue::new(16);
    for i in 0..10 {
        let chan = if i % 2 == 0 { "c1" } else { "c2" };
        assert!(q.try_send(SlackMsg::OutMsg(line("n", chan, &i.to_string()))).is_ok());
    }
    let (sent, unmapped) = drain(&mut q, &chans);
    assert_eq!(unmapped, 0);
    let expected: Vec<(String, String)> = (0..10)
        .map(|i| {
            let target = if i % 2 == 0 { "#a" } else { "#b" };
            (target.to_string(), format!("[n]: {}", i))
        })
        .collect();
    assert_eq!(sent, expected);
    assert_eq!(q.len(), 0);
}

#[test]
fn full_queue_rejects_then_keeps_order() {
    let mut q: OutboundQueue<u32> = OutboundQueue::new(3);
    assert!(q.try_send(1).is_ok());
    assert!(q.try_send(2).is_ok());
    assert!(q.try_send(3).is_ok());
    match q.try_send(4) {
        Err(TrySendError::Full(4)) => {}
        other => panic!("unexpected {:?}", other),
    }
    assert_eq!(q.len(), 3);
    assert!(matches!(q.recv(), Recv::Item(1)));
    assert!(q.try_send(5).is_ok());
    assert!(matches!(q.recv(), Recv::Item(2)));
    assert!(matches!(q.recv(), Recv::Item(3)));
    assert!(matches!(q.recv(), Recv::Item(5)));
    assert!(matches!(q.recv(), Recv::Empty));
}

#[test]
fn closed_queue_drains_then_reports_closed() {
    let mut q: OutboundQueue<u32> = OutboundQueue::new(2);
    assert!(q.try_send(7).is_ok());
    q.close();
    assert!(matches!(q.try_send(8), Err(TrySendError::Closed(8))));
    assert!(matches!(q.recv(), Recv::Item(7)));
    assert!(matches!(q.recv(), Recv::Closed));
}

#[test]
fn stop_request_comes_before_queued_messages() {
    let chans = map(&[("c1", "#general")]);
    let mut q = OutboundQueue::new(4);
    assert!(q.try_send(SlackMsg::OutMsg(line("a", "c1", "kept"))).is_ok());
    q.request_stop();
    assert!(matches!(next_outgoing(&mut q, &chans), Outgoing::Stop));
    assert_eq!(q.len(), 1);
    match next_outgoing(&mut q, &chans) {
        Outgoing::Send(c) => assert_eq!(c.text, "[a]: kept"),
        other => panic!("unexpected {:?}", other),
    }
    q.close();
    assert!(matches!(next_outgoing(&mut q, &chans), Outgoing::Shutdown));
}

#[test]
fn zero_capacity_queue_refuses_everything() {
    let mut q: OutboundQueue<u8> = OutboundQueue::new(0);
    assert!(matches!(q.try_send(1), Err(TrySendError::Full(1))));
    assert!(matches!(q.recv(), Recv::Empty));
}

#[test]
fn privmsg_plain_line() {
    match handle_privmsg("bob".to_string(), "#chan".to_string(), "hello".to_string()) {
        Incoming::ForwardMsg(SlackMsg::OutMsg(p)) => {
            assert_eq!(p.nick, "bob");
            assert_eq!(p.chan, "#chan");
            assert_eq!(p.msg, "hello");
        }
        other => panic!("unexpected {:?}", other),
    }
}

#[test]
fn privmsg_action_strips_marker() {
    let msg = "\u{1}ACTION waves\u{1}".to_string();
    match handle_privmsg("bob".to_string(), "#chan".to_string(), msg) {
        Incoming::ForwardMsg(SlackMsg::ActionMsg(p)) => {
            assert_eq!(p.nick, "bob");
            assert_eq!(p.chan, "#chan");
            assert_eq!(p.msg, "waves\u{1}");
        }
        other => panic!("unexpected {:?}", other),
    }
}

#[test]
fn privmsg_bare_action_marker() {
    match handle_privmsg("bob".to_string(), "#c".to_string(), "\u{1}ACTION".to_string()) {
        Incoming::ForwardMsg(SlackMsg::ActionMsg(p)) => assert_eq!(p.msg, ""),
        other => panic!("unexpected {:?}", other),
    }
}

#[test]
fn privmsg_marker_lookalike_is_plain() {
    match handle_privmsg("bob".to_string(), "#c".to_string(), "ACTION x".to_string()) {
        Incoming::ForwardMsg(SlackMsg::OutMsg(p)) => assert_eq!(p.msg, "ACTION x"),
        other => panic!("unexpected {:?}", other),
    }
}

#[test]
fn irc_error_frame_and_ignored_events() {
    let ev = IrcEvent {
        source_nick: None,
        command: IrcCommand::Error("Closing Link".to_string()),
    };
    match handle_irc_msg(ev) {
        Some(Incoming::Error(e)) => assert_eq!(e, "Closing Link"),
        other => panic!("unexpected {:?}", other),
    }
    let no_nick = IrcEvent {
        source_nick: None,
        command: IrcCommand::Privmsg("#c".to_string(), "x".to_string()),
    };
    assert!(handle_irc_msg(no_nick).is_none());
    let other = IrcEvent {
        source_nick: Some("bob".to_string()),
        command: IrcCommand::Other,
    };
    assert!(handle_irc_msg(other).is_none());
}

#[test]
fn receive_step_forwards_drops_and_fails() {
    let mut to_slack = OutboundQueue::new(1);
    let ev = |text: &str| IrcEvent {
        source_nick: Some("bob".to_string()),
        command: IrcCommand::Privmsg("#c".to_string(), text.to_string()),
    };
    assert!(matches!(on_irc_event(ev("one"), &mut to_slack), RecvStep::Forwarded));
    match on_irc_event(ev("two"), &mut to_slack) {
        RecvStep::Dropped(TrySendError::Full(SlackMsg::OutMsg(p))) => assert_eq!(p.msg, "two"),
        other => panic!("unexpected {:?}", other),
    }
    assert_eq!(to_slack.len(), 1);
    let err = IrcEvent {
        source_nick: None,
        command: IrcCommand::Error("bye".to_string()),
    };
    match on_irc_event(err, &mut to_slack) {
        RecvStep::Failed(slagw::irc::IrcFailure::Error(e)) => assert_eq!(e, "bye"),
        other => panic!("unexpected {:?}", other),
    }
    match to_slack.recv() {
        Recv::Item(SlackMsg::OutMsg(p)) => assert_eq!(p.msg, "one"),
        other => panic!("unexpected {:?}", other),
    }
}

#[test]
fn privmsg_display_text() {
    assert_eq!(line("a", "#b", "c").to_string(), "[a] -> #b: c");
}

#[test]
fn drain_ready_sends_mapped_in_order() {
    let chans = map(&[("c1", "#general"), ("c3", "#ops")]);
    let mut q = OutboundQueue::new(8);
    assert!(q.try_send(SlackMsg::OutMsg(line("a", "c1", "one"))).is_ok());
    assert!(q.try_send(SlackMsg::OutMsg(line("b", "c2", "lost"))).is_ok());
    assert!(q.try_send(SlackMsg::ActionMsg(line("c", "c3", "two"))).is_ok());
    assert!(q.try_send(SlackMsg::StatusMsg(line("", "c1", "three"))).is_ok());
    let d = drain_ready(&mut q, &chans);
    assert!(matches!(d.end, DrainEnd::Idle));
    let sent: Vec<(String, String)> = d.sent.into_iter().map(|c| (c.target, c.text)).collect();
    assert_eq!(
        sent,
        vec![
            ("#general".to_string(), "[a]: one".to_string()),
            ("#ops".to_string(), "[c] two".to_string()),
            ("#general".to_string(), "three".to_string()),
        ]
    );
    assert_eq!(d.unmapped.len(), 1);
    assert_eq!(q.len(), 0);
}

#[test]
fn drain_ready_honours_stop_and_close() {
    let chans = map(&[("c1", "#general")]);
    let mut q = OutboundQueue::new(4);
    assert!(q.try_send(SlackMsg::OutMsg(line("a", "c1", "kept"))).is_ok());
    q.request_stop();
    let d = drain_ready(&mut q, &chans);
    assert!(matches!(d.end, DrainEnd::Stop));
    assert!(d.sent.is_empty());
    assert_eq!(q.len(), 1);
    q.close();
    let d = drain_ready(&mut q, &chans);
    assert!(matches!(d.end, DrainEnd::Shutdown));
    assert_eq!(d.sent.len(), 1);
    assert_eq!(d.sent[0].text, "[a]: kept");
}
