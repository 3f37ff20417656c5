use crate::irc::{
    forwards, handle_irc_msg, handle_slack_msg, relay_text, FailureKind, Incoming, IrcCommand,
    IrcEvent, IrcFailure, PrivmsgCmd,
};
use crate::message::SlackMsg;
use crate::names::NameMap;
use crate::queue::{sent, sent_all, OutboundQueue, Recv, TrySendError};
use vstd::prelude::*;

verus! {

/// `2^n`.
pub open spec fn two_pow(n: nat) -> nat
    decreases n,
{
    if n == 0 {
        1
    } else {
        2 * two_pow((n - 1) as nat)
    }
}

/// The wait, in seconds, before the retry that follows a failure seen
/// `occurrence` times in a row after its first: none after the first, then
/// `2^(occurrence - 1)`, held at `u64::MAX` where that no longer fits.
pub open spec fn backoff_secs(occurrence: nat) -> nat {
    if occurrence == 0 {
        0
    } else if occurrence <= 64 {
        two_pow((occurrence - 1) as nat)
    } else {
        u64::MAX as nat
    }
}

/// The repeat count after a recoverable failure of kind `k`: one more when
/// `k` is the kind seen last (held at `u32::MAX`), else zero.
pub open spec fn next_occurrence(last: Option<FailureKind>, occurrence: nat, k: FailureKind) -> nat {
    if last == Some(k) {
        if occurrence < u32::MAX {
            occurrence + 1
        } else {
            occurrence
        }
    } else {
        0
    }
}

/// The back-off state after a fresh state is fed the failures `kinds` in
/// order: the kind seen last and its repeat count. Failures that are not
/// recoverable leave the state as it was.
pub open spec fn replay(kinds: Seq<FailureKind>) -> (Option<FailureKind>, nat)
    decreases kinds.len(),
{
    if kinds.len() == 0 {
        (None, 0)
    } else {
        let (last, occurrence) = replay(kinds.drop_last());
        let k = kinds.last();
        if k.is_recoverable() {
            (Some(k), next_occurrence(last, occurrence, k))
        } else {
            (last, occurrence)
        }
    }
}

/// How many elements at the end of `kinds` equal its last one.
pub open spec fn trailing_run(kinds: Seq<FailureKind>) -> nat
    decreases kinds.len(),
{
    if kinds.len() == 0 {
        0
    } else if kinds.len() >= 2 && kinds[kinds.len() - 2] == kinds.last() {
        1 + trailing_run(kinds.drop_last())
    } else {
        1
    }
}

/// What the manager does about a failed connection attempt.
#[derive(Debug)]
pub enum ErrResolution {
    /// Reconnect after this many seconds.
    Backoff(u64),
    /// Give up.
    Die(IrcFailure),
}

/// The back-off state of one connection manager: the kind of the last
/// recoverable failure and how many times in a row it came again.
#[derive(Debug)]
pub struct ErrState {
    err: Option<FailureKind>,
    occurrence: u32,
}

fn backoff_delay(occurrence: u32) -> (r: u64)
    ensures
        r == backoff_secs(occurrence as nat),
{
    if occurrence == 0 {
        return 0;
    }
    if occurrence > 64 {
        return u64::MAX;
    }
    let mut d: u64 = 1;
    let mut i: u32 = 1;
    while i < occurrence
        invariant
            1 <= i <= occurrence <= 64,
            d == two_pow((i - 1) as nat),
        decreases occurrence - i,
    {
        proof {
            lemma_two_pow_monotonic((i - 1) as nat, 62);
            lemma_two_pow_62();
        }
        d = d * 2;
        i = i + 1;
    }
    d
}

proof fn lemma_two_pow_monotonic(a: nat, b: nat)
    requires
        a <= b,
    ensures
        two_pow(a) <= two_pow(b),
    decreases b,
{
    if a < b {
        lemma_two_pow_monotonic(a, (b - 1) as nat);
    }
}

proof fn lemma_two_pow_is_pow2(n: nat)
    ensures
        two_pow(n) == vstd::arithmetic::power2::pow2(n),
    decreases n,
{
    if n > 0 {
        lemma_two_pow_is_pow2((n - 1) as nat);
        vstd::arithmetic::power2::lemma_pow2_unfold(n);
    } else {
        vstd::arithmetic::power2::lemma2_to64();
    }
}

proof fn lemma_two_pow_62()
    ensures
        two_pow(62) == 0x4000_0000_0000_0000,
{
    lemma_two_pow_is_pow2(64);
    vstd::arithmetic::power2::lemma2_to64();
    assert(two_pow(64) == 2 * two_pow(63));
    assert(two_pow(63) == 2 * two_pow(62));
}

impl ErrState {
    /// The kind of the last recoverable failure, if there was one since the
    /// state was made or reset.
    pub closed spec fn last(&self) -> Option<FailureKind> {
        self.err
    }

    /// How many times in a row the last kind came again after its first.
    pub closed spec fn repeats(&self) -> nat {
        self.occurrence as nat
    }

    /// A state with no failure seen.
    pub fn new() -> (r: ErrState)
        ensures
            r.last() is None,
            r.repeats() == 0,
    {
        ErrState { err: None, occurrence: 0 }
    }

    /// The kind of the last recoverable failure.
    pub fn last_kind(&self) -> (r: Option<FailureKind>)
        ensures
            r == self.last(),
    {
        self.err
    }

    /// How many times in a row the last kind came again after its first.
    pub fn occurrence(&self) -> (r: u32)
        ensures
            r == self.repeats(),
    {
        self.occurrence
    }

    /// Forgets past failures, once a connection has been established.
    pub fn reset(&mut self)
        ensures
            final(self).last() is None,
            final(self).repeats() == 0,
    {
        self.err = None;
        self.occurrence = 0;
    }

    /// Decides what to do about a failure. A disconnect or a transport
    /// failure is retried: at once when its kind differs from the last one,
    /// else after `2^(n - 1)` seconds for its `n`-th repeat. Any other
    /// failure is fatal and leaves the state alone.
    pub fn handle_error(&mut self, err: IrcFailure) -> (r: ErrResolution)
        ensures
            !err.kind_of().is_recoverable() ==> r == ErrResolution::Die(err) && *final(self)
                == *old(self),
            err.kind_of().is_recoverable() ==> final(self).last() == Some(err.kind_of())
                && final(self).repeats() == next_occurrence(
                old(self).last(),
                old(self).repeats(),
                err.kind_of(),
            ) && r == ErrResolution::Backoff(backoff_secs(final(self).repeats()) as u64),
    {
        match &err {
            IrcFailure::Disconnect => self.set_err(err),
            IrcFailure::Connection(_) => self.set_err(err),
            IrcFailure::BadConf(_) => ErrResolution::Die(err),
            IrcFailure::Error(_) => ErrResolution::Die(err),
            IrcFailure::CantIdentify(_) => ErrResolution::Die(err),
            IrcFailure::Shutdown => ErrResolution::Die(err),
        }
    }

    fn set_err(&mut self, err: IrcFailure) -> (r: ErrResolution)
        ensures
            final(self).last() == Some(err.kind_of()),
            final(self).repeats() == next_occurrence(
                old(self).last(),
                old(self).repeats(),
                err.kind_of(),
            ),
            r == ErrResolution::Backoff(backoff_secs(final(self).repeats()) as u64),
    {
        let kind = err.kind();
        let errors_are_same = match self.err {
            Some(prev) => prev == kind,
            None => false,
        };
        if !errors_are_same {
            self.occurrence = 0;
            self.err = Some(kind);
            ErrResolution::Backoff(0)
        } else {
            if self.occurrence < u32::MAX {
                self.occurrence = self.occurrence + 1;
            }
            ErrResolution::Backoff(backoff_delay(self.occurrence))
        }
    }

    /// Decides what follows the end of a connection attempt. A recoverable
    /// failure hands the same queue to the next attempt, with the wait before
    /// it; a shut-down queue, or a `Shutdown` failure, ends the manager
    /// cleanly; any other failure ends it with that failure.
    pub fn next_step<Q>(&mut self, res: ConnResult<Q>) -> (r: NextStep<Q>)
        ensures
            match res {
                ConnResult::Shutdown => r is Finish && *final(self) == *old(self),
                ConnResult::Recoverable(q, e) => if e.kind_of().is_recoverable() {
                    final(self).last() == Some(e.kind_of()) && final(self).repeats()
                        == next_occurrence(old(self).last(), old(self).repeats(), e.kind_of())
                        && r == NextStep::Reconnect(q, backoff_secs(final(self).repeats()) as u64)
                } else if e.kind_of() == FailureKind::Shutdown {
                    r is Finish && *final(self) == *old(self)
                } else {
                    r == NextStep::<Q>::Abort(e) && *final(self) == *old(self)
                },
            },
    {
        match res {
            ConnResult::Shutdown => NextStep::Finish,
            ConnResult::Recoverable(q, e) => match self.handle_error(e) {
                ErrResolution::Backoff(d) => NextStep::Reconnect(q, d),
                ErrResolution::Die(IrcFailure::Shutdown) => NextStep::Finish,
                ErrResolution::Die(e) => NextStep::Abort(e),
            },
        }
    }
}

/// How a connection attempt ended, as the send loop and the receive loop
/// report it together.
#[derive(Debug)]
pub enum ConnResult<Q> {
    /// The attempt failed; the outbound queue comes back for the next one.
    Recoverable(Q, IrcFailure),
    /// The outbound queue's producers have shut down.
    Shutdown,
}

/// What the connection manager does after an attempt.
#[derive(Debug)]
pub enum NextStep<Q> {
    /// Wait this many seconds, then connect again, draining this queue.
    Reconnect(Q, u64),
    /// Stop without error.
    Finish,
    /// Stop with this failure.
    Abort(IrcFailure),
}

/// How the send loop of an attempt ended.
#[derive(Debug)]
pub enum SenderEnd<Q> {
    /// It was told to stop and gave the queue back.
    Stopped(Q),
    /// The queue's producers shut down and it was drained.
    QueueClosed,
}

/// Combines the ends of an attempt's two loops. When the send loop found the
/// queue closed the bridge is shutting down; otherwise the queue goes back
/// with the receive loop's failure, a disconnect if it ended without one.
pub fn conclude_attempt<Q>(recv_res: Result<(), IrcFailure>, send_res: SenderEnd<Q>) -> (r:
    ConnResult<Q>)
    ensures
        match send_res {
            SenderEnd::QueueClosed => r is Shutdown,
            SenderEnd::Stopped(q) => match recv_res {
                Ok(()) => r == ConnResult::Recoverable(q, IrcFailure::Disconnect),
                Err(e) => r == ConnResult::Recoverable(q, e),
            },
        },
{
    match send_res {
        SenderEnd::QueueClosed => ConnResult::Shutdown,
        SenderEnd::Stopped(q) => {
            let err = match recv_res {
                Ok(()) => IrcFailure::Disconnect,
                Err(e) => e,
            };
            ConnResult::Recoverable(q, err)
        },
    }
}

/// Whether a relay message can be delivered: its channel is mapped.
pub open spec fn is_mapped(m: SlackMsg, chans: Map<Seq<char>, Seq<char>>) -> bool {
    chans.contains_key(m.line().chan@)
}

/// The target channel and text of the `PRIVMSG` that a mapped message
/// becomes.
pub open spec fn delivery(m: SlackMsg, chans: Map<Seq<char>, Seq<char>>) -> (Seq<char>, Seq<char>) {
    (chans[m.line().chan@], relay_text(m))
}

/// What should reach the IRC side for queued messages: one `PRIVMSG` for
/// each mapped message, in queue order.
pub open spec fn deliveries(q: Seq<SlackMsg>, chans: Map<Seq<char>, Seq<char>>) -> Seq<
    (Seq<char>, Seq<char>),
>
    decreases q.len(),
{
    if q.len() == 0 {
        Seq::empty()
    } else if is_mapped(q[0], chans) {
        seq![delivery(q[0], chans)] + deliveries(q.drop_first(), chans)
    } else {
        deliveries(q.drop_first(), chans)
    }
}

/// One step of the send loop on a non-empty queue: the command it sends, if
/// the oldest message can be delivered, and the queue after it.
pub open spec fn outgoing_step(q: Seq<SlackMsg>, chans: Map<Seq<char>, Seq<char>>) -> (
    Option<(Seq<char>, Seq<char>)>,
    Seq<SlackMsg>,
) {
    if is_mapped(q[0], chans) {
        (Some(delivery(q[0], chans)), q.drop_first())
    } else {
        (None, q.drop_first())
    }
}

/// The commands that the send loop emits, in order, when its steps are run
/// on a queue until it is empty.
pub open spec fn emitted(q: Seq<SlackMsg>, chans: Map<Seq<char>, Seq<char>>) -> Seq<
    (Seq<char>, Seq<char>),
>
    decreases q.len(),
{
    if q.len() == 0 {
        Seq::empty()
    } else {
        let (out, rest) = outgoing_step(q, chans);
        match out {
            Some(c) => seq![c] + emitted(rest, chans),
            None => emitted(rest, chans),
        }
    }
}

/// What the send loop does next.
#[derive(Debug)]
pub enum Outgoing {
    /// Send this command to the server.
    Send(PrivmsgCmd),
    /// This message maps to no IRC channel and is dropped.
    Unmapped(SlackMsg),
    /// Nothing to send: wait for the queue.
    Idle,
    /// The attempt is over: give the queue back.
    Stop,
    /// The producers are gone and the queue is drained: shut down.
    Shutdown,
}

/// One step of the send loop. A stop request is seen first and leaves the
/// queue as it is. Otherwise the oldest message is taken: it becomes the
/// command to send, or comes back as unmapped when its channel maps to no
/// IRC channel. With nothing queued the loop idles, or shuts down if the
/// producers are gone.
pub fn next_outgoing(queue: &mut OutboundQueue<SlackMsg>, chans: &NameMap) -> (r: Outgoing)
    ensures
        final(queue).slots() == old(queue).slots(),
        final(queue).is_closed() == old(queue).is_closed(),
        !final(queue).stop_requested(),
        old(queue).stop_requested() ==> r is Stop && final(queue)@ == old(queue)@,
        !old(queue).stop_requested() && old(queue)@.len() > 0 ==> final(queue)@ == outgoing_step(
            old(queue)@,
            chans@,
        ).1 && match outgoing_step(old(queue)@, chans@).0 {
            Some(d) => r matches Outgoing::Send(c) && (c.target@, c.text@) == d,
            None => r == Outgoing::Unmapped(old(queue)@[0]),
        },
        !old(queue).stop_requested() && old(queue)@.len() == 0 ==> final(queue)@ == old(queue)@
            && if old(queue).is_closed() {
            r is Shutdown
        } else {
            r is Idle
        },
{
    match queue.recv() {
        Recv::Stop => Outgoing::Stop,
        Recv::Closed => Outgoing::Shutdown,
        Recv::Empty => Outgoing::Idle,
        Recv::Item(m) => match handle_slack_msg(&m, chans) {
            Some(c) => Outgoing::Send(c),
            None => Outgoing::Unmapped(m),
        },
    }
}

/// The target channel and text of each command.
pub open spec fn cmd_views(v: Seq<PrivmsgCmd>) -> Seq<(Seq<char>, Seq<char>)> {
    v.map_values(|c: PrivmsgCmd| (c.target@, c.text@))
}

/// Why draining a queue stopped.
#[derive(Debug)]
pub enum DrainEnd {
    /// The queue is empty: wait for more.
    Idle,
    /// The attempt is over: give the queue back.
    Stop,
    /// The producers are gone and the queue is drained: shut down.
    Shutdown,
}

/// What [`drain_ready`] took from the queue.
#[derive(Debug)]
pub struct Drained {
    /// The commands to send, in order.
    pub sent: Vec<PrivmsgCmd>,
    /// The messages that map to no IRC channel, dropped.
    pub unmapped: Vec<SlackMsg>,
    pub end: DrainEnd,
}

/// Runs the send loop's steps until the queue has nothing ready. Unless a
/// stop is pending, every queued message is taken, and the commands are
/// exactly one per mapped message, in queue order.
pub fn drain_ready(queue: &mut OutboundQueue<SlackMsg>, chans: &NameMap) -> (r: Drained)
    ensures
        final(queue).slots() == old(queue).slots(),
        final(queue).is_closed() == old(queue).is_closed(),
        !final(queue).stop_requested(),
        old(queue).stop_requested() ==> r.end is Stop && final(queue)@ == old(queue)@
            && r.sent@.len() == 0 && r.unmapped@.len() == 0,
        !old(queue).stop_requested() ==> final(queue)@.len() == 0 && cmd_views(r.sent@)
            == deliveries(old(queue)@, chans@) && if old(queue).is_closed() {
            r.end is Shutdown
        } else {
            r.end is Idle
        },
{
    let mut sent: Vec<PrivmsgCmd> = Vec::new();
    let mut unmapped: Vec<SlackMsg> = Vec::new();
    let ghost start = queue@;
    proof {
        lemma_emitted_is_deliveries(start, chans@);
    }
    loop
        invariant
            queue.slots() == old(queue).slots(),
            queue.is_closed() == old(queue).is_closed(),
            start == old(queue)@,
            emitted(start, chans@) == deliveries(start, chans@),
            old(queue).stop_requested() ==> queue.stop_requested() && queue@ == start
                && sent@.len() == 0 && unmapped@.len() == 0,
            !old(queue).stop_requested() ==> !queue.stop_requested() && cmd_views(sent@) + emitted(
                queue@,
                chans@,
            ) == emitted(start, chans@),
        decreases queue@.len(),
    {
        let ghost before = queue@;
        let ghost done = sent@;
        match next_outgoing(queue, chans) {
            Outgoing::Send(c) => {
                proof {
                    assert(before.len() > 0);
                    assert(cmd_views(done.push(c)) =~= cmd_views(done).push((c.target@, c.text@)));
                    assert(cmd_views(done.push(c)) + emitted(queue@, chans@) =~= cmd_views(done)
                        + emitted(before, chans@));
                }
                sent.push(c);
            },
            Outgoing::Unmapped(m) => {
                unmapped.push(m);
            },
            Outgoing::Idle => {
                proof {
                    assert(cmd_views(sent@) + emitted(queue@, chans@) =~= cmd_views(sent@));
                }
                return Drained { sent, unmapped, end: DrainEnd::Idle };
            },
            Outgoing::Stop => {
                return Drained { sent, unmapped, end: DrainEnd::Stop };
            },
            Outgoing::Shutdown => {
                proof {
                    assert(cmd_views(sent@) + emitted(queue@, chans@) =~= cmd_views(sent@));
                }
                return Drained { sent, unmapped, end: DrainEnd::Shutdown };
            },
        }
    }
}

/// Messages reach the IRC side in the order in which they were queued, each
/// at most once: when every message is accepted, running the send loop's
/// steps on the queue until it is empty emits one `PRIVMSG` for each mapped
/// message, in the order the messages were queued.
pub proof fn lemma_delivery_in_order(
    msgs: Seq<SlackMsg>,
    chans: Map<Seq<char>, Seq<char>>,
    capacity: nat,
)
    requires
        msgs.len() <= capacity,
    ensures
        emitted(sent_all(Seq::empty(), capacity, false, msgs), chans) == deliveries(msgs, chans),
{
    lemma_sent_all_accepts(msgs, capacity);
    lemma_emitted_is_deliveries(msgs, chans);
}

proof fn lemma_sent_all_accepts(msgs: Seq<SlackMsg>, capacity: nat)
    requires
        msgs.len() <= capacity,
    ensures
        sent_all(Seq::empty(), capacity, false, msgs) == msgs,
    decreases msgs.len(),
{
    if msgs.len() > 0 {
        lemma_sent_all_accepts(msgs.drop_last(), capacity);
        assert(msgs.drop_last().push(msgs.last()) =~= msgs);
    }
}

proof fn lemma_emitted_is_deliveries(q: Seq<SlackMsg>, chans: Map<Seq<char>, Seq<char>>)
    ensures
        emitted(q, chans) == deliveries(q, chans),
    decreases q.len(),
{
    if q.len() > 0 {
        lemma_emitted_is_deliveries(q.drop_first(), chans);
    }
}

/// What the receive loop did with one inbound message.
#[derive(Debug)]
pub enum RecvStep {
    /// A relay message went onto the Slack queue.
    Forwarded,
    /// A relay message was refused by the Slack queue and dropped.
    Dropped(TrySendError<SlackMsg>),
    /// The message is of no interest.
    Ignored,
    /// The server reported an error: the receive loop ends with it.
    Failed(IrcFailure),
}

/// One step of the receive loop: an inbound line is translated and offered,
/// without blocking, to the queue bound for Slack; a server error ends the
/// loop; anything else is ignored.
pub fn on_irc_event(irc_msg: IrcEvent, to_slack: &mut OutboundQueue<SlackMsg>) -> (r: RecvStep)
    ensures
        final(to_slack).slots() == old(to_slack).slots(),
        final(to_slack).is_closed() == old(to_slack).is_closed(),
        final(to_slack).stop_requested() == old(to_slack).stop_requested(),
        match irc_msg.command {
            IrcCommand::Privmsg(target, msg) => match irc_msg.source_nick {
                Some(nick) => exists|m: SlackMsg|
                    #![auto]
                    forwards(nick, target, msg, Incoming::ForwardMsg(m))
                        && final(to_slack)@ == sent(
                        old(to_slack)@,
                        old(to_slack).slots(),
                        old(to_slack).is_closed(),
                        m,
                    ) && (r is Forwarded || r is Dropped) && (r is Forwarded <==> final(to_slack)@
                        != old(to_slack)@),
                None => r is Ignored && final(to_slack)@ == old(to_slack)@,
            },
            IrcCommand::Error(e) => r == RecvStep::Failed(IrcFailure::Error(e))
                && final(to_slack)@ == old(to_slack)@,
            IrcCommand::Other => r is Ignored && final(to_slack)@ == old(to_slack)@,
        },
{
    match handle_irc_msg(irc_msg) {
        Some(Incoming::ForwardMsg(m)) => {
            let res = to_slack.try_send(m);
            proof {
                assert(to_slack@ != old(to_slack)@ <==> res is Ok) by {
                    if res is Ok {
                        assert(to_slack@.len() == old(to_slack)@.len() + 1);
                    }
                }
            }
            match res {
                Ok(()) => RecvStep::Forwarded,
                Err(e) => RecvStep::Dropped(e),
            }
        },
        Some(Incoming::Error(e)) => RecvStep::Failed(IrcFailure::Error(e)),
        None => RecvStep::Ignored,
    }
}

/// The repeat count goes back to zero exactly when a recoverable failure is
/// of another kind than the last one; while the kind repeats, the wait
/// before the retry is `2^(n - 1)` seconds for the `n`-th repeat (held at
/// `u64::MAX`), and after the first failure of a kind there is no wait.
pub proof fn lemma_reset_exactly_on_change(
    last: Option<FailureKind>,
    occurrence: nat,
    k: FailureKind,
)
    requires
        occurrence <= u32::MAX,
    ensures
        (next_occurrence(last, occurrence, k) == 0) <==> (last != Some(k)),
        last != Some(k) ==> backoff_secs(next_occurrence(last, occurrence, k)) == 0,
        last == Some(k) && occurrence < u32::MAX ==> backoff_secs(
            next_occurrence(last, occurrence, k),
        ) == if occurrence + 1 <= 64 {
            two_pow(occurrence)
        } else {
            u64::MAX as nat
        },
{
}

/// While a failure kind repeats, each wait doubles the one before: the
/// first repeat waits one second, and each later one twice as long, until
/// the wait is held at `u64::MAX`.
pub proof fn lemma_delay_doubles(occurrence: nat)
    requires
        1 <= occurrence < 64,
    ensures
        backoff_secs(1) == 1,
        backoff_secs(occurrence + 1) == 2 * backoff_secs(occurrence),
{
    assert(two_pow(0) == 1);
    assert(two_pow(occurrence) == 2 * two_pow((occurrence - 1) as nat));
}

/// The back-off state after a run of the same recoverable failure: its
/// repeat count is the length of the run less one, held at `u32::MAX`; a
/// failure of another kind starts the count again at zero.
pub proof fn lemma_backoff_follows_runs(kinds: Seq<FailureKind>)
    requires
        kinds.len() > 0,
        forall|i: int| 0 <= i < kinds.len() ==> (#[trigger] kinds[i]).is_recoverable(),
    ensures
        replay(kinds).0 == Some(kinds.last()),
        replay(kinds).1 == if trailing_run(kinds) - 1 < u32::MAX {
            (trailing_run(kinds) - 1) as nat
        } else {
            u32::MAX as nat
        },
    decreases kinds.len(),
{
    if kinds.len() >= 2 {
        let init = kinds.drop_last();
        assert forall|i: int| 0 <= i < init.len() implies (#[trigger] init[i]).is_recoverable() by {
            assert(init[i] == kinds[i]);
        }
        lemma_backoff_follows_runs(init);
        assert(init.last() == kinds[kinds.len() - 2]);
        assert(kinds.last().is_recoverable());
        let k = kinds.last();
        let prev = replay(init);
        assert(replay(kinds) == (Some(k), next_occurrence(prev.0, prev.1, k)));
        if kinds[kinds.len() - 2] == k {
            assert(trailing_run(kinds) == 1 + trailing_run(init));
        } else {
            assert(trailing_run(kinds) == 1);
        }
    } else {
        assert(kinds.drop_last().len() == 0);
        assert(replay(kinds.drop_last()) == (None::<FailureKind>, 0nat));
        assert(kinds.last().is_recoverable());
        assert(trailing_run(kinds) == 1);
    }
}

} // verus!
