use crate::irc::{action_line, format_action_msg};
use crate::message::{PrivMsg, SlackMsg};
use crate::names::{is_inverse, map_of_pairs, NameMap};
use crate::lifecycle::DrainEnd;
use crate::queue::{sent, sent_all, OutboundQueue, Recv, TrySendError};
use vstd::prelude::*;

verus! {

/// The text of the notice sent to every bridged IRC channel when the Slack
/// connection closes.
pub const DISCONNECT_NOTICE: &'static str = "! DISCONNECTED FROM SLACK !";

/// The icon that relayed lines carry on Slack.
pub const ICON_EMOJI: &'static str = ":winkwink:";

/// How to reach Slack.
#[derive(Clone, Debug)]
pub struct SlackCfg {
    /// The token of the real-time session.
    pub secret: String,
    /// Where the webhook posts go.
    pub hook_url: String,
    /// Slack channel name to IRC channel.
    pub channels: NameMap,
}

/// One record of the directory that Slack sends when a session starts: an
/// id and its display name, either of which may be missing.
pub struct DirectoryEntry {
    pub id: Option<String>,
    pub name: Option<String>,
}

/// The `(id, name)` pairs of the complete records, in order.
pub open spec fn directory_pairs(s: Seq<DirectoryEntry>) -> Seq<(Seq<char>, Seq<char>)>
    decreases s.len(),
{
    if s.len() == 0 {
        Seq::empty()
    } else {
        let rest = directory_pairs(s.drop_last());
        let e = s.last();
        if e.id is Some && e.name is Some {
            rest.push((e.id->0@, e.name->0@))
        } else {
            rest
        }
    }
}

fn unwrap_mapping(e: &DirectoryEntry) -> (r: Option<(String, String)>)
    ensures
        r is Some <==> e.id is Some && e.name is Some,
        r is Some ==> (r->0).0 == e.id->0 && (r->0).1 == e.name->0,
{
    let id = match &e.id {
        Some(id) => id.clone(),
        None => return None,
    };
    let name = match &e.name {
        Some(name) => name.clone(),
        None => return None,
    };
    Some((id, name))
}

/// The id-to-name table of a directory. Records without an id or a name are
/// left out; a later record for an id replaces an earlier one.
pub fn directory_map(entries: &Vec<DirectoryEntry>) -> (r: NameMap)
    ensures
        r@ == map_of_pairs(directory_pairs(entries@)),
{
    let mut r = NameMap::new();
    let mut i: usize = 0;
    while i < entries.len()
        invariant
            0 <= i <= entries@.len(),
            r@ == map_of_pairs(directory_pairs(entries@.take(i as int))),
        decreases entries@.len() - i,
    {
        let ghost before = directory_pairs(entries@.take(i as int));
        proof {
            assert(entries@.take(i + 1).drop_last() =~= entries@.take(i as int));
            assert(entries@.take(i + 1).last() == entries@[i as int]);
        }
        match unwrap_mapping(&entries[i]) {
            Some(pair) => {
                proof {
                    let p = (pair.0@, pair.1@);
                    assert(directory_pairs(entries@.take(i + 1)) == before.push(p));
                    assert(before.push(p).drop_last() =~= before);
                }
                r.insert(pair.0, pair.1);
            },
            None => {},
        }
        i = i + 1;
    }
    assert(entries@.take(i as int) =~= entries@);
    r
}

/// A Slack message as the relay reads it: author id, channel id and text.
pub struct StandardMessage {
    pub user: Option<String>,
    pub channel: Option<String>,
    pub text: Option<String>,
}

/// An event of the Slack session.
pub enum SlackEvent {
    /// A message written by a user.
    Message(StandardMessage),
    /// Anything else.
    Other,
}

/// Turns the events of the Slack session into relay messages bound for IRC.
pub struct SlackReceiver {
    pub cfg: SlackCfg,
    /// User id to display name.
    pub slack_nick_mappings: NameMap,
    /// Channel id to channel name.
    pub slack_channel_mappings: NameMap,
}

impl SlackReceiver {
    /// A receiver whose identity caches hold the session's directory.
    pub fn new(cfg: SlackCfg, channels: &Vec<DirectoryEntry>, users: &Vec<DirectoryEntry>) -> (r:
        SlackReceiver)
        ensures
            r.cfg == cfg,
            r.slack_channel_mappings@ == map_of_pairs(directory_pairs(channels@)),
            r.slack_nick_mappings@ == map_of_pairs(directory_pairs(users@)),
    {
        SlackReceiver {
            cfg,
            slack_nick_mappings: directory_map(users),
            slack_channel_mappings: directory_map(channels),
        }
    }

    /// Whether the author, the channel and the text of `m` are all known.
    pub open spec fn resolves(&self, m: StandardMessage) -> bool {
        &&& m.user is Some && self.slack_nick_mappings@.contains_key(m.user->0@)
        &&& m.channel is Some && self.slack_channel_mappings@.contains_key(m.channel->0@)
        &&& m.text is Some
    }

    /// `p` is the chat line for `m`: the author's display name, the channel's
    /// name and the text.
    pub open spec fn is_line_of(&self, m: StandardMessage, p: PrivMsg) -> bool {
        &&& p.nick@ == self.slack_nick_mappings@[m.user->0@]
        &&& p.chan@ == self.slack_channel_mappings@[m.channel->0@]
        &&& p.msg == m.text->0
    }

    /// The chat line for a Slack message, or `None` when its author, its
    /// channel or its text is unknown.
    pub fn std_msg_to_priv(&self, std_msg: StandardMessage) -> (r: Option<PrivMsg>)
        ensures
            r is Some <==> self.resolves(std_msg),
            r is Some ==> self.is_line_of(std_msg, r->0),
    {
        let nick = match &std_msg.user {
            Some(u) => match self.slack_nick_mappings.get(u) {
                Some(n) => n.clone(),
                None => return None,
            },
            None => return None,
        };
        let chan = match &std_msg.channel {
            Some(c) => match self.slack_channel_mappings.get(c) {
                Some(name) => name.clone(),
                None => return None,
            },
            None => return None,
        };
        let msg = match std_msg.text {
            Some(t) => t,
            None => return None,
        };
        Some(PrivMsg { nick, chan, msg })
    }

    /// Relays a user's message to the IRC queue without blocking; other
    /// events, and messages that do not resolve, are ignored. The error hands
    /// back a message that the queue refused.
    pub fn handle_event(&self, event: SlackEvent, to_irc: &mut OutboundQueue<SlackMsg>) -> (r:
        Result<(), TrySendError<SlackMsg>>)
        ensures
            final(to_irc).slots() == old(to_irc).slots(),
            final(to_irc).is_closed() == old(to_irc).is_closed(),
            final(to_irc).stop_requested() == old(to_irc).stop_requested(),
            match event {
                SlackEvent::Message(m) => if self.resolves(m) {
                    (exists|p: PrivMsg|
                        #![auto]
                        self.is_line_of(m, p) && final(to_irc)@ == sent(
                            old(to_irc)@,
                            old(to_irc).slots(),
                            old(to_irc).is_closed(),
                            SlackMsg::OutMsg(p),
                        )) && (r is Ok <==> !old(to_irc).is_closed() && old(to_irc)@.len()
                        < old(to_irc).slots())
                } else {
                    r is Ok && final(to_irc)@ == old(to_irc)@
                },
                SlackEvent::Other => r is Ok && final(to_irc)@ == old(to_irc)@,
            },
    {
        match event {
            SlackEvent::Message(m) => match self.std_msg_to_priv(m) {
                Some(p) => to_irc.try_send(SlackMsg::OutMsg(p)),
                None => Ok(()),
            },
            SlackEvent::Other => Ok(()),
        }
    }

    /// `ns` are the notices for a closed Slack connection: one status
    /// message per configured Slack channel, in the table's order, each
    /// carrying [`DISCONNECT_NOTICE`] and no sender.
    pub open spec fn are_disconnect_notices(&self, ns: Seq<SlackMsg>) -> bool {
        &&& ns.len() == self.cfg.channels.key_seq().len()
        &&& forall|i: int|
            0 <= i < ns.len() ==> (#[trigger] ns[i]) is StatusMsg && ns[i].line().chan@
                == self.cfg.channels.key_seq()[i] && ns[i].line().msg@ == DISCONNECT_NOTICE@
                && ns[i].line().nick@ == Seq::<char>::empty()
    }

    /// The notices for a closed Slack connection, one for each configured
    /// channel, each channel once.
    pub fn disconnect_notices(&self) -> (r: Vec<SlackMsg>)
        ensures
            self.are_disconnect_notices(r@),
            self.cfg.channels.key_seq().no_duplicates(),
            self.cfg.channels.key_seq().to_set() == self.cfg.channels@.dom(),
    {
        let keys = self.cfg.channels.keys();
        let mut r: Vec<SlackMsg> = Vec::new();
        let mut i: usize = 0;
        while i < keys.len()
            invariant
                0 <= i <= keys@.len(),
                crate::names::string_views(keys@) == self.cfg.channels.key_seq(),
                r@.len() == i,
                forall|j: int|
                    0 <= j < i ==> (#[trigger] r@[j]) is StatusMsg && r@[j].line().chan@
                        == self.cfg.channels.key_seq()[j] && r@[j].line().msg@
                        == DISCONNECT_NOTICE@ && r@[j].line().nick@ == Seq::<char>::empty(),
            decreases keys@.len() - i,
        {
            let m = PrivMsg {
                chan: keys[i].clone(),
                msg: String::from_str(DISCONNECT_NOTICE),
                nick: String::new(),
            };
            proof {
                assert(keys@[i as int]@ == crate::names::string_views(keys@)[i as int]);
            }
            r.push(SlackMsg::StatusMsg(m));
            i = i + 1;
        }
        r
    }

    /// Offers the disconnect notices to the IRC queue, in order, without
    /// blocking. Gives the number of notices that the queue refused.
    pub fn notify_of_disconnect(&self, to_irc: &mut OutboundQueue<SlackMsg>) -> (dropped: usize)
        ensures
            final(to_irc).slots() == old(to_irc).slots(),
            final(to_irc).is_closed() == old(to_irc).is_closed(),
            final(to_irc).stop_requested() == old(to_irc).stop_requested(),
            exists|ns: Seq<SlackMsg>|
                #![auto]
                self.are_disconnect_notices(ns) && final(to_irc)@ == sent_all(
                    old(to_irc)@,
                    old(to_irc).slots(),
                    old(to_irc).is_closed(),
                    ns,
                ) && dropped == ns.len() - (final(to_irc)@.len() - old(to_irc)@.len()),
    {
        let mut notices = self.disconnect_notices();
        let ghost ns = notices@;
        let ghost start = to_irc@;
        let n = notices.len();
        let mut dropped: usize = 0;
        let mut i: usize = 0;
        while i < n
            invariant
                n == ns.len(),
                0 <= i <= n,
                notices@ == ns.skip(i as int),
                to_irc.slots() == old(to_irc).slots(),
                to_irc.is_closed() == old(to_irc).is_closed(),
                to_irc.stop_requested() == old(to_irc).stop_requested(),
                start == old(to_irc)@,
                to_irc@ == sent_all(start, to_irc.slots(), to_irc.is_closed(), ns.take(i as int)),
                dropped == i - (to_irc@.len() - start.len()),
                to_irc@.len() >= start.len(),
                to_irc@.len() - start.len() <= i,
            decreases n - i,
        {
            let m = notices.remove(0);
            proof {
                assert(ns.take(i + 1).drop_last() =~= ns.take(i as int));
                assert(ns.take(i + 1).last() == m);
                assert(notices@ =~= ns.skip(i + 1));
            }
            match to_irc.try_send(m) {
                Ok(()) => {},
                Err(_) => {
                    dropped = dropped + 1;
                },
            }
            i = i + 1;
        }
        assert(ns.take(n as int) =~= ns);
        dropped
    }
}

#[verifier::external_type_specification]
#[verifier::external_body]
pub struct ExPayload(slack_hook::Payload);

#[verifier::external_type_specification]
#[verifier::external_body]
pub struct ExHookError(slack_hook::Error);

/// The webhook payload that `slack_hook` builds for a channel, a username,
/// a text and an icon emoji.
pub uninterp spec fn payload_of(
    channel: Seq<char>,
    username: Seq<char>,
    text: Seq<char>,
    icon_emoji: Seq<char>,
) -> slack_hook::Payload;

/// Relies on `slack_hook::PayloadBuilder`: the builder starts out `Ok`, the
/// text, channel, username and icon-emoji setters only fill fields, and
/// `build` hands back what was built, so this never fails, and the payload
/// depends on the four strings alone.
#[verifier::external_body]
fn build_payload(post: &SlackPost) -> (r: Result<slack_hook::Payload, slack_hook::Error>)
    ensures
        r is Ok,
        r->Ok_0 == payload_of(post.channel@, post.username@, post.text@, post.icon_emoji@),
{
    slack_hook::PayloadBuilder::new()
        .text(post.text.as_str())
        .channel(post.channel.as_str())
        .username(post.username.as_str())
        .icon_emoji(post.icon_emoji.as_str())
        .build()
}

/// A webhook post for Slack.
pub struct SlackPost {
    pub channel: String,
    pub username: String,
    pub text: String,
    pub icon_emoji: String,
}

/// Turns relay messages from IRC into webhook posts.
pub struct SlackSender {
    /// Its channels map each IRC channel to a Slack channel.
    pub cfg: SlackCfg,
}

impl SlackSender {
    /// A sender for `cfg`, whose Slack-to-IRC channel table is turned around
    /// once, here.
    pub fn new(cfg: SlackCfg) -> (r: SlackSender)
        ensures
            r.cfg.secret == cfg.secret,
            r.cfg.hook_url == cfg.hook_url,
            is_inverse(r.cfg.channels@, cfg.channels@),
    {
        let channels = cfg.channels.inverse();
        SlackSender { cfg: SlackCfg { secret: cfg.secret, hook_url: cfg.hook_url, channels } }
    }

    /// The post for a chat line: to the Slack channel that its IRC channel
    /// maps to, under the author's nick; `None` when the channel is not
    /// mapped.
    pub fn try_slack_msg_from_priv(cfg: &SlackCfg, pmsg: &PrivMsg) -> (r: Option<SlackPost>)
        ensures
            r is Some <==> cfg.channels@.contains_key(pmsg.chan@),
            r is Some ==> r->0.channel@ == cfg.channels@[pmsg.chan@] && r->0.username@
                == pmsg.nick@ && r->0.text@ == pmsg.msg@ && r->0.icon_emoji@ == ICON_EMOJI@,
    {
        let out_chan = match cfg.channels.get(&pmsg.chan) {
            Some(c) => c.clone(),
            None => return None,
        };
        Some(
            SlackPost {
                channel: out_chan,
                username: pmsg.nick.clone(),
                text: pmsg.msg.clone(),
                icon_emoji: String::from_str(ICON_EMOJI),
            },
        )
    }

    /// The post for a relay message, to the Slack channel that its IRC
    /// channel maps to, under the author's nick; `None` when the channel is
    /// not mapped.
    pub fn post_for(&self, msg: &SlackMsg) -> (r: Option<SlackPost>)
        ensures
            r is Some <==> self.cfg.channels@.contains_key(msg.line().chan@),
            r is Some ==> r->0.channel@ == self.cfg.channels@[msg.line().chan@] && r->0.username@
                == msg.line().nick@ && r->0.text@ == slack_text(*msg) && r->0.icon_emoji@
                == ICON_EMOJI@,
    {
        match msg {
            SlackMsg::OutMsg(p) => SlackSender::try_slack_msg_from_priv(&self.cfg, p),
            SlackMsg::ActionMsg(p) => match SlackSender::try_slack_msg_from_priv(&self.cfg, p) {
                Some(post) => Some(
                    SlackPost {
                        channel: post.channel,
                        username: post.username,
                        text: format_action_msg(p),
                        icon_emoji: post.icon_emoji,
                    },
                ),
                None => None,
            },
            SlackMsg::StatusMsg(p) => SlackSender::try_slack_msg_from_priv(&self.cfg, p),
        }
    }

    /// The webhook payload for a relay message: the one built from
    /// [`Self::post_for`]'s post, and `None` when the channel is not mapped.
    pub fn payload_for(&self, msg: &SlackMsg) -> (r: Option<slack_hook::Payload>)
        ensures
            r is Some <==> self.cfg.channels@.contains_key(msg.line().chan@),
            r is Some ==> r->0 == payload_of(
                self.cfg.channels@[msg.line().chan@],
                msg.line().nick@,
                slack_text(*msg),
                ICON_EMOJI@,
            ),
    {
        match self.post_for(msg) {
            Some(post) => match build_payload(&post) {
                Ok(payload) => Some(payload),
                Err(_) => None,
            },
            None => None,
        }
    }
}

/// The payloads that queued relay messages should become: one per message
/// whose channel is mapped, in queue order.
pub open spec fn payloads(q: Seq<SlackMsg>, chans: Map<Seq<char>, Seq<char>>) -> Seq<
    slack_hook::Payload,
>
    decreases q.len(),
{
    if q.len() == 0 {
        Seq::empty()
    } else if chans.contains_key(q[0].line().chan@) {
        seq![
            payload_of(
                chans[q[0].line().chan@],
                q[0].line().nick@,
                slack_text(q[0]),
                ICON_EMOJI@,
            ),
        ] + payloads(q.drop_first(), chans)
    } else {
        payloads(q.drop_first(), chans)
    }
}

impl SlackSender {
    /// Takes every message that is ready in the queue bound for Slack and
    /// gives the payloads to post, in queue order; unmapped messages are
    /// dropped. A pending stop request is taken alone.
    pub fn take_payloads(&self, queue: &mut OutboundQueue<SlackMsg>) -> (r: (
        Vec<slack_hook::Payload>,
        DrainEnd,
    ))
        ensures
            final(queue).slots() == old(queue).slots(),
            final(queue).is_closed() == old(queue).is_closed(),
            !final(queue).stop_requested(),
            old(queue).stop_requested() ==> r.1 is Stop && r.0@.len() == 0 && final(queue)@
                == old(queue)@,
            !old(queue).stop_requested() ==> final(queue)@.len() == 0 && r.0@ == payloads(
                old(queue)@,
                self.cfg.channels@,
            ) && if old(queue).is_closed() {
                r.1 is Shutdown
            } else {
                r.1 is Idle
            },
    {
        let mut out: Vec<slack_hook::Payload> = Vec::new();
        let ghost start = queue@;
        loop
            invariant
                queue.slots() == old(queue).slots(),
                queue.is_closed() == old(queue).is_closed(),
                start == old(queue)@,
                old(queue).stop_requested() ==> queue.stop_requested() && queue@ == start
                    && out@.len() == 0,
                !old(queue).stop_requested() ==> !queue.stop_requested() && out@ + payloads(
                    queue@,
                    self.cfg.channels@,
                ) == payloads(start, self.cfg.channels@),
            decreases queue@.len(),
        {
            let ghost before = queue@;
            let ghost done = out@;
            match queue.recv() {
                Recv::Item(m) => {
                    match self.payload_for(&m) {
                        Some(p) => {
                            out.push(p);
                            proof {
                                assert(done.push(p) + payloads(queue@, self.cfg.channels@)
                                    =~= done + payloads(before, self.cfg.channels@));
                            }
                        },
                        None => {},
                    }
                },
                Recv::Empty => {
                    proof {
                        assert(out@ + payloads(queue@, self.cfg.channels@) =~= out@);
                    }
                    return (out, DrainEnd::Idle);
                },
                Recv::Stop => {
                    return (out, DrainEnd::Stop);
                },
                Recv::Closed => {
                    proof {
                        assert(out@ + payloads(queue@, self.cfg.channels@) =~= out@);
                    }
                    return (out, DrainEnd::Shutdown);
                },
            }
        }
    }
}

/// The text of a relay message on Slack: an ordinary line and a status
/// notice as they are, an emote as `[nick] text`.
pub open spec fn slack_text(m: SlackMsg) -> Seq<char> {
    match m {
        SlackMsg::OutMsg(p) => p.msg@,
        SlackMsg::ActionMsg(p) => action_line(p.nick@, p.msg@),
        SlackMsg::StatusMsg(p) => p.msg@,
    }
}

} // verus!
