use crate::message::{PrivMsg, SlackMsg};
use crate::names::{clone_opt, clone_strings, string_views, NameMap};
use vstd::prelude::*;

verus! {

/// Seconds between the client's pings, and seconds it waits for an answer.
pub const PING_SECS: u32 = 5;

/// A channel on the IRC side, with nicks whose lines it does not relay.
pub struct IrcChan {
    pub ignored_nicks: Vec<String>,
    pub target_chan: String,
}

/// How to reach and identify with the IRC server.
pub struct IrcCfg {
    pub host: String,
    pub port: u16,
    pub nick: String,
    pub alt_nicks: Option<Vec<String>>,
    pub user: String,
    pub pass: Option<String>,
    pub use_ssl: Option<bool>,
    /// IRC channel to Slack channel. The keys are the channels to join.
    pub channels: NameMap,
}

/// The settings handed to the IRC client library for one connection.
pub struct ConnSettings {
    pub nickname: String,
    pub alt_nicks: Option<Vec<String>>,
    pub server: String,
    pub port: u16,
    pub channels: Vec<String>,
    pub use_ssl: bool,
    pub ping_time: u32,
    pub ping_timeout: u32,
    pub password: Option<String>,
}

impl IrcCfg {
    /// The client settings for this configuration: every mapped IRC channel
    /// is joined, TLS is on unless switched off, and pings go every
    /// [`PING_SECS`] seconds.
    pub fn conn_from_cfg(&self) -> (r: ConnSettings)
        ensures
            r.nickname@ == self.nick@,
            r.alt_nicks is Some == self.alt_nicks is Some,
            r.alt_nicks is Some ==> r.alt_nicks->0@ == self.alt_nicks->0@,
            r.server@ == self.host@,
            r.port == self.port,
            string_views(r.channels@) == self.channels.key_seq(),
            r.use_ssl == match self.use_ssl {
                Some(b) => b,
                None => true,
            },
            r.ping_time == PING_SECS,
            r.ping_timeout == PING_SECS,
            r.password == self.pass,
    {
        let alt_nicks = match &self.alt_nicks {
            Some(v) => Some(clone_strings(v)),
            None => None,
        };
        let use_ssl = match self.use_ssl {
            Some(b) => b,
            None => true,
        };
        ConnSettings {
            nickname: self.nick.clone(),
            alt_nicks,
            server: self.host.clone(),
            port: self.port,
            channels: self.channels.keys(),
            use_ssl,
            ping_time: PING_SECS,
            ping_timeout: PING_SECS,
            password: clone_opt(&self.pass),
        }
    }
}

/// Why a connection attempt to the IRC server ended. The strings carry the
/// client library's description of the error.
#[derive(Debug)]
pub enum IrcFailure {
    /// The server closed the connection or the stream failed.
    Disconnect,
    /// The server sent an ERROR frame.
    Error(String),
    /// The transport could not be set up (DNS, TCP, TLS).
    Connection(String),
    /// The client library refused the settings.
    BadConf(String),
    /// The handshake was rejected.
    CantIdentify(String),
    /// The queue's producers have shut down.
    Shutdown,
}

/// The kind of an [`IrcFailure`], without its details.
#[derive(Clone, Copy, Debug, PartialEq, Eq, Structural)]
pub enum FailureKind {
    Disconnect,
    Error,
    Connection,
    BadConf,
    CantIdentify,
    Shutdown,
}

impl FailureKind {
    /// Failures that are retried after a back-off; all others end the manager.
    pub open spec fn is_recoverable(self) -> bool {
        self == FailureKind::Disconnect || self == FailureKind::Connection
    }
}

impl IrcFailure {
    pub open spec fn kind_of(&self) -> FailureKind {
        match self {
            IrcFailure::Disconnect => FailureKind::Disconnect,
            IrcFailure::Error(_) => FailureKind::Error,
            IrcFailure::Connection(_) => FailureKind::Connection,
            IrcFailure::BadConf(_) => FailureKind::BadConf,
            IrcFailure::CantIdentify(_) => FailureKind::CantIdentify,
            IrcFailure::Shutdown => FailureKind::Shutdown,
        }
    }

    /// The kind of this failure.
    pub fn kind(&self) -> (k: FailureKind)
        ensures
            k == self.kind_of(),
    {
        match self {
            IrcFailure::Disconnect => FailureKind::Disconnect,
            IrcFailure::Error(_) => FailureKind::Error,
            IrcFailure::Connection(_) => FailureKind::Connection,
            IrcFailure::BadConf(_) => FailureKind::BadConf,
            IrcFailure::CantIdentify(_) => FailureKind::CantIdentify,
            IrcFailure::Shutdown => FailureKind::Shutdown,
        }
    }
}

/// The command of an inbound IRC message, as far as the relay reads it.
#[derive(Debug)]
pub enum IrcCommand {
    /// `PRIVMSG target :text`
    Privmsg(String, String),
    /// `ERROR :text`
    Error(String),
    /// Anything else.
    Other,
}

/// An inbound IRC message: the nick of its source, if it has one, and its
/// command.
#[derive(Debug)]
pub struct IrcEvent {
    pub source_nick: Option<String>,
    pub command: IrcCommand,
}

/// What an inbound IRC message means to the relay.
#[derive(Debug)]
pub enum Incoming {
    /// A line to pass on to Slack.
    ForwardMsg(SlackMsg),
    /// The server reported an error.
    Error(String),
}

/// An outbound `PRIVMSG`.
#[derive(Debug)]
pub struct PrivmsgCmd {
    pub target: String,
    pub text: String,
}

/// The CTCP marker that opens an emote: `\x01ACTION`.
pub open spec fn action_marker() -> Seq<char> {
    seq!['\x01', 'A', 'C', 'T', 'I', 'O', 'N']
}

/// Whether a line is an emote.
pub open spec fn is_action(msg: Seq<char>) -> bool {
    msg.len() >= 7 && msg.take(7) == action_marker()
}

/// The text of an emote: what follows the marker and the character after it.
pub open spec fn action_text(msg: Seq<char>) -> Seq<char> {
    if msg.len() >= 8 {
        msg.skip(8)
    } else {
        Seq::empty()
    }
}

/// `r` is the relay message for a `PRIVMSG` from `nick` to `target`.
pub open spec fn forwards(nick: String, target: String, msg: String, r: Incoming) -> bool {
    if is_action(msg@) {
        r matches Incoming::ForwardMsg(SlackMsg::ActionMsg(m)) && m.nick == nick && m.chan
            == target && m.msg@ == action_text(msg@)
    } else {
        r == Incoming::ForwardMsg(SlackMsg::OutMsg(PrivMsg { nick, chan: target, msg }))
    }
}

/// Turns a `PRIVMSG` into a relay message: an emote when it opens with the
/// CTCP `ACTION` marker, which is cut off with the character after it, else
/// an ordinary line.
pub fn handle_privmsg(nick: String, target: String, msg: String) -> (r: Incoming)
    ensures
        forwards(nick, target, msg, r),
{
    let s = msg.as_str();
    let n = s.unicode_len();
    let action = n >= 7 && s.get_char(0) == '\x01' && s.get_char(1) == 'A' && s.get_char(2) == 'C'
        && s.get_char(3) == 'T' && s.get_char(4) == 'I' && s.get_char(5) == 'O' && s.get_char(6)
        == 'N';
    proof {
        if n >= 7 {
            if action {
                assert(msg@.take(7) =~= action_marker());
            } else {
                assert(msg@.take(7) != action_marker()) by {
                    if msg@.take(7) == action_marker() {
                        assert(msg@[0] == msg@.take(7)[0]);
                        assert(msg@[1] == msg@.take(7)[1]);
                        assert(msg@[2] == msg@.take(7)[2]);
                        assert(msg@[3] == msg@.take(7)[3]);
                        assert(msg@[4] == msg@.take(7)[4]);
                        assert(msg@[5] == msg@.take(7)[5]);
                        assert(msg@[6] == msg@.take(7)[6]);
                    }
                }
            }
        }
    }
    if action {
        let from: usize = if n >= 8 {
            8
        } else {
            n
        };
        let text = String::from_str(s.substring_char(from, n));
        assert(text@ =~= action_text(msg@));
        Incoming::ForwardMsg(SlackMsg::ActionMsg(PrivMsg { nick, chan: target, msg: text }))
    } else {
        Incoming::ForwardMsg(SlackMsg::OutMsg(PrivMsg { nick, chan: target, msg }))
    }
}

/// Picks out the inbound messages that matter to the relay: a `PRIVMSG` with
/// a source nick becomes a relay message, an `ERROR` becomes an error, and
/// everything else is ignored.
pub fn handle_irc_msg(irc_msg: IrcEvent) -> (r: Option<Incoming>)
    ensures
        match irc_msg.command {
            IrcCommand::Privmsg(target, msg) => match irc_msg.source_nick {
                Some(nick) => r is Some && forwards(nick, target, msg, r->0),
                None => r is None,
            },
            IrcCommand::Error(e) => r == Some(Incoming::Error(e)),
            IrcCommand::Other => r is None,
        },
{
    match irc_msg.command {
        IrcCommand::Privmsg(target, msg) => match irc_msg.source_nick {
            Some(nick) => Some(handle_privmsg(nick, target, msg)),
            None => None,
        },
        IrcCommand::Error(e) => Some(Incoming::Error(e)),
        IrcCommand::Other => None,
    }
}

/// `[nick]: text`, an ordinary line as IRC shows it.
pub open spec fn out_text(nick: Seq<char>, msg: Seq<char>) -> Seq<char> {
    "["@ + nick + "]: "@ + msg
}

/// `[nick] text`, an emote as IRC shows it.
pub open spec fn action_line(nick: Seq<char>, msg: Seq<char>) -> Seq<char> {
    "["@ + nick + "] "@ + msg
}

/// The IRC text of a relay message: a status notice goes out as it is.
pub open spec fn relay_text(m: SlackMsg) -> Seq<char> {
    match m {
        SlackMsg::OutMsg(p) => out_text(p.nick@, p.msg@),
        SlackMsg::ActionMsg(p) => action_line(p.nick@, p.msg@),
        SlackMsg::StatusMsg(p) => p.msg@,
    }
}

fn format_out_msg(m: &PrivMsg) -> (r: String)
    ensures
        r@ == out_text(m.nick@, m.msg@),
{
    let mut s = String::from_str("[");
    s.append(m.nick.as_str());
    s.append("]: ");
    s.append(m.msg.as_str());
    s
}

pub(crate) fn format_action_msg(m: &PrivMsg) -> (r: String)
    ensures
        r@ == action_line(m.nick@, m.msg@),
{
    let mut s = String::from_str("[");
    s.append(m.nick.as_str());
    s.append("] ");
    s.append(m.msg.as_str());
    s
}

fn format_status_msg(m: &PrivMsg) -> (r: String)
    ensures
        r@ == m.msg@,
{
    m.msg.clone()
}

/// Translates a relay message into the `PRIVMSG` for the IRC channel that
/// `chans` maps its channel to; `None` when the channel is not mapped.
pub fn handle_slack_msg(slack_msg: &SlackMsg, chans: &NameMap) -> (r: Option<PrivmsgCmd>)
    ensures
        r is Some <==> chans@.contains_key(slack_msg.line().chan@),
        r is Some ==> r->0.target@ == chans@[slack_msg.line().chan@] && r->0.text@ == relay_text(
            *slack_msg,
        ),
{
    let target = match slack_msg {
        SlackMsg::OutMsg(m) => chans.get(&m.chan),
        SlackMsg::ActionMsg(m) => chans.get(&m.chan),
        SlackMsg::StatusMsg(m) => chans.get(&m.chan),
    };
    let target = match target {
        Some(t) => t.clone(),
        None => return None,
    };
    let text = match slack_msg {
        SlackMsg::OutMsg(m) => format_out_msg(m),
        SlackMsg::ActionMsg(m) => format_action_msg(m),
        SlackMsg::StatusMsg(m) => format_status_msg(m),
    };
    Some(PrivmsgCmd { target, text })
}

} // verus!
