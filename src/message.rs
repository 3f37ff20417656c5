use vstd::prelude::*;

verus! {

/// A line of text addressed to one channel, with no sender attached.
#[derive(Debug)]
pub struct TransMsg {
    pub chan: String,
    pub text: String,
}

/// One chat line: who wrote it, in which channel, and what was written.
#[derive(Debug)]
pub struct PrivMsg {
    pub nick: String,
    pub chan: String,
    pub msg: String,
}

/// Commands that travel between the parts of an IRC client.
#[derive(Debug)]
pub enum Msg {
    IrcInMsg(PrivMsg),
    IrcOutMsg(PrivMsg),
    TranMsg(TransMsg),
    ResetIrc,
    Shutdown,
}

/// A relay message. The variant is its kind: an ordinary line, an
/// emote (`/me ...`), or a status notice made up by the relay itself.
#[derive(Debug)]
pub enum SlackMsg {
    OutMsg(PrivMsg),
    ActionMsg(PrivMsg),
    StatusMsg(PrivMsg),
}

impl SlackMsg {
    /// The chat line that the message carries, whatever its kind.
    pub open spec fn line(self) -> PrivMsg {
        match self {
            SlackMsg::OutMsg(m) => m,
            SlackMsg::ActionMsg(m) => m,
            SlackMsg::StatusMsg(m) => m,
        }
    }
}

/// The readable form of a chat line: `[nick] -> chan: msg`.
pub open spec fn display_text(nick: Seq<char>, chan: Seq<char>, msg: Seq<char>) -> Seq<char> {
    "["@ + nick + "] -> "@ + chan + ": "@ + msg
}

impl PrivMsg {
    /// Renders the line for logs as `[nick] -> chan: msg`.
    pub fn to_string(&self) -> (r: String)
        ensures
            r@ == display_text(self.nick@, self.chan@, self.msg@),
    {
        let mut s = String::from_str("[");
        s.append(self.nick.as_str());
        s.append("] -> ");
        s.append(self.chan.as_str());
        s.append(": ");
        s.append(self.msg.as_str());
        s
    }
}

} // verus!
