use crate::message::Msg;
use crate::names::str_eq;
use vstd::prelude::*;

verus! {

/// A connection to an IRC server under one nick, as a broker drives it.
/// Implemented by the program for each client it opens.
pub trait IrcHandler: Sized {
    fn current_nick(&self) -> &str;

    fn change_nick(&self, new_nick: &str) -> Result<(), String>;

    fn send_msg(&self, msg: &str, chan: &str) -> Result<(), String>;
}

/// What a broker did with one message.
#[derive(Debug)]
pub enum Dispatch {
    /// The client at this index sent it.
    Sent(usize),
    /// The client at this index failed to send it, for this reason.
    Failed(usize, String),
    /// No client uses the message's nick.
    NoClient,
    /// The message is not one that a client sends.
    Ignored,
}

/// The index of the first of `nicks` that is `nick`.
pub fn route(nicks: &Vec<String>, nick: &str) -> (r: Option<usize>)
    ensures
        match r {
            Some(i) => i < nicks@.len() && nicks@[i as int]@ == nick@ && forall|j: int|
                0 <= j < i ==> (#[trigger] nicks@[j])@ != nick@,
            None => forall|j: int| 0 <= j < nicks@.len() ==> (#[trigger] nicks@[j])@ != nick@,
        },
{
    let mut i: usize = 0;
    while i < nicks.len()
        invariant
            0 <= i <= nicks@.len(),
            forall|j: int| 0 <= j < i ==> (#[trigger] nicks@[j])@ != nick@,
        decreases nicks@.len() - i,
    {
        if str_eq(nicks[i].as_str(), nick) {
            return Some(i);
        }
        i = i + 1;
    }
    None
}

/// Hands outbound lines to the IRC client that speaks under their nick.
pub struct IrcBroker<T> {
    clients: std::collections::VecDeque<T>,
}

impl<T: IrcHandler> IrcBroker<T> {
    /// The clients, in the order in which they are tried.
    pub closed spec fn client_seq(&self) -> Seq<T> {
        self.clients@
    }

    /// A broker over `clients`.
    pub fn new(clients: std::collections::VecDeque<T>) -> (r: IrcBroker<T>)
        ensures
            r.client_seq() == clients@,
    {
        IrcBroker { clients }
    }

    /// Sends an outbound line, given the nicks that the clients report, in
    /// the clients' order: through the first client whose nick is the line's
    /// nick, to the line's channel. Other messages are ignored.
    pub fn send_routed(&self, nicks: &Vec<String>, msg: &Msg) -> (r: Dispatch)
        ensures
            match *msg {
                Msg::IrcOutMsg(p) => match r {
                    Dispatch::Sent(i) => is_first_with(nicks@, self.client_seq().len(), i, p.nick@),
                    Dispatch::Failed(i, _) => is_first_with(
                        nicks@,
                        self.client_seq().len(),
                        i,
                        p.nick@,
                    ),
                    Dispatch::NoClient => forall|j: int|
                        0 <= j < nicks@.len() && j < self.client_seq().len() ==> (
                        #[trigger] nicks@[j])@ != p.nick@,
                    Dispatch::Ignored => false,
                },
                _ => r is Ignored,
            },
    {
        let p = match msg {
            Msg::IrcOutMsg(p) => p,
            _ => return Dispatch::Ignored,
        };
        match route(nicks, p.nick.as_str()) {
            Some(i) => if i < self.clients.len() {
                match self.clients[i].send_msg(p.msg.as_str(), p.chan.as_str()) {
                    Ok(()) => Dispatch::Sent(i),
                    Err(e) => Dispatch::Failed(i, e),
                }
            } else {
                Dispatch::NoClient
            },
            None => Dispatch::NoClient,
        }
    }

    /// Sends an outbound line through the first client whose current nick is
    /// the line's nick, to the line's channel: asks each client for its nick,
    /// then does what [`Self::send_routed`] does with those nicks.
    pub fn handle_msg(&self, msg: &Msg) -> (r: Dispatch)
        ensures
            msg is IrcOutMsg <==> !(r is Ignored),
            r matches Dispatch::Sent(i) ==> i < self.client_seq().len(),
            r matches Dispatch::Failed(i, _) ==> i < self.client_seq().len(),
    {
        match msg {
            Msg::IrcOutMsg(_) => {},
            _ => return Dispatch::Ignored,
        }
        let mut nicks: Vec<String> = Vec::new();
        let mut k: usize = 0;
        while k < self.clients.len()
            invariant
                0 <= k <= self.clients@.len(),
                nicks@.len() == k,
            decreases self.clients@.len() - k,
        {
            nicks.push(String::from_str(self.clients[k].current_nick()));
            k = k + 1;
        }
        self.send_routed(&nicks, msg)
    }
}

/// `i` is a client's index, and the first index at which `nicks` holds
/// `nick`.
pub open spec fn is_first_with(nicks: Seq<String>, clients: nat, i: usize, nick: Seq<char>) -> bool {
    &&& i < clients
    &&& i < nicks.len()
    &&& nicks[i as int]@ == nick
    &&& forall|j: int| 0 <= j < i ==> (#[trigger] nicks[j])@ != nick
}

} // verus!
