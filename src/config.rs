use crate::irc::IrcCfg;
use crate::slack_client::SlackCfg;
use vstd::prelude::*;

verus! {

/// The two sides' settings, each with its own channel table.
pub struct Cfg {
    pub irc: IrcCfg,
    pub slack: SlackCfg,
}

} // verus!
