use crate::irc::IrcCfg;
use crate::names::{is_inverse, NameMap};
use crate::slack_client::SlackCfg;
use vstd::prelude::*;

verus! {

/// The bridge's configuration as it is written down: one table of channel
/// pairs serves both directions.
pub struct Cfg {
    pub irc_cfg: IrcCfg,
    pub slack_cfg: SlackCfg,
    /// IRC channel to Slack channel.
    pub channels: NameMap,
}

impl Cfg {
    /// Splits the configuration into the two sides' settings. The IRC side
    /// gets the channel table as written; the Slack side gets it turned
    /// around, Slack channel to IRC channel.
    pub fn get_cfg(self) -> (r: (IrcCfg, SlackCfg))
        ensures
            r.0.host == self.irc_cfg.host,
            r.0.port == self.irc_cfg.port,
            r.0.nick == self.irc_cfg.nick,
            r.0.alt_nicks == self.irc_cfg.alt_nicks,
            r.0.user == self.irc_cfg.user,
            r.0.pass == self.irc_cfg.pass,
            r.0.use_ssl == self.irc_cfg.use_ssl,
            r.0.channels@ == self.channels@,
            r.1.secret == self.slack_cfg.secret,
            r.1.hook_url == self.slack_cfg.hook_url,
            is_inverse(r.1.channels@, self.channels@),
    {
        let Cfg { mut irc_cfg, mut slack_cfg, channels } = self;
        slack_cfg.channels = channels.inverse();
        irc_cfg.channels = channels;
        (irc_cfg, slack_cfg)
    }
}

} // verus!
