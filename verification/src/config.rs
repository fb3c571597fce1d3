//! The settings of a run, with their defaults, and the rule that decides
//! whether a pass is worth a mail.

use vstd::prelude::*;

verus! {

/// The seconds between two passes where the configuration names none.
pub const DEFAULT_INTERVAL: u64 = 600;

/// Where mails about notable passes go, and whether any are sent.
#[derive(Clone, Debug, PartialEq, Eq)]
pub struct NotificationConfig {
    pub enabled: bool,
    pub from: String,
    pub to: String,
}

/// The settings of a run.
#[derive(Clone, Debug, PartialEq, Eq)]
pub struct Config {
    pub token: String,
    pub interval: Option<u64>,
    pub endpoint: Option<String>,
    pub notification: Option<NotificationConfig>,
}

/// The discovery endpoint that is asked where the configuration names none.
pub open spec fn default_endpoint() -> Seq<char> {
    "https://api.ipify.org"@
}

impl Config {
    /// Whether a pass leads to a mail: notifications are configured and
    /// enabled, and the pass is notable.
    pub open spec fn sends_mail(&self, notable: bool) -> bool {
        self.notification is Some && self.notification->0.enabled && notable
    }

    /// The seconds between two passes: the configured interval, or the
    /// default.
    pub fn interval_seconds(&self) -> (seconds: u64)
        ensures
            seconds == match self.interval {
                Some(interval) => interval,
                None => DEFAULT_INTERVAL,
            },
    {
        match self.interval {
            Some(interval) => interval,
            None => DEFAULT_INTERVAL,
        }
    }

    /// The discovery endpoint to ask: the configured one, or the default.
    pub fn endpoint_url(&self) -> (url: String)
        ensures
            url@ == match self.endpoint {
                Some(endpoint) => endpoint@,
                None => default_endpoint(),
            },
    {
        match &self.endpoint {
            Some(endpoint) => endpoint.clone(),
            None => "https://api.ipify.org".to_owned(),
        }
    }

    /// The notification settings to send a mail with after a pass, if the
    /// pass leads to one.
    pub fn mail_for(&self, notable: bool) -> (settings: Option<&NotificationConfig>)
        ensures
            settings is Some <==> self.sends_mail(notable),
            settings matches Some(found) ==> *found == self.notification->0,
    {
        match &self.notification {
            Some(found) => {
                if found.enabled && notable {
                    Some(found)
                } else {
                    None
                }
            },
            None => None,
        }
    }
}

} // verus!
