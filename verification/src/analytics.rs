//! Product analytics: the event names, and whether events go to PostHog or
//! nowhere.

use vstd::prelude::*;
use crate::text::{concat, to_owned_str};

verus! {

pub const EVENT_USER_REGISTERED: &'static str = "user_registered";

pub const EVENT_USER_LOGIN: &'static str = "user_login";

pub const EVENT_TEAM_CREATED: &'static str = "team_created";

pub const EVENT_DEPLOYMENT_CREATED: &'static str = "deployment_created";

pub const EVENT_DEPLOY_SUCCEEDED: &'static str = "deploy_succeeded";

pub const EVENT_DEPLOY_FAILED: &'static str = "deploy_failed";

pub const EVENT_DEPLOYMENT_SCALED: &'static str = "deployment_scaled";

pub const EVENT_DEPLOYMENT_DELETED: &'static str = "deployment_deleted";

pub const EVENT_DOMAIN_ADDED: &'static str = "domain_added";

pub const EVENT_ROLLOUT_STARTED: &'static str = "rollout_started";

/// The PostHog host used when none is configured.
pub const DEFAULT_POSTHOG_HOST: &'static str = "https://us.i.posthog.com";

/// Where PostHog events are sent, and with which key.
pub struct AnalyticsClient {
    pub api_key: String,
    pub host: String,
}

impl AnalyticsClient {
    /// A client for `api_key`; the host defaults to
    /// `https://us.i.posthog.com`.
    pub fn new(api_key: &str, host: Option<&str>) -> (res: Self)
        ensures
            res.api_key@ == api_key@,
            res.host@ == match host {
                Some(h) => h@,
                None => DEFAULT_POSTHOG_HOST@,
            },
    {
        let h = match host {
            Some(h) => h,
            None => DEFAULT_POSTHOG_HOST,
        };
        AnalyticsClient { api_key: to_owned_str(api_key), host: to_owned_str(h) }
    }

    /// The URL events are posted to: the host followed by `/capture/`.
    pub fn capture_url(&self) -> (res: String)
        ensures
            res@ == self.host@ + "/capture/"@,
    {
        concat(self.host.as_str(), "/capture/")
    }
}

/// Analytics facade: a live PostHog client, or nothing.
pub enum AnalyticsService {
    Active(AnalyticsClient),
    Noop,
}

impl AnalyticsService {
    /// A live client for a non-empty key (default host), else `Noop`.
    pub fn from_env(api_key: Option<&str>) -> (res: Self)
        ensures
            match api_key {
                Some(k) if k@.len() > 0 => res matches AnalyticsService::Active(c) && c.api_key@
                    == k@ && c.host@ == DEFAULT_POSTHOG_HOST@,
                _ => res is Noop,
            },
    {
        match api_key {
            Some(key) => {
                if key.is_empty() {
                    AnalyticsService::Noop
                } else {
                    AnalyticsService::Active(AnalyticsClient::new(key, None))
                }
            },
            None => AnalyticsService::Noop,
        }
    }
}

} // verus!
