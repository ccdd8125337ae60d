//! Settings of the SEA agent runtime.
use vstd::prelude::*;

verus! {

/// Main settings.
#[derive(Debug, Clone)]
pub struct SeaConfig {
    /// Where session files are kept.
    pub session_store_path: String,
    pub router: RouterConfig,
    pub server_defaults: ServerDefaults,
}

/// Router settings.
#[derive(Debug, Clone)]
pub struct RouterConfig {
    pub max_hops: u32,
    /// Seconds a draining server is given.
    pub drain_timeout: u64,
    pub classifier_type: ClassifierType,
}

/// How messages are classified.
#[derive(Debug, Clone, Copy, PartialEq, Eq, Structural)]
pub enum ClassifierType {
    /// Rule based.
    RuleBased,
    /// Always the same answer (for tests).
    Mock { default_organic: bool },
}

/// Settings servers start with.
#[derive(Debug, Clone, Copy, PartialEq, Eq, Structural)]
pub struct ServerDefaults {
    pub heartbeat_interval_secs: u64,
    pub heartbeat_timeout_secs: u64,
    pub failure_suspect_threshold: u32,
}

/// The default settings, apart from the session path.
pub open spec fn is_default_except_path(c: SeaConfig) -> bool {
    &&& c.router.max_hops == 10
    &&& c.router.drain_timeout == 300
    &&& c.router.classifier_type == ClassifierType::RuleBased
    &&& c.server_defaults == (ServerDefaults {
        heartbeat_interval_secs: 5,
        heartbeat_timeout_secs: 30,
        failure_suspect_threshold: 3,
    })
}

impl Default for SeaConfig {
    /// Sessions under `./sessions`, ten hops, a five-minute drain, rule-based
    /// classification; heartbeats every five seconds, thirty to time out,
    /// three misses to suspect failure.
    fn default() -> (c: Self)
        ensures
            c.session_store_path@ == "./sessions"@,
            is_default_except_path(c),
    {
        SeaConfig {
            session_store_path: crate::text::string_from("./sessions"),
            router: RouterConfig {
                max_hops: 10,
                drain_timeout: 300,
                classifier_type: ClassifierType::RuleBased,
            },
            server_defaults: ServerDefaults {
                heartbeat_interval_secs: 5,
                heartbeat_timeout_secs: 30,
                failure_suspect_threshold: 3,
            },
        }
    }
}

impl SeaConfig {
    /// The settings with the mock classifier, which takes every message as
    /// organic.
    pub fn with_mock_classifier(self) -> (c: Self)
        ensures
            c.router.classifier_type == (ClassifierType::Mock { default_organic: true }),
            c.router.max_hops == self.router.max_hops,
            c.router.drain_timeout == self.router.drain_timeout,
            c.session_store_path == self.session_store_path,
            c.server_defaults == self.server_defaults,
    {
        let mut c = self;
        c.router.classifier_type = ClassifierType::Mock { default_organic: true };
        c
    }
}

} // verus!
