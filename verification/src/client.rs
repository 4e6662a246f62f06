//! The daemon's HTTP interface: where each request goes, how long it may take,
//! and what a refused one is reported as.
use vstd::prelude::*;

use crate::daemon::daemon_url;
use crate::text::{decimal, joined, joined3};

verus! {

/// A request the daemon serves. Those about one pull request carry its id.
#[derive(Debug, Clone)]
pub enum Endpoint {
    Health,
    Shutdown,
    Prs,
    PrDetail(String),
    PrDiff(String),
    Refresh,
    Classify(String),
    MarkSeen(String),
    SetupStatus,
    Config,
    ConfigPreview,
    OrgMemberships,
    ValidateConfig,
    PreviewConfigCounts,
    ReloadConfig,
}

/// How long an ordinary request may take, in milliseconds.
pub const REQUEST_TIMEOUT_MS: u64 = 30000;

/// How long classifying may take, in milliseconds: the daemon waits for a
/// language model, and a slow local one needs more than the usual time.
pub const CLASSIFY_TIMEOUT_MS: u64 = 300000;

/// How long the look for a running daemon may take, in milliseconds.
pub const DETECT_TIMEOUT_MS: u64 = 2000;

/// The path of a request about the pull request `id`.
pub open spec fn pr_path(id: Seq<char>, tail: Seq<char>) -> Seq<char> {
    "/prs/"@ + id + tail
}

impl Endpoint {
    pub open spec fn path_text(self) -> Seq<char> {
        match self {
            Endpoint::Health => "/health"@,
            Endpoint::Shutdown => "/shutdown"@,
            Endpoint::Prs => "/prs"@,
            Endpoint::PrDetail(id) => pr_path(id@, ""@),
            Endpoint::PrDiff(id) => pr_path(id@, "/diff"@),
            Endpoint::Refresh => "/prs/refresh"@,
            Endpoint::Classify(id) => pr_path(id@, "/classify"@),
            Endpoint::MarkSeen(id) => pr_path(id@, "/seen"@),
            Endpoint::SetupStatus => "/setup/status"@,
            Endpoint::Config => "/config"@,
            Endpoint::ConfigPreview => "/config/preview"@,
            Endpoint::OrgMemberships => "/setup/memberships"@,
            Endpoint::ValidateConfig => "/config/validate"@,
            Endpoint::PreviewConfigCounts => "/config/preview_counts"@,
            Endpoint::ReloadConfig => "/config/reload"@,
        }
    }

    /// The path below the daemon's address.
    pub fn path(&self) -> (r: String)
        ensures
            r@ == self.path_text(),
    {
        match self {
            Endpoint::Health => "/health".to_owned(),
            Endpoint::Shutdown => "/shutdown".to_owned(),
            Endpoint::Prs => "/prs".to_owned(),
            Endpoint::PrDetail(id) => joined3("/prs/", id.as_str(), ""),
            Endpoint::PrDiff(id) => joined3("/prs/", id.as_str(), "/diff"),
            Endpoint::Refresh => "/prs/refresh".to_owned(),
            Endpoint::Classify(id) => joined3("/prs/", id.as_str(), "/classify"),
            Endpoint::MarkSeen(id) => joined3("/prs/", id.as_str(), "/seen"),
            Endpoint::SetupStatus => "/setup/status".to_owned(),
            Endpoint::Config => "/config".to_owned(),
            Endpoint::ConfigPreview => "/config/preview".to_owned(),
            Endpoint::OrgMemberships => "/setup/memberships".to_owned(),
            Endpoint::ValidateConfig => "/config/validate".to_owned(),
            Endpoint::PreviewConfigCounts => "/config/preview_counts".to_owned(),
            Endpoint::ReloadConfig => "/config/reload".to_owned(),
        }
    }

    pub open spec fn posts(self) -> bool {
        match self {
            Endpoint::Shutdown
            | Endpoint::Refresh
            | Endpoint::Classify(_)
            | Endpoint::MarkSeen(_)
            | Endpoint::ValidateConfig
            | Endpoint::PreviewConfigCounts
            | Endpoint::ReloadConfig => true,
            _ => false,
        }
    }

    /// Whether the request is a POST; the others are GETs.
    pub fn is_post(&self) -> (r: bool)
        ensures
            r == self.posts(),
    {
        match self {
            Endpoint::Shutdown
            | Endpoint::Refresh
            | Endpoint::Classify(_)
            | Endpoint::MarkSeen(_)
            | Endpoint::ValidateConfig
            | Endpoint::PreviewConfigCounts
            | Endpoint::ReloadConfig => true,
            _ => false,
        }
    }

    pub open spec fn time_allowed(self) -> u64 {
        if self is Classify {
            CLASSIFY_TIMEOUT_MS
        } else {
            REQUEST_TIMEOUT_MS
        }
    }

    /// How long the request may take, in milliseconds.
    pub fn timeout_ms(&self) -> (r: u64)
        ensures
            r == self.time_allowed(),
    {
        match self {
            Endpoint::Classify(_) => CLASSIFY_TIMEOUT_MS,
            _ => REQUEST_TIMEOUT_MS,
        }
    }

    pub open spec fn refusal_text(self, status: Seq<char>, body: Seq<char>) -> Seq<char> {
        if self is ReloadConfig {
            body
        } else {
            let method = if self.posts() {
                "POST "@
            } else {
                "GET "@
            };
            method + self.path_text() + " failed ("@ + status + "): "@ + body
        }
    }

    /// What a reply with an unsuccessful `status` is reported as: the request,
    /// the status and the reply's text. A refused reload shows the daemon's
    /// own words alone.
    pub fn refusal(&self, status: &str, body: &str) -> (r: String)
        ensures
            r@ == self.refusal_text(status@, body@),
    {
        match self {
            Endpoint::ReloadConfig => ConfigReloadError { body: body.to_owned() }.message(),
            _ => {
                let method = if self.is_post() {
                    "POST "
                } else {
                    "GET "
                };
                let asked = joined3(method, self.path().as_str(), " failed (");
                joined(joined3(asked.as_str(), status, "): ").as_str(), body)
            },
        }
    }
}

/// The daemon refused to reload its configuration; `body` says why.
#[derive(Debug, Clone)]
pub struct ConfigReloadError {
    pub body: String,
}

impl ConfigReloadError {
    /// The daemon's own words.
    pub fn message(&self) -> (r: String)
        ensures
            r@ == self.body@,
    {
        self.body.as_str().to_owned()
    }
}

/// Where the daemon is reached.
#[derive(Debug, Clone)]
pub struct DaemonClient {
    base_url: String,
}

impl DaemonClient {
    pub closed spec fn base(self) -> Seq<char> {
        self.base_url@
    }

    /// The daemon on `port` of this machine.
    pub fn new(port: u16) -> (r: DaemonClient)
        ensures
            r.base() == "http://127.0.0.1:"@ + decimal(port as nat),
    {
        DaemonClient { base_url: daemon_url(port) }
    }

    pub fn base_url(&self) -> (r: &str)
        ensures
            r@ == self.base(),
    {
        self.base_url.as_str()
    }

    /// The address that `endpoint` is asked at.
    pub fn url(&self, endpoint: &Endpoint) -> (r: String)
        ensures
            r@ == self.base() + endpoint.path_text(),
    {
        joined(self.base_url.as_str(), endpoint.path().as_str())
    }
}

} // verus!
