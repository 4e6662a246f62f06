//! The configuration.
use vstd::prelude::*;

use crate::markdown::opt_text;
use crate::split::{copy_texts, texts};

verus! {

/// One precise watch target: an organisation or a repository, and which of
/// its pull requests to show.
#[derive(Debug)]
pub struct GithubTarget {
    pub org: Option<String>,
    pub repo: Option<String>,
    pub direct_review_requests: bool,
    pub team_review_requests: Vec<String>,
    pub include_authored: bool,
    pub include_involved: bool,
}

#[verifier::ext_equal]
pub struct TargetView {
    pub org: Option<Seq<char>>,
    pub repo: Option<Seq<char>>,
    pub direct_review_requests: bool,
    pub team_review_requests: Seq<Seq<char>>,
    pub include_authored: bool,
    pub include_involved: bool,
}

impl View for GithubTarget {
    type V = TargetView;

    open spec fn view(&self) -> TargetView {
        TargetView {
            org: opt_text(self.org),
            repo: opt_text(self.repo),
            direct_review_requests: self.direct_review_requests,
            team_review_requests: texts(self.team_review_requests@),
            include_authored: self.include_authored,
            include_involved: self.include_involved,
        }
    }
}

/// A copy of an optional text.
pub fn copy_opt(s: &Option<String>) -> (r: Option<String>)
    ensures
        opt_text(r) == opt_text(*s),
{
    match s {
        Some(t) => Some(t.clone()),
        None => None,
    }
}

impl GithubTarget {
    pub fn copy(&self) -> (r: GithubTarget)
        ensures
            r@ == self@,
    {
        GithubTarget {
            org: copy_opt(&self.org),
            repo: copy_opt(&self.repo),
            direct_review_requests: self.direct_review_requests,
            team_review_requests: copy_texts(&self.team_review_requests),
            include_authored: self.include_authored,
            include_involved: self.include_involved,
        }
    }
}

pub open spec fn targets_view(targets: Seq<GithubTarget>) -> Seq<TargetView> {
    targets.map_values(|t: GithubTarget| t@)
}

/// A copy of a list of targets.
pub fn copy_targets(targets: &Vec<GithubTarget>) -> (r: Vec<GithubTarget>)
    ensures
        targets_view(r@) == targets_view(targets@),
{
    let mut out: Vec<GithubTarget> = Vec::new();
    let mut i: usize = 0;
    while i < targets.len()
        invariant
            i <= targets@.len(),
            out@.len() == i,
            forall|k: int| 0 <= k < i ==> (#[trigger] out@[k])@ == targets@[k]@,
        decreases targets@.len() - i,
    {
        out.push(targets[i].copy());
        i += 1;
    }
    proof {
        assert(targets_view(out@) =~= targets_view(targets@));
    }
    out
}

#[derive(Debug)]
pub struct GithubConfig {
    pub watch: Vec<String>,
    pub targets: Vec<GithubTarget>,
    pub poll_interval: u64,
}

#[derive(Debug, Clone, Copy, PartialEq, Eq, Structural)]
pub struct DaemonConfig {
    pub port: u16,
    pub kill_on_tui_exit: bool,
}

#[derive(Debug)]
pub struct LlmConfig {
    pub enabled: bool,
    pub provider: String,
    pub endpoint: String,
    pub api_key: String,
    pub model: String,
    pub classify_on_change: bool,
    pub max_output_tokens: u32,
}

#[derive(Debug, Clone, Copy, PartialEq, Eq, Structural)]
pub struct TuiConfig {
    pub show_line_numbers: bool,
}

#[derive(Debug)]
pub struct Config {
    pub github: GithubConfig,
    pub daemon: DaemonConfig,
    pub llm: LlmConfig,
    pub tui: TuiConfig,
}

#[verifier::ext_equal]
pub struct LlmView {
    pub enabled: bool,
    pub provider: Seq<char>,
    pub endpoint: Seq<char>,
    pub api_key: Seq<char>,
    pub model: Seq<char>,
    pub classify_on_change: bool,
    pub max_output_tokens: u32,
}

#[verifier::ext_equal]
pub struct ConfigView {
    pub watch: Seq<Seq<char>>,
    pub targets: Seq<TargetView>,
    pub poll_interval: u64,
    pub daemon: DaemonConfig,
    pub llm: LlmView,
    pub tui: TuiConfig,
}

impl View for Config {
    type V = ConfigView;

    open spec fn view(&self) -> ConfigView {
        ConfigView {
            watch: texts(self.github.watch@),
            targets: targets_view(self.github.targets@),
            poll_interval: self.github.poll_interval,
            daemon: self.daemon,
            llm: LlmView {
                enabled: self.llm.enabled,
                provider: self.llm.provider@,
                endpoint: self.llm.endpoint@,
                api_key: self.llm.api_key@,
                model: self.llm.model@,
                classify_on_change: self.llm.classify_on_change,
                max_output_tokens: self.llm.max_output_tokens,
            },
            tui: self.tui,
        }
    }
}

/// The configuration of a machine without a configuration file.
pub open spec fn default_config() -> ConfigView {
    ConfigView {
        watch: Seq::empty(),
        targets: Seq::empty(),
        poll_interval: 300,
        daemon: DaemonConfig { port: 17890, kill_on_tui_exit: false },
        llm: LlmView {
            enabled: false,
            provider: "lm_studio"@,
            endpoint: Seq::empty(),
            api_key: Seq::empty(),
            model: Seq::empty(),
            classify_on_change: true,
            max_output_tokens: 4096,
        },
        tui: TuiConfig { show_line_numbers: true },
    }
}

impl Default for Config {
    fn default() -> (r: Self)
        ensures
            r@ == default_config(),
    {
        let r = Config {
            github: GithubConfig { watch: Vec::new(), targets: Vec::new(), poll_interval: 300 },
            daemon: DaemonConfig { port: 17890, kill_on_tui_exit: false },
            llm: LlmConfig {
                enabled: false,
                provider: "lm_studio".to_owned(),
                endpoint: String::new(),
                api_key: String::new(),
                model: String::new(),
                classify_on_change: true,
                max_output_tokens: 4096,
            },
            tui: TuiConfig { show_line_numbers: true },
        };
        proof {
            assert(r@ =~= default_config());
        }
        r
    }
}

} // verus!
