//! The setup wizard: a step machine over a configuration draft.
//!
//! `SetupWizardState::hydrate` builds wizard state from whatever `Config` is
//! loaded, so the same steps serve both first-run and re-editing.
use vstd::prelude::*;

use crate::api::{ConfigPreviewCountsResponse, MembershipsResponse, SetupStatusResponse, TeamMembership};
use crate::config::{
    copy_opt, copy_targets, targets_view, Config, ConfigView, DaemonConfig, GithubConfig,
    GithubTarget, LlmConfig, LlmView, TargetView, TuiConfig,
};
use crate::draw::{less, min};
use crate::keys::{Action, KeyCode, KeyEvent};
use crate::markdown::opt_text;
use crate::split::{first_place, pieces, push_text, split_on, texts, trim_text, trimmed};
use crate::text::{chars_of, joined3, same_text};

verus! {

/// Lifecycle of one wizard-driven asynchronous resource. Key handlers move
/// Idle, Ready and Failed to Requested; the loop moves Requested to Loading
/// and starts the fetch; its completion moves Loading to Ready or Failed.
#[derive(Debug)]
pub enum AsyncResource<T> {
    Idle,
    Requested,
    Loading,
    Ready(T),
    Failed(String),
}

impl<T> Default for AsyncResource<T> {
    fn default() -> (r: Self)
        ensures
            r is Idle,
    {
        AsyncResource::Idle
    }
}

impl<T> AsyncResource<T> {
    /// A fetch is asked for, unless one is queued or in flight.
    pub open spec fn asked(self) -> AsyncResource<T> {
        if self is Loading || self is Requested {
            self
        } else {
            AsyncResource::Requested
        }
    }

    /// A queued fetch is under way.
    pub open spec fn started(self) -> AsyncResource<T> {
        if self is Requested {
            AsyncResource::Loading
        } else {
            self
        }
    }

    /// Ask for a (re)fetch. No-op while a fetch is already in flight or
    /// already queued, so mashing the key can't start a second fetch on top
    /// of one that hasn't completed yet.
    pub fn request(&mut self)
        ensures
            *final(self) == old(self).asked(),
    {
        let busy = match self {
            AsyncResource::Loading | AsyncResource::Requested => true,
            _ => false,
        };
        if !busy {
            *self = AsyncResource::Requested;
        }
    }

    /// Moves a queued fetch to Loading; true where there was one.
    pub fn begin(&mut self) -> (r: bool)
        ensures
            *final(self) == old(self).started(),
            r == (*old(self) is Requested),
    {
        let queued = match self {
            AsyncResource::Requested => true,
            _ => false,
        };
        if queued {
            *self = AsyncResource::Loading;
        }
        queued
    }

    pub fn is_loading(&self) -> (r: bool)
        ensures
            r == (*self is Loading),
    {
        match self {
            AsyncResource::Loading => true,
            _ => false,
        }
    }

    pub open spec fn got(self) -> Option<T> {
        match self {
            AsyncResource::Ready(v) => Some(v),
            _ => None,
        }
    }

    pub fn value(&self) -> (r: Option<&T>)
        ensures
            (match r {
                Some(v) => self.got() == Some(*v),
                None => self.got() is None,
            }),
    {
        match self {
            AsyncResource::Ready(v) => Some(v),
            _ => None,
        }
    }

    pub open spec fn failure(self) -> Option<Seq<char>> {
        match self {
            AsyncResource::Failed(e) => Some(e@),
            _ => None,
        }
    }

    pub fn error(&self) -> (r: Option<&str>)
        ensures
            (match r {
                Some(e) => self.failure() == Some(e@),
                None => self.failure() is None,
            }),
    {
        match self {
            AsyncResource::Failed(e) => Some(e.as_str()),
            _ => None,
        }
    }
}

/// However often a fetch is asked for, it is started at most once until it
/// completes.
pub proof fn fetch_starts_once<T>(r: AsyncResource<T>)
    ensures
        r.asked().asked() == r.asked(),
        r.asked().started() is Loading,
        r.asked().started().asked().started() == r.asked().started(),
        !(r.asked().started().asked() is Requested),
{
}

#[derive(Debug, Clone, Copy, PartialEq, Eq, Structural)]
pub enum WizardStep {
    Welcome,
    AuthCheck,
    WatchMode,
    WatchListInput,
    TargetPicker,
    TargetDetail,
    LivePreview,
    LlmConfig,
    Confirm,
}

#[derive(Debug, Clone, Copy, PartialEq, Eq, Structural)]
pub enum WatchModeChoice {
    Everything,
    BroadWatch,
    PreciseTargets,
}

impl WatchModeChoice {
    pub open spec fn label_spec(self) -> Seq<char> {
        match self {
            WatchModeChoice::Everything => "Everything involving me (default, no config needed)"@,
            WatchModeChoice::BroadWatch => "Broad watch list (org/repo names)"@,
            WatchModeChoice::PreciseTargets => "Precise targets (pick teams from GitHub)"@,
        }
    }

    pub fn label(self) -> (r: &'static str)
        ensures
            r@ == self.label_spec(),
    {
        match self {
            WatchModeChoice::Everything => "Everything involving me (default, no config needed)",
            WatchModeChoice::BroadWatch => "Broad watch list (org/repo names)",
            WatchModeChoice::PreciseTargets => "Precise targets (pick teams from GitHub)",
        }
    }

    /// The choice below, or the last one.
    #[verifier::allow_in_spec]
    pub fn below(self) -> WatchModeChoice
        returns
            (match self {
                WatchModeChoice::Everything => WatchModeChoice::BroadWatch,
                _ => WatchModeChoice::PreciseTargets,
            }),
    {
        match self {
            WatchModeChoice::Everything => WatchModeChoice::BroadWatch,
            _ => WatchModeChoice::PreciseTargets,
        }
    }

    /// The choice above, or the first one.
    #[verifier::allow_in_spec]
    pub fn above(self) -> WatchModeChoice
        returns
            (match self {
                WatchModeChoice::PreciseTargets => WatchModeChoice::BroadWatch,
                _ => WatchModeChoice::Everything,
            }),
    {
        match self {
            WatchModeChoice::PreciseTargets => WatchModeChoice::BroadWatch,
            _ => WatchModeChoice::Everything,
        }
    }
}

/// The state of the wizard.
#[derive(Debug)]
pub struct SetupWizardState {
    pub step: WizardStep,
    pub step_history: Vec<WizardStep>,
    pub config_path: String,
    pub daemon_config: DaemonConfig,
    pub tui_config: TuiConfig,
    pub watch_mode: WatchModeChoice,
    pub watch_raw_input: String,
    pub selected_targets: Vec<GithubTarget>,
    pub target_cursor: usize,
    pub editing_target: Option<GithubTarget>,
    pub editing_target_cursor: usize,
    pub manual_entry_active: bool,
    pub manual_entry_buffer: String,
    pub target_error: Option<String>,
    pub auth: AsyncResource<SetupStatusResponse>,
    pub memberships: AsyncResource<MembershipsResponse>,
    pub preview: AsyncResource<ConfigPreviewCountsResponse>,
    pub llm_enabled: bool,
    pub llm_provider_idx: usize,
    pub llm_endpoint: String,
    pub llm_api_key: String,
    pub llm_model: String,
    pub llm_cursor: usize,
    pub llm_editing_field: bool,
    pub confirm_scroll: usize,
    pub commit: AsyncResource<()>,
}

/// The state of the wizard over the characters of its texts.
#[verifier::ext_equal]
pub struct Wizard {
    pub step: WizardStep,
    pub step_history: Seq<WizardStep>,
    pub config_path: Seq<char>,
    pub daemon_config: DaemonConfig,
    pub tui_config: TuiConfig,
    pub watch_mode: WatchModeChoice,
    pub watch_raw_input: Seq<char>,
    pub selected_targets: Seq<TargetView>,
    pub target_cursor: usize,
    pub editing_target: Option<TargetView>,
    pub editing_target_cursor: usize,
    pub manual_entry_active: bool,
    pub manual_entry_buffer: Seq<char>,
    pub target_error: Option<Seq<char>>,
    pub auth: AsyncResource<SetupStatusResponse>,
    pub memberships: AsyncResource<MembershipsResponse>,
    pub preview: AsyncResource<ConfigPreviewCountsResponse>,
    pub llm_enabled: bool,
    pub llm_provider_idx: usize,
    pub llm_endpoint: Seq<char>,
    pub llm_api_key: Seq<char>,
    pub llm_model: Seq<char>,
    pub llm_cursor: usize,
    pub llm_editing_field: bool,
    pub confirm_scroll: usize,
    pub commit: AsyncResource<()>,
}

pub open spec fn opt_target(t: Option<GithubTarget>) -> Option<TargetView> {
    match t {
        Some(t) => Some(t@),
        None => None,
    }
}

impl View for SetupWizardState {
    type V = Wizard;

    open spec fn view(&self) -> Wizard {
        Wizard {
            step: self.step,
            step_history: self.step_history@,
            config_path: self.config_path@,
            daemon_config: self.daemon_config,
            tui_config: self.tui_config,
            watch_mode: self.watch_mode,
            watch_raw_input: self.watch_raw_input@,
            selected_targets: targets_view(self.selected_targets@),
            target_cursor: self.target_cursor,
            editing_target: opt_target(self.editing_target),
            editing_target_cursor: self.editing_target_cursor,
            manual_entry_active: self.manual_entry_active,
            manual_entry_buffer: self.manual_entry_buffer@,
            target_error: opt_text(self.target_error),
            auth: self.auth,
            memberships: self.memberships,
            preview: self.preview,
            llm_enabled: self.llm_enabled,
            llm_provider_idx: self.llm_provider_idx,
            llm_endpoint: self.llm_endpoint@,
            llm_api_key: self.llm_api_key@,
            llm_model: self.llm_model@,
            llm_cursor: self.llm_cursor,
            llm_editing_field: self.llm_editing_field,
            confirm_scroll: self.confirm_scroll,
            commit: self.commit,
        }
    }
}

/// The texts of `list` with `sep` between them.
pub open spec fn list_joined(list: Seq<Seq<char>>, sep: Seq<char>) -> Seq<char>
    decreases list.len(),
{
    if list.len() == 0 {
        Seq::empty()
    } else if list.len() == 1 {
        list[0]
    } else {
        list_joined(list.drop_last(), sep) + sep + list.last()
    }
}

/// The texts of `list` with `sep` between them.
pub fn join_texts(list: &Vec<String>, sep: &str) -> (r: String)
    ensures
        r@ == list_joined(texts(list@), sep@),
{
    let ghost all = texts(list@);
    let mut out = String::new();
    let mut i: usize = 0;
    proof {
        assert(out@ =~= list_joined(all.take(0), sep@));
    }
    while i < list.len()
        invariant
            i <= list@.len(),
            all == texts(list@),
            out@ == list_joined(all.take(i as int), sep@),
        decreases list@.len() - i,
    {
        proof {
            assert(all.take(i + 1).drop_last() =~= all.take(i as int));
            assert(all[i as int] == list@[i as int]@);
            assert(Seq::<char>::empty() + all[i as int] =~= all[i as int]);
        }
        if i > 0 {
            out.append(sep);
        }
        out.append(list[i].as_str());
        i += 1;
    }
    proof {
        assert(all.take(all.len() as int) =~= all);
    }
    out
}

/// The entries of a comma-separated list, white space around them dropped and
/// empty ones left out, among the first `n` pieces.
pub open spec fn entries_upto(parts: Seq<Seq<char>>, n: int) -> Seq<Seq<char>>
    decreases n,
{
    if n <= 0 {
        Seq::empty()
    } else {
        let entry = trimmed(parts[n - 1]);
        if entry.len() == 0 {
            entries_upto(parts, n - 1)
        } else {
            entries_upto(parts, n - 1).push(entry)
        }
    }
}

/// The entries of a comma-separated list.
pub open spec fn watch_entries(raw: Seq<char>) -> Seq<Seq<char>> {
    let parts = pieces(raw, ',');
    entries_upto(parts, parts.len() as int)
}

fn split_watch(raw: &str) -> (r: Vec<String>)
    ensures
        texts(r@) == watch_entries(raw@),
{
    let parts = split_on(raw, ',');
    let ghost all = pieces(raw@, ',');
    let mut out: Vec<String> = Vec::new();
    let mut i: usize = 0;
    proof {
        assert(texts(out@) =~= entries_upto(all, 0));
    }
    while i < parts.len()
        invariant
            i <= parts@.len(),
            texts(parts@) == all,
            texts(out@) == entries_upto(all, i as int),
        decreases parts@.len() - i,
    {
        proof {
            assert(all[i as int] == parts@[i as int]@);
        }
        let entry = trim_text(parts[i].as_str());
        if !entry.as_str().is_empty() {
            push_text(&mut out, entry);
        }
        i += 1;
    }
    out
}

/// The name of a language-model provider.
pub open spec fn provider_of(idx: usize) -> Seq<char> {
    if idx == 0 {
        "lm_studio"@
    } else {
        "openai_compatible"@
    }
}

/// The name of a language-model provider.
pub fn provider_name(idx: usize) -> (r: &'static str)
    requires
        idx < 2,
    ensures
        r@ == provider_of(idx),
{
    if idx == 0 {
        "lm_studio"
    } else {
        "openai_compatible"
    }
}

/// The watch mode that a configuration is in.
pub open spec fn watch_mode_of(c: ConfigView) -> WatchModeChoice {
    if c.targets.len() > 0 {
        WatchModeChoice::PreciseTargets
    } else if c.watch.len() > 0 {
        WatchModeChoice::BroadWatch
    } else {
        WatchModeChoice::Everything
    }
}

impl Wizard {
    /// A language-model provider is chosen among those there are.
    pub open spec fn wf(self) -> bool {
        self.llm_provider_idx < 2
    }

    /// The wizard opened on a configuration.
    pub open spec fn hydrated(path: Seq<char>, c: ConfigView) -> Wizard {
        Wizard {
            step: WizardStep::Welcome,
            step_history: Seq::empty(),
            config_path: path,
            daemon_config: c.daemon,
            tui_config: c.tui,
            watch_mode: watch_mode_of(c),
            watch_raw_input: list_joined(c.watch, ", "@),
            selected_targets: c.targets,
            target_cursor: 0,
            editing_target: None,
            editing_target_cursor: 0,
            manual_entry_active: false,
            manual_entry_buffer: Seq::empty(),
            target_error: None,
            auth: AsyncResource::Idle,
            memberships: AsyncResource::Idle,
            preview: AsyncResource::Idle,
            llm_enabled: c.llm.enabled,
            llm_provider_idx: if c.llm.provider == "openai_compatible"@ && c.llm.provider
                != "lm_studio"@ {
                1
            } else {
                0
            },
            llm_endpoint: c.llm.endpoint,
            llm_api_key: c.llm.api_key,
            llm_model: c.llm.model,
            llm_cursor: 0,
            llm_editing_field: false,
            confirm_scroll: 0,
            commit: AsyncResource::Idle,
        }
    }

    pub open spec fn pushed(self, next: WizardStep) -> Wizard {
        Wizard { step_history: self.step_history.push(self.step), step: next, ..self }
    }

    pub open spec fn popped(self) -> Wizard {
        if self.step_history.len() == 0 {
            self
        } else {
            Wizard {
                step: self.step_history.last(),
                step_history: self.step_history.drop_last(),
                ..self
            }
        }
    }

    pub open spec fn auth_ok(self) -> bool {
        match self.auth {
            AsyncResource::Ready(s) => s.auth.resolved && s.auth.user is Some,
            _ => false,
        }
    }

    /// The configuration that the wizard stands for.
    pub open spec fn draft_view(self) -> ConfigView {
        ConfigView {
            watch: if self.watch_mode == WatchModeChoice::BroadWatch {
                watch_entries(self.watch_raw_input)
            } else {
                Seq::empty()
            },
            targets: if self.watch_mode == WatchModeChoice::PreciseTargets {
                self.selected_targets
            } else {
                Seq::empty()
            },
            poll_interval: 300,
            daemon: self.daemon_config,
            llm: LlmView {
                enabled: self.llm_enabled,
                provider: provider_of(self.llm_provider_idx),
                endpoint: self.llm_endpoint,
                api_key: self.llm_api_key,
                model: self.llm_model,
                classify_on_change: true,
                max_output_tokens: 4096,
            },
            tui: self.tui_config,
        }
    }

    /// The teams known of the organisation being edited.
    pub open spec fn teams(self) -> Seq<TeamMembership> {
        match (self.editing_target, self.memberships) {
            (Some(t), AsyncResource::Ready(m)) => match t.org {
                Some(org) => org_teams(m, org, 0),
                None => Seq::empty(),
            },
            _ => Seq::empty(),
        }
    }
}

/// The teams of the first organisation from `i` on with that login.
pub open spec fn org_teams(m: MembershipsResponse, org: Seq<char>, i: int) -> Seq<TeamMembership>
    decreases m.orgs@.len() - i,
{
    if i < 0 || i >= m.orgs@.len() {
        Seq::empty()
    } else if m.orgs@[i].login@ == org {
        m.orgs@[i].teams@
    } else {
        org_teams(m, org, i + 1)
    }
}

impl SetupWizardState {
    /// Build wizard state from `config`: the default one on a first run, the
    /// currently loaded one otherwise.
    pub fn hydrate(config_path: String, config: &Config) -> (r: Self)
        ensures
            r@ == Wizard::hydrated(config_path@, config@),
            r@.wf(),
    {
        let watch_mode = if config.github.targets.len() > 0 {
            WatchModeChoice::PreciseTargets
        } else if config.github.watch.len() > 0 {
            WatchModeChoice::BroadWatch
        } else {
            WatchModeChoice::Everything
        };
        let llm_provider_idx: usize = if same_text(config.llm.provider.as_str(), "lm_studio") {
            0
        } else if same_text(config.llm.provider.as_str(), "openai_compatible") {
            1
        } else {
            0
        };
        let r = SetupWizardState {
            step: WizardStep::Welcome,
            step_history: Vec::new(),
            config_path,
            daemon_config: config.daemon,
            tui_config: config.tui,
            watch_mode,
            watch_raw_input: join_texts(&config.github.watch, ", "),
            selected_targets: copy_targets(&config.github.targets),
            target_cursor: 0,
            editing_target: None,
            editing_target_cursor: 0,
            manual_entry_active: false,
            manual_entry_buffer: String::new(),
            target_error: None,
            auth: AsyncResource::Idle,
            memberships: AsyncResource::Idle,
            preview: AsyncResource::Idle,
            llm_enabled: config.llm.enabled,
            llm_provider_idx,
            llm_endpoint: config.llm.endpoint.clone(),
            llm_api_key: config.llm.api_key.clone(),
            llm_model: config.llm.model.clone(),
            llm_cursor: 0,
            llm_editing_field: false,
            confirm_scroll: 0,
            commit: AsyncResource::Idle,
        };
        proof {
            assert(r@ =~= Wizard::hydrated(config_path@, config@));
        }
        r
    }

    pub fn push_step(&mut self, next: WizardStep)
        ensures
            final(self)@ == old(self)@.pushed(next),
    {
        self.step_history.push(self.step);
        self.step = next;
    }

    /// Pop back to the previous step, if any. Returns `true` if it moved.
    pub fn pop_step(&mut self) -> (r: bool)
        ensures
            final(self)@ == old(self)@.popped(),
            r == (old(self)@.step_history.len() > 0),
    {
        match self.step_history.pop() {
            Some(prev) => {
                self.step = prev;
                true
            },
            None => false,
        }
    }

    pub fn auth_resolved(&self) -> (r: bool)
        ensures
            r == self@.auth_ok(),
    {
        match &self.auth {
            AsyncResource::Ready(s) => s.auth.resolved && s.auth.user.is_some(),
            _ => false,
        }
    }

    /// The `Config` this wizard state currently represents: the body of the
    /// live-preview request as well as what is written in the end.
    pub fn draft(&self) -> (r: Config)
        requires
            self@.wf(),
        ensures
            r@ == self@.draft_view(),
    {
        let (watch, targets) = match self.watch_mode {
            WatchModeChoice::Everything => (Vec::new(), Vec::new()),
            WatchModeChoice::BroadWatch => (split_watch(self.watch_raw_input.as_str()), Vec::new()),
            WatchModeChoice::PreciseTargets => (Vec::new(), copy_targets(&self.selected_targets)),
        };
        let r = Config {
            github: GithubConfig { watch, targets, poll_interval: 300 },
            daemon: self.daemon_config,
            llm: LlmConfig {
                enabled: self.llm_enabled,
                provider: provider_name(self.llm_provider_idx).to_owned(),
                endpoint: self.llm_endpoint.clone(),
                api_key: self.llm_api_key.clone(),
                model: self.llm_model.clone(),
                classify_on_change: true,
                max_output_tokens: 4096,
            },
            tui: self.tui_config,
        };
        proof {
            assert(r@ =~= self@.draft_view());
        }
        r
    }

    /// Teams available for the org currently being edited, from the fetched
    /// membership list (none if unknown or entered by hand).
    pub fn available_teams(&self) -> (r: &[TeamMembership])
        ensures
            r@ == self@.teams(),
    {
        match (&self.editing_target, &self.memberships) {
            (Some(t), AsyncResource::Ready(m)) => {
                if let Some(org) = &t.org {
                    let mut i: usize = 0;
                    while i < m.orgs.len()
                        invariant
                            i <= m.orgs@.len(),
                            self.editing_target == Some(*t),
                            self.memberships == AsyncResource::Ready(*m),
                            t.org == Some(*org),
                            org_teams(*m, org@, 0) == org_teams(*m, org@, i as int),
                        decreases m.orgs@.len() - i,
                    {
                        if same_text(m.orgs[i].login.as_str(), org.as_str()) {
                            return m.orgs[i].teams.as_slice();
                        }
                        i += 1;
                    }
                }
            },
            _ => {},
        }
        let none: &[TeamMembership] = &[];
        proof {
            assert(none@ =~= Seq::empty());
        }
        none
    }
}

/// The organisation and repository of an entry `myorg` or `myorg/repo`: a
/// slash makes it a repository.
pub open spec fn org_and_repo(entry: Seq<char>) -> (Option<Seq<char>>, Option<Seq<char>>) {
    if entry.contains('/') {
        (None, Some(entry))
    } else {
        (Some(entry), None)
    }
}

/// Split a wizard-entered `myorg` or `myorg/repo` string into the `org` and
/// `repo` fields of a target; the repository takes priority.
pub fn target_org_and_repo(entry: &str) -> (r: (Option<String>, Option<String>))
    ensures
        (opt_text(r.0), opt_text(r.1)) == org_and_repo(entry@),
{
    let chars = chars_of(entry);
    let mut i: usize = 0;
    while i < chars.len()
        invariant
            i <= chars@.len(),
            chars@ == entry@,
            forall|k: int| 0 <= k < i ==> entry@[k] != '/',
        decreases chars@.len() - i,
    {
        if chars[i] == '/' {
            return (None, Some(entry.to_owned()));
        }
        i += 1;
    }
    (Some(entry.to_owned()), None)
}

pub open spec fn hint_of(step: WizardStep) -> Seq<char> {
    match step {
        WizardStep::Welcome => "Enter continue · q close"@,
        WizardStep::AuthCheck => "r recheck · Enter continue once resolved · Esc back"@,
        WizardStep::WatchMode => "j/k select · Enter continue · Esc back"@,
        WizardStep::WatchListInput => "type to edit · Enter continue · Esc back"@,
        WizardStep::TargetPicker => "j/k select · Enter edit/add · a manual entry · d remove · n next · Esc back"@,
        WizardStep::TargetDetail => "j/k select · Space toggle · s save · Esc cancel"@,
        WizardStep::LivePreview => "r refresh · Enter continue · Esc back"@,
        WizardStep::LlmConfig => "j/k select · Enter edit/toggle · n continue · Esc back"@,
        WizardStep::Confirm => "j/k scroll · y confirm & write · Esc back · q cancel"@,
    }
}

pub fn step_keybar_hint(step: WizardStep) -> (r: &'static str)
    ensures
        r@ == hint_of(step),
{
    match step {
        WizardStep::Welcome => "Enter continue · q close",
        WizardStep::AuthCheck => "r recheck · Enter continue once resolved · Esc back",
        WizardStep::WatchMode => "j/k select · Enter continue · Esc back",
        WizardStep::WatchListInput => "type to edit · Enter continue · Esc back",
        WizardStep::TargetPicker => "j/k select · Enter edit/add · a manual entry · d remove · n next · Esc back",
        WizardStep::TargetDetail => "j/k select · Space toggle · s save · Esc cancel",
        WizardStep::LivePreview => "r refresh · Enter continue · Esc back",
        WizardStep::LlmConfig => "j/k select · Enter edit/toggle · n continue · Esc back",
        WizardStep::Confirm => "j/k scroll · y confirm & write · Esc back · q cancel",
    }
}

/// Whether a key is the letter `lower` or `upper`.
pub open spec fn is_letter(code: KeyCode, lower: char, upper: char) -> bool {
    code == KeyCode::Char(lower) || code == KeyCode::Char(upper)
}

pub(crate) fn letter(code: KeyCode, lower: char, upper: char) -> (r: bool)
    ensures
        r == is_letter(code, lower, upper),
{
    match code {
        KeyCode::Char(c) => c == lower || c == upper,
        _ => false,
    }
}

pub open spec fn is_down(code: KeyCode) -> bool {
    code == KeyCode::Down || code == KeyCode::Char('j')
}

pub open spec fn is_up(code: KeyCode) -> bool {
    code == KeyCode::Up || code == KeyCode::Char('k')
}

pub(crate) fn goes_down(code: KeyCode) -> (r: bool)
    ensures
        r == is_down(code),
{
    match code {
        KeyCode::Down => true,
        KeyCode::Char(c) => c == 'j',
        _ => false,
    }
}

pub(crate) fn goes_up(code: KeyCode) -> (r: bool)
    ensures
        r == is_up(code),
{
    match code {
        KeyCode::Up => true,
        KeyCode::Char(c) => c == 'k',
        _ => false,
    }
}

/// `s` without its last character.
pub open spec fn erased(s: Seq<char>) -> Seq<char> {
    if s.len() == 0 {
        s
    } else {
        s.drop_last()
    }
}

/// A text field after a key: a character is added, Backspace takes one away.
pub open spec fn typed(s: Seq<char>, code: KeyCode) -> Seq<char> {
    match code {
        KeyCode::Char(c) => s.push(c),
        KeyCode::Backspace => erased(s),
        _ => s,
    }
}

pub(crate) fn type_into(s: &mut String, code: KeyCode)
    ensures
        final(s)@ == typed(old(s)@, code),
{
    match code {
        KeyCode::Char(c) => s.push(c),
        KeyCode::Backspace => {
            let _ = s.pop();
        },
        _ => {},
    }
}

/// A number one greater, at most `last`.
pub open spec fn stepped(n: usize, last: int) -> usize {
    min(n + 1, last) as usize
}

fn step_down(n: usize, last: usize) -> (r: usize)
    ensures
        r == stepped(n, last as int),
{
    if n < last {
        n + 1
    } else {
        last
    }
}

/// The target that an entry begins with.
pub open spec fn new_target(org: Option<Seq<char>>, repo: Option<Seq<char>>) -> TargetView {
    TargetView {
        org,
        repo,
        direct_review_requests: true,
        team_review_requests: Seq::empty(),
        include_authored: true,
        include_involved: false,
    }
}

fn make_target(org: Option<String>, repo: Option<String>) -> (r: GithubTarget)
    ensures
        r@ == new_target(opt_text(org), opt_text(repo)),
{
    let r = GithubTarget {
        org,
        repo,
        direct_review_requests: true,
        team_review_requests: Vec::new(),
        include_authored: true,
        include_involved: false,
    };
    proof {
        assert(r@ =~= new_target(opt_text(org), opt_text(repo)));
    }
    r
}

/// The first target from `i` on for the organisation `login`.
pub open spec fn target_for(targets: Seq<TargetView>, login: Seq<char>, i: int) -> Option<
    TargetView,
>
    decreases targets.len() - i,
{
    if i < 0 || i >= targets.len() {
        None
    } else if targets[i].org == Some(login) {
        Some(targets[i])
    } else {
        target_for(targets, login, i + 1)
    }
}

fn find_target_for(targets: &Vec<GithubTarget>, login: &str) -> (r: Option<GithubTarget>)
    ensures
        opt_target(r) == target_for(targets_view(targets@), login@, 0),
{
    let mut i: usize = 0;
    while i < targets.len()
        invariant
            i <= targets@.len(),
            target_for(targets_view(targets@), login@, 0) == target_for(
                targets_view(targets@),
                login@,
                i as int,
            ),
        decreases targets@.len() - i,
    {
        proof {
            assert(targets_view(targets@)[i as int] == targets@[i as int]@);
        }
        let hit = match &targets[i].org {
            Some(org) => same_text(org.as_str(), login),
            None => false,
        };
        if hit {
            return Some(targets[i].copy());
        }
        i += 1;
    }
    None
}

/// The place of the first target from `i` on with the same organisation and
/// repository as `t`.
pub open spec fn same_target_at(targets: Seq<TargetView>, t: TargetView, i: int) -> Option<int>
    decreases targets.len() - i,
{
    if i < 0 || i >= targets.len() {
        None
    } else if targets[i].org == t.org && targets[i].repo == t.repo {
        Some(i)
    } else {
        same_target_at(targets, t, i + 1)
    }
}

pub fn same_opt(a: &Option<String>, b: &Option<String>) -> (r: bool)
    ensures
        r == (opt_text(*a) == opt_text(*b)),
{
    match (a, b) {
        (Some(x), Some(y)) => same_text(x.as_str(), y.as_str()),
        (None, None) => true,
        _ => false,
    }
}

fn find_same_target(targets: &Vec<GithubTarget>, t: &GithubTarget) -> (r: Option<usize>)
    ensures
        (match r {
            Some(i) => i < targets@.len() && same_target_at(targets_view(targets@), t@, 0) == Some(
                i as int,
            ),
            None => same_target_at(targets_view(targets@), t@, 0) is None,
        }),
{
    let mut i: usize = 0;
    while i < targets.len()
        invariant
            i <= targets@.len(),
            same_target_at(targets_view(targets@), t@, 0) == same_target_at(
                targets_view(targets@),
                t@,
                i as int,
            ),
        decreases targets@.len() - i,
    {
        proof {
            assert(targets_view(targets@)[i as int] == targets@[i as int]@);
        }
        if same_opt(&targets[i].org, &t.org) && same_opt(&targets[i].repo, &t.repo) {
            return Some(i);
        }
        i += 1;
    }
    None
}

/// The place of the first text from `i` on that equals `x`.
pub open spec fn text_at(list: Seq<Seq<char>>, x: Seq<char>, i: int) -> Option<int>
    decreases list.len() - i,
{
    if i < 0 || i >= list.len() {
        None
    } else if list[i] == x {
        Some(i)
    } else {
        text_at(list, x, i + 1)
    }
}

/// A list with `x` taken out where it stands first, or added at the end.
pub open spec fn toggled(list: Seq<Seq<char>>, x: Seq<char>) -> Seq<Seq<char>> {
    match text_at(list, x, 0) {
        Some(i) => list.remove(i),
        None => list.push(x),
    }
}

fn toggle_text(list: &mut Vec<String>, x: &str)
    ensures
        texts(final(list)@) == toggled(texts(old(list)@), x@),
{
    let ghost all = texts(list@);
    let mut i: usize = 0;
    while i < list.len()
        invariant
            i <= list@.len(),
            list@ == old(list)@,
            all == texts(old(list)@),
            text_at(all, x@, 0) == text_at(all, x@, i as int),
        decreases list@.len() - i,
    {
        proof {
            assert(all[i as int] == list@[i as int]@);
        }
        if same_text(list[i].as_str(), x) {
            let _ = list.remove(i);
            proof {
                assert(texts(list@) =~= all.remove(i as int));
            }
            return;
        }
        i += 1;
    }
    push_text(list, x.to_owned());
}

impl Wizard {
    pub open spec fn welcome_key(self, code: KeyCode) -> (Wizard, Action) {
        if is_letter(code, 'q', 'Q') {
            (self, Action::CloseWizard)
        } else if code == KeyCode::Enter {
            if self.auth_ok() {
                (self.pushed(WizardStep::WatchMode), Action::Idle)
            } else {
                (
                    Wizard { auth: self.auth.asked(), ..self }.pushed(WizardStep::AuthCheck),
                    Action::Idle,
                )
            }
        } else {
            (self, Action::Idle)
        }
    }

    pub open spec fn auth_check_key(self, code: KeyCode) -> (Wizard, Action) {
        if is_letter(code, 'q', 'Q') {
            (self, Action::CloseWizard)
        } else if code == KeyCode::Esc {
            (self.popped(), Action::Idle)
        } else if is_letter(code, 'r', 'R') {
            (Wizard { auth: self.auth.asked(), ..self }, Action::Idle)
        } else if code == KeyCode::Enter && self.auth_ok() {
            (self.pushed(WizardStep::WatchMode), Action::Idle)
        } else {
            (self, Action::Idle)
        }
    }

    pub open spec fn watch_mode_key(self, code: KeyCode) -> (Wizard, Action) {
        if is_letter(code, 'q', 'Q') {
            (self, Action::CloseWizard)
        } else if code == KeyCode::Esc {
            (self.popped(), Action::Idle)
        } else if is_down(code) {
            (Wizard { watch_mode: self.watch_mode.below(), ..self }, Action::Idle)
        } else if is_up(code) {
            (Wizard { watch_mode: self.watch_mode.above(), ..self }, Action::Idle)
        } else if code == KeyCode::Enter {
            match self.watch_mode {
                WatchModeChoice::Everything => (
                    self.pushed(WizardStep::LivePreview),
                    Action::Idle,
                ),
                WatchModeChoice::BroadWatch => (
                    self.pushed(WizardStep::WatchListInput),
                    Action::Idle,
                ),
                WatchModeChoice::PreciseTargets => (
                    Wizard {
                        memberships: if self.memberships is Ready {
                            self.memberships
                        } else {
                            self.memberships.asked()
                        },
                        ..self
                    }.pushed(WizardStep::TargetPicker),
                    Action::Idle,
                ),
            }
        } else {
            (self, Action::Idle)
        }
    }

    pub open spec fn watch_list_key(self, code: KeyCode) -> (Wizard, Action) {
        match code {
            KeyCode::Esc => (self.popped(), Action::Idle),
            KeyCode::Enter => (
                Wizard { preview: self.preview.asked(), ..self }.pushed(WizardStep::LivePreview),
                Action::Idle,
            ),
            _ => (
                Wizard { watch_raw_input: typed(self.watch_raw_input, code), ..self },
                Action::Idle,
            ),
        }
    }

    /// How many organisations are known.
    pub open spec fn org_count(self) -> int {
        match self.memberships {
            AsyncResource::Ready(m) => m.orgs@.len() as int,
            _ => 0,
        }
    }

    /// The manual entry is closed, its text dropped.
    pub open spec fn entry_closed(self) -> Wizard {
        Wizard { manual_entry_active: false, manual_entry_buffer: Seq::empty(), ..self }
    }

    /// The manual entry is open and empty.
    pub open spec fn entry_opened(self) -> Wizard {
        Wizard { manual_entry_active: true, manual_entry_buffer: Seq::empty(), ..self }
    }

    pub open spec fn editing(self, t: TargetView) -> Wizard {
        Wizard { editing_target: Some(t), editing_target_cursor: 0, ..self }.pushed(
            WizardStep::TargetDetail,
        )
    }

    pub open spec fn manual_entry_key(self, code: KeyCode) -> Wizard {
        match code {
            KeyCode::Esc => self.entry_closed(),
            KeyCode::Enter => {
                let entry = trimmed(self.manual_entry_buffer);
                if entry.len() == 0 {
                    self.entry_closed()
                } else {
                    let (org, repo) = org_and_repo(entry);
                    self.entry_closed().editing(new_target(org, repo))
                }
            },
            _ => Wizard { manual_entry_buffer: typed(self.manual_entry_buffer, code), ..self },
        }
    }

    pub open spec fn target_picker_key(self, code: KeyCode) -> (Wizard, Action) {
        if self.manual_entry_active {
            (self.manual_entry_key(code), Action::Idle)
        } else if is_letter(code, 'q', 'Q') {
            (self, Action::CloseWizard)
        } else if code == KeyCode::Esc {
            (self.popped(), Action::Idle)
        } else if is_down(code) {
            (
                Wizard { target_cursor: stepped(self.target_cursor, self.org_count()), ..self },
                Action::Idle,
            )
        } else if is_up(code) {
            (
                Wizard { target_cursor: less(self.target_cursor as int, 1) as usize, ..self },
                Action::Idle,
            )
        } else if is_letter(code, 'a', 'A') {
            (self.entry_opened(), Action::Idle)
        } else if is_letter(code, 'd', 'D') {
            if self.target_cursor < self.selected_targets.len() {
                let rest = self.selected_targets.remove(self.target_cursor as int);
                (
                    Wizard {
                        selected_targets: rest,
                        target_cursor: min(
                            self.target_cursor as int,
                            less(rest.len() as int, 1),
                        ) as usize,
                        ..self
                    },
                    Action::Idle,
                )
            } else {
                (self, Action::Idle)
            }
        } else if is_letter(code, 'n', 'N') {
            if self.selected_targets.len() > 0 {
                (
                    Wizard { preview: self.preview.asked(), ..self }.pushed(
                        WizardStep::LivePreview,
                    ),
                    Action::Idle,
                )
            } else {
                (self, Action::Idle)
            }
        } else if code == KeyCode::Enter {
            if self.target_cursor >= self.org_count() {
                (self.entry_opened(), Action::Idle)
            } else {
                let login = self.memberships->Ready_0.orgs@[self.target_cursor as int].login@;
                let target = match target_for(self.selected_targets, login, 0) {
                    Some(t) => t,
                    None => new_target(Some(login), None),
                };
                (self.editing(target), Action::Idle)
            }
        } else {
            (self, Action::Idle)
        }
    }

    /// The team request that row `3 + i` of the target stands for.
    pub open spec fn team_label(self, i: int) -> Seq<char> {
        let org = match self.editing_target {
            Some(t) => match t.org {
                Some(o) => o,
                None => Seq::empty(),
            },
            None => Seq::empty(),
        };
        org + "/"@ + self.teams()[i].slug@
    }

    /// The row of the target under the cursor is switched over.
    pub open spec fn target_row_toggled(self) -> Wizard {
        match self.editing_target {
            None => self,
            Some(t) => {
                let row = self.editing_target_cursor;
                let after = if row == 0 {
                    TargetView { direct_review_requests: !t.direct_review_requests, ..t }
                } else if row == 1 {
                    TargetView { include_authored: !t.include_authored, ..t }
                } else if row == 2 {
                    TargetView { include_involved: !t.include_involved, ..t }
                } else if row - 3 < self.teams().len() {
                    TargetView {
                        team_review_requests: toggled(
                            t.team_review_requests,
                            self.team_label(row - 3),
                        ),
                        ..t
                    }
                } else {
                    t
                };
                Wizard { editing_target: Some(after), ..self }
            },
        }
    }

    /// The target being edited joins the others, in the place of one for the
    /// same organisation and repository; one that asks for nothing is refused.
    pub open spec fn target_saved(self) -> Wizard {
        match self.editing_target {
            None => self,
            Some(t) => if !t.direct_review_requests && t.team_review_requests.len() == 0
                && !t.include_authored && !t.include_involved {
                Wizard {
                    target_error: Some("Enable at least one of direct/team/authored/involved"@),
                    ..self
                }
            } else {
                Wizard {
                    target_error: None,
                    editing_target: None,
                    selected_targets: match same_target_at(self.selected_targets, t, 0) {
                        Some(i) => self.selected_targets.update(i, t),
                        None => self.selected_targets.push(t),
                    },
                    ..self
                }.popped()
            },
        }
    }

    pub open spec fn target_detail_key(self, code: KeyCode) -> (Wizard, Action) {
        if code == KeyCode::Esc {
            (Wizard { editing_target: None, target_error: None, ..self }.popped(), Action::Idle)
        } else if is_down(code) {
            (
                Wizard {
                    editing_target_cursor: stepped(
                        self.editing_target_cursor,
                        min(self.teams().len() as int + 2, usize::MAX as int),
                    ),
                    ..self
                },
                Action::Idle,
            )
        } else if is_up(code) {
            (
                Wizard {
                    editing_target_cursor: less(self.editing_target_cursor as int, 1) as usize,
                    ..self
                },
                Action::Idle,
            )
        } else if code == KeyCode::Char(' ') || code == KeyCode::Enter {
            (self.target_row_toggled(), Action::Idle)
        } else if is_letter(code, 's', 'S') {
            (self.target_saved(), Action::Idle)
        } else {
            (self, Action::Idle)
        }
    }

    pub open spec fn live_preview_key(self, code: KeyCode) -> (Wizard, Action) {
        if is_letter(code, 'q', 'Q') {
            (self, Action::CloseWizard)
        } else if code == KeyCode::Esc {
            (self.popped(), Action::Idle)
        } else if is_letter(code, 'r', 'R') {
            (Wizard { preview: self.preview.asked(), ..self }, Action::Idle)
        } else if code == KeyCode::Enter {
            (self.pushed(WizardStep::LlmConfig), Action::Idle)
        } else {
            (self, Action::Idle)
        }
    }

    /// A key goes to the text field under the cursor.
    pub open spec fn field_typed(self, code: KeyCode) -> Wizard {
        if self.llm_cursor == 3 {
            Wizard { llm_api_key: typed(self.llm_api_key, code), ..self }
        } else if self.llm_cursor == 4 {
            Wizard { llm_model: typed(self.llm_model, code), ..self }
        } else {
            Wizard { llm_endpoint: typed(self.llm_endpoint, code), ..self }
        }
    }

    pub open spec fn llm_config_key(self, code: KeyCode) -> (Wizard, Action) {
        if self.llm_editing_field {
            if code == KeyCode::Esc || code == KeyCode::Enter {
                (Wizard { llm_editing_field: false, ..self }, Action::Idle)
            } else {
                (self.field_typed(code), Action::Idle)
            }
        } else if is_letter(code, 'q', 'Q') {
            (self, Action::CloseWizard)
        } else if code == KeyCode::Esc {
            (self.popped(), Action::Idle)
        } else if is_down(code) {
            (Wizard { llm_cursor: stepped(self.llm_cursor, 4), ..self }, Action::Idle)
        } else if is_up(code) {
            (
                Wizard { llm_cursor: less(self.llm_cursor as int, 1) as usize, ..self },
                Action::Idle,
            )
        } else if is_letter(code, 'n', 'N') {
            (self.pushed(WizardStep::Confirm), Action::Idle)
        } else if code == KeyCode::Enter || code == KeyCode::Char(' ') {
            if self.llm_cursor == 0 {
                (Wizard { llm_enabled: !self.llm_enabled, ..self }, Action::Idle)
            } else if self.llm_cursor == 1 {
                (
                    Wizard { llm_provider_idx: ((self.llm_provider_idx + 1) % 2) as usize, ..self },
                    Action::Idle,
                )
            } else {
                (Wizard { llm_editing_field: true, ..self }, Action::Idle)
            }
        } else {
            (self, Action::Idle)
        }
    }

    pub open spec fn confirm_key(self, code: KeyCode) -> (Wizard, Action) {
        if is_letter(code, 'q', 'Q') {
            (self, Action::CloseWizard)
        } else if code == KeyCode::Esc {
            (self.popped(), Action::Idle)
        } else if is_down(code) {
            (
                Wizard {
                    confirm_scroll: min(self.confirm_scroll + 1, usize::MAX as int) as usize,
                    ..self
                },
                Action::Idle,
            )
        } else if is_up(code) {
            (
                Wizard { confirm_scroll: less(self.confirm_scroll as int, 1) as usize, ..self },
                Action::Idle,
            )
        } else if is_letter(code, 'y', 'Y') {
            (Wizard { commit: self.commit.asked(), ..self }, Action::Idle)
        } else {
            (self, Action::Idle)
        }
    }

    /// A key goes to the handler of the current step.
    #[verifier::opaque]
    pub open spec fn key(self, code: KeyCode) -> (Wizard, Action) {
        match self.step {
            WizardStep::Welcome => self.welcome_key(code),
            WizardStep::AuthCheck => self.auth_check_key(code),
            WizardStep::WatchMode => self.watch_mode_key(code),
            WizardStep::WatchListInput => self.watch_list_key(code),
            WizardStep::TargetPicker => self.target_picker_key(code),
            WizardStep::TargetDetail => self.target_detail_key(code),
            WizardStep::LivePreview => self.live_preview_key(code),
            WizardStep::LlmConfig => self.llm_config_key(code),
            WizardStep::Confirm => self.confirm_key(code),
        }
    }
}

pub fn handle_welcome_key(wizard: &mut SetupWizardState, key: KeyEvent) -> (r: Action)
    ensures
        (final(wizard)@, r) == old(wizard)@.welcome_key(key.code),
{
    if letter(key.code, 'q', 'Q') {
        return Action::CloseWizard;
    }
    if key.code == KeyCode::Enter {
        if wizard.auth_resolved() {
            wizard.push_step(WizardStep::WatchMode);
        } else {
            wizard.auth.request();
            wizard.push_step(WizardStep::AuthCheck);
        }
    }
    Action::Idle
}

pub fn handle_auth_check_key(wizard: &mut SetupWizardState, key: KeyEvent) -> (r: Action)
    ensures
        (final(wizard)@, r) == old(wizard)@.auth_check_key(key.code),
{
    if letter(key.code, 'q', 'Q') {
        return Action::CloseWizard;
    }
    if key.code == KeyCode::Esc {
        let _ = wizard.pop_step();
    } else if letter(key.code, 'r', 'R') {
        wizard.auth.request();
    } else if key.code == KeyCode::Enter && wizard.auth_resolved() {
        wizard.push_step(WizardStep::WatchMode);
    }
    Action::Idle
}

pub fn handle_watch_mode_key(wizard: &mut SetupWizardState, key: KeyEvent) -> (r: Action)
    ensures
        (final(wizard)@, r) == old(wizard)@.watch_mode_key(key.code),
{
    if letter(key.code, 'q', 'Q') {
        return Action::CloseWizard;
    }
    if key.code == KeyCode::Esc {
        let _ = wizard.pop_step();
    } else if goes_down(key.code) {
        wizard.watch_mode = wizard.watch_mode.below();
    } else if goes_up(key.code) {
        wizard.watch_mode = wizard.watch_mode.above();
    } else if key.code == KeyCode::Enter {
        match wizard.watch_mode {
            WatchModeChoice::Everything => wizard.push_step(WizardStep::LivePreview),
            WatchModeChoice::BroadWatch => wizard.push_step(WizardStep::WatchListInput),
            WatchModeChoice::PreciseTargets => {
                if wizard.memberships.value().is_none() {
                    wizard.memberships.request();
                }
                wizard.push_step(WizardStep::TargetPicker);
            },
        }
    }
    Action::Idle
}

pub fn handle_watch_list_input_key(wizard: &mut SetupWizardState, key: KeyEvent) -> (r: Action)
    ensures
        (final(wizard)@, r) == old(wizard)@.watch_list_key(key.code),
{
    match key.code {
        KeyCode::Esc => {
            let _ = wizard.pop_step();
        },
        KeyCode::Enter => {
            wizard.preview.request();
            wizard.push_step(WizardStep::LivePreview);
        },
        _ => type_into(&mut wizard.watch_raw_input, key.code),
    }
    Action::Idle
}

fn org_total(wizard: &SetupWizardState) -> (r: usize)
    ensures
        r == wizard@.org_count(),
{
    match &wizard.memberships {
        AsyncResource::Ready(m) => m.orgs.len(),
        _ => 0,
    }
}

fn open_manual_entry(wizard: &mut SetupWizardState)
    ensures
        final(wizard)@ == old(wizard)@.entry_opened(),
{
    wizard.manual_entry_active = true;
    wizard.manual_entry_buffer = String::new();
}

fn edit_target(wizard: &mut SetupWizardState, target: GithubTarget)
    ensures
        final(wizard)@ == old(wizard)@.editing(target@),
{
    wizard.editing_target = Some(target);
    wizard.editing_target_cursor = 0;
    wizard.push_step(WizardStep::TargetDetail);
}

fn handle_manual_entry_key(wizard: &mut SetupWizardState, key: KeyEvent)
    ensures
        final(wizard)@ == old(wizard)@.manual_entry_key(key.code),
{
    match key.code {
        KeyCode::Esc => {
            wizard.manual_entry_active = false;
            wizard.manual_entry_buffer = String::new();
        },
        KeyCode::Enter => {
            let entry = trim_text(wizard.manual_entry_buffer.as_str());
            wizard.manual_entry_active = false;
            wizard.manual_entry_buffer = String::new();
            if !entry.as_str().is_empty() {
                let (org, repo) = target_org_and_repo(entry.as_str());
                edit_target(wizard, make_target(org, repo));
            }
        },
        _ => type_into(&mut wizard.manual_entry_buffer, key.code),
    }
}

pub fn handle_target_picker_key(wizard: &mut SetupWizardState, key: KeyEvent) -> (r: Action)
    ensures
        (final(wizard)@, r) == old(wizard)@.target_picker_key(key.code),
{
    if wizard.manual_entry_active {
        handle_manual_entry_key(wizard, key);
        return Action::Idle;
    }
    if letter(key.code, 'q', 'Q') {
        return Action::CloseWizard;
    }
    if key.code == KeyCode::Esc {
        let _ = wizard.pop_step();
    } else if goes_down(key.code) {
        wizard.target_cursor = step_down(wizard.target_cursor, org_total(wizard));
    } else if goes_up(key.code) {
        wizard.target_cursor = wizard.target_cursor.saturating_sub(1);
    } else if letter(key.code, 'a', 'A') {
        open_manual_entry(wizard);
    } else if letter(key.code, 'd', 'D') {
        if wizard.target_cursor < wizard.selected_targets.len() {
            let ghost before = wizard.selected_targets@;
            let _ = wizard.selected_targets.remove(wizard.target_cursor);
            proof {
                assert(targets_view(wizard.selected_targets@) =~= targets_view(before).remove(
                    wizard.target_cursor as int,
                ));
            }
            let last: usize = wizard.selected_targets.len().saturating_sub(1);
            if wizard.target_cursor > last {
                wizard.target_cursor = last;
            }
        }
    } else if letter(key.code, 'n', 'N') {
        if wizard.selected_targets.len() > 0 {
            wizard.preview.request();
            wizard.push_step(WizardStep::LivePreview);
        }
    } else if key.code == KeyCode::Enter {
        let mut login: Option<String> = None;
        if let AsyncResource::Ready(m) = &wizard.memberships {
            if wizard.target_cursor < m.orgs.len() {
                login = Some(m.orgs[wizard.target_cursor].login.clone());
            }
        }
        match login {
            None => open_manual_entry(wizard),
            Some(login) => {
                let target = match find_target_for(&wizard.selected_targets, login.as_str()) {
                    Some(t) => t,
                    None => make_target(Some(login), None),
                };
                edit_target(wizard, target);
            },
        }
    }
    Action::Idle
}

fn team_request(wizard: &SetupWizardState, row: usize) -> (r: Option<String>)
    requires
        row >= 3,
    ensures
        (match r {
            Some(s) => row - 3 < wizard@.teams().len() && s@ == wizard@.team_label(row - 3),
            None => row - 3 >= wizard@.teams().len(),
        }),
{
    let org = match &wizard.editing_target {
        Some(t) => match &t.org {
            Some(o) => o.clone(),
            None => String::new(),
        },
        None => String::new(),
    };
    let teams = wizard.available_teams();
    let i: usize = row - 3;
    if i < teams.len() {
        Some(joined3(org.as_str(), "/", teams[i].slug.as_str()))
    } else {
        None
    }
}

pub fn handle_target_detail_key(wizard: &mut SetupWizardState, key: KeyEvent) -> (r: Action)
    ensures
        (final(wizard)@, r) == old(wizard)@.target_detail_key(key.code),
{
    if key.code == KeyCode::Esc {
        wizard.editing_target = None;
        wizard.target_error = None;
        let _ = wizard.pop_step();
    } else if goes_down(key.code) {
        let last: usize = wizard.available_teams().len().saturating_add(2);
        wizard.editing_target_cursor = step_down(wizard.editing_target_cursor, last);
    } else if goes_up(key.code) {
        wizard.editing_target_cursor = wizard.editing_target_cursor.saturating_sub(1);
    } else if key.code == KeyCode::Char(' ') || key.code == KeyCode::Enter {
        let row: usize = wizard.editing_target_cursor;
        let team = if row >= 3 {
            team_request(wizard, row)
        } else {
            None
        };
        match wizard.editing_target.take() {
            Some(t) => {
                let mut target = t;
                if row == 0 {
                    target.direct_review_requests = !target.direct_review_requests;
                } else if row == 1 {
                    target.include_authored = !target.include_authored;
                } else if row == 2 {
                    target.include_involved = !target.include_involved;
                } else if let Some(team) = team {
                    toggle_text(&mut target.team_review_requests, team.as_str());
                }
                wizard.editing_target = Some(target);
            },
            None => {},
        }
    } else if letter(key.code, 's', 'S') {
        match wizard.editing_target.take() {
            Some(target) => {
                if !target.direct_review_requests && target.team_review_requests.len() == 0
                    && !target.include_authored && !target.include_involved {
                    wizard.editing_target = Some(target);
                    wizard.target_error = Some(
                        "Enable at least one of direct/team/authored/involved".to_owned(),
                    );
                    return Action::Idle;
                }
                wizard.target_error = None;
                let ghost before = wizard.selected_targets@;
                match find_same_target(&wizard.selected_targets, &target) {
                    Some(i) => {
                        wizard.selected_targets.set(i, target);
                        proof {
                            assert(targets_view(wizard.selected_targets@) =~= targets_view(
                                before,
                            ).update(i as int, target@));
                        }
                    },
                    None => {
                        wizard.selected_targets.push(target);
                        proof {
                            assert(targets_view(wizard.selected_targets@) =~= targets_view(
                                before,
                            ).push(target@));
                        }
                    },
                }
                let _ = wizard.pop_step();
            },
            None => {},
        }
    }
    Action::Idle
}

pub fn handle_live_preview_key(wizard: &mut SetupWizardState, key: KeyEvent) -> (r: Action)
    ensures
        (final(wizard)@, r) == old(wizard)@.live_preview_key(key.code),
{
    if letter(key.code, 'q', 'Q') {
        return Action::CloseWizard;
    }
    if key.code == KeyCode::Esc {
        let _ = wizard.pop_step();
    } else if letter(key.code, 'r', 'R') {
        wizard.preview.request();
    } else if key.code == KeyCode::Enter {
        wizard.push_step(WizardStep::LlmConfig);
    }
    Action::Idle
}

fn type_into_field(wizard: &mut SetupWizardState, code: KeyCode)
    ensures
        final(wizard)@ == old(wizard)@.field_typed(code),
{
    if wizard.llm_cursor == 3 {
        type_into(&mut wizard.llm_api_key, code);
    } else if wizard.llm_cursor == 4 {
        type_into(&mut wizard.llm_model, code);
    } else {
        type_into(&mut wizard.llm_endpoint, code);
    }
}

pub fn handle_llm_config_key(wizard: &mut SetupWizardState, key: KeyEvent) -> (r: Action)
    requires
        old(wizard).llm_provider_idx < usize::MAX,
    ensures
        (final(wizard)@, r) == old(wizard)@.llm_config_key(key.code),
        old(wizard)@.wf() ==> final(wizard)@.wf(),
{
    if wizard.llm_editing_field {
        if key.code == KeyCode::Esc || key.code == KeyCode::Enter {
            wizard.llm_editing_field = false;
        } else {
            type_into_field(wizard, key.code);
        }
        return Action::Idle;
    }
    if letter(key.code, 'q', 'Q') {
        return Action::CloseWizard;
    }
    if key.code == KeyCode::Esc {
        let _ = wizard.pop_step();
    } else if goes_down(key.code) {
        wizard.llm_cursor = step_down(wizard.llm_cursor, 4);
    } else if goes_up(key.code) {
        wizard.llm_cursor = wizard.llm_cursor.saturating_sub(1);
    } else if letter(key.code, 'n', 'N') {
        wizard.push_step(WizardStep::Confirm);
    } else if key.code == KeyCode::Enter || key.code == KeyCode::Char(' ') {
        if wizard.llm_cursor == 0 {
            wizard.llm_enabled = !wizard.llm_enabled;
        } else if wizard.llm_cursor == 1 {
            wizard.llm_provider_idx = (wizard.llm_provider_idx + 1) % 2;
        } else {
            wizard.llm_editing_field = true;
        }
    }
    Action::Idle
}

pub fn handle_confirm_key(wizard: &mut SetupWizardState, key: KeyEvent) -> (r: Action)
    ensures
        (final(wizard)@, r) == old(wizard)@.confirm_key(key.code),
{
    if letter(key.code, 'q', 'Q') {
        return Action::CloseWizard;
    }
    if key.code == KeyCode::Esc {
        let _ = wizard.pop_step();
    } else if goes_down(key.code) {
        wizard.confirm_scroll = wizard.confirm_scroll.saturating_add(1);
    } else if goes_up(key.code) {
        wizard.confirm_scroll = wizard.confirm_scroll.saturating_sub(1);
    } else if letter(key.code, 'y', 'Y') {
        wizard.commit.request();
    }
    Action::Idle
}

/// Hand a key to the handler of the wizard's current step.
pub fn handle_wizard_key(wizard: &mut SetupWizardState, key: KeyEvent) -> (r: Action)
    requires
        old(wizard)@.wf(),
    ensures
        (final(wizard)@, r) == old(wizard)@.key(key.code),
        final(wizard)@.wf(),
{
    proof {
        reveal(Wizard::key);
    }
    match wizard.step {
        WizardStep::Welcome => handle_welcome_key(wizard, key),
        WizardStep::AuthCheck => handle_auth_check_key(wizard, key),
        WizardStep::WatchMode => handle_watch_mode_key(wizard, key),
        WizardStep::WatchListInput => handle_watch_list_input_key(wizard, key),
        WizardStep::TargetPicker => handle_target_picker_key(wizard, key),
        WizardStep::TargetDetail => handle_target_detail_key(wizard, key),
        WizardStep::LivePreview => handle_live_preview_key(wizard, key),
        WizardStep::LlmConfig => handle_llm_config_key(wizard, key),
        WizardStep::Confirm => handle_confirm_key(wizard, key),
    }
}

/// Going on to a step and back leaves the wizard as it was.
pub proof fn stepping_back_returns(w: Wizard, next: WizardStep)
    ensures
        w.pushed(next).popped() == w,
{
    assert(w.pushed(next).popped().step_history =~= w.step_history);
}

/// Switching a team request over twice puts it back, where it was not there
/// before.
pub proof fn toggling_team_twice_restores(list: Seq<Seq<char>>, x: Seq<char>)
    requires
        !list.contains(x),
    ensures
        toggled(toggled(list, x), x) == list,
{
    lemma_text_absent(list, x, 0);
    lemma_text_last(list, x, 0);
    assert(list.push(x).remove(list.len() as int) =~= list);
}

proof fn lemma_text_absent(list: Seq<Seq<char>>, x: Seq<char>, i: int)
    requires
        0 <= i <= list.len(),
        !list.contains(x),
    ensures
        text_at(list, x, i) is None,
    decreases list.len() - i,
{
    if i < list.len() {
        assert(list[i] != x);
        lemma_text_absent(list, x, i + 1);
    }
}

proof fn lemma_text_last(list: Seq<Seq<char>>, x: Seq<char>, i: int)
    requires
        0 <= i <= list.len(),
        !list.contains(x),
    ensures
        text_at(list.push(x), x, i) == Some(list.len() as int),
    decreases list.len() - i,
{
    if i < list.len() {
        assert(list.push(x)[i] == list[i]);
        assert(list[i] != x);
        lemma_text_last(list, x, i + 1);
    }
}

/// The draft keeps the daemon and interface settings of the configuration
/// that the wizard was opened on.
pub proof fn draft_keeps_other_settings(path: Seq<char>, c: ConfigView)
    ensures
        Wizard::hydrated(path, c).draft_view().daemon == c.daemon,
        Wizard::hydrated(path, c).draft_view().tui == c.tui,
        Wizard::hydrated(path, c).draft_view().llm.enabled == c.llm.enabled,
        Wizard::hydrated(path, c).draft_view().llm.endpoint == c.llm.endpoint,
        Wizard::hydrated(path, c).draft_view().llm.api_key == c.llm.api_key,
        Wizard::hydrated(path, c).draft_view().llm.model == c.llm.model,
        c.llm.provider == "lm_studio"@ || c.llm.provider == "openai_compatible"@
            ==> Wizard::hydrated(path, c).draft_view().llm.provider == c.llm.provider,
{
}

/// Precise targets come back unchanged in the draft, and take the place of a
/// watch list.
pub proof fn draft_round_trips_targets(path: Seq<char>, c: ConfigView)
    requires
        c.targets.len() > 0,
    ensures
        Wizard::hydrated(path, c).draft_view().targets == c.targets,
        Wizard::hydrated(path, c).draft_view().watch.len() == 0,
{
}

proof fn lemma_first_place_skips(x: Seq<char>, y: Seq<char>, c: char)
    ensures
        first_place(x, c) < x.len() ==> first_place(x + y, c) == first_place(x, c),
        first_place(x, c) >= x.len() ==> first_place(x + y, c) == x.len() + first_place(y, c),
    decreases x.len(),
{
    if x.len() == 0 {
        assert(x + y =~= y);
    } else {
        assert((x + y)[0] == x[0]);
        assert((x + y).skip(1) =~= x.skip(1) + y);
        if x[0] != c {
            lemma_first_place_skips(x.skip(1), y, c);
        }
    }
}

proof fn lemma_first_place_none(x: Seq<char>, c: char)
    requires
        !x.contains(c),
    ensures
        first_place(x, c) == x.len(),
    decreases x.len(),
{
    if x.len() > 0 {
        assert(x[0] != c);
        assert forall|i: int| 0 <= i < x.skip(1).len() implies x.skip(1)[i] != c by {
            assert(x[i + 1] != c);
        }
        lemma_first_place_none(x.skip(1), c);
    }
}

proof fn lemma_first_place_range(x: Seq<char>, c: char)
    ensures
        0 <= first_place(x, c) <= x.len(),
    decreases x.len(),
{
    if x.len() > 0 && x[0] != c {
        lemma_first_place_range(x.skip(1), c);
    }
}

/// A last piece joins the pieces of what stands before its separator.
proof fn lemma_pieces_push(x: Seq<char>, y: Seq<char>, c: char)
    requires
        !y.contains(c),
    ensures
        pieces(x.push(c) + y, c) == pieces(x, c).push(y),
    decreases x.len(),
{
    let whole = x.push(c) + y;
    let k = first_place(x, c);
    lemma_first_place_range(x, c);
    lemma_first_place_none(y, c);
    assert(whole =~= x + (seq![c] + y));
    lemma_first_place_skips(x, seq![c] + y, c);
    assert((seq![c] + y)[0] == c);
    if k >= x.len() {
        assert(first_place(whole, c) == x.len());
        assert(whole.take(x.len() as int) =~= x);
        assert(whole.skip(x.len() as int + 1) =~= y);
        assert(pieces(y, c) =~= seq![y]);
        assert(pieces(x, c) =~= seq![x]);
        assert(pieces(whole, c) == seq![whole.take(x.len() as int)] + pieces(
            whole.skip(x.len() as int + 1),
            c,
        ));
        assert(seq![x] + seq![y] =~= seq![x].push(y));
    } else {
        assert(first_place(whole, c) == k);
        assert(whole.take(k) =~= x.take(k));
        assert(whole.skip(k + 1) =~= x.skip(k + 1).push(c) + y);
        lemma_pieces_push(x.skip(k + 1), y, c);
        assert(pieces(whole, c) == seq![whole.take(k)] + pieces(whole.skip(k + 1), c));
        assert(seq![x.take(k)] + pieces(x.skip(k + 1), c).push(y) =~= (seq![x.take(k)] + pieces(
            x.skip(k + 1),
            c,
        )).push(y));
    }
}

proof fn lemma_entries_prefix(a: Seq<Seq<char>>, b: Seq<Seq<char>>, n: int)
    requires
        0 <= n <= a.len(),
        n <= b.len(),
        forall|i: int| 0 <= i < n ==> a[i] == b[i],
    ensures
        entries_upto(a, n) == entries_upto(b, n),
    decreases n,
{
    if n > 0 {
        lemma_entries_prefix(a, b, n - 1);
    }
}

/// An entry that a watch list can hold: not empty, without a comma, and
/// without white space around it.
pub open spec fn plain_entry(e: Seq<char>) -> bool {
    e.len() > 0 && !e.contains(',') && trimmed(e) == e
}

proof fn lemma_watch_round_trip(list: Seq<Seq<char>>)
    requires
        list.len() > 0,
        forall|i: int| 0 <= i < list.len() ==> plain_entry(#[trigger] list[i]),
    ensures
        watch_entries(list_joined(list, ", "@)) == list,
        pieces(list_joined(list, ", "@), ',').len() == list.len(),
    decreases list.len(),
{
    reveal_strlit(", ");
    let last = list.last();
    assert(plain_entry(list[list.len() - 1]));
    if list.len() == 1 {
        lemma_first_place_none(list[0], ',');
        let parts = pieces(list[0], ',');
        assert(parts =~= seq![list[0]]);
        assert(entries_upto(parts, 0) =~= Seq::empty());
        assert(entries_upto(parts, 1) =~= list);
    } else {
        let front = list.drop_last();
        assert forall|i: int| 0 <= i < front.len() implies plain_entry(#[trigger] front[i]) by {
            assert(front[i] == list[i]);
        }
        lemma_watch_round_trip(front);
        let before = list_joined(front, ", "@);
        let tail = seq![' '] + last;
        assert forall|i: int| 0 <= i < tail.len() implies tail[i] != ',' by {
            if i > 0 {
                assert(tail[i] == last[i - 1]);
            }
        }
        assert(before + ", "@ + last =~= before.push(',') + tail);
        lemma_pieces_push(before, tail, ',');
        let parts = pieces(before, ',');
        lemma_entries_prefix(parts.push(tail), parts, parts.len() as int);
        assert(tail.skip(1) =~= last);
        assert(trimmed(tail) == trimmed(last));
        assert(front.push(last) =~= list);
    }
}

/// A watch list comes back unchanged in the draft, where its entries are not
/// empty and have neither commas in them nor white space around them.
pub proof fn draft_round_trips_watch(path: Seq<char>, c: ConfigView)
    requires
        c.targets.len() == 0,
        forall|i: int| 0 <= i < c.watch.len() ==> plain_entry(#[trigger] c.watch[i]),
    ensures
        Wizard::hydrated(path, c).draft_view().watch == c.watch,
        Wizard::hydrated(path, c).draft_view().targets.len() == 0,
{
    if c.watch.len() > 0 {
        lemma_watch_round_trip(c.watch);
    } else {
        assert(c.watch =~= Seq::empty());
    }
}

/// What is under way stays so, and a valid wizard stays valid.
pub open spec fn fetches_kept(before: Wizard, after: Wizard) -> bool {
    &&& before.wf() ==> after.wf()
    &&& before.auth is Loading ==> after.auth is Loading
    &&& before.memberships is Loading ==> after.memberships is Loading
    &&& before.preview is Loading ==> after.preview is Loading
    &&& before.commit is Loading ==> after.commit is Loading
}

proof fn lemma_picker_keeps_fetches(w: Wizard, code: KeyCode)
    ensures
        fetches_kept(w, w.target_picker_key(code).0),
{
    assert(fetches_kept(w, w.manual_entry_key(code)));
}

proof fn lemma_detail_keeps_fetches(w: Wizard, code: KeyCode)
    ensures
        fetches_kept(w, w.target_detail_key(code).0),
{
    assert(fetches_kept(w, w.target_row_toggled()));
    assert(fetches_kept(w, w.target_saved()));
}

proof fn lemma_llm_keeps_fetches(w: Wizard, code: KeyCode)
    ensures
        fetches_kept(w, w.llm_config_key(code).0),
{
    assert(fetches_kept(w, w.field_typed(code)));
}

/// Keys only ask for fetches: one that is under way stays so whatever is
/// pressed, and is not started again. Nor does any key leave the wizard without
/// a valid provider.
pub proof fn keys_never_restart_fetches(w: Wizard, code: KeyCode)
    ensures
        fetches_kept(w, w.key(code).0),
{
    reveal(Wizard::key);
    match w.step {
        WizardStep::TargetPicker => lemma_picker_keeps_fetches(w, code),
        WizardStep::TargetDetail => lemma_detail_keeps_fetches(w, code),
        WizardStep::LlmConfig => lemma_llm_keeps_fetches(w, code),
        WizardStep::Welcome => assert(fetches_kept(w, w.welcome_key(code).0)),
        WizardStep::AuthCheck => assert(fetches_kept(w, w.auth_check_key(code).0)),
        WizardStep::WatchMode => assert(fetches_kept(w, w.watch_mode_key(code).0)),
        WizardStep::WatchListInput => assert(fetches_kept(w, w.watch_list_key(code).0)),
        WizardStep::LivePreview => assert(fetches_kept(w, w.live_preview_key(code).0)),
        WizardStep::Confirm => assert(fetches_kept(w, w.confirm_key(code).0)),
    }
}

} // verus!
