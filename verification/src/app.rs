//! The state of the application and what keys and events do to it.
use vstd::prelude::*;

use crate::api::{
    DiffResponse, HealthResponse, PrDetailResponse, PrGroups, PrListResponse, PrSummary,
    SetupStatusResponse,
};
use crate::cache::{held, CacheView, RenderCache};
use crate::config::{Config, ConfigView};
use crate::github::{priority_order, PrGroup};
use crate::markdown::opt_text;
use crate::split::{trim_text, trimmed};
use crate::text::{joined, same_text};
use crate::wizard::{SetupWizardState, Wizard};

verus! {

/// Whether the interface is still bootstrapping (daemon start, initial
/// fetches) or has real data to show.
#[derive(Debug, Clone, Copy, PartialEq, Eq, Structural)]
pub enum StartupPhase {
    Starting,
    Ready,
}

/// Work that the loop carries out: fetches, whose results come back as events,
/// and effects on the user's system.
#[derive(Debug)]
pub enum Command {
    /// Start the daemon where needed and fetch everything once.
    StartUp,
    /// Fetch the pull-request list; `trigger` asks the daemon to poll first.
    RefreshPrs { trigger: bool },
    /// Reload the daemon's configuration, then fetch it and the list.
    ReloadConfig,
    /// Fetch configuration, health and setup status for the inspector.
    FetchConfigView,
    /// Fetch configuration, health, setup status and list after a commit.
    FetchAppliedConfig,
    LoadDetail(String),
    LoadDiff(String),
    /// Ask for a rich summary, mark the pull request seen, fetch its detail.
    Classify(String),
    MarkSeen(String),
    CheckAuth,
    LoadMemberships,
    PreviewCounts(Config),
    /// Validate and write a configuration, then reload it.
    WriteConfig { config: Config, path: String },
    OpenUrl(String),
    /// Put a branch name on the clipboard.
    CopyBranch(String),
}

#[verifier::ext_equal]
pub enum CommandView {
    StartUp,
    RefreshPrs { trigger: bool },
    ReloadConfig,
    FetchConfigView,
    FetchAppliedConfig,
    LoadDetail(Seq<char>),
    LoadDiff(Seq<char>),
    Classify(Seq<char>),
    MarkSeen(Seq<char>),
    CheckAuth,
    LoadMemberships,
    PreviewCounts(ConfigView),
    WriteConfig { config: ConfigView, path: Seq<char> },
    OpenUrl(Seq<char>),
    CopyBranch(Seq<char>),
}

impl View for Command {
    type V = CommandView;

    open spec fn view(&self) -> CommandView {
        match *self {
            Command::StartUp => CommandView::StartUp,
            Command::RefreshPrs { trigger } => CommandView::RefreshPrs { trigger },
            Command::ReloadConfig => CommandView::ReloadConfig,
            Command::FetchConfigView => CommandView::FetchConfigView,
            Command::FetchAppliedConfig => CommandView::FetchAppliedConfig,
            Command::LoadDetail(id) => CommandView::LoadDetail(id@),
            Command::LoadDiff(id) => CommandView::LoadDiff(id@),
            Command::Classify(id) => CommandView::Classify(id@),
            Command::MarkSeen(id) => CommandView::MarkSeen(id@),
            Command::CheckAuth => CommandView::CheckAuth,
            Command::LoadMemberships => CommandView::LoadMemberships,
            Command::PreviewCounts(c) => CommandView::PreviewCounts(c@),
            Command::WriteConfig { config, path } => CommandView::WriteConfig {
                config: config@,
                path: path@,
            },
            Command::OpenUrl(url) => CommandView::OpenUrl(url@),
            Command::CopyBranch(branch) => CommandView::CopyBranch(branch@),
        }
    }
}

pub open spec fn commands_view(commands: Seq<Command>) -> Seq<CommandView> {
    commands.map_values(|c: Command| c@)
}

/// The state of the application.
#[derive(Debug)]
pub struct AppState {
    pub config: Config,
    /// Configuration path given on the command line.
    pub config_path: Option<String>,
    /// Configuration path used where none was given.
    pub default_config_path: String,
    pub prs: PrListResponse,
    pub health: Option<HealthResponse>,
    /// Last fetched daemon setup status.
    pub setup_status: Option<SetupStatusResponse>,
    /// When `Some`, the setup wizard overlay replaces the dashboard. Opens by
    /// itself while setup is not ready, and on demand.
    pub setup_wizard: Option<Box<SetupWizardState>>,
    /// When true, show the configuration inspector overlay.
    pub show_config_view: bool,
    pub config_scroll: usize,
    /// When true, show the inbox filter search overlay.
    pub show_search: bool,
    /// Active case-insensitive filter substring for the inbox.
    pub search_filter: String,
    /// The filter captured when the search overlay was opened, restored
    /// verbatim when the overlay is cancelled.
    pub search_filter_saved: String,
    /// When true, show the keybinding help modal.
    pub show_help: bool,
    pub help_scroll: usize,
    /// Currently selected pull request.
    pub selected_pr_id: Option<String>,
    pub pr_detail: Option<PrDetailResponse>,
    pub pr_diff: Option<DiffResponse>,
    /// Show line numbers in diff view.
    pub show_line_numbers: bool,
    /// Error message to display as a toast.
    pub error_message: Option<String>,
    /// Passing message to display as a toast while there is no error.
    pub transient_message: Option<String>,
    pub loading: bool,
    pub startup_phase: StartupPhase,
    /// Whether the startup work has been handed out.
    pub startup_spawned: bool,
    /// True while a list refresh is in flight. Guards against ticks and keys
    /// piling up duplicate fetches against a slow daemon.
    pub refresh_inflight: bool,
    /// Monotonic animation tick.
    pub ui_tick: u64,
    pub detail_needs_reload: bool,
    pub diff_needs_reload: bool,
    pub detail_loading: bool,
    pub llm_detail_loading: bool,
    pub diff_loading: bool,
    /// Cached render artifacts.
    pub render_cache: RenderCache,
    /// Work handed out and not yet taken up, in order.
    pub outbox: Vec<Command>,
}

/// The state of the application over the characters of its texts.
#[verifier::ext_equal]
pub struct App {
    pub config: Config,
    pub config_path: Option<Seq<char>>,
    pub default_config_path: Seq<char>,
    pub prs: PrListResponse,
    pub health: Option<HealthResponse>,
    pub setup_status: Option<SetupStatusResponse>,
    pub setup_wizard: Option<Wizard>,
    pub show_config_view: bool,
    pub config_scroll: usize,
    pub show_search: bool,
    pub search_filter: Seq<char>,
    pub search_filter_saved: Seq<char>,
    pub show_help: bool,
    pub help_scroll: usize,
    pub selected_pr_id: Option<Seq<char>>,
    pub pr_detail: Option<PrDetailResponse>,
    pub pr_diff: Option<DiffResponse>,
    pub show_line_numbers: bool,
    pub error_message: Option<Seq<char>>,
    pub transient_message: Option<Seq<char>>,
    pub loading: bool,
    pub startup_phase: StartupPhase,
    pub startup_spawned: bool,
    pub refresh_inflight: bool,
    pub ui_tick: u64,
    pub detail_needs_reload: bool,
    pub diff_needs_reload: bool,
    pub detail_loading: bool,
    pub llm_detail_loading: bool,
    pub diff_loading: bool,
    pub render_cache: CacheView,
    pub outbox: Seq<CommandView>,
}

pub open spec fn wizard_view(w: Option<Box<SetupWizardState>>) -> Option<Wizard> {
    match w {
        Some(b) => Some((*b)@),
        None => None,
    }
}

impl View for AppState {
    type V = App;

    open spec fn view(&self) -> App {
        App {
            config: self.config,
            config_path: opt_text(self.config_path),
            default_config_path: self.default_config_path@,
            prs: self.prs,
            health: self.health,
            setup_status: self.setup_status,
            setup_wizard: wizard_view(self.setup_wizard),
            show_config_view: self.show_config_view,
            config_scroll: self.config_scroll,
            show_search: self.show_search,
            search_filter: self.search_filter@,
            search_filter_saved: self.search_filter_saved@,
            show_help: self.show_help,
            help_scroll: self.help_scroll,
            selected_pr_id: opt_text(self.selected_pr_id),
            pr_detail: self.pr_detail,
            pr_diff: self.pr_diff,
            show_line_numbers: self.show_line_numbers,
            error_message: opt_text(self.error_message),
            transient_message: opt_text(self.transient_message),
            loading: self.loading,
            startup_phase: self.startup_phase,
            startup_spawned: self.startup_spawned,
            refresh_inflight: self.refresh_inflight,
            ui_tick: self.ui_tick,
            detail_needs_reload: self.detail_needs_reload,
            diff_needs_reload: self.diff_needs_reload,
            detail_loading: self.detail_loading,
            llm_detail_loading: self.llm_detail_loading,
            diff_loading: self.diff_loading,
            render_cache: self.render_cache@,
            outbox: commands_view(self.outbox@),
        }
    }
}

/// The first pull request from place `i` of group `g` on with the identifier
/// `id`, group after group.
pub open spec fn pr_from(groups: PrGroups, id: Seq<char>, g: int, i: int) -> Option<PrSummary>
    decreases priority_order().len() - g, groups.members(priority_order()[g]).len() - i,
{
    if g < 0 || g >= priority_order().len() || i < 0 {
        None
    } else if i >= groups.members(priority_order()[g]).len() {
        pr_from(groups, id, g + 1, 0)
    } else if groups.members(priority_order()[g])[i].id@ == id {
        Some(groups.members(priority_order()[g])[i])
    } else {
        pr_from(groups, id, g, i + 1)
    }
}

/// The first pull request with the identifier `id`.
pub open spec fn pr_with_id(groups: PrGroups, id: Seq<char>) -> Option<PrSummary> {
    pr_from(groups, id, 0, 0)
}

/// The first pull request with the identifier `id`.
pub fn find_pr<'a>(groups: &'a PrGroups, id: &str) -> (r: Option<&'a PrSummary>)
    ensures
        held(r) == pr_with_id(*groups, id@),
{
    let order = PrGroup::all_in_priority_order();
    let mut g: usize = 0;
    while g < order.len()
        invariant
            g <= order@.len(),
            order@ == priority_order(),
            pr_with_id(*groups, id@) == pr_from(*groups, id@, g as int, 0),
        decreases order@.len() - g,
    {
        let ghost list_view = groups.members(order@[g as int]);
        match groups.get(order[g]) {
            Some(list) => {
                let mut i: usize = 0;
                while i < list.len()
                    invariant
                        i <= list@.len(),
                        g < order@.len(),
                        order@ == priority_order(),
                        list@ == groups.members(order@[g as int]),
                        pr_with_id(*groups, id@) == pr_from(*groups, id@, g as int, i as int),
                    decreases list@.len() - i,
                {
                    if same_text(list[i].id.as_str(), id) {
                        return Some(&list[i]);
                    }
                    i += 1;
                }
            },
            None => {},
        }
        g += 1;
    }
    None
}

/// Whether a loaded detail no longer matches the list.
pub open spec fn detail_is_stale(
    detail: Option<PrDetailResponse>,
    id: Seq<char>,
    summary: PrSummary,
) -> bool {
    match detail {
        None => true,
        Some(d) => d.id@ != id || d.id@ != summary.id@ || d.updated_at@ != summary.updated_at@
            || d.llm_priority != summary.llm_priority,
    }
}

impl App {
    /// The wizard, where it is open, is in a valid state.
    pub open spec fn wf(self) -> bool {
        self.setup_wizard is Some ==> self.setup_wizard->0.wf()
    }

    pub open spec fn sent(self, c: CommandView) -> App {
        App { outbox: self.outbox.push(c), ..self }
    }

    pub open spec fn toast(self, message: Seq<char>) -> App {
        App { error_message: Some(message), ..self }
    }

    /// Where the wizard writes to: the path given on the command line, else
    /// the usual one.
    pub open spec fn wizard_path(self) -> Seq<char> {
        match self.config_path {
            Some(p) => p,
            None => self.default_config_path,
        }
    }

    #[verifier::opaque]
    pub open spec fn wizard_opened(self) -> App {
        App {
            setup_wizard: Some(Wizard::hydrated(self.wizard_path(), self.config@)),
            show_config_view: false,
            ..self
        }
    }

    pub open spec fn diff_cleared(self) -> App {
        App { pr_diff: None, ..self }
    }

    pub open spec fn config_accepted(self, result: Result<Config, String>) -> App {
        match result {
            Ok(config) => App { config, ..self },
            Err(e) => self.toast("Failed to fetch config: "@ + e@),
        }
    }

    pub open spec fn health_accepted(self, result: Result<HealthResponse, String>) -> App {
        match result {
            Ok(health) => App { health: Some(health), ..self },
            Err(e) => self.toast("Failed to fetch health: "@ + e@),
        }
    }

    /// The wizard opens, unless it is open already.
    pub open spec fn wizard_ensured(self) -> App {
        if self.setup_wizard is None {
            self.wizard_opened()
        } else {
            self
        }
    }

    /// The setup status is kept; where it is not ready, or could not be had,
    /// the wizard opens.
    pub open spec fn setup_accepted(self, result: Result<SetupStatusResponse, String>) -> App {
        match result {
            Ok(status) => if status.ready {
                self.with_setup(status)
            } else {
                self.wizard_ensured().with_setup(status)
            },
            Err(e) => self.toast("Failed to fetch setup status: "@ + e@).wizard_ensured(),
        }
    }

    pub open spec fn with_setup(self, status: SetupStatusResponse) -> App {
        App { setup_status: Some(status), ..self }
    }

    /// Detail and diff are dropped and asked for anew.
    pub open spec fn staled(self) -> App {
        App {
            detail_needs_reload: true,
            diff_needs_reload: true,
            pr_detail: None,
            pr_diff: None,
            ..self
        }
    }

    /// The loaded detail is held against the list: a pull request that is gone
    /// is deselected, and one that has changed is loaded anew.
    pub open spec fn reconciled(self) -> App {
        match self.selected_pr_id {
            None => self,
            Some(id) => match pr_with_id(self.prs.groups, id) {
                None => App { selected_pr_id: None, ..self }.staled(),
                Some(summary) => if detail_is_stale(self.pr_detail, id, summary) {
                    self.staled()
                } else {
                    self
                },
            },
        }
    }

    #[verifier::opaque]
    pub open spec fn prs_accepted(self, result: Result<PrListResponse, String>) -> App {
        let landed = App { refresh_inflight: false, loading: false, ..self };
        match result {
            Ok(prs) => App { prs, ..landed }.reconciled(),
            Err(e) => landed.toast("Failed to fetch PRs: "@ + e@),
        }
    }

    #[verifier::opaque]
    pub open spec fn bundle_accepted(self, b: ConfigRefreshBundle) -> App {
        let a = self.config_accepted(b.config).health_accepted(b.health).setup_accepted(b.setup);
        match b.prs {
            Some(prs) => a.prs_accepted(prs),
            None => a,
        }
    }

    /// The branch of the loaded pull request, white space around it dropped.
    pub open spec fn branch(self) -> Seq<char> {
        match self.pr_detail {
            Some(d) => trimmed(d.head_ref@),
            None => Seq::empty(),
        }
    }

    pub open spec fn branch_copied(self) -> App {
        if self.branch().len() == 0 {
            self.toast(
                "Copy branch failed: PR details are still loading or no branch is available"@,
            )
        } else {
            self.sent(CommandView::CopyBranch(self.branch()))
        }
    }

    pub open spec fn browser_opened(self) -> App {
        match self.pr_detail {
            Some(d) => self.sent(CommandView::OpenUrl(d.url@)),
            None => self,
        }
    }
}

/// Bundled result of a configuration, health and setup fetch. `prs` is only
/// there where the list was fetched too.
#[derive(Debug)]
pub struct ConfigRefreshBundle {
    pub config: Result<Config, String>,
    pub health: Result<HealthResponse, String>,
    pub setup: Result<SetupStatusResponse, String>,
    pub prs: Option<Result<PrListResponse, String>>,
}

/// The state at the start.
pub open spec fn fresh_app(config: Config, prs: PrListResponse) -> App {
    App {
        config,
        config_path: None,
        default_config_path: Seq::empty(),
        prs,
        health: None,
        setup_status: None,
        setup_wizard: None,
        show_config_view: false,
        config_scroll: 0,
        show_search: false,
        search_filter: Seq::empty(),
        search_filter_saved: Seq::empty(),
        show_help: false,
        help_scroll: 0,
        selected_pr_id: None,
        pr_detail: None,
        pr_diff: None,
        show_line_numbers: config.tui.show_line_numbers,
        error_message: None,
        transient_message: None,
        loading: false,
        startup_phase: StartupPhase::Starting,
        startup_spawned: false,
        refresh_inflight: false,
        ui_tick: 0,
        detail_needs_reload: false,
        diff_needs_reload: false,
        detail_loading: false,
        llm_detail_loading: false,
        diff_loading: false,
        render_cache: CacheView::fresh(),
        outbox: Seq::empty(),
    }
}

impl AppState {
    /// The state at the start: no data yet, starting up, with the diff's line
    /// numbers as configured.
    pub fn new(config: Config) -> (r: Self)
        ensures
            r@ == fresh_app(config, r.prs),
            r@.wf(),
            forall|g: PrGroup| #[trigger] r.prs.groups.lane(g) is None,
            r.prs.updated_at@.len() == 0,
    {
        let show_line_numbers = config.tui.show_line_numbers;
        let r = AppState {
            config,
            config_path: None,
            default_config_path: String::new(),
            prs: PrListResponse { groups: PrGroups::new(), updated_at: String::new() },
            health: None,
            setup_status: None,
            setup_wizard: None,
            show_config_view: false,
            config_scroll: 0,
            show_search: false,
            search_filter: String::new(),
            search_filter_saved: String::new(),
            show_help: false,
            help_scroll: 0,
            selected_pr_id: None,
            pr_detail: None,
            pr_diff: None,
            show_line_numbers,
            error_message: None,
            transient_message: None,
            loading: false,
            startup_phase: StartupPhase::Starting,
            startup_spawned: false,
            refresh_inflight: false,
            ui_tick: 0,
            detail_needs_reload: false,
            diff_needs_reload: false,
            detail_loading: false,
            llm_detail_loading: false,
            diff_loading: false,
            render_cache: RenderCache::new(),
            outbox: Vec::new(),
        };
        proof {
            assert(r@ =~= fresh_app(config, r.prs));
        }
        r
    }

    pub(crate) fn send(&mut self, c: Command)
        ensures
            final(self)@ == old(self)@.sent(c@),
    {
        let ghost before = self.outbox@;
        self.outbox.push(c);
        proof {
            assert(commands_view(self.outbox@) =~= commands_view(before).push(c@));
        }
    }

    pub(crate) fn show_error(&mut self, lead: &str, e: &str)
        ensures
            final(self)@ == old(self)@.toast(lead@ + e@),
    {
        self.error_message = Some(joined(lead, e));
    }

    /// Apply a fetched config, or toast the failure.
    pub fn accept_config(&mut self, result: Result<Config, String>)
        ensures
            final(self)@ == old(self)@.config_accepted(result),
    {
        match result {
            Ok(config) => self.config = config,
            Err(e) => self.show_error("Failed to fetch config: ", e.as_str()),
        }
    }

    /// Apply fetched daemon health, or toast the failure.
    pub fn accept_health(&mut self, result: Result<HealthResponse, String>)
        ensures
            final(self)@ == old(self)@.health_accepted(result),
    {
        match result {
            Ok(health) => self.health = Some(health),
            Err(e) => self.show_error("Failed to fetch health: ", e.as_str()),
        }
    }

    pub(crate) fn wizard_config_path(&self) -> (r: String)
        ensures
            r@ == self@.wizard_path(),
    {
        match &self.config_path {
            Some(p) => p.clone(),
            None => self.default_config_path.clone(),
        }
    }

    /// Open the setup wizard, hydrated from the currently loaded config: the
    /// same steps for a first run and for re-editing.
    pub fn open_wizard(&mut self)
        ensures
            final(self)@ == old(self)@.wizard_opened(),
            final(self)@.wf(),
    {
        proof {
            reveal(App::wizard_opened);
        }
        let path = self.wizard_config_path();
        self.setup_wizard = Some(Box::new(SetupWizardState::hydrate(path, &self.config)));
        self.show_config_view = false;
    }

    /// Apply a fetched setup status. Opens the wizard when setup isn't ready,
    /// unless one is already open, and never closes one.
    pub fn accept_setup_status(&mut self, result: Result<SetupStatusResponse, String>)
        ensures
            final(self)@ == old(self)@.setup_accepted(result),
    {
        match result {
            Ok(status) => {
                if !status.ready {
                    self.ensure_wizard();
                }
                self.keep_setup(status);
            },
            Err(e) => {
                self.show_error("Failed to fetch setup status: ", e.as_str());
                self.ensure_wizard();
            },
        }
    }

    fn ensure_wizard(&mut self)
        ensures
            final(self)@ == old(self)@.wizard_ensured(),
    {
        if self.setup_wizard.is_none() {
            self.open_wizard();
        }
    }

    fn keep_setup(&mut self, status: SetupStatusResponse)
        ensures
            final(self)@ == old(self)@.with_setup(status),
    {
        self.setup_status = Some(status);
    }

    /// Clear the loaded diff response.
    pub fn clear_diff_cache(&mut self)
        ensures
            final(self)@ == old(self)@.diff_cleared(),
    {
        self.pr_diff = None;
    }

    /// The list entry of the selected pull request.
    pub fn selected_summary(&self) -> (r: Option<&PrSummary>)
        ensures
            held(r) == match self@.selected_pr_id {
                Some(id) => pr_with_id(self@.prs.groups, id),
                None => None,
            },
    {
        match &self.selected_pr_id {
            Some(id) => find_pr(&self.prs.groups, id.as_str()),
            None => None,
        }
    }

    fn mark_selected_detail_stale(&mut self)
        ensures
            final(self)@ == old(self)@.staled(),
    {
        self.detail_needs_reload = true;
        self.diff_needs_reload = true;
        self.pr_detail = None;
        self.clear_diff_cache();
    }

    pub fn reconcile_selected_detail_freshness(&mut self)
        ensures
            final(self)@ == old(self)@.reconciled(),
    {
        let id = match &self.selected_pr_id {
            Some(id) => id.clone(),
            None => return,
        };
        let mut gone = false;
        let mut stale = true;
        match find_pr(&self.prs.groups, id.as_str()) {
            None => {
                gone = true;
            },
            Some(summary) => {
                if let Some(d) = &self.pr_detail {
                    stale = !same_text(d.id.as_str(), id.as_str()) || !same_text(
                        d.id.as_str(),
                        summary.id.as_str(),
                    ) || !same_text(d.updated_at.as_str(), summary.updated_at.as_str())
                        || d.llm_priority != summary.llm_priority;
                }
            },
        }
        if gone {
            self.selected_pr_id = None;
            self.mark_selected_detail_stale();
        } else if stale {
            self.mark_selected_detail_stale();
        }
    }

    /// Apply a fetched list (or its failure), clearing the in-flight guard
    /// either way.
    pub fn accept_prs(&mut self, result: Result<PrListResponse, String>)
        ensures
            final(self)@ == old(self)@.prs_accepted(result),
    {
        proof {
            reveal(App::prs_accepted);
        }
        self.refresh_inflight = false;
        self.loading = false;
        match result {
            Ok(resp) => {
                self.prs = resp;
                self.reconcile_selected_detail_freshness();
            },
            Err(e) => self.show_error("Failed to fetch PRs: ", e.as_str()),
        }
    }

    /// Apply a bundle: the shared acceptance path for opening the config view,
    /// reloading config, and applying a wizard commit.
    pub fn accept_config_bundle(&mut self, bundle: ConfigRefreshBundle)
        ensures
            final(self)@ == old(self)@.bundle_accepted(bundle),
    {
        proof {
            reveal(App::bundle_accepted);
        }
        self.accept_config(bundle.config);
        self.accept_health(bundle.health);
        self.accept_setup_status(bundle.setup);
        if let Some(prs) = bundle.prs {
            self.accept_prs(prs);
        }
    }

    pub fn accept_detail(&mut self, detail: PrDetailResponse)
        ensures
            final(self)@ == (App { pr_detail: Some(detail), ..old(self)@ }),
    {
        self.pr_detail = Some(detail);
    }

    pub fn accept_diff(&mut self, diff_resp: DiffResponse)
        ensures
            final(self)@ == (App { pr_diff: Some(diff_resp), ..old(self)@ }),
    {
        self.pr_diff = Some(diff_resp);
    }

    /// Hand out the opening of the pull request in the browser.
    pub fn open_pr_in_browser(&mut self)
        ensures
            final(self)@ == old(self)@.browser_opened(),
    {
        let url = match &self.pr_detail {
            Some(d) => d.url.clone(),
            None => return,
        };
        self.send(Command::OpenUrl(url));
    }

    /// Hand out the copying of the selected pull request's source branch to
    /// the clipboard.
    pub fn copy_selected_branch(&mut self)
        ensures
            final(self)@ == old(self)@.branch_copied(),
    {
        let branch = match &self.pr_detail {
            Some(d) => trim_text(d.head_ref.as_str()),
            None => String::new(),
        };
        if branch.as_str().is_empty() {
            self.error_message = Some(
                "Copy branch failed: PR details are still loading or no branch is available".to_owned(),
            );
        } else {
            self.send(Command::CopyBranch(branch));
        }
    }

    /// Say how copying a branch went.
    pub fn accept_copy(&mut self, branch: &str, result: Result<(), String>)
        ensures
            final(self)@ == old(self)@.toast(
                match result {
                    Ok(()) => "Copied branch: "@ + branch@,
                    Err(e) => "Copy branch failed: "@ + e@,
                },
            ),
    {
        match result {
            Ok(()) => self.show_error("Copied branch: ", branch),
            Err(e) => self.show_error("Copy branch failed: ", e.as_str()),
        }
    }

    /// Whether the wizard, where it is open, is in a valid state.
    pub fn is_valid(&self) -> (r: bool)
        ensures
            r == self@.wf(),
    {
        match &self.setup_wizard {
            Some(wizard) => wizard.llm_provider_idx < 2,
            None => true,
        }
    }

    /// Take the work handed out so far, in order.
    pub fn take_commands(&mut self) -> (r: Vec<Command>)
        ensures
            commands_view(r@) == old(self)@.outbox,
            final(self)@ == (App { outbox: Seq::empty(), ..old(self)@ }),
    {
        let mut out: Vec<Command> = Vec::new();
        out.append(&mut self.outbox);
        proof {
            assert(out@ =~= old(self).outbox@);
            assert(commands_view(self.outbox@) =~= Seq::empty());
        }
        out
    }
}

/// A setup status opens the wizard where setup is not ready, but never touches
/// one that is open: it neither starts it over nor closes it.
pub proof fn setup_status_leaves_open_wizard(
    a: App,
    result: Result<SetupStatusResponse, String>,
)
    ensures
        a.setup_wizard is Some ==> a.setup_accepted(result).setup_wizard == a.setup_wizard,
        a.setup_wizard is None ==> (a.setup_accepted(result).setup_wizard is Some <==> (
        result is Err || !result->Ok_0.ready)),
{
    reveal(App::wizard_opened);
}

} // verus!
