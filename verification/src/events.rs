//! What the loop is told, and what it is to do about it.
use vstd::prelude::*;

use crate::api::{
    ConfigPreviewCountsResponse, DiffResponse, HealthResponse, MembershipsResponse,
    PrDetailResponse, PrListResponse, SetupStatusResponse,
};
use crate::app::{
    App, AppState, Command, CommandView, ConfigRefreshBundle, StartupPhase,
};
use crate::config::{copy_opt, Config};
use crate::keys::{Action, KeyEvent};
use crate::navigation::{keys_keep_wizard_valid, ui, Ui};
use crate::state::ViewStateManager;
use crate::text::same_text;
use crate::theme::Blade;
use crate::wizard::{AsyncResource, SetupWizardState, Wizard};

verus! {

/// Everything fetched at startup.
#[derive(Debug)]
pub struct StartupLoad {
    pub setup_status: SetupStatusResponse,
    pub config: Config,
    pub prs: PrListResponse,
    pub health: Option<HealthResponse>,
}

/// Events that the loop processes.
#[derive(Debug)]
pub enum TuiEvent {
    Key(KeyEvent),
    /// The terminal was resized; the next frame takes up the new size.
    Resize,
    /// Periodic tick for data refresh.
    DataTick,
    /// Periodic tick for animations.
    UiTick,
    /// Result of startup loading.
    StartupLoaded(Result<StartupLoad, String>),
    /// Result of a list refresh. `trigger_error` carries the failure to ask the
    /// daemon for a poll; the fetch proceeds either way.
    PrsRefreshed {
        trigger_error: Option<String>,
        prs: Result<PrListResponse, String>,
        health: Option<HealthResponse>,
    },
    /// Data for the configuration inspector.
    ConfigViewOpened(ConfigRefreshBundle),
    /// Result of reloading the configuration, with the data fetched after it.
    ConfigReloaded(Result<ConfigRefreshBundle, String>),
    /// Data fetched after the wizard's configuration was written.
    WizardConfigApplied(ConfigRefreshBundle),
    DetailLoaded(String, Result<PrDetailResponse, String>),
    DiffLoaded(String, Result<DiffResponse, String>),
    /// Result of asking for a rich summary.
    LlmClassified(String, Result<(), String>),
    WizardAuthStatusLoaded(Result<SetupStatusResponse, String>),
    WizardMembershipsLoaded(Result<MembershipsResponse, String>),
    WizardPreviewLoaded(Result<ConfigPreviewCountsResponse, String>),
    WizardConfigWritten(Result<(), String>),
}

/// Whether the loop keeps running after an event.
#[derive(Debug, Clone, Copy, PartialEq, Eq, Structural)]
pub enum LoopControl {
    Continue,
    Quit,
}

/// The outcome of a fetch.
pub open spec fn fetched<T>(result: Result<T, String>) -> AsyncResource<T> {
    match result {
        Ok(v) => AsyncResource::Ready(v),
        Err(e) => AsyncResource::Failed(e),
    }
}

fn resource<T>(result: Result<T, String>) -> (r: AsyncResource<T>)
    ensures
        r == fetched(result),
{
    match result {
        Ok(v) => AsyncResource::Ready(v),
        Err(e) => AsyncResource::Failed(e),
    }
}

impl Wizard {
    pub open spec fn with_auth(self, auth: AsyncResource<SetupStatusResponse>) -> Wizard {
        Wizard { auth, ..self }
    }

    pub open spec fn with_memberships(self, m: AsyncResource<MembershipsResponse>) -> Wizard {
        Wizard { memberships: m, ..self }
    }

    pub open spec fn with_preview(self, p: AsyncResource<ConfigPreviewCountsResponse>) -> Wizard {
        Wizard { preview: p, ..self }
    }

    pub open spec fn with_commit(self, c: AsyncResource<()>) -> Wizard {
        Wizard { commit: c, ..self }
    }
}

impl App {
    pub open spec fn refresh_started(self, trigger: bool) -> App {
        App { refresh_inflight: true, ..self }.sent(CommandView::RefreshPrs { trigger })
    }

    pub open spec fn config_view_shown(self) -> App {
        App { show_config_view: true, config_scroll: 0, ..self }
    }

    pub open spec fn config_view_hidden(self) -> App {
        App { show_config_view: false, ..self }
    }

    /// What an action asks for beyond the change of state.
    #[verifier::opaque]
    pub open spec fn acted(self, action: Action) -> App {
        match action {
            Action::Idle => self,
            Action::Quit => self,
            Action::Refresh => self.refresh_started(true),
            Action::ReloadConfig => self.sent(CommandView::ReloadConfig),
            Action::OpenWizard => self.wizard_opened(),
            Action::CloseWizard => self.with_wizard(None),
            Action::ToggleConfig => if self.show_config_view {
                self.config_view_hidden()
            } else {
                self.config_view_shown().sent(CommandView::FetchConfigView)
            },
        }
    }

    pub open spec fn with_health(self, h: Option<HealthResponse>) -> App {
        match h {
            Some(_) => App { health: h, ..self },
            None => self,
        }
    }

    pub open spec fn told(self, message: Option<String>) -> App {
        match message {
            Some(m) => self.toast(m@),
            None => self,
        }
    }

    pub open spec fn ready(self) -> App {
        App { startup_phase: StartupPhase::Ready, ..self }
    }

    /// The wizard opened on a configuration that is not the loaded one.
    pub open spec fn wizard_on(self, config: Config) -> App {
        self.with_wizard(Some(Wizard::hydrated(self.wizard_path(), config@)))
    }

    pub open spec fn loaded(self, load: StartupLoad) -> App {
        App {
            setup_status: Some(load.setup_status),
            config: load.config,
            prs: load.prs,
            health: load.health,
            loading: false,
            ..self
        }
    }

    /// Startup is over: with its data, and the wizard where setup is not
    /// ready; or with its failure.
    #[verifier::opaque]
    pub open spec fn started(self, result: Result<StartupLoad, String>) -> App {
        match result {
            Ok(load) => if load.setup_status.ready {
                self.loaded(load).reconciled().ready()
            } else {
                self.wizard_on(load.config).loaded(load).reconciled().ready()
            },
            Err(e) => self.toast(e@).ready(),
        }
    }

    pub open spec fn is_selected(self, id: Seq<char>) -> bool {
        self.selected_pr_id == Some(id)
    }

    pub open spec fn detail_landed(self) -> App {
        App { detail_loading: false, ..self }
    }

    pub open spec fn with_detail(self, d: PrDetailResponse) -> App {
        App { pr_detail: Some(d), ..self }
    }

    pub open spec fn classifying(self, id: Seq<char>) -> App {
        App { llm_detail_loading: true, ..self }.sent(CommandView::Classify(id))
    }

    /// A detail has arrived. Only that of the selected pull request is kept. In
    /// the Overview, one without a rich summary asks for it, where that is
    /// enabled and not under way; one with it is marked as seen.
    #[verifier::opaque]
    pub open spec fn detail_arrived(
        self,
        id: Seq<char>,
        result: Result<PrDetailResponse, String>,
        blade: Blade,
    ) -> App {
        let landed = self.detail_landed();
        if !landed.is_selected(id) {
            landed
        } else {
            match result {
                Err(e) => landed.toast("Failed to load detail: "@ + e@),
                Ok(d) => {
                    let kept = landed.with_detail(d);
                    let rich = d.llm_rich_summary is Some;
                    if blade == Blade::Overview && !rich && kept.config.llm.enabled
                        && !kept.llm_detail_loading {
                        kept.classifying(id)
                    } else if blade == Blade::Overview && rich {
                        kept.sent(CommandView::MarkSeen(id))
                    } else {
                        kept
                    }
                },
            }
        }
    }

    pub open spec fn summary_landed(self) -> App {
        App { llm_detail_loading: false, ..self }
    }

    #[verifier::opaque]
    pub open spec fn classified(self, id: Seq<char>, result: Result<(), String>) -> App {
        let landed = self.summary_landed();
        match result {
            Err(e) if landed.is_selected(id) => landed.toast("LLM summary failed: "@ + e@),
            _ => landed,
        }
    }

    pub open spec fn diff_landed(self) -> App {
        App { diff_loading: false, ..self }
    }

    pub open spec fn with_diff(self, d: DiffResponse) -> App {
        App { pr_diff: Some(d), ..self }
    }

    pub open spec fn auth_kept(self, auth: AsyncResource<SetupStatusResponse>) -> App {
        match self.setup_wizard {
            None => self,
            Some(w) => self.with_wizard(Some(w.with_auth(auth))),
        }
    }

    /// The state of setup has arrived in the wizard. A failure is also shown
    /// as a toast.
    #[verifier::opaque]
    pub open spec fn auth_arrived(self, result: Result<SetupStatusResponse, String>) -> App {
        if self.setup_wizard is None {
            self
        } else {
            match result {
                Ok(status) => self.auth_kept(AsyncResource::Ready(status)),
                Err(e) => self.auth_kept(AsyncResource::Failed(e)).toast(
                    "Failed to check auth: "@ + e@,
                ),
            }
        }
    }

    #[verifier::opaque]
    pub open spec fn memberships_arrived(self, result: Result<MembershipsResponse, String>) -> App {
        match self.setup_wizard {
            None => self,
            Some(w) => self.with_wizard(Some(w.with_memberships(fetched(result)))),
        }
    }

    #[verifier::opaque]
    pub open spec fn preview_arrived(
        self,
        result: Result<ConfigPreviewCountsResponse, String>,
    ) -> App {
        match self.setup_wizard {
            None => self,
            Some(w) => self.with_wizard(Some(w.with_preview(fetched(result)))),
        }
    }

    /// The configuration was written: the wizard closes and everything is
    /// fetched; or writing failed, which the wizard shows.
    #[verifier::opaque]
    pub open spec fn config_written(self, result: Result<(), String>) -> App {
        match result {
            Ok(()) => self.with_wizard(None).sent(CommandView::FetchAppliedConfig),
            Err(e) => match self.setup_wizard {
                None => self,
                Some(w) => self.with_wizard(Some(w.with_commit(AsyncResource::Failed(e)))),
            },
        }
    }
}

impl Ui {
    /// A diff has arrived. Only that of the selected pull request is kept, and
    /// the diff then shows the selected file.
    #[verifier::opaque]
    pub open spec fn diff_arrived(self, id: Seq<char>, result: Result<DiffResponse, String>) -> Ui {
        let landed = self.app.diff_landed();
        if !landed.is_selected(id) {
            self.with_app(landed)
        } else {
            match result {
                Err(e) => self.with_app(landed.toast("Failed to load diff: "@ + e@)),
                Ok(d) => Ui {
                    app: landed.with_diff(d),
                    pane: self.pane.file_shown(landed.render_cache.diff_file_boundaries),
                    ..self
                },
            }
        }
    }

    /// One event that is not a tick.
    #[verifier::opaque]
    pub open spec fn event(self, event: TuiEvent) -> (Ui, LoopControl) {
        match event {
            TuiEvent::Key(key) => {
                let (after, action) = self.key(key);
                (
                    after.with_app(after.app.acted(action)),
                    if action == Action::Quit {
                        LoopControl::Quit
                    } else {
                        LoopControl::Continue
                    },
                )
            },
            TuiEvent::Resize => (self, LoopControl::Continue),
            TuiEvent::DataTick => (self, LoopControl::Continue),
            TuiEvent::UiTick => (self, LoopControl::Continue),
            TuiEvent::StartupLoaded(result) => (
                self.with_app(self.app.started(result)),
                LoopControl::Continue,
            ),
            TuiEvent::PrsRefreshed { trigger_error, prs, health } => (
                self.with_app(
                    self.app.told(trigger_error).prs_accepted(prs).with_health(health),
                ),
                LoopControl::Continue,
            ),
            TuiEvent::ConfigViewOpened(b) => (
                self.with_app(self.app.bundle_accepted(b)),
                LoopControl::Continue,
            ),
            TuiEvent::ConfigReloaded(result) => (
                self.with_app(
                    match result {
                        Ok(b) => self.app.bundle_accepted(b),
                        Err(e) => self.app.toast("Failed to reload config: "@ + e@),
                    },
                ),
                LoopControl::Continue,
            ),
            TuiEvent::WizardConfigApplied(b) => (
                self.with_app(self.app.bundle_accepted(b)),
                LoopControl::Continue,
            ),
            TuiEvent::DetailLoaded(id, result) => (
                self.with_app(self.app.detail_arrived(id@, result, self.pane.active_blade)),
                LoopControl::Continue,
            ),
            TuiEvent::DiffLoaded(id, result) => (
                self.diff_arrived(id@, result),
                LoopControl::Continue,
            ),
            TuiEvent::LlmClassified(id, result) => (
                self.with_app(self.app.classified(id@, result)),
                LoopControl::Continue,
            ),
            TuiEvent::WizardAuthStatusLoaded(result) => (
                self.with_app(self.app.auth_arrived(result)),
                LoopControl::Continue,
            ),
            TuiEvent::WizardMembershipsLoaded(result) => (
                self.with_app(self.app.memberships_arrived(result)),
                LoopControl::Continue,
            ),
            TuiEvent::WizardPreviewLoaded(result) => (
                self.with_app(self.app.preview_arrived(result)),
                LoopControl::Continue,
            ),
            TuiEvent::WizardConfigWritten(result) => (
                self.with_app(self.app.config_written(result)),
                LoopControl::Continue,
            ),
        }
    }
}

impl SetupWizardState {
    fn set_auth(&mut self, auth: AsyncResource<SetupStatusResponse>)
        ensures
            final(self)@ == old(self)@.with_auth(auth),
    {
        self.auth = auth;
    }

    fn set_memberships(&mut self, m: AsyncResource<MembershipsResponse>)
        ensures
            final(self)@ == old(self)@.with_memberships(m),
    {
        self.memberships = m;
    }

    fn set_preview(&mut self, p: AsyncResource<ConfigPreviewCountsResponse>)
        ensures
            final(self)@ == old(self)@.with_preview(p),
    {
        self.preview = p;
    }

    fn set_commit(&mut self, c: AsyncResource<()>)
        ensures
            final(self)@ == old(self)@.with_commit(c),
    {
        self.commit = c;
    }
}

impl AppState {
    fn start_refresh(&mut self, trigger: bool)
        ensures
            final(self)@ == old(self)@.refresh_started(trigger),
    {
        self.refresh_inflight = true;
        self.send(Command::RefreshPrs { trigger });
    }

    fn show_config(&mut self)
        ensures
            final(self)@ == old(self)@.config_view_shown(),
    {
        self.show_config_view = true;
        self.config_scroll = 0;
    }

    fn hide_config(&mut self)
        ensures
            final(self)@ == old(self)@.config_view_hidden(),
    {
        self.show_config_view = false;
    }

    fn close_wizard(&mut self)
        ensures
            final(self)@ == old(self)@.with_wizard(None),
    {
        self.setup_wizard = None;
    }

    fn act(&mut self, action: Action)
        ensures
            final(self)@ == old(self)@.acted(action),
    {
        proof {
            reveal(App::acted);
        }
        match action {
            Action::Idle | Action::Quit => {},
            Action::Refresh => self.start_refresh(true),
            Action::ReloadConfig => self.send(Command::ReloadConfig),
            Action::OpenWizard => self.open_wizard(),
            Action::CloseWizard => self.close_wizard(),
            Action::ToggleConfig => {
                if self.show_config_view {
                    self.hide_config();
                } else {
                    self.show_config();
                    self.send(Command::FetchConfigView);
                }
            },
        }
    }

    fn keep_health(&mut self, h: Option<HealthResponse>)
        ensures
            final(self)@ == old(self)@.with_health(h),
    {
        if h.is_some() {
            self.health = h;
        }
    }

    fn tell(&mut self, message: Option<String>)
        ensures
            final(self)@ == old(self)@.told(message),
    {
        if message.is_some() {
            self.error_message = message;
        }
    }

    fn become_ready(&mut self)
        ensures
            final(self)@ == old(self)@.ready(),
    {
        self.startup_phase = StartupPhase::Ready;
    }

    fn open_wizard_on(&mut self, config: &Config)
        ensures
            final(self)@ == old(self)@.wizard_on(*config),
    {
        let path = self.wizard_config_path();
        self.put_wizard(Box::new(SetupWizardState::hydrate(path, config)));
    }

    fn keep_load(&mut self, load: StartupLoad)
        ensures
            final(self)@ == old(self)@.loaded(load),
    {
        self.setup_status = Some(load.setup_status);
        self.config = load.config;
        self.prs = load.prs;
        self.health = load.health;
        self.loading = false;
    }

    fn accept_startup(&mut self, result: Result<StartupLoad, String>)
        ensures
            final(self)@ == old(self)@.started(result),
    {
        proof {
            reveal(App::started);
        }
        match result {
            Ok(load) => {
                if !load.setup_status.ready {
                    self.open_wizard_on(&load.config);
                }
                self.keep_load(load);
                self.reconcile_selected_detail_freshness();
            },
            Err(e) => self.tell(Some(e)),
        }
        self.become_ready();
    }

    fn selects(&self, id: &str) -> (r: bool)
        ensures
            r == self@.is_selected(id@),
    {
        match &self.selected_pr_id {
            Some(s) => same_text(s.as_str(), id),
            None => false,
        }
    }

    fn land_detail(&mut self)
        ensures
            final(self)@ == old(self)@.detail_landed(),
    {
        self.detail_loading = false;
    }

    fn start_classify(&mut self, id: String)
        ensures
            final(self)@ == old(self)@.classifying(id@),
    {
        self.llm_detail_loading = true;
        self.send(Command::Classify(id));
    }

    fn detail_came(&mut self, id: String, result: Result<PrDetailResponse, String>, blade: Blade)
        ensures
            final(self)@ == old(self)@.detail_arrived(id@, result, blade),
    {
        proof {
            reveal(App::detail_arrived);
        }
        self.land_detail();
        if !self.selects(id.as_str()) {
            return;
        }
        match result {
            Err(e) => self.show_error("Failed to load detail: ", e.as_str()),
            Ok(detail) => {
                let rich = detail.llm_rich_summary.is_some();
                self.accept_detail(detail);
                if blade == Blade::Overview && !rich && self.config.llm.enabled
                    && !self.llm_detail_loading {
                    self.start_classify(id);
                } else if blade == Blade::Overview && rich {
                    self.send(Command::MarkSeen(id));
                }
            },
        }
    }

    fn land_summary(&mut self)
        ensures
            final(self)@ == old(self)@.summary_landed(),
    {
        self.llm_detail_loading = false;
    }

    fn classify_came(&mut self, id: &str, result: Result<(), String>)
        ensures
            final(self)@ == old(self)@.classified(id@, result),
    {
        proof {
            reveal(App::classified);
        }
        self.land_summary();
        if let Err(e) = result {
            if self.selects(id) {
                self.show_error("LLM summary failed: ", e.as_str());
            }
        }
    }

    fn land_diff(&mut self)
        ensures
            final(self)@ == old(self)@.diff_landed(),
    {
        self.diff_loading = false;
    }

    fn diff_came(
        &mut self,
        view: &mut ViewStateManager,
        id: &str,
        result: Result<DiffResponse, String>,
    )
        ensures
            ui(final(self)@, final(view)@) == ui(old(self)@, old(view)@).diff_arrived(id@, result),
    {
        proof {
            reveal(Ui::diff_arrived);
        }
        self.land_diff();
        if !self.selects(id) {
            return;
        }
        match result {
            Err(e) => self.show_error("Failed to load diff: ", e.as_str()),
            Ok(d) => {
                self.accept_diff(d);
                self.scroll_diff_to_selected_file(view);
            },
        }
    }

    fn keep_auth(&mut self, auth: AsyncResource<SetupStatusResponse>)
        ensures
            final(self)@ == old(self)@.auth_kept(auth),
    {
        match self.take_wizard() {
            None => {},
            Some(b) => {
                let mut wizard = b;
                wizard.set_auth(auth);
                self.put_wizard(wizard);
            },
        }
    }

    fn auth_came(&mut self, result: Result<SetupStatusResponse, String>)
        ensures
            final(self)@ == old(self)@.auth_arrived(result),
    {
        proof {
            reveal(App::auth_arrived);
        }
        if self.setup_wizard.is_none() {
            return;
        }
        match result {
            Ok(status) => self.keep_auth(AsyncResource::Ready(status)),
            Err(e) => {
                self.keep_auth(AsyncResource::Failed(e.clone()));
                self.show_error("Failed to check auth: ", e.as_str());
            },
        }
    }

    fn memberships_came(&mut self, result: Result<MembershipsResponse, String>)
        ensures
            final(self)@ == old(self)@.memberships_arrived(result),
    {
        proof {
            reveal(App::memberships_arrived);
        }
        match self.take_wizard() {
            None => {},
            Some(b) => {
                let mut wizard = b;
                wizard.set_memberships(resource(result));
                self.put_wizard(wizard);
            },
        }
    }

    fn preview_came(&mut self, result: Result<ConfigPreviewCountsResponse, String>)
        ensures
            final(self)@ == old(self)@.preview_arrived(result),
    {
        proof {
            reveal(App::preview_arrived);
        }
        match self.take_wizard() {
            None => {},
            Some(b) => {
                let mut wizard = b;
                wizard.set_preview(resource(result));
                self.put_wizard(wizard);
            },
        }
    }

    fn write_failed(&mut self, e: String)
        ensures
            final(self)@ == old(self)@.config_written(Err(e)),
    {
        proof {
            reveal(App::config_written);
        }
        match self.take_wizard() {
            None => {},
            Some(b) => {
                let mut wizard = b;
                wizard.set_commit(AsyncResource::Failed(e));
                self.put_wizard(wizard);
            },
        }
    }

    fn write_came(&mut self, result: Result<(), String>)
        ensures
            final(self)@ == old(self)@.config_written(result),
    {
        proof {
            reveal(App::config_written);
        }
        match result {
            Ok(()) => {
                self.close_wizard();
                self.send(Command::FetchAppliedConfig);
            },
            Err(e) => self.write_failed(e),
        }
    }

    fn refresh_came(
        &mut self,
        trigger_error: Option<String>,
        prs: Result<PrListResponse, String>,
        health: Option<HealthResponse>,
    )
        ensures
            final(self)@ == old(self)@.told(trigger_error).prs_accepted(prs).with_health(health),
    {
        self.tell(trigger_error);
        self.accept_prs(prs);
        self.keep_health(health);
    }
}

/// Handle one event that is not a tick. Ticks are collapsed before events get
/// here, since that is a property of the batch, not of a single event.
pub fn handle_event(state: &mut AppState, view: &mut ViewStateManager, event: TuiEvent) -> (r:
    LoopControl)
    requires
        old(state)@.wf(),
        !(event is DataTick),
        !(event is UiTick),
    ensures
        (ui(final(state)@, final(view)@), r) == ui(old(state)@, old(view)@).event(event),
{
    proof {
        reveal(Ui::event);
    }
    match event {
        TuiEvent::Key(key) => {
            let action = state.handle_key(view, key);
            state.act(action);
            if action == Action::Quit {
                return LoopControl::Quit;
            }
        },
        TuiEvent::Resize | TuiEvent::DataTick | TuiEvent::UiTick => {},
        TuiEvent::StartupLoaded(result) => state.accept_startup(result),
        TuiEvent::PrsRefreshed { trigger_error, prs, health } => state.refresh_came(
            trigger_error,
            prs,
            health,
        ),
        TuiEvent::ConfigViewOpened(bundle) => state.accept_config_bundle(bundle),
        TuiEvent::ConfigReloaded(result) => match result {
            Ok(bundle) => state.accept_config_bundle(bundle),
            Err(e) => state.show_error("Failed to reload config: ", e.as_str()),
        },
        TuiEvent::WizardConfigApplied(bundle) => state.accept_config_bundle(bundle),
        TuiEvent::DetailLoaded(id, result) => state.detail_came(
            id,
            result,
            view.view.active_blade,
        ),
        TuiEvent::DiffLoaded(id, result) => state.diff_came(view, id.as_str(), result),
        TuiEvent::LlmClassified(id, result) => state.classify_came(id.as_str(), result),
        TuiEvent::WizardAuthStatusLoaded(result) => state.auth_came(result),
        TuiEvent::WizardMembershipsLoaded(result) => state.memberships_came(result),
        TuiEvent::WizardPreviewLoaded(result) => state.preview_came(result),
        TuiEvent::WizardConfigWritten(result) => state.write_came(result),
    }
    LoopControl::Continue
}

impl App {
    pub open spec fn startup_pumped(self) -> App {
        if self.startup_spawned {
            self
        } else {
            App { startup_spawned: true, ..self }.sent(CommandView::StartUp)
        }
    }

    pub open spec fn detail_request_taken(self) -> App {
        App { detail_needs_reload: false, ..self }
    }

    pub open spec fn detail_requested(self, id: Seq<char>) -> App {
        App { detail_loading: true, detail_needs_reload: false, ..self }.sent(
            CommandView::LoadDetail(id),
        )
    }

    /// A detail that is asked for is fetched, where a pull request is selected.
    pub open spec fn detail_pumped(self) -> App {
        if !self.detail_needs_reload {
            self
        } else {
            match self.selected_pr_id {
                Some(id) => self.detail_requested(id),
                None => self.detail_request_taken(),
            }
        }
    }

    pub open spec fn diff_request_taken(self) -> App {
        App { diff_needs_reload: false, ..self }
    }

    pub open spec fn diff_requested(self, id: Seq<char>) -> App {
        App { diff_loading: true, diff_needs_reload: false, ..self }.sent(CommandView::LoadDiff(id))
    }

    /// A diff that is asked for is fetched, where a pull request is selected.
    pub open spec fn diff_pumped(self) -> App {
        if !self.diff_needs_reload {
            self
        } else {
            match self.selected_pr_id {
                Some(id) => self.diff_requested(id),
                None => self.diff_request_taken(),
            }
        }
    }

    pub open spec fn auth_pumped(self) -> App {
        match self.setup_wizard {
            Some(w) if w.auth is Requested => self.with_wizard(
                Some(w.with_auth(AsyncResource::Loading)),
            ).sent(CommandView::CheckAuth),
            _ => self,
        }
    }

    pub open spec fn memberships_pumped(self) -> App {
        match self.setup_wizard {
            Some(w) if w.memberships is Requested => self.with_wizard(
                Some(w.with_memberships(AsyncResource::Loading)),
            ).sent(CommandView::LoadMemberships),
            _ => self,
        }
    }

    pub open spec fn preview_pumped(self) -> App {
        match self.setup_wizard {
            Some(w) if w.preview is Requested => self.with_wizard(
                Some(w.with_preview(AsyncResource::Loading)),
            ).sent(CommandView::PreviewCounts(w.draft_view())),
            _ => self,
        }
    }

    pub open spec fn commit_pumped(self) -> App {
        match self.setup_wizard {
            Some(w) if w.commit is Requested => self.with_wizard(
                Some(w.with_commit(AsyncResource::Loading)),
            ).sent(CommandView::WriteConfig { config: w.draft_view(), path: w.config_path }),
            _ => self,
        }
    }

    /// Everything that is asked for is handed out, once.
    pub open spec fn pumped(self) -> App {
        self.startup_pumped().detail_pumped().diff_pumped().auth_pumped().memberships_pumped()
            .preview_pumped().commit_pumped()
    }

    pub open spec fn ui_ticked(self) -> App {
        App { ui_tick: self.ui_tick.wrapping_add(1), ..self }
    }

    /// A data tick refreshes the list, unless the wizard is open, startup is
    /// not over, or a refresh is in flight.
    pub open spec fn data_ticked(self) -> App {
        if self.setup_wizard is None && self.startup_phase == StartupPhase::Ready
            && !self.refresh_inflight {
            self.refresh_started(false)
        } else {
            self
        }
    }

    pub open spec fn ticked(self, data: bool, animation: bool) -> App {
        let a = if animation {
            self.ui_ticked()
        } else {
            self
        };
        if data {
            a.data_ticked()
        } else {
            a
        }
    }
}

impl AppState {
    fn mark_started(&mut self)
        ensures
            final(self)@ == (App { startup_spawned: true, ..old(self)@ }),
    {
        self.startup_spawned = true;
    }

    fn pump_startup(&mut self)
        ensures
            final(self)@ == old(self)@.startup_pumped(),
    {
        if !self.startup_spawned {
            self.mark_started();
            self.send(Command::StartUp);
        }
    }

    fn take_detail_request(&mut self)
        ensures
            final(self)@ == old(self)@.detail_request_taken(),
    {
        self.detail_needs_reload = false;
    }

    fn request_detail(&mut self, id: String)
        ensures
            final(self)@ == old(self)@.detail_requested(id@),
    {
        self.detail_loading = true;
        self.detail_needs_reload = false;
        self.send(Command::LoadDetail(id));
    }

    fn pump_detail(&mut self)
        ensures
            final(self)@ == old(self)@.detail_pumped(),
    {
        if self.detail_needs_reload {
            match copy_opt(&self.selected_pr_id) {
                Some(id) => self.request_detail(id),
                None => self.take_detail_request(),
            }
        }
    }

    fn take_diff_request(&mut self)
        ensures
            final(self)@ == old(self)@.diff_request_taken(),
    {
        self.diff_needs_reload = false;
    }

    fn request_diff(&mut self, id: String)
        ensures
            final(self)@ == old(self)@.diff_requested(id@),
    {
        self.diff_loading = true;
        self.diff_needs_reload = false;
        self.send(Command::LoadDiff(id));
    }

    fn pump_diff(&mut self)
        ensures
            final(self)@ == old(self)@.diff_pumped(),
    {
        if self.diff_needs_reload {
            match copy_opt(&self.selected_pr_id) {
                Some(id) => self.request_diff(id),
                None => self.take_diff_request(),
            }
        }
    }

    fn pump_auth(&mut self)
        ensures
            final(self)@ == old(self)@.auth_pumped(),
    {
        let mut start = false;
        if let Some(w) = &self.setup_wizard {
            if let AsyncResource::Requested = &w.auth {
                start = true;
            }
        }
        if start {
            self.keep_auth(AsyncResource::Loading);
            self.send(Command::CheckAuth);
        }
    }

    fn begin_memberships(&mut self)
        ensures
            final(self)@ == match old(self)@.setup_wizard {
                Some(w) => old(self)@.with_wizard(
                    Some(w.with_memberships(AsyncResource::Loading)),
                ),
                None => old(self)@,
            },
    {
        match self.take_wizard() {
            None => {},
            Some(b) => {
                let mut wizard = b;
                wizard.set_memberships(AsyncResource::Loading);
                self.put_wizard(wizard);
            },
        }
    }

    fn pump_memberships(&mut self)
        ensures
            final(self)@ == old(self)@.memberships_pumped(),
    {
        let mut start = false;
        if let Some(w) = &self.setup_wizard {
            if let AsyncResource::Requested = &w.memberships {
                start = true;
            }
        }
        if start {
            self.begin_memberships();
            self.send(Command::LoadMemberships);
        }
    }

    fn begin_preview(&mut self)
        ensures
            final(self)@ == match old(self)@.setup_wizard {
                Some(w) => old(self)@.with_wizard(Some(w.with_preview(AsyncResource::Loading))),
                None => old(self)@,
            },
    {
        match self.take_wizard() {
            None => {},
            Some(b) => {
                let mut wizard = b;
                wizard.set_preview(AsyncResource::Loading);
                self.put_wizard(wizard);
            },
        }
    }

    fn pump_preview(&mut self)
        requires
            old(self)@.wf(),
        ensures
            final(self)@ == old(self)@.preview_pumped(),
    {
        let mut draft: Option<Config> = None;
        if let Some(w) = &self.setup_wizard {
            if let AsyncResource::Requested = &w.preview {
                draft = Some(w.draft());
            }
        }
        if let Some(config) = draft {
            self.begin_preview();
            self.send(Command::PreviewCounts(config));
        }
    }

    fn begin_commit(&mut self)
        ensures
            final(self)@ == match old(self)@.setup_wizard {
                Some(w) => old(self)@.with_wizard(Some(w.with_commit(AsyncResource::Loading))),
                None => old(self)@,
            },
    {
        match self.take_wizard() {
            None => {},
            Some(b) => {
                let mut wizard = b;
                wizard.set_commit(AsyncResource::Loading);
                self.put_wizard(wizard);
            },
        }
    }

    fn pump_commit(&mut self)
        requires
            old(self)@.wf(),
        ensures
            final(self)@ == old(self)@.commit_pumped(),
    {
        let mut work: Option<(Config, String)> = None;
        if let Some(w) = &self.setup_wizard {
            if let AsyncResource::Requested = &w.commit {
                work = Some((w.draft(), w.config_path.clone()));
            }
        }
        if let Some((config, path)) = work {
            self.begin_commit();
            self.send(Command::WriteConfig { config, path });
        }
    }

    /// Hand out everything that has been asked for, before a frame is drawn.
    /// Each request is handed out once: what is under way is not asked for
    /// again.
    pub fn pump(&mut self)
        requires
            old(self)@.wf(),
        ensures
            final(self)@ == old(self)@.pumped(),
            final(self)@.wf(),
    {
        self.pump_startup();
        self.pump_detail();
        self.pump_diff();
        self.pump_auth();
        self.pump_memberships();
        self.pump_preview();
        self.pump_commit();
    }

    fn tick_ui(&mut self)
        ensures
            final(self)@ == old(self)@.ui_ticked(),
    {
        self.ui_tick = self.ui_tick.wrapping_add(1);
    }

    fn tick_data(&mut self)
        ensures
            final(self)@ == old(self)@.data_ticked(),
    {
        if self.setup_wizard.is_none() && self.startup_phase == StartupPhase::Ready
            && !self.refresh_inflight {
            self.start_refresh(false);
        }
    }

    fn tick(&mut self, data: bool, animation: bool)
        ensures
            final(self)@ == old(self)@.ticked(data, animation),
    {
        if animation {
            self.tick_ui();
        }
        if data {
            self.tick_data();
        }
    }
}

pub open spec fn is_tick(e: TuiEvent) -> bool {
    e is DataTick || e is UiTick
}

/// The events that are not ticks, in their order.
pub open spec fn without_ticks(events: Seq<TuiEvent>) -> Seq<TuiEvent> {
    events.filter(|e: TuiEvent| !is_tick(e))
}

pub open spec fn has_data_tick(events: Seq<TuiEvent>) -> bool {
    exists|i: int| 0 <= i < events.len() && #[trigger] events[i] is DataTick
}

pub open spec fn has_ui_tick(events: Seq<TuiEvent>) -> bool {
    exists|i: int| 0 <= i < events.len() && #[trigger] events[i] is UiTick
}

/// Split a batch of events into "was at least one data tick queued", "was at
/// least one animation tick queued", and the remaining events in their
/// order. A stalled loop can queue several ticks before it gets a
/// chance to drain them; replaying each one is pointless, so ticks collapse
/// while everything else passes through untouched.
pub fn coalesce_ticks(events: Vec<TuiEvent>) -> (r: (bool, bool, Vec<TuiEvent>))
    ensures
        r.0 == has_data_tick(events@),
        r.1 == has_ui_tick(events@),
        r.2@ == without_ticks(events@),
{
    let ghost keep = |e: TuiEvent| !is_tick(e);
    let mut data_tick = false;
    let mut ui_tick = false;
    let mut rest: Vec<TuiEvent> = Vec::new();
    proof {
        reveal(Seq::filter);
        assert(events@.take(0).filter(keep) =~= Seq::empty());
    }
    for e in it: events
        invariant
            it.seq() == events@,
            keep == (|e: TuiEvent| !is_tick(e)),
            data_tick == has_data_tick(events@.take(it.index() as int)),
            ui_tick == has_ui_tick(events@.take(it.index() as int)),
            rest@ == events@.take(it.index() as int).filter(keep),
    {
        let ghost i = it.index() as int;
        let ghost upto = events@.take(i);
        let ghost next = events@.take(i + 1);
        proof {
            reveal(Seq::filter);
            assert(next.drop_last() =~= upto);
            assert(next.last() == e);
            assert(next[i] == e);
            assert forall|j: int| 0 <= j < i implies next[j] == #[trigger] upto[j] by {}
            assert(has_data_tick(next) == (has_data_tick(upto) || e is DataTick)) by {
                if has_data_tick(upto) {
                    let j = choose|j: int| 0 <= j < upto.len() && #[trigger] upto[j] is DataTick;
                    assert(next[j] is DataTick);
                }
                if has_data_tick(next) && !(e is DataTick) {
                    let j = choose|j: int| 0 <= j < next.len() && #[trigger] next[j] is DataTick;
                    assert(upto[j] is DataTick);
                }
            }
            assert(has_ui_tick(next) == (has_ui_tick(upto) || e is UiTick)) by {
                if has_ui_tick(upto) {
                    let j = choose|j: int| 0 <= j < upto.len() && #[trigger] upto[j] is UiTick;
                    assert(next[j] is UiTick);
                }
                if has_ui_tick(next) && !(e is UiTick) {
                    let j = choose|j: int| 0 <= j < next.len() && #[trigger] next[j] is UiTick;
                    assert(upto[j] is UiTick);
                }
            }
        }
        match e {
            TuiEvent::DataTick => data_tick = true,
            TuiEvent::UiTick => ui_tick = true,
            other => rest.push(other),
        }
    }
    proof {
        assert(events@.take(events@.len() as int) =~= events@);
    }
    (data_tick, ui_tick, rest)
}

/// The events from `i` on, one after the other, until one of them quits.
pub open spec fn run_events(u: Ui, events: Seq<TuiEvent>, i: int) -> (Ui, LoopControl)
    decreases events.len() - i,
{
    if i < 0 || i >= events.len() {
        (u, LoopControl::Continue)
    } else {
        let (after, control) = u.event(events[i]);
        if control == LoopControl::Quit {
            (after, LoopControl::Quit)
        } else {
            run_events(after, events, i + 1)
        }
    }
}

/// A batch: its events in order, then, unless one of them quits, one tick of
/// each kind that it holds.
pub open spec fn run_batch(u: Ui, events: Seq<TuiEvent>) -> (Ui, LoopControl) {
    let (after, control) = run_events(u, without_ticks(events), 0);
    if control == LoopControl::Quit {
        (after, control)
    } else {
        (
            after.with_app(after.app.ticked(has_data_tick(events), has_ui_tick(events))),
            LoopControl::Continue,
        )
    }
}

proof fn lemma_bundle_keeps_wizard_valid(a: App, b: ConfigRefreshBundle)
    requires
        a.wf(),
    ensures
        a.bundle_accepted(b).wf(),
{
    reveal(App::wizard_opened);
    reveal(App::bundle_accepted);
    reveal(App::prs_accepted);
}

proof fn lemma_action_keeps_wizard_valid(a: App, action: Action)
    requires
        a.wf(),
    ensures
        a.acted(action).wf(),
{
    reveal(App::wizard_opened);
    reveal(App::acted);
}

proof fn lemma_startup_keeps_wizard_valid(a: App, r: Result<StartupLoad, String>)
    requires
        a.wf(),
    ensures
        a.started(r).wf(),
{
    reveal(App::started);
}

proof fn lemma_detail_keeps_wizard(
    a: App,
    id: Seq<char>,
    r: Result<PrDetailResponse, String>,
    blade: Blade,
)
    ensures
        a.detail_arrived(id, r, blade).setup_wizard == a.setup_wizard,
{
    reveal(App::detail_arrived);
}

proof fn lemma_diff_keeps_wizard(u: Ui, id: Seq<char>, r: Result<DiffResponse, String>)
    ensures
        u.diff_arrived(id, r).app.setup_wizard == u.app.setup_wizard,
{
    reveal(Ui::diff_arrived);
    let landed = u.app.diff_landed();
    assert(landed.setup_wizard == u.app.setup_wizard);
    if landed.is_selected(id) {
        match r {
            Ok(d) => assert(landed.with_diff(d).setup_wizard == u.app.setup_wizard),
            Err(e) => assert(landed.toast("Failed to load diff: "@ + e@).setup_wizard
                == u.app.setup_wizard),
        }
    }
}

proof fn lemma_summary_keeps_wizard(a: App, id: Seq<char>, r: Result<(), String>)
    ensures
        a.classified(id, r).setup_wizard == a.setup_wizard,
{
    reveal(App::classified);
}

proof fn lemma_results_keep_wizard_valid(u: Ui, event: TuiEvent)
    requires
        u.app.wf(),
    ensures
        event matches TuiEvent::StartupLoaded(r) ==> u.app.started(r).wf(),
        event matches TuiEvent::DetailLoaded(id, r) ==> u.app.detail_arrived(
            id@,
            r,
            u.pane.active_blade,
        ).wf(),
        event matches TuiEvent::DiffLoaded(id, r) ==> u.diff_arrived(id@, r).app.wf(),
        event matches TuiEvent::LlmClassified(id, r) ==> u.app.classified(id@, r).wf(),
{
    match event {
        TuiEvent::StartupLoaded(r) => lemma_startup_keeps_wizard_valid(u.app, r),
        TuiEvent::DetailLoaded(id, r) => lemma_detail_keeps_wizard(
            u.app,
            id@,
            r,
            u.pane.active_blade,
        ),
        TuiEvent::DiffLoaded(id, r) => lemma_diff_keeps_wizard(u, id@, r),
        TuiEvent::LlmClassified(id, r) => lemma_summary_keeps_wizard(u.app, id@, r),
        _ => {},
    }
}

proof fn lemma_wizard_results_keep_it_valid(a: App, event: TuiEvent)
    requires
        a.wf(),
    ensures
        event matches TuiEvent::WizardAuthStatusLoaded(r) ==> a.auth_arrived(r).wf(),
        event matches TuiEvent::WizardMembershipsLoaded(r) ==> a.memberships_arrived(r).wf(),
        event matches TuiEvent::WizardPreviewLoaded(r) ==> a.preview_arrived(r).wf(),
        event matches TuiEvent::WizardConfigWritten(r) ==> a.config_written(r).wf(),
        event matches TuiEvent::PrsRefreshed { trigger_error, prs, health } ==> a.told(
            trigger_error,
        ).prs_accepted(prs).with_health(health).wf(),
{
    match event {
        TuiEvent::WizardAuthStatusLoaded(r) => reveal(App::auth_arrived),
        TuiEvent::WizardMembershipsLoaded(r) => reveal(App::memberships_arrived),
        TuiEvent::WizardPreviewLoaded(r) => reveal(App::preview_arrived),
        TuiEvent::WizardConfigWritten(r) => reveal(App::config_written),
        TuiEvent::PrsRefreshed { trigger_error, prs, health } => reveal(App::prs_accepted),
        _ => {},
    }
}

/// No event leaves the wizard in an invalid state.
pub proof fn events_keep_wizard_valid(u: Ui, event: TuiEvent)
    requires
        u.app.wf(),
    ensures
        u.event(event).0.app.wf(),
{
    reveal(Ui::event);
    lemma_results_keep_wizard_valid(u, event);
    lemma_wizard_results_keep_it_valid(u.app, event);
    match event {
        TuiEvent::Key(key) => {
            keys_keep_wizard_valid(u, key);
            lemma_action_keeps_wizard_valid(u.key(key).0.app, u.key(key).1);
        },
        TuiEvent::ConfigViewOpened(b) => lemma_bundle_keeps_wizard_valid(u.app, b),
        TuiEvent::ConfigReloaded(Ok(b)) => lemma_bundle_keeps_wizard_valid(u.app, b),
        TuiEvent::WizardConfigApplied(b) => lemma_bundle_keeps_wizard_valid(u.app, b),
        _ => {},
    }
}

proof fn lemma_without_ticks(events: Seq<TuiEvent>, i: int)
    requires
        0 <= i < without_ticks(events).len(),
    ensures
        !is_tick(without_ticks(events)[i]),
{
    events.lemma_filter_pred(|e: TuiEvent| !is_tick(e), i);
}

/// Process a batch of events drained from the channel. Ticks collapse; every
/// other event runs in order, up to one that quits.
pub fn process_events(state: &mut AppState, view: &mut ViewStateManager, events: Vec<TuiEvent>) -> (r:
    LoopControl)
    requires
        old(state)@.wf(),
    ensures
        (ui(final(state)@, final(view)@), r) == run_batch(ui(old(state)@, old(view)@), events@),
        final(state)@.wf(),
{
    let (data_tick, ui_tick, rest) = coalesce_ticks(events);
    let ghost start = ui(state@, view@);
    for event in it: rest
        invariant
            it.seq() == rest@,
            rest@ == without_ticks(events@),
            start == ui(old(state)@, old(view)@),
            state@.wf(),
            run_events(start, rest@, 0) == run_events(ui(state@, view@), rest@, it.index() as int),
    {
        proof {
            lemma_without_ticks(events@, it.index() as int);
            events_keep_wizard_valid(ui(state@, view@), event);
        }
        let control = handle_event(state, view, event);
        if control == LoopControl::Quit {
            return LoopControl::Quit;
        }
    }
    state.tick(data_tick, ui_tick);
    LoopControl::Continue
}

/// What is asked for is handed out once: a second pump without an event in
/// between hands out nothing.
pub proof fn pumping_twice_sends_once(a: App)
    ensures
        a.pumped().pumped() == a.pumped(),
{
}

/// A result that arrives for a pull request that is no longer selected changes
/// nothing but that the fetch is over.
pub proof fn late_results_are_dropped(
    u: Ui,
    id: Seq<char>,
    detail: Result<PrDetailResponse, String>,
    diff: Result<DiffResponse, String>,
)
    requires
        !u.app.is_selected(id),
    ensures
        u.app.detail_arrived(id, detail, u.pane.active_blade) == u.app.detail_landed(),
        u.diff_arrived(id, diff) == u.with_app(u.app.diff_landed()),
{
    reveal(App::detail_arrived);
    reveal(Ui::diff_arrived);
}

/// A data tick starts no refresh while one is in flight, while the wizard is
/// open, or before startup is over.
pub proof fn ticks_do_not_pile_up(a: App)
    requires
        a.refresh_inflight || a.setup_wizard is Some || a.startup_phase != StartupPhase::Ready,
    ensures
        a.data_ticked() == a,
        a.data_ticked().data_ticked() == a,
{
}

/// After a tick has started a refresh, further ticks start none.
pub proof fn refresh_runs_once(a: App)
    ensures
        a.data_ticked().data_ticked() == a.data_ticked(),
{
}

} // verus!
