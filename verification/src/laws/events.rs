//! Events: what an answer, a tick or an action changes.
use vstd::prelude::*;

use crate::api::{
    DiffResponse, HealthResponse, MembershipsResponse, PrDetailResponse, PrGroups, PrListResponse,
    PrSummary, SetupStatusResponse,
};
use crate::app::{pr_from, pr_with_id, App, CommandView, ConfigRefreshBundle, StartupPhase};
use crate::events::{
    has_data_tick, has_ui_tick, is_tick, run_batch, run_events, without_ticks, LoopControl,
    StartupLoad, TuiEvent,
};
use crate::github::{priority_order, PrGroup};
use crate::keys::{Action, KeyEvent};
use crate::navigation::Ui;
use crate::theme::Blade;
use crate::wizard::{AsyncResource, Wizard};

verus! {

/// The state after an event.
pub open spec fn after(u: Ui, e: TuiEvent) -> App {
    u.event(e).0.app
}

proof fn lemma_detail(u: Ui, id: String, r: Result<PrDetailResponse, String>)
    ensures
        after(u, TuiEvent::DetailLoaded(id, r)) == u.app.detail_arrived(
            id@,
            r,
            u.pane.active_blade,
        ),
{
    reveal(Ui::event);
}

proof fn lemma_diff(u: Ui, id: String, r: Result<DiffResponse, String>)
    ensures
        u.event(TuiEvent::DiffLoaded(id, r)).0 == u.diff_arrived(id@, r),
{
    reveal(Ui::event);
}

proof fn lemma_summary(u: Ui, id: String, r: Result<(), String>)
    ensures
        after(u, TuiEvent::LlmClassified(id, r)) == u.app.classified(id@, r),
{
    reveal(Ui::event);
}

proof fn lemma_keyed(u: Ui, key: KeyEvent)
    ensures
        after(u, TuiEvent::Key(key)) == u.key(key).0.app.acted(u.key(key).1),
        u.event(TuiEvent::Key(key)).0.pane == u.key(key).0.pane,
{
    reveal(Ui::event);
}

/// Only a key that asks to quit ends the loop, and an answer leaves the panes
/// as they are, but for that of the diff.
pub proof fn only_quitting_ends_the_loop(u: Ui, e: TuiEvent)
    ensures
        u.event(e).1 == LoopControl::Quit <==> e is Key && u.key(e->Key_0).1 == Action::Quit,
        !(e is Key) && !(e is DiffLoaded) ==> u.event(e).0.pane == u.pane,
        e is Resize || e is DataTick || e is UiTick ==> u.event(e).0 == u,
{
    reveal(Ui::event);
}

/// A detail is kept where its pull request is still the selected one; one that
/// comes late changes nothing but that none is under way.
pub proof fn detail_belongs_to_the_selection(u: Ui, id: String, d: PrDetailResponse)
    ensures
        ({
            let a = after(u, TuiEvent::DetailLoaded(id, Ok(d)));
            &&& !a.detail_loading
            &&& a.error_message == u.app.error_message
            &&& a.selected_pr_id == u.app.selected_pr_id
            &&& a.prs == u.app.prs
            &&& u.app.selected_pr_id == Some(id@) ==> a.pr_detail == Some(d)
            &&& u.app.selected_pr_id != Some(id@) ==> a.pr_detail == u.app.pr_detail && a.outbox
                == u.app.outbox
        }),
{
    lemma_detail(u, id, Ok(d));
    reveal(App::detail_arrived);
}

/// In the Overview a detail without a rich summary asks for one, where the LLM
/// is on and none is under way, and one with it is marked as seen. In another
/// blade nothing is asked for.
pub proof fn overview_asks_for_the_summary(u: Ui, id: String, d: PrDetailResponse)
    requires
        u.app.selected_pr_id == Some(id@),
    ensures
        ({
            let a = after(u, TuiEvent::DetailLoaded(id, Ok(d)));
            let here = u.pane.active_blade == Blade::Overview;
            &&& !here ==> a.outbox == u.app.outbox && a.llm_detail_loading
                == u.app.llm_detail_loading
            &&& here && d.llm_rich_summary is Some ==> a.outbox == u.app.outbox.push(
                CommandView::MarkSeen(id@),
            )
            &&& here && d.llm_rich_summary is None && u.app.config.llm.enabled
                && !u.app.llm_detail_loading ==> a.outbox == u.app.outbox.push(
                CommandView::Classify(id@),
            ) && a.llm_detail_loading
            &&& here && d.llm_rich_summary is None && (!u.app.config.llm.enabled
                || u.app.llm_detail_loading) ==> a.outbox == u.app.outbox && a.llm_detail_loading
                == u.app.llm_detail_loading
        }),
{
    lemma_detail(u, id, Ok(d));
    reveal(App::detail_arrived);
}

proof fn lemma_diff_elsewhere(u: Ui, id: Seq<char>, r: Result<DiffResponse, String>)
    requires
        u.app.selected_pr_id != Some(id),
    ensures
        u.diff_arrived(id, r) == u.with_app(u.app.diff_landed()),
{
    reveal(Ui::diff_arrived);
}

proof fn lemma_diff_here(u: Ui, id: Seq<char>, r: Result<DiffResponse, String>)
    requires
        u.app.selected_pr_id == Some(id),
    ensures
        r matches Ok(d) ==> u.diff_arrived(id, r).app == u.app.diff_landed().with_diff(d),
        r matches Err(e) ==> u.diff_arrived(id, r).app == u.app.diff_landed().toast(
            "Failed to load diff: "@ + e@,
        ),
{
    reveal(Ui::diff_arrived);
}

/// A diff is kept where its pull request is still the selected one.
pub proof fn diff_belongs_to_the_selection(u: Ui, id: String, d: DiffResponse)
    ensures
        ({
            let a = after(u, TuiEvent::DiffLoaded(id, Ok(d)));
            &&& !a.diff_loading
            &&& a.error_message == u.app.error_message
            &&& a.outbox == u.app.outbox
            &&& a.pr_detail == u.app.pr_detail
            &&& u.app.selected_pr_id == Some(id@) ==> a.pr_diff == Some(d)
            &&& u.app.selected_pr_id != Some(id@) ==> a.pr_diff == u.app.pr_diff && u.event(
                TuiEvent::DiffLoaded(id, Ok(d)),
            ).0.pane == u.pane
        }),
{
    lemma_diff(u, id, Ok(d));
    if u.app.selected_pr_id == Some(id@) {
        lemma_diff_here(u, id@, Ok(d));
    } else {
        lemma_diff_elsewhere(u, id@, Ok(d));
    }
}

/// A detail that failed is told, with what failed and why, and leaves what is
/// loaded; one of a pull request that is no longer selected is not told.
pub proof fn failed_detail_is_told(u: Ui, id: String, e: String)
    ensures
        ({
            let a = after(u, TuiEvent::DetailLoaded(id, Err(e)));
            &&& !a.detail_loading
            &&& a.pr_detail == u.app.pr_detail
            &&& a.outbox == u.app.outbox
            &&& u.app.selected_pr_id == Some(id@) ==> a.error_message == Some(
                "Failed to load detail: "@ + e@,
            )
            &&& u.app.selected_pr_id != Some(id@) ==> a.error_message == u.app.error_message
        }),
{
    lemma_detail(u, id, Err(e));
    reveal(App::detail_arrived);
}

/// A diff that failed is told, with what failed and why.
pub proof fn failed_diff_is_told(u: Ui, id: String, e: String)
    ensures
        ({
            let a = after(u, TuiEvent::DiffLoaded(id, Err(e)));
            &&& !a.diff_loading
            &&& a.pr_diff == u.app.pr_diff
            &&& a.outbox == u.app.outbox
            &&& u.app.selected_pr_id == Some(id@) ==> a.error_message == Some(
                "Failed to load diff: "@ + e@,
            )
            &&& u.app.selected_pr_id != Some(id@) ==> a.error_message == u.app.error_message
        }),
{
    lemma_diff(u, id, Err(e));
    if u.app.selected_pr_id == Some(id@) {
        lemma_diff_here(u, id@, Err(e));
    } else {
        lemma_diff_elsewhere(u, id@, Err(e));
    }
}

/// A rich summary that failed is told, with what failed and why.
pub proof fn failed_summary_is_told(u: Ui, id: String, e: String)
    ensures
        ({
            let a = after(u, TuiEvent::LlmClassified(id, Err(e)));
            &&& !a.llm_detail_loading
            &&& a.pr_detail == u.app.pr_detail
            &&& a.outbox == u.app.outbox
            &&& u.app.selected_pr_id == Some(id@) ==> a.error_message == Some(
                "LLM summary failed: "@ + e@,
            )
            &&& u.app.selected_pr_id != Some(id@) ==> a.error_message == u.app.error_message
        }),
{
    lemma_summary(u, id, Err(e));
    reveal(App::classified);
}

/// A rich summary that has come ends the waiting and says nothing.
pub proof fn summary_ends_the_waiting(u: Ui, id: String)
    ensures
        after(u, TuiEvent::LlmClassified(id, Ok(()))) == (App {
            llm_detail_loading: false,
            ..u.app
        }),
{
    lemma_summary(u, id, Ok(()));
    reveal(App::classified);
}

/// Whether the list holds a pull request, in whichever group.
pub open spec fn listed(groups: PrGroups, id: Seq<char>) -> bool {
    exists|g: PrGroup, i: int|
        0 <= i < groups.members(g).len() && #[trigger] groups.members(g)[i].id@ == id
}

proof fn lemma_found(groups: PrGroups, id: Seq<char>, g: int, i: int)
    requires
        0 <= g <= priority_order().len(),
        0 <= i,
    ensures
        pr_from(groups, id, g, i) matches Some(p) ==> p.id@ == id && listed(groups, id),
        pr_from(groups, id, g, i) is None ==> forall|h: int, j: int|
            #![trigger groups.members(priority_order()[h])[j]]
            g <= h < priority_order().len() && 0 <= j < groups.members(priority_order()[h]).len()
                && (h == g ==> i <= j) ==> groups.members(priority_order()[h])[j].id@ != id,
    decreases
            priority_order().len() - g,
            groups.members(priority_order()[g]).len() - i,
{
    if g >= priority_order().len() {
    } else if i >= groups.members(priority_order()[g]).len() {
        lemma_found(groups, id, g + 1, 0);
    } else if groups.members(priority_order()[g])[i].id@ == id {
    } else {
        lemma_found(groups, id, g, i + 1);
    }
}

pub(crate) proof fn lemma_group_is_searched(g: PrGroup) -> (h: int)
    ensures
        0 <= h < priority_order().len(),
        priority_order()[h] == g,
{
    match g {
        PrGroup::AuthoredActionNeeded => 0,
        PrGroup::AuthoredReadyToMerge => 1,
        PrGroup::AuthoredWaiting => 2,
        PrGroup::ReviewNeeded => 3,
        PrGroup::ReviewUpdate => 4,
        PrGroup::ReviewDone => 5,
        PrGroup::Draft => 6,
        PrGroup::Other => 7,
    }
}

/// Looking a pull request up finds one with its identifier exactly where the
/// list holds one.
pub proof fn lookup_finds_what_is_listed(groups: PrGroups, id: Seq<char>)
    ensures
        pr_with_id(groups, id) is Some <==> listed(groups, id),
        pr_with_id(groups, id) matches Some(p) ==> p.id@ == id,
{
    lemma_found(groups, id, 0, 0);
    if listed(groups, id) {
        let (g, i) = choose|g: PrGroup, i: int|
            0 <= i < groups.members(g).len() && #[trigger] groups.members(g)[i].id@ == id;
        let h = lemma_group_is_searched(g);
        assert(groups.members(priority_order()[h])[i].id@ == id);
    }
}

/// Whether a detail still says what the list says of its pull request.
pub open spec fn current(d: PrDetailResponse, id: Seq<char>, p: PrSummary) -> bool {
    d.id@ == id && d.updated_at@ == p.updated_at@ && d.llm_priority == p.llm_priority
}

/// A list that has come replaces the old one. The selection goes where its
/// pull request is gone, and its detail is asked for anew where that is stale;
/// else nothing is loaded again.
pub proof fn new_list_is_kept(u: Ui, prs: PrListResponse)
    ensures
        ({
            let a = after(u, TuiEvent::PrsRefreshed { trigger_error: None, prs: Ok(prs), health: None });
            &&& a.prs == prs
            &&& !a.refresh_inflight && !a.loading
            &&& a.error_message == u.app.error_message
            &&& a.outbox == u.app.outbox
            &&& a.health == u.app.health
            &&& u.app.selected_pr_id is None ==> a.selected_pr_id is None && a.detail_needs_reload
                == u.app.detail_needs_reload
            &&& u.app.selected_pr_id matches Some(id) ==> {
                &&& listed(prs.groups, id) ==> a.selected_pr_id == Some(id)
                &&& !listed(prs.groups, id) ==> a.selected_pr_id is None && a.pr_detail is None
                    && a.pr_diff is None
                &&& listed(prs.groups, id) && u.app.pr_detail is Some && current(
                    u.app.pr_detail->0,
                    id,
                    pr_with_id(prs.groups, id)->0,
                ) ==> a.pr_detail == u.app.pr_detail && a.pr_diff == u.app.pr_diff
                    && a.detail_needs_reload == u.app.detail_needs_reload && a.diff_needs_reload
                    == u.app.diff_needs_reload
                &&& listed(prs.groups, id) && !(u.app.pr_detail is Some && current(
                    u.app.pr_detail->0,
                    id,
                    pr_with_id(prs.groups, id)->0,
                )) ==> a.pr_detail is None && a.pr_diff is None && a.detail_needs_reload
                    && a.diff_needs_reload
            }
        }),
{
    reveal(Ui::event);
    reveal(App::prs_accepted);
    if u.app.selected_pr_id is Some {
        lookup_finds_what_is_listed(prs.groups, u.app.selected_pr_id->0);
    }
}

/// A list that could not be had leaves the old one and says so; a poll that
/// could not be asked for is told too, unless the list itself failed.
pub proof fn failed_refresh_leaves_the_list(
    u: Ui,
    e: String,
    trigger: Option<String>,
    prs: PrListResponse,
    health: Option<HealthResponse>,
)
    ensures
        ({
            let failed = after(
                u,
                TuiEvent::PrsRefreshed { trigger_error: trigger, prs: Err(e), health },
            );
            let fetched = after(
                u,
                TuiEvent::PrsRefreshed { trigger_error: trigger, prs: Ok(prs), health },
            );
            &&& failed.prs == u.app.prs && failed.selected_pr_id == u.app.selected_pr_id
                && failed.pr_detail == u.app.pr_detail
            &&& !failed.refresh_inflight && !failed.loading
            &&& failed.error_message == Some("Failed to fetch PRs: "@ + e@)
            &&& trigger matches Some(t) ==> fetched.error_message == Some(t@)
            &&& health is Some ==> failed.health == health && fetched.health == health
            &&& health is None ==> failed.health == u.app.health && fetched.health == u.app.health
        }),
{
    reveal(Ui::event);
    reveal(App::prs_accepted);
}

/// Data fetched for the configuration: each part that could be had is kept, and
/// each that could not leaves the old one; the last failure is told.
pub proof fn bundle_is_kept_part_by_part(u: Ui, b: ConfigRefreshBundle)
    requires
        b.prs is None,
    ensures
        ({
            let a = after(u, TuiEvent::ConfigViewOpened(b));
            &&& b.config matches Ok(c) ==> a.config == c
            &&& b.config is Err ==> a.config == u.app.config
            &&& b.health matches Ok(h) ==> a.health == Some(h)
            &&& b.health is Err ==> a.health == u.app.health
            &&& b.setup matches Ok(s) ==> a.setup_status == Some(s)
            &&& b.setup is Err ==> a.setup_status == u.app.setup_status
            &&& b.setup matches Err(e) ==> a.error_message == Some(
                "Failed to fetch setup status: "@ + e@,
            )
            &&& b.setup is Ok && b.health is Err ==> a.error_message == Some(
                "Failed to fetch health: "@ + b.health->Err_0@,
            )
            &&& b.setup is Ok && b.health is Ok && b.config is Err ==> a.error_message == Some(
                "Failed to fetch config: "@ + b.config->Err_0@,
            )
            &&& b.setup is Ok && b.health is Ok && b.config is Ok ==> a.error_message
                == u.app.error_message
            &&& a.prs == u.app.prs && a.selected_pr_id == u.app.selected_pr_id && a.outbox
                == u.app.outbox
            &&& after(u, TuiEvent::WizardConfigApplied(b)) == a
            &&& after(u, TuiEvent::ConfigReloaded(Ok(b))) == a
        }),
{
    reveal(Ui::event);
    reveal(App::bundle_accepted);
    reveal(App::wizard_opened);
}

/// The wizard opens by itself while setup is not ready or not known, stays as
/// it is where it is open, and does not open where setup is ready.
pub proof fn wizard_opens_while_setup_is_not_ready(u: Ui, b: ConfigRefreshBundle)
    requires
        b.prs is None,
    ensures
        ({
            let a = after(u, TuiEvent::ConfigViewOpened(b));
            let ready = b.setup is Ok && b.setup->Ok_0.ready;
            &&& u.app.setup_wizard is Some || ready ==> a.setup_wizard == u.app.setup_wizard
                && a.show_config_view == u.app.show_config_view
            &&& u.app.setup_wizard is None && !ready ==> a.setup_wizard is Some
                && !a.show_config_view
        }),
{
    reveal(Ui::event);
    reveal(App::bundle_accepted);
    reveal(App::wizard_opened);
}

/// A configuration that could not be reloaded is told and leaves everything.
pub proof fn failed_reload_is_told(u: Ui, e: String)
    ensures
        after(u, TuiEvent::ConfigReloaded(Err(e))) == (App {
            error_message: Some("Failed to reload config: "@ + e@),
            ..u.app
        }),
{
    reveal(Ui::event);
}

/// Startup brings the configuration, the list, the setup and the health, and
/// opens the wizard exactly where setup is not ready; where it failed, that is
/// told. Either way the dashboard is up.
pub proof fn startup_fills_the_dashboard(u: Ui, load: StartupLoad, e: String)
    requires
        u.app.selected_pr_id is None,
        u.app.setup_wizard is None,
    ensures
        ({
            let a = after(u, TuiEvent::StartupLoaded(Ok(load)));
            let f = after(u, TuiEvent::StartupLoaded(Err(e)));
            &&& a.config == load.config && a.prs == load.prs && a.health == load.health
                && a.setup_status == Some(load.setup_status)
            &&& !a.loading
            &&& a.startup_phase == StartupPhase::Ready && f.startup_phase == StartupPhase::Ready
            &&& a.error_message == u.app.error_message
            &&& a.setup_wizard is Some <==> !load.setup_status.ready
            &&& f == (App {
                error_message: Some(e@),
                startup_phase: StartupPhase::Ready,
                ..u.app
            })
        }),
{
    reveal(Ui::event);
    reveal(App::started);
}

/// What the wizard asked for comes to the wizard, where it is still open; a
/// failed check of the account is told too.
pub proof fn wizard_gets_its_answers(
    u: Ui,
    w: Wizard,
    auth: SetupStatusResponse,
    m: MembershipsResponse,
    e: String,
)
    requires
        u.app.setup_wizard == Some(w),
    ensures
        after(u, TuiEvent::WizardAuthStatusLoaded(Ok(auth))) == (App {
            setup_wizard: Some(Wizard { auth: AsyncResource::Ready(auth), ..w }),
            ..u.app
        }),
        after(u, TuiEvent::WizardAuthStatusLoaded(Err(e))) == (App {
            setup_wizard: Some(Wizard { auth: AsyncResource::Failed(e), ..w }),
            error_message: Some("Failed to check auth: "@ + e@),
            ..u.app
        }),
        after(u, TuiEvent::WizardMembershipsLoaded(Ok(m))) == (App {
            setup_wizard: Some(Wizard { memberships: AsyncResource::Ready(m), ..w }),
            ..u.app
        }),
        after(u, TuiEvent::WizardMembershipsLoaded(Err(e))) == (App {
            setup_wizard: Some(Wizard { memberships: AsyncResource::Failed(e), ..w }),
            ..u.app
        }),
        after(u, TuiEvent::WizardPreviewLoaded(Err(e))) == (App {
            setup_wizard: Some(Wizard { preview: AsyncResource::Failed(e), ..w }),
            ..u.app
        }),
        after(u, TuiEvent::WizardConfigWritten(Err(e))) == (App {
            setup_wizard: Some(Wizard { commit: AsyncResource::Failed(e), ..w }),
            ..u.app
        }),
        after(u, TuiEvent::WizardConfigWritten(Ok(()))) == (App {
            setup_wizard: None,
            outbox: u.app.outbox.push(CommandView::FetchAppliedConfig),
            ..u.app
        }),
{
    reveal(Ui::event);
    reveal(App::auth_arrived);
    reveal(App::memberships_arrived);
    reveal(App::preview_arrived);
    reveal(App::config_written);
}

/// The counts of a preview come to the wizard.
pub proof fn wizard_gets_its_preview(
    u: Ui,
    w: Wizard,
    p: crate::api::ConfigPreviewCountsResponse,
)
    requires
        u.app.setup_wizard == Some(w),
    ensures
        after(u, TuiEvent::WizardPreviewLoaded(Ok(p))) == (App {
            setup_wizard: Some(Wizard { preview: AsyncResource::Ready(p), ..w }),
            ..u.app
        }),
{
    reveal(Ui::event);
    reveal(App::preview_arrived);
}

/// With the wizard closed, its answers change nothing.
pub proof fn closed_wizard_gets_nothing(
    u: Ui,
    auth: Result<SetupStatusResponse, String>,
    m: Result<MembershipsResponse, String>,
    e: String,
)
    requires
        u.app.setup_wizard is None,
    ensures
        u.event(TuiEvent::WizardAuthStatusLoaded(auth)).0 == u,
        u.event(TuiEvent::WizardMembershipsLoaded(m)).0 == u,
        u.event(TuiEvent::WizardConfigWritten(Err(e))).0 == u,
{
    reveal(Ui::event);
    reveal(App::auth_arrived);
    reveal(App::memberships_arrived);
    reveal(App::config_written);
}

/// A key is followed by what it asks for: a refresh is handed out with a poll,
/// a reload and the inspector's data are fetched, and the overlays open and
/// close.
pub proof fn keys_are_followed_by_their_action(u: Ui, key: KeyEvent)
    ensures
        ({
            let k = u.key(key).0;
            let action = u.key(key).1;
            let a = after(u, TuiEvent::Key(key));
            &&& u.event(TuiEvent::Key(key)).0.pane == k.pane
            &&& action == Action::Idle || action == Action::Quit ==> a == k.app
            &&& action == Action::Refresh ==> a == (App {
                refresh_inflight: true,
                outbox: k.app.outbox.push(CommandView::RefreshPrs { trigger: true }),
                ..k.app
            })
            &&& action == Action::ReloadConfig ==> a == (App {
                outbox: k.app.outbox.push(CommandView::ReloadConfig),
                ..k.app
            })
            &&& action == Action::CloseWizard ==> a == (App { setup_wizard: None, ..k.app })
            &&& action == Action::ToggleConfig && k.app.show_config_view ==> a == (App {
                show_config_view: false,
                ..k.app
            })
            &&& action == Action::ToggleConfig && !k.app.show_config_view ==> a == (App {
                show_config_view: true,
                config_scroll: 0,
                outbox: k.app.outbox.push(CommandView::FetchConfigView),
                ..k.app
            })
            &&& action == Action::OpenWizard ==> a.setup_wizard is Some && !a.show_config_view
                && a.outbox == k.app.outbox
        }),
{
    lemma_keyed(u, key);
    reveal(App::acted);
    reveal(App::wizard_opened);
}

/// What is asked for is handed out for the pull request that is selected, and
/// is then under way.
pub proof fn requests_go_out_for_the_selection(a: App, id: Seq<char>)
    requires
        a.selected_pr_id == Some(id),
        a.startup_spawned,
        a.setup_wizard is None,
    ensures
        a.detail_needs_reload && !a.diff_needs_reload ==> a.pumped() == (App {
            detail_needs_reload: false,
            detail_loading: true,
            outbox: a.outbox.push(CommandView::LoadDetail(id)),
            ..a
        }),
        a.diff_needs_reload && !a.detail_needs_reload ==> a.pumped() == (App {
            diff_needs_reload: false,
            diff_loading: true,
            outbox: a.outbox.push(CommandView::LoadDiff(id)),
            ..a
        }),
        !a.diff_needs_reload && !a.detail_needs_reload ==> a.pumped() == a,
        !a.diff_needs_reload && !a.detail_needs_reload ==> (App {
            startup_spawned: false,
            ..a
        }).pumped() == (App { outbox: a.outbox.push(CommandView::StartUp), ..a }),
{
}

/// Without a selection nothing is loaded, and the request is forgotten.
pub proof fn nothing_is_loaded_without_a_selection(a: App)
    requires
        a.selected_pr_id is None,
        a.startup_spawned,
        a.setup_wizard is None,
    ensures
        a.pumped() == (App { detail_needs_reload: false, diff_needs_reload: false, ..a }),
{
}

/// The wizard asks for the account.
pub proof fn account_request_goes_out(a: App, w: Wizard)
    requires
        a.startup_spawned,
        !a.detail_needs_reload,
        !a.diff_needs_reload,
        a.setup_wizard == Some(w),
        w.auth is Requested,
        !(w.memberships is Requested),
        !(w.preview is Requested),
        !(w.commit is Requested),
    ensures
        a.pumped() == (App {
            setup_wizard: Some(Wizard { auth: AsyncResource::Loading, ..w }),
            outbox: a.outbox.push(CommandView::CheckAuth),
            ..a
        }),
{
}

/// The wizard asks for the memberships.
pub proof fn memberships_request_goes_out(a: App, w: Wizard)
    requires
        a.startup_spawned,
        !a.detail_needs_reload,
        !a.diff_needs_reload,
        a.setup_wizard == Some(w),
        w.memberships is Requested,
        !(w.auth is Requested),
        !(w.preview is Requested),
        !(w.commit is Requested),
    ensures
        a.pumped() == (App {
            setup_wizard: Some(Wizard { memberships: AsyncResource::Loading, ..w }),
            outbox: a.outbox.push(CommandView::LoadMemberships),
            ..a
        }),
{
}

/// The wizard asks for the counts of its draft.
pub proof fn preview_request_goes_out(a: App, w: Wizard)
    requires
        a.startup_spawned,
        !a.detail_needs_reload,
        !a.diff_needs_reload,
        a.setup_wizard == Some(w),
        w.preview is Requested,
        !(w.auth is Requested),
        !(w.memberships is Requested),
        !(w.commit is Requested),
    ensures
        a.pumped() == (App {
            setup_wizard: Some(Wizard { preview: AsyncResource::Loading, ..w }),
            outbox: a.outbox.push(CommandView::PreviewCounts(w.draft_view())),
            ..a
        }),
{
}

/// The wizard asks for its draft to be written to its path.
pub proof fn write_request_goes_out(a: App, w: Wizard)
    requires
        a.startup_spawned,
        !a.detail_needs_reload,
        !a.diff_needs_reload,
        a.setup_wizard == Some(w),
        w.commit is Requested,
        !(w.auth is Requested),
        !(w.memberships is Requested),
        !(w.preview is Requested),
    ensures
        a.pumped() == (App {
            setup_wizard: Some(Wizard { commit: AsyncResource::Loading, ..w }),
            outbox: a.outbox.push(
                CommandView::WriteConfig { config: w.draft_view(), path: w.config_path },
            ),
            ..a
        }),
{
}

/// A data tick refreshes the list without a poll, once the dashboard is up,
/// the wizard closed and no refresh under way; else it does nothing. An
/// animation tick moves the animation on by one.
pub proof fn ticks_refresh_and_animate(a: App)
    ensures
        a.setup_wizard is None && a.startup_phase == StartupPhase::Ready && !a.refresh_inflight
            ==> a.ticked(true, false) == (App {
            refresh_inflight: true,
            outbox: a.outbox.push(CommandView::RefreshPrs { trigger: false }),
            ..a
        }),
        !(a.setup_wizard is None && a.startup_phase == StartupPhase::Ready && !a.refresh_inflight)
            ==> a.ticked(true, false) == a,
        a.ui_tick < u64::MAX ==> a.ticked(false, true) == (App {
            ui_tick: (a.ui_tick + 1) as u64,
            ..a
        }),
        a.ticked(false, false) == a,
{
}

proof fn lemma_run_from(u: Ui, xs: Seq<TuiEvent>, ys: Seq<TuiEvent>, j: int)
    requires
        0 <= j <= ys.len(),
    ensures
        run_events(u, xs + ys, xs.len() + j) == run_events(u, ys, j),
    decreases ys.len() - j,
{
    if j < ys.len() {
        assert((xs + ys)[xs.len() + j] == ys[j]);
        lemma_run_from(u.event(ys[j]).0, xs, ys, j + 1);
    }
}

/// Events are taken in their order: those of a batch after one another, and
/// those behind one that quits not at all.
pub proof fn events_are_taken_in_order(u: Ui, e: TuiEvent, rest: Seq<TuiEvent>)
    ensures
        u.event(e).1 == LoopControl::Quit ==> run_events(u, seq![e] + rest, 0) == u.event(e),
        u.event(e).1 != LoopControl::Quit ==> run_events(u, seq![e] + rest, 0) == run_events(
            u.event(e).0,
            rest,
            0,
        ),
        run_events(u, Seq::empty(), 0) == (u, LoopControl::Continue),
{
    let all = seq![e] + rest;
    assert(all[0] == e);
    lemma_run_from(u.event(e).0, seq![e], rest, 0);
}

/// A batch without ticks is its events. With ticks, however many, each kind
/// counts once and after the events, unless one of these quits.
pub proof fn ticks_of_a_batch_count_once(u: Ui, e: TuiEvent)
    requires
        !is_tick(e),
    ensures
        run_batch(u, seq![e]) == u.event(e),
        run_batch(u, seq![TuiEvent::UiTick]) == run_batch(
            u,
            seq![TuiEvent::UiTick, TuiEvent::UiTick],
        ),
        run_batch(u, seq![TuiEvent::DataTick, e]) == run_batch(u, seq![e, TuiEvent::DataTick]),
{
    let ui = TuiEvent::UiTick;
    let data = TuiEvent::DataTick;
    lemma_one(u, e);
    lemma_ticks(seq![ui]);
    lemma_ticks(seq![ui, ui]);
    lemma_filter_two(data, e);
    lemma_filter_two(e, data);
    assert(seq![ui][0] is UiTick && seq![ui, ui][0] is UiTick);
    assert(!has_data_tick(seq![ui]) && !has_data_tick(seq![ui, ui]));
    assert(seq![data, e][0] is DataTick && seq![e, data][1] is DataTick);
    assert(!has_ui_tick(seq![data, e]) && !has_ui_tick(seq![e, data]));
}

proof fn lemma_one(u: Ui, e: TuiEvent)
    requires
        !is_tick(e),
    ensures
        run_batch(u, seq![e]) == u.event(e),
{
    reveal(Seq::filter);
    let keep = |x: TuiEvent| !is_tick(x);
    assert(seq![e].drop_last() =~= Seq::empty());
    assert(Seq::<TuiEvent>::empty().filter(keep) =~= Seq::empty());
    assert(seq![e].filter(keep) =~= seq![e]);
    assert(without_ticks(seq![e]) =~= seq![e]);
    events_are_taken_in_order(u, e, Seq::empty());
    assert(seq![e] + Seq::<TuiEvent>::empty() =~= seq![e]);
    assert(!has_data_tick(seq![e]));
    assert(!has_ui_tick(seq![e]));
}

proof fn lemma_filter_two(x: TuiEvent, y: TuiEvent)
    ensures
        without_ticks(seq![x, y]) == (if is_tick(x) {
            Seq::<TuiEvent>::empty()
        } else {
            seq![x]
        }) + (if is_tick(y) {
            Seq::<TuiEvent>::empty()
        } else {
            seq![y]
        }),
{
    reveal(Seq::filter);
    let keep = |e: TuiEvent| !is_tick(e);
    assert(seq![x, y].drop_last() =~= seq![x]);
    assert(seq![x].drop_last() =~= Seq::empty());
    assert(Seq::<TuiEvent>::empty().filter(keep) =~= Seq::empty());
    assert(seq![x].filter(keep) =~= if is_tick(x) {
        Seq::<TuiEvent>::empty()
    } else {
        seq![x]
    });
    assert(seq![x, y].last() == y);
    assert(without_ticks(seq![x, y]) =~= if is_tick(y) {
        seq![x].filter(keep)
    } else {
        seq![x].filter(keep).push(y)
    });
}

proof fn lemma_ticks(s: Seq<TuiEvent>)
    requires
        forall|i: int| 0 <= i < s.len() ==> is_tick(#[trigger] s[i]),
    ensures
        without_ticks(s) == Seq::<TuiEvent>::empty(),
    decreases s.len(),
{
    reveal(Seq::filter);
    if s.len() > 0 {
        lemma_ticks(s.drop_last());
    }
}

/// The wizard that the user opens writes to the path that was given, or to the
/// usual one where none was, and begins with the configuration as it is.
pub proof fn opened_wizard_writes_to_the_given_path(a: App)
    ensures
        a.acted(Action::OpenWizard).setup_wizard is Some,
        a.config_path matches Some(p) ==> a.acted(Action::OpenWizard).setup_wizard
            == Some(Wizard::hydrated(p, a.config@)),
        a.config_path is None ==> a.acted(Action::OpenWizard).setup_wizard == Some(
            Wizard::hydrated(a.default_config_path, a.config@),
        ),
{
    reveal(App::acted);
    reveal(App::wizard_opened);
}

} // verus!
