//! The setup wizard: what each key changes, step by step, and what is written
//! in the end.
use vstd::prelude::*;

use crate::api::{MembershipsResponse, TeamMembership};
use crate::config::{ConfigView, TargetView};
use crate::draw::{blank, no_lines, SpanView};
use crate::keys::{Action, KeyCode};
use crate::laws::text::pieces_end_at_separators;
use crate::split::{pieces, trimmed};
use crate::views::setup::{
    detail_rows, field_row, heading_row, llm_rows, switch_row, target_name, title_row,
    with_target_switches, with_teams,
};
use crate::wizard::{
    entries_upto, org_teams, same_target_at, target_for, text_at, toggled, watch_entries,
    AsyncResource, WatchModeChoice, Wizard, WizardStep,
};

verus! {

/// The wizard after a key.
pub open spec fn press(w: Wizard, code: KeyCode) -> Wizard {
    w.key(code).0
}

/// Whether a key switches what the cursor is on.
pub open spec fn switches(code: KeyCode) -> bool {
    code == KeyCode::Char(' ') || code == KeyCode::Enter
}

/// Space or Enter on a target switches the setting under the cursor and leaves
/// every other: the first row direct review requests, the second what one
/// authored, the third what one is involved in. No other row touches these, and
/// nothing else of the wizard changes.
pub proof fn target_rows_switch_their_setting(w: Wizard, code: KeyCode, t: TargetView)
    requires
        w.step == WizardStep::TargetDetail,
        w.editing_target == Some(t),
        switches(code),
    ensures
        press(w, code).editing_target is Some,
        ({
            let after = press(w, code).editing_target->0;
            let at = w.editing_target_cursor;
            &&& (after.direct_review_requests != t.direct_review_requests) <==> at == 0
            &&& (after.include_authored != t.include_authored) <==> at == 1
            &&& (after.include_involved != t.include_involved) <==> at == 2
            &&& at < 3 ==> after.team_review_requests == t.team_review_requests
            &&& after.org == t.org
            &&& after.repo == t.repo
            &&& press(w, code) == (Wizard { editing_target: Some(after), ..w })
        }),
{
    reveal(Wizard::key);
}

/// The screen of a target draws each setting on the row by which it is
/// switched: Space turns the row under the cursor over, and no other.
pub proof fn switch_turns_the_row_under_the_cursor(w: Wizard, code: KeyCode, t: TargetView)
    requires
        w.step == WizardStep::TargetDetail,
        w.editing_target == Some(t),
        switches(code),
    ensures
        ({
            let before = detail_rows(w);
            let after = detail_rows(press(w, code));
            let at = w.editing_target_cursor;
            let direct = "Direct review requests (user-review-requested:@me)"@;
            let authored = "PRs I authored here"@;
            let involved = "PRs I'm otherwise involved in"@;
            &&& before[2] == switch_row(at == 0, direct, t.direct_review_requests)
            &&& before[3] == switch_row(at == 1, authored, t.include_authored)
            &&& before[4] == switch_row(at == 2, involved, t.include_involved)
            &&& at == 0 ==> after[2] == switch_row(true, direct, !t.direct_review_requests)
                && after[3] == before[3] && after[4] == before[4]
            &&& at == 1 ==> after[3] == switch_row(true, authored, !t.include_authored) && after[2]
                == before[2] && after[4] == before[4]
            &&& at == 2 ==> after[4] == switch_row(true, involved, !t.include_involved) && after[2]
                == before[2] && after[3] == before[3]
        }),
{
    target_rows_switch_their_setting(w, code, t);
    lemma_detail_head(w, t);
    lemma_detail_head(press(w, code), press(w, code).editing_target->0);
}

/// A row that can be switched shows whether it is on, its label, and whether
/// the cursor is on it.
pub proof fn switch_shows_its_state(selected: bool, label: Seq<char>, enabled: bool)
    ensures
        switch_row(selected, label, enabled)[1].text == if enabled {
            "[x] "@
        } else {
            "[ ] "@
        },
        switch_row(selected, label, enabled)[0].text == if selected {
            "❯ "@
        } else {
            "  "@
        },
        switch_row(selected, label, enabled)[2].text == label,
{
}

proof fn lemma_teams_add(
    lines: Seq<Seq<SpanView>>,
    t: TargetView,
    teams: Seq<TeamMembership>,
    cursor: usize,
    n: int,
)
    requires
        0 <= n <= teams.len(),
    ensures
        with_teams(lines, t, teams, cursor, n).len() == lines.len() + n,
        forall|i: int|
            0 <= i < lines.len() ==> #[trigger] with_teams(
                lines,
                t,
                teams,
                cursor,
                n,
            )[i] == lines[i],
    decreases n,
{
    if n > 0 {
        lemma_teams_add(lines, t, teams, cursor, n - 1);
    }
}

proof fn lemma_detail_head(w: Wizard, t: TargetView)
    requires
        w.editing_target == Some(t),
    ensures
        ({
            let rows = detail_rows(w);
            let at = w.editing_target_cursor;
            &&& rows.len() >= 5
            &&& rows[2] == switch_row(
                at == 0,
                "Direct review requests (user-review-requested:@me)"@,
                t.direct_review_requests,
            )
            &&& rows[3] == switch_row(at == 1, "PRs I authored here"@, t.include_authored)
            &&& rows[4] == switch_row(at == 2, "PRs I'm otherwise involved in"@, t.include_involved)
        }),
{
    let teams = w.teams();
    let head = with_target_switches(
        no_lines().push(
            title_row(
                "Configure target: "@ + target_name(t),
            ),
        ).push(blank()),
        t,
        w.editing_target_cursor,
    );
    if teams.len() > 0 {
        lemma_teams_add(
            head.push(blank()).push(
                heading_row("Team review requests:"@),
            ),
            t,
            teams,
            w.editing_target_cursor,
            teams.len() as int,
        );
    }
}

proof fn lemma_text_at(list: Seq<Seq<char>>, x: Seq<char>, i: int)
    requires
        0 <= i,
    ensures
        match text_at(list, x, i) {
            Some(k) => i <= k < list.len() && list[k] == x,
            None => forall|j: int| i <= j < list.len() ==> #[trigger] list[j] != x,
        },
    decreases list.len() - i,
{
    if i < list.len() && list[i] != x {
        lemma_text_at(list, x, i + 1);
    }
}

proof fn lemma_toggled(list: Seq<Seq<char>>, x: Seq<char>, y: Seq<char>)
    requires
        list.no_duplicates(),
    ensures
        toggled(list, x).contains(x) != list.contains(x),
        y != x ==> (toggled(list, x).contains(y) <==> list.contains(y)),
{
    lemma_text_at(list, x, 0);
    let after = toggled(list, x);
    match text_at(list, x, 0) {
        Some(k) => {
            assert(list.contains(x));
            if after.contains(x) {
                let j = choose|j: int| 0 <= j < after.len() && after[j] == x;
                if j < k {
                    assert(list[j] == x);
                } else {
                    assert(list[j + 1] == x);
                }
            }
            if y != x {
                if list.contains(y) {
                    let j = choose|j: int| 0 <= j < list.len() && list[j] == y;
                    if j < k {
                        assert(after[j] == y);
                    } else {
                        assert(after[j - 1] == y);
                    }
                }
                if after.contains(y) {
                    let j = choose|j: int| 0 <= j < after.len() && after[j] == y;
                    if j < k {
                        assert(list[j] == y);
                    } else {
                        assert(list[j + 1] == y);
                    }
                }
            }
        },
        None => {
            assert(after[list.len() as int] == x);
            if list.contains(y) {
                let j = choose|j: int| 0 <= j < list.len() && list[j] == y;
                assert(after[j] == y);
            }
            if after.contains(y) && y != x {
                let j = choose|j: int| 0 <= j < after.len() && after[j] == y;
                assert(list[j] == y);
            }
        },
    }
}

/// A row below the third switches the review requests of the team it names,
/// and of no other.
pub proof fn team_rows_switch_their_team(
    w: Wizard,
    code: KeyCode,
    t: TargetView,
    org: Seq<char>,
    i: int,
    other: Seq<char>,
)
    requires
        w.step == WizardStep::TargetDetail,
        w.editing_target == Some(t),
        t.org == Some(org),
        switches(code),
        0 <= i < w.teams().len(),
        w.editing_target_cursor == i + 3,
        t.team_review_requests.no_duplicates(),
    ensures
        ({
            let before = t.team_review_requests;
            let after = press(w, code).editing_target->0.team_review_requests;
            let team = org + "/"@ + w.teams()[i].slug@;
            &&& after.contains(team) != before.contains(team)
            &&& other != team ==> (after.contains(other) <==> before.contains(other))
        }),
{
    reveal(Wizard::key);
    lemma_toggled(t.team_review_requests, org + "/"@ + w.teams()[i].slug@, other);
}

proof fn lemma_org_teams(m: MembershipsResponse, org: Seq<char>, i: int, k: int)
    requires
        0 <= i <= k < m.orgs@.len(),
        m.orgs@[k].login@ == org,
        forall|j: int| i <= j < k ==> (#[trigger] m.orgs@[j]).login@ != org,
    ensures
        org_teams(m, org, i) == m.orgs@[k].teams@,
    decreases k - i,
{
    if i < k {
        assert(m.orgs@[i].login@ != org);
        lemma_org_teams(m, org, i + 1, k);
    }
}

/// The teams offered are those of the organisation being edited.
pub proof fn teams_are_those_of_the_organisation(
    w: Wizard,
    t: TargetView,
    m: MembershipsResponse,
    k: int,
)
    requires
        w.editing_target == Some(t),
        w.memberships == AsyncResource::Ready(m),
        0 <= k < m.orgs@.len(),
        t.org == Some(m.orgs@[k].login@),
        forall|j: int| 0 <= j < k ==> (#[trigger] m.orgs@[j]).login@ != m.orgs@[k].login@,
    ensures
        w.teams() == m.orgs@[k].teams@,
{
    lemma_org_teams(m, m.orgs@[k].login@, 0, k);
}

/// Whether a target asks for any pull request at all.
pub open spec fn asks_for_something(t: TargetView) -> bool {
    t.direct_review_requests || t.include_authored || t.include_involved
        || t.team_review_requests.len() > 0
}

proof fn lemma_same_target(targets: Seq<TargetView>, t: TargetView, i: int)
    requires
        0 <= i,
    ensures
        match same_target_at(targets, t, i) {
            Some(k) => i <= k < targets.len() && targets[k].org == t.org && targets[k].repo == t.repo,
            None => forall|j: int|
                i <= j < targets.len() ==> (#[trigger] targets[j]).org != t.org || targets[j].repo
                    != t.repo,
        },
    decreases targets.len() - i,
{
    if i < targets.len() && !(targets[i].org == t.org && targets[i].repo == t.repo) {
        lemma_same_target(targets, t, i + 1);
    }
}

/// Saving keeps the edited target among the chosen ones, in the place of one
/// for the same organisation and repository, and touches no other. A target
/// that asks for nothing is refused with a message, and nothing is lost.
pub proof fn saving_keeps_the_target(w: Wizard, t: TargetView)
    requires
        w.step == WizardStep::TargetDetail,
        w.editing_target == Some(t),
    ensures
        ({
            let after = press(w, KeyCode::Char('s'));
            let before = w.selected_targets;
            &&& asks_for_something(t) ==> {
                &&& after.selected_targets.contains(t)
                &&& after.editing_target is None
                &&& after.target_error is None
                &&& before.len() <= after.selected_targets.len() <= before.len() + 1
                &&& forall|i: int|
                    0 <= i < before.len() && !((#[trigger] before[i]).org == t.org && before[i].repo
                        == t.repo) ==> after.selected_targets[i] == before[i]
                &&& after.selected_targets.len() == before.len() + 1 <==> forall|i: int|
                    0 <= i < before.len() ==> !((#[trigger] before[i]).org == t.org
                        && before[i].repo == t.repo)
                &&& w.step_history.len() > 0 ==> after.step == w.step_history.last()
            }
            &&& !asks_for_something(t) ==> {
                &&& after.target_error is Some
                &&& after == (Wizard { target_error: after.target_error, ..w })
            }
        }),
        press(w, KeyCode::Char('S')) == press(w, KeyCode::Char('s')),
{
    reveal(Wizard::key);
    lemma_same_target(w.selected_targets, t, 0);
    let before = w.selected_targets;
    let after = press(w, KeyCode::Char('s'));
    if asks_for_something(t) {
        match same_target_at(before, t, 0) {
            Some(k) => {
                assert(after.selected_targets[k] == t);
            },
            None => {
                assert(after.selected_targets[before.len() as int] == t);
            },
        }
    }
}

/// Leaving a target without saving changes no chosen target.
pub proof fn leaving_a_target_drops_the_edit(w: Wizard)
    requires
        w.step == WizardStep::TargetDetail,
    ensures
        ({
            let after = press(w, KeyCode::Esc);
            &&& after.selected_targets == w.selected_targets
            &&& after.editing_target is None
            &&& after.target_error is None
            &&& w.step_history.len() > 0 ==> after.step == w.step_history.last()
        }),
{
    reveal(Wizard::key);
}

/// From the welcome one goes on to the choice of what to watch where the
/// account is known, else to its check, which is then asked for. The check lets
/// one on only once the account is known, and R asks again.
pub proof fn account_comes_before_watching(w: Wizard)
    ensures
        ({
            let known = w.auth is Ready && w.auth->Ready_0.auth.resolved
                && w.auth->Ready_0.auth.user is Some;
            let on = press(w, KeyCode::Enter);
            &&& w.step == WizardStep::Welcome && known ==> on.step == WizardStep::WatchMode
                && on.auth == w.auth
            &&& w.step == WizardStep::Welcome && !known ==> on.step == WizardStep::AuthCheck && (
            on.auth is Requested || on.auth is Loading)
            &&& w.step == WizardStep::AuthCheck && known ==> on.step == WizardStep::WatchMode
            &&& w.step == WizardStep::AuthCheck && !known ==> on == w
            &&& w.step == WizardStep::AuthCheck && !(w.auth is Loading) ==> press(
                w,
                KeyCode::Char('r'),
            ).auth is Requested
        }),
{
    reveal(Wizard::key);
}

/// What is watched is chosen up and down among three, and Enter goes to the
/// step that the choice needs: everything to the preview, a list to its entry,
/// precise targets to the picker, whose organisations are then fetched.
pub proof fn watch_mode_leads_to_its_step(w: Wizard)
    requires
        w.step == WizardStep::WatchMode,
    ensures
        ({
            let on = press(w, KeyCode::Enter);
            &&& w.watch_mode == WatchModeChoice::Everything ==> on.step == WizardStep::LivePreview
            &&& w.watch_mode == WatchModeChoice::BroadWatch ==> on.step
                == WizardStep::WatchListInput
            &&& w.watch_mode == WatchModeChoice::PreciseTargets ==> on.step
                == WizardStep::TargetPicker && !(on.memberships is Idle || on.memberships is Failed)
                && (w.memberships is Ready ==> on.memberships == w.memberships)
            &&& on.watch_mode == w.watch_mode
            &&& on.step_history == w.step_history.push(WizardStep::WatchMode)
        }),
        press(w, KeyCode::Down).watch_mode == match w.watch_mode {
            WatchModeChoice::Everything => WatchModeChoice::BroadWatch,
            WatchModeChoice::BroadWatch => WatchModeChoice::PreciseTargets,
            WatchModeChoice::PreciseTargets => WatchModeChoice::PreciseTargets,
        },
        press(w, KeyCode::Up).watch_mode == match w.watch_mode {
            WatchModeChoice::Everything => WatchModeChoice::Everything,
            WatchModeChoice::BroadWatch => WatchModeChoice::Everything,
            WatchModeChoice::PreciseTargets => WatchModeChoice::BroadWatch,
        },
{
    reveal(Wizard::key);
}

/// Typing goes to the end of the text that is open, Backspace takes its last
/// character, and no other text changes: the watch list, the manual entry, and
/// on the third, fourth and fifth row of the language model its endpoint, key
/// and model.
pub proof fn typing_goes_to_the_open_text(w: Wizard, c: char)
    ensures
        w.step == WizardStep::WatchListInput ==> press(w, KeyCode::Char(c)) == (Wizard {
            watch_raw_input: w.watch_raw_input.push(c),
            ..w
        }),
        w.step == WizardStep::WatchListInput && w.watch_raw_input.len() > 0 ==> press(
            w,
            KeyCode::Backspace,
        ) == (Wizard { watch_raw_input: w.watch_raw_input.drop_last(), ..w }),
        w.step == WizardStep::TargetPicker && w.manual_entry_active ==> press(w, KeyCode::Char(c))
            == (Wizard { manual_entry_buffer: w.manual_entry_buffer.push(c), ..w }),
        w.step == WizardStep::LlmConfig && w.llm_editing_field && w.llm_cursor == 2 ==> press(
            w,
            KeyCode::Char(c),
        ) == (Wizard { llm_endpoint: w.llm_endpoint.push(c), ..w }),
        w.step == WizardStep::LlmConfig && w.llm_editing_field && w.llm_cursor == 3 ==> press(
            w,
            KeyCode::Char(c),
        ) == (Wizard { llm_api_key: w.llm_api_key.push(c), ..w }),
        w.step == WizardStep::LlmConfig && w.llm_editing_field && w.llm_cursor == 4 ==> press(
            w,
            KeyCode::Char(c),
        ) == (Wizard { llm_model: w.llm_model.push(c), ..w }),
        w.step == WizardStep::LlmConfig && w.llm_editing_field && w.llm_cursor == 3
            && w.llm_api_key.len() > 0 ==> press(w, KeyCode::Backspace) == (Wizard {
            llm_api_key: w.llm_api_key.drop_last(),
            ..w
        }),
        w.step == WizardStep::LlmConfig && w.llm_editing_field ==> press(w, KeyCode::Enter) == (
        Wizard { llm_editing_field: false, ..w }),
{
    reveal(Wizard::key);
}

/// The first row of the language model switches it on and off, the second goes
/// from one provider to the other, and the rows below open their text. N goes
/// on to the end.
pub proof fn llm_rows_switch_their_setting(w: Wizard)
    requires
        w.step == WizardStep::LlmConfig,
        !w.llm_editing_field,
    ensures
        w.llm_cursor == 0 ==> press(w, KeyCode::Enter) == (Wizard { llm_enabled: !w.llm_enabled, ..w }),
        w.llm_cursor == 1 && w.llm_provider_idx == 0 ==> press(w, KeyCode::Enter) == (Wizard {
            llm_provider_idx: 1,
            ..w
        }),
        w.llm_cursor == 1 && w.llm_provider_idx == 1 ==> press(w, KeyCode::Enter) == (Wizard {
            llm_provider_idx: 0,
            ..w
        }),
        w.llm_cursor > 1 ==> press(w, KeyCode::Enter) == (Wizard { llm_editing_field: true, ..w }),
        press(w, KeyCode::Char(' ')) == press(w, KeyCode::Enter),
        press(w, KeyCode::Char('n')).step == WizardStep::Confirm,
        w.llm_cursor < 4 ==> press(w, KeyCode::Down) == (Wizard {
            llm_cursor: (w.llm_cursor + 1) as usize,
            ..w
        }),
        w.llm_cursor == 4 ==> press(w, KeyCode::Down) == w,
        w.llm_cursor > 0 ==> press(w, KeyCode::Up) == (Wizard {
            llm_cursor: (w.llm_cursor - 1) as usize,
            ..w
        }),
{
    reveal(Wizard::key);
}

/// The screen of the language model marks the row that a key would change:
/// below the switch stand provider, endpoint, key and model, in this order.
pub proof fn llm_screen_follows_the_cursor(w: Wizard, width: u16)
    requires
        w.llm_enabled,
    ensures
        llm_rows(w, width).len() == 7,
        llm_rows(w, width)[2] == switch_row(
            w.llm_cursor == 0,
            "Enable LLM classification"@,
            w.llm_enabled,
        ),
        llm_rows(w, width)[4] == field_row(
            "Endpoint: "@,
            w.llm_endpoint,
            width,
            w.llm_cursor == 2 && w.llm_editing_field,
        ),
        llm_rows(w, width)[5][0].text == "API key: "@,
        llm_rows(w, width)[6] == field_row(
            "Model (empty = auto-detect): "@,
            w.llm_model,
            width,
            w.llm_cursor == 4 && w.llm_editing_field,
        ),
{
}

/// At the end Y asks for the configuration to be written, once; no other key
/// does, on any step.
pub proof fn only_yes_writes(w: Wizard, code: KeyCode)
    ensures
        w.step == WizardStep::Confirm && (w.commit is Idle || w.commit is Failed) ==> press(
            w,
            KeyCode::Char('y'),
        ) == (Wizard { commit: AsyncResource::Requested, ..w }),
        !(w.commit is Requested) && press(w, code).commit is Requested ==> w.step
            == WizardStep::Confirm && (code == KeyCode::Char('y') || code == KeyCode::Char('Y')),
{
    reveal(Wizard::key);
}

/// Escape goes back to the step before, wherever no text is open, and changes
/// nothing of what was entered.
pub proof fn escape_goes_back(w: Wizard)
    requires
        w.step_history.len() > 0,
        w.step != WizardStep::Welcome,
        w.step == WizardStep::TargetPicker ==> !w.manual_entry_active,
        w.step == WizardStep::LlmConfig ==> !w.llm_editing_field,
        w.step != WizardStep::TargetDetail,
    ensures
        press(w, KeyCode::Esc) == (Wizard {
            step: w.step_history.last(),
            step_history: w.step_history.drop_last(),
            ..w
        }),
{
    reveal(Wizard::key);
}

/// Q closes the wizard where it is not typed.
pub proof fn q_closes_the_wizard(w: Wizard)
    requires
        w.step != WizardStep::WatchListInput,
        w.step != WizardStep::TargetDetail,
        w.step == WizardStep::TargetPicker ==> !w.manual_entry_active,
        w.step == WizardStep::LlmConfig ==> !w.llm_editing_field,
    ensures
        w.key(KeyCode::Char('q')) == (w, Action::CloseWizard),
{
    reveal(Wizard::key);
}

proof fn lemma_target_for(targets: Seq<TargetView>, login: Seq<char>, i: int)
    requires
        0 <= i,
    ensures
        match target_for(targets, login, i) {
            Some(t) => t.org == Some(login) && exists|k: int|
                i <= k < targets.len() && #[trigger] targets[k] == t,
            None => forall|k: int|
                i <= k < targets.len() ==> (#[trigger] targets[k]).org != Some(login),
        },
    decreases targets.len() - i,
{
    if i < targets.len() && targets[i].org != Some(login) {
        lemma_target_for(targets, login, i + 1);
    }
}

/// Enter on an organisation edits its target: the one chosen before, or a new
/// one that asks for direct requests and what one authored. Below the last
/// organisation it opens the manual entry.
pub proof fn picker_edits_the_organisation_under_the_cursor(
    w: Wizard,
    m: MembershipsResponse,
)
    requires
        w.step == WizardStep::TargetPicker,
        !w.manual_entry_active,
        w.memberships == AsyncResource::Ready(m),
    ensures
        ({
            let after = press(w, KeyCode::Enter);
            let at = w.target_cursor;
            &&& at < m.orgs@.len() ==> {
                let login = m.orgs@[at as int].login@;
                &&& after.step == WizardStep::TargetDetail
                &&& after.editing_target_cursor == 0
                &&& after.editing_target is Some
                &&& after.editing_target->0.org == Some(login)
                &&& (exists|k: int|
                    0 <= k < w.selected_targets.len() && (#[trigger] w.selected_targets[k]).org
                        == Some(login)) ==> w.selected_targets.contains(after.editing_target->0)
                &&& (forall|k: int|
                    0 <= k < w.selected_targets.len() ==> (#[trigger] w.selected_targets[k]).org
                        != Some(login)) ==> is_fresh(after.editing_target->0) && after.editing_target->0.repo
                    is None
                &&& after.selected_targets == w.selected_targets
            }
            &&& at >= m.orgs@.len() ==> after.manual_entry_active && after.manual_entry_buffer.len()
                == 0 && after.step == WizardStep::TargetPicker
        }),
{
    reveal(Wizard::key);
    if w.target_cursor < m.orgs@.len() {
        lemma_target_for(w.selected_targets, m.orgs@[w.target_cursor as int].login@, 0);
    }
}

/// A target as it begins.
pub open spec fn is_fresh(t: TargetView) -> bool {
    t.direct_review_requests && t.include_authored && !t.include_involved
        && t.team_review_requests.len() == 0
}

/// What is entered by hand becomes a target: a repository where it has a slash,
/// else an organisation; white space around it is dropped, and nothing is
/// edited where nothing was entered.
pub proof fn manual_entry_becomes_a_target(w: Wizard)
    requires
        w.step == WizardStep::TargetPicker,
        w.manual_entry_active,
    ensures
        ({
            let after = press(w, KeyCode::Enter);
            let entry = trimmed(w.manual_entry_buffer);
            &&& !after.manual_entry_active
            &&& after.manual_entry_buffer.len() == 0
            &&& entry.len() == 0 ==> after.step == w.step && after.editing_target
                == w.editing_target
            &&& entry.len() > 0 ==> after.step == WizardStep::TargetDetail && after.editing_target
                is Some && is_fresh(after.editing_target->0)
            &&& entry.len() > 0 && entry.contains('/') ==> after.editing_target->0.repo == Some(
                entry,
            ) && after.editing_target->0.org is None
            &&& entry.len() > 0 && !entry.contains('/') ==> after.editing_target->0.org == Some(
                entry,
            ) && after.editing_target->0.repo is None
        }),
        press(w, KeyCode::Esc) == (Wizard {
            manual_entry_active: false,
            manual_entry_buffer: Seq::empty(),
            ..w
        }),
{
    reveal(Wizard::key);
}

/// In the picker D takes out the chosen target under the cursor and no other,
/// A opens the manual entry, and N goes on to the preview once something is
/// chosen.
pub proof fn picker_keys_do_what_they_say(w: Wizard)
    requires
        w.step == WizardStep::TargetPicker,
        !w.manual_entry_active,
    ensures
        w.target_cursor < w.selected_targets.len() ==> press(w, KeyCode::Char('d')).selected_targets
            == w.selected_targets.take(w.target_cursor as int) + w.selected_targets.skip(
            w.target_cursor + 1,
        ),
        w.target_cursor >= w.selected_targets.len() ==> press(w, KeyCode::Char('d')) == w,
        press(w, KeyCode::Char('a')) == (Wizard {
            manual_entry_active: true,
            manual_entry_buffer: Seq::empty(),
            ..w
        }),
        w.selected_targets.len() > 0 ==> press(w, KeyCode::Char('n')).step
            == WizardStep::LivePreview && !(press(w, KeyCode::Char('n')).preview is Idle),
        w.selected_targets.len() == 0 ==> press(w, KeyCode::Char('n')) == w,
        w.target_cursor < w.org_count() ==> press(w, KeyCode::Down) == (Wizard {
            target_cursor: (w.target_cursor + 1) as usize,
            ..w
        }),
        w.target_cursor > 0 ==> press(w, KeyCode::Up) == (Wizard {
            target_cursor: (w.target_cursor - 1) as usize,
            ..w
        }),
{
    reveal(Wizard::key);
    if w.target_cursor < w.selected_targets.len() {
        assert(w.selected_targets.remove(w.target_cursor as int) =~= w.selected_targets.take(
            w.target_cursor as int,
        ) + w.selected_targets.skip(w.target_cursor + 1));
    }
}

/// The preview goes on to the language model, and R fetches it anew; a watch
/// list goes on to the preview, which is then fetched.
pub proof fn preview_stands_before_the_llm(w: Wizard)
    ensures
        w.step == WizardStep::LivePreview ==> press(w, KeyCode::Enter).step == WizardStep::LlmConfig,
        w.step == WizardStep::LivePreview && !(w.preview is Loading) ==> press(
            w,
            KeyCode::Char('r'),
        ).preview is Requested,
        w.step == WizardStep::WatchListInput ==> press(w, KeyCode::Enter).step
            == WizardStep::LivePreview && (press(w, KeyCode::Enter).preview is Requested || press(
            w,
            KeyCode::Enter,
        ).preview is Loading),
{
    reveal(Wizard::key);
}

proof fn lemma_entries_tail(first: Seq<char>, rest: Seq<Seq<char>>, n: int)
    requires
        0 <= n <= rest.len(),
    ensures
        entries_upto(seq![first] + rest, n + 1) == (if trimmed(first).len() == 0 {
            Seq::<Seq<char>>::empty()
        } else {
            seq![trimmed(first)]
        }) + entries_upto(rest, n),
    decreases n,
{
    let all = seq![first] + rest;
    let head = if trimmed(first).len() == 0 {
        Seq::<Seq<char>>::empty()
    } else {
        seq![trimmed(first)]
    };
    if n == 0 {
        assert(entries_upto(all, 0) =~= Seq::empty());
        assert(all[0] == first);
        assert(entries_upto(all, 1) =~= head + entries_upto(rest, 0));
    } else {
        lemma_entries_tail(first, rest, n - 1);
        assert(all[n] == rest[n - 1]);
        assert(entries_upto(all, n + 1) =~= head + entries_upto(rest, n));
    }
}

/// A watch list is read entry by entry, between commas: white space around an
/// entry is dropped, and an empty one left out.
pub proof fn watch_list_is_read_by_commas(first: Seq<char>, rest: Seq<char>)
    requires
        !first.contains(','),
    ensures
        watch_entries(first.push(',') + rest) == (if trimmed(first).len() == 0 {
            Seq::<Seq<char>>::empty()
        } else {
            seq![trimmed(first)]
        }) + watch_entries(rest),
        watch_entries(first) == (if trimmed(first).len() == 0 {
            Seq::<Seq<char>>::empty()
        } else {
            seq![trimmed(first)]
        }),
{
    pieces_end_at_separators(first, ',', rest);
    let below = pieces(rest, ',');
    lemma_entries_tail(first, below, below.len() as int);
    lemma_entries_tail(first, Seq::empty(), 0);
    assert(seq![first] + Seq::<Seq<char>>::empty() =~= seq![first]);
    assert((seq![first] + below).len() == below.len() + 1);
    let head = if trimmed(first).len() == 0 {
        Seq::<Seq<char>>::empty()
    } else {
        seq![trimmed(first)]
    };
    assert(head + entries_upto(Seq::empty(), 0) =~= head);
}

/// What is written is what was entered: the watch list or the targets by what
/// was chosen to be watched, the settings of the language model, and the
/// settings of daemon and display as they were.
pub proof fn draft_is_what_was_entered(w: Wizard)
    ensures
        ({
            let c = w.draft_view();
            &&& w.watch_mode == WatchModeChoice::Everything ==> c.watch.len() == 0 && c.targets.len()
                == 0
            &&& w.watch_mode == WatchModeChoice::BroadWatch ==> c.watch == watch_entries(
                w.watch_raw_input,
            ) && c.targets.len() == 0
            &&& w.watch_mode == WatchModeChoice::PreciseTargets ==> c.targets == w.selected_targets
                && c.watch.len() == 0
            &&& c.llm.enabled == w.llm_enabled
            &&& c.llm.endpoint == w.llm_endpoint
            &&& c.llm.api_key == w.llm_api_key
            &&& c.llm.model == w.llm_model
            &&& w.llm_provider_idx == 0 ==> c.llm.provider == "lm_studio"@
            &&& w.llm_provider_idx == 1 ==> c.llm.provider == "openai_compatible"@
            &&& c.daemon == w.daemon_config
            &&& c.tui == w.tui_config
            &&& c.poll_interval == 300
            &&& c.llm.classify_on_change
            &&& c.llm.max_output_tokens == 4096
        }),
{
}

/// The wizard opens on what is configured.
pub proof fn wizard_opens_on_the_configuration(path: Seq<char>, c: ConfigView)
    ensures
        ({
            let w = Wizard::hydrated(path, c);
            &&& w.step == WizardStep::Welcome
            &&& w.step_history.len() == 0
            &&& w.config_path == path
            &&& w.selected_targets == c.targets
            &&& c.targets.len() > 0 ==> w.watch_mode == WatchModeChoice::PreciseTargets
            &&& c.targets.len() == 0 && c.watch.len() > 0 ==> w.watch_mode
                == WatchModeChoice::BroadWatch
            &&& c.targets.len() == 0 && c.watch.len() == 0 ==> w.watch_mode
                == WatchModeChoice::Everything
            &&& w.llm_enabled == c.llm.enabled
            &&& w.llm_endpoint == c.llm.endpoint
            &&& w.llm_api_key == c.llm.api_key
            &&& w.llm_model == c.llm.model
            &&& c.llm.provider == "openai_compatible"@ ==> w.llm_provider_idx == 1
            &&& c.llm.provider != "openai_compatible"@ ==> w.llm_provider_idx == 0
            &&& w.auth is Idle && w.memberships is Idle && w.preview is Idle && w.commit is Idle
        }),
{
    reveal_strlit("openai_compatible");
    reveal_strlit("lm_studio");
    assert("openai_compatible"@.len() != "lm_studio"@.len());
}

} // verus!
