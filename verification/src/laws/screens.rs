//! The wizard's screens: what each step shows.
use vstd::prelude::*;

use crate::api::{ConfigPreviewCountsResponse, MembershipsResponse, OrgMembership, SetupStatusResponse};
use crate::config::TargetView;
use crate::draw::{row_text, SpanView};
use crate::split::{text_lines, texts};
use crate::text::decimal;
use crate::theme::INBOX;
use crate::views::setup::{
    auth_rows, choice_row, confirm_rows, detail_rows, field_row, org_label, picker_head,
    picker_rows, preview_rows, step_rows, watch_list_rows, watch_mode_rows, with_errors, with_orgs,
    with_query_list, with_text, wizard_ops,
};
use crate::wizard::{hint_of, AsyncResource, WatchModeChoice, Wizard, WizardStep};

verus! {

/// Whether a row that can be picked is marked, and what it says.
pub open spec fn picks(line: Seq<SpanView>, label: Seq<char>, here: bool) -> bool {
    row_text(line) == (if here {
        "❯ "@ + label
    } else {
        "  "@ + label
    })
}

proof fn lemma_choice(label: Seq<char>, here: bool)
    ensures
        picks(choice_row(label, here), label, here),
{
    crate::markdown::lemma_row_text_one(
        "❯ "@ + label,
        crate::draw::fg(crate::theme::TEXT).bg(crate::theme::SURFACE0).bold(),
    );
    crate::markdown::lemma_row_text_one(
        "  "@ + label,
        crate::draw::fg(crate::theme::SUBTEXT0),
    );
}

/// The account's step says who is signed in, or that nobody is, or that the
/// answer is awaited.
pub proof fn account_screen_names_the_user(w: Wizard, s: SetupStatusResponse, tick: u64)
    ensures
        w.auth == AsyncResource::Ready(s) && s.auth.resolved && s.auth.user is Some ==> {
            let rows = auth_rows(w, tick);
            rows.len() == 5 && rows[2].len() == 2 && rows[2][1].text == "Authenticated as "@
                + s.auth.user->0@
        },
        w.auth == AsyncResource::Ready(s) && !(s.auth.resolved && s.auth.user is Some) && s.next_steps@.len()
            == 0 ==> row_text(auth_rows(w, tick)[2]) == "✕ "@ + "GitHub auth is not resolved."@,
        w.auth is Loading ==> auth_rows(w, tick).len() == 3 && auth_rows(w, tick)[2][1].text
            == " checking..."@,
{
    crate::markdown::lemma_row_text_one(
        "✕ "@ + "GitHub auth is not resolved."@,
        crate::draw::fg(crate::theme::DEL),
    );
}

/// The step of what to watch shows the three ways and marks the chosen one.
pub proof fn watch_screen_marks_the_choice(w: Wizard)
    ensures
        ({
            let rows = watch_mode_rows(w);
            &&& rows.len() == 5
            &&& picks(
                rows[2],
                "Everything involving me (default, no config needed)"@,
                w.watch_mode == WatchModeChoice::Everything,
            )
            &&& picks(
                rows[3],
                "Broad watch list (org/repo names)"@,
                w.watch_mode == WatchModeChoice::BroadWatch,
            )
            &&& picks(
                rows[4],
                "Precise targets (pick teams from GitHub)"@,
                w.watch_mode == WatchModeChoice::PreciseTargets,
            )
        }),
{
    lemma_choice(
        "Everything involving me (default, no config needed)"@,
        w.watch_mode == WatchModeChoice::Everything,
    );
    lemma_choice(
        "Broad watch list (org/repo names)"@,
        w.watch_mode == WatchModeChoice::BroadWatch,
    );
    lemma_choice(
        "Precise targets (pick teams from GitHub)"@,
        w.watch_mode == WatchModeChoice::PreciseTargets,
    );
}

/// The watch list and an entry made by hand are shown as they are typed.
pub proof fn typed_text_is_shown(w: Wizard, tick: u64, width: u16)
    ensures
        watch_list_rows(w, width).last() == field_row("> "@, w.watch_raw_input, width, true),
        w.manual_entry_active ==> picker_rows(w, tick, width).last() == field_row(
            "Org or org/repo: "@,
            w.manual_entry_buffer,
            width,
            true,
        ),
{
}

proof fn lemma_orgs(
    lines: Seq<Seq<SpanView>>,
    orgs: Seq<OrgMembership>,
    cursor: usize,
    n: int,
    k: int,
)
    requires
        0 <= k < n <= orgs.len(),
    ensures
        with_orgs(lines, orgs, cursor, n).len() == lines.len() + n,
        with_orgs(lines, orgs, cursor, n)[lines.len() + k] == choice_row(
            org_label(orgs[k]),
            cursor == k,
        ),
    decreases n,
{
    lemma_orgs_len(lines, orgs, cursor, n - 1);
    if k < n - 1 {
        lemma_orgs(lines, orgs, cursor, n - 1, k);
    }
}

proof fn lemma_orgs_len(lines: Seq<Seq<SpanView>>, orgs: Seq<OrgMembership>, cursor: usize, n: int)
    requires
        0 <= n,
    ensures
        with_orgs(lines, orgs, cursor, n).len() == lines.len() + n,
    decreases n,
{
    if n > 0 {
        lemma_orgs_len(lines, orgs, cursor, n - 1);
    }
}

/// The picker shows every organisation of the user in its order, with the one
/// under the cursor marked, and below them the row for one entered by hand.
pub proof fn picker_shows_the_organisations(
    w: Wizard,
    m: MembershipsResponse,
    tick: u64,
    width: u16,
    k: int,
)
    requires
        !w.manual_entry_active,
        w.memberships == AsyncResource::Ready(m),
        !m.truncated,
        0 <= k < m.orgs@.len(),
    ensures
        ({
            let rows = picker_rows(w, tick, width);
            let n = picker_head(w).len();
            &&& rows.len() == n + m.orgs@.len() + 1
            &&& picks(rows[n + k], org_label(m.orgs@[k]), w.target_cursor == k)
            &&& picks(
                rows.last(),
                "+ Add manually (org or org/repo)"@,
                w.target_cursor == m.orgs@.len(),
            )
        }),
{
    lemma_orgs(picker_head(w), m.orgs@, w.target_cursor, m.orgs@.len() as int, k);
    lemma_choice(org_label(m.orgs@[k]), w.target_cursor == k);
    lemma_choice("+ Add manually (org or org/repo)"@, w.target_cursor == m.orgs@.len());
}

/// An organisation is named with the number of its teams.
pub proof fn organisation_is_named_with_its_teams(org: OrgMembership)
    ensures
        org.teams@.len() == 0 ==> org_label(org) == org.login@,
        org.teams@.len() == 1 ==> org_label(org) == org.login@ + " ("@ + decimal(1) + " team)"@,
        org.teams@.len() > 1 ==> org_label(org) == org.login@ + " ("@ + decimal(org.teams@.len())
            + " teams)"@,
{
}

/// A target's step is headed by its repository, or its organisation where it
/// has none.
pub proof fn target_screen_names_the_target(w: Wizard, t: TargetView)
    requires
        w.editing_target == Some(t),
        w.teams().len() == 0,
    ensures
        t.repo matches Some(repo) ==> row_text(detail_rows(w)[0]) == "Configure target: "@ + repo,
        t.repo is None && t.org is Some ==> row_text(detail_rows(w)[0]) == "Configure target: "@
            + t.org->0,
        w.target_error matches Some(e) ==> row_text(detail_rows(w).last()) == "✕ "@ + e,
        w.target_error is None ==> detail_rows(w).len() == 5,
{
    let style = crate::draw::fg(crate::theme::TEXT).bold();
    crate::markdown::lemma_row_text_one(
        "Configure target: "@ + crate::views::setup::target_name(t),
        style,
    );
    if w.target_error is Some {
        crate::markdown::lemma_row_text_one(
            "✕ "@ + w.target_error->0,
            crate::draw::fg(crate::theme::DEL),
        );
    }
}

proof fn lemma_query_list(lines: Seq<Seq<SpanView>>, list: Seq<Seq<char>>, n: int, k: int)
    requires
        0 <= n <= list.len(),
    ensures
        with_query_list(lines, list, n).len() == lines.len() + n,
        0 <= k < lines.len() ==> with_query_list(lines, list, n)[k] == lines[k],
        0 <= k - lines.len() < n ==> with_query_list(lines, list, n)[k].len() == 2
            && with_query_list(lines, list, n)[k][1].text == list[k - lines.len()],
    decreases n,
{
    if n > 0 {
        lemma_query_list(lines, list, n - 1, k);
    }
}

proof fn lemma_errors(lines: Seq<Seq<SpanView>>, list: Seq<Seq<char>>, n: int, k: int)
    requires
        0 <= n <= list.len(),
    ensures
        with_errors(lines, list, n).len() == lines.len() + n,
        0 <= k < lines.len() ==> with_errors(lines, list, n)[k] == lines[k],
        0 <= k - lines.len() < n ==> row_text(with_errors(lines, list, n)[k]) == "✕ "@ + list[k
            - lines.len()],
    decreases n,
{
    if n > 0 {
        lemma_errors(lines, list, n - 1, k);
        crate::markdown::lemma_row_text_one(
            "✕ "@ + list[n - 1],
            crate::draw::fg(crate::theme::DEL),
        );
    }
}

/// The preview shows how many pull requests there would be, then each query,
/// then each failure, in their order.
pub proof fn preview_shows_count_queries_and_failures(
    w: Wizard,
    p: ConfigPreviewCountsResponse,
    tick: u64,
    i: int,
    j: int,
)
    requires
        w.preview == AsyncResource::Ready(p),
    ensures
        ({
            let rows = preview_rows(w, tick);
            let n = p.queries@.len();
            &&& rows.len() == 5 + n + p.errors@.len()
            &&& rows[2].len() == 2 && rows[2][0].text == decimal(p.total_matched_prs as nat)
            &&& 0 <= i < n ==> rows[5 + i][1].text == p.queries@[i]@
            &&& 0 <= j < p.errors@.len() ==> row_text(rows[5 + n + j]) == "✕ "@ + p.errors@[j]@
        }),
{
    let queries = texts(p.queries@);
    let errors = texts(p.errors@);
    assert(queries.len() == p.queries@.len() && errors.len() == p.errors@.len());
    let head = preview_head(p);
    let mid = with_query_list(head, queries, queries.len() as int);
    lemma_query_list(head, queries, queries.len() as int, 2);
    lemma_query_list(head, queries, queries.len() as int, 5 + i);
    lemma_errors(mid, errors, errors.len() as int, 2);
    lemma_errors(mid, errors, errors.len() as int, 5 + i);
    lemma_errors(mid, errors, errors.len() as int, mid.len() + j);
    assert(preview_rows(w, tick) == with_errors(mid, errors, errors.len() as int));
    if 0 <= i < queries.len() {
        assert(queries[i] == p.queries@[i]@);
    }
    if 0 <= j < errors.len() {
        assert(errors[j] == p.errors@[j]@);
    }
}

spec fn preview_head(p: ConfigPreviewCountsResponse) -> Seq<Seq<SpanView>> {
    crate::draw::no_lines().push(
        crate::views::setup::title_row("Here's what you'll see"@),
    ).push(crate::draw::blank()).push(
        crate::draw::blank().push(
            crate::draw::sp(
                decimal(p.total_matched_prs as nat),
                crate::draw::fg(crate::theme::ADD).bold(),
            ),
        ).push(
            crate::draw::sp(
                " distinct open PR(s) would show up in your inbox."@,
                crate::draw::Style::plain(),
            ),
        ),
    ).push(crate::draw::blank()).push(crate::views::setup::heading_row("Queries:"@))
}

proof fn lemma_text(lines: Seq<Seq<SpanView>>, list: Seq<Seq<char>>, n: int, k: int)
    requires
        0 <= n <= list.len(),
    ensures
        with_text(lines, list, n).len() == lines.len() + n,
        0 <= k < lines.len() ==> with_text(lines, list, n)[k] == lines[k],
        0 <= k - lines.len() < n ==> row_text(with_text(lines, list, n)[k]) == list[k
            - lines.len()],
    decreases n,
{
    if n > 0 {
        lemma_text(lines, list, n - 1, k);
        crate::markdown::lemma_row_text_one(
            list[n - 1],
            crate::draw::fg(crate::theme::SUBTEXT0),
        );
    }
}

/// The last step shows every line of the configuration that will be written,
/// in its order; writing that failed is told below it.
pub proof fn draft_is_shown_line_by_line(w: Wizard, text: Seq<char>, k: int)
    requires
        0 <= k < text_lines(text).len(),
    ensures
        ({
            let rows = confirm_rows(w, Ok(text));
            let n = text_lines(text).len();
            &&& row_text(rows[2 + k]) == text_lines(text)[k]
            &&& w.commit matches AsyncResource::Failed(e) ==> rows.len() == n + 4 && row_text(
                rows.last(),
            ) == "✕ "@ + e@
            &&& !(w.commit is Loading) && !(w.commit is Failed) ==> rows.len() == n + 2
        }),
{
    let head = crate::draw::no_lines().push(
        crate::views::setup::title_row("Review and confirm"@),
    ).push(crate::draw::blank());
    lemma_text(head, text_lines(text), text_lines(text).len() as int, 2 + k);
    if w.commit is Failed {
        crate::markdown::lemma_row_text_one(
            "✕ "@ + w.commit->Failed_0@,
            crate::draw::fg(crate::theme::DEL),
        );
    }
}

/// Each step shows its own screen, with its own keys below it.
pub proof fn steps_have_their_screens(
    w: Wizard,
    tick: u64,
    area: crate::draw::Rect,
    draft: Result<Seq<char>, Seq<char>>,
    width: u16,
)
    ensures
        w.step == WizardStep::AuthCheck ==> step_rows(w, tick, width, draft) == auth_rows(w, tick),
        w.step == WizardStep::WatchMode ==> step_rows(w, tick, width, draft) == watch_mode_rows(w),
        w.step == WizardStep::WatchListInput ==> step_rows(w, tick, width, draft)
            == watch_list_rows(w, width),
        w.step == WizardStep::TargetPicker ==> step_rows(w, tick, width, draft) == picker_rows(
            w,
            tick,
            width,
        ),
        w.step == WizardStep::TargetDetail ==> step_rows(w, tick, width, draft) == detail_rows(w),
        w.step == WizardStep::LivePreview ==> step_rows(w, tick, width, draft) == preview_rows(
            w,
            tick,
        ),
        w.step == WizardStep::Confirm ==> step_rows(w, tick, width, draft) == confirm_rows(
            w,
            draft,
        ),
        wizard_ops(w, tick, area, draft).len() == 3,
        wizard_ops(w, tick, area, draft)[2] matches crate::draw::OpView::Text { lines, .. }
            && lines.len() >= 2 && row_text(lines.last()) == hint_of(w.step),
{
    reveal(wizard_ops);
    crate::markdown::lemma_row_text_one(hint_of(w.step), crate::draw::fg(INBOX));
}

/// The keys that a step names are those it has.
pub proof fn steps_name_their_keys()
    ensures
        hint_of(WizardStep::Welcome) == "Enter continue · q close"@,
        hint_of(WizardStep::AuthCheck) == "r recheck · Enter continue once resolved · Esc back"@,
        hint_of(WizardStep::WatchMode) == "j/k select · Enter continue · Esc back"@,
        hint_of(WizardStep::WatchListInput) == "type to edit · Enter continue · Esc back"@,
        hint_of(WizardStep::TargetPicker)
            == "j/k select · Enter edit/add · a manual entry · d remove · n next · Esc back"@,
        hint_of(WizardStep::TargetDetail) == "j/k select · Space toggle · s save · Esc cancel"@,
        hint_of(WizardStep::LivePreview) == "r refresh · Enter continue · Esc back"@,
        hint_of(WizardStep::LlmConfig)
            == "j/k select · Enter edit/toggle · n continue · Esc back"@,
        hint_of(WizardStep::Confirm) == "j/k scroll · y confirm & write · Esc back · q cancel"@,
{
}

} // verus!
