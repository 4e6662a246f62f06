//! The setup wizard's screens.
use vstd::prelude::*;
use vstd::utf8::encode_utf8;

use crate::api::{MembershipsResponse, OrgMembership, SetupStatusResponse, TeamMembership};
use crate::app::{App, AppState};
use crate::config::{targets_view, GithubTarget, TargetView};
use crate::draw::{
    blank, fg, lines_view, new_lines, no_lines, push_line, raw_row, row, sp, Align, DrawOp, Line,
    OpView, Rect, Scene, SpanView, Style,
};
use crate::layout::{block_inner, inset, layout_rows, root_constraints, root_ops, RootLayout};
use crate::markdown::opt_text;
use crate::split::{split_lines, text_lines, texts};
use crate::text::{decimal, decimal_string, joined, joined3, repeat_char, repeated, same_text};
use crate::theme::{Blade, ADD, DEL, INBOX, MANTLE, OVERLAY0, SUBTEXT0, SURFACE0, TEXT};
use crate::views::chrome::{refresh_spinner, spinner_frame};
use crate::views::text::{input_row, render_text_input_line};
use crate::wizard::{
    hint_of, opt_target, step_keybar_hint, AsyncResource, SetupWizardState, WatchModeChoice, Wizard,
    WizardStep,
};

verus! {

pub open spec fn title_row(text: Seq<char>) -> Seq<SpanView> {
    row(text, fg(TEXT).bold())
}

pub open spec fn faint_row(text: Seq<char>) -> Seq<SpanView> {
    row(text, fg(OVERLAY0))
}

pub open spec fn error_row(text: Seq<char>) -> Seq<SpanView> {
    row("✕ "@ + text, fg(DEL))
}

pub open spec fn busy_row(tick: u64, text: Seq<char>) -> Seq<SpanView> {
    blank().push(sp(spinner_frame(tick), fg(INBOX))).push(sp(text, Style::plain()))
}

pub open spec fn heading_row(text: Seq<char>) -> Seq<SpanView> {
    row(text, fg(INBOX).bold())
}

/// A row that can be picked.
pub open spec fn choice_row(label: Seq<char>, selected: bool) -> Seq<SpanView> {
    if selected {
        row("❯ "@ + label, fg(TEXT).bg(SURFACE0).bold())
    } else {
        row("  "@ + label, fg(SUBTEXT0))
    }
}

/// A row that can be switched on and off.
pub open spec fn switch_row(selected: bool, label: Seq<char>, enabled: bool) -> Seq<SpanView> {
    let style = if selected {
        fg(TEXT).bold()
    } else {
        fg(SUBTEXT0)
    };
    blank().push(
        sp(
            if selected {
                "❯ "@
            } else {
                "  "@
            },
            style,
        ),
    ).push(
        sp(
            if enabled {
                "[x] "@
            } else {
                "[ ] "@
            },
            fg(
                if enabled {
                    ADD
                } else {
                    OVERLAY0
                },
            ),
        ),
    ).push(sp(label, style))
}

fn title(lines: &mut Vec<Line>, text: &str)
    ensures
        lines_view(final(lines)@) == lines_view(old(lines)@).push(title_row(text@)),
{
    push_line(lines, Line::styled(text, fg(TEXT).bold()));
}

fn faint(lines: &mut Vec<Line>, text: &str)
    ensures
        lines_view(final(lines)@) == lines_view(old(lines)@).push(faint_row(text@)),
{
    push_line(lines, Line::styled(text, fg(OVERLAY0)));
}

fn error_line(lines: &mut Vec<Line>, text: &str)
    ensures
        lines_view(final(lines)@) == lines_view(old(lines)@).push(error_row(text@)),
{
    push_line(lines, Line::styled(joined("✕ ", text).as_str(), fg(DEL)));
}

fn busy(lines: &mut Vec<Line>, tick: u64, text: &str)
    ensures
        lines_view(final(lines)@) == lines_view(old(lines)@).push(busy_row(tick, text@)),
{
    push_line(
        lines,
        Line::empty().with(refresh_spinner(tick), fg(INBOX)).with(text, Style::plain()),
    );
}

fn heading(lines: &mut Vec<Line>, text: &str)
    ensures
        lines_view(final(lines)@) == lines_view(old(lines)@).push(heading_row(text@)),
{
    push_line(lines, Line::styled(text, fg(INBOX).bold()));
}

fn gap(lines: &mut Vec<Line>)
    ensures
        lines_view(final(lines)@) == lines_view(old(lines)@).push(blank()),
{
    push_line(lines, Line::empty());
}

fn plain(lines: &mut Vec<Line>, text: &str)
    ensures
        lines_view(final(lines)@) == lines_view(old(lines)@).push(raw_row(text@)),
{
    push_line(lines, Line::raw(text));
}

fn choice(lines: &mut Vec<Line>, label: &str, selected: bool)
    ensures
        lines_view(final(lines)@) == lines_view(old(lines)@).push(choice_row(label@, selected)),
{
    if selected {
        push_line(
            lines,
            Line::styled(joined("❯ ", label).as_str(), fg(TEXT).bg(SURFACE0).bold()),
        );
    } else {
        push_line(lines, Line::styled(joined("  ", label).as_str(), fg(SUBTEXT0)));
    }
}

fn switch(lines: &mut Vec<Line>, selected: bool, label: &str, enabled: bool)
    ensures
        lines_view(final(lines)@) == lines_view(old(lines)@).push(
            switch_row(selected, label@, enabled),
        ),
{
    let style = if selected {
        fg(TEXT).bold()
    } else {
        fg(SUBTEXT0)
    };
    push_line(
        lines,
        Line::empty().with(
            if selected {
                "❯ "
            } else {
                "  "
            },
            style,
        ).with(
            if enabled {
                "[x] "
            } else {
                "[ ] "
            },
            fg(
                if enabled {
                    ADD
                } else {
                    OVERLAY0
                },
            ),
        ).with(label, style),
    );
}

fn field(lines: &mut Vec<Line>, label: &str, value: &str, width: u16, focused: bool)
    ensures
        lines_view(final(lines)@) == lines_view(old(lines)@).push(
            field_row(label@, value@, width, focused),
        ),
{
    push_line(
        lines,
        render_text_input_line(label, value, width, focused, fg(SUBTEXT0), fg(TEXT), fg(INBOX)),
    );
}

pub open spec fn field_row(label: Seq<char>, value: Seq<char>, width: u16, focused: bool) -> Seq<
    SpanView,
> {
    input_row(label, value, width as int, focused, fg(SUBTEXT0), fg(TEXT), fg(INBOX))
}

pub open spec fn welcome_rows() -> Seq<Seq<SpanView>> {
    no_lines().push(title_row("Welcome to the brunson setup wizard."@)).push(blank()).push(
        raw_row(
            "This will help you pick which GitHub PRs show up in your inbox, using your real org/team memberships instead of typing them from memory."@,
        ),
    ).push(blank()).push(faint_row("Press Enter to begin."@))
}

fn render_welcome() -> (r: Vec<Line>)
    ensures
        lines_view(r@) == welcome_rows(),
{
    let mut lines = new_lines();
    title(&mut lines, "Welcome to the brunson setup wizard.");
    gap(&mut lines);
    plain(
        &mut lines,
        "This will help you pick which GitHub PRs show up in your inbox, using your real org/team memberships instead of typing them from memory.",
    );
    gap(&mut lines);
    faint(&mut lines, "Press Enter to begin.");
    lines
}

/// `lines` with the first `n` texts below them, each behind a bullet.
pub open spec fn with_bullets(lines: Seq<Seq<SpanView>>, list: Seq<Seq<char>>, n: int) -> Seq<
    Seq<SpanView>,
>
    decreases n,
{
    if n <= 0 {
        lines
    } else {
        with_bullets(lines, list, n - 1).push(raw_row("  • "@ + list[n - 1]))
    }
}

fn bullets(lines: &mut Vec<Line>, list: &Vec<String>)
    ensures
        lines_view(final(lines)@) == with_bullets(
            lines_view(old(lines)@),
            texts(list@),
            list@.len() as int,
        ),
{
    let ghost start = lines_view(lines@);
    let mut i: usize = 0;
    while i < list.len()
        invariant
            i <= list@.len(),
            start == lines_view(old(lines)@),
            lines_view(lines@) == with_bullets(start, texts(list@), i as int),
        decreases list@.len() - i,
    {
        proof {
            assert(texts(list@)[i as int] == list@[i as int]@);
        }
        plain(lines, joined("  • ", list[i].as_str()).as_str());
        i += 1;
    }
}

pub open spec fn auth_rows(w: Wizard, tick: u64) -> Seq<Seq<SpanView>> {
    let head = no_lines().push(title_row("GitHub authentication"@)).push(blank());
    match w.auth {
        AsyncResource::Loading => head.push(busy_row(tick, " checking..."@)),
        AsyncResource::Ready(s) => match s.auth.user {
            Some(user) if s.auth.resolved => head.push(
                blank().push(sp("✓ "@, fg(ADD))).push(
                    sp("Authenticated as "@ + user@, Style::plain()),
                ),
            ).push(blank()).push(faint_row("Press Enter to continue."@)),
            _ => with_bullets(
                head.push(error_row("GitHub auth is not resolved."@)),
                texts(s.next_steps@),
                s.next_steps@.len() as int,
            ).push(blank()).push(
                faint_row(
                    "Run `gh auth login` or set GH_TOKEN in another terminal, then press r to recheck."@,
                ),
            ),
        },
        _ => head.push(faint_row("Press r to check auth status."@)),
    }
}

fn push_auth_status(lines: &mut Vec<Line>, s: &SetupStatusResponse)
    ensures
        lines_view(final(lines)@) == match s.auth.user {
            Some(user) if s.auth.resolved => lines_view(old(lines)@).push(
                blank().push(sp("✓ "@, fg(ADD))).push(
                    sp("Authenticated as "@ + user@, Style::plain()),
                ),
            ).push(blank()).push(faint_row("Press Enter to continue."@)),
            _ => with_bullets(
                lines_view(old(lines)@).push(error_row("GitHub auth is not resolved."@)),
                texts(s.next_steps@),
                s.next_steps@.len() as int,
            ).push(blank()).push(
                faint_row(
                    "Run `gh auth login` or set GH_TOKEN in another terminal, then press r to recheck."@,
                ),
            ),
        },
{
    if s.auth.resolved {
        if let Some(user) = &s.auth.user {
            push_line(
                lines,
                Line::empty().with("✓ ", fg(ADD)).with(
                    joined("Authenticated as ", user.as_str()).as_str(),
                    Style::plain(),
                ),
            );
            gap(lines);
            faint(lines, "Press Enter to continue.");
            return;
        }
    }
    error_line(lines, "GitHub auth is not resolved.");
    bullets(lines, &s.next_steps);
    gap(lines);
    faint(
        lines,
        "Run `gh auth login` or set GH_TOKEN in another terminal, then press r to recheck.",
    );
}

fn render_auth_check(wizard: &SetupWizardState, tick: u64) -> (r: Vec<Line>)
    ensures
        lines_view(r@) == auth_rows(wizard@, tick),
{
    let mut lines = new_lines();
    title(&mut lines, "GitHub authentication");
    gap(&mut lines);
    match &wizard.auth {
        AsyncResource::Loading => busy(&mut lines, tick, " checking..."),
        AsyncResource::Ready(s) => push_auth_status(&mut lines, s),
        _ => faint(&mut lines, "Press r to check auth status."),
    }
    lines
}

pub open spec fn watch_mode_rows(w: Wizard) -> Seq<Seq<SpanView>> {
    no_lines().push(title_row("How should brunson pick which PRs to show?"@)).push(blank()).push(
        choice_row(
            WatchModeChoice::Everything.label_spec(),
            w.watch_mode == WatchModeChoice::Everything,
        ),
    ).push(
        choice_row(
            WatchModeChoice::BroadWatch.label_spec(),
            w.watch_mode == WatchModeChoice::BroadWatch,
        ),
    ).push(
        choice_row(
            WatchModeChoice::PreciseTargets.label_spec(),
            w.watch_mode == WatchModeChoice::PreciseTargets,
        ),
    )
}

fn render_watch_mode(wizard: &SetupWizardState) -> (r: Vec<Line>)
    ensures
        lines_view(r@) == watch_mode_rows(wizard@),
{
    let mut lines = new_lines();
    let mode = wizard.watch_mode;
    title(&mut lines, "How should brunson pick which PRs to show?");
    gap(&mut lines);
    choice(
        &mut lines,
        WatchModeChoice::Everything.label(),
        mode == WatchModeChoice::Everything,
    );
    choice(
        &mut lines,
        WatchModeChoice::BroadWatch.label(),
        mode == WatchModeChoice::BroadWatch,
    );
    choice(
        &mut lines,
        WatchModeChoice::PreciseTargets.label(),
        mode == WatchModeChoice::PreciseTargets,
    );
    lines
}

pub open spec fn watch_list_rows(w: Wizard, width: u16) -> Seq<Seq<SpanView>> {
    no_lines().push(title_row("Repositories/orgs to watch"@)).push(blank()).push(
        faint_row("Comma-separated, e.g. myorg,myorg/important-repo"@),
    ).push(blank()).push(field_row("> "@, w.watch_raw_input, width, true))
}

fn render_watch_list_input(wizard: &SetupWizardState, width: u16) -> (r: Vec<Line>)
    ensures
        lines_view(r@) == watch_list_rows(wizard@, width),
{
    let mut lines = new_lines();
    title(&mut lines, "Repositories/orgs to watch");
    gap(&mut lines);
    faint(&mut lines, "Comma-separated, e.g. myorg,myorg/important-repo");
    gap(&mut lines);
    field(&mut lines, "> ", wizard.watch_raw_input.as_str(), width, true);
    lines
}

/// What a target is called: its repository, else its organisation.
pub open spec fn target_name(t: TargetView) -> Seq<char> {
    match t.repo {
        Some(repo) => repo,
        None => match t.org {
            Some(org) => org,
            None => "?"@,
        },
    }
}

fn name_target(t: &GithubTarget) -> (r: String)
    ensures
        r@ == target_name(t@),
{
    match &t.repo {
        Some(repo) => repo.clone(),
        None => match &t.org {
            Some(org) => org.clone(),
            None => "?".to_owned(),
        },
    }
}

pub open spec fn with_names(lines: Seq<Seq<SpanView>>, targets: Seq<TargetView>, n: int) -> Seq<
    Seq<SpanView>,
>
    decreases n,
{
    if n <= 0 {
        lines
    } else {
        with_names(lines, targets, n - 1).push(raw_row("  • "@ + target_name(targets[n - 1])))
    }
}

/// The heading of the picker, with the targets there are.
pub open spec fn picker_head(w: Wizard) -> Seq<Seq<SpanView>> {
    let head = no_lines().push(title_row("Pick orgs to scope precise targets to"@)).push(blank());
    if w.selected_targets.len() == 0 {
        head
    } else {
        with_names(
            head.push(heading_row("Configured targets:"@)),
            w.selected_targets,
            w.selected_targets.len() as int,
        ).push(blank())
    }
}

fn picker_heading(wizard: &SetupWizardState) -> (r: Vec<Line>)
    ensures
        lines_view(r@) == picker_head(wizard@),
{
    let mut lines = new_lines();
    let targets = &wizard.selected_targets;
    title(&mut lines, "Pick orgs to scope precise targets to");
    gap(&mut lines);
    proof {
        assert(wizard@.selected_targets.len() == targets@.len());
    }
    if targets.len() > 0 {
        heading(&mut lines, "Configured targets:");
        let ghost start = lines_view(lines@);
        let mut i: usize = 0;
        while i < targets.len()
            invariant
                i <= targets@.len(),
                lines_view(lines@) == with_names(start, targets_view(targets@), i as int),
            decreases targets@.len() - i,
        {
            proof {
                assert(targets_view(targets@)[i as int] == targets@[i as int]@);
            }
            plain(&mut lines, joined("  • ", name_target(&targets[i]).as_str()).as_str());
            i += 1;
        }
        gap(&mut lines);
    }
    lines
}

/// An organisation with the number of its teams.
pub open spec fn org_label(org: OrgMembership) -> Seq<char> {
    let n = org.teams@.len();
    if n == 0 {
        org.login@
    } else {
        org.login@ + " ("@ + decimal(n) + if n == 1 {
            " team)"@
        } else {
            " teams)"@
        }
    }
}

fn label_org(org: &OrgMembership) -> (r: String)
    ensures
        r@ == org_label(*org),
{
    let n: usize = org.teams.len();
    if n == 0 {
        org.login.clone()
    } else {
        let tail = if n == 1 {
            " team)"
        } else {
            " teams)"
        };
        joined(
            joined3(org.login.as_str(), " (", decimal_string(n as u64).as_str()).as_str(),
            tail,
        )
    }
}

pub open spec fn with_orgs(
    lines: Seq<Seq<SpanView>>,
    orgs: Seq<OrgMembership>,
    cursor: usize,
    n: int,
) -> Seq<Seq<SpanView>>
    decreases n,
{
    if n <= 0 {
        lines
    } else {
        with_orgs(lines, orgs, cursor, n - 1).push(
            choice_row(org_label(orgs[n - 1]), cursor == n - 1),
        )
    }
}

/// The organisations to pick from, and the row for one entered by hand.
pub open spec fn with_picks(lines: Seq<Seq<SpanView>>, m: MembershipsResponse, cursor: usize) -> Seq<
    Seq<SpanView>,
> {
    let head = if m.truncated {
        lines.push(
            faint_row(
                "Showing first 100 orgs/teams — press a to add one manually if yours is missing."@,
            ),
        )
    } else {
        lines
    };
    with_orgs(head, m.orgs@, cursor, m.orgs@.len() as int).push(
        choice_row("+ Add manually (org or org/repo)"@, cursor == m.orgs@.len()),
    )
}

fn push_picks(lines: &mut Vec<Line>, m: &MembershipsResponse, cursor: usize)
    ensures
        lines_view(final(lines)@) == with_picks(lines_view(old(lines)@), *m, cursor),
{
    if m.truncated {
        faint(
            lines,
            "Showing first 100 orgs/teams — press a to add one manually if yours is missing.",
        );
    }
    let ghost start = lines_view(lines@);
    let mut i: usize = 0;
    while i < m.orgs.len()
        invariant
            i <= m.orgs@.len(),
            lines_view(lines@) == with_orgs(start, m.orgs@, cursor, i as int),
        decreases m.orgs@.len() - i,
    {
        choice(lines, label_org(&m.orgs[i]).as_str(), cursor == i);
        i += 1;
    }
    choice(lines, "+ Add manually (org or org/repo)", cursor == m.orgs.len());
}

pub open spec fn picker_rows(w: Wizard, tick: u64, width: u16) -> Seq<Seq<SpanView>> {
    let head = picker_head(w);
    if w.manual_entry_active {
        head.push(field_row("Org or org/repo: "@, w.manual_entry_buffer, width, true))
    } else {
        match w.memberships {
            AsyncResource::Loading => head.push(
                busy_row(tick, " fetching your orgs/teams from GitHub..."@),
            ),
            AsyncResource::Ready(m) => with_picks(head, m, w.target_cursor),
            AsyncResource::Failed(e) => head.push(error_row(e@)).push(blank()).push(
                choice_row("+ Add manually (org or org/repo)"@, true),
            ),
            _ => head.push(choice_row("+ Add manually (org or org/repo)"@, true)),
        }
    }
}

fn render_target_picker(wizard: &SetupWizardState, tick: u64, width: u16) -> (r: Vec<Line>)
    ensures
        lines_view(r@) == picker_rows(wizard@, tick, width),
{
    let mut lines = picker_heading(wizard);
    if wizard.manual_entry_active {
        field(
            &mut lines,
            "Org or org/repo: ",
            wizard.manual_entry_buffer.as_str(),
            width,
            true,
        );
        return lines;
    }
    match &wizard.memberships {
        AsyncResource::Loading => busy(
            &mut lines,
            tick,
            " fetching your orgs/teams from GitHub...",
        ),
        AsyncResource::Ready(m) => push_picks(&mut lines, m, wizard.target_cursor),
        AsyncResource::Failed(e) => {
            error_line(&mut lines, e.as_str());
            gap(&mut lines);
            choice(&mut lines, "+ Add manually (org or org/repo)", true);
        },
        _ => choice(&mut lines, "+ Add manually (org or org/repo)", true),
    }
    lines
}

/// The request for a team of the organisation being edited.
pub open spec fn team_id(t: TargetView, team: TeamMembership) -> Seq<char> {
    (match t.org {
        Some(org) => org,
        None => Seq::empty(),
    }) + "/"@ + team.slug@
}

pub open spec fn with_teams(
    lines: Seq<Seq<SpanView>>,
    t: TargetView,
    teams: Seq<TeamMembership>,
    cursor: usize,
    n: int,
) -> Seq<Seq<SpanView>>
    decreases n,
{
    if n <= 0 {
        lines
    } else {
        with_teams(lines, t, teams, cursor, n - 1).push(
            switch_row(
                cursor == n + 2,
                teams[n - 1].name@,
                t.team_review_requests.contains(team_id(t, teams[n - 1])),
            ),
        )
    }
}

fn has_text(list: &Vec<String>, x: &str) -> (r: bool)
    ensures
        r == texts(list@).contains(x@),
{
    let ghost all = texts(list@);
    let mut i: usize = 0;
    while i < list.len()
        invariant
            i <= list@.len(),
            all == texts(list@),
            forall|k: int| 0 <= k < i ==> all[k] != x@,
        decreases list@.len() - i,
    {
        proof {
            assert(all[i as int] == list@[i as int]@);
        }
        if same_text(list[i].as_str(), x) {
            return true;
        }
        i += 1;
    }
    false
}

fn push_teams(lines: &mut Vec<Line>, t: &GithubTarget, teams: &[TeamMembership], cursor: usize)
    ensures
        lines_view(final(lines)@) == with_teams(
            lines_view(old(lines)@),
            t@,
            teams@,
            cursor,
            teams@.len() as int,
        ),
{
    let ghost start = lines_view(lines@);
    let org = match &t.org {
        Some(o) => o.clone(),
        None => String::new(),
    };
    let mut i: usize = 0;
    while i < teams.len()
        invariant
            i <= teams@.len(),
            start == lines_view(old(lines)@),
            org@ == match t@.org {
                Some(o) => o,
                None => Seq::empty(),
            },
            lines_view(lines@) == with_teams(start, t@, teams@, cursor, i as int),
        decreases teams@.len() - i,
    {
        let id = joined3(org.as_str(), "/", teams[i].slug.as_str());
        let enabled = has_text(&t.team_review_requests, id.as_str());
        switch(lines, cursor >= 3 && cursor - 3 == i, teams[i].name.as_str(), enabled);
        i += 1;
    }
}

/// The rows of the target being edited, below its heading.
pub open spec fn with_target_switches(
    lines: Seq<Seq<SpanView>>,
    t: TargetView,
    cursor: usize,
) -> Seq<Seq<SpanView>> {
    lines.push(
        switch_row(
            cursor == 0,
            "Direct review requests (user-review-requested:@me)"@,
            t.direct_review_requests,
        ),
    ).push(switch_row(cursor == 1, "PRs I authored here"@, t.include_authored)).push(
        switch_row(cursor == 2, "PRs I'm otherwise involved in"@, t.include_involved),
    )
}

pub open spec fn detail_rows(w: Wizard) -> Seq<Seq<SpanView>> {
    match w.editing_target {
        None => no_lines().push(faint_row("Nothing being edited."@)),
        Some(t) => {
            let switches = with_target_switches(
                no_lines().push(title_row("Configure target: "@ + target_name(t))).push(blank()),
                t,
                w.editing_target_cursor,
            );
            let teams = w.teams();
            let listed = if teams.len() == 0 {
                switches
            } else {
                with_teams(
                    switches.push(blank()).push(heading_row("Team review requests:"@)),
                    t,
                    teams,
                    w.editing_target_cursor,
                    teams.len() as int,
                )
            };
            match w.target_error {
                Some(e) => listed.push(blank()).push(error_row(e)),
                None => listed,
            }
        },
    }
}

fn render_target_detail(wizard: &SetupWizardState) -> (r: Vec<Line>)
    ensures
        lines_view(r@) == detail_rows(wizard@),
{
    let mut lines = new_lines();
    let t = match &wizard.editing_target {
        Some(t) => t,
        None => {
            faint(&mut lines, "Nothing being edited.");
            return lines;
        },
    };
    let cursor: usize = wizard.editing_target_cursor;
    title(&mut lines, joined("Configure target: ", name_target(t).as_str()).as_str());
    gap(&mut lines);
    switch(
        &mut lines,
        cursor == 0,
        "Direct review requests (user-review-requested:@me)",
        t.direct_review_requests,
    );
    switch(&mut lines, cursor == 1, "PRs I authored here", t.include_authored);
    switch(&mut lines, cursor == 2, "PRs I'm otherwise involved in", t.include_involved);
    let teams = wizard.available_teams();
    if teams.len() > 0 {
        gap(&mut lines);
        heading(&mut lines, "Team review requests:");
        push_teams(&mut lines, t, teams, cursor);
    }
    if let Some(e) = &wizard.target_error {
        gap(&mut lines);
        error_line(&mut lines, e.as_str());
    }
    lines
}

pub open spec fn with_query_list(lines: Seq<Seq<SpanView>>, queries: Seq<Seq<char>>, n: int) -> Seq<
    Seq<SpanView>,
>
    decreases n,
{
    if n <= 0 {
        lines
    } else {
        with_query_list(lines, queries, n - 1).push(
            blank().push(sp("  "@, Style::plain())).push(sp(queries[n - 1], fg(SUBTEXT0))),
        )
    }
}

pub open spec fn with_errors(lines: Seq<Seq<SpanView>>, errors: Seq<Seq<char>>, n: int) -> Seq<
    Seq<SpanView>,
>
    decreases n,
{
    if n <= 0 {
        lines
    } else {
        with_errors(lines, errors, n - 1).push(error_row(errors[n - 1]))
    }
}

fn push_query_list(lines: &mut Vec<Line>, queries: &Vec<String>)
    ensures
        lines_view(final(lines)@) == with_query_list(
            lines_view(old(lines)@),
            texts(queries@),
            queries@.len() as int,
        ),
{
    let ghost start = lines_view(lines@);
    let mut i: usize = 0;
    while i < queries.len()
        invariant
            i <= queries@.len(),
            start == lines_view(old(lines)@),
            lines_view(lines@) == with_query_list(start, texts(queries@), i as int),
        decreases queries@.len() - i,
    {
        proof {
            assert(texts(queries@)[i as int] == queries@[i as int]@);
        }
        push_line(
            lines,
            Line::empty().with("  ", Style::plain()).with(queries[i].as_str(), fg(SUBTEXT0)),
        );
        i += 1;
    }
}

fn push_errors(lines: &mut Vec<Line>, errors: &Vec<String>)
    ensures
        lines_view(final(lines)@) == with_errors(
            lines_view(old(lines)@),
            texts(errors@),
            errors@.len() as int,
        ),
{
    let ghost start = lines_view(lines@);
    let mut i: usize = 0;
    while i < errors.len()
        invariant
            i <= errors@.len(),
            start == lines_view(old(lines)@),
            lines_view(lines@) == with_errors(start, texts(errors@), i as int),
        decreases errors@.len() - i,
    {
        proof {
            assert(texts(errors@)[i as int] == errors@[i as int]@);
        }
        error_line(lines, errors[i].as_str());
        i += 1;
    }
}

pub open spec fn preview_rows(w: Wizard, tick: u64) -> Seq<Seq<SpanView>> {
    let head = no_lines().push(title_row("Here's what you'll see"@)).push(blank());
    match w.preview {
        AsyncResource::Loading => head.push(
            busy_row(tick, " running your queries against GitHub..."@),
        ),
        AsyncResource::Failed(e) => head.push(error_row(e@)),
        AsyncResource::Ready(p) => with_errors(
            with_query_list(
                head.push(
                    blank().push(sp(decimal(p.total_matched_prs as nat), fg(ADD).bold())).push(
                        sp(" distinct open PR(s) would show up in your inbox."@, Style::plain()),
                    ),
                ).push(blank()).push(heading_row("Queries:"@)),
                texts(p.queries@),
                p.queries@.len() as int,
            ),
            texts(p.errors@),
            p.errors@.len() as int,
        ),
        _ => head.push(faint_row("Press r to fetch a live preview."@)),
    }
}

fn render_live_preview(wizard: &SetupWizardState, tick: u64) -> (r: Vec<Line>)
    ensures
        lines_view(r@) == preview_rows(wizard@, tick),
{
    let mut lines = new_lines();
    title(&mut lines, "Here's what you'll see");
    gap(&mut lines);
    match &wizard.preview {
        AsyncResource::Loading => busy(
            &mut lines,
            tick,
            " running your queries against GitHub...",
        ),
        AsyncResource::Failed(e) => error_line(&mut lines, e.as_str()),
        AsyncResource::Ready(p) => {
            push_line(
                &mut lines,
                Line::empty().with(
                    decimal_string(p.total_matched_prs as u64).as_str(),
                    fg(ADD).bold(),
                ).with(" distinct open PR(s) would show up in your inbox.", Style::plain()),
            );
            gap(&mut lines);
            heading(&mut lines, "Queries:");
            push_query_list(&mut lines, &p.queries);
            push_errors(&mut lines, &p.errors);
        },
        _ => faint(&mut lines, "Press r to fetch a live preview."),
    }
    lines
}

/// A key as it is shown: one star for each of its bytes.
pub open spec fn masked(key: Seq<char>) -> Seq<char> {
    repeated('*', (encode_utf8(key).len() as usize) as nat)
}

pub open spec fn llm_rows(w: Wizard, width: u16) -> Seq<Seq<SpanView>> {
    let head = no_lines().push(title_row("LLM classification (optional)"@)).push(blank()).push(
        switch_row(w.llm_cursor == 0, "Enable LLM classification"@, w.llm_enabled),
    );
    if !w.llm_enabled {
        head
    } else {
        head.push(
            choice_row(
                "Provider: "@ + if w.llm_provider_idx == 0 {
                    "lm_studio (local)"@
                } else {
                    "openai_compatible"@
                },
                w.llm_cursor == 1,
            ),
        ).push(
            field_row(
                "Endpoint: "@,
                w.llm_endpoint,
                width,
                w.llm_cursor == 2 && w.llm_editing_field,
            ),
        ).push(
            field_row(
                "API key: "@,
                masked(w.llm_api_key),
                width,
                w.llm_cursor == 3 && w.llm_editing_field,
            ),
        ).push(
            field_row(
                "Model (empty = auto-detect): "@,
                w.llm_model,
                width,
                w.llm_cursor == 4 && w.llm_editing_field,
            ),
        )
    }
}

/// The screen for the language model.
pub fn render_llm_config(wizard: &SetupWizardState, width: u16) -> (r: Vec<Line>)
    ensures
        lines_view(r@) == llm_rows(wizard@, width),
{
    let mut lines = new_lines();
    let cursor: usize = wizard.llm_cursor;
    let editing = wizard.llm_editing_field;
    title(&mut lines, "LLM classification (optional)");
    gap(&mut lines);
    switch(&mut lines, cursor == 0, "Enable LLM classification", wizard.llm_enabled);
    if !wizard.llm_enabled {
        return lines;
    }
    let provider = if wizard.llm_provider_idx == 0 {
        "lm_studio (local)"
    } else {
        "openai_compatible"
    };
    choice(&mut lines, joined("Provider: ", provider).as_str(), cursor == 1);
    field(
        &mut lines,
        "Endpoint: ",
        wizard.llm_endpoint.as_str(),
        width,
        cursor == 2 && editing,
    );
    let stars = repeat_char('*', wizard.llm_api_key.as_str().len());
    field(&mut lines, "API key: ", stars.as_str(), width, cursor == 3 && editing);
    field(
        &mut lines,
        "Model (empty = auto-detect): ",
        wizard.llm_model.as_str(),
        width,
        cursor == 4 && editing,
    );
    lines
}

/// The screen for the language model shows nothing of a key but its length.
pub proof fn wizard_masks_the_key(w: Wizard, key: Seq<char>, width: u16)
    requires
        encode_utf8(key).len() == encode_utf8(w.llm_api_key).len(),
    ensures
        llm_rows(w, width) == llm_rows(Wizard { llm_api_key: key, ..w }, width),
{
}

pub open spec fn with_text(lines: Seq<Seq<SpanView>>, list: Seq<Seq<char>>, n: int) -> Seq<
    Seq<SpanView>,
>
    decreases n,
{
    if n <= 0 {
        lines
    } else {
        with_text(lines, list, n - 1).push(row(list[n - 1], fg(SUBTEXT0)))
    }
}

/// The last screen: the configuration as it will be written, and how writing
/// it goes.
pub open spec fn confirm_rows(w: Wizard, draft: Result<Seq<char>, Seq<char>>) -> Seq<
    Seq<SpanView>,
> {
    let head = no_lines().push(title_row("Review and confirm"@)).push(blank());
    let shown = match draft {
        Ok(text) => with_text(head, text_lines(text), text_lines(text).len() as int),
        Err(e) => head.push(error_row("Failed to render config: "@ + e)),
    };
    match w.commit {
        AsyncResource::Loading => shown.push(blank()).push(
            faint_row("Writing config and reloading daemon..."@),
        ),
        AsyncResource::Failed(e) => shown.push(blank()).push(error_row(e@)),
        _ => shown,
    }
}

/// The text of a draft, or why there is none.
pub open spec fn draft_view(draft: Result<String, String>) -> Result<Seq<char>, Seq<char>> {
    match draft {
        Ok(t) => Ok(t@),
        Err(e) => Err(e@),
    }
}

fn push_text_lines(lines: &mut Vec<Line>, text: &str)
    ensures
        lines_view(final(lines)@) == with_text(
            lines_view(old(lines)@),
            text_lines(text@),
            text_lines(text@).len() as int,
        ),
{
    let list = split_lines(text);
    let ghost start = lines_view(lines@);
    let mut i: usize = 0;
    while i < list.len()
        invariant
            i <= list@.len(),
            start == lines_view(old(lines)@),
            texts(list@) == text_lines(text@),
            lines_view(lines@) == with_text(start, text_lines(text@), i as int),
        decreases list@.len() - i,
    {
        proof {
            assert(texts(list@)[i as int] == list@[i as int]@);
        }
        push_line(lines, Line::styled(list[i].as_str(), fg(SUBTEXT0)));
        i += 1;
    }
    proof {
        assert(texts(list@).len() == list@.len());
    }
}

pub fn render_confirm(wizard: &SetupWizardState, draft: &Result<String, String>) -> (r: Vec<Line>)
    ensures
        lines_view(r@) == confirm_rows(wizard@, draft_view(*draft)),
{
    let mut lines = new_lines();
    title(&mut lines, "Review and confirm");
    gap(&mut lines);
    match draft {
        Ok(text) => push_text_lines(&mut lines, text.as_str()),
        Err(e) => error_line(
            &mut lines,
            joined("Failed to render config: ", e.as_str()).as_str(),
        ),
    }
    match &wizard.commit {
        AsyncResource::Loading => {
            gap(&mut lines);
            faint(&mut lines, "Writing config and reloading daemon...");
        },
        AsyncResource::Failed(e) => {
            gap(&mut lines);
            error_line(&mut lines, e.as_str());
        },
        _ => {},
    }
    lines
}

/// While a configuration is being written, no failure of an earlier attempt is
/// shown.
pub proof fn writing_hides_earlier_failure(w: Wizard, draft: Result<Seq<char>, Seq<char>>)
    requires
        w.commit is Loading,
    ensures
        confirm_rows(w, draft).last() == faint_row("Writing config and reloading daemon..."@),
{
}

/// The rows of the current step.
pub open spec fn step_rows(
    w: Wizard,
    tick: u64,
    width: u16,
    draft: Result<Seq<char>, Seq<char>>,
) -> Seq<Seq<SpanView>> {
    match w.step {
        WizardStep::Welcome => welcome_rows(),
        WizardStep::AuthCheck => auth_rows(w, tick),
        WizardStep::WatchMode => watch_mode_rows(w),
        WizardStep::WatchListInput => watch_list_rows(w, width),
        WizardStep::TargetPicker => picker_rows(w, tick, width),
        WizardStep::TargetDetail => detail_rows(w),
        WizardStep::LivePreview => preview_rows(w, tick),
        WizardStep::LlmConfig => llm_rows(w, width),
        WizardStep::Confirm => confirm_rows(w, draft),
    }
}

fn step_lines(
    wizard: &SetupWizardState,
    tick: u64,
    width: u16,
    draft: &Result<String, String>,
) -> (r: Vec<Line>)
    ensures
        lines_view(r@) == step_rows(wizard@, tick, width, draft_view(*draft)),
{
    match wizard.step {
        WizardStep::Welcome => render_welcome(),
        WizardStep::AuthCheck => render_auth_check(wizard, tick),
        WizardStep::WatchMode => render_watch_mode(wizard),
        WizardStep::WatchListInput => render_watch_list_input(wizard, width),
        WizardStep::TargetPicker => render_target_picker(wizard, tick, width),
        WizardStep::TargetDetail => render_target_detail(wizard),
        WizardStep::LivePreview => render_live_preview(wizard, tick),
        WizardStep::LlmConfig => render_llm_config(wizard, width),
        WizardStep::Confirm => render_confirm(wizard, draft),
    }
}

/// What an open wizard draws over the frame.
#[verifier::opaque]
pub open spec fn wizard_ops(
    w: Wizard,
    tick: u64,
    area: Rect,
    draft: Result<Seq<char>, Seq<char>>,
) -> Seq<OpView> {
    let content = inset(area).shrunk(2, 1);
    seq![
        (OpView::Clear { area }),
        (OpView::Panel {
            area,
            border: fg(INBOX),
            style: fg(TEXT).bg(MANTLE),
            title: Some(row(" Brunson Setup "@, fg(INBOX).bold())),
        }),
        (OpView::Text {
            area: content,
            lines: step_rows(w, tick, content.width, draft).push(blank()).push(
                row(hint_of(w.step), fg(INBOX)),
            ),
            style: fg(TEXT).bg(MANTLE),
            align: Align::Left,
            wrap: true,
            scroll: (w.confirm_scroll % 65536) as u16,
        }),
    ]
}

fn render_wizard(
    scene: &mut Scene,
    area: Rect,
    wizard: &SetupWizardState,
    tick: u64,
    draft: &Result<String, String>,
)
    ensures
        final(scene)@ == old(scene)@ + wizard_ops(wizard@, tick, area, draft_view(*draft)),
{
    proof {
        reveal(wizard_ops);
    }
    let content = block_inner(area).shrink(2, 1);
    scene.clear(area);
    scene.push(
        DrawOp::Panel {
            area,
            border: fg(INBOX),
            style: fg(TEXT).bg(MANTLE),
            title: Some(Line::styled(" Brunson Setup ", fg(INBOX).bold())),
        },
    );
    let mut lines = step_lines(wizard, tick, content.width, draft);
    gap(&mut lines);
    push_line(&mut lines, Line::styled(step_keybar_hint(wizard.step), fg(INBOX)));
    scene.push(
        DrawOp::Text {
            area: content,
            lines,
            style: fg(TEXT).bg(MANTLE),
            align: Align::Left,
            wrap: true,
            scroll: (wizard.confirm_scroll % 65536) as u16,
        },
    );
    proof {
        assert(scene@ =~= old(scene)@ + wizard_ops(wizard@, tick, area, draft_view(*draft)));
    }
}

/// Render the setup wizard, replacing the whole dashboard while it's open.
/// `draft` is the configuration written out, or why it could not be.
pub fn render_setup_wizard(
    scene: &mut Scene,
    area: Rect,
    state: &AppState,
    draft: &Result<String, String>,
)
    ensures
        final(scene)@ == old(scene)@ + root_ops(area, layout_rows(area, root_constraints()))
            + match state@.setup_wizard {
            Some(w) => wizard_ops(w, state.ui_tick, area, draft_view(*draft)),
            None => Seq::empty(),
        },
{
    let _ = RootLayout::new(Blade::Inbox).render(scene, area);
    if let Some(wizard) = &state.setup_wizard {
        render_wizard(scene, area, wizard, state.ui_tick, draft);
    } else {
        proof {
            assert(scene@ + Seq::<OpView>::empty() =~= scene@);
        }
    }
}

} // verus!
