//! The configuration inspector: every setting beside its name.
use vstd::prelude::*;

use crate::api::{HealthResponse, SetupStatusResponse};
use crate::app::App;
use crate::config::{ConfigView, TargetView};
use crate::draw::{row_text, SpanView};
use crate::markdown::opt_text;
use crate::split::texts;
use crate::text::decimal;
use crate::views::config::{
    github_rows, query_rows, runtime_rows, settings_rows, setup_rows, with_indented, with_queries,
    with_target, with_targets, with_watch,
};

verus! {

/// Whether row `k` shows a value beside its name.
pub open spec fn says(rows: Seq<Seq<SpanView>>, k: int, label: Seq<char>, value: Seq<char>) -> bool {
    &&& 0 <= k < rows.len()
    &&& rows[k].len() == 2
    &&& rows[k][0].text == label + ": "@
    &&& rows[k][1].text == value
}

pub open spec fn yes_or_no(b: bool) -> Seq<char> {
    if b {
        "true"@
    } else {
        "false"@
    }
}

/// A text, or what is said where there is none.
pub open spec fn text_or(t: Option<String>, absent: Seq<char>) -> Seq<char> {
    match t {
        Some(s) => s@,
        None => absent,
    }
}

/// The daemon's state is shown field by field.
pub proof fn inspector_shows_the_daemon(a: App, h: HealthResponse)
    requires
        a.health == Some(h),
    ensures
        ({
            let rows = runtime_rows(a);
            &&& rows.len() == 14
            &&& says(
                rows,
                3,
                "config path"@,
                match a.config_path {
                    Some(p) => p,
                    None => "default"@,
                },
            )
            &&& says(rows, 4, "service"@, h.service@)
            &&& says(rows, 5, "version"@, h.version@)
            &&& says(rows, 6, "daemon status"@, h.status@)
            &&& says(rows, 7, "current user"@, h.current_user@)
            &&& says(rows, 8, "refresh in progress"@, yes_or_no(h.refresh_in_progress))
            &&& says(rows, 9, "last poll at"@, text_or(h.last_poll_at, "never"@))
            &&& says(rows, 10, "last poll error"@, text_or(h.last_poll_error, "none"@))
            &&& says(
                rows,
                11,
                "rate limit remaining"@,
                match h.rate_limit_remaining {
                    Some(n) => decimal(n as nat),
                    None => "unknown"@,
                },
            )
            &&& says(rows, 12, "setup status"@, h.setup_status@)
            &&& says(rows, 13, "setup message"@, text_or(h.setup_message, "none"@))
        }),
{
}

proof fn lemma_indented(lines: Seq<Seq<SpanView>>, list: Seq<Seq<char>>, n: int, k: int)
    requires
        0 <= n <= list.len(),
    ensures
        with_indented(lines, list, n).len() == lines.len() + n,
        0 <= k < lines.len() ==> with_indented(lines, list, n)[k] == lines[k],
        0 <= k - lines.len() < n ==> with_indented(lines, list, n)[k].len() == 2 && with_indented(
            lines,
            list,
            n,
        )[k][1].text == list[k - lines.len()],
    decreases n,
{
    if n > 0 {
        lemma_indented(lines, list, n - 1, k);
    }
}

/// What is known of the setup is shown field by field, below what stands
/// before it, and each step that is left to do in its order.
pub proof fn inspector_shows_the_setup(
    lines: Seq<Seq<SpanView>>,
    a: App,
    s: SetupStatusResponse,
    i: int,
)
    requires
        a.setup_status == Some(s),
    ensures
        ({
            let rows = setup_rows(lines, a);
            let n = lines.len() as int;
            let steps = s.next_steps@;
            &&& rows.take(n) == lines
            &&& row_text(rows[n + 1]) == "Setup diagnostics"@
            &&& says(rows, n + 2, "ready"@, yes_or_no(s.ready))
            &&& says(rows, n + 3, "status"@, s.status@)
            &&& says(rows, n + 4, "auth resolved"@, yes_or_no(s.auth.resolved))
            &&& says(rows, n + 5, "auth source"@, text_or(s.auth.source, "none"@))
            &&& says(rows, n + 6, "auth user"@, text_or(s.auth.user, "none"@))
            &&& says(rows, n + 7, "llm enabled"@, yes_or_no(s.llm.enabled))
            &&& says(
                rows,
                n + 8,
                "llm reachable"@,
                match s.llm.reachable {
                    Some(b) => yes_or_no(b),
                    None => "unknown"@,
                },
            )
            &&& says(rows, n + 9, "llm model"@, text_or(s.llm.model, "none"@))
            &&& says(rows, n + 10, "llm message"@, text_or(s.llm.message, "none"@))
            &&& steps.len() == 0 ==> says(rows, n + 11, "next steps"@, "none"@) && rows.len() == n
                + 12
            &&& steps.len() > 0 ==> rows.len() == n + 12 + steps.len()
            &&& 0 <= i < steps.len() ==> rows[n + 12 + i][1].text == steps[i]@
        }),
{
    crate::markdown::lemma_row_text_one(
        "Setup diagnostics"@,
        crate::draw::fg(crate::theme::INBOX).bold(),
    );
    let steps = texts(s.next_steps@);
    let rows = setup_rows(lines, a);
    let n = lines.len() as int;
    assert(steps.len() == s.next_steps@.len());
    if steps.len() > 0 {
        let told = rows_told(lines, s);
        assert(rows == with_indented(told, steps, steps.len() as int));
        assert forall|k: int| 0 <= k < told.len() implies rows[k] == #[trigger] told[k] by {
            lemma_indented(told, steps, steps.len() as int, k);
        }
        lemma_indented(told, steps, steps.len() as int, told.len() + i);
        if 0 <= i < steps.len() {
            assert(steps[i] == s.next_steps@[i]@);
        }
        lemma_told(lines, s);
        assert forall|k: int| 0 <= k < n implies rows[k] == #[trigger] lines[k] by {
            assert(rows[k] == told[k]);
        }
        assert(rows[n + 1] == told[n + 1] && rows[n + 2] == told[n + 2] && rows[n + 3] == told[n
            + 3] && rows[n + 4] == told[n + 4] && rows[n + 5] == told[n + 5] && rows[n + 6]
            == told[n + 6] && rows[n + 7] == told[n + 7] && rows[n + 8] == told[n + 8] && rows[n
            + 9] == told[n + 9] && rows[n + 10] == told[n + 10]);
    }
    assert(rows.take(n) =~= lines);
}

spec fn rows_told(lines: Seq<Seq<SpanView>>, s: SetupStatusResponse) -> Seq<Seq<SpanView>> {
    let head = lines.push(crate::draw::blank()).push(
        crate::views::help::section_title("Setup diagnostics"@),
    );
    head.push(crate::views::config::label_row("ready"@, crate::views::config::bool_text(s.ready))).push(
        crate::views::config::label_row("status"@, s.status@),
    ).push(
        crate::views::config::label_row(
            "auth resolved"@,
            crate::views::config::bool_text(s.auth.resolved),
        ),
    ).push(
        crate::views::config::label_row(
            "auth source"@,
            crate::views::config::or_text(opt_text(s.auth.source), "none"@),
        ),
    ).push(
        crate::views::config::label_row(
            "auth user"@,
            crate::views::config::or_text(opt_text(s.auth.user), "none"@),
        ),
    ).push(
        crate::views::config::label_row(
            "llm enabled"@,
            crate::views::config::bool_text(s.llm.enabled),
        ),
    ).push(
        crate::views::config::label_row(
            "llm reachable"@,
            match s.llm.reachable {
                Some(b) => crate::views::config::bool_text(b),
                None => "unknown"@,
            },
        ),
    ).push(
        crate::views::config::label_row(
            "llm model"@,
            crate::views::config::or_text(opt_text(s.llm.model), "none"@),
        ),
    ).push(
        crate::views::config::label_row(
            "llm message"@,
            crate::views::config::or_text(opt_text(s.llm.message), "none"@),
        ),
    ).push(crate::draw::row("next steps:"@, crate::draw::fg(crate::theme::SUBTEXT0)))
}

proof fn lemma_told(lines: Seq<Seq<SpanView>>, s: SetupStatusResponse)
    ensures
        rows_told(lines, s).len() == lines.len() + 12,
        forall|k: int| 0 <= k < lines.len() ==> rows_told(lines, s)[k] == #[trigger] lines[k],
{
}

/// The settings are shown one by one, below what stands before them; of the
/// key only whether there is one.
pub proof fn inspector_shows_the_settings(lines: Seq<Seq<SpanView>>, c: ConfigView)
    ensures
        ({
            let rows = settings_rows(lines, c);
            let n = lines.len() as int;
            &&& rows.take(n) == lines
            &&& rows.len() == n + 16
            &&& says(rows, n + 2, "port"@, decimal(c.daemon.port as nat))
            &&& says(rows, n + 3, "kill on tui exit"@, yes_or_no(c.daemon.kill_on_tui_exit))
            &&& says(rows, n + 6, "enabled"@, yes_or_no(c.llm.enabled))
            &&& says(rows, n + 7, "provider"@, c.llm.provider)
            &&& says(rows, n + 8, "endpoint"@, c.llm.endpoint)
            &&& c.llm.api_key.len() == 0 ==> says(rows, n + 9, "api key"@, "empty"@)
            &&& c.llm.api_key.len() > 0 ==> says(rows, n + 9, "api key"@, "redacted"@)
            &&& c.llm.model.len() == 0 ==> says(rows, n + 10, "model"@, "auto-detect"@)
            &&& c.llm.model.len() > 0 ==> says(rows, n + 10, "model"@, c.llm.model)
            &&& says(rows, n + 11, "classify on change"@, yes_or_no(c.llm.classify_on_change))
            &&& says(rows, n + 12, "max output tokens"@, decimal(c.llm.max_output_tokens as nat))
            &&& says(rows, n + 15, "show line numbers"@, yes_or_no(c.tui.show_line_numbers))
        }),
{
    assert(settings_rows(lines, c).take(lines.len() as int) =~= lines);
}

/// The rows of a target show what it is about and its three switches, each
/// beside its name, and its teams.
pub proof fn inspector_shows_the_target(lines: Seq<Seq<SpanView>>, t: TargetView, i: int)
    ensures
        ({
            let rows = with_target(lines, t, i);
            let n = lines.len() as int;
            &&& rows.take(n) == lines
            &&& rows.len() == n + 3
            &&& t.repo matches Some(repo) ==> rows[n][1].text == "repo:"@ + repo
            &&& t.repo is None && t.org is Some ==> rows[n][1].text == "org:"@ + t.org->0
            &&& rows[n][0].text == "  "@ + decimal((i + 1) as nat) + ". "@
            &&& rows[n + 1].len() == 6
            &&& rows[n + 1][0].text == "     direct "@ && rows[n + 1][1].text == on_or_off(
                t.direct_review_requests,
            )
            &&& rows[n + 1][2].text == "  authored "@ && rows[n + 1][3].text == on_or_off(
                t.include_authored,
            )
            &&& rows[n + 1][4].text == "  involved "@ && rows[n + 1][5].text == on_or_off(
                t.include_involved,
            )
            &&& t.team_review_requests.len() == 0 ==> says(rows, n + 2, "     teams"@, "none"@)
            &&& t.team_review_requests.len() > 0 ==> says(
                rows,
                n + 2,
                "     teams"@,
                crate::wizard::list_joined(t.team_review_requests, ", "@),
            )
        }),
{
    assert(with_target(lines, t, i).take(lines.len() as int) =~= lines);
}

pub open spec fn on_or_off(b: bool) -> Seq<char> {
    if b {
        "on"@
    } else {
        "off"@
    }
}

/// Every target is shown, in its order: the next one goes below the ones
/// before.
pub proof fn inspector_shows_every_target(lines: Seq<Seq<SpanView>>, targets: Seq<TargetView>, n: int)
    requires
        0 <= n < targets.len(),
    ensures
        with_targets(lines, targets, n + 1) == with_target(
            with_targets(lines, targets, n),
            targets[n],
            n,
        ),
        with_targets(lines, targets, 0) == lines,
{
}

proof fn lemma_queries(lines: Seq<Seq<SpanView>>, list: Seq<Seq<char>>, n: int, k: int)
    requires
        0 <= n <= list.len(),
    ensures
        with_queries(lines, list, n).len() == lines.len() + n,
        0 <= k < lines.len() ==> with_queries(lines, list, n)[k] == lines[k],
        0 <= k - lines.len() < n ==> with_queries(lines, list, n)[k].len() == 2 && with_queries(
            lines,
            list,
            n,
        )[k][1].text == list[k - lines.len()],
    decreases n,
{
    if n > 0 {
        lemma_queries(lines, list, n - 1, k);
    }
}

/// The queries that the configuration stands for are shown one by one.
pub proof fn inspector_shows_the_queries(
    lines: Seq<Seq<SpanView>>,
    queries: Seq<Seq<char>>,
    k: int,
)
    requires
        0 <= k < queries.len(),
    ensures
        ({
            let rows = query_rows(lines, queries);
            &&& rows.take(lines.len() as int) == lines
            &&& rows.len() == lines.len() + 2 + queries.len()
            &&& rows[lines.len() + 2 + k][1].text == queries[k]
        }),
{
    let head = lines.push(crate::draw::blank()).push(
        crate::views::help::section_title("Generated queries"@),
    );
    let rows = query_rows(lines, queries);
    lemma_queries(head, queries, queries.len() as int, head.len() + k);
    assert forall|j: int| 0 <= j < lines.len() implies rows[j] == #[trigger] lines[j] by {
        lemma_queries(head, queries, queries.len() as int, j);
    }
    assert(rows.take(lines.len() as int) =~= lines);
}

/// What is polled: how often, and, without watch list and targets, everything
/// that involves the user.
pub proof fn inspector_shows_what_is_polled(lines: Seq<Seq<SpanView>>, c: ConfigView)
    ensures
        ({
            let rows = github_rows(lines, c);
            let n = lines.len() as int;
            &&& c.watch.len() == 0 ==> says(
                rows,
                n + 2,
                "poll interval"@,
                decimal(c.poll_interval as nat) + "s"@,
            )
            &&& c.watch.len() == 0 && c.targets.len() == 0 ==> says(
                rows,
                n + 3,
                "broad watch"@,
                "all PRs involving @me"@,
            )
            &&& c.watch.len() == 0 && c.targets.len() > 0 ==> says(
                rows,
                n + 3,
                "broad watch"@,
                "disabled; using explicit targets"@,
            )
        }),
{
}

/// An entry of the watch list is a repository where there is a slash in it,
/// else an organisation.
pub proof fn inspector_tells_repositories_from_organisations(
    lines: Seq<Seq<SpanView>>,
    watch: Seq<Seq<char>>,
    n: int,
)
    requires
        0 <= n < watch.len(),
    ensures
        ({
            let rows = with_watch(lines, watch, n + 1);
            let last = rows.last();
            &&& rows.drop_last() == with_watch(lines, watch, n)
            &&& last[3].text == watch[n]
            &&& (exists|k: int| 0 <= k < watch[n].len() && #[trigger] watch[n][k] == '/')
                ==> last[1].text == "repo"@
            &&& (forall|k: int| 0 <= k < watch[n].len() ==> #[trigger] watch[n][k] != '/')
                ==> last[1].text == "org"@
        }),
{
    let rows = with_watch(lines, watch, n + 1);
    assert(rows.drop_last() =~= with_watch(lines, watch, n));
}

} // verus!
