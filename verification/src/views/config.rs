//! The configuration inspector.
use vstd::prelude::*;

use crate::api::{HealthResponse, SetupStatusResponse};
use crate::app::{App, AppState};
use crate::component::RenderContext;
use crate::config::{Config, ConfigView, GithubTarget, TargetView};
use crate::draw::{
    blank, fg, less, lines_view, max, min, new_lines, no_lines, push_line, row, sp, Align, DrawOp, Line,
    OpView, Rect, Scene, SpanView, Style,
};
use crate::layout::inset;
use crate::markdown::opt_text;
use crate::split::texts;
use crate::text::{chars_of, decimal, decimal_string, joined, joined3};
use crate::theme::{INBOX, MANTLE, OVERLAY0, SUBTEXT0, SURFACE0, TEXT};
use crate::views::help::{popup_ops, render_popup, section_title, visible_lines, window};
use crate::wizard::{join_texts, list_joined};

verus! {

/// The inspector's place: the body with a margin around it.
pub open spec fn config_area(area: Rect) -> Rect {
    let mx: int = if area.width >= 100 {
        8
    } else {
        2
    };
    let my: int = if area.height >= 30 {
        3
    } else {
        1
    };
    Rect {
        x: min(area.x + mx, u16::MAX as int) as u16,
        y: min(area.y + my, u16::MAX as int) as u16,
        width: max(less(area.width as int, mx * 2), 1) as u16,
        height: max(less(area.height as int, my * 2), 1) as u16,
    }
}

fn config_rect(area: Rect) -> (r: Rect)
    ensures
        r == config_area(area),
{
    let mx: u16 = if area.width >= 100 {
        8
    } else {
        2
    };
    let my: u16 = if area.height >= 30 {
        3
    } else {
        1
    };
    let width: u16 = area.width.saturating_sub(mx * 2);
    let height: u16 = area.height.saturating_sub(my * 2);
    Rect {
        x: area.x.saturating_add(mx),
        y: area.y.saturating_add(my),
        width: if width < 1 {
            1
        } else {
            width
        },
        height: if height < 1 {
            1
        } else {
            height
        },
    }
}

pub open spec fn label_row(label: Seq<char>, value: Seq<char>) -> Seq<SpanView> {
    blank().push(sp(label + ": "@, fg(SUBTEXT0))).push(sp(value, fg(TEXT)))
}

pub open spec fn dim_row(value: Seq<char>) -> Seq<SpanView> {
    row(value, fg(OVERLAY0))
}

pub open spec fn indent_row(value: Seq<char>) -> Seq<SpanView> {
    blank().push(sp("  "@, fg(TEXT))).push(sp(value, fg(TEXT)))
}

pub open spec fn bool_text(value: bool) -> Seq<char> {
    if value {
        "true"@
    } else {
        "false"@
    }
}

pub open spec fn switch_text(value: bool) -> Seq<char> {
    if value {
        "on"@
    } else {
        "off"@
    }
}

/// An optional text, or what stands for its absence.
pub open spec fn or_text(value: Option<Seq<char>>, absent: Seq<char>) -> Seq<char> {
    match value {
        Some(s) => s,
        None => absent,
    }
}

#[verifier::allow_in_spec]
pub fn toggle_style(enabled: bool) -> Style
    returns
        (if enabled {
            fg(TEXT).bg(SURFACE0).bold()
        } else {
            fg(OVERLAY0)
        }),
{
    if enabled {
        fg(TEXT).bg(SURFACE0).bold()
    } else {
        fg(OVERLAY0)
    }
}

fn bool_label(value: bool) -> (r: &'static str)
    ensures
        r@ == bool_text(value),
{
    if value {
        "true"
    } else {
        "false"
    }
}

fn on_off(value: bool) -> (r: &'static str)
    ensures
        r@ == switch_text(value),
{
    if value {
        "on"
    } else {
        "off"
    }
}

fn or_str<'a>(value: &'a Option<String>, absent: &'static str) -> (r: &'a str)
    ensures
        r@ == or_text(opt_text(*value), absent@),
{
    match value {
        Some(s) => s.as_str(),
        None => absent,
    }
}

fn section(lines: &mut Vec<Line>, title: &str)
    ensures
        lines_view(final(lines)@) == lines_view(old(lines)@).push(section_title(title@)),
{
    push_line(lines, Line::styled(title, fg(INBOX).bold()));
}

fn label_value(lines: &mut Vec<Line>, label: &str, value: &str)
    ensures
        lines_view(final(lines)@) == lines_view(old(lines)@).push(label_row(label@, value@)),
{
    push_line(
        lines,
        Line::empty().with(joined(label, ": ").as_str(), fg(SUBTEXT0)).with(value, fg(TEXT)),
    );
}

fn dim_line(lines: &mut Vec<Line>, value: &str)
    ensures
        lines_view(final(lines)@) == lines_view(old(lines)@).push(dim_row(value@)),
{
    push_line(lines, Line::styled(value, fg(OVERLAY0)));
}

fn gap(lines: &mut Vec<Line>)
    ensures
        lines_view(final(lines)@) == lines_view(old(lines)@).push(blank()),
{
    push_line(lines, Line::empty());
}

/// What the daemon says of itself.
pub open spec fn health_rows(lines: Seq<Seq<SpanView>>, h: HealthResponse) -> Seq<Seq<SpanView>> {
    lines.push(label_row("service"@, h.service@)).push(label_row("version"@, h.version@)).push(
        label_row("daemon status"@, h.status@),
    ).push(label_row("current user"@, h.current_user@)).push(
        label_row("refresh in progress"@, bool_text(h.refresh_in_progress)),
    ).push(label_row("last poll at"@, or_text(opt_text(h.last_poll_at), "never"@))).push(
        label_row("last poll error"@, or_text(opt_text(h.last_poll_error), "none"@)),
    ).push(
        label_row(
            "rate limit remaining"@,
            match h.rate_limit_remaining {
                Some(n) => decimal(n as nat),
                None => "unknown"@,
            },
        ),
    ).push(label_row("setup status"@, h.setup_status@)).push(
        label_row("setup message"@, or_text(opt_text(h.setup_message), "none"@)),
    )
}

/// The heading, and the state of the running daemon.
pub open spec fn runtime_rows(a: App) -> Seq<Seq<SpanView>> {
    let head = no_lines().push(
        blank().push(sp("Configuration"@, fg(TEXT).bold())).push(
            sp("  c/Esc close  R reload  j/k scroll"@, fg(SUBTEXT0)),
        ),
    ).push(blank()).push(section_title("Runtime status"@)).push(
        label_row("config path"@, or_text(a.config_path, "default"@)),
    );
    match a.health {
        Some(h) => health_rows(head, h),
        None => head.push(dim_row("health not loaded"@)),
    }
}

fn push_health(lines: &mut Vec<Line>, h: &HealthResponse)
    ensures
        lines_view(final(lines)@) == health_rows(lines_view(old(lines)@), *h),
{
    label_value(lines, "service", h.service.as_str());
    label_value(lines, "version", h.version.as_str());
    label_value(lines, "daemon status", h.status.as_str());
    label_value(lines, "current user", h.current_user.as_str());
    label_value(lines, "refresh in progress", bool_label(h.refresh_in_progress));
    label_value(lines, "last poll at", or_str(&h.last_poll_at, "never"));
    label_value(lines, "last poll error", or_str(&h.last_poll_error, "none"));
    let limit = match h.rate_limit_remaining {
        Some(n) => decimal_string(n),
        None => "unknown".to_owned(),
    };
    label_value(lines, "rate limit remaining", limit.as_str());
    label_value(lines, "setup status", h.setup_status.as_str());
    label_value(lines, "setup message", or_str(&h.setup_message, "none"));
}

fn runtime_lines(state: &AppState) -> (r: Vec<Line>)
    ensures
        lines_view(r@) == runtime_rows(state@),
{
    let mut lines = new_lines();
    push_line(
        &mut lines,
        Line::empty().with("Configuration", fg(TEXT).bold()).with(
            "  c/Esc close  R reload  j/k scroll",
            fg(SUBTEXT0),
        ),
    );
    gap(&mut lines);
    section(&mut lines, "Runtime status");
    label_value(&mut lines, "config path", or_str(&state.config_path, "default"));
    match &state.health {
        Some(h) => push_health(&mut lines, h),
        None => dim_line(&mut lines, "health not loaded"),
    }
    lines
}

/// `lines` with the first `n` texts below them, each indented.
pub open spec fn with_indented(lines: Seq<Seq<SpanView>>, list: Seq<Seq<char>>, n: int) -> Seq<
    Seq<SpanView>,
>
    decreases n,
{
    if n <= 0 {
        lines
    } else {
        with_indented(lines, list, n - 1).push(indent_row(list[n - 1]))
    }
}

fn push_indented(lines: &mut Vec<Line>, list: &Vec<String>)
    ensures
        lines_view(final(lines)@) == with_indented(
            lines_view(old(lines)@),
            texts(list@),
            list@.len() as int,
        ),
{
    let ghost start = lines_view(lines@);
    let mut i: usize = 0;
    while i < list.len()
        invariant
            i <= list@.len(),
            start == lines_view(old(lines)@),
            lines_view(lines@) == with_indented(start, texts(list@), i as int),
        decreases list@.len() - i,
    {
        proof {
            assert(texts(list@)[i as int] == list@[i as int]@);
        }
        push_line(lines, Line::empty().with("  ", fg(TEXT)).with(list[i].as_str(), fg(TEXT)));
        i += 1;
    }
}

pub open spec fn diagnosis_rows(lines: Seq<Seq<SpanView>>, s: SetupStatusResponse) -> Seq<
    Seq<SpanView>,
> {
    let steps = texts(s.next_steps@);
    let told = lines.push(label_row("ready"@, bool_text(s.ready))).push(
        label_row("status"@, s.status@),
    ).push(label_row("auth resolved"@, bool_text(s.auth.resolved))).push(
        label_row("auth source"@, or_text(opt_text(s.auth.source), "none"@)),
    ).push(label_row("auth user"@, or_text(opt_text(s.auth.user), "none"@))).push(
        label_row("llm enabled"@, bool_text(s.llm.enabled)),
    ).push(
        label_row(
            "llm reachable"@,
            match s.llm.reachable {
                Some(b) => bool_text(b),
                None => "unknown"@,
            },
        ),
    ).push(label_row("llm model"@, or_text(opt_text(s.llm.model), "none"@))).push(
        label_row("llm message"@, or_text(opt_text(s.llm.message), "none"@)),
    );
    if steps.len() == 0 {
        told.push(label_row("next steps"@, "none"@))
    } else {
        with_indented(told.push(row("next steps:"@, fg(SUBTEXT0))), steps, steps.len() as int)
    }
}

/// What is known of the setup.
pub open spec fn setup_rows(lines: Seq<Seq<SpanView>>, a: App) -> Seq<Seq<SpanView>> {
    let head = lines.push(blank()).push(section_title("Setup diagnostics"@));
    match a.setup_status {
        Some(s) => diagnosis_rows(head, s),
        None => head.push(dim_row("setup diagnostics not loaded"@)),
    }
}

fn push_diagnosis(lines: &mut Vec<Line>, s: &SetupStatusResponse)
    ensures
        lines_view(final(lines)@) == diagnosis_rows(lines_view(old(lines)@), *s),
{
    label_value(lines, "ready", bool_label(s.ready));
    label_value(lines, "status", s.status.as_str());
    label_value(lines, "auth resolved", bool_label(s.auth.resolved));
    label_value(lines, "auth source", or_str(&s.auth.source, "none"));
    label_value(lines, "auth user", or_str(&s.auth.user, "none"));
    label_value(lines, "llm enabled", bool_label(s.llm.enabled));
    let reachable = match s.llm.reachable {
        Some(b) => bool_label(b),
        None => "unknown",
    };
    label_value(lines, "llm reachable", reachable);
    label_value(lines, "llm model", or_str(&s.llm.model, "none"));
    label_value(lines, "llm message", or_str(&s.llm.message, "none"));
    proof {
        assert(texts(s.next_steps@).len() == s.next_steps@.len());
    }
    if s.next_steps.len() == 0 {
        label_value(lines, "next steps", "none");
    } else {
        push_line(lines, Line::styled("next steps:", fg(SUBTEXT0)));
        push_indented(lines, &s.next_steps);
    }
}

fn push_setup(lines: &mut Vec<Line>, state: &AppState)
    ensures
        lines_view(final(lines)@) == setup_rows(lines_view(old(lines)@), state@),
{
    gap(lines);
    section(lines, "Setup diagnostics");
    match &state.setup_status {
        Some(s) => push_diagnosis(lines, s),
        None => dim_line(lines, "setup diagnostics not loaded"),
    }
}

/// One entry of the broad watch list: an organisation, or a repository where
/// there is a slash in it.
pub open spec fn watch_row(entry: Seq<char>) -> Seq<SpanView> {
    blank().push(sp("  "@, fg(TEXT))).push(
        sp(
            if entry.contains('/') {
                "repo"@
            } else {
                "org"@
            },
            fg(SUBTEXT0),
        ),
    ).push(sp(" "@, fg(SUBTEXT0))).push(sp(entry, fg(TEXT))).push(
        sp(" includes review-requested:@me teams"@, fg(OVERLAY0)),
    )
}

pub open spec fn with_watch(lines: Seq<Seq<SpanView>>, watch: Seq<Seq<char>>, n: int) -> Seq<
    Seq<SpanView>,
>
    decreases n,
{
    if n <= 0 {
        lines
    } else {
        with_watch(lines, watch, n - 1).push(watch_row(watch[n - 1]))
    }
}

/// What is polled, and how often.
pub open spec fn github_rows(lines: Seq<Seq<SpanView>>, c: ConfigView) -> Seq<Seq<SpanView>> {
    let head = lines.push(blank()).push(section_title("GitHub config"@)).push(
        label_row("poll interval"@, decimal(c.poll_interval as nat) + "s"@),
    );
    if c.watch.len() == 0 {
        head.push(
            label_row(
                "broad watch"@,
                if c.targets.len() == 0 {
                    "all PRs involving @me"@
                } else {
                    "disabled; using explicit targets"@
                },
            ),
        )
    } else {
        with_watch(
            head.push(section_title("Broad watch rules"@)),
            c.watch,
            c.watch.len() as int,
        )
    }
}

fn has_slash(s: &str) -> (r: bool)
    ensures
        r == s@.contains('/'),
{
    let chars = chars_of(s);
    let mut i: usize = 0;
    while i < chars.len()
        invariant
            i <= chars@.len(),
            chars@ == s@,
            forall|k: int| 0 <= k < i ==> s@[k] != '/',
        decreases chars@.len() - i,
    {
        if chars[i] == '/' {
            return true;
        }
        i += 1;
    }
    false
}

fn push_github(lines: &mut Vec<Line>, config: &Config)
    ensures
        lines_view(final(lines)@) == github_rows(lines_view(old(lines)@), config@),
{
    let watch = &config.github.watch;
    gap(lines);
    section(lines, "GitHub config");
    label_value(
        lines,
        "poll interval",
        joined(decimal_string(config.github.poll_interval).as_str(), "s").as_str(),
    );
    if watch.len() == 0 {
        label_value(
            lines,
            "broad watch",
            if config.github.targets.len() == 0 {
                "all PRs involving @me"
            } else {
                "disabled; using explicit targets"
            },
        );
    } else {
        section(lines, "Broad watch rules");
        let ghost start = lines_view(lines@);
        let mut i: usize = 0;
        while i < watch.len()
            invariant
                i <= watch@.len(),
                lines_view(lines@) == with_watch(start, texts(watch@), i as int),
            decreases watch@.len() - i,
        {
            let entry = watch[i].as_str();
            proof {
                assert(texts(watch@)[i as int] == watch@[i as int]@);
            }
            let scope = if has_slash(entry) {
                "repo"
            } else {
                "org"
            };
            push_line(
                lines,
                Line::empty().with("  ", fg(TEXT)).with(scope, fg(SUBTEXT0)).with(
                    " ",
                    fg(SUBTEXT0),
                ).with(entry, fg(TEXT)).with(
                    " includes review-requested:@me teams",
                    fg(OVERLAY0),
                ),
            );
            i += 1;
        }
    }
}

/// What a target is about: a repository first, else an organisation.
pub open spec fn target_scope(t: TargetView) -> Seq<char> {
    match t.repo {
        Some(repo) => "repo:"@ + repo,
        None => match t.org {
            Some(org) => "org:"@ + org,
            None => "invalid"@,
        },
    }
}

/// The three rows of target `i`.
pub open spec fn with_target(lines: Seq<Seq<SpanView>>, t: TargetView, i: int) -> Seq<
    Seq<SpanView>,
> {
    lines.push(
        blank().push(sp("  "@ + decimal((i + 1) as nat) + ". "@, fg(SUBTEXT0))).push(
            sp(target_scope(t), fg(TEXT).bold()),
        ),
    ).push(
        blank().push(sp("     direct "@, fg(SUBTEXT0))).push(
            sp(switch_text(t.direct_review_requests), toggle_style(t.direct_review_requests)),
        ).push(sp("  authored "@, fg(SUBTEXT0))).push(
            sp(switch_text(t.include_authored), toggle_style(t.include_authored)),
        ).push(sp("  involved "@, fg(SUBTEXT0))).push(
            sp(switch_text(t.include_involved), toggle_style(t.include_involved)),
        ),
    ).push(
        label_row(
            "     teams"@,
            if t.team_review_requests.len() == 0 {
                "none"@
            } else {
                list_joined(t.team_review_requests, ", "@)
            },
        ),
    )
}

pub open spec fn with_targets(lines: Seq<Seq<SpanView>>, targets: Seq<TargetView>, n: int) -> Seq<
    Seq<SpanView>,
>
    decreases n,
{
    if n <= 0 {
        lines
    } else {
        with_target(with_targets(lines, targets, n - 1), targets[n - 1], n - 1)
    }
}

/// The precise targets.
pub open spec fn target_rows(lines: Seq<Seq<SpanView>>, c: ConfigView) -> Seq<Seq<SpanView>> {
    let head = lines.push(blank()).push(section_title("Explicit targets"@));
    if c.targets.len() == 0 {
        head.push(dim_row("  none"@))
    } else {
        with_targets(head, c.targets, c.targets.len() as int)
    }
}

fn push_target(lines: &mut Vec<Line>, t: &GithubTarget, i: usize)
    requires
        i < usize::MAX,
    ensures
        lines_view(final(lines)@) == with_target(lines_view(old(lines)@), t@, i as int),
{
    let scope = match &t.repo {
        Some(repo) => joined("repo:", repo.as_str()),
        None => match &t.org {
            Some(org) => joined("org:", org.as_str()),
            None => "invalid".to_owned(),
        },
    };
    let number = decimal_string((i + 1) as u64);
    push_line(
        lines,
        Line::empty().with(joined3("  ", number.as_str(), ". ").as_str(), fg(SUBTEXT0)).with(
            scope.as_str(),
            fg(TEXT).bold(),
        ),
    );
    push_line(
        lines,
        Line::empty().with("     direct ", fg(SUBTEXT0)).with(
            on_off(t.direct_review_requests),
            toggle_style(t.direct_review_requests),
        ).with("  authored ", fg(SUBTEXT0)).with(
            on_off(t.include_authored),
            toggle_style(t.include_authored),
        ).with("  involved ", fg(SUBTEXT0)).with(
            on_off(t.include_involved),
            toggle_style(t.include_involved),
        ),
    );
    proof {
        assert(t@.team_review_requests.len() == t.team_review_requests@.len());
    }
    let teams = if t.team_review_requests.len() == 0 {
        "none".to_owned()
    } else {
        join_texts(&t.team_review_requests, ", ")
    };
    label_value(lines, "     teams", teams.as_str());
}

fn push_targets(lines: &mut Vec<Line>, config: &Config)
    ensures
        lines_view(final(lines)@) == target_rows(lines_view(old(lines)@), config@),
{
    let targets = &config.github.targets;
    gap(lines);
    section(lines, "Explicit targets");
    proof {
        assert(config@.targets.len() == targets@.len());
    }
    if targets.len() == 0 {
        dim_line(lines, "  none");
    } else {
        let ghost start = lines_view(lines@);
        let mut i: usize = 0;
        while i < targets.len()
            invariant
                i <= targets@.len(),
                targets@ == config.github.targets@,
                lines_view(lines@) == with_targets(start, config@.targets, i as int),
            decreases targets@.len() - i,
        {
            proof {
                assert(config@.targets[i as int] == targets@[i as int]@);
            }
            push_target(lines, &targets[i], i);
            i += 1;
        }
    }
}

/// The daemon's own settings and those of the language model and interface.
/// Of the key only whether there is one is shown.
pub open spec fn settings_rows(lines: Seq<Seq<SpanView>>, c: ConfigView) -> Seq<Seq<SpanView>> {
    lines.push(blank()).push(section_title("Daemon config"@)).push(
        label_row("port"@, decimal(c.daemon.port as nat)),
    ).push(label_row("kill on tui exit"@, bool_text(c.daemon.kill_on_tui_exit))).push(blank()).push(
        section_title("LLM config"@),
    ).push(label_row("enabled"@, bool_text(c.llm.enabled))).push(
        label_row("provider"@, c.llm.provider),
    ).push(label_row("endpoint"@, c.llm.endpoint)).push(
        label_row(
            "api key"@,
            if c.llm.api_key.len() == 0 {
                "empty"@
            } else {
                "redacted"@
            },
        ),
    ).push(
        label_row(
            "model"@,
            if c.llm.model.len() == 0 {
                "auto-detect"@
            } else {
                c.llm.model
            },
        ),
    ).push(label_row("classify on change"@, bool_text(c.llm.classify_on_change))).push(
        label_row("max output tokens"@, decimal(c.llm.max_output_tokens as nat)),
    ).push(blank()).push(section_title("TUI config"@)).push(
        label_row("show line numbers"@, bool_text(c.tui.show_line_numbers)),
    )
}

fn push_settings(lines: &mut Vec<Line>, config: &Config)
    ensures
        lines_view(final(lines)@) == settings_rows(lines_view(old(lines)@), config@),
{
    gap(lines);
    section(lines, "Daemon config");
    label_value(lines, "port", decimal_string(config.daemon.port as u64).as_str());
    label_value(lines, "kill on tui exit", bool_label(config.daemon.kill_on_tui_exit));
    gap(lines);
    section(lines, "LLM config");
    label_value(lines, "enabled", bool_label(config.llm.enabled));
    label_value(lines, "provider", config.llm.provider.as_str());
    label_value(lines, "endpoint", config.llm.endpoint.as_str());
    label_value(
        lines,
        "api key",
        if config.llm.api_key.as_str().is_empty() {
            "empty"
        } else {
            "redacted"
        },
    );
    label_value(
        lines,
        "model",
        if config.llm.model.as_str().is_empty() {
            "auto-detect"
        } else {
            config.llm.model.as_str()
        },
    );
    label_value(lines, "classify on change", bool_label(config.llm.classify_on_change));
    label_value(
        lines,
        "max output tokens",
        decimal_string(config.llm.max_output_tokens as u64).as_str(),
    );
    gap(lines);
    section(lines, "TUI config");
    label_value(lines, "show line numbers", bool_label(config.tui.show_line_numbers));
}

pub open spec fn with_queries(lines: Seq<Seq<SpanView>>, queries: Seq<Seq<char>>, n: int) -> Seq<
    Seq<SpanView>,
>
    decreases n,
{
    if n <= 0 {
        lines
    } else {
        with_queries(lines, queries, n - 1).push(
            blank().push(sp("  "@, fg(TEXT))).push(sp(queries[n - 1], fg(SUBTEXT0))),
        )
    }
}

/// The search queries that the configuration stands for.
pub open spec fn query_rows(lines: Seq<Seq<SpanView>>, queries: Seq<Seq<char>>) -> Seq<
    Seq<SpanView>,
> {
    let head = lines.push(blank()).push(section_title("Generated queries"@));
    if queries.len() == 0 {
        head.push(dim_row("  none"@))
    } else {
        with_queries(head, queries, queries.len() as int)
    }
}

fn push_queries(lines: &mut Vec<Line>, queries: &Vec<String>)
    ensures
        lines_view(final(lines)@) == query_rows(lines_view(old(lines)@), texts(queries@)),
{
    gap(lines);
    section(lines, "Generated queries");
    proof {
        assert(texts(queries@).len() == queries@.len());
    }
    if queries.len() == 0 {
        dim_line(lines, "  none");
    } else {
        let ghost start = lines_view(lines@);
        let mut i: usize = 0;
        while i < queries.len()
            invariant
                i <= queries@.len(),
                lines_view(lines@) == with_queries(start, texts(queries@), i as int),
            decreases queries@.len() - i,
        {
            proof {
                assert(texts(queries@)[i as int] == queries@[i as int]@);
            }
            push_line(
                lines,
                Line::empty().with("  ", fg(TEXT)).with(queries[i].as_str(), fg(SUBTEXT0)),
            );
            i += 1;
        }
    }
}

/// The rows of the inspector.
pub open spec fn config_rows(a: App, queries: Seq<Seq<char>>) -> Seq<Seq<SpanView>> {
    let c = a.config@;
    query_rows(
        settings_rows(target_rows(github_rows(setup_rows(runtime_rows(a), a), c), c), c),
        queries,
    )
}

/// The rows of the inspector: the running daemon, the setup, and every setting
/// of the configuration with the search queries it stands for.
pub fn config_lines(state: &AppState, queries: &Vec<String>) -> (r: Vec<Line>)
    ensures
        lines_view(r@) == config_rows(state@, texts(queries@)),
{
    let mut lines = runtime_lines(state);
    push_setup(&mut lines, state);
    push_github(&mut lines, &state.config);
    push_targets(&mut lines, &state.config);
    push_settings(&mut lines, &state.config);
    push_queries(&mut lines, queries);
    lines
}

/// The inspector shows nothing of a language-model key but that there is one:
/// configurations that differ in it alone look the same.
pub proof fn inspector_never_shows_the_key(
    lines: Seq<Seq<SpanView>>,
    c: ConfigView,
    key: Seq<char>,
)
    requires
        c.llm.api_key.len() > 0,
        key.len() > 0,
    ensures
        ({
            let other = ConfigView { llm: crate::config::LlmView { api_key: key, ..c.llm }, ..c };
            &&& settings_rows(lines, c) == settings_rows(lines, other)
            &&& github_rows(lines, c) == github_rows(lines, other)
            &&& target_rows(lines, c) == target_rows(lines, other)
        }),
{
}

#[verifier::opaque]
pub open spec fn config_ops(a: App, queries: Seq<Seq<char>>, area: Rect) -> Seq<OpView> {
    let popup = config_area(area);
    let inner = inset(popup);
    popup_ops(popup, " Config "@).push(
        (OpView::Text {
            area: inner,
            lines: window(config_rows(a, queries), inner.height as int, a.config_scroll as int),
            style: fg(TEXT).bg(MANTLE),
            align: Align::Left,
            wrap: true,
            scroll: 0,
        }),
    )
}

/// Render the configuration inspector over the body.
pub fn render_config_view(scene: &mut Scene, area: Rect, ctx: &RenderContext)
    ensures
        final(scene)@ == old(scene)@ + config_ops(ctx.state@, texts(ctx.queries@), area),
{
    proof {
        reveal(config_ops);
    }
    let popup = config_rect(area);
    let inner = render_popup(scene, popup, " Config ");
    let lines = config_lines(ctx.state, ctx.queries);
    let visible = visible_lines(&lines, inner.height, ctx.state.config_scroll);
    scene.push(
        DrawOp::Text {
            area: inner,
            lines: visible,
            style: fg(TEXT).bg(MANTLE),
            align: Align::Left,
            wrap: true,
            scroll: 0,
        },
    );
    proof {
        assert(scene@ =~= old(scene)@ + config_ops(ctx.state@, texts(ctx.queries@), area));
    }
}

} // verus!
