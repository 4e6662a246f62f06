//! Rendered artifacts that are rebuilt only when what they were built from
//! has changed.
use vstd::prelude::*;
use vstd::utf8::encode_utf8;

use crate::api::{Moment, PrDetailResponse};
use crate::diff::{
    all_comments, comments_below, diff_lines, diff_view, file_places, find_file_boundaries,
    gather_comments, map_review_threads_to_diff_indices, parse_diff, DiffLineView, ParsedDiffLine,
};
use crate::draw::{
    append_lines, blank, fg, less, lines_view, new_lines, no_lines, push_line, row, sp, spans_view,
    Line, Span, SpanView, Style,
};
use crate::github::{
    comments_view, CheckEntry, CheckStatus, CommentView, MergeableState, ReviewComment,
    ReviewThread, TimelineEvent,
};
use crate::markdown::{markdown_lines, markdown_text_rows, opt_text};
use crate::sort::{
    comes_before, in_order, lemma_insert_at, stable_order, stable_order_sorts, strict_order,
    text_before, text_order_is_asymmetric, text_order_is_transitive,
};
use crate::split::text_lines;
use crate::text::{decimal, decimal_string, joined, joined3, same_text};
use crate::theme::{
    ACTIVITY, FAIL, ICON_CLOSE, ICON_SYNC, MUTED, OVERLAY0, PENDING, SUBTEXT0, TEXT,
};
use crate::views::activity::{event_icon, icon_of, short_time, short_time_of, timeline_verb, verb_of};
use crate::views::diff::{
    comments_rows, diff_line_rows, indent_lines, indented, render_diff_line_internal,
    render_inline_comments_internal, wrapped_rows, wrapping_loses_nothing,
};

verus! {

/// The value behind an optional reference.
pub open spec fn held<T>(o: Option<&T>) -> Option<T> {
    match o {
        Some(t) => Some(*t),
        None => None,
    }
}

/// Identity of a pull-request detail: its identifier and time of update, both
/// empty where there is none.
pub open spec fn identity(detail: Option<PrDetailResponse>) -> (Seq<char>, Seq<char>) {
    match detail {
        Some(d) => (d.id@, d.updated_at@),
        None => (Seq::empty(), Seq::empty()),
    }
}

fn detail_identity(detail: Option<&PrDetailResponse>) -> (r: (String, String))
    ensures
        (r.0@, r.1@) == identity(held(detail)),
{
    match detail {
        Some(d) => (d.id.clone(), d.updated_at.clone()),
        None => (String::new(), String::new()),
    }
}

/// Bytes in the details of the first `n` timeline events.
pub open spec fn timeline_bytes(events: Seq<TimelineEvent>, n: int) -> usize
    decreases n,
{
    if n <= 0 {
        0
    } else {
        timeline_bytes(events, n - 1).wrapping_add(encode_utf8(events[n - 1].detail@).len() as usize)
    }
}

/// Bytes in the first `n` comments.
pub open spec fn comment_bytes(comments: Seq<ReviewComment>, n: int) -> usize
    decreases n,
{
    if n <= 0 {
        0
    } else {
        comment_bytes(comments, n - 1).wrapping_add(encode_utf8(comments[n - 1].body@).len() as usize)
    }
}

/// Bytes in the comments of the first `n` threads.
pub open spec fn thread_bytes(threads: Seq<ReviewThread>, n: int) -> usize
    decreases n,
{
    if n <= 0 {
        0
    } else {
        let comments = threads[n - 1].comments@;
        thread_bytes(threads, n - 1).wrapping_add(comment_bytes(comments, comments.len() as int))
    }
}

/// Fingerprint of a detail's activity: number of timeline events and of
/// threads, bytes in their texts, and the time of the last event.
pub open spec fn fingerprint_of(detail: Option<PrDetailResponse>) -> (usize, usize, usize, Seq<char>) {
    match detail {
        Some(d) => (
            d.timeline@.len() as usize,
            d.review_threads@.len() as usize,
            timeline_bytes(d.timeline@, d.timeline@.len() as int).wrapping_add(
                thread_bytes(d.review_threads@, d.review_threads@.len() as int),
            ),
            if d.timeline@.len() > 0 {
                d.timeline@.last().created_at@
            } else {
                Seq::empty()
            },
        ),
        None => (0, 0, 0, Seq::empty()),
    }
}

fn count_comment_bytes(comments: &Vec<ReviewComment>) -> (r: usize)
    ensures
        r == comment_bytes(comments@, comments@.len() as int),
{
    let mut total: usize = 0;
    let mut i: usize = 0;
    while i < comments.len()
        invariant
            i <= comments@.len(),
            total == comment_bytes(comments@, i as int),
        decreases comments@.len() - i,
    {
        total = total.wrapping_add(comments[i].body.as_str().len());
        i += 1;
    }
    total
}

fn activity_fingerprint(detail: Option<&PrDetailResponse>) -> (r: (usize, usize, usize, String))
    ensures
        (r.0, r.1, r.2, r.3@) == fingerprint_of(held(detail)),
{
    match detail {
        Some(d) => {
            let mut events: usize = 0;
            let mut i: usize = 0;
            while i < d.timeline.len()
                invariant
                    i <= d.timeline@.len(),
                    events == timeline_bytes(d.timeline@, i as int),
                decreases d.timeline@.len() - i,
            {
                events = events.wrapping_add(d.timeline[i].detail.as_str().len());
                i += 1;
            }
            let mut threads: usize = 0;
            let mut t: usize = 0;
            while t < d.review_threads.len()
                invariant
                    t <= d.review_threads@.len(),
                    threads == thread_bytes(d.review_threads@, t as int),
                decreases d.review_threads@.len() - t,
            {
                threads = threads.wrapping_add(count_comment_bytes(&d.review_threads[t].comments));
                t += 1;
            }
            let n: usize = d.timeline.len();
            let last = if n > 0 {
                d.timeline[n - 1].created_at.clone()
            } else {
                String::new()
            };
            (n, d.review_threads.len(), events.wrapping_add(threads), last)
        },
        None => (0, 0, 0, String::new()),
    }
}

/// One selectable event in the Activity blade: a timeline event or a whole
/// review thread. Header spans carry only base (unselected) styling.
#[derive(Debug, Clone)]
pub struct ActivityEvent {
    /// Icon, actor, verb and time, base styling only.
    pub header_spans: Vec<Span>,
    /// Full markdown-rendered body, indented.
    pub body: Vec<Line>,
    /// Plain-text body.
    pub raw_body: String,
    /// Event web URL; empty where the pull request's own is to be used.
    pub url: String,
    /// Raw ISO timestamp (the sort key); empty for legacy data.
    pub created_at: String,
    /// Login of the primary actor.
    pub actor: String,
}

#[verifier::ext_equal]
pub struct ActivityView {
    pub header: Seq<SpanView>,
    pub body: Seq<Seq<SpanView>>,
    pub raw_body: Seq<char>,
    pub url: Seq<char>,
    pub created_at: Seq<char>,
    pub actor: Seq<char>,
}

impl View for ActivityEvent {
    type V = ActivityView;

    open spec fn view(&self) -> ActivityView {
        ActivityView {
            header: spans_view(self.header_spans@),
            body: lines_view(self.body@),
            raw_body: self.raw_body@,
            url: self.url@,
            created_at: self.created_at@,
            actor: self.actor@,
        }
    }
}

impl Default for ActivityEvent {
    /// An event without text, link, time or actor.
    fn default() -> (r: ActivityEvent)
        ensures
            r@ == (ActivityView {
                header: Seq::empty(),
                body: Seq::empty(),
                raw_body: Seq::empty(),
                url: Seq::empty(),
                created_at: Seq::empty(),
                actor: Seq::empty(),
            }),
    {
        ActivityEvent {
            header_spans: Vec::new(),
            body: Vec::new(),
            raw_body: String::new(),
            url: String::new(),
            created_at: String::new(),
            actor: String::new(),
        }
    }
}

pub open spec fn activity_view(events: Seq<ActivityEvent>) -> Seq<ActivityView> {
    events.map_values(|e: ActivityEvent| e@)
}

/// A timestamp for an event header; an em-dash where there is none.
pub open spec fn when_of(created_at: Seq<char>) -> Seq<char> {
    if created_at.len() == 0 {
        "—"@
    } else {
        short_time_of(created_at)
    }
}

fn activity_when(created_at: &str) -> (r: String)
    ensures
        r@ == when_of(created_at@),
{
    if created_at.is_empty() {
        "—".to_owned()
    } else {
        short_time(created_at)
    }
}

/// The rows of a Markdown body under an event header.
pub open spec fn indented_rows(body: Seq<char>, width: int) -> Seq<Seq<SpanView>> {
    markdown_text_rows(body, less(width, 3)).map_values(|l: Seq<SpanView>| indented("   "@, l))
}

fn indented_markdown(body: &str, width: usize) -> (r: Vec<Line>)
    ensures
        lines_view(r@) == indented_rows(body@, width as int),
{
    let rows = markdown_lines(body, width.saturating_sub(3));
    proof {
        assert(lines_view(rows@).take(rows@.len() as int) =~= lines_view(rows@));
    }
    indent_lines("   ", &rows, rows.len())
}

/// The entry of a timeline event.
pub open spec fn timeline_entry(e: TimelineEvent, width: int) -> ActivityView {
    let (verb, color) = verb_of(e.event_type);
    ActivityView {
        header: blank().push(sp(icon_of(verb) + " "@, fg(color))).push(
            sp("@"@ + e.actor@ + " "@, fg(SUBTEXT0)),
        ).push(sp(verb, fg(color).bold())).push(sp("  "@ + when_of(e.created_at@), fg(OVERLAY0))),
        body: if e.detail@.len() == 0 {
            no_lines()
        } else {
            indented_rows(e.detail@, width)
        },
        raw_body: e.detail@,
        url: e.url@,
        created_at: e.created_at@,
        actor: e.actor@,
    }
}

fn build_timeline_entry(e: &TimelineEvent, width: usize) -> (r: ActivityEvent)
    ensures
        r@ == timeline_entry(*e, width as int),
{
    let (verb, color) = timeline_verb(e.event_type);
    let icon = event_icon(verb);
    let mut header = Line::empty();
    header.push(joined(icon, " ").as_str(), fg(color));
    header.push(joined3("@", e.actor.as_str(), " ").as_str(), fg(SUBTEXT0));
    header.push(verb, fg(color).bold());
    header.push(joined("  ", activity_when(e.created_at.as_str()).as_str()).as_str(), fg(OVERLAY0));
    let body = if e.detail.as_str().is_empty() {
        new_lines()
    } else {
        indented_markdown(e.detail.as_str(), width)
    };
    ActivityEvent {
        header_spans: header.spans,
        body,
        raw_body: e.detail.clone(),
        url: e.url.clone(),
        created_at: e.created_at.clone(),
        actor: e.actor.clone(),
    }
}

/// The first timestamp of a thread's comments from `i` on that is not empty.
pub open spec fn first_time(comments: Seq<ReviewComment>, i: int) -> Seq<char>
    decreases comments.len() - i,
{
    if i < 0 || i >= comments.len() {
        Seq::empty()
    } else if comments[i].created_at@.len() > 0 {
        comments[i].created_at@
    } else {
        first_time(comments, i + 1)
    }
}

/// The first address of a thread's comments from `i` on that is not empty.
pub open spec fn first_url(comments: Seq<ReviewComment>, i: int) -> Seq<char>
    decreases comments.len() - i,
{
    if i < 0 || i >= comments.len() {
        Seq::empty()
    } else if comments[i].url@.len() > 0 {
        comments[i].url@
    } else {
        first_url(comments, i + 1)
    }
}

fn find_first_time(comments: &Vec<ReviewComment>) -> (r: String)
    ensures
        r@ == first_time(comments@, 0),
{
    let mut i: usize = 0;
    while i < comments.len()
        invariant
            i <= comments@.len(),
            first_time(comments@, 0) == first_time(comments@, i as int),
        decreases comments@.len() - i,
    {
        if !comments[i].created_at.as_str().is_empty() {
            return comments[i].created_at.clone();
        }
        i += 1;
    }
    String::new()
}

fn find_first_url(comments: &Vec<ReviewComment>) -> (r: String)
    ensures
        r@ == first_url(comments@, 0),
{
    let mut i: usize = 0;
    while i < comments.len()
        invariant
            i <= comments@.len(),
            first_url(comments@, 0) == first_url(comments@, i as int),
        decreases comments@.len() - i,
    {
        if !comments[i].url.as_str().is_empty() {
            return comments[i].url.clone();
        }
        i += 1;
    }
    String::new()
}

/// The rows of the first `n` comments of a thread.
pub open spec fn thread_body(comments: Seq<ReviewComment>, width: int, n: int) -> Seq<Seq<SpanView>>
    decreases n,
{
    if n <= 0 {
        no_lines()
    } else {
        let c = comments[n - 1];
        thread_body(comments, width, n - 1).push(
            blank().push(sp("   "@, Style::plain())).push(
                sp("@"@ + c.author@ + ":"@, fg(SUBTEXT0).bold()),
            ),
        ) + indented_rows(c.body@, width)
    }
}

/// The plain text of the first `n` comments of a thread, one below the other.
pub open spec fn thread_text(comments: Seq<ReviewComment>, n: int) -> Seq<char>
    decreases n,
{
    if n <= 0 {
        Seq::empty()
    } else {
        let c = comments[n - 1];
        let before = thread_text(comments, n - 1);
        (if before.len() > 0 {
            before.push('\n')
        } else {
            before
        }) + ("@"@ + c.author@ + ": "@ + c.body@)
    }
}

/// The entry of a review thread with at least one comment.
pub open spec fn thread_entry(t: ReviewThread, width: int) -> ActivityView {
    let comments = t.comments@;
    let first = comments[0];
    let path = if first.path@.len() == 0 {
        "—"@
    } else {
        first.path@
    };
    let line = match first.line {
        Some(n) => decimal(n as nat),
        None => "—"@,
    };
    let created_at = first_time(comments, 0);
    let header = blank().push(sp(icon_of("commented"@) + " "@, fg(ACTIVITY))).push(
        sp("@"@ + first.author@ + " "@, fg(SUBTEXT0)),
    ).push(sp("thread"@, fg(ACTIVITY).bold())).push(
        sp("  "@ + path + ":"@ + line, fg(MUTED)),
    ).push(sp("  "@ + when_of(created_at), fg(OVERLAY0)));
    ActivityView {
        header: if t.is_resolved {
            header.push(sp(" (resolved)"@, fg(MUTED)))
        } else {
            header
        },
        body: thread_body(comments, width, comments.len() as int),
        raw_body: thread_text(comments, comments.len() as int),
        url: first_url(comments, 0),
        created_at,
        actor: first.author@,
    }
}

fn build_thread_entry(t: &ReviewThread, width: usize) -> (r: ActivityEvent)
    requires
        t.comments@.len() > 0,
    ensures
        r@ == thread_entry(*t, width as int),
{
    let first = &t.comments[0];
    let path = if first.path.as_str().is_empty() {
        "—"
    } else {
        first.path.as_str()
    };
    let line = match first.line {
        Some(n) => decimal_string(n),
        None => "—".to_owned(),
    };
    let created_at = find_first_time(&t.comments);
    let mut header = Line::empty();
    header.push(joined(event_icon("commented"), " ").as_str(), fg(ACTIVITY));
    header.push(joined3("@", first.author.as_str(), " ").as_str(), fg(SUBTEXT0));
    header.push("thread", fg(ACTIVITY).bold());
    header.push(
        joined(joined3("  ", path, ":").as_str(), line.as_str()).as_str(),
        fg(MUTED),
    );
    header.push(joined("  ", activity_when(created_at.as_str()).as_str()).as_str(), fg(OVERLAY0));
    if t.is_resolved {
        header.push(" (resolved)", fg(MUTED));
    }
    let mut body = new_lines();
    let mut raw_body = String::new();
    let mut i: usize = 0;
    while i < t.comments.len()
        invariant
            i <= t.comments@.len(),
            lines_view(body@) == thread_body(t.comments@, width as int, i as int),
            raw_body@ == thread_text(t.comments@, i as int),
        decreases t.comments@.len() - i,
    {
        let c = &t.comments[i];
        push_line(
            &mut body,
            Line::empty().with("   ", Style::plain()).with(
                joined3("@", c.author.as_str(), ":").as_str(),
                fg(SUBTEXT0).bold(),
            ),
        );
        append_lines(&mut body, indented_markdown(c.body.as_str(), width));
        if !raw_body.as_str().is_empty() {
            raw_body.push('\n');
        }
        raw_body.append(
            joined(joined3("@", c.author.as_str(), ": ").as_str(), c.body.as_str()).as_str(),
        );
        i += 1;
    }
    ActivityEvent {
        header_spans: header.spans,
        body,
        raw_body,
        url: find_first_url(&t.comments),
        created_at,
        actor: first.author.clone(),
    }
}

/// The entries of the timeline, then those of the first `n` threads that have
/// comments.
pub open spec fn entries(d: PrDetailResponse, width: int, n: int) -> Seq<ActivityView>
    decreases n,
{
    if n <= 0 {
        d.timeline@.map_values(|e: TimelineEvent| timeline_entry(e, width))
    } else if d.review_threads@[n - 1].comments@.len() == 0 {
        entries(d, width, n - 1)
    } else {
        entries(d, width, n - 1).push(thread_entry(d.review_threads@[n - 1], width))
    }
}

/// Whether `a` is shown above `b`: the newer first, those without a time last.
pub open spec fn newer(a: ActivityView, b: ActivityView) -> bool {
    a.created_at.len() > 0 && (b.created_at.len() == 0 || text_before(b.created_at, a.created_at))
}

pub open spec fn newest_first() -> spec_fn(ActivityView, ActivityView) -> bool {
    |a: ActivityView, b: ActivityView| newer(a, b)
}

fn is_newer(a: &ActivityEvent, b: &ActivityEvent) -> (r: bool)
    ensures
        r == newer(a@, b@),
{
    !a.created_at.as_str().is_empty() && (b.created_at.as_str().is_empty() || comes_before(
        b.created_at.as_str(),
        a.created_at.as_str(),
    ))
}

/// The events of the Activity blade.
pub open spec fn activity_of(detail: Option<PrDetailResponse>, width: int) -> Seq<ActivityView> {
    match detail {
        Some(d) => stable_order(
            entries(d, width, d.review_threads@.len() as int),
            newest_first(),
        ),
        None => Seq::empty(),
    }
}

fn insert_event(events: &mut Vec<ActivityEvent>, event: ActivityEvent, Ghost(so_far): Ghost<Seq<ActivityView>>)
    requires
        activity_view(old(events)@) == stable_order(so_far, newest_first()),
    ensures
        activity_view(final(events)@) == stable_order(so_far.push(event@), newest_first()),
{
    let ghost sorted = activity_view(events@);
    let mut p: usize = events.len();
    while p > 0 && is_newer(&event, &events[p - 1])
        invariant
            p <= events@.len(),
            sorted == activity_view(events@),
            forall|j: int| p <= j < sorted.len() ==> newer(event@, #[trigger] sorted[j]),
        decreases p,
    {
        p -= 1;
        proof {
            assert(sorted[p as int] == events@[p as int]@);
        }
    }
    proof {
        assert(p > 0 ==> sorted[p - 1] == events@[p - 1]@);
        lemma_insert_at(sorted, event@, p as int, newest_first());
        assert(so_far.push(event@).drop_last() =~= so_far);
    }
    let ghost before = events@;
    events.insert(p, event);
    proof {
        assert(activity_view(events@) =~= sorted.insert(p as int, event@));
    }
}

/// Build the structured event list for the Activity blade: timeline events map
/// one to one, each review thread becomes one event, and everything is sorted
/// by descending timestamp; events without one come last, in their order.
pub fn build_activity_events(detail: Option<&PrDetailResponse>, width: usize) -> (r: Vec<
    ActivityEvent,
>)
    ensures
        activity_view(r@) == activity_of(held(detail), width as int),
{
    let mut events: Vec<ActivityEvent> = Vec::new();
    proof {
        assert(activity_view(events@) =~= Seq::empty());
    }
    let d = match detail {
        Some(d) => d,
        None => return events,
    };
    let ghost rows = d.timeline@.map_values(|e: TimelineEvent| timeline_entry(e, width as int));
    let mut i: usize = 0;
    proof {
        assert(rows.take(0) =~= Seq::empty());
    }
    while i < d.timeline.len()
        invariant
            i <= d.timeline@.len(),
            rows == d.timeline@.map_values(|e: TimelineEvent| timeline_entry(e, width as int)),
            activity_view(events@) == stable_order(rows.take(i as int), newest_first()),
        decreases d.timeline@.len() - i,
    {
        let entry = build_timeline_entry(&d.timeline[i], width);
        insert_event(&mut events, entry, Ghost(rows.take(i as int)));
        i += 1;
        proof {
            assert(rows.take(i - 1).push(entry@) =~= rows.take(i as int));
        }
    }
    proof {
        assert(rows.take(rows.len() as int) =~= rows);
    }
    let mut t: usize = 0;
    while t < d.review_threads.len()
        invariant
            t <= d.review_threads@.len(),
            activity_view(events@) == stable_order(
                entries(*d, width as int, t as int),
                newest_first(),
            ),
        decreases d.review_threads@.len() - t,
    {
        let thread = &d.review_threads[t];
        if thread.comments.len() > 0 {
            let entry = build_thread_entry(thread, width);
            insert_event(&mut events, entry, Ghost(entries(*d, width as int, t as int)));
        }
        t += 1;
    }
    events
}

proof fn lemma_newest_first_is_strict()
    ensures
        strict_order(newest_first()),
{
    assert forall|a: ActivityView, b: ActivityView| #[trigger] newest_first()(
        a,
        b,
    ) implies !newest_first()(b, a) by {
        if b.created_at.len() > 0 {
            text_order_is_asymmetric(b.created_at, a.created_at);
        }
    }
    assert forall|a: ActivityView, b: ActivityView, c: ActivityView|
        !#[trigger] newest_first()(b, a) && !#[trigger] newest_first()(
            c,
            b,
        ) implies !newest_first()(c, a) by {
        if c.created_at.len() > 0 && b.created_at.len() > 0 && a.created_at.len() > 0 {
            text_order_is_transitive(c.created_at, b.created_at, a.created_at);
        }
    }
}

/// The Activity blade shows every entry of a detail, as often as it occurs,
/// none above a newer one, and those without a time at the end.
pub proof fn activity_is_newest_first(d: PrDetailResponse, width: int)
    ensures
        activity_of(Some(d), width).to_multiset() == entries(
            d,
            width,
            d.review_threads@.len() as int,
        ).to_multiset(),
        in_order(activity_of(Some(d), width), newest_first()),
        forall|i: int, j: int|
            0 <= i < j < activity_of(Some(d), width).len() && activity_of(
                Some(d),
                width,
            )[i].created_at.len() == 0 ==> activity_of(Some(d), width)[j].created_at.len() == 0,
{
    let all = entries(d, width, d.review_threads@.len() as int);
    lemma_newest_first_is_strict();
    stable_order_sorts(all, newest_first());
    let shown = activity_of(Some(d), width);
    assert forall|i: int, j: int|
        0 <= i < j < shown.len() && shown[i].created_at.len() == 0 implies shown[j].created_at.len()
        == 0 by {
        assert(!newest_first()(shown[j], shown[i]));
    }
}

/// The rows of the summary section.
pub open spec fn summary_rows(detail: Option<PrDetailResponse>, width: int) -> Seq<Seq<SpanView>> {
    match detail {
        None => no_lines(),
        Some(d) => match d.llm_rich_summary {
            Some(rich) => {
                let head = if rich.one_line@.len() > 0 {
                    no_lines().push(row(rich.one_line@, Style::plain().bold()))
                } else {
                    no_lines()
                };
                let catch_up = if rich.catch_up@.len() > 0 {
                    head.push(row("Catch up"@, Style::plain().bold().underlined()))
                        + markdown_text_rows(rich.catch_up@, width)
                } else {
                    head
                };
                if rich.next_steps@.len() > 0 {
                    catch_up.push(row("Next steps"@, Style::plain().bold().underlined()))
                        + markdown_text_rows(rich.next_steps@, width)
                } else {
                    catch_up
                }
            },
            None => match d.llm_summary {
                Some(s) => markdown_text_rows(s@, width),
                None => no_lines(),
            },
        },
    }
}

pub fn build_summary_lines(detail: Option<&PrDetailResponse>, width: usize) -> (r: Vec<Line>)
    ensures
        lines_view(r@) == summary_rows(held(detail), width as int),
{
    let d = match detail {
        Some(d) => d,
        None => return new_lines(),
    };
    if let Some(rich) = &d.llm_rich_summary {
        let mut out = new_lines();
        if !rich.one_line.as_str().is_empty() {
            push_line(&mut out, Line::styled(rich.one_line.as_str(), Style::plain().bold()));
        }
        if !rich.catch_up.as_str().is_empty() {
            push_line(&mut out, Line::styled("Catch up", Style::plain().bold().underlined()));
            append_lines(&mut out, markdown_lines(rich.catch_up.as_str(), width));
        }
        if !rich.next_steps.as_str().is_empty() {
            push_line(&mut out, Line::styled("Next steps", Style::plain().bold().underlined()));
            append_lines(&mut out, markdown_lines(rich.next_steps.as_str(), width));
        }
        return out;
    }
    match &d.llm_summary {
        Some(summary) => markdown_lines(summary.as_str(), width),
        None => new_lines(),
    }
}

/// The rows of the description section.
pub open spec fn description_rows(detail: Option<PrDetailResponse>, width: int) -> Seq<
    Seq<SpanView>,
> {
    match detail {
        Some(d) => if d.body@.len() == 0 {
            no_lines()
        } else {
            markdown_text_rows(d.body@, width)
        },
        None => no_lines(),
    }
}

pub fn build_description_lines(detail: Option<&PrDetailResponse>, width: usize) -> (r: Vec<Line>)
    ensures
        lines_view(r@) == description_rows(held(detail), width as int),
{
    match detail {
        Some(d) => if d.body.as_str().is_empty() {
            new_lines()
        } else {
            markdown_lines(d.body.as_str(), width)
        },
        None => new_lines(),
    }
}

/// Whether a check is success-ish and therefore not a problem: a completed run
/// that succeeded or was skipped or neutral, or a status without a conclusion
/// that succeeded.
pub open spec fn check_passed(status: Seq<char>, conclusion: Option<Seq<char>>) -> bool {
    match conclusion {
        Some(c) => status == "COMPLETED"@ && (c == "SUCCESS"@ || c == "SKIPPED"@ || c
            == "NEUTRAL"@),
        None => status == "SUCCESS"@,
    }
}

pub fn check_is_success(status: &str, conclusion: Option<&str>) -> (r: bool)
    ensures
        r == check_passed(
            status@,
            match conclusion {
                Some(c) => Some(c@),
                None => None,
            },
        ),
{
    match conclusion {
        Some(c) => same_text(status, "COMPLETED") && (same_text(c, "SUCCESS") || same_text(
            c,
            "SKIPPED",
        ) || same_text(c, "NEUTRAL")),
        None => same_text(status, "SUCCESS"),
    }
}

pub open spec fn check_waits(status: Seq<char>) -> bool {
    status == "IN_PROGRESS"@ || status == "QUEUED"@ || status == "PENDING"@ || status
        == "WAITING"@ || status == "REQUESTED"@
}

/// The row of a check that has not succeeded.
pub open spec fn check_row(check: CheckEntry) -> Seq<SpanView> {
    let (icon, color) = if check_waits(check.status@) {
        (ICON_SYNC@, PENDING)
    } else {
        (ICON_CLOSE@, FAIL)
    };
    blank().push(sp(icon + " "@, fg(color))).push(sp(check.name@, fg(TEXT))).push(
        sp(
            "  "@ + match check.conclusion {
                Some(c) => c@,
                None => check.status@,
            },
            fg(MUTED),
        ),
    )
}

/// Whether a check is shown as a problem.
pub open spec fn check_is_problem(check: CheckEntry) -> bool {
    !check_passed(check.status@, opt_text(check.conclusion))
}

/// Merge conflicts, then the first `n` checks that have not succeeded.
pub open spec fn problem_rows_upto(d: PrDetailResponse, n: int) -> Seq<Seq<SpanView>>
    decreases n,
{
    if n <= 0 {
        if d.mergeable == MergeableState::Conflicting {
            no_lines().push(row(ICON_CLOSE@ + " conflicts with base branch"@, fg(FAIL)))
        } else {
            no_lines()
        }
    } else if check_is_problem(d.checks@[n - 1]) {
        problem_rows_upto(d, n - 1).push(check_row(d.checks@[n - 1]))
    } else {
        problem_rows_upto(d, n - 1)
    }
}

/// The rows of the problems section: none where nothing is wrong.
pub open spec fn problem_rows(detail: Option<PrDetailResponse>) -> Seq<Seq<SpanView>> {
    match detail {
        None => no_lines(),
        Some(d) => {
            let rows = problem_rows_upto(d, d.checks@.len() as int);
            if d.checks@.len() > 0 {
                rows
            } else if d.check_status == CheckStatus::Failure {
                rows.push(row("checks: failure"@, fg(FAIL)))
            } else if d.check_status == CheckStatus::Pending {
                rows.push(row("checks: pending"@, fg(PENDING)))
            } else {
                rows
            }
        },
    }
}

/// Build the PROBLEMS section: merge conflicts plus every non-success check
/// (failures, errors, in-progress, queued, legacy pending). Empty when nothing
/// is wrong, which makes the section absent entirely.
pub fn build_problems_lines(detail: Option<&PrDetailResponse>) -> (r: Vec<Line>)
    ensures
        lines_view(r@) == problem_rows(held(detail)),
{
    let d = match detail {
        Some(d) => d,
        None => return new_lines(),
    };
    let mut lines = new_lines();
    if d.mergeable == MergeableState::Conflicting {
        push_line(
            &mut lines,
            Line::styled(joined(ICON_CLOSE, " conflicts with base branch").as_str(), fg(FAIL)),
        );
    }
    let mut i: usize = 0;
    while i < d.checks.len()
        invariant
            i <= d.checks@.len(),
            lines_view(lines@) == problem_rows_upto(*d, i as int),
        decreases d.checks@.len() - i,
    {
        let check = &d.checks[i];
        let conclusion = match &check.conclusion {
            Some(c) => Some(c.as_str()),
            None => None,
        };
        if !check_is_success(check.status.as_str(), conclusion) {
            let status = check.status.as_str();
            let pending = same_text(status, "IN_PROGRESS") || same_text(status, "QUEUED")
                || same_text(status, "PENDING") || same_text(status, "WAITING") || same_text(
                status,
                "REQUESTED",
            );
            let (icon, color) = if pending {
                (ICON_SYNC, PENDING)
            } else {
                (ICON_CLOSE, FAIL)
            };
            let shown = match conclusion {
                Some(c) => c,
                None => status,
            };
            push_line(
                &mut lines,
                Line::empty().with(joined(icon, " ").as_str(), fg(color)).with(
                    check.name.as_str(),
                    fg(TEXT),
                ).with(joined("  ", shown).as_str(), fg(MUTED)),
            );
        }
        i += 1;
    }
    if d.checks.len() == 0 {
        match d.check_status {
            CheckStatus::Failure => push_line(
                &mut lines,
                Line::styled("checks: failure", fg(FAIL)),
            ),
            CheckStatus::Pending => push_line(
                &mut lines,
                Line::styled("checks: pending", fg(PENDING)),
            ),
            _ => {},
        }
    }
    lines
}

proof fn lemma_no_problem_rows(d: PrDetailResponse, n: int)
    requires
        0 <= n <= d.checks@.len(),
        d.mergeable != MergeableState::Conflicting,
        forall|i: int| 0 <= i < d.checks@.len() ==> !check_is_problem(#[trigger] d.checks@[i]),
    ensures
        problem_rows_upto(d, n) == no_lines(),
    decreases n,
{
    if n > 0 {
        lemma_no_problem_rows(d, n - 1);
    }
}

/// The problems section is absent where the branch has no conflicts, every
/// check has succeeded, and the overall state neither fails nor waits.
pub proof fn no_problems_when_green(d: PrDetailResponse)
    requires
        d.mergeable != MergeableState::Conflicting,
        forall|i: int| 0 <= i < d.checks@.len() ==> !check_is_problem(#[trigger] d.checks@[i]),
        d.checks@.len() == 0 ==> d.check_status != CheckStatus::Failure && d.check_status
            != CheckStatus::Pending,
    ensures
        problem_rows(Some(d)).len() == 0,
{
    lemma_no_problem_rows(d, d.checks@.len() as int);
}

/// Columns in front of a diff line's text.
pub open spec fn gutter_cols(numbers: bool) -> int {
    if numbers {
        15
    } else {
        2
    }
}

/// The rows of the first `n` lines of a diff, each with the comments below it.
pub open spec fn rows_of_diff(
    lines: Seq<DiffLineView>,
    width: int,
    numbers: bool,
    comments: Seq<Seq<CommentView>>,
    n: int,
) -> Seq<Seq<SpanView>>
    decreases n,
{
    if n <= 0 {
        no_lines()
    } else {
        let here = shown_below(comments, n - 1);
        rows_of_diff(lines, width, numbers, comments, n - 1) + diff_line_rows(
            lines[n - 1],
            numbers,
            less(width, gutter_cols(numbers)),
        ) + comments_rows(here, width, here.len() as int)
    }
}

/// For each line of a diff, the row at which it begins.
pub open spec fn row_starts(
    lines: Seq<DiffLineView>,
    width: int,
    numbers: bool,
    comments: Seq<Seq<CommentView>>,
) -> Seq<usize> {
    Seq::new(lines.len(), |i: int| rows_of_diff(lines, width, numbers, comments, i).len() as usize)
}

/// Builds rendered diff rows, plus for each parsed line the index of the row
/// at which it begins.
pub fn build_diff_lines(
    parsed: &Vec<ParsedDiffLine>,
    width: usize,
    show_line_numbers: bool,
    comments: &Vec<Vec<ReviewComment>>,
) -> (r: (Vec<Line>, Vec<usize>))
    ensures
        lines_view(r.0@) == rows_of_diff(
            diff_view(parsed@),
            width as int,
            show_line_numbers,
            comment_lists(comments@),
            parsed@.len() as int,
        ),
        r.1@ == row_starts(diff_view(parsed@), width as int, show_line_numbers, comment_lists(comments@)),
{
    let gutter: usize = if show_line_numbers {
        15
    } else {
        2
    };
    let content_width: usize = width.saturating_sub(gutter);
    let ghost all = diff_view(parsed@);
    let mut lines = new_lines();
    let mut starts: Vec<usize> = Vec::new();
    let mut i: usize = 0;
    while i < parsed.len()
        invariant
            i <= parsed@.len(),
            all == diff_view(parsed@),
            content_width == less(width as int, gutter_cols(show_line_numbers)),
            lines_view(lines@) == rows_of_diff(
                all,
                width as int,
                show_line_numbers,
                comment_lists(comments@),
                i as int,
            ),
            starts@.len() == i,
            forall|j: int|
                0 <= j < i ==> #[trigger] starts@[j] == rows_of_diff(
                    all,
                    width as int,
                    show_line_numbers,
                    comment_lists(comments@),
                    j,
                ).len() as usize,
        decreases parsed@.len() - i,
    {
        proof {
            assert(lines_view(lines@).len() == lines@.len());
            assert(all[i as int] == parsed@[i as int]@);
        }
        starts.push(lines.len());
        append_lines(
            &mut lines,
            render_diff_line_internal(&parsed[i], show_line_numbers, content_width),
        );
        if i < comments.len() {
            append_lines(&mut lines, render_inline_comments_internal(&comments[i], width));
        } else {
            proof {
                assert(lines_view(lines@) + no_lines() =~= lines_view(lines@));
            }
        }
        i += 1;
    }
    proof {
        assert(starts@ =~= row_starts(all, width as int, show_line_numbers, comment_lists(comments@)));
    }
    (lines, starts)
}

proof fn lemma_diff_rows_grow(
    lines: Seq<DiffLineView>,
    width: int,
    numbers: bool,
    comments: Seq<Seq<CommentView>>,
    i: int,
    j: int,
)
    requires
        0 <= i < j <= lines.len(),
        width >= 0,
    ensures
        rows_of_diff(lines, width, numbers, comments, i).len() < rows_of_diff(
            lines,
            width,
            numbers,
            comments,
            j,
        ).len(),
    decreases j,
{
    let max = less(width, gutter_cols(numbers));
    assert(wrapped_rows(lines[j - 1].content, max).len() >= 1) by {
        if max > 0 {
            wrapping_loses_nothing(lines[j - 1].content, max);
        }
    }
    if i < j - 1 {
        lemma_diff_rows_grow(lines, width, numbers, comments, i, j - 1);
    }
}

/// Each line of a diff begins below the line before it, so every row belongs
/// to exactly one line.
pub proof fn row_starts_grow(
    lines: Seq<DiffLineView>,
    width: int,
    numbers: bool,
    comments: Seq<Seq<CommentView>>,
    i: int,
    j: int,
)
    requires
        0 <= i < j < lines.len(),
        width >= 0,
        rows_of_diff(lines, width, numbers, comments, lines.len() as int).len() <= usize::MAX,
    ensures
        row_starts(lines, width, numbers, comments)[i] < row_starts(
            lines,
            width,
            numbers,
            comments,
        )[j],
{
    lemma_diff_rows_grow(lines, width, numbers, comments, i, j);
    lemma_diff_rows_grow(lines, width, numbers, comments, j, lines.len() as int);
}

/// What the activity was built from.
#[derive(Debug)]
pub struct ActivityKey {
    pub id: String,
    pub updated_at: String,
    pub width: u16,
    pub fingerprint: (usize, usize, usize, String),
}

#[verifier::ext_equal]
pub struct ActivityKeyView {
    pub id: Seq<char>,
    pub updated_at: Seq<char>,
    pub width: u16,
    pub fingerprint: (usize, usize, usize, Seq<char>),
}

impl View for ActivityKey {
    type V = ActivityKeyView;

    open spec fn view(&self) -> ActivityKeyView {
        ActivityKeyView {
            id: self.id@,
            updated_at: self.updated_at@,
            width: self.width,
            fingerprint: (
                self.fingerprint.0,
                self.fingerprint.1,
                self.fingerprint.2,
                self.fingerprint.3@,
            ),
        }
    }
}

impl ActivityKey {
    fn same(&self, other: &ActivityKey) -> (r: bool)
        ensures
            r == (self@ == other@),
    {
        same_text(self.id.as_str(), other.id.as_str()) && same_text(
            self.updated_at.as_str(),
            other.updated_at.as_str(),
        ) && self.width == other.width && self.fingerprint.0 == other.fingerprint.0
            && self.fingerprint.1 == other.fingerprint.1 && self.fingerprint.2
            == other.fingerprint.2 && same_text(
            self.fingerprint.3.as_str(),
            other.fingerprint.3.as_str(),
        )
    }
}

pub open spec fn activity_key(detail: Option<PrDetailResponse>, width: u16) -> ActivityKeyView {
    ActivityKeyView {
        id: identity(detail).0,
        updated_at: identity(detail).1,
        width,
        fingerprint: fingerprint_of(detail),
    }
}

/// What the overview sections were built from. A detail can be fetched again
/// with the same time of update but a new summary, so the summary's state is
/// part of it.
#[derive(Debug)]
pub struct OverviewKey {
    pub id: String,
    pub updated_at: String,
    pub rich_generated_at: Option<Moment>,
    pub has_summary: bool,
    pub width: u16,
}

#[verifier::ext_equal]
pub struct OverviewKeyView {
    pub id: Seq<char>,
    pub updated_at: Seq<char>,
    pub rich_generated_at: Option<Moment>,
    pub has_summary: bool,
    pub width: u16,
}

impl View for OverviewKey {
    type V = OverviewKeyView;

    open spec fn view(&self) -> OverviewKeyView {
        OverviewKeyView {
            id: self.id@,
            updated_at: self.updated_at@,
            rich_generated_at: self.rich_generated_at,
            has_summary: self.has_summary,
            width: self.width,
        }
    }
}

impl OverviewKey {
    fn same(&self, other: &OverviewKey) -> (r: bool)
        ensures
            r == (self@ == other@),
    {
        let same_moment = match (self.rich_generated_at, other.rich_generated_at) {
            (Some(a), Some(b)) => a.seconds == b.seconds && a.nanos == b.nanos,
            (None, None) => true,
            _ => false,
        };
        same_moment && same_text(self.id.as_str(), other.id.as_str()) && same_text(
            self.updated_at.as_str(),
            other.updated_at.as_str(),
        ) && self.has_summary == other.has_summary && self.width == other.width
    }
}

pub open spec fn overview_key(detail: Option<PrDetailResponse>, width: u16) -> OverviewKeyView {
    OverviewKeyView {
        id: identity(detail).0,
        updated_at: identity(detail).1,
        rich_generated_at: match detail {
            Some(d) => match d.llm_rich_summary {
                Some(r) => Some(r.generated_at),
                None => None,
            },
            None => None,
        },
        has_summary: detail is Some && detail->0.llm_summary is Some,
        width,
    }
}

/// What the diff rows were built from: the pull request, the text, the comments
/// shown among the rows (`None` without a detail), and how it is laid out.
#[derive(Debug)]
pub struct DiffKey {
    pub id: String,
    pub updated_at: String,
    pub diff: Option<String>,
    pub comments: Option<Vec<ReviewComment>>,
    pub width: u16,
    pub show_line_numbers: bool,
}

#[verifier::ext_equal]
pub struct DiffKeyView {
    pub id: Seq<char>,
    pub updated_at: Seq<char>,
    pub diff: Option<Seq<char>>,
    pub comments: Option<Seq<CommentView>>,
    pub width: u16,
    pub show_line_numbers: bool,
}

impl View for DiffKey {
    type V = DiffKeyView;

    open spec fn view(&self) -> DiffKeyView {
        DiffKeyView {
            id: self.id@,
            updated_at: self.updated_at@,
            diff: opt_text(self.diff),
            comments: match self.comments {
                Some(c) => Some(comments_view(c@)),
                None => None,
            },
            width: self.width,
            show_line_numbers: self.show_line_numbers,
        }
    }
}

fn same_comment(a: &ReviewComment, b: &ReviewComment) -> (r: bool)
    ensures
        r == (a@ == b@),
{
    let same_line = match (a.line, b.line) {
        (Some(x), Some(y)) => x == y,
        (None, None) => true,
        _ => false,
    };
    same_line && a.author == b.author && a.body == b.body && a.path == b.path && a.created_at
        == b.created_at && a.url == b.url
}

fn same_comments(a: &Vec<ReviewComment>, b: &Vec<ReviewComment>) -> (r: bool)
    ensures
        r == (comments_view(a@) == comments_view(b@)),
{
    proof {
        assert(comments_view(a@).len() == a@.len());
        assert(comments_view(b@).len() == b@.len());
    }
    if a.len() != b.len() {
        return false;
    }
    let mut i: usize = 0;
    while i < a.len()
        invariant
            i <= a@.len(),
            a@.len() == b@.len(),
            forall|j: int| 0 <= j < i ==> (#[trigger] a@[j])@ == b@[j]@,
        decreases a@.len() - i,
    {
        if !same_comment(&a[i], &b[i]) {
            proof {
                assert(comments_view(a@)[i as int] != comments_view(b@)[i as int]);
            }
            return false;
        }
        i += 1;
    }
    proof {
        assert(comments_view(a@) =~= comments_view(b@));
    }
    true
}

impl DiffKey {
    fn same(&self, other: &DiffKey) -> (r: bool)
        ensures
            r == (self@ == other@),
    {
        let same_diff = match (&self.diff, &other.diff) {
            (Some(a), Some(b)) => *a == *b,
            (None, None) => true,
            _ => false,
        };
        let same_shown = match (&self.comments, &other.comments) {
            (Some(a), Some(b)) => same_comments(a, b),
            (None, None) => true,
            _ => false,
        };
        same_diff && same_shown && same_text(self.id.as_str(), other.id.as_str()) && same_text(
            self.updated_at.as_str(),
            other.updated_at.as_str(),
        ) && self.width == other.width && self.show_line_numbers == other.show_line_numbers
    }
}

pub open spec fn diff_key(
    detail: Option<PrDetailResponse>,
    diff: Option<Seq<char>>,
    width: u16,
    numbers: bool,
) -> DiffKeyView {
    DiffKeyView {
        id: identity(detail).0,
        updated_at: identity(detail).1,
        diff,
        comments: match detail {
            Some(d) => Some(all_comments(d.review_threads@)),
            None => None,
        },
        width,
        show_line_numbers: numbers,
    }
}

/// Cached render artifacts. Each part is keyed on what it was last built from;
/// a `rebuild_*` call is a no-op unless that key differs from the one on file.
#[derive(Debug)]
pub struct RenderCache {
    /// Structured activity events, newest first. Empty when no detail is loaded
    /// or the pull request has no activity.
    pub activity_events: Vec<ActivityEvent>,
    pub activity_key: Option<ActivityKey>,
    /// Flattened diff display rows with inline comments.
    pub diff_lines: Vec<Line>,
    pub diff_key: Option<DiffKey>,
    /// The rows of `diff_lines` at which files begin. Diff lines can wrap into
    /// several rows, so these are not places in the parsed diff.
    pub diff_file_boundaries: Vec<usize>,
    /// For each parsed diff line, the row at which it begins.
    pub diff_line_starts: Vec<usize>,
    /// Overview section bodies. `overview_problems` is empty when nothing is
    /// wrong, which makes the section absent entirely.
    pub overview_summary: Vec<Line>,
    pub overview_description: Vec<Line>,
    pub overview_problems: Vec<Line>,
    pub overview_key: Option<OverviewKey>,
    /// For each line of the parsed diff, the comments shown below it.
    pub diff_comments: Vec<Vec<ReviewComment>>,
}

#[verifier::ext_equal]
pub struct CacheView {
    pub activity_events: Seq<ActivityView>,
    pub activity_key: Option<ActivityKeyView>,
    pub diff_lines: Seq<Seq<SpanView>>,
    pub diff_key: Option<DiffKeyView>,
    pub diff_file_boundaries: Seq<usize>,
    pub diff_line_starts: Seq<usize>,
    pub overview_summary: Seq<Seq<SpanView>>,
    pub overview_description: Seq<Seq<SpanView>>,
    pub overview_problems: Seq<Seq<SpanView>>,
    pub overview_key: Option<OverviewKeyView>,
    pub diff_comments: Seq<Seq<CommentView>>,
}

/// The comments of each line.
pub open spec fn comment_lists(v: Seq<Vec<ReviewComment>>) -> Seq<Seq<CommentView>> {
    v.map_values(|c: Vec<ReviewComment>| comments_view(c@))
}

impl View for RenderCache {
    type V = CacheView;

    open spec fn view(&self) -> CacheView {
        CacheView {
            activity_events: activity_view(self.activity_events@),
            activity_key: match self.activity_key {
                Some(k) => Some(k@),
                None => None,
            },
            diff_lines: lines_view(self.diff_lines@),
            diff_key: match self.diff_key {
                Some(k) => Some(k@),
                None => None,
            },
            diff_file_boundaries: self.diff_file_boundaries@,
            diff_line_starts: self.diff_line_starts@,
            overview_summary: lines_view(self.overview_summary@),
            overview_description: lines_view(self.overview_description@),
            overview_problems: lines_view(self.overview_problems@),
            overview_key: match self.overview_key {
                Some(k) => Some(k@),
                None => None,
            },
            diff_comments: comment_lists(self.diff_comments@),
        }
    }
}

/// The cache with everything that is built from a diff as `key` asks for it:
/// the comments of each line, the rows, the row of each line, and the rows at
/// which files begin. All of it is empty where there is no diff.
pub open spec fn diff_built(cache: CacheView, key: DiffKeyView) -> CacheView {
    match key.diff {
        None => CacheView {
            diff_key: Some(key),
            diff_lines: no_lines(),
            diff_comments: Seq::empty(),
            diff_file_boundaries: Seq::empty(),
            diff_line_starts: Seq::empty(),
            ..cache
        },
        Some(text) => {
            let lines = diff_lines(text_lines(text));
            let width = key.width as int;
            let numbers = key.show_line_numbers;
            let comments = match key.comments {
                Some(all) => Seq::new(lines.len(), |i: int| comments_below(all, lines, i)),
                None => Seq::empty(),
            };
            let starts = row_starts(lines, width, numbers, comments);
            CacheView {
                diff_key: Some(key),
                diff_comments: comments,
                diff_lines: rows_of_diff(lines, width, numbers, comments, lines.len() as int),
                diff_line_starts: starts,
                diff_file_boundaries: file_places(lines, lines.len() as int).map_values(
                    |p: usize| starts[p as int],
                ),
                ..cache
            }
        },
    }
}

/// The comments shown below line `i`.
pub open spec fn shown_below(comments: Seq<Seq<CommentView>>, i: int) -> Seq<CommentView> {
    if 0 <= i < comments.len() {
        comments[i]
    } else {
        Seq::empty()
    }
}

impl CacheView {
    pub open spec fn fresh() -> CacheView {
        CacheView {
            activity_events: Seq::empty(),
            activity_key: None,
            diff_lines: no_lines(),
            diff_key: None,
            diff_file_boundaries: Seq::empty(),
            diff_line_starts: Seq::empty(),
            overview_summary: no_lines(),
            overview_description: no_lines(),
            overview_problems: no_lines(),
            overview_key: None,
            diff_comments: Seq::empty(),
        }
    }

    #[verifier::opaque]
    pub open spec fn with_activity(self, detail: Option<PrDetailResponse>, width: u16) -> CacheView {
        let key = activity_key(detail, width);
        if self.activity_key == Some(key) {
            self
        } else {
            CacheView {
                activity_events: activity_of(detail, width as int),
                activity_key: Some(key),
                ..self
            }
        }
    }

    #[verifier::opaque]
    pub open spec fn with_overview(self, detail: Option<PrDetailResponse>, width: u16) -> CacheView {
        let key = overview_key(detail, width);
        if self.overview_key == Some(key) {
            self
        } else {
            CacheView {
                overview_summary: summary_rows(detail, width as int),
                overview_description: description_rows(detail, width as int),
                overview_problems: problem_rows(detail),
                overview_key: Some(key),
                ..self
            }
        }
    }

    #[verifier::opaque]
    pub open spec fn with_diff(
        self,
        detail: Option<PrDetailResponse>,
        diff: Option<Seq<char>>,
        width: u16,
        numbers: bool,
    ) -> CacheView {
        let key = diff_key(detail, diff, width, numbers);
        if self.diff_key == Some(key) {
            self
        } else {
            diff_built(self, key)
        }
    }
}

impl Default for RenderCache {
    fn default() -> (r: Self)
        ensures
            r@ == CacheView::fresh(),
    {
        RenderCache::new()
    }
}

impl RenderCache {
    pub fn new() -> (r: Self)
        ensures
            r@ == CacheView::fresh(),
    {
        let r = RenderCache {
            activity_events: Vec::new(),
            activity_key: None,
            diff_lines: Vec::new(),
            diff_key: None,
            diff_file_boundaries: Vec::new(),
            diff_line_starts: Vec::new(),
            overview_summary: Vec::new(),
            overview_description: Vec::new(),
            overview_problems: Vec::new(),
            overview_key: None,
            diff_comments: Vec::new(),
        };
        proof {
            assert(r@ =~= CacheView::fresh());
        }
        r
    }

    /// Rebuild activity cache if the detail's identity, content fingerprint, or
    /// `width` changed.
    pub fn rebuild_activity(&mut self, detail: Option<&PrDetailResponse>, width: u16)
        ensures
            final(self)@ == old(self)@.with_activity(held(detail), width),
    {
        proof {
            reveal(CacheView::with_activity);
        }
        let (id, updated_at) = detail_identity(detail);
        let key = ActivityKey { id, updated_at, width, fingerprint: activity_fingerprint(detail) };
        if let Some(held_key) = &self.activity_key {
            if held_key.same(&key) {
                return;
            }
        }
        self.activity_events = build_activity_events(detail, width as usize);
        self.activity_key = Some(key);
    }

    /// Rebuild diff cache if the detail's identity or comments, the diff text,
    /// `width`, or `show_line_numbers` changed.
    pub fn rebuild_diff(
        &mut self,
        detail: Option<&PrDetailResponse>,
        diff_text: Option<&str>,
        width: u16,
        show_line_numbers: bool,
    )
        ensures
            final(self)@ == old(self)@.with_diff(
                held(detail),
                match diff_text {
                    Some(t) => Some(t@),
                    None => None,
                },
                width,
                show_line_numbers,
            ),
    {
        proof {
            reveal(CacheView::with_diff);
        }
        let (id, updated_at) = detail_identity(detail);
        let diff = match diff_text {
            Some(t) => Some(t.to_owned()),
            None => None,
        };
        let comments = match detail {
            Some(d) => Some(gather_comments(&d.review_threads)),
            None => None,
        };
        let key = DiffKey { id, updated_at, diff, comments, width, show_line_numbers };
        if let Some(held_key) = &self.diff_key {
            if held_key.same(&key) {
                return;
            }
        }
        self.diff_lines = new_lines();
        self.diff_comments = Vec::new();
        self.diff_file_boundaries = Vec::new();
        self.diff_line_starts = Vec::new();
        self.diff_key = Some(key);
        proof {
            assert(comment_lists(self.diff_comments@) =~= Seq::empty());
        }
        let text = match diff_text {
            Some(t) => t,
            None => return,
        };
        let parsed = parse_diff(text);
        let ghost lines = diff_lines(text_lines(text@));
        if let Some(d) = detail {
            self.diff_comments = map_review_threads_to_diff_indices(&d.review_threads, &parsed);
            proof {
                assert(lines.len() == parsed@.len());
                assert(comment_lists(self.diff_comments@) =~= Seq::new(
                    lines.len(),
                    |i: int| comments_below(all_comments(d.review_threads@), lines, i),
                ));
            }
        }
        let ghost comments = comment_lists(self.diff_comments@);
        let (rows, starts) = build_diff_lines(
            &parsed,
            width as usize,
            show_line_numbers,
            &self.diff_comments,
        );
        let places = find_file_boundaries(&parsed);
        let mut boundaries: Vec<usize> = Vec::new();
        let ghost want = places@.map_values(|p: usize| starts@[p as int]);
        let mut i: usize = 0;
        proof {
            assert(boundaries@ =~= want.take(0));
            assert(lines.len() == parsed@.len());
        }
        while i < places.len()
            invariant
                i <= places@.len(),
                want == places@.map_values(|p: usize| starts@[p as int]),
                forall|k: int| 0 <= k < places@.len() ==> (#[trigger] places@[k]) < starts@.len(),
                boundaries@ == want.take(i as int),
            decreases places@.len() - i,
        {
            boundaries.push(starts[places[i]]);
            i += 1;
            proof {
                assert(boundaries@ =~= want.take(i as int));
            }
        }
        proof {
            assert(want.take(places@.len() as int) =~= want);
        }
        self.diff_lines = rows;
        self.diff_file_boundaries = boundaries;
        self.diff_line_starts = starts;
    }

    /// Rebuild overview caches if the detail's identity (including whether a
    /// summary has since arrived) or `description_width` changed.
    pub fn rebuild_overview(&mut self, detail: Option<&PrDetailResponse>, description_width: u16)
        ensures
            final(self)@ == old(self)@.with_overview(held(detail), description_width),
    {
        proof {
            reveal(CacheView::with_overview);
        }
        let (id, updated_at) = detail_identity(detail);
        let rich_generated_at = match detail {
            Some(d) => match &d.llm_rich_summary {
                Some(r) => Some(r.generated_at),
                None => None,
            },
            None => None,
        };
        let has_summary = match detail {
            Some(d) => d.llm_summary.is_some(),
            None => false,
        };
        let key = OverviewKey {
            id,
            updated_at,
            rich_generated_at,
            has_summary,
            width: description_width,
        };
        if let Some(held_key) = &self.overview_key {
            if held_key.same(&key) {
                return;
            }
        }
        self.overview_summary = build_summary_lines(detail, description_width as usize);
        self.overview_description = build_description_lines(detail, description_width as usize);
        self.overview_problems = build_problems_lines(detail);
        self.overview_key = Some(key);
    }
}

/// Rebuilding twice from the same data rebuilds once.
pub proof fn rebuilding_again_changes_nothing(
    cache: CacheView,
    detail: Option<PrDetailResponse>,
    diff: Option<Seq<char>>,
    width: u16,
    numbers: bool,
)
    ensures
        cache.with_activity(detail, width).with_activity(detail, width) == cache.with_activity(
            detail,
            width,
        ),
        cache.with_overview(detail, width).with_overview(detail, width) == cache.with_overview(
            detail,
            width,
        ),
        cache.with_diff(detail, diff, width, numbers).with_diff(detail, diff, width, numbers)
            == cache.with_diff(detail, diff, width, numbers),
{
    reveal(CacheView::with_activity);
    reveal(CacheView::with_overview);
    reveal(CacheView::with_diff);
}

impl CacheView {
    /// What is cached of a diff is what its key asks for.
    pub open spec fn diff_in_step(self) -> bool {
        self.diff_key matches Some(key) ==> self == diff_built(self, key)
    }
}

/// Whatever diff was cached before, rebuilding leaves nothing of it: rows,
/// starts and file boundaries are those of a new cache built from the same data.
pub proof fn rebuilt_diff_is_new(
    cache: CacheView,
    detail: Option<PrDetailResponse>,
    diff: Option<Seq<char>>,
    width: u16,
    numbers: bool,
)
    requires
        cache.diff_in_step(),
    ensures
        ({
            let after = cache.with_diff(detail, diff, width, numbers);
            let new = CacheView::fresh().with_diff(detail, diff, width, numbers);
            &&& after.diff_lines == new.diff_lines
            &&& after.diff_line_starts == new.diff_line_starts
            &&& after.diff_file_boundaries == new.diff_file_boundaries
            &&& after.diff_comments == new.diff_comments
        }),
{
    reveal(CacheView::with_diff);
}

/// A new cache is in step with its key, and every rebuild leaves it so.
pub proof fn cached_diff_stays_in_step(
    cache: CacheView,
    detail: Option<PrDetailResponse>,
    diff: Option<Seq<char>>,
    width: u16,
    numbers: bool,
)
    requires
        cache.diff_in_step(),
    ensures
        CacheView::fresh().diff_in_step(),
        cache.with_diff(detail, diff, width, numbers).diff_in_step(),
        cache.with_activity(detail, width).diff_in_step(),
        cache.with_overview(detail, width).diff_in_step(),
{
    reveal(CacheView::with_activity);
    reveal(CacheView::with_overview);
    reveal(CacheView::with_diff);
}

/// Without a detail and a diff, nothing of an earlier pull request is left:
/// unless the cache was built from just that, every part is empty.
pub proof fn deselecting_empties_cache(cache: CacheView, width: u16, numbers: bool)
    requires
        cache.activity_key != Some(activity_key(None, width)),
        cache.overview_key != Some(overview_key(None, width)),
        cache.diff_key != Some(diff_key(None, None, width, numbers)),
    ensures
        ({
            let after = cache.with_activity(None, width).with_overview(None, width).with_diff(
                None,
                None,
                width,
                numbers,
            );
            after.activity_events.len() == 0 && after.overview_summary.len() == 0
                && after.overview_description.len() == 0 && after.overview_problems.len() == 0
                && after.diff_lines.len() == 0 && after.diff_file_boundaries.len() == 0
                && after.diff_line_starts.len() == 0
        }),
{
    reveal(CacheView::with_activity);
    reveal(CacheView::with_overview);
    reveal(CacheView::with_diff);
}

} // verus!
