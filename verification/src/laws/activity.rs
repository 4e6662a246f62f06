//! The Activity blade: what each event and each review thread is shown as.
use vstd::prelude::*;

use crate::api::PrDetailResponse;
use crate::cache::{
    activity_is_newest_first, activity_of, entries, first_time, first_url, indented_rows, newest_first,
    thread_body, thread_entry, thread_text, timeline_entry, ActivityView,
};
use crate::draw::{blank, fg, less, row, sp, SpanView, Style};
use crate::github::{ReviewComment, ReviewThread, TimelineEvent, TimelineEventType};
use crate::markdown::markdown_text_rows;
use crate::sort::{lexically_less, text_before, text_order_is_lexical};
use crate::state::event_rows;
use crate::text::decimal;
use crate::theme::SUBTEXT0;
use crate::views::activity::short_time_of;

verus! {

/// The row that names who wrote a comment.
pub open spec fn author_row(c: ReviewComment) -> Seq<SpanView> {
    seq![
        sp("   "@, Style::plain()),
        sp("@"@ + c.author@ + ":"@, fg(SUBTEXT0).bold()),
    ]
}

/// Whether `rows` are the Markdown rows of `text` for `width` columns, each set
/// in by three.
pub open spec fn set_in(rows: Seq<Seq<SpanView>>, text: Seq<char>, width: int) -> bool {
    let inner = markdown_text_rows(text, less(width, 3));
    &&& rows.len() == inner.len()
    &&& forall|i: int|
        0 <= i < rows.len() ==> #[trigger] rows[i] == seq![sp("   "@, Style::plain())] + inner[i]
}

proof fn lemma_set_in(text: Seq<char>, width: int)
    ensures
        set_in(indented_rows(text, width), text, width),
{
    let rows = indented_rows(text, width);
    let inner = markdown_text_rows(text, less(width, 3));
    assert forall|i: int| 0 <= i < rows.len() implies #[trigger] rows[i] == seq![
        sp("   "@, Style::plain()),
    ] + inner[i] by {
        assert(row("   "@, Style::plain()) =~= seq![sp("   "@, Style::plain())]);
    }
}

proof fn lemma_body_prefix(a: Seq<ReviewComment>, b: Seq<ReviewComment>, width: int, n: int)
    requires
        0 <= n <= a.len() <= b.len(),
        forall|i: int| 0 <= i < n ==> a[i] == b[i],
    ensures
        thread_body(a, width, n) == thread_body(b, width, n),
        thread_text(a, n) == thread_text(b, n),
    decreases n,
{
    if n > 0 {
        lemma_body_prefix(a, b, width, n - 1);
    }
}

/// A reply adds to the event of its thread a row that names its own author,
/// then the rows of its own text, and nothing else; so in the plain text.
pub proof fn reply_is_shown_below(
    thread: ReviewThread,
    longer: ReviewThread,
    c: ReviewComment,
    width: int,
)
    requires
        longer.comments@ == thread.comments@.push(c),
        thread.comments@.len() > 0,
    ensures
        ({
            let before = thread_entry(thread, width).body;
            let after = thread_entry(longer, width).body;
            &&& after.len() > before.len()
            &&& after.take(before.len() as int) == before
            &&& after[before.len() as int] == author_row(c)
            &&& set_in(after.skip(before.len() as int + 1), c.body@, width)
        }),
        thread_entry(longer, width).raw_body == thread_entry(thread, width).raw_body + "\n@"@
            + c.author@ + ": "@ + c.body@,
{
    let a = thread.comments@;
    let b = longer.comments@;
    let n = a.len() as int;
    lemma_body_prefix(a, b, width, n);
    let before = thread_body(a, width, n);
    let after = thread_body(b, width, n + 1);
    let rows = indented_rows(c.body@, width);
    lemma_set_in(c.body@, width);
    assert(after =~= before.push(author_row(c)) + rows) by {
        assert(blank().push(sp("   "@, Style::plain())).push(
            sp("@"@ + c.author@ + ":"@, fg(SUBTEXT0).bold()),
        ) =~= author_row(c));
    }
    assert(after.take(before.len() as int) =~= before);
    assert(after.skip(before.len() as int + 1) =~= rows);
    reveal_strlit("@");
    reveal_strlit("\n@");
    lemma_text_some(a, n);
    assert(thread_entry(longer, width).raw_body =~= thread_entry(thread, width).raw_body + "\n@"@
        + c.author@ + ": "@ + c.body@);
}

proof fn lemma_text_some(comments: Seq<ReviewComment>, n: int)
    requires
        0 < n <= comments.len(),
    ensures
        thread_text(comments, n).len() > 0,
{
    reveal_strlit("@");
}

/// A thread of one comment shows that comment: its author, then its text.
pub proof fn opening_comment_is_shown(thread: ReviewThread, c: ReviewComment, width: int)
    requires
        thread.comments@ == seq![c],
    ensures
        thread_entry(thread, width).body.len() >= 1,
        thread_entry(thread, width).body[0] == author_row(c),
        set_in(thread_entry(thread, width).body.skip(1), c.body@, width),
        thread_entry(thread, width).raw_body == "@"@ + c.author@ + ": "@ + c.body@,
{
    let a = thread.comments@;
    lemma_set_in(c.body@, width);
    let rows = indented_rows(c.body@, width);
    assert(thread_body(a, width, 0).len() == 0);
    assert(thread_text(a, 0).len() == 0);
    let body = thread_body(a, width, 1);
    assert(body =~= seq![author_row(c)] + rows) by {
        assert(blank().push(sp("   "@, Style::plain())).push(
            sp("@"@ + c.author@ + ":"@, fg(SUBTEXT0).bold()),
        ) =~= author_row(c));
    }
    assert(body.skip(1) =~= rows);
    assert(thread_entry(thread, width).raw_body =~= "@"@ + c.author@ + ": "@ + c.body@);
}

proof fn lemma_first_time(comments: Seq<ReviewComment>, i: int)
    requires
        0 <= i,
    ensures
        forall|k: int|
            i <= k < comments.len() && (forall|j: int|
                i <= j < k ==> (#[trigger] comments[j]).created_at@.len() == 0)
                && comments[k].created_at@.len() > 0 ==> first_time(comments, i)
                == #[trigger] comments[k].created_at@,
        (forall|j: int|
            i <= j < comments.len() ==> (#[trigger] comments[j]).created_at@.len() == 0)
            ==> first_time(comments, i).len() == 0,
    decreases comments.len() - i,
{
    if i < comments.len() && comments[i].created_at@.len() == 0 {
        lemma_first_time(comments, i + 1);
    }
}

proof fn lemma_first_url(comments: Seq<ReviewComment>, i: int)
    requires
        0 <= i,
    ensures
        forall|k: int|
            i <= k < comments.len() && (forall|j: int|
                i <= j < k ==> (#[trigger] comments[j]).url@.len() == 0) && comments[k].url@.len()
                > 0 ==> first_url(comments, i) == #[trigger] comments[k].url@,
        (forall|j: int| i <= j < comments.len() ==> (#[trigger] comments[j]).url@.len() == 0)
            ==> first_url(comments, i).len() == 0,
    decreases comments.len() - i,
{
    if i < comments.len() && comments[i].url@.len() == 0 {
        lemma_first_url(comments, i + 1);
    }
}

/// The header of a thread names who opened it, on which line of which file,
/// when, and whether it is resolved. Time and address are those of the first
/// comment that has any.
pub proof fn thread_header_tells_the_thread(t: ReviewThread, width: int)
    requires
        t.comments@.len() > 0,
    ensures
        ({
            let e = thread_entry(t, width);
            let first = t.comments@[0];
            let comments = t.comments@;
            &&& e.actor == first.author@
            &&& e.header[1].text == "@"@ + first.author@ + " "@
            &&& first.path@.len() > 0 && first.line is Some ==> e.header[3].text == "  "@
                + first.path@ + ":"@ + decimal(first.line->0 as nat)
            &&& first.path@.len() > 0 && first.line is None ==> e.header[3].text == "  "@
                + first.path@ + ":"@ + "—"@
            &&& e.created_at.len() > 0 ==> e.header[4].text == "  "@ + short_time_of(e.created_at)
            &&& e.created_at.len() == 0 ==> e.header[4].text == "  "@ + "—"@
            &&& t.is_resolved ==> e.header.len() == 6 && e.header[5].text == " (resolved)"@
            &&& !t.is_resolved ==> e.header.len() == 5
            &&& forall|k: int|
                0 <= k < comments.len() && (forall|j: int|
                    0 <= j < k ==> (#[trigger] comments[j]).created_at@.len() == 0)
                    && comments[k].created_at@.len() > 0 ==> e.created_at
                    == #[trigger] comments[k].created_at@
            &&& forall|k: int|
                0 <= k < comments.len() && (forall|j: int|
                    0 <= j < k ==> (#[trigger] comments[j]).url@.len() == 0)
                    && comments[k].url@.len() > 0 ==> e.url == #[trigger] comments[k].url@
        }),
{
    lemma_first_time(t.comments@, 0);
    lemma_first_url(t.comments@, 0);
}

/// What people do, by the kind of event.
pub open spec fn deed(kind: TimelineEventType) -> Seq<char> {
    match kind {
        TimelineEventType::Comment => "commented"@,
        TimelineEventType::Review => "reviewed"@,
        TimelineEventType::Commit => "pushed"@,
        TimelineEventType::ForcePush => "force-pushed"@,
        TimelineEventType::ReadyForReview => "readied"@,
        TimelineEventType::ReviewRequested => "requested"@,
        TimelineEventType::Merged => "merged"@,
        TimelineEventType::Closed => "closed"@,
        TimelineEventType::Reopened => "reopened"@,
        TimelineEventType::Other => "acted"@,
    }
}

/// A timeline event shows who did what and when, and below it what was said;
/// it keeps its own text, address and time.
pub proof fn timeline_event_tells_itself(e: TimelineEvent, width: int)
    ensures
        ({
            let v = timeline_entry(e, width);
            &&& v.header.len() == 4
            &&& v.header[1].text == "@"@ + e.actor@ + " "@
            &&& v.header[2].text == deed(e.event_type)
            &&& e.created_at@.len() > 0 ==> v.header[3].text == "  "@ + short_time_of(e.created_at@)
            &&& e.created_at@.len() == 0 ==> v.header[3].text == "  "@ + "—"@
            &&& e.detail@.len() > 0 ==> set_in(v.body, e.detail@, width)
            &&& e.detail@.len() == 0 ==> v.body.len() == 0
            &&& v.raw_body == e.detail@
            &&& v.url == e.url@
            &&& v.created_at == e.created_at@
            &&& v.actor == e.actor@
        }),
{
    lemma_set_in(e.detail@, width);
}

/// How many of the first `n` threads have comments.
pub open spec fn spoken(threads: Seq<ReviewThread>, n: int) -> nat
    decreases n,
{
    if n <= 0 {
        0
    } else {
        spoken(threads, n - 1) + if threads[n - 1].comments@.len() > 0 {
            1nat
        } else {
            0nat
        }
    }
}

proof fn lemma_entries(d: PrDetailResponse, width: int, n: int)
    requires
        0 <= n <= d.review_threads@.len(),
    ensures
        entries(d, width, n).len() == d.timeline@.len() + spoken(d.review_threads@, n),
        forall|i: int|
            0 <= i < d.timeline@.len() ==> entries(d, width, n).contains(
                timeline_entry(#[trigger] d.timeline@[i], width),
            ),
        forall|i: int|
            0 <= i < n && (#[trigger] d.review_threads@[i]).comments@.len() > 0 ==> entries(
                d,
                width,
                n,
            ).contains(thread_entry(d.review_threads@[i], width)),
    decreases n,
{
    if n == 0 {
        let all = entries(d, width, 0);
        assert forall|i: int| 0 <= i < d.timeline@.len() implies all.contains(
            timeline_entry(#[trigger] d.timeline@[i], width),
        ) by {
            assert(all[i] == timeline_entry(d.timeline@[i], width));
        }
    } else {
        lemma_entries(d, width, n - 1);
        let before = entries(d, width, n - 1);
        let all = entries(d, width, n);
        if d.review_threads@[n - 1].comments@.len() > 0 {
            assert forall|x: ActivityView| before.contains(x) implies #[trigger] all.contains(x) by {
                let k = choose|k: int| 0 <= k < before.len() && before[k] == x;
                assert(all[k] == x);
            }
            assert(all[before.len() as int] == thread_entry(d.review_threads@[n - 1], width));
        }
    }
}

/// The Activity blade shows every timeline event and every thread that has
/// comments, and nothing besides; the newer stands above the older, and what
/// has no time stands last.
pub proof fn activity_shows_all_newest_first(d: PrDetailResponse, width: int)
    ensures
        ({
            let shown = activity_of(Some(d), width);
            &&& shown.len() == d.timeline@.len() + spoken(
                d.review_threads@,
                d.review_threads@.len() as int,
            )
            &&& forall|i: int|
                0 <= i < d.timeline@.len() ==> shown.contains(
                    timeline_entry(#[trigger] d.timeline@[i], width),
                )
            &&& forall|i: int|
                0 <= i < d.review_threads@.len() && (#[trigger] d.review_threads@[i]).comments@.len()
                    > 0 ==> shown.contains(thread_entry(d.review_threads@[i], width))
            &&& forall|i: int, j: int|
                0 <= i < j < shown.len() ==> !lexically_less(
                    (#[trigger] shown[i]).created_at,
                    (#[trigger] shown[j]).created_at,
                )
        }),
        activity_of(None, width).len() == 0,
{
    broadcast use vstd::seq_lib::group_to_multiset_ensures;

    activity_is_newest_first(d, width);
    let n = d.review_threads@.len() as int;
    lemma_entries(d, width, n);
    let all = entries(d, width, n);
    let shown = activity_of(Some(d), width);
    assert(shown.len() == shown.to_multiset().len());
    assert(all.len() == all.to_multiset().len());
    assert forall|x: ActivityView| all.contains(x) implies #[trigger] shown.contains(x) by {
        assert(all.to_multiset().contains(x));
        assert(shown.to_multiset().contains(x));
    }
    assert forall|i: int, j: int| 0 <= i < j < shown.len() implies !lexically_less(
        (#[trigger] shown[i]).created_at,
        (#[trigger] shown[j]).created_at,
    ) by {
        assert(!newest_first()(shown[j], shown[i]));
        text_order_is_lexical(shown[i].created_at, shown[j].created_at);
        if shown[j].created_at.len() == 0 {
            assert(!text_before(shown[i].created_at, shown[j].created_at));
        }
    }
}

/// An event that is expanded shows all its rows; one that is not shows the
/// first four, and where more are hidden how many.
pub proof fn collapsed_event_shows_four_rows(
    e: ActivityView,
    selected: bool,
    expanded: bool,
    width: int,
)
    ensures
        ({
            let rows = event_rows(e, selected, expanded, width);
            let kept: int = if expanded || e.body.len() <= 4 {
                e.body.len() as int
            } else {
                4
            };
            let hidden = e.body.len() - kept;
            &&& rows.len() == 1 + kept + (if hidden > 0 {
                1int
            } else {
                0int
            })
            &&& forall|i: int| 0 <= i < kept ==> #[trigger] rows[1 + i] == e.body[i]
            &&& hidden == 1 ==> rows.last()[0].text == "   … (+"@ + decimal(1)
                + " more line) — ⏎ expand"@
            &&& hidden > 1 ==> rows.last()[0].text == "   … (+"@ + decimal(hidden as nat)
                + " more lines) — ⏎ expand"@
        }),
{
}

proof fn lemma_ascii_place(s: Seq<char>, i: int, target: int)
    requires
        0 <= i <= target <= s.len(),
        forall|k: int| 0 <= k < s.len() ==> (#[trigger] s[k] as u32) < 0x80,
    ensures
        crate::split::chars_at_byte(s, i, i, target) == Some(target),
    decreases target - i,
{
    if i < target {
        assert((s[i] as u32) < 0x80);
        lemma_ascii_place(s, i + 1, target);
    }
}

/// Of a timestamp in plain characters the day and the time stay, without the
/// year and the seconds.
pub proof fn short_time_keeps_day_and_time(s: Seq<char>)
    requires
        s.len() >= 16,
        forall|k: int| 0 <= k < s.len() ==> (#[trigger] s[k] as u32) < 0x80,
    ensures
        short_time_of(s) == s.subrange(5, 10) + " "@ + s.subrange(11, 16),
{
    lemma_ascii_place(s, 0, 5);
    lemma_ascii_place(s, 0, 10);
    lemma_ascii_place(s, 0, 11);
    lemma_ascii_place(s, 0, 16);
}

/// Each kind of event has its sign.
pub proof fn events_have_their_sign(e: TimelineEvent, width: int)
    ensures
        ({
            let sign = timeline_entry(e, width).header[0].text;
            &&& e.event_type == TimelineEventType::Comment ==> sign == crate::theme::ICON_COMMENT@
                + " "@
            &&& e.event_type == TimelineEventType::Review ==> sign == crate::theme::ICON_EYE@ + " "@
            &&& e.event_type == TimelineEventType::Commit ==> sign == crate::theme::ICON_COMMIT@
                + " "@
            &&& e.event_type == TimelineEventType::Merged ==> sign == crate::theme::ICON_MERGE@
                + " "@
            &&& e.event_type == TimelineEventType::Closed ==> sign == crate::theme::ICON_PR_CLOSED@
                + " "@
        }),
{
    reveal_strlit("opened");
    reveal_strlit("commented");
    reveal_strlit("reviewed");
    reveal_strlit("pushed");
    reveal_strlit("force-pushed");
    reveal_strlit("readied");
    reveal_strlit("requested");
    reveal_strlit("merged");
    reveal_strlit("closed");
    assert("opened"@.len() == 6 && "commented"@.len() == 9 && "reviewed"@.len() == 8);
    assert("pushed"@.len() == 6 && "force-pushed"@.len() == 12 && "readied"@.len() == 7);
    assert("requested"@.len() == 9 && "merged"@.len() == 6 && "closed"@.len() == 6);
    assert("opened"@[0] == 'o' && "pushed"@[0] == 'p' && "merged"@[0] == 'm' && "closed"@[0]
        == 'c');
}

} // verus!
