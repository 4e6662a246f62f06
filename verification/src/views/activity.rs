//! The Activity blade: words, colours and icons of timeline events.
use vstd::prelude::*;

use crate::component::RenderContext;
use crate::draw::{bg, fg, fill_op, line_op, lines_view, row, Color, Line, OpView, Rect, Scene};
use crate::github::TimelineEventType;
use crate::primitives::{viewport_ops, ScrollViewport};
use crate::split::{byte_place, chars_at_byte, find_byte, utf8_size};
use crate::state::Pane;
use crate::text::{chars_of, joined3, same_text, string_of};
use crate::theme::{
    ACTIVITY, ADD, DRAFT, FAIL, ICON_CHECK, ICON_COMMENT, ICON_COMMIT, ICON_DASH, ICON_EYE,
    ICON_FORCE_PUSH, ICON_MERGE, ICON_PERSON_ADD, ICON_PR, ICON_PR_CLOSED, ICON_REOPEN,
    ICON_REQUEST_CHANGES, ICON_ROCKET, MANTLE, MUTED, OVERVIEW, PASS, TEXT,
};

verus! {

/// The verb of a timeline event and its colour.
pub open spec fn verb_of(event_type: TimelineEventType) -> (Seq<char>, Color) {
    match event_type {
        TimelineEventType::Comment => ("commented"@, ACTIVITY),
        TimelineEventType::Review => ("reviewed"@, PASS),
        TimelineEventType::Commit => ("pushed"@, OVERVIEW),
        TimelineEventType::ForcePush => ("force-pushed"@, FAIL),
        TimelineEventType::ReadyForReview => ("readied"@, ADD),
        TimelineEventType::ReviewRequested => ("requested"@, DRAFT),
        TimelineEventType::Merged => ("merged"@, ADD),
        TimelineEventType::Closed => ("closed"@, FAIL),
        TimelineEventType::Reopened => ("reopened"@, ADD),
        TimelineEventType::Other => ("acted"@, MUTED),
    }
}

pub fn timeline_verb(event_type: TimelineEventType) -> (r: (&'static str, Color))
    ensures
        (r.0@, r.1) == verb_of(event_type),
{
    match event_type {
        TimelineEventType::Comment => ("commented", ACTIVITY),
        TimelineEventType::Review => ("reviewed", PASS),
        TimelineEventType::Commit => ("pushed", OVERVIEW),
        TimelineEventType::ForcePush => ("force-pushed", FAIL),
        TimelineEventType::ReadyForReview => ("readied", ADD),
        TimelineEventType::ReviewRequested => ("requested", DRAFT),
        TimelineEventType::Merged => ("merged", ADD),
        TimelineEventType::Closed => ("closed", FAIL),
        TimelineEventType::Reopened => ("reopened", ADD),
        TimelineEventType::Other => ("acted", MUTED),
    }
}

/// The icon of a verb.
pub open spec fn icon_of(verb: Seq<char>) -> Seq<char> {
    if verb == "opened"@ {
        ICON_PR@
    } else if verb == "commented"@ {
        ICON_COMMENT@
    } else if verb == "reviewed"@ {
        ICON_EYE@
    } else if verb == "pushed"@ {
        ICON_COMMIT@
    } else if verb == "force-pushed"@ {
        ICON_FORCE_PUSH@
    } else if verb == "readied"@ {
        ICON_ROCKET@
    } else if verb == "requested"@ {
        ICON_PERSON_ADD@
    } else if verb == "merged"@ {
        ICON_MERGE@
    } else if verb == "closed"@ {
        ICON_PR_CLOSED@
    } else if verb == "reopened"@ {
        ICON_REOPEN@
    } else if verb == "approved"@ {
        ICON_CHECK@
    } else if verb == "changes-requested"@ {
        ICON_REQUEST_CHANGES@
    } else {
        ICON_DASH@
    }
}

pub fn event_icon(verb: &str) -> (r: &'static str)
    ensures
        r@ == icon_of(verb@),
{
    if same_text(verb, "opened") {
        ICON_PR
    } else if same_text(verb, "commented") {
        ICON_COMMENT
    } else if same_text(verb, "reviewed") {
        ICON_EYE
    } else if same_text(verb, "pushed") {
        ICON_COMMIT
    } else if same_text(verb, "force-pushed") {
        ICON_FORCE_PUSH
    } else if same_text(verb, "readied") {
        ICON_ROCKET
    } else if same_text(verb, "requested") {
        ICON_PERSON_ADD
    } else if same_text(verb, "merged") {
        ICON_MERGE
    } else if same_text(verb, "closed") {
        ICON_PR_CLOSED
    } else if same_text(verb, "reopened") {
        ICON_REOPEN
    } else if same_text(verb, "approved") {
        ICON_CHECK
    } else if same_text(verb, "changes-requested") {
        ICON_REQUEST_CHANGES
    } else {
        ICON_DASH
    }
}

/// `MM-DD HH:MM` of an ISO 8601 timestamp, cut by bytes; a text that is too
/// short or cannot be cut there is left as it is.
pub open spec fn short_time_of(iso: Seq<char>) -> Seq<char> {
    match (byte_place(iso, 5), byte_place(iso, 10), byte_place(iso, 11), byte_place(iso, 16)) {
        (Some(a), Some(b), Some(c), Some(d)) => iso.subrange(a, b) + " "@ + iso.subrange(c, d),
        _ => iso,
    }
}

proof fn lemma_places_grow(s: Seq<char>, i: int, at: int, a: int, b: int)
    requires
        at <= a <= b,
        chars_at_byte(s, i, at, a) is Some,
        chars_at_byte(s, i, at, b) is Some,
    ensures
        i <= chars_at_byte(s, i, at, a)->0 <= chars_at_byte(
            s,
            i,
            at,
            b,
        )->0,
    decreases s.len() - i,
{
    if at != a {
        lemma_places_grow(s, i + 1, at + utf8_size(s[i]), a, b);
    } else if at != b {
        let next = at + utf8_size(s[i]);
        lemma_places_grow(s, i + 1, next, next, b);
    }
}

/// Shorten an ISO 8601 timestamp to `MM-DD HH:MM` or return as-is.
pub fn short_time(iso: &str) -> (r: String)
    ensures
        r@ == short_time_of(iso@),
{
    let chars = chars_of(iso);
    match (find_byte(&chars, 5), find_byte(&chars, 10), find_byte(&chars, 11), find_byte(&chars, 16)) {
        (Some(a), Some(b), Some(c), Some(d)) => {
            proof {
                lemma_places_grow(iso@, 0, 0, 5, 10);
                lemma_places_grow(iso@, 0, 0, 11, 16);
            }
            let day = string_of(&chars, a, b);
            let time = string_of(&chars, c, d);
            joined3(day.as_str(), " ", time.as_str())
        },
        _ => iso.to_owned(),
    }
}

/// What the Activity blade draws: the rows laid out for this frame, or that
/// there are none.
#[verifier::opaque]
pub open spec fn activity_ops(p: Pane, area: Rect) -> Seq<OpView> {
    let fill = seq![fill_op(area, MANTLE)];
    if p.activity_display_lines.len() == 0 {
        fill.push(line_op(area, row("No activity"@, fg(MUTED).bg(MANTLE)), bg(MANTLE)))
    } else {
        fill + viewport_ops(
            p.activity_display_lines,
            p.activity_scroll.offset as int,
            fg(TEXT).bg(MANTLE),
            false,
            area,
        )
    }
}

/// Draw the Activity blade.
pub fn render_activity(scene: &mut Scene, area: Rect, ctx: &RenderContext)
    requires
        area.wf(),
    ensures
        final(scene)@ == old(scene)@ + activity_ops(ctx.view@, area),
{
    proof {
        reveal(activity_ops);
    }
    scene.fill(area, MANTLE);
    let lines = &ctx.view.activity_display_lines;
    proof {
        assert(lines_view(lines@).len() == lines@.len());
    }
    if lines.len() == 0 {
        scene.line(area, Line::styled("No activity", fg(MUTED).bg(MANTLE)), bg(MANTLE));
    } else {
        ScrollViewport::new(lines, ctx.view.activity_scroll.offset).style(
            fg(TEXT).bg(MANTLE),
        ).render(scene, area);
    }
    proof {
        assert(scene@ =~= old(scene)@ + activity_ops(ctx.view@, area));
    }
}

} // verus!
