//! Scroll offsets of panes and the focus inside the Overview blade.
use vstd::prelude::*;

use crate::draw::{less, max, min};

verus! {

/// Focusable section inside the Overview blade. Summary and Problems only
/// exist when they have content, so focus cycling walks the visible sections.
#[derive(Debug, Clone, Copy, PartialEq, Eq, Structural)]
pub enum OverviewFocus {
    Summary,
    Description,
    Problems,
    LastActivity,
}

impl Default for OverviewFocus {
    fn default() -> (r: Self)
        ensures
            r == OverviewFocus::Description,
    {
        OverviewFocus::Description
    }
}

/// The visible sections, top to bottom.
pub open spec fn visible_sections(has_summary: bool, has_problems: bool) -> Seq<OverviewFocus> {
    let a = if has_summary {
        seq![OverviewFocus::Summary]
    } else {
        seq![]
    };
    let b = if has_problems {
        a.push(OverviewFocus::Problems)
    } else {
        a
    };
    b.push(OverviewFocus::Description).push(OverviewFocus::LastActivity)
}

/// Where cycling starts: the place of `focus` among the visible sections, or
/// that of Description where `focus` is not visible.
pub open spec fn focus_place(focus: OverviewFocus, has_summary: bool, has_problems: bool) -> int {
    let order = visible_sections(has_summary, has_problems);
    if order.contains(focus) {
        order.index_of(focus)
    } else {
        order.index_of(OverviewFocus::Description)
    }
}

/// The section `step` places further on, around the ends.
pub open spec fn focus_cycled(
    focus: OverviewFocus,
    has_summary: bool,
    has_problems: bool,
    step: int,
) -> OverviewFocus {
    let order = visible_sections(has_summary, has_problems);
    order[(focus_place(focus, has_summary, has_problems) + step) % (order.len() as int)]
}

pub(crate) proof fn lemma_visible(has_summary: bool, has_problems: bool)
    ensures
        2 <= visible_sections(has_summary, has_problems).len() <= 4,
        visible_sections(has_summary, has_problems).no_duplicates(),
        visible_sections(has_summary, has_problems).contains(OverviewFocus::Description),
{
    let order = visible_sections(has_summary, has_problems);
    let at = order.len() - 2;
    assert(order[at] == OverviewFocus::Description);
}

pub(crate) proof fn lemma_place(focus: OverviewFocus, has_summary: bool, has_problems: bool, i: int)
    requires
        0 <= i < visible_sections(has_summary, has_problems).len(),
        visible_sections(has_summary, has_problems)[i] == focus,
    ensures
        visible_sections(has_summary, has_problems).contains(focus),
        visible_sections(has_summary, has_problems).index_of(focus) == i,
{
    lemma_visible(has_summary, has_problems);
}

pub(crate) proof fn lemma_around(i: int, n: int)
    requires
        0 <= i < n,
        2 <= n <= 4,
    ensures
        (i + 1) % n == if i + 1 == n {
            0
        } else {
            i + 1
        },
        (i - 1) % n == if i == 0 {
            n - 1
        } else {
            i - 1
        },
{
    if n == 2 {
        assert((i + 1) % 2 == (i + 1) % n && (i - 1) % 2 == (i - 1) % n);
    } else if n == 3 {
        assert((i + 1) % 3 == (i + 1) % n && (i - 1) % 3 == (i - 1) % n);
    } else {
        assert((i + 1) % 4 == (i + 1) % n && (i - 1) % 4 == (i - 1) % n);
    }
}

impl OverviewFocus {
    fn visible_order(has_summary: bool, has_problems: bool) -> (r: Vec<OverviewFocus>)
        ensures
            r@ == visible_sections(has_summary, has_problems),
    {
        let mut order: Vec<OverviewFocus> = Vec::new();
        if has_summary {
            order.push(OverviewFocus::Summary);
        }
        if has_problems {
            order.push(OverviewFocus::Problems);
        }
        order.push(OverviewFocus::Description);
        order.push(OverviewFocus::LastActivity);
        proof {
            assert(order@ =~= visible_sections(has_summary, has_problems));
        }
        order
    }

    fn cycle(self, has_summary: bool, has_problems: bool, forward: bool) -> (r: Self)
        ensures
            r == focus_cycled(
                self,
                has_summary,
                has_problems,
                if forward {
                    1
                } else {
                    -1
                },
            ),
    {
        let order = Self::visible_order(has_summary, has_problems);
        proof {
            lemma_visible(has_summary, has_problems);
        }
        let mut idx: usize = order.len() - 2;
        let mut i: usize = 0;
        let mut found = false;
        while i < order.len()
            invariant
                order@ == visible_sections(has_summary, has_problems),
                i <= order@.len(),
                order@.len() >= 2,
                found ==> idx < order@.len() && order@[idx as int] == self,
                !found ==> idx == order@.len() - 2,
                !found ==> forall|k: int| 0 <= k < i ==> order@[k] != self,
            decreases order@.len() - i,
        {
            if order[i] == self {
                idx = i;
                found = true;
            }
            i += 1;
        }
        proof {
            if found {
                lemma_place(self, has_summary, has_problems, idx as int);
            } else {
                assert(!order@.contains(self));
                lemma_place(
                    OverviewFocus::Description,
                    has_summary,
                    has_problems,
                    order@.len() - 2,
                );
            }
        }
        proof {
            lemma_around(idx as int, order@.len() as int);
        }
        if forward {
            if idx + 1 == order.len() {
                order[0]
            } else {
                order[idx + 1]
            }
        } else if idx == 0 {
            order[order.len() - 1]
        } else {
            order[idx - 1]
        }
    }

    /// The visible section below, or the first one below the last.
    pub fn next(self, has_summary: bool, has_problems: bool) -> (r: Self)
        ensures
            r == focus_cycled(self, has_summary, has_problems, 1),
    {
        self.cycle(has_summary, has_problems, true)
    }

    /// The visible section above, or the last one above the first.
    pub fn prev(self, has_summary: bool, has_problems: bool) -> (r: Self)
        ensures
            r == focus_cycled(self, has_summary, has_problems, -1),
    {
        self.cycle(has_summary, has_problems, false)
    }
}

/// Cycling forward and back from a visible section comes home, and the section
/// reached is always a visible one.
pub proof fn focus_cycle_returns(focus: OverviewFocus, has_summary: bool, has_problems: bool)
    requires
        visible_sections(has_summary, has_problems).contains(focus),
    ensures
        focus_cycled(
            focus_cycled(focus, has_summary, has_problems, 1),
            has_summary,
            has_problems,
            -1,
        ) == focus,
        focus_cycled(
            focus_cycled(focus, has_summary, has_problems, -1),
            has_summary,
            has_problems,
            1,
        ) == focus,
{
    let order = visible_sections(has_summary, has_problems);
    lemma_visible(has_summary, has_problems);
    let n = order.len() as int;
    let i = order.index_of(focus);
    let up = (i + 1) % n;
    let down = (i - 1) % n;
    lemma_around(i, n);
    lemma_around(up, n);
    lemma_around(down, n);
    lemma_place(order[up], has_summary, has_problems, up);
    lemma_place(order[down], has_summary, has_problems, down);
}

/// Cycling, from a visible section or not, leads to a visible one.
pub proof fn focus_cycle_stays_visible(
    focus: OverviewFocus,
    has_summary: bool,
    has_problems: bool,
    step: int,
)
    ensures
        visible_sections(has_summary, has_problems).contains(
            focus_cycled(focus, has_summary, has_problems, step),
        ),
{
    let order = visible_sections(has_summary, has_problems);
    lemma_visible(has_summary, has_problems);
    let n = order.len() as int;
    let p = (focus_place(focus, has_summary, has_problems) + step) % n;
    assert(0 <= p < n) by (nonlinear_arith)
        requires
            n > 0,
            p == (focus_place(focus, has_summary, has_problems) + step) % n,
    ;
    assert(order[p] == focus_cycled(focus, has_summary, has_problems, step));
}

/// Scroll offset for one scrollable pane.
#[derive(Debug, Clone, Copy, PartialEq, Eq, Structural)]
pub struct ScrollState {
    pub offset: usize,
    pub content_height: usize,
    pub viewport_height: usize,
}

impl Default for ScrollState {
    fn default() -> (r: Self)
        ensures
            r == ScrollState::at_rest(),
    {
        ScrollState { offset: 0, content_height: 0, viewport_height: 0 }
    }
}

impl ScrollState {
    pub open spec fn at_rest() -> ScrollState {
        ScrollState { offset: 0, content_height: 0, viewport_height: 0 }
    }

    /// The greatest offset that still fills the viewport.
    pub open spec fn limit(self) -> usize {
        less(self.content_height as int, self.viewport_height as int) as usize
    }

    /// The offset brought down to the limit.
    pub open spec fn clamped(self) -> ScrollState {
        ScrollState { offset: min(self.offset as int, self.limit() as int) as usize, ..self }
    }

    /// New heights, with the offset brought down to the new limit.
    pub open spec fn resized(self, content: usize, viewport: usize) -> ScrollState {
        ScrollState { content_height: content, viewport_height: viewport, ..self }.clamped()
    }

    /// The offset moved by `delta` and kept between zero and the limit.
    pub open spec fn moved(self, delta: int) -> ScrollState {
        ScrollState {
            offset: min(max(self.offset + delta, 0), self.limit() as int) as usize,
            ..self
        }
    }

    /// The offset set to `pos`, or the limit where that is less.
    pub open spec fn placed(self, pos: usize) -> ScrollState {
        ScrollState { offset: min(pos as int, self.limit() as int) as usize, ..self }
    }

    /// The offset moved as little as brings row `index` into the viewport.
    pub open spec fn showing(self, index: usize) -> ScrollState {
        if self.viewport_height == 0 {
            self
        } else if index < self.offset {
            ScrollState { offset: index, ..self }
        } else if index >= self.offset + self.viewport_height {
            ScrollState { offset: (index - (self.viewport_height - 1)) as usize, ..self }
        } else {
            self
        }
    }

    pub fn new() -> (r: Self)
        ensures
            r == ScrollState::at_rest(),
    {
        ScrollState { offset: 0, content_height: 0, viewport_height: 0 }
    }

    /// Set content and viewport height and re-clamp the offset in one step.
    pub fn set_content_viewport(&mut self, content: usize, viewport: usize)
        ensures
            *final(self) == old(self).resized(content, viewport),
            final(self).offset <= final(self).limit(),
    {
        self.content_height = content;
        self.viewport_height = viewport;
        self.clamp();
    }

    /// Clamp `offset` so it does not scroll past the rendered content.
    pub fn clamp(&mut self)
        ensures
            *final(self) == old(self).clamped(),
            final(self).offset <= final(self).limit(),
    {
        let limit: usize = self.max_scroll();
        if self.offset > limit {
            self.offset = limit;
        }
    }

    /// Maximum valid scroll offset.
    pub fn max_scroll(&self) -> (r: usize)
        ensures
            r == self.limit(),
    {
        self.content_height.saturating_sub(self.viewport_height)
    }

    /// Scroll relative to the current offset, then clamp.
    pub fn scroll_by(&mut self, delta: isize)
        ensures
            *final(self) == old(self).moved(delta as int),
            final(self).offset <= final(self).limit(),
    {
        if delta >= 0 {
            self.offset = self.offset.saturating_add(delta as usize);
        } else {
            let back: usize = (-(delta + 1)) as usize + 1;
            self.offset = self.offset.saturating_sub(back);
        }
        self.clamp();
    }

    /// Scroll to an absolute offset, clamped to the valid range.
    pub fn scroll_to(&mut self, pos: usize)
        ensures
            *final(self) == old(self).placed(pos),
            final(self).offset <= final(self).limit(),
    {
        let limit: usize = self.max_scroll();
        self.offset = if pos < limit {
            pos
        } else {
            limit
        };
    }

    /// Adjust the offset so `index` is within the viewport.
    pub fn keep_visible(&mut self, index: usize)
        requires
            old(self).offset + old(self).viewport_height <= usize::MAX,
        ensures
            *final(self) == old(self).showing(index),
    {
        if self.viewport_height == 0 {
            return;
        }
        if index < self.offset {
            self.offset = index;
        } else if index >= self.offset + self.viewport_height {
            self.offset = index - (self.viewport_height - 1);
        }
    }
}

/// After `keep_visible`, the row stands inside the viewport.
pub proof fn shown_row_is_in_viewport(s: ScrollState, index: usize)
    requires
        s.viewport_height > 0,
    ensures
        s.showing(index).offset <= index < s.showing(index).offset + s.viewport_height,
{
}

/// Showing a row of the content keeps an offset within the limit.
pub proof fn showing_keeps_within_limit(s: ScrollState, index: usize)
    requires
        s.offset <= s.limit(),
        index < s.content_height,
    ensures
        s.showing(index).offset <= s.showing(index).limit(),
{
}

/// Scrolling down and back up by the same amount returns to the same offset,
/// where the way down does not meet the limit.
pub proof fn scrolling_back_returns(s: ScrollState, delta: int)
    requires
        s.offset <= s.limit(),
        0 <= s.offset + delta <= s.limit(),
    ensures
        s.moved(delta).moved(-delta) == s,
{
}

} // verus!
