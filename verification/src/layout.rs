//! The outer geometry of a frame: tab line, body of the active blade, command
//! line and keybar.
use vstd::prelude::*;

use crate::draw::{
    fg, less, line_op, min, new_lines, no_lines, push_line, raw_row, row, Align, DrawOp, Line,
    OpView, Rect, Scene, Style,
};
use crate::text::{repeat_char, repeated};
use crate::theme::{Blade, BASE, INBOX, MANTLE, SURFACE1, TEXT};

verus! {

/// What a row of a layout asks for.
#[derive(Debug, Clone, Copy, PartialEq, Eq, Structural)]
pub enum Constraint {
    Length(u16),
    Min(u16),
    Fill(u16),
}

/// The rows into which `area` is divided under `constraints`, top to bottom.
pub uninterp spec fn layout_rows(area: Rect, constraints: Seq<Constraint>) -> Seq<Rect>;

/// Whether row `k` alone gives way and every other row asks for one line.
pub open spec fn gives_way(constraints: Seq<Constraint>, k: int) -> bool {
    &&& 0 <= k < constraints.len()
    &&& constraints[k] == Constraint::Min(1) || constraints[k] == Constraint::Fill(1)
    &&& forall|i: int|
        0 <= i < constraints.len() && i != k ==> #[trigger] constraints[i] == Constraint::Length(1)
}

/// Constraints that every area has one division under: a single row gives way,
/// and it does not stand in the middle.
pub open spec fn settled(constraints: Seq<Constraint>, k: int) -> bool {
    gives_way(constraints, k) && 2 * k + 1 != constraints.len()
}

/// How many lines the rows ask for.
pub open spec fn asked_lines(constraints: Seq<Constraint>, k: int) -> int {
    if constraints[k] == Constraint::Min(1) {
        constraints.len() as int
    } else {
        constraints.len() - 1
    }
}

/// The row of `area` that starts `top` lines below its top edge.
pub open spec fn line_at(area: Rect, top: int, height: int) -> Rect {
    Rect { x: area.x, y: (area.y + top) as u16, width: area.width, height: height as u16 }
}

/// The rows of `area` one below the other, each one line high but row `k`,
/// which takes what is left.
pub open spec fn stacked(area: Rect, n: int, k: int) -> Seq<Rect> {
    Seq::new(
        n as nat,
        |i: int|
            if i < k {
                line_at(area, i, 1)
            } else if i == k {
                line_at(area, k, area.height - (n - 1))
            } else {
                line_at(area, area.height - (n - i), 1)
            },
    )
}

/// Wraps `ratatui::layout::Layout::split` in the vertical direction, under
/// constraints that leave its solver one answer. The rows depend on the area
/// and the constraints alone. There is one for each constraint; each is as wide
/// as the area, and lies within it where the area lies within the coordinate
/// space. Where there is room for all, each row has what it asks for and the
/// one that gives way takes the rest. How rows shrink where there is not is
/// left unsaid.
#[verifier::external_body]
pub(crate) fn split_rows(area: Rect, constraints: &Vec<Constraint>) -> (r: Vec<Rect>)
    requires
        exists|k: int| #[trigger] settled(constraints@, k),
        constraints@.len() <= 6,
    ensures
        r@ == layout_rows(area, constraints@),
        r@.len() == constraints@.len(),
        forall|i: int| 0 <= i < r@.len() ==> (#[trigger] r@[i]).x == area.x,
        forall|i: int| 0 <= i < r@.len() ==> (#[trigger] r@[i]).width == area.width,
        area.wf() ==> forall|i: int|
            0 <= i < r@.len() ==> area.y <= (#[trigger] r@[i]).y && r@[i].y + r@[i].height <= area.y
                + area.height,
        forall|k: int| #[trigger]
            settled(constraints@, k) && area.wf() && asked_lines(constraints@, k) <= area.height
                ==> r@ == stacked(area, constraints@.len() as int, k),
{
    let outer = ratatui::layout::Rect { x: area.x, y: area.y, width: area.width, height: area.height };
    let rows = constraints.iter().map(|c| match c {
        Constraint::Length(n) => ratatui::layout::Constraint::Length(*n),
        Constraint::Min(n) => ratatui::layout::Constraint::Min(*n),
        Constraint::Fill(n) => ratatui::layout::Constraint::Fill(*n),
    });
    let split = ratatui::layout::Layout::vertical(rows).split(outer);
    split.iter().map(|r| Rect { x: r.x, y: r.y, width: r.width, height: r.height }).collect()
}

/// The inside of a border around `area`.
pub open spec fn inset(area: Rect) -> Rect {
    Rect {
        x: min(min(area.x + 1, u16::MAX as int), area.right() as int) as u16,
        y: min(min(area.y + 1, u16::MAX as int), area.bottom() as int) as u16,
        width: less(area.width as int, 2) as u16,
        height: less(area.height as int, 2) as u16,
    }
}

/// Wraps `ratatui::widgets::Block::inner` for a block with all four borders:
/// one cell less on every side, as far as there are cells.
#[verifier::external_body]
pub(crate) fn block_inner(area: Rect) -> (r: Rect)
    ensures
        r == inset(area),
{
    let block = ratatui::widgets::Block::default().borders(ratatui::widgets::Borders::ALL);
    let outer = ratatui::layout::Rect { x: area.x, y: area.y, width: area.width, height: area.height };
    let r = block.inner(outer);
    Rect { x: r.x, y: r.y, width: r.width, height: r.height }
}

/// Geometry for a single blade within the body area. With only one blade
/// visible at a time, every blade's content is the full body; `is_active`
/// marks which one is drawn.
#[derive(Debug, Clone, Copy, PartialEq, Eq, Structural)]
pub struct BladeLayout {
    pub rect: Rect,
    pub blade: Blade,
    pub is_active: bool,
    pub content: Rect,
}

/// Complete layout for one frame.
#[derive(Debug, Clone, Copy)]
pub struct ViewLayout {
    pub terminal: Rect,
    pub tab_line: Rect,
    pub body: Rect,
    pub command_line: Rect,
    pub keybar: Rect,
    pub blades: [BladeLayout; 5],
}

pub open spec fn blade_slot(active: Blade, body: Rect, blade: Blade) -> BladeLayout {
    BladeLayout { rect: body, blade, is_active: blade == active, content: body }
}

/// The content areas of the five blades.
#[verifier::ext_equal]
pub struct BladeAreas {
    pub inbox: Rect,
    pub overview: Rect,
    pub activity: Rect,
    pub files: Rect,
    pub diff: Rect,
}

impl BladeAreas {
    /// Every blade has the whole body.
    pub open spec fn all(body: Rect) -> BladeAreas {
        BladeAreas { inbox: body, overview: body, activity: body, files: body, diff: body }
    }
}

impl ViewLayout {
    pub open spec fn areas(self) -> BladeAreas {
        BladeAreas {
            inbox: self.blade_at(Blade::Inbox).content,
            overview: self.blade_at(Blade::Overview).content,
            activity: self.blade_at(Blade::Activity).content,
            files: self.blade_at(Blade::Files).content,
            diff: self.blade_at(Blade::Diff).content,
        }
    }

    /// The layout that six rows of `area` give.
    pub open spec fn made_of(self, active: Blade, area: Rect, rows: Seq<Rect>) -> bool {
        &&& self.terminal == area
        &&& self.tab_line == rows[0]
        &&& self.body == rows[2]
        &&& self.command_line == rows[4]
        &&& self.keybar == rows[5]
        &&& forall|b: Blade| #[trigger] self.blade_at(b) == blade_slot(active, rows[2], b)
    }

    pub open spec fn blade_at(self, blade: Blade) -> BladeLayout {
        self.blades@[blade.index() as int]
    }

    /// The layout for the six rows of a frame: tab line, rule, body, rule,
    /// command line, keybar.
    pub fn from_rows(active: Blade, area: Rect, rows: &Vec<Rect>) -> (r: ViewLayout)
        requires
            rows@.len() == 6,
        ensures
            r.made_of(active, area, rows@),
    {
        let body = rows[2];
        let inbox = BladeLayout {
            rect: body,
            blade: Blade::Inbox,
            is_active: active == Blade::Inbox,
            content: body,
        };
        let overview = BladeLayout {
            blade: Blade::Overview,
            is_active: active == Blade::Overview,
            ..inbox
        };
        let activity = BladeLayout {
            blade: Blade::Activity,
            is_active: active == Blade::Activity,
            ..inbox
        };
        let files = BladeLayout { blade: Blade::Files, is_active: active == Blade::Files, ..inbox };
        let diff = BladeLayout { blade: Blade::Diff, is_active: active == Blade::Diff, ..inbox };
        ViewLayout {
            terminal: area,
            tab_line: rows[0],
            body,
            command_line: rows[4],
            keybar: rows[5],
            blades: [inbox, overview, activity, files, diff],
        }
    }

    /// The content area of the active blade, or the body where none is marked.
    pub open spec fn active_area(self) -> Rect {
        if self.blades@[0].is_active {
            self.blades@[0].content
        } else if self.blades@[1].is_active {
            self.blades@[1].content
        } else if self.blades@[2].is_active {
            self.blades@[2].content
        } else if self.blades@[3].is_active {
            self.blades@[3].content
        } else if self.blades@[4].is_active {
            self.blades@[4].content
        } else {
            self.body
        }
    }

    pub fn active_content(&self) -> (r: Rect)
        ensures
            r == self.active_area(),
    {
        let mut i: usize = 0;
        while i < 5
            invariant
                i <= 5,
                forall|j: int| 0 <= j < i ==> !(#[trigger] self.blades@[j]).is_active,
            decreases 5 - i,
        {
            if self.blades[i].is_active {
                return self.blades[i].content;
            }
            i += 1;
        }
        self.body
    }

    pub fn blade(&self, blade: Blade) -> (r: &BladeLayout)
        ensures
            *r == self.blade_at(blade),
    {
        &self.blades[blade.index()]
    }
}

/// Owns the outer vertical geometry: a tab line, the full-bleed body of the
/// active blade, and the status and keybar chrome, separated by rules.
#[derive(Debug, Clone, Copy)]
pub struct RootLayout {
    pub active: Blade,
}

impl Default for RootLayout {
    fn default() -> (r: Self)
        ensures
            r.active == Blade::Inbox,
    {
        RootLayout { active: Blade::Inbox }
    }
}

/// Tab line, rule, body, rule, status, keybar.
pub open spec fn root_constraints() -> Seq<Constraint> {
    seq![
        Constraint::Length(1),
        Constraint::Length(1),
        Constraint::Fill(1),
        Constraint::Length(1),
        Constraint::Length(1),
        Constraint::Length(1),
    ]
}

/// A single-row rule across `area`; none where there is no room.
pub open spec fn rule_ops(area: Rect) -> Seq<OpView> {
    if area.width == 0 || area.height == 0 {
        Seq::empty()
    } else {
        seq![
            line_op(
                area,
                row(repeated('─', area.width as nat), fg(SURFACE1).bg(BASE)),
                Style::plain(),
            ),
        ]
    }
}

/// The background of the frame and the two rules around the body.
#[verifier::opaque]
pub open spec fn root_ops(area: Rect, rows: Seq<Rect>) -> Seq<OpView> {
    seq![(OpView::Fill { area, color: BASE })] + rule_ops(
        Rect::new(area.x, rows[0].bottom(), area.width, 1),
    ) + rule_ops(Rect::new(area.x, rows[2].bottom(), area.width, 1))
}

/// `width` by `height` cells in the middle of `area`, or as many as there are.
pub open spec fn centered(area: Rect, width: u16, height: u16) -> Rect {
    let w = min(width as int, area.width as int);
    let h = min(height as int, area.height as int);
    Rect {
        x: (area.x + (area.width - w) / 2) as u16,
        y: (area.y + (area.height - h) / 2) as u16,
        width: w as u16,
        height: h as u16,
    }
}

/// A rectangle in the middle of another lies within it.
pub proof fn centered_lies_within(area: Rect, width: u16, height: u16)
    requires
        area.wf(),
    ensures
        area.x <= centered(area, width, height).x,
        area.y <= centered(area, width, height).y,
        centered(area, width, height).x + centered(area, width, height).width <= area.x + area.width,
        centered(area, width, height).y + centered(area, width, height).height <= area.y
            + area.height,
        centered(area, width, height).wf(),
{
}

pub fn centered_rect(area: Rect, width: u16, height: u16) -> (r: Rect)
    requires
        area.wf(),
    ensures
        r == centered(area, width, height),
{
    let w: u16 = if width < area.width {
        width
    } else {
        area.width
    };
    let h: u16 = if height < area.height {
        height
    } else {
        area.height
    };
    Rect::new(area.x + (area.width - w) / 2, area.y + (area.height - h) / 2, w, h)
}

/// What is shown where the terminal is too small.
pub open spec fn splash_ops(area: Rect) -> Seq<OpView> {
    let popup = centered(area, 28, 4);
    seq![
        (OpView::Fill { area, color: BASE }),
        (OpView::Panel {
            area: popup,
            border: fg(INBOX),
            style: fg(TEXT).bg(MANTLE),
            title: None,
        }),
        (OpView::Text {
            area: inset(popup),
            lines: no_lines().push(raw_row("Terminal too small"@)).push(
                raw_row("Need at least 50×12"@),
            ),
            style: fg(TEXT).bg(MANTLE),
            align: Align::Center,
            wrap: true,
            scroll: 0,
        }),
    ]
}

impl RootLayout {
    pub const MIN_WIDTH: u16 = 50;

    pub const MIN_HEIGHT: u16 = 12;

    pub fn new(active: Blade) -> (r: Self)
        ensures
            r.active == active,
    {
        RootLayout { active }
    }

    /// Tab line and rule at the top, rule, command line and keybar at the
    /// bottom, each one line high; the body has everything between.
    pub fn compute(&self, area: Rect) -> (r: ViewLayout)
        ensures
            r.made_of(self.active, area, layout_rows(area, root_constraints())),
            area.wf() ==> r.tab_line.wf() && r.body.wf() && r.command_line.wf() && r.keybar.wf(),
            area.wf() && area.height >= 5 ==> r.made_of(self.active, area, stacked(area, 6, 2)),
    {
        let mut rows: Vec<Constraint> = Vec::new();
        rows.push(Constraint::Length(1));
        rows.push(Constraint::Length(1));
        rows.push(Constraint::Fill(1));
        rows.push(Constraint::Length(1));
        rows.push(Constraint::Length(1));
        rows.push(Constraint::Length(1));
        proof {
            assert(rows@ =~= root_constraints());
            assert(settled(rows@, 2));
        }
        let split = split_rows(area, &rows);
        ViewLayout::from_rows(self.active, area, &split)
    }

    /// Paint the frame background and the two horizontal rules that bracket the
    /// body. Every cell is painted with an explicit background; the tab line,
    /// body, and bottom chrome are filled by their own renderers.
    pub fn render(&self, scene: &mut Scene, area: Rect) -> (r: ViewLayout)
        ensures
            r.made_of(self.active, area, layout_rows(area, root_constraints())),
            area.wf() ==> r.tab_line.wf() && r.body.wf() && r.command_line.wf() && r.keybar.wf(),
            area.wf() && area.height >= 5 ==> r.made_of(self.active, area, stacked(area, 6, 2)),
            final(scene)@ == old(scene)@ + root_ops(area, layout_rows(area, root_constraints())),
    {
        proof {
            reveal(root_ops);
        }
        let layout = self.compute(area);
        scene.fill(area, BASE);
        render_rule(scene, Rect::new(area.x, layout.tab_line.bottom(), area.width, 1));
        render_rule(scene, Rect::new(area.x, layout.body.bottom(), area.width, 1));
        proof {
            assert(scene@ =~= old(scene)@ + root_ops(
                area,
                layout_rows(area, root_constraints()),
            ));
        }
        layout
    }

    pub fn is_sufficient(&self, area: Rect) -> (r: bool)
        ensures
            r == (area.width >= Self::MIN_WIDTH && area.height >= Self::MIN_HEIGHT),
    {
        area.width >= Self::MIN_WIDTH && area.height >= Self::MIN_HEIGHT
    }

    pub fn render_splash(&self, scene: &mut Scene, area: Rect)
        requires
            area.wf(),
        ensures
            final(scene)@ == old(scene)@ + splash_ops(area),
    {
        scene.fill(area, BASE);
        let popup = centered_rect(area, 28, 4);
        let inner = block_inner(popup);
        scene.push(
            DrawOp::Panel {
                area: popup,
                border: fg(INBOX),
                style: fg(TEXT).bg(MANTLE),
                title: None,
            },
        );
        let mut lines = new_lines();
        push_line(&mut lines, Line::raw("Terminal too small"));
        push_line(&mut lines, Line::raw("Need at least 50×12"));
        scene.push(
            DrawOp::Text {
                area: inner,
                lines,
                style: fg(TEXT).bg(MANTLE),
                align: Align::Center,
                wrap: true,
                scroll: 0,
            },
        );
        proof {
            assert(scene@ =~= old(scene)@ + splash_ops(area));
        }
    }
}

/// Draw a single-row horizontal rule across `area`.
fn render_rule(scene: &mut Scene, area: Rect)
    ensures
        final(scene)@ == old(scene)@ + rule_ops(area),
{
    if area.width == 0 || area.height == 0 {
        proof {
            assert(scene@ =~= old(scene)@ + rule_ops(area));
        }
        return;
    }
    let rule = repeat_char('─', area.width as usize);
    scene.line(area, Line::styled(rule.as_str(), fg(SURFACE1).bg(BASE)), Style::plain());
    proof {
        assert(scene@ =~= old(scene)@ + rule_ops(area));
    }
}

} // verus!
