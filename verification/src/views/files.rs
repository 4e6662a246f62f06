//! The Files blade.
use vstd::prelude::*;

use crate::api::{FileDto, PrDetailResponse};
use crate::app::App;
use crate::component::RenderContext;
use crate::draw::{
    bg, blank, fg, fill_op, less, line_op, lines_view, max, min, new_lines, no_lines, push_line,
    row, row_text, sp, Color, Line, OpView, Rect, Scene, SpanView, Style,
};
use crate::github::{ReviewComment, ReviewThread};
use crate::layout::layout_rows;
use crate::primitives::{viewport_ops, ScrollViewport};
use crate::state::{fill_line, filled, filled_row_reaches_width, line_len, Pane};
use crate::text::{
    chars_of, decimal, decimal_string, joined, joined3, repeat_char, repeated, same_text,
    truncate_to_display_width, truncated,
};
use crate::theme::{
    ADD, BASE, DEL, FILES, ICON_DASH, ICON_DIFF_ADDED, ICON_DIFF_MODIFIED, ICON_DIFF_REMOVED,
    ICON_DIFF_RENAMED, ICON_FILES, MANTLE, MUTED, SUBTEXT0, SURFACE0, TEXT,
};
use crate::views::inbox::{counted, header_and_body, row_color, split_header_and_body};
use crate::views::text::{cell, pad_span};

verus! {

/// Resolved column geometry for one body width.
#[derive(Debug, Clone, Copy, PartialEq, Eq, Structural)]
pub struct FileColumnLayout {
    /// Width of the path cell.
    pub path_width: u16,
    /// Width of the comments block, if there is room.
    pub comments_width: Option<u16>,
}

/// The columns of a body of `width`: sixteen fixed cells, the comments where
/// the path keeps eight, and the path with the rest.
pub open spec fn file_columns(width: u16) -> FileColumnLayout {
    let comments = less(width as int, 24) >= 6;
    FileColumnLayout {
        path_width: max(
            less(
                width as int,
                if comments {
                    22
                } else {
                    16
                },
            ),
            8,
        ) as u16,
        comments_width: if comments {
            Some(5)
        } else {
            None
        },
    }
}

impl FileColumnLayout {
    /// Lay out columns for the given body width. The path flexes to fill the
    /// remainder and is never narrower than eight cells.
    pub fn compute(width: u16) -> (r: Self)
        ensures
            r == file_columns(width),
    {
        let mut used: u16 = 16;
        let room: u16 = width.saturating_sub(used + 8);
        let mut comments_width: Option<u16> = None;
        if room >= 6 {
            comments_width = Some(5);
            used += 6;
        }
        let rest: u16 = width.saturating_sub(used);
        FileColumnLayout {
            path_width: if rest < 8 {
                8
            } else {
                rest
            },
            comments_width,
        }
    }
}

/// The path is never narrower than eight cells.
pub proof fn path_keeps_eight_cells(width: u16)
    ensures
        file_columns(width).path_width >= 8,
{
}

/// On bodies of at least twenty-four cells the columns fill the body exactly.
pub proof fn file_columns_fill_body(width: u16)
    requires
        width >= 24,
    ensures
        ({
            let c = file_columns(width);
            4 + c.path_width + (match c.comments_width {
                Some(n) => n + 1,
                None => 0,
            }) + 12 == width
        }),
{
}

/// The column titles and, where there is room, the number of files at the
/// right edge.
pub open spec fn files_header(d: PrDetailResponse, cols: FileColumnLayout, width: int) -> Seq<
    SpanView,
> {
    let label = fg(SUBTEXT0).bg(BASE);
    let gap = sp(" "@, bg(BASE));
    let head = blank().push(sp("  "@, bg(BASE))).push(sp(cell("S"@, 1), label)).push(gap).push(
        sp(cell("PATH"@, cols.path_width as int), label),
    );
    let noted = match cols.comments_width {
        Some(w) => head.push(gap).push(sp(cell("✎"@, w as int), label)),
        None => head,
    };
    let line = noted.push(gap).push(sp(cell("+"@, 5), label)).push(gap).push(
        sp(cell("−"@, 5), label),
    );
    let summary = ICON_FILES@ + " FILES  "@ + decimal(d.files@.len());
    let used = row_text(line).len() + summary.len();
    if used <= width {
        line.push(sp(repeated(' ', (width - used) as nat), bg(BASE))).push(
            sp(summary, fg(FILES).bg(BASE).bold()),
        )
    } else {
        line
    }
}

fn header_line(d: &PrDetailResponse, cols: &FileColumnLayout, width: u16) -> (r: Line)
    ensures
        r@ == files_header(*d, *cols, width as int),
{
    let label = fg(SUBTEXT0).bg(BASE);
    let mut line = Line::empty();
    line.push("  ", bg(BASE));
    line.push_span(pad_span("S", 1, label));
    line.push(" ", bg(BASE));
    line.push_span(pad_span("PATH", cols.path_width, label));
    if let Some(w) = cols.comments_width {
        line.push(" ", bg(BASE));
        line.push_span(pad_span("✎", w, label));
    }
    line.push(" ", bg(BASE));
    line.push_span(pad_span("+", 5, label));
    line.push(" ", bg(BASE));
    line.push_span(pad_span("−", 5, label));
    let summary = joined3(ICON_FILES, " FILES  ", decimal_string(d.files.len() as u64).as_str());
    let used: usize = line_len(&line).saturating_add(chars_of(summary.as_str()).len());
    if used <= width as usize {
        line.push(repeat_char(' ', width as usize - used).as_str(), bg(BASE));
        line.push(summary.as_str(), fg(FILES).bg(BASE).bold());
    }
    line
}

/// How many of the first `n` comments are on the file `path`.
pub open spec fn comments_on(comments: Seq<ReviewComment>, path: Seq<char>, n: int) -> nat
    decreases n,
{
    if n <= 0 {
        0
    } else {
        comments_on(comments, path, n - 1) + if comments[n - 1].path@ == path {
            1nat
        } else {
            0
        }
    }
}

/// How many comments of the first `n` threads are on the file `path`.
pub open spec fn file_comments(threads: Seq<ReviewThread>, path: Seq<char>, n: int) -> nat
    decreases n,
{
    if n <= 0 {
        0
    } else {
        let comments = threads[n - 1].comments@;
        file_comments(threads, path, n - 1) + comments_on(comments, path, comments.len() as int)
    }
}

fn count_comments(threads: &Vec<ReviewThread>, path: &str) -> (r: usize)
    ensures
        r == counted(file_comments(threads@, path@, threads@.len() as int)),
{
    let mut total: usize = 0;
    let mut t: usize = 0;
    while t < threads.len()
        invariant
            t <= threads@.len(),
            total == counted(file_comments(threads@, path@, t as int)),
        decreases threads@.len() - t,
    {
        let list = &threads[t].comments;
        let mut here: usize = 0;
        let mut i: usize = 0;
        while i < list.len()
            invariant
                i <= list@.len(),
                here <= i,
                here == comments_on(list@, path@, i as int),
            decreases list@.len() - i,
        {
            if same_text(list[i].path.as_str(), path) {
                here += 1;
            }
            i += 1;
        }
        total = total.saturating_add(here);
        t += 1;
    }
    total
}

#[verifier::allow_in_spec]
pub fn status_color(status: char) -> Color
    returns
        (if status == 'A' {
            ADD
        } else if status == 'D' {
            DEL
        } else if status == 'M' || status == 'R' {
            FILES
        } else {
            MUTED
        }),
{
    if status == 'A' {
        ADD
    } else if status == 'D' {
        DEL
    } else if status == 'M' || status == 'R' {
        FILES
    } else {
        MUTED
    }
}

pub open spec fn glyph_of(status: char) -> Seq<char> {
    if status == 'A' {
        ICON_DIFF_ADDED@
    } else if status == 'D' {
        ICON_DIFF_REMOVED@
    } else if status == 'M' {
        ICON_DIFF_MODIFIED@
    } else if status == 'R' {
        ICON_DIFF_RENAMED@
    } else {
        ICON_DASH@
    }
}

pub fn status_glyph(status: char) -> (r: &'static str)
    ensures
        r@ == glyph_of(status),
{
    if status == 'A' {
        ICON_DIFF_ADDED
    } else if status == 'D' {
        ICON_DIFF_REMOVED
    } else if status == 'M' {
        ICON_DIFF_MODIFIED
    } else if status == 'R' {
        ICON_DIFF_RENAMED
    } else {
        ICON_DASH
    }
}

/// The number of comments as a row shows it: nothing for none.
pub open spec fn comments_label(n: usize) -> Seq<char> {
    if n > 0 {
        "✎"@ + decimal(n as nat)
    } else {
        ""@
    }
}

/// The cells of a file row.
pub open spec fn file_cells(
    d: PrDetailResponse,
    file: FileDto,
    selected: bool,
    cols: FileColumnLayout,
) -> Seq<SpanView> {
    let back = row_color(selected);
    let base = fg(TEXT).bg(back).bold();
    let comments = counted(
        file_comments(d.review_threads@, file.path@, d.review_threads@.len() as int),
    );
    let head = blank().push(
        sp(
            if selected {
                "▌"@
            } else {
                " "@
            },
            base,
        ),
    ).push(sp(" "@, base)).push(sp(glyph_of(file.status), fg(status_color(file.status)).bg(back))).push(
        sp(" "@, base),
    ).push(
        sp(
            cell(truncated(file.path@, cols.path_width as nat), cols.path_width as int),
            fg(TEXT).bg(back),
        ),
    );
    let noted = match cols.comments_width {
        Some(w) => head.push(sp(" "@, base)).push(
            sp(cell(comments_label(comments), w as int), fg(FILES).bg(back)),
        ),
        None => head,
    };
    noted.push(sp(" "@, base)).push(
        sp(cell("+"@ + decimal(file.additions as nat), 5), fg(ADD).bg(back)),
    ).push(sp(" "@, base)).push(
        sp(cell("−"@ + decimal(file.deletions as nat), 5), fg(DEL).bg(back)),
    )
}

/// A file row, filled up to the right edge.
pub open spec fn file_row(
    d: PrDetailResponse,
    file: FileDto,
    selected: bool,
    cols: FileColumnLayout,
    width: int,
) -> Seq<SpanView> {
    filled(file_cells(d, file, selected, cols), width, bg(row_color(selected)))
}

/// The selected file is highlighted across the whole width: every cell of its
/// row has the selection's background, and the row is not shorter.
pub proof fn selected_file_is_highlighted(
    d: PrDetailResponse,
    file: FileDto,
    cols: FileColumnLayout,
    width: int,
)
    ensures
        ({
            let row = file_row(d, file, true, cols, width);
            &&& row[0].text == "▌"@
            &&& row_text(row).len() >= width
            &&& forall|k: int| 0 <= k < row.len() ==> (#[trigger] row[k]).style.bg == Some(SURFACE0)
        }),
{
    filled_row_reaches_width(file_cells(d, file, true, cols), width, bg(SURFACE0));
}

pub fn file_line(
    d: &PrDetailResponse,
    file: &FileDto,
    selected: bool,
    cols: &FileColumnLayout,
    width: u16,
) -> (r: Line)
    ensures
        r@ == file_row(*d, *file, selected, *cols, width as int),
{
    let comments: usize = count_comments(&d.review_threads, file.path.as_str());
    let back = row_color(selected);
    let base = fg(TEXT).bg(back).bold();
    let mut line = Line::empty();
    line.push(
        if selected {
            "▌"
        } else {
            " "
        },
        base,
    );
    line.push(" ", base);
    line.push(status_glyph(file.status), fg(status_color(file.status)).bg(back));
    line.push(" ", base);
    let path = truncate_to_display_width(file.path.as_str(), cols.path_width as usize);
    line.push_span(pad_span(path.as_str(), cols.path_width, fg(TEXT).bg(back)));
    if let Some(w) = cols.comments_width {
        line.push(" ", base);
        let label = if comments > 0 {
            joined("✎", decimal_string(comments as u64).as_str())
        } else {
            "".to_owned()
        };
        line.push_span(pad_span(label.as_str(), w, fg(FILES).bg(back)));
    }
    line.push(" ", base);
    line.push_span(
        pad_span(joined("+", decimal_string(file.additions).as_str()).as_str(), 5, fg(ADD).bg(back)),
    );
    line.push(" ", base);
    line.push_span(
        pad_span(joined("−", decimal_string(file.deletions).as_str()).as_str(), 5, fg(DEL).bg(back)),
    );
    fill_line(&mut line, width, bg(back));
    line
}

/// The rows of all files.
pub open spec fn file_rows(d: PrDetailResponse, selected: usize, width: u16) -> Seq<Seq<SpanView>> {
    Seq::new(
        d.files@.len(),
        |i: int| file_row(d, d.files@[i], i == selected, file_columns(width), width as int),
    )
}

/// What the Files blade draws, given the rows of its area.
#[verifier::opaque]
pub open spec fn files_ops(a: App, p: Pane, rows: Seq<Rect>) -> Seq<OpView> {
    let body = rows[1];
    let fill = seq![fill_op(body, MANTLE)];
    match a.pr_detail {
        Some(d) if d.files@.len() > 0 => fill.push(
            line_op(rows[0], files_header(d, file_columns(body.width), body.width as int), bg(BASE)),
        ) + viewport_ops(
            file_rows(d, p.selected_file_index, body.width),
            p.files_scroll.offset as int,
            fg(TEXT).bg(MANTLE),
            false,
            body,
        ),
        _ => fill.push(line_op(body, row("No files"@, fg(MUTED).bg(MANTLE)), bg(MANTLE))),
    }
}

fn build_rows(d: &PrDetailResponse, selected: usize, width: u16) -> (r: Vec<Line>)
    ensures
        lines_view(r@) == file_rows(*d, selected, width),
{
    let cols = FileColumnLayout::compute(width);
    let ghost want = file_rows(*d, selected, width);
    let mut lines = new_lines();
    let mut i: usize = 0;
    proof {
        assert(lines_view(lines@) =~= want.take(0));
    }
    while i < d.files.len()
        invariant
            i <= d.files@.len(),
            cols == file_columns(width),
            want == file_rows(*d, selected, width),
            lines_view(lines@) == want.take(i as int),
        decreases d.files@.len() - i,
    {
        push_line(&mut lines, file_line(d, &d.files[i], i == selected, &cols, width));
        i += 1;
        proof {
            assert(lines_view(lines@) =~= want.take(i as int));
        }
    }
    proof {
        assert(want.take(want.len() as int) =~= want);
    }
    lines
}

/// Draw the Files blade into the two rows of its area.
pub fn render_files_rows(scene: &mut Scene, rows: &Vec<Rect>, ctx: &RenderContext)
    requires
        rows@.len() == 2,
        rows@[1].wf(),
    ensures
        final(scene)@ == old(scene)@ + files_ops(ctx.state@, ctx.view@, rows@),
{
    proof {
        reveal(files_ops);
    }
    let body = rows[1];
    scene.fill(body, MANTLE);
    if let Some(d) = &ctx.state.pr_detail {
        if d.files.len() > 0 {
            let cols = FileColumnLayout::compute(body.width);
            scene.line(rows[0], header_line(d, &cols, body.width), bg(BASE));
            let lines = build_rows(d, ctx.view.selected_file_index, body.width);
            ScrollViewport::new(&lines, ctx.view.files_scroll.offset).style(
                fg(TEXT).bg(MANTLE),
            ).render(scene, body);
            proof {
                assert(scene@ =~= old(scene)@ + files_ops(ctx.state@, ctx.view@, rows@));
            }
            return;
        }
    }
    scene.line(body, Line::styled("No files", fg(MUTED).bg(MANTLE)), bg(MANTLE));
    proof {
        assert(scene@ =~= old(scene)@ + files_ops(ctx.state@, ctx.view@, rows@));
    }
}

/// Draw the Files blade; nothing where there is no room for it.
pub fn render_files(scene: &mut Scene, area: Rect, ctx: &RenderContext)
    requires
        area.wf(),
    ensures
        final(scene)@ == if area.width < 8 || area.height < 3 {
            old(scene)@
        } else {
            old(scene)@ + files_ops(ctx.state@, ctx.view@, layout_rows(area, header_and_body()))
        },
{
    if area.width < 8 || area.height < 3 {
        return;
    }
    let rows = split_header_and_body(area);
    render_files_rows(scene, &rows, ctx);
}

} // verus!
