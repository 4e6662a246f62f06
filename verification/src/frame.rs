//! One frame: everything that is drawn, from bottom to top.
use vstd::prelude::*;

use crate::app::{App, AppState, StartupPhase};
use crate::clock::Clock;
use crate::component::RenderContext;
use crate::draw::{OpView, Rect, Scene};
use crate::layout::{layout_rows, root_constraints, root_ops, BladeAreas, RootLayout};
use crate::split::texts;
use crate::state::{prepared, Pane, ViewStateManager};
use crate::theme::{Blade, Theme};
use crate::views::activity::{activity_ops, render_activity};
use crate::views::chrome::{
    command_op, keybar_op, render_command_line, render_keybar, render_tab_line, tab_op,
};
use crate::views::config::{config_ops, render_config_view};
use crate::views::diff::{diff_ops, render_diff};
use crate::views::files::{files_ops, render_files};
use crate::views::help::{help_ops, render_help};
use crate::views::inbox::{header_and_body, inbox_ops, render_inbox};
use crate::views::loading::{loading_ops, render_loading};
use crate::views::overview::{overview_constraints, overview_ops, render_overview};
use crate::views::search::{render_search_overlay, search_ops};
use crate::views::setup::{draft_view, render_setup_wizard, wizard_ops};
use crate::views::toast::{toast_shown, InlineToast};

verus! {

/// What the active blade draws into the body.
#[verifier::opaque]
pub open spec fn blade_ops(a: App, p: Pane, clock: Clock, body: Rect) -> Seq<OpView> {
    let split = layout_rows(body, header_and_body());
    let cramped = body.width < 8 || body.height < 3;
    match p.active_blade {
        Blade::Inbox => if cramped {
            Seq::empty()
        } else {
            inbox_ops(a, p, clock.now, split)
        },
        Blade::Overview => overview_ops(a, p, body, layout_rows(body, overview_constraints())),
        Blade::Activity => activity_ops(p, body),
        Blade::Files => if cramped {
            Seq::empty()
        } else {
            files_ops(a, p, split)
        },
        Blade::Diff => diff_ops(a, p, body, split),
    }
}

/// `ops` where `shown`, else nothing.
pub open spec fn when(shown: bool, ops: Seq<OpView>) -> Seq<OpView> {
    if shown {
        ops
    } else {
        Seq::empty()
    }
}

/// What lies over the body: inspector, filter, help, startup and toast.
#[verifier::opaque]
pub open spec fn overlay_ops(a: App, p: Pane, queries: Seq<Seq<char>>, body: Rect) -> Seq<OpView> {
    when(a.show_config_view, config_ops(a, queries, body)) + when(
        a.show_search,
        search_ops(body, a.search_filter),
    ) + when(a.show_help, help_ops(body, a.help_scroll)) + when(
        a.startup_phase != StartupPhase::Ready,
        loading_ops(a, body),
    ) + toast_shown(a, p.active_blade, body)
}

/// What the chrome around the body draws, given the rows of the frame.
pub open spec fn chrome_ops(a: App, p: Pane, clock: Clock, rows: Seq<Rect>) -> Seq<OpView> {
    seq![
        tab_op(a, p.active_blade, clock, rows[0]),
        command_op(a, p.active_blade, rows[4]),
        keybar_op(a, p.active_blade, rows[5]),
    ]
}

/// What a frame of the dashboard draws, given its rows.
pub open spec fn dashboard_ops(
    a: App,
    p: Pane,
    clock: Clock,
    queries: Seq<Seq<char>>,
    area: Rect,
    rows: Seq<Rect>,
) -> Seq<OpView> {
    root_ops(area, rows) + chrome_ops(a, p, clock, rows) + blade_ops(a, p, clock, rows[2])
        + overlay_ops(a, p, queries, rows[2])
}

fn render_blade(scene: &mut Scene, body: Rect, ctx: &RenderContext)
    requires
        body.wf(),
    ensures
        final(scene)@ == old(scene)@ + blade_ops(ctx.state@, ctx.view@, *ctx.clock, body),
{
    proof {
        reveal(blade_ops);
        assert(scene@ + Seq::<OpView>::empty() =~= scene@);
    }
    match ctx.view.active_blade {
        Blade::Inbox => render_inbox(scene, body, ctx),
        Blade::Overview => render_overview(scene, body, ctx),
        Blade::Activity => render_activity(scene, body, ctx),
        Blade::Files => render_files(scene, body, ctx),
        Blade::Diff => render_diff(scene, body, ctx),
    }
}

fn render_overlays(scene: &mut Scene, body: Rect, ctx: &RenderContext)
    requires
        body.wf(),
    ensures
        final(scene)@ == old(scene)@ + overlay_ops(
            ctx.state@,
            ctx.view@,
            texts(ctx.queries@),
            body,
        ),
{
    let state = ctx.state;
    if state.show_config_view {
        render_config_view(scene, body, ctx);
    }
    if state.show_search {
        render_search_overlay(scene, body, ctx);
    }
    if state.show_help {
        render_help(scene, body, ctx);
    }
    if state.startup_phase != StartupPhase::Ready {
        render_loading(scene, body, ctx);
    }
    InlineToast.render(scene, body, ctx);
    proof {
        reveal(overlay_ops);
        assert(scene@ =~= old(scene)@ + overlay_ops(
            ctx.state@,
            ctx.view@,
            texts(ctx.queries@),
            body,
        ));
    }
}

/// Draw one frame. While the wizard is open it is all there is; else view and
/// data are brought in line first, and the dashboard is drawn from the result.
/// `queries` are the search queries of the configuration, `draft` the wizard's
/// configuration written out.
pub fn render_frame(
    area: Rect,
    state: &mut AppState,
    view: &mut ViewStateManager,
    clock: &Clock,
    queries: &Vec<String>,
    draft: &Result<String, String>,
) -> (scene: Scene)
    requires
        area.wf(),
    ensures
        ({
            let rows = layout_rows(area, root_constraints());
            match old(state)@.setup_wizard {
                Some(w) => {
                    &&& final(state)@ == old(state)@
                    &&& final(view)@ == old(view)@
                    &&& scene@ == root_ops(area, rows) + wizard_ops(
                        w,
                        old(state)@.ui_tick,
                        area,
                        draft_view(*draft),
                    )
                },
                None => {
                    &&& (final(view)@, final(state)@) == prepared(
                        old(view)@,
                        old(state)@,
                        BladeAreas::all(rows[2]),
                    )
                    &&& scene@ == dashboard_ops(
                        final(state)@,
                        final(view)@.view,
                        *clock,
                        texts(queries@),
                        area,
                        rows,
                    )
                },
            }
        }),
{
    let mut scene = Scene::new();
    if state.setup_wizard.is_some() {
        render_setup_wizard(&mut scene, area, state, draft);
        proof {
            assert(Seq::<OpView>::empty() + root_ops(area, layout_rows(area, root_constraints()))
                =~= root_ops(area, layout_rows(area, root_constraints())));
        }
        return scene;
    }
    let layout = RootLayout::new(view.view.active_blade).render(&mut scene, area);
    proof {
        let rows = layout_rows(area, root_constraints());
        assert(layout.areas() == BladeAreas::all(rows[2]));
        assert(Seq::<OpView>::empty() + root_ops(area, rows) =~= root_ops(area, rows));
    }
    view.prepare(state, &layout);
    let theme = Theme;
    let ctx = RenderContext::new(state, &view.view, &theme, clock, queries);
    render_tab_line(&mut scene, layout.tab_line, &ctx);
    render_command_line(&mut scene, layout.command_line, &ctx);
    render_keybar(&mut scene, layout.keybar, &ctx);
    proof {
        let rows = layout_rows(area, root_constraints());
        assert(scene@ =~= root_ops(area, rows) + chrome_ops(
            ctx.state@,
            ctx.view@,
            *ctx.clock,
            rows,
        ));
    }
    let body = layout.body;
    render_blade(&mut scene, body, &ctx);
    render_overlays(&mut scene, body, &ctx);
    scene
}

} // verus!
