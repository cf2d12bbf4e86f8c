//! What becomes of a window from its first buffer to its end, and what it is told on the way.

use vstd::prelude::*;

use crate::bsp::Window;
use crate::desk::{fullscreen_reply, lookup, plain_reply, DeskFacts, ModesView, SizeReply};
use crate::geometry::{half, Rect};
use crate::looks::LookRule;
use crate::master::paired;
use crate::screencast::OutputMode;
use crate::smallvil::picked;
use crate::source_picker::{
    all_choices, choice_views, fills_row, nothing_to_pick, panel_size, row_color, row_top, writes,
    PanelOp, PanelRect, PickOutcome, PickableWindow, Rgba, SourcePicker,
};
use crate::toplevels::{
    announces, destroys, detaches, dresses, flutters, hides, places, restores, shows_up,
    text_or_empty, unmaps, MapPlan, Toplevels, UnmapOutcome,
};
use crate::wlr_output_management::{object_for, other_number, HeadObject, HeadView};

verus! {

/// A window that is shown waits no more, has a number of its own, looks as its rule says,
/// and holds what it hid.
pub proof fn law_a_shown_window_is_announced(
    before: Toplevels,
    after: Toplevels,
    s: u64,
    plan: MapPlan,
    looks: LookRule,
)
    requires
        shows_up(before, after, s, plan, looks),
    ensures
        after.numeric_ids@.contains_key(s),
        !after.desk.facts.unmapped@.contains_key(s),
        looks.opacity is Some ==> after.looks.opacity@.contains_key(s) && after.looks.opacity@[s]
            == looks.opacity->0,
        looks.opacity is None ==> !after.looks.opacity@.contains_key(s),
        looks.glass is Some ==> after.looks.glass@.contains_key(s) && after.looks.glass@[s]
            == looks.glass->0,
        looks.glass is None ==> !after.looks.glass@.contains_key(s),
        plan.swallows is Some ==> after.swallowed@.contains_key(s),
        plan.swallows is Some && plan.swallows->0 != s ==> !after.numeric_ids@.contains_key(
            plan.swallows->0,
        ) && !after.desk.facts.visible@.contains_key(plan.swallows->0),
        plan.swallows is None ==> after.swallowed == before.swallowed && after.desk.modes
            == before.desk.modes && after.desk.facts.visible == before.desk.facts.visible,
        plan.swallows is None ==> after.numeric_ids@ == before.numeric_ids@.insert(
            s,
            before.next_numeric_id,
        ),
{
    let (placed, unannounced, plain) = choose|placed: Toplevels, unannounced: Toplevels, plain: Toplevels|
        {
            &&& #[trigger] places(before, placed, s, plan)
            &&& if plan.swallows is Some {
                hides(placed, unannounced, s, plan.swallows->0)
            } else {
                unannounced == placed
            }
            &&& #[trigger] announces(unannounced, plain, s)
            &&& dresses(plain, after, s, looks)
        };
    assert(places(before, placed, s, plan));
    assert(announces(unannounced, plain, s));
    if plan.swallows is Some {
        let t = plan.swallows->0;
        let gone = choose|gone: Toplevels|
            {
                &&& #[trigger] detaches(placed, gone, t)
                &&& placed.desk.facts.mapped_window(placed.desk.modes@, t) is Some
                &&& unannounced.swallowed@ == gone.swallowed@.insert(
                    s,
                    placed.desk.facts.mapped_window(placed.desk.modes@, t)->0,
                )
                &&& unannounced == (Toplevels { swallowed: unannounced.swallowed, ..gone })
            };
        assert(detaches(placed, gone, t));
    }
}

/// Where nothing is shown, only the looks are made ready.
pub proof fn law_looks_are_made_ready(before: Toplevels, after: Toplevels, s: u64, looks: LookRule)
    requires
        dresses(before, after, s, looks),
    ensures
        after.desk == before.desk && after.numeric_ids == before.numeric_ids && after.swallowed
            == before.swallowed && after.refusals == before.refusals,
        looks.opacity is Some ==> after.looks.opacity@.contains_key(s),
{
}

/// A window whose buffer is taken away waits again, if it was a window; it has no number and
/// no mode any more, and what it hid is given back with it.
pub proof fn law_an_unmapped_window_waits_again(
    before: Toplevels,
    after: Toplevels,
    s: u64,
    focused: Option<u64>,
    looks: LookRule,
    outcome: UnmapOutcome,
)
    requires
        unmaps(before, after, s, focused, looks, outcome),
    ensures
        outcome.gone.window is Some ==> after.desk.facts.unmapped@.contains_key(s)
            && after.desk.facts.unmapped@[s] == outcome.gone.window->0,
        !after.numeric_ids@.contains_key(s),
        !after.desk.modes@.fullscreen.contains_key(s) && !after.desk.modes@.maximized.contains_key(s)
            && !after.desk.modes@.floating.contains_key(s) && !after.desk.modes@.pinned.contains_key(s),
        !after.desk.facts.visible@.contains_key(s) && !after.desk.facts.ocean@.contains_key(s)
            && !after.desk.facts.put_away@.contains_key(s),
        outcome.restored is Some ==> before.swallowed@.contains_key(s) && (outcome.restored->0).0
            == before.swallowed@[s] && ((outcome.restored->0).1 <==> focused == Some(s)),
        outcome.gone.close_deck <==> before.desk.facts.put_away@.contains_key(s),
{
    let (restored, gone) = choose|restored: Toplevels, gone: Toplevels|
        {
            let window = restored.desk.facts.mapped_window(restored.desk.modes@, s);
            &&& #[trigger] restores(before, restored, s, looks)
            &&& #[trigger] detaches(restored, gone, s)
            &&& crate::desk::home_view(outcome.preferred) == restored.desk.facts.preferred(
                restored.desk.modes@,
                s,
            )
            &&& outcome.gone.window == window
            &&& outcome.gone.numeric_id == lookup(restored.numeric_ids@, s)
            &&& outcome.gone.close_deck == restored.desk.facts.put_away@.contains_key(s)
            &&& outcome.restored == crate::toplevels::restored_by(before, s, focused)
            &&& if window is Some {
                &&& after.desk.facts.unmapped@ == gone.desk.facts.unmapped@.insert(s, window->0)
                &&& after == (Toplevels {
                    desk: crate::desk::Desk {
                        facts: DeskFacts {
                            unmapped: after.desk.facts.unmapped,
                            ..gone.desk.facts
                        },
                        ..gone.desk
                    },
                    ..gone
                })
            } else {
                after == gone
            }
        };
    assert(restores(before, restored, s, looks) && detaches(restored, gone, s));
}

/// A window that is destroyed is known no more: it waits nowhere, and has no number and no
/// mode; what it hid is given back.
pub proof fn law_a_destroyed_window_is_forgotten(
    before: Toplevels,
    after: Toplevels,
    s: u64,
    focused: Option<u64>,
    looks: LookRule,
    outcome: UnmapOutcome,
)
    requires
        destroys(before, after, s, focused, looks, outcome),
    ensures
        !after.desk.facts.unmapped@.contains_key(s),
        !after.numeric_ids@.contains_key(s) && !after.urgent@.contains_key(s),
        !after.desk.modes@.fullscreen.contains_key(s) && !after.desk.modes@.maximized.contains_key(s)
            && !after.desk.modes@.floating.contains_key(s) && !after.desk.modes@.pinned.contains_key(s),
        outcome.restored is Some ==> before.swallowed@.contains_key(s) && (outcome.restored->0).0
            == before.swallowed@[s] && ((outcome.restored->0).1 <==> focused == Some(s)),
        outcome.gone.close_deck <==> before.desk.facts.put_away@.contains_key(s),
        crate::desk::home_view(outcome.preferred) == before.desk.facts.preferred(
            before.desk.modes@,
            s,
        ),
{
    let (restored, dropped) = choose|restored: Toplevels, dropped: Toplevels|
        {
            &&& #[trigger] restores(before, restored, s, looks)
            &&& dropped.desk.facts.unmapped@ == restored.desk.facts.unmapped@.remove(s)
            &&& dropped == (Toplevels {
                desk: crate::desk::Desk {
                    facts: DeskFacts {
                        unmapped: dropped.desk.facts.unmapped,
                        ..restored.desk.facts
                    },
                    ..restored.desk
                },
                ..restored
            })
            &&& #[trigger] detaches(dropped, after, s)
            &&& crate::desk::home_view(outcome.preferred) == before.desk.facts.preferred(
                before.desk.modes@,
                s,
            )
            &&& outcome.restored == crate::toplevels::restored_by(before, s, focused)
            &&& outcome.gone.window == dropped.desk.facts.mapped_window(dropped.desk.modes@, s)
            &&& outcome.gone.numeric_id == lookup(dropped.numeric_ids@, s)
            &&& outcome.gone.close_deck == dropped.desk.facts.put_away@.contains_key(s)
        };
    assert(restores(before, restored, s, looks) && detaches(dropped, after, s));
}

/// A window that flutters is left to float: with its third quick remap in a row, as long as
/// it is there. Nothing but the record changes.
pub proof fn law_a_fluttering_window_is_left_to_float(
    before: Toplevels,
    after: Toplevels,
    s: u64,
    mapping: bool,
    now: u64,
    other: u64,
)
    requires
        flutters(before, after, s, mapping, now),
        before.refusals.flutter@.contains_key(s) ==> before.refusals.flutter@[s].flips < u32::MAX,
    ensures
        ({
            let record = before.refusals.flutter@[s];
            let there = before.desk.facts.unmapped@.contains_key(s)
                || before.desk.facts.visible@.contains_key(s);
            let quick = before.refusals.flutter@.contains_key(s) && record.last_unmapped_at is Some
                && record.last_unmapped_at->0 <= now <= record.last_unmapped_at->0 + 1_000_000_000;
            &&& mapping && quick && record.flips >= 2 && there ==> after.refusals.floated@.contains_key(
                s,
            )
            &&& !mapping || !before.refusals.flutter@.contains_key(s) || record.flips < 2
                ==> (after.refusals.floated@.contains_key(s) ==> before.refusals.floated@.contains_key(
                s,
            ))
            &&& other != s && after.refusals.floated@.contains_key(other)
                ==> before.refusals.floated@.contains_key(other)
            &&& !mapping && there ==> after.refusals.flutter@.contains_key(s)
                && after.refusals.flutter@[s].last_unmapped_at == Some(now)
        }),
        after.desk == before.desk && after.numeric_ids == before.numeric_ids && after.looks
            == before.looks && after.swallowed == before.swallowed,
        after.refusals.size_refusals == before.refusals.size_refusals,
{
}

/// A reply that says nothing changes nothing.
pub proof fn law_a_plain_reply_changes_nothing()
    ensures
        plain_reply().fullscreen is None && plain_reply().maximized is None,
        !plain_reply().stop_resizing && !plain_reply().cancel_drag && !plain_reply().retile,
        plain_reply().size == SizeReply::Unchanged,
        plain_reply().place is None && plain_reply().pin_to is None && plain_reply().ocean_rect
            is None,
{
}

/// A window that goes fullscreen is told so, and its size; it is resized and dragged no
/// more, and the others are laid out anew.
pub proof fn law_fullscreen_windows_are_told_so(geometry: Rect)
    ensures
        ({
            let r = fullscreen_reply(geometry);
            &&& r.fullscreen == Some(true) && r.maximized == Some(false)
            &&& r.stop_resizing && r.cancel_drag && r.retile
            &&& r.size == SizeReply::Fixed(geometry.w, geometry.h)
            &&& r.place is None && r.pin_to is None && r.ocean_rect is None
        }),
{
}

/// A window that is not fullscreen is told only that; one that is unknown is told nothing.
pub proof fn law_needless_requests_are_answered_shortly(
    facts: DeskFacts,
    modes: ModesView,
    s: u64,
    requested: Option<u64>,
    shown: bool,
)
    ensures
        !modes.fullscreen.contains_key(s) ==> {
            let r = facts.unfullscreen_reply(modes, s);
            &&& r.fullscreen == Some(false) && r.maximized is None && !r.retile
            &&& r.size == SizeReply::Unchanged && r.place is None && r.pin_to is None
            &&& facts.unfullscreened(modes, s) == modes
        },
        !facts.known(modes, s) ==> facts.fullscreen_step(modes, s, requested)
            == crate::desk::FullscreenStep::Answer(plain_reply()),
        !facts.known(modes, s) && facts.floats(s) ==> facts.maximize_reply(modes, s, shown)
            == plain_reply() && facts.maximized(modes, s) == modes,
        facts.known(modes, s) && facts.fullscreen_target(modes, s, requested) is None ==> {
            let step = facts.fullscreen_step(modes, s, requested);
            &&& step is Answer
            &&& step->Answer_0.fullscreen is None && step->Answer_0.stop_resizing
                && step->Answer_0.cancel_drag && !step->Answer_0.retile
        },
{
}

/// What a window is told of being maximized: a tiled one is not, and still fullscreen where
/// it is; one that waits is not; one that is fullscreen stays so, and is maximized behind it.
pub proof fn law_maximize_requests_are_answered(
    facts: DeskFacts,
    modes: ModesView,
    s: u64,
    shown: bool,
)
    ensures
        ({
            let r = facts.maximize_reply(modes, s, shown);
            &&& !facts.floats(s) ==> r.maximized == Some(false) && r.stop_resizing && !r.retile
                && r.size == SizeReply::Unchanged && (modes.fullscreen.contains_key(s)
                ==> r.fullscreen == Some(true)) && (!modes.fullscreen.contains_key(s)
                ==> r.fullscreen is None)
            &&& facts.floats(s) && facts.unmapped@.contains_key(s) ==> r.maximized == Some(false)
                && !r.stop_resizing && !r.cancel_drag && !r.retile && !facts.maximized(
                modes,
                s,
            ).maximized.contains_key(s)
            &&& r.maximized == Some(true) ==> r.fullscreen == Some(false) && r.stop_resizing
                && r.cancel_drag && r.retile && (!shown ==> r.place is None)
            &&& facts.floats(s) && !facts.unmapped@.contains_key(s) && facts.known(modes, s)
                && modes.fullscreen.contains_key(s) ==> r.maximized is None && r.fullscreen is None
                && r.size == SizeReply::Unchanged && r.place is None
        }),
{
}

/// What a window is told of being maximized no more: where it is fullscreen, only that.
pub proof fn law_unmaximize_requests_are_answered(facts: DeskFacts, modes: ModesView, s: u64)
    ensures
        ({
            let r = facts.unmaximize_reply(modes, s);
            &&& r.maximized == Some(false)
            &&& r.fullscreen is None && !r.stop_resizing && !r.cancel_drag
            &&& modes.fullscreen.contains_key(s) ==> r.size == SizeReply::Unchanged && !r.retile
                && r.place is None
            &&& !modes.fullscreen.contains_key(s) ==> r.retile
            &&& !modes.fullscreen.contains_key(s) && !modes.maximized.contains_key(s) ==> r.size
                == SizeReply::Unchanged && r.place is None
            &&& !facts.visible@.contains_key(s) ==> r.place is None
        }),
{
}

/// A tiled window that leaves the fullscreen mode is told that it is not maximized either,
/// and the others are laid out anew.
pub proof fn law_tiles_leave_fullscreen_plainly(facts: DeskFacts, modes: ModesView, s: u64)
    requires
        modes.fullscreen.contains_key(s),
        !facts.floats(s),
    ensures
        ({
            let r = facts.unfullscreen_reply(modes, s);
            &&& r.fullscreen == Some(false) && r.maximized == Some(false) && r.retile
            &&& r.place is None && r.pin_to is None
            &&& !facts.tiled_rects@.contains_key(s) ==> r.size == SizeReply::Free
            &&& !facts.unfullscreened(modes, s).maximized.contains_key(s)
            &&& facts.unfullscreened(modes, s).floating == modes.floating
            &&& facts.unfullscreened(modes, s).pinned == modes.pinned
        }),
{
}

/// A window that makes room is taken out of the mode; one that is not known any more is only
/// forgotten.
pub proof fn law_room_is_made_for_the_next(facts: DeskFacts, modes: ModesView, other: u64)
    ensures
        !facts.made_room(modes, other).fullscreen.contains_key(other),
        facts.known(modes, other) ==> facts.made_room(modes, other) == facts.unfullscreened(
            modes,
            other,
        ) && facts.room_reply(modes, other) == Some(facts.unfullscreen_reply(modes, other)),
        !facts.known(modes, other) ==> facts.room_reply(modes, other) is None && facts.made_room(
            modes,
            other,
        ).maximized == modes.maximized && facts.made_room(modes, other).floating == modes.floating,
{
}

/// Windows that are laid out are paired with their places in order.
pub proof fn law_windows_are_paired_in_order(windows: Seq<Window>, rects: Seq<Rect>, i: int)
    requires
        0 <= i < windows.len(),
    ensures
        paired(windows, rects).len() == windows.len(),
        paired(windows, rects)[i].0 == windows[i],
        paired(windows, rects)[i].1 == rects[i],
{
}

/// A row of the panel is filled between the paddings, a little lower than its height, and in
/// the colour of its state.
pub proof fn law_rows_are_filled_between_the_paddings(
    rect: PanelRect,
    color: Rgba,
    width: int,
    row: int,
    selected: bool,
    text: String,
    x: i32,
    baseline: i32,
    wanted: Seq<char>,
)
    ensures
        fills_row(PanelOp::Fill { rect, color }, width, row, selected) <==> rect.x == 22 && rect.x
            + rect.w == width - 22 && rect.y == row_top(row) && rect.h == 48 && color == row_color(
            selected,
        ),
        !fills_row(PanelOp::Text { text, x, baseline }, width, row, selected),
        writes(PanelOp::Text { text, x, baseline }, wanted, x as int, baseline as int) <==> text@
            == wanted,
        !writes(PanelOp::Fill { rect, color }, wanted, x as int, baseline as int),
{
}

/// Where nothing can be picked, the request is answered with nothing; where there is one
/// choice, with that; else the panel opens in the middle of the output, on the first choice.
pub proof fn law_picking_answers_or_opens(
    locked: bool,
    request: u64,
    kinds: u32,
    ui: Option<OutputMode>,
    outputs: Seq<OutputMode>,
    windows: Seq<PickableWindow>,
    after: Option<SourcePicker>,
    r: PickOutcome,
)
    requires
        picked(locked, request, kinds, ui, outputs, windows, after, r),
    ensures
        ({
            let none = nothing_to_pick(locked, ui, kinds, outputs, windows);
            let mode = (ui->0).mode->0;
            let list = all_choices(kinds, outputs, windows, (ui->0).name@, mode);
            &&& none ==> after is None && r.reply is Some && r.reply->0 is None && !r.redraw
            &&& !none && list.len() == 1 ==> after is None && r.reply is Some && r.reply->0 is Some
                && (r.reply->0->0)@ == list[0] && !r.redraw
            &&& !none && list.len() > 1 ==> {
                let panel = after->0;
                let size = panel_size(mode, list.len() as int);
                &&& after is Some && r.reply is None && r.redraw
                &&& panel.request == request && panel.selected == 0
                &&& panel.output_name@ == (ui->0).name@
                &&& choice_views(panel.choices@) == list
                &&& panel.size.0 == size.0 && panel.size.1 == size.1
                &&& panel.location.0 == half(mode.0 - size.0)
                &&& panel.location.1 == half(mode.1 - size.1)
            }
        }),
{
}

/// A head is told of its new object by its own output; what goes is the manager that was
/// named.
pub proof fn law_heads_are_told_by_their_output(object: HeadObject, h: HeadView, n: u64, m: u64)
    ensures
        object_for(object)(h).output == h.output,
        object_for(object)(h).object == object,
        other_number(n)(m) <==> m != n,
{
}

/// A text that is not there is empty.
pub proof fn law_missing_texts_are_empty(text: String)
    ensures
        text_or_empty(Some(text)) == text@,
        text_or_empty(None).len() == 0,
{
}

} // verus!
