//! What holds of the whole: of toggles, of what is offered for sharing, and of the windows
//! that other programs see.

use vstd::prelude::*;

use crate::desk::{or_else, Desk};
use crate::geometry::Rect;
use crate::keyboard::KeyContext;
use crate::pointer::ButtonContext;
use crate::press::{point_start, window_starts};
use crate::services::IdleInhibitors;
use crate::smallvil::{
    all_shareable, button_context, fullscreen_toggled, key_context, listed, maximize_toggled,
    numbered, offer_all, offers, only_desk_changed, shareable, unlisted, window_met, AnnouncedWindow,
    Smallvil, TitledWindow,
};
use crate::source_picker::PickableWindow;
use crate::toplevels::Toplevels;
use crate::wlr_foreign_toplevel::{
    handle_not, handle_open, made, number_not, state_seq, toplevel_action, with_objects, HandleView,
    ToplevelAction, ToplevelRequest, WlrForeignToplevelState,
};

verus! {

/// A toggle of the fullscreen mode takes a window out of the mode that is in it, and asks
/// for the mode for one that is not, on no output in particular.
pub proof fn law_toggling_fullscreen_turns_it_over(
    before: Desk,
    after: Desk,
    s: u64,
    r: crate::desk::Toggled,
)
    requires
        fullscreen_toggled(before, after, Some(s), false, r),
        before.facts.visible@.contains_key(s),
    ensures
        after.facts == before.facts,
        before.modes.fullscreen@.contains_key(s) ==> !after.modes.fullscreen@.contains_key(s)
            && r is Changed && r->Changed_0 == s && r->Changed_1.fullscreen == Some(false),
        !before.modes.fullscreen@.contains_key(s) ==> r is Entered && r->Entered_0 == s
            && before.facts.goes_fullscreen(before.modes@, after.modes@, s, None, r->Entered_1),
        !before.modes.fullscreen@.contains_key(s) && r->Entered_1.reply.fullscreen == Some(true)
            ==> after.modes.fullscreen@.contains_key(s),
{
    assert(after.modes@.fullscreen == after.modes.fullscreen@);
}

/// A toggle of the maximized mode takes a window out of the mode that is in it, and puts
/// one into it that is not.
pub proof fn law_toggling_maximized_turns_it_over(
    before: Desk,
    after: Desk,
    s: u64,
    shown: bool,
    r: crate::desk::Toggled,
)
    requires
        maximize_toggled(before, after, Some(s), false, shown, r),
        before.facts.visible@.contains_key(s),
    ensures
        after.facts == before.facts,
        r is Changed && r->Changed_0 == s,
        before.modes.maximized@.contains_key(s) ==> !after.modes.maximized@.contains_key(s)
            && r->Changed_1.maximized == Some(false),
        !before.modes.maximized@.contains_key(s) && r->Changed_1.maximized == Some(true)
            ==> after.modes.maximized@.contains_key(s),
        !before.modes.maximized@.contains_key(s) ==> r->Changed_1 == before.facts.maximize_reply(
            before.modes@,
            s,
            shown,
        ),
{
    assert(after.modes@.maximized == after.modes.maximized@);
}

/// Without a focused window that is seen, and while a layer surface has the keys to itself,
/// toggles change nothing.
pub proof fn law_toggles_need_a_window(
    before: Desk,
    after: Desk,
    focused: Option<u64>,
    exclusive_layer: bool,
    shown: bool,
    r: crate::desk::Toggled,
)
    requires
        exclusive_layer || focused is None || !before.facts.visible@.contains_key(focused->0),
        fullscreen_toggled(before, after, focused, exclusive_layer, r) || maximize_toggled(
            before,
            after,
            focused,
            exclusive_layer,
            shown,
            r,
        ),
    ensures
        r is Nothing,
        after.modes@ == before.modes@,
        after.facts == before.facts,
{
}

/// Where only the desk changes, everything else stays.
pub proof fn law_toggles_leave_everything_else(before: Smallvil, after: Smallvil)
    requires
        only_desk_changed(before, after),
    ensures
        after.top.numeric_ids == before.top.numeric_ids,
        after.top.urgent == before.top.urgent,
        after.top.focus_history == before.top.focus_history,
        after.session_locked == before.session_locked,
        after.active_submap == before.active_submap,
        after.switches == before.switches,
        after.screencast_picker == before.screencast_picker,
        after.ext_workspace_state == before.ext_workspace_state,
{
}

/// A key is judged by whether the session is locked and by the submap that is on, whatever
/// else was handed in.
pub proof fn law_keys_are_judged_by_the_session(s: Smallvil, context: KeyContext)
    ensures
        key_context(s, context).session_locked == s.session_locked,
        key_context(s, context).active_submap == s.active_submap,
        key_context(s, context).monitor == context.monitor,
        key_context(s, context).shortcuts_inhibited == context.shortcuts_inhibited,
        key_context(s, context).keybinds == context.keybinds,
        key_context(s, context).submaps == context.submaps,
{
}

/// A button is judged by the window that was met as the desk has it: its tile, its modes,
/// and the splits it may be resized by.
pub proof fn law_buttons_are_judged_by_the_desk(s: Smallvil, ctx: ButtonContext)
    ensures
        ({
            let r = button_context(s, ctx);
            let desk = s.top.desk;
            &&& r.session_locked == s.session_locked
            &&& r.button == ctx.button && r.pressed == ctx.pressed && r.logo == ctx.logo
            &&& r.grabbed == ctx.grabbed && r.popup_grab == ctx.popup_grab
            &&& r.layer == ctx.layer && r.exclusive_layer == ctx.exclusive_layer
            &&& r.point == ctx.point && r.gaps == ctx.gaps
            &&& r.on_split <==> point_start(desk.facts, ctx.gaps as int, ctx.point) is Some
            &&& ctx.window is None <==> r.window is None
            &&& ctx.window is Some ==> {
                let w = r.window->0;
                let surface = (ctx.window->0).surface;
                &&& w.surface == surface && w.rect == (ctx.window->0).rect
                &&& w.tiled <==> desk.facts.layouts.home(surface) is Some
                &&& w.has_tile <==> desk.facts.layouts.home(surface) is Some
                &&& w.fullscreen <==> desk.modes.fullscreen@.contains_key(surface)
                &&& w.maximized <==> desk.modes.maximized@.contains_key(surface)
                &&& w.has_resize_splits <==> window_starts(desk.facts, surface).len() > 0
            }
        }),
{
}

/// A window is met as it is: with its tile and its modes.
pub proof fn law_windows_are_met_as_they_are(desk: Desk, surface: u64, rect: Rect, splits: bool)
    ensures
        ({
            let w = window_met(desk, surface, rect, splits);
            &&& w.surface == surface && w.rect == rect && w.has_resize_splits == splits
            &&& w.tiled <==> desk.facts.layouts.home(surface) is Some
            &&& w.has_tile <==> desk.facts.layouts.home(surface) is Some
            &&& w.fullscreen <==> desk.modes.fullscreen@.contains_key(surface)
            &&& w.maximized <==> desk.modes.maximized@.contains_key(surface)
        }),
{
}

/// A window is shared under its number, as large as it is, and with whether it is mapped.
pub proof fn law_windows_are_shared_as_they_are(top: Toplevels, w: AnnouncedWindow)
    ensures
        ({
            let r = shareable(top, w);
            &&& top.numeric_ids@.contains_key(w.surface) ==> r.number == Some(
                top.numeric_ids@[w.surface],
            )
            &&& !top.numeric_ids@.contains_key(w.surface) ==> r.number is None
            &&& r.mapped <==> top.desk.facts.mapped(top.desk.modes@, w.surface)
            &&& r.on_output == w.on_output && r.width == w.width && r.height == w.height
        }),
{
}

/// All windows are shared, in order.
pub proof fn law_all_windows_are_shared(top: Toplevels, windows: Seq<AnnouncedWindow>, i: int)
    requires
        0 <= i < windows.len(),
    ensures
        all_shareable(top, windows).len() == windows.len(),
        all_shareable(top, windows)[i] == shareable(top, windows[i]),
{
}

/// Of the windows with a title, those with a number are offered, in order.
pub proof fn law_numbered_windows_are_offered(
    top: Toplevels,
    windows: Seq<TitledWindow>,
    t: TitledWindow,
)
    ensures
        numbered(top, Seq::empty()).len() == 0,
        top.numeric_ids@.contains_key(t.window.surface) ==> numbered(top, windows.push(t))
            == numbered(top, windows).push(t),
        !top.numeric_ids@.contains_key(t.window.surface) ==> numbered(top, windows.push(t))
            == numbered(top, windows),
{
    assert(windows.push(t).drop_last() =~= windows);
}

/// What is offered of a window is what it is: its number, its title, its size.
pub proof fn law_offers_tell_what_the_window_is(
    top: Toplevels,
    windows: Seq<TitledWindow>,
    pickable: Seq<PickableWindow>,
    i: int,
)
    requires
        offer_all(top, windows, pickable),
        0 <= i < pickable.len(),
    ensures
        ({
            let t = numbered(top, windows)[i];
            let p = pickable[i];
            &&& pickable.len() == numbered(top, windows).len()
            &&& shareable(top, t.window).number == Some(p.number)
            &&& p.title@ == t.title@
            &&& p.width == t.window.width && p.height == t.window.height
            &&& p.on_output == t.window.on_output
            &&& p.mapped <==> top.desk.facts.mapped(top.desk.modes@, t.window.surface)
        }),
{
    assert(offers(top, numbered(top, windows)[i], pickable[i]));
}

/// A window is listed with its objects, or not at all.
pub proof fn law_windows_are_listed_with_their_objects(
    state: WlrForeignToplevelState,
    id: u64,
    i: int,
)
    requires
        0 <= i < state.handles().len(),
        state.handles()[i].id == id,
    ensures
        listed(state, id, state.handles()[i].instances),
        !unlisted(state, id),
{
}

/// Each mode is told by its number, in four bytes: maximized before activated before
/// fullscreen.
pub proof fn law_modes_are_told_by_their_numbers(activated: bool, maximized: bool, fullscreen: bool)
    ensures
        ({
            let bytes = state_seq(activated, maximized, fullscreen);
            let n = (if maximized {
                4int
            } else {
                0
            });
            let m = n + (if activated {
                4int
            } else {
                0
            });
            &&& bytes.len() == m + (if fullscreen {
                4int
            } else {
                0
            })
            &&& maximized ==> bytes.subrange(0, 4) == seq![0u8, 0, 0, 0]
            &&& activated ==> bytes.subrange(n, n + 4) == seq![2u8, 0, 0, 0]
            &&& fullscreen ==> bytes.subrange(m, m + 4) == seq![3u8, 0, 0, 0]
        }),
{
    let bytes = state_seq(activated, maximized, fullscreen);
    let n = (if maximized {
        4int
    } else {
        0
    });
    let m = n + (if activated {
        4int
    } else {
        0
    });
    assert(maximized ==> bytes.subrange(0, 4) =~= seq![0u8, 0, 0, 0]);
    assert(activated ==> bytes.subrange(n, n + 4) =~= seq![2u8, 0, 0, 0]);
    assert(fullscreen ==> bytes.subrange(m, m + 4) =~= seq![3u8, 0, 0, 0]);
}

/// Every object that could be made is kept, in order.
pub proof fn law_the_objects_that_were_made_are_kept(created: Seq<Option<u64>>, object: u64)
    ensures
        made(Seq::empty()).len() == 0,
        made(created.push(Some(object))) == made(created).push(object),
        made(created.push(None)) == made(created),
{
    assert(created.push(Some(object)).drop_last() =~= created);
    assert(created.push(None).drop_last() =~= created);
}

/// A manager that comes gets an object of every window for which one could be made.
pub proof fn law_a_manager_gets_an_object_of_every_window(
    handles: Seq<HandleView>,
    created: Seq<Option<u64>>,
    i: int,
)
    requires
        0 <= i < handles.len(),
        created.len() == handles.len(),
    ensures
        ({
            let after = with_objects(handles, created);
            &&& after.len() == handles.len()
            &&& created[i] is Some ==> after[i].instances == handles[i].instances.push(created[i]->0)
            &&& created[i] is None ==> after[i].instances == handles[i].instances
            &&& after[i].id == handles[i].id && after[i].title == handles[i].title
                && after[i].app_id == handles[i].app_id && after[i].closed == handles[i].closed
        }),
{
}

/// What goes is what was named: a number, a window, or the windows that are closed.
pub proof fn law_only_what_was_named_goes(n: u64, m: u64, h: HandleView)
    ensures
        number_not(n)(m) <==> m != n,
        handle_not(n)(h) <==> h.id != n,
        handle_open()(h) <==> !h.closed,
{
}

/// A mapped window does what it is asked: it closes, and changes into a mode that it is not
/// in or out of one that it is in; a tiled window is not maximized.
pub proof fn law_mapped_windows_do_what_they_are_asked(desk: Desk, s: u64)
    requires
        desk.facts.mapped(desk.modes@, s),
    ensures
        ({
            let big = desk.modes.maximized@.contains_key(s);
            let full = desk.modes.fullscreen@.contains_key(s);
            let tile = desk.facts.layouts.home(s) is Some;
            &&& toplevel_action(desk, Some(s), ToplevelRequest::Close) == ToplevelAction::Close(s)
            &&& toplevel_action(desk, Some(s), ToplevelRequest::SetMaximized) == if !big && !tile {
                ToplevelAction::Maximize(s)
            } else {
                ToplevelAction::Nothing
            }
            &&& toplevel_action(desk, Some(s), ToplevelRequest::UnsetMaximized) == if big {
                ToplevelAction::Unmaximize(s)
            } else {
                ToplevelAction::Nothing
            }
            &&& toplevel_action(desk, Some(s), ToplevelRequest::SetFullscreen) == if !full {
                ToplevelAction::Fullscreen(s)
            } else {
                ToplevelAction::Nothing
            }
            &&& toplevel_action(desk, Some(s), ToplevelRequest::UnsetFullscreen) == if full {
                ToplevelAction::Unfullscreen(s)
            } else {
                ToplevelAction::Nothing
            }
        }),
{
}

/// A window that is not mapped can only be activated; minimizing, rectangles and destroyed
/// objects do nothing, and neither does anything that is asked of no window.
pub proof fn law_other_requests_do_nothing(desk: Desk, s: u64, request: ToplevelRequest)
    ensures
        toplevel_action(desk, None, request) == ToplevelAction::Nothing,
        toplevel_action(desk, Some(s), ToplevelRequest::Activate) == ToplevelAction::Activate(s),
        !desk.facts.mapped(desk.modes@, s) && request != ToplevelRequest::Activate
            ==> toplevel_action(desk, Some(s), request) == ToplevelAction::Nothing,
        request is SetMinimized || request is UnsetMinimized || request is SetRectangle
            || request is Destroy ==> toplevel_action(desk, Some(s), request)
            == ToplevelAction::Nothing,
{
}

/// The screen stays awake as long as any surface wants it.
pub proof fn law_the_screen_stays_awake_while_wanted(inhibitors: IdleInhibitors, s: u64)
    ensures
        inhibitors.counts@.contains_key(s) ==> inhibitors.awake(),
        inhibitors.counts@ == Map::<u64, u64>::empty() ==> !inhibitors.awake(),
        inhibitors.awake() ==> exists|t: u64| #[trigger] inhibitors.counts@.contains_key(t),
{
}

/// The first of two that is there is taken, and the second where it is not.
pub proof fn law_the_first_that_is_there_is_taken<T>(a: T, b: Option<T>)
    ensures
        or_else(Some(a), b) == Some(a),
        or_else(None::<T>, b) == b,
{
}

} // verus!
