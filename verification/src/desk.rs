//! Fullscreen and maximized windows: who may take an output, and what a window
//! goes back to.

use vstd::prelude::*;

use crate::assoc::Assoc;
use crate::bsp::Window;
use crate::geometry::{inset, inset_fits, inset_rect, Rect};
use crate::layouts::Layouts;
use crate::text::text_eq;

verus! {

/// A fullscreen window.
#[derive(Clone, Copy, Debug, PartialEq, Eq, Structural)]
pub struct FullscreenEntry {
    pub output: u64,
    /// Where the window goes back to when it floats.
    pub restore_rect: Option<Rect>,
    pub was_pinned: bool,
    pub pin_floated_it: bool,
}

/// A maximized window.
#[derive(Clone, Copy, Debug, PartialEq, Eq, Structural)]
pub struct MaximizedEntry {
    pub output: u64,
    pub restore_rect: Rect,
}

/// A floating window.
#[derive(Clone, Copy, Debug, PartialEq, Eq, Structural)]
pub struct FloatingTag {
    pub window: Window,
    pub output: u64,
    pub workspace: u32,
    pub rect: Rect,
}

/// An output that is in use.
pub struct DeskOutput {
    pub id: u64,
    pub name: String,
    pub geometry: Option<Rect>,
    /// What panels leave free of it.
    pub tiling_area: Option<Rect>,
    /// The gap between the windows of the workspace it shows.
    pub gaps: i32,
}

/// A window on the screen.
#[derive(Clone, Copy, Debug, PartialEq, Eq, Structural)]
pub struct VisibleWindow {
    pub window: Window,
    pub rect: Rect,
    pub output: Option<u64>,
}

/// A window of the spatial canvas.
#[derive(Clone, Copy, Debug, PartialEq, Eq, Structural)]
pub struct OceanWindow {
    pub window: Window,
    pub tiled: bool,
    pub output: u64,
    pub rect: Option<Rect>,
}

/// A window that was put away, with the output it came from.
#[derive(Clone, Copy, Debug, PartialEq, Eq, Structural)]
pub struct PutAway {
    pub window: Window,
    pub output: u64,
}

/// The output that a window belongs to. One that is not in use is known by its name alone.
pub enum HomeOutput {
    Number(u64),
    Name(String),
}

/// What a `HomeOutput` says.
pub enum HomeView {
    Number(u64),
    Name(Seq<char>),
}

impl View for HomeOutput {
    type V = HomeView;

    open spec fn view(&self) -> HomeView {
        match self {
            HomeOutput::Number(id) => HomeView::Number(*id),
            HomeOutput::Name(name) => HomeView::Name(name@),
        }
    }
}

/// What is said of a window's output.
pub open spec fn home_view(home: Option<HomeOutput>) -> Option<HomeView> {
    match home {
        Some(home) => Some(home@),
        None => None,
    }
}

/// What the rest of the desktop knows of the windows.
pub struct DeskFacts {
    pub layouts: Layouts,
    pub outputs: Vec<DeskOutput>,
    pub primary: Option<u64>,
    /// Windows that have no buffer.
    pub unmapped: Assoc<u64, Window>,
    pub visible: Assoc<u64, VisibleWindow>,
    pub ocean: Assoc<u64, OceanWindow>,
    /// The inactive members of window groups.
    pub parked: Assoc<u64, Window>,
    /// For the shown member of a window group, the member that takes its place when it
    /// goes.
    pub next_tab: Assoc<u64, Window>,
    pub put_away: Assoc<u64, PutAway>,
    /// The rectangles of the tiled windows.
    pub tiled_rects: Assoc<u64, Rect>,
}

/// The modes of the windows.
pub struct WindowModes {
    pub fullscreen: Assoc<u64, FullscreenEntry>,
    pub maximized: Assoc<u64, MaximizedEntry>,
    pub floating_workspace: Assoc<u64, FloatingTag>,
    pub pinned: Assoc<u64, ()>,
}

/// What the modes of the windows are.
#[verifier::ext_equal]
pub struct ModesView {
    pub fullscreen: Map<u64, FullscreenEntry>,
    pub maximized: Map<u64, MaximizedEntry>,
    pub floating: Map<u64, FloatingTag>,
    pub pinned: Map<u64, ()>,
}

impl View for WindowModes {
    type V = ModesView;

    open spec fn view(&self) -> ModesView {
        ModesView {
            fullscreen: self.fullscreen@,
            maximized: self.maximized@,
            floating: self.floating_workspace@,
            pinned: self.pinned@,
        }
    }
}

/// The windows, with what is known of them.
pub struct Desk {
    pub facts: DeskFacts,
    pub modes: WindowModes,
}

/// The size that a window is told.
#[derive(Clone, Copy, Debug, PartialEq, Eq, Structural)]
pub enum SizeReply {
    /// The one it was told before.
    Unchanged,
    /// The window chooses.
    Free,
    Fixed(i32, i32),
}

/// What a window is told in answer to a request, and what is done with it. Every
/// request is answered, be it only with what the window knew already.
#[derive(Clone, Copy, Debug, PartialEq, Eq)]
pub struct ModeReply {
    pub fullscreen: Option<bool>,
    pub maximized: Option<bool>,
    /// The window is told that it is not being resized.
    pub stop_resizing: bool,
    /// A drag that resizes it ends.
    pub cancel_drag: bool,
    pub size: SizeReply,
    /// Where the window is put.
    pub place: Option<(i32, i32)>,
    /// The output on which it is pinned again.
    pub pin_to: Option<u64>,
    /// Its floating place on the spatial canvas.
    pub ocean_rect: Option<Rect>,
    pub retile: bool,
}

/// The value under `k`.
pub open spec fn lookup<T>(m: Map<u64, T>, k: u64) -> Option<T> {
    if m.contains_key(k) {
        Some(m[k])
    } else {
        None
    }
}

/// The first of two that there is.
pub open spec fn or_else<T>(a: Option<T>, b: Option<T>) -> Option<T> {
    if a is Some {
        a
    } else {
        b
    }
}

/// The index of the first output of this number, and the number of outputs where
/// there is none.
pub open spec fn output_index(outputs: Seq<DeskOutput>, id: u64) -> int
    decreases outputs.len(),
{
    if outputs.len() == 0 || outputs[0].id == id {
        0
    } else {
        1 + output_index(outputs.skip(1), id)
    }
}

/// The number of the first output of this name.
pub open spec fn output_named(outputs: Seq<DeskOutput>, name: Seq<char>) -> Option<u64>
    decreases outputs.len(),
{
    if outputs.len() == 0 {
        None
    } else if outputs[0].name@ == name {
        Some(outputs[0].id)
    } else {
        output_named(outputs.skip(1), name)
    }
}

/// An answer that changes nothing.
pub open spec fn plain_reply() -> ModeReply {
    ModeReply {
        fullscreen: None,
        maximized: None,
        stop_resizing: false,
        cancel_drag: false,
        size: SizeReply::Unchanged,
        place: None,
        pin_to: None,
        ocean_rect: None,
        retile: false,
    }
}

/// The size of a rectangle, or the window's own choice.
pub open spec fn size_of(rect: Option<Rect>) -> SizeReply {
    match rect {
        Some(r) => SizeReply::Fixed(r.w, r.h),
        None => SizeReply::Free,
    }
}

impl DeskFacts {
    pub open spec fn wf(&self) -> bool {
        &&& self.layouts.wf()
        &&& self.unmapped.wf()
        &&& self.visible.wf()
        &&& self.ocean.wf()
        &&& self.parked.wf()
        &&& self.next_tab.wf()
        &&& self.put_away.wf()
        &&& self.tiled_rects.wf()
        &&& forall|i: int|
            0 <= i < self.outputs@.len() && (#[trigger] self.outputs@[i]).tiling_area is Some
                ==> inset_fits(self.outputs@[i].tiling_area->0, self.outputs@[i].gaps as int)
                && (self.outputs@[i].tiling_area->0).fits()
    }

    /// The output, if it is in use.
    pub open spec fn live(&self, id: Option<u64>) -> Option<u64> {
        if id is Some && output_index(self.outputs@, id->0) < self.outputs@.len() {
            id
        } else {
            None
        }
    }

    /// Where an output in use lies.
    pub open spec fn geometry_of(&self, id: u64) -> Option<Rect> {
        let i = output_index(self.outputs@, id);
        if i < self.outputs@.len() {
            self.outputs@[i].geometry
        } else {
            None
        }
    }

    /// The rectangle of a maximized window on an output.
    pub open spec fn maximized_rect(&self, id: u64) -> Option<Rect> {
        let i = output_index(self.outputs@, id);
        if i < self.outputs@.len() && self.outputs@[i].tiling_area is Some {
            Some(inset_rect(self.outputs@[i].tiling_area->0, self.outputs@[i].gaps as int))
        } else {
            None
        }
    }

    /// The workspace that an output shows.
    pub open spec fn workspace_on(&self, id: u64) -> u32 {
        let i = output_index(self.outputs@, id);
        if i < self.outputs@.len() {
            self.layouts.shown(self.outputs@[i].name@)
        } else {
            1
        }
    }

    /// The window is tiled on the spatial canvas.
    pub open spec fn ocean_tiled(&self, s: u64) -> bool {
        self.ocean@.contains_key(s) && self.ocean@[s].tiled
    }

    /// The window floats: it is tiled nowhere.
    pub open spec fn floats(&self, s: u64) -> bool {
        self.layouts.home(s) is None && !self.ocean_tiled(s)
    }

    /// The compositor shows or hides the window: it is mapped.
    pub open spec fn mapped(&self, modes: ModesView, s: u64) -> bool {
        ||| self.ocean@.contains_key(s)
        ||| self.layouts.home(s) is Some
        ||| modes.floating.contains_key(s)
        ||| self.parked@.contains_key(s)
        ||| self.put_away@.contains_key(s)
        ||| self.visible@.contains_key(s)
    }

    /// The window that shows a mapped surface.
    pub open spec fn mapped_window(&self, modes: ModesView, s: u64) -> Option<Window> {
        if self.ocean@.contains_key(s) {
            Some(self.ocean@[s].window)
        } else if self.layouts.home(s) is Some {
            crate::bsp::found(self.layouts.trees@[self.layouts.home(s)->0].root->0, s)
        } else if modes.floating.contains_key(s) {
            Some(modes.floating[s].window)
        } else if self.parked@.contains_key(s) {
            Some(self.parked@[s])
        } else if self.put_away@.contains_key(s) {
            Some(self.put_away@[s].window)
        } else if self.visible@.contains_key(s) {
            Some(self.visible@[s].window)
        } else {
            None
        }
    }

    /// The compositor knows the window, mapped or not.
    pub open spec fn known(&self, modes: ModesView, s: u64) -> bool {
        self.unmapped@.contains_key(s) || self.mapped(modes, s)
    }

    /// The output a window belongs to: where the canvas, the tiling, its floating
    /// place, or the place it was put away from says, in this order; else the one
    /// it is seen on.
    pub open spec fn preferred(&self, modes: ModesView, s: u64) -> Option<HomeView> {
        if self.ocean@.contains_key(s) {
            Some(HomeView::Number(self.ocean@[s].output))
        } else if self.layouts.home(s) is Some {
            let name = (self.layouts.home(s)->0).0;
            match output_named(self.outputs@, name) {
                Some(id) => Some(HomeView::Number(id)),
                None => Some(HomeView::Name(name)),
            }
        } else if modes.floating.contains_key(s) {
            Some(HomeView::Number(modes.floating[s].output))
        } else if self.put_away@.contains_key(s) {
            Some(HomeView::Number(self.put_away@[s].output))
        } else if self.visible@.contains_key(s) && self.visible@[s].output is Some {
            Some(HomeView::Number(self.visible@[s].output->0))
        } else {
            None
        }
    }

    /// The number of the output a window belongs to.
    pub open spec fn owner(&self, modes: ModesView, s: u64) -> Option<u64> {
        match self.preferred(modes, s) {
            Some(HomeView::Number(id)) => Some(id),
            _ => None,
        }
    }

    /// The output that a window takes when it goes fullscreen. A window that is
    /// mapped stays on the output it belongs to; before, the output asked for is
    /// heeded.
    pub open spec fn fullscreen_target(&self, modes: ModesView, s: u64, requested: Option<u64>) -> Option<
        u64,
    > {
        if self.unmapped@.contains_key(s) {
            or_else(requested, self.primary)
        } else {
            or_else(or_else(self.live(self.owner(modes, s)), requested), self.primary)
        }
    }

    /// Where a window goes back to when it stops being fullscreen and floats.
    pub open spec fn restore_of(&self, modes: ModesView, s: u64) -> Option<Rect> {
        or_else(
            or_else(
                modes.fullscreen[s].restore_rect,
                if modes.floating.contains_key(s) {
                    Some(modes.floating[s].rect)
                } else {
                    None
                },
            ),
            if self.ocean@.contains_key(s) {
                self.ocean@[s].rect
            } else {
                None
            },
        )
    }

    /// The rectangle a window has when it stops being fullscreen and is maximized.
    pub open spec fn max_restore(&self, modes: ModesView, s: u64) -> Option<Rect> {
        if modes.maximized.contains_key(s) {
            self.maximized_rect(modes.maximized[s].output)
        } else {
            None
        }
    }

    /// The modes after `s` stopped being fullscreen.
    pub open spec fn unfullscreened(&self, modes: ModesView, s: u64) -> ModesView {
        if !modes.fullscreen.contains_key(s) {
            modes
        } else {
            let entry = modes.fullscreen[s];
            let restore = self.restore_of(modes, s);
            ModesView {
                fullscreen: modes.fullscreen.remove(s),
                maximized: if self.floats(s) {
                    modes.maximized
                } else {
                    modes.maximized.remove(s)
                },
                floating: if self.floats(s) && modes.floating.contains_key(s) && restore is Some {
                    modes.floating.insert(s, FloatingTag { rect: restore->0, ..modes.floating[s] })
                } else {
                    modes.floating
                },
                pinned: if self.floats(s) && entry.was_pinned {
                    modes.pinned.insert(s, ())
                } else {
                    modes.pinned
                },
            }
        }
    }

    /// What `s` is told when it stops being fullscreen: it goes back to being
    /// maximized where it was, else to its old place; a tiled one to its tile.
    pub open spec fn unfullscreen_reply(&self, modes: ModesView, s: u64) -> ModeReply {
        if !modes.fullscreen.contains_key(s) {
            ModeReply { fullscreen: Some(false), ..plain_reply() }
        } else if !self.floats(s) {
            ModeReply {
                fullscreen: Some(false),
                maximized: Some(false),
                size: size_of(lookup(self.tiled_rects@, s)),
                retile: true,
                ..plain_reply()
            }
        } else {
            let entry = modes.fullscreen[s];
            let restore = self.restore_of(modes, s);
            let max_rect = self.max_restore(modes, s);
            let target = or_else(max_rect, restore);
            let placeable = self.visible@.contains_key(s) || (entry.was_pinned
                && modes.floating.contains_key(s));
            ModeReply {
                fullscreen: Some(false),
                maximized: Some(max_rect is Some),
                size: size_of(target),
                place: if placeable && target is Some {
                    Some(((target->0).x, (target->0).y))
                } else {
                    None
                },
                pin_to: if entry.was_pinned {
                    Some(entry.output)
                } else {
                    None
                },
                ocean_rect: restore,
                retile: true,
                ..plain_reply()
            }
        }
    }

    /// The window to make room for `s` on an output: another that is fullscreen
    /// there.
    pub open spec fn in_the_way(modes: ModesView, s: u64, output: u64, other: u64) -> bool {
        other != s && modes.fullscreen.contains_key(other) && modes.fullscreen[other].output
            == output
    }

    /// Where `s`, going fullscreen, goes back to later.
    pub open spec fn remembered(&self, modes: ModesView, s: u64) -> Option<Rect> {
        or_else(
            or_else(
                if modes.fullscreen.contains_key(s) {
                    modes.fullscreen[s].restore_rect
                } else {
                    None
                },
                if modes.maximized.contains_key(s) {
                    Some(modes.maximized[s].restore_rect)
                } else {
                    None
                },
            ),
            if !self.unmapped@.contains_key(s) && self.floats(s) && self.visible@.contains_key(s) {
                Some(self.visible@[s].rect)
            } else {
                None
            },
        )
    }

    /// The modes after `s` took `output`, with nobody else in the way.
    pub open spec fn fullscreened(&self, modes: ModesView, s: u64, output: u64) -> ModesView {
        let was_pinned_before = modes.fullscreen.contains_key(s) && modes.fullscreen[s].was_pinned;
        let was_pinned = was_pinned_before || modes.pinned.contains_key(s);
        ModesView {
            fullscreen: modes.fullscreen.insert(
                s,
                FullscreenEntry {
                    output,
                    restore_rect: self.remembered(modes, s),
                    was_pinned,
                    pin_floated_it: false,
                },
            ),
            maximized: modes.maximized,
            floating: if was_pinned && modes.floating.contains_key(s) {
                modes.floating.insert(
                    s,
                    FloatingTag {
                        output,
                        workspace: self.workspace_on(output),
                        ..modes.floating[s]
                    },
                )
            } else {
                modes.floating
            },
            pinned: if was_pinned_before {
                modes.pinned
            } else {
                modes.pinned.remove(s)
            },
        }
    }
}

impl WindowModes {
    pub open spec fn wf(&self) -> bool {
        &&& self.fullscreen.wf()
        &&& self.maximized.wf()
        &&& self.floating_workspace.wf()
        &&& self.pinned.wf()
        &&& one_per_output(self@)
    }
}

/// No two windows are fullscreen on the same output.
pub open spec fn one_per_output(modes: ModesView) -> bool {
    forall|a: u64, b: u64|
        #![trigger modes.fullscreen[a], modes.fullscreen[b]]
        modes.fullscreen.contains_key(a) && modes.fullscreen.contains_key(b)
            && modes.fullscreen[a].output == modes.fullscreen[b].output ==> a == b
}

fn get_copy<T: Copy>(map: &Assoc<u64, T>, k: u64) -> (r: Option<T>)
    requires
        map.wf(),
    ensures
        r == lookup(map@, k),
{
    match map.get(&k) {
        Some(v) => Some(*v),
        None => None,
    }
}

fn first<T>(a: Option<T>, b: Option<T>) -> (r: Option<T>)
    ensures
        r == or_else(a, b),
{
    match a {
        Some(v) => Some(v),
        None => b,
    }
}

fn told_size(rect: Option<Rect>) -> (r: SizeReply)
    ensures
        r == size_of(rect),
{
    match rect {
        Some(r) => SizeReply::Fixed(r.w, r.h),
        None => SizeReply::Free,
    }
}

fn plain() -> (r: ModeReply)
    ensures
        r == plain_reply(),
{
    ModeReply {
        fullscreen: None,
        maximized: None,
        stop_resizing: false,
        cancel_drag: false,
        size: SizeReply::Unchanged,
        place: None,
        pin_to: None,
        ocean_rect: None,
        retile: false,
    }
}

impl DeskFacts {
    pub fn find_output(&self, id: u64) -> (r: Option<usize>)
        ensures
            match r {
                Some(i) => i < self.outputs@.len() && i == output_index(self.outputs@, id),
                None => output_index(self.outputs@, id) >= self.outputs@.len(),
            },
    {
        let ghost all = self.outputs@;
        let mut i: usize = 0;
        assert(all.skip(0) =~= all);
        while i < self.outputs.len()
            invariant
                i <= all.len(),
                all == self.outputs@,
                output_index(all, id) == i + output_index(all.skip(i as int), id),
            decreases all.len() - i,
        {
            assert(all.skip(i as int)[0] == all[i as int]);
            assert(all.skip(i as int).skip(1) =~= all.skip(i + 1));
            if self.outputs[i].id == id {
                return Some(i);
            }
            i += 1;
        }
        None
    }

    pub fn find_named(&self, name: &str) -> (r: Option<u64>)
        ensures
            r == output_named(self.outputs@, name@),
    {
        let ghost all = self.outputs@;
        let mut i: usize = 0;
        assert(all.skip(0) =~= all);
        while i < self.outputs.len()
            invariant
                i <= all.len(),
                all == self.outputs@,
                output_named(all, name@) == output_named(all.skip(i as int), name@),
            decreases all.len() - i,
        {
            assert(all.skip(i as int)[0] == all[i as int]);
            assert(all.skip(i as int).skip(1) =~= all.skip(i + 1));
            if text_eq(self.outputs[i].name.as_str(), name) {
                return Some(self.outputs[i].id);
            }
            i += 1;
        }
        None
    }

    pub fn live_output(&self, id: Option<u64>) -> (r: Option<u64>)
        ensures
            r == self.live(id),
    {
        match id {
            Some(o) => match self.find_output(o) {
                Some(_) => id,
                None => None,
            },
            None => None,
        }
    }

    fn output_geometry(&self, id: u64) -> (r: Option<Rect>)
        ensures
            r == self.geometry_of(id),
    {
        match self.find_output(id) {
            Some(i) => self.outputs[i].geometry,
            None => None,
        }
    }

    fn output_maximized_rect(&self, id: u64) -> (r: Option<Rect>)
        requires
            self.wf(),
        ensures
            r == self.maximized_rect(id),
    {
        match self.find_output(id) {
            Some(i) => match self.outputs[i].tiling_area {
                Some(area) => Some(inset(area, self.outputs[i].gaps)),
                None => None,
            },
            None => None,
        }
    }

    pub fn output_workspace(&self, id: u64) -> (r: u32)
        requires
            self.wf(),
        ensures
            r == self.workspace_on(id),
    {
        match self.find_output(id) {
            Some(i) => self.layouts.active_workspace(self.outputs[i].name.as_str()),
            None => 1,
        }
    }

    pub fn is_floating(&self, s: u64) -> (r: bool)
        requires
            self.wf(),
        ensures
            r == self.floats(s),
    {
        if self.layouts.contains(s) {
            return false;
        }
        match self.ocean.get(&s) {
            Some(w) => !w.tiled,
            None => true,
        }
    }
}

impl Desk {
    pub open spec fn wf(&self) -> bool {
        self.facts.wf() && self.modes.wf()
    }

    /// Whether the compositor shows or hides the window, as opposed to not having
    /// mapped it.
    pub fn is_mapped(&self, s: u64) -> (r: bool)
        requires
            self.wf(),
        ensures
            r == self.facts.mapped(self.modes@, s),
    {
        self.facts.ocean.contains(&s) || self.facts.layouts.contains(s)
            || self.modes.floating_workspace.contains(&s) || self.facts.parked.contains(&s)
            || self.facts.put_away.contains(&s) || self.facts.visible.contains(&s)
    }

    /// The window that shows a mapped surface, be it hidden.
    pub fn mapped_toplevel_window(&self, s: u64) -> (r: Option<Window>)
        requires
            self.wf(),
        ensures
            r == self.facts.mapped_window(self.modes@, s),
            r is Some == self.facts.mapped(self.modes@, s),
    {
        if let Some(w) = self.facts.ocean.get(&s) {
            return Some(w.window);
        }
        if let Some(window) = self.facts.layouts.window_of(s) {
            return Some(window);
        }
        if let Some(tag) = self.modes.floating_workspace.get(&s) {
            return Some(tag.window);
        }
        if let Some(window) = self.facts.parked.get(&s) {
            return Some(*window);
        }
        if let Some(entry) = self.facts.put_away.get(&s) {
            return Some(entry.window);
        }
        match self.facts.visible.get(&s) {
            Some(w) => Some(w.window),
            None => None,
        }
    }

    /// The window that shows a surface, mapped or not.
    pub fn toplevel_window(&self, s: u64) -> (r: Option<Window>)
        requires
            self.wf(),
        ensures
            r == or_else(lookup(self.facts.unmapped@, s), self.facts.mapped_window(self.modes@, s)),
            r is Some == self.facts.known(self.modes@, s),
    {
        match self.facts.unmapped.get(&s) {
            Some(window) => Some(*window),
            None => self.mapped_toplevel_window(s),
        }
    }

    /// Whether the compositor knows the window.
    pub fn is_known(&self, s: u64) -> (r: bool)
        requires
            self.wf(),
        ensures
            r == self.facts.known(self.modes@, s),
    {
        self.facts.unmapped.contains(&s) || self.is_mapped(s)
    }

    /// The output a window belongs to.
    pub fn preferred_output_for_toplevel(&self, s: u64) -> (r: Option<HomeOutput>)
        requires
            self.wf(),
        ensures
            home_view(r) == self.facts.preferred(self.modes@, s),
    {
        if let Some(w) = self.facts.ocean.get(&s) {
            return Some(HomeOutput::Number(w.output));
        }
        if let Some(name) = self.facts.layouts.output_of(s) {
            return match self.facts.find_named(name.as_str()) {
                Some(id) => Some(HomeOutput::Number(id)),
                None => Some(HomeOutput::Name(name)),
            };
        }
        if let Some(tag) = self.modes.floating_workspace.get(&s) {
            return Some(HomeOutput::Number(tag.output));
        }
        if let Some(entry) = self.facts.put_away.get(&s) {
            return Some(HomeOutput::Number(entry.output));
        }
        match self.facts.visible.get(&s) {
            Some(w) => match w.output {
                Some(id) => Some(HomeOutput::Number(id)),
                None => None,
            },
            None => None,
        }
    }

    fn owner_output(&self, s: u64) -> (r: Option<u64>)
        requires
            self.wf(),
        ensures
            r == self.facts.owner(self.modes@, s),
    {
        match self.preferred_output_for_toplevel(s) {
            Some(HomeOutput::Number(id)) => Some(id),
            _ => None,
        }
    }

    /// Ends the fullscreen mode of `s`.
    pub fn do_unfullscreen(&mut self, s: u64) -> (r: ModeReply)
        requires
            old(self).wf(),
        ensures
            final(self).wf(),
            final(self).facts == old(self).facts,
            final(self).modes@ == old(self).facts.unfullscreened(old(self).modes@, s),
            r == old(self).facts.unfullscreen_reply(old(self).modes@, s),
    {
        let ghost before = self.modes@;
        let mut reply: ModeReply = plain();
        reply.fullscreen = Some(false);
        let entry: FullscreenEntry = match self.modes.fullscreen.remove(&s) {
            Some(entry) => entry,
            None => {
                assert(self.modes@ =~= before);
                return reply;
            },
        };
        reply.retile = true;
        if !self.facts.is_floating(s) {
            let _ = self.modes.maximized.remove(&s);
            reply.maximized = Some(false);
            reply.size = told_size(get_copy(&self.facts.tiled_rects, s));
            assert(self.modes@ =~= self.facts.unfullscreened(before, s));
            return reply;
        }
        let tag: Option<FloatingTag> = get_copy(&self.modes.floating_workspace, s);
        let restore: Option<Rect> = first(
            first(
                entry.restore_rect,
                match tag {
                    Some(t) => Some(t.rect),
                    None => None,
                },
            ),
            match get_copy(&self.facts.ocean, s) {
                Some(w) => w.rect,
                None => None,
            },
        );
        let max_rect: Option<Rect> = match get_copy(&self.modes.maximized, s) {
            Some(m) => self.facts.output_maximized_rect(m.output),
            None => None,
        };
        assert(restore == self.facts.restore_of(before, s));
        assert(max_rect == self.facts.max_restore(before, s));
        let target: Option<Rect> = first(max_rect, restore);
        reply.maximized = Some(max_rect.is_some());
        reply.size = told_size(target);
        reply.ocean_rect = restore;
        let placeable = self.facts.visible.contains(&s) || (entry.was_pinned && tag.is_some());
        if placeable {
            if let Some(rect) = target {
                reply.place = Some((rect.x, rect.y));
            }
        }
        if let Some(t) = tag {
            if let Some(rect) = restore {
                self.modes.floating_workspace.insert(s, FloatingTag { rect, ..t });
            }
        }
        if entry.was_pinned {
            self.modes.pinned.insert(s, ());
            reply.pin_to = Some(entry.output);
        }
        assert(self.modes@ =~= self.facts.unfullscreened(before, s));
        reply
    }
}

/// A window that another one took the output from.
#[derive(Clone, Copy, Debug, PartialEq, Eq)]
pub struct Preempted {
    pub surface: u64,
    /// What it is told; nothing where the compositor no longer knows it.
    pub reply: Option<ModeReply>,
}

/// What comes of a request to go fullscreen.
#[derive(Clone, Copy, Debug, PartialEq, Eq)]
pub struct FullscreenOutcome {
    pub reply: ModeReply,
    pub preempted: Option<Preempted>,
}

/// What a request to go fullscreen comes to.
pub enum FullscreenStep {
    /// An answer, without a change.
    Answer(ModeReply),
    /// The window takes the output.
    Take { output: u64, geometry: Rect },
}

/// What a window is told that is fullscreen on an output that lies there.
pub open spec fn fullscreen_reply(geometry: Rect) -> ModeReply {
    ModeReply {
        fullscreen: Some(true),
        maximized: Some(false),
        stop_resizing: true,
        cancel_drag: true,
        size: SizeReply::Fixed(geometry.w, geometry.h),
        retile: true,
        ..plain_reply()
    }
}

impl DeskFacts {
    /// What a request of `s` to go fullscreen comes to. One that the compositor
    /// does not know, or that there is no output for, is only answered; so is one
    /// that is fullscreen there already, with its mode confirmed.
    pub open spec fn fullscreen_step(&self, modes: ModesView, s: u64, requested: Option<u64>) -> FullscreenStep {
        let refusal = ModeReply { stop_resizing: true, cancel_drag: true, ..plain_reply() };
        if !self.known(modes, s) {
            FullscreenStep::Answer(plain_reply())
        } else {
            match self.fullscreen_target(modes, s, requested) {
                None => FullscreenStep::Answer(refusal),
                Some(output) => match self.geometry_of(output) {
                    None => FullscreenStep::Answer(refusal),
                    Some(geometry) => if modes.fullscreen.contains_key(s)
                        && modes.fullscreen[s].output == output {
                        FullscreenStep::Answer(fullscreen_reply(geometry))
                    } else {
                        FullscreenStep::Take { output, geometry }
                    },
                },
            }
        }
    }

    /// The modes after `other` made room.
    pub open spec fn made_room(&self, modes: ModesView, other: u64) -> ModesView {
        if self.known(modes, other) {
            self.unfullscreened(modes, other)
        } else {
            ModesView { fullscreen: modes.fullscreen.remove(other), ..modes }
        }
    }

    /// What `other` is told when it makes room.
    pub open spec fn room_reply(&self, modes: ModesView, other: u64) -> Option<ModeReply> {
        if self.known(modes, other) {
            Some(self.unfullscreen_reply(modes, other))
        } else {
            None
        }
    }

    /// `s` asks to go fullscreen, on an output of its choice where it names one, and is
    /// answered. Where it takes an output, the window that is in the way there, if there
    /// is one, makes room and is told so; every other window keeps its modes.
    pub open spec fn goes_fullscreen(
        &self,
        before: ModesView,
        after: ModesView,
        s: u64,
        requested: Option<u64>,
        outcome: FullscreenOutcome,
    ) -> bool {
        match self.fullscreen_step(before, s, requested) {
            FullscreenStep::Answer(reply) => {
                &&& outcome.reply == reply
                &&& outcome.preempted is None
                &&& after == before
            },
            FullscreenStep::Take { output, geometry } => {
                &&& outcome.reply == fullscreen_reply(geometry)
                &&& match outcome.preempted {
                    Some(p) => {
                        &&& DeskFacts::in_the_way(before, s, output, p.surface)
                        &&& p.reply == self.room_reply(before, p.surface)
                        &&& after == self.fullscreened(
                            self.made_room(before, p.surface),
                            s,
                            output,
                        )
                    },
                    None => {
                        &&& forall|other: u64| !#[trigger] DeskFacts::in_the_way(
                            before,
                            s,
                            output,
                            other,
                        )
                        &&& after == self.fullscreened(before, s, output)
                    },
                }
            },
        }
    }
}

impl Desk {
    fn find_in_the_way(&self, s: u64, output: u64) -> (r: Option<u64>)
        requires
            self.wf(),
        ensures
            match r {
                Some(other) => DeskFacts::in_the_way(self.modes@, s, output, other),
                None => forall|other: u64| !#[trigger] DeskFacts::in_the_way(
                    self.modes@,
                    s,
                    output,
                    other,
                ),
            },
    {
        let ghost map = self.modes.fullscreen;
        let mut i: usize = 0;
        while i < self.modes.fullscreen.entries.len()
            invariant
                self.wf(),
                map == self.modes.fullscreen,
                i <= map.entries@.len(),
                forall|j: int|
                    0 <= j < i ==> (#[trigger] map.entries@[j]).0 == s || map.entries@[j].1.output
                        != output,
            decreases map.entries@.len() - i,
        {
            let surface: u64 = self.modes.fullscreen.entries[i].0;
            if surface != s && self.modes.fullscreen.entries[i].1.output == output {
                proof {
                    map.lemma_entry(i as int);
                }
                return Some(surface);
            }
            i += 1;
        }
        proof {
            assert forall|other: u64| !#[trigger] DeskFacts::in_the_way(
                self.modes@,
                s,
                output,
                other,
            ) by {
                if map@.contains_key(other) {
                    let j = map.slot(other);
                    map.lemma_entry(j);
                }
            }
        }
        None
    }

    /// A window asks to go fullscreen, on an output of its choice where it names
    /// one. Whoever was fullscreen there makes room.
    pub fn do_fullscreen_request(&mut self, s: u64, requested: Option<u64>) -> (r: FullscreenOutcome)
        requires
            old(self).wf(),
        ensures
            final(self).wf(),
            final(self).facts == old(self).facts,
            old(self).facts.goes_fullscreen(
                old(self).modes@,
                final(self).modes@,
                s,
                requested,
                r,
            ),
    {
        let mut refusal: ModeReply = plain();
        if !self.is_known(s) {
            return FullscreenOutcome { reply: refusal, preempted: None };
        }
        refusal.stop_resizing = true;
        refusal.cancel_drag = true;
        let target: Option<u64> = if self.facts.unmapped.contains(&s) {
            first(requested, self.facts.primary)
        } else {
            let owned = self.facts.live_output(self.owner_output(s));
            first(first(owned, requested), self.facts.primary)
        };
        let output: u64 = match target {
            Some(output) => output,
            None => {
                return FullscreenOutcome { reply: refusal, preempted: None };
            },
        };
        let geometry: Rect = match self.facts.output_geometry(output) {
            Some(geometry) => geometry,
            None => {
                return FullscreenOutcome { reply: refusal, preempted: None };
            },
        };
        let mut reply: ModeReply = refusal;
        reply.fullscreen = Some(true);
        reply.maximized = Some(false);
        reply.size = SizeReply::Fixed(geometry.w, geometry.h);
        reply.retile = true;
        if let Some(entry) = self.modes.fullscreen.get(&s) {
            if entry.output == output {
                return FullscreenOutcome { reply, preempted: None };
            }
        }
        let ghost before = self.modes@;
        let preempted: Option<Preempted> = match self.find_in_the_way(s, output) {
            None => None,
            Some(other) => {
                if self.is_known(other) {
                    let told = self.do_unfullscreen(other);
                    Some(Preempted { surface: other, reply: Some(told) })
                } else {
                    let _ = self.modes.fullscreen.remove(&other);
                    Some(Preempted { surface: other, reply: None })
                }
            },
        };
        let ghost mid = self.modes@;
        proof {
            assert forall|other: u64| other != s && mid.fullscreen.contains_key(other) implies (
            #[trigger] mid.fullscreen[other]).output != output by {
                assert(before.fullscreen.contains_key(other));
                assert(mid.fullscreen[other] == before.fullscreen[other]);
                if before.fullscreen[other].output == output {
                    assert(DeskFacts::in_the_way(before, s, output, other));
                    assert(preempted is Some);
                    assert(before.fullscreen[(preempted->0).surface].output == output);
                }
            }
        }
        let previous: Option<FullscreenEntry> = self.modes.fullscreen.remove(&s);
        let (previous_rect, previous_pinned): (Option<Rect>, bool) = match previous {
            Some(entry) => (entry.restore_rect, entry.was_pinned),
            None => (None, false),
        };
        let from_max: Option<Rect> = match get_copy(&self.modes.maximized, s) {
            Some(m) => Some(m.restore_rect),
            None => None,
        };
        let from_screen: Option<Rect> = if !self.facts.unmapped.contains(&s)
            && self.facts.is_floating(s) {
            match get_copy(&self.facts.visible, s) {
                Some(w) => Some(w.rect),
                None => None,
            }
        } else {
            None
        };
        let restore_rect: Option<Rect> = first(first(previous_rect, from_max), from_screen);
        assert(restore_rect == self.facts.remembered(mid, s));
        let was_pinned = if previous_pinned {
            true
        } else {
            self.modes.pinned.remove(&s).is_some()
        };
        if was_pinned {
            if let Some(tag) = get_copy(&self.modes.floating_workspace, s) {
                let workspace: u32 = self.facts.output_workspace(output);
                self.modes.floating_workspace.insert(s, FloatingTag { output, workspace, ..tag });
            }
        }
        self.modes.fullscreen.insert(
            s,
            FullscreenEntry { output, restore_rect, was_pinned, pin_floated_it: false },
        );
        assert(self.modes@ =~= self.facts.fullscreened(mid, s, output));
        FullscreenOutcome { reply, preempted }
    }
}

/// What a request to be maximized comes to.
pub enum MaximizeStep {
    /// The window is tiled: it fills its tile as it is.
    Tiled,
    /// The window is not mapped.
    Unmapped,
    /// The compositor does not know the window.
    Unknown,
    /// There is no room to take, or nothing to go back to.
    Refused,
    /// The window takes the tiling area of an output; it is remembered where it
    /// goes back to, unless that is remembered already.
    Take { rect: Rect, remember: Option<MaximizedEntry> },
}

impl DeskFacts {
    /// Where a window that is maximized goes back to.
    pub open spec fn unmaximized_rect(&self, modes: ModesView, s: u64) -> Option<Rect> {
        or_else(
            or_else(
                if modes.fullscreen.contains_key(s) {
                    modes.fullscreen[s].restore_rect
                } else {
                    None
                },
                if self.visible@.contains_key(s) {
                    Some(self.visible@[s].rect)
                } else {
                    None
                },
            ),
            if modes.floating.contains_key(s) {
                Some(modes.floating[s].rect)
            } else {
                None
            },
        )
    }

    /// What a request of `s` to be maximized comes to.
    pub open spec fn maximize_step(&self, modes: ModesView, s: u64) -> MaximizeStep {
        if !self.floats(s) {
            MaximizeStep::Tiled
        } else if self.unmapped@.contains_key(s) {
            MaximizeStep::Unmapped
        } else if !self.known(modes, s) {
            MaximizeStep::Unknown
        } else {
            match or_else(self.live(self.owner(modes, s)), self.primary) {
                None => MaximizeStep::Refused,
                Some(output) => match self.maximized_rect(output) {
                    None => MaximizeStep::Refused,
                    Some(rect) => if modes.maximized.contains_key(s) {
                        MaximizeStep::Take { rect, remember: None }
                    } else {
                        match self.unmaximized_rect(modes, s) {
                            None => MaximizeStep::Refused,
                            Some(restore_rect) => MaximizeStep::Take {
                                rect,
                                remember: Some(MaximizedEntry { output, restore_rect }),
                            },
                        }
                    },
                },
            }
        }
    }

    /// The modes after a request to be maximized.
    pub open spec fn maximized(&self, modes: ModesView, s: u64) -> ModesView {
        match self.maximize_step(modes, s) {
            MaximizeStep::Tiled => ModesView { maximized: modes.maximized.remove(s), ..modes },
            MaximizeStep::Unmapped => ModesView { maximized: modes.maximized.remove(s), ..modes },
            MaximizeStep::Unknown => modes,
            MaximizeStep::Refused => modes,
            MaximizeStep::Take { remember: Some(entry), .. } => ModesView {
                maximized: modes.maximized.insert(s, entry),
                ..modes
            },
            MaximizeStep::Take { remember: None, .. } => modes,
        }
    }

    /// What a window that asks to be maximized is told. While it is fullscreen it
    /// is told nothing of it: the mode only waits for the fullscreen mode to end.
    pub open spec fn maximize_reply(&self, modes: ModesView, s: u64, shown: bool) -> ModeReply {
        match self.maximize_step(modes, s) {
            MaximizeStep::Tiled => ModeReply {
                maximized: Some(false),
                fullscreen: if modes.fullscreen.contains_key(s) {
                    Some(true)
                } else {
                    None
                },
                stop_resizing: true,
                ..plain_reply()
            },
            MaximizeStep::Unmapped => ModeReply { maximized: Some(false), ..plain_reply() },
            MaximizeStep::Unknown => plain_reply(),
            MaximizeStep::Refused => ModeReply { cancel_drag: true, ..plain_reply() },
            MaximizeStep::Take { rect, .. } => if modes.fullscreen.contains_key(s) {
                ModeReply { cancel_drag: true, retile: true, ..plain_reply() }
            } else {
                ModeReply {
                    maximized: Some(true),
                    fullscreen: Some(false),
                    stop_resizing: true,
                    cancel_drag: true,
                    size: SizeReply::Fixed(rect.w, rect.h),
                    place: if shown {
                        Some((rect.x, rect.y))
                    } else {
                        None
                    },
                    retile: true,
                    ..plain_reply()
                }
            },
        }
    }

    /// The modes after a window stopped being maximized. One that is fullscreen
    /// stays so, and only forgets that it was maximized.
    pub open spec fn unmaximized(&self, modes: ModesView, s: u64) -> ModesView {
        ModesView {
            maximized: modes.maximized.remove(s),
            floating: if modes.maximized.contains_key(s) && !modes.fullscreen.contains_key(s)
                && modes.floating.contains_key(s) {
                modes.floating.insert(
                    s,
                    FloatingTag {
                        rect: modes.maximized[s].restore_rect,
                        ..modes.floating[s]
                    },
                )
            } else {
                modes.floating
            },
            ..modes
        }
    }

    /// What a window that stops being maximized is told.
    pub open spec fn unmaximize_reply(&self, modes: ModesView, s: u64) -> ModeReply {
        if modes.fullscreen.contains_key(s) {
            ModeReply { maximized: Some(false), ..plain_reply() }
        } else if modes.maximized.contains_key(s) {
            let rect = modes.maximized[s].restore_rect;
            ModeReply {
                maximized: Some(false),
                size: SizeReply::Fixed(rect.w, rect.h),
                place: if self.visible@.contains_key(s) {
                    Some((rect.x, rect.y))
                } else {
                    None
                },
                retile: true,
                ..plain_reply()
            }
        } else {
            ModeReply { maximized: Some(false), retile: true, ..plain_reply() }
        }
    }
}

impl Desk {
    /// A window asks to be maximized. `shown` tells whether it is on the screen.
    pub fn do_maximize_request(&mut self, s: u64, shown: bool) -> (r: ModeReply)
        requires
            old(self).wf(),
        ensures
            final(self).wf(),
            final(self).facts == old(self).facts,
            final(self).modes@ == old(self).facts.maximized(old(self).modes@, s),
            r == old(self).facts.maximize_reply(old(self).modes@, s, shown),
    {
        let ghost before = self.modes@;
        let mut reply: ModeReply = plain();
        let is_fullscreen = self.modes.fullscreen.contains(&s);
        if !self.facts.is_floating(s) {
            let _ = self.modes.maximized.remove(&s);
            reply.maximized = Some(false);
            reply.stop_resizing = true;
            if is_fullscreen {
                reply.fullscreen = Some(true);
            }
            assert(self.modes@ =~= self.facts.maximized(before, s));
            return reply;
        }
        if self.facts.unmapped.contains(&s) {
            let _ = self.modes.maximized.remove(&s);
            reply.maximized = Some(false);
            assert(self.modes@ =~= self.facts.maximized(before, s));
            return reply;
        }
        if !self.is_known(s) {
            return reply;
        }
        reply.cancel_drag = true;
        let owned = self.facts.live_output(self.owner_output(s));
        let output: u64 = match first(owned, self.facts.primary) {
            Some(output) => output,
            None => {
                return reply;
            },
        };
        let rect: Rect = match self.facts.output_maximized_rect(output) {
            Some(rect) => rect,
            None => {
                return reply;
            },
        };
        if !self.modes.maximized.contains(&s) {
            let restore: Option<Rect> = first(
                first(
                    match get_copy(&self.modes.fullscreen, s) {
                        Some(entry) => entry.restore_rect,
                        None => None,
                    },
                    match get_copy(&self.facts.visible, s) {
                        Some(w) => Some(w.rect),
                        None => None,
                    },
                ),
                match get_copy(&self.modes.floating_workspace, s) {
                    Some(tag) => Some(tag.rect),
                    None => None,
                },
            );
            assert(restore == self.facts.unmaximized_rect(before, s));
            let restore_rect: Rect = match restore {
                Some(rect) => rect,
                None => {
                    return reply;
                },
            };
            self.modes.maximized.insert(s, MaximizedEntry { output, restore_rect });
        }
        assert(self.modes@ =~= self.facts.maximized(before, s));
        reply.retile = true;
        if !is_fullscreen {
            reply.maximized = Some(true);
            reply.fullscreen = Some(false);
            reply.stop_resizing = true;
            reply.size = SizeReply::Fixed(rect.w, rect.h);
            if shown {
                reply.place = Some((rect.x, rect.y));
            }
        }
        reply
    }

    /// A window asks to be no longer maximized.
    pub fn do_unmaximize_request(&mut self, s: u64) -> (r: ModeReply)
        requires
            old(self).wf(),
        ensures
            final(self).wf(),
            final(self).facts == old(self).facts,
            final(self).modes@ == old(self).facts.unmaximized(old(self).modes@, s),
            r == old(self).facts.unmaximize_reply(old(self).modes@, s),
    {
        let ghost before = self.modes@;
        let entry: Option<MaximizedEntry> = self.modes.maximized.remove(&s);
        let mut reply: ModeReply = plain();
        reply.maximized = Some(false);
        if self.modes.fullscreen.contains(&s) {
            assert(self.modes@ =~= self.facts.unmaximized(before, s));
            return reply;
        }
        if let Some(entry) = entry {
            let rect: Rect = entry.restore_rect;
            reply.size = SizeReply::Fixed(rect.w, rect.h);
            if let Some(tag) = get_copy(&self.modes.floating_workspace, s) {
                self.modes.floating_workspace.insert(s, FloatingTag { rect, ..tag });
            }
            if self.facts.visible.contains(&s) {
                reply.place = Some((rect.x, rect.y));
            }
        }
        assert(self.modes@ =~= self.facts.unmaximized(before, s));
        reply.retile = true;
        reply
    }
}

/// What a toggle did.
#[derive(Clone, Copy, Debug, PartialEq, Eq)]
pub enum Toggled {
    /// Nothing: no window that is seen has the focus, or a layer surface has the
    /// keyboard to itself.
    Nothing,
    /// The window took the mode.
    Entered(u64, FullscreenOutcome),
    /// The window left, or took, the mode with this answer.
    Changed(u64, ModeReply),
}

impl Desk {
    /// The window that a toggle acts on.
    pub open spec fn toggle_target(&self, focused: Option<u64>, exclusive_layer: bool) -> Option<u64> {
        if !exclusive_layer && focused is Some && self.facts.visible@.contains_key(focused->0) {
            focused
        } else {
            None
        }
    }

    fn target_of_toggle(&self, focused: Option<u64>, exclusive_layer: bool) -> (r: Option<u64>)
        requires
            self.wf(),
        ensures
            r == self.toggle_target(focused, exclusive_layer),
    {
        if exclusive_layer {
            return None;
        }
        match focused {
            Some(s) => if self.facts.visible.contains(&s) {
                Some(s)
            } else {
                None
            },
            None => None,
        }
    }

    /// Makes the focused window fullscreen, as if it had asked for it itself, or ends its
    /// fullscreen mode.
    pub fn toggle_fullscreen(&mut self, focused: Option<u64>, exclusive_layer: bool) -> (r: Toggled)
        requires
            old(self).wf(),
        ensures
            final(self).wf(),
            final(self).facts == old(self).facts,
            match old(self).toggle_target(focused, exclusive_layer) {
                None => r == Toggled::Nothing && final(self).modes@ == old(self).modes@,
                Some(s) => if old(self).modes@.fullscreen.contains_key(s) {
                    &&& r == Toggled::Changed(
                        s,
                        old(self).facts.unfullscreen_reply(old(self).modes@, s),
                    )
                    &&& final(self).modes@ == old(self).facts.unfullscreened(old(self).modes@, s)
                } else {
                    &&& r is Entered
                    &&& r->Entered_0 == s
                    &&& old(self).facts.goes_fullscreen(
                        old(self).modes@,
                        final(self).modes@,
                        s,
                        None,
                        r->Entered_1,
                    )
                },
            },
    {
        let s: u64 = match self.target_of_toggle(focused, exclusive_layer) {
            Some(s) => s,
            None => {
                return Toggled::Nothing;
            },
        };
        if self.modes.fullscreen.contains(&s) {
            let reply = self.do_unfullscreen(s);
            Toggled::Changed(s, reply)
        } else {
            let outcome = self.do_fullscreen_request(s, None);
            Toggled::Entered(s, outcome)
        }
    }

    /// Maximizes the focused window, or ends its maximized mode.
    pub fn toggle_maximize(&mut self, focused: Option<u64>, exclusive_layer: bool, shown: bool) -> (r:
        Toggled)
        requires
            old(self).wf(),
        ensures
            final(self).wf(),
            final(self).facts == old(self).facts,
            match old(self).toggle_target(focused, exclusive_layer) {
                None => r == Toggled::Nothing && final(self).modes@ == old(self).modes@,
                Some(s) => if old(self).modes@.maximized.contains_key(s) {
                    &&& r == Toggled::Changed(
                        s,
                        old(self).facts.unmaximize_reply(old(self).modes@, s),
                    )
                    &&& final(self).modes@ == old(self).facts.unmaximized(old(self).modes@, s)
                } else {
                    &&& r == Toggled::Changed(
                        s,
                        old(self).facts.maximize_reply(old(self).modes@, s, shown),
                    )
                    &&& final(self).modes@ == old(self).facts.maximized(old(self).modes@, s)
                },
            },
    {
        let s: u64 = match self.target_of_toggle(focused, exclusive_layer) {
            Some(s) => s,
            None => {
                return Toggled::Nothing;
            },
        };
        let reply = if self.modes.maximized.contains(&s) {
            self.do_unmaximize_request(s)
        } else {
            self.do_maximize_request(s, shown)
        };
        Toggled::Changed(s, reply)
    }

    /// The modes that a window list shows of a window: maximized, then fullscreen.
    /// One that is fullscreen is never shown as maximized too.
    pub fn shown_modes(&self, s: u64) -> (r: (bool, bool))
        requires
            self.wf(),
        ensures
            r.1 == self.modes@.fullscreen.contains_key(s),
            r.0 == (self.modes@.maximized.contains_key(s) && !r.1),
    {
        let fullscreen = self.modes.fullscreen.contains(&s);
        (self.modes.maximized.contains(&s) && !fullscreen, fullscreen)
    }
}

/// No two windows are ever fullscreen on the same output: a window that takes an
/// output has it alone.
pub proof fn law_one_fullscreen_window_per_output(desk: Desk, a: u64, b: u64)
    requires
        desk.wf(),
        desk.modes@.fullscreen.contains_key(a),
        desk.modes@.fullscreen.contains_key(b),
        desk.modes@.fullscreen[a].output == desk.modes@.fullscreen[b].output,
    ensures
        a == b,
{
}

/// Asking for the fullscreen mode again changes nothing: the place that the window
/// goes back to is not taken from its fullscreen size.
pub proof fn law_fullscreen_again_changes_nothing(
    facts: DeskFacts,
    modes: ModesView,
    s: u64,
    requested: Option<u64>,
)
    requires
        modes.fullscreen.contains_key(s),
        facts.fullscreen_target(modes, s, requested) == Some(modes.fullscreen[s].output),
    ensures
        facts.fullscreen_step(modes, s, requested) is Answer,
{
}

/// What becomes of a request to go fullscreen is settled by what was there before.
pub proof fn law_fullscreen_requests_are_settled(
    facts: DeskFacts,
    before: ModesView,
    s: u64,
    requested: Option<u64>,
    first: (ModesView, FullscreenOutcome),
    second: (ModesView, FullscreenOutcome),
)
    requires
        one_per_output(before),
        facts.goes_fullscreen(before, first.0, s, requested, first.1),
        facts.goes_fullscreen(before, second.0, s, requested, second.1),
    ensures
        first == second,
{
    if let FullscreenStep::Take { output, geometry } = facts.fullscreen_step(before, s, requested) {
        match (first.1.preempted, second.1.preempted) {
            (Some(p), Some(q)) => {
                assert(before.fullscreen[p.surface].output == before.fullscreen[q.surface].output);
            },
            (Some(p), None) => {
                assert(DeskFacts::in_the_way(before, s, output, p.surface));
            },
            (None, Some(q)) => {
                assert(DeskFacts::in_the_way(before, s, output, q.surface));
            },
            (None, None) => {},
        }
    }
}

/// A window that goes fullscreen changes nothing of any other but the one that makes room
/// for it.
pub proof fn law_fullscreen_leaves_the_others(
    facts: DeskFacts,
    before: ModesView,
    after: ModesView,
    s: u64,
    requested: Option<u64>,
    outcome: FullscreenOutcome,
    other: u64,
)
    requires
        facts.goes_fullscreen(before, after, s, requested, outcome),
        other != s,
        outcome.preempted is Some ==> (outcome.preempted->0).surface != other,
    ensures
        lookup(after.fullscreen, other) == lookup(before.fullscreen, other),
        lookup(after.maximized, other) == lookup(before.maximized, other),
        lookup(after.floating, other) == lookup(before.floating, other),
        lookup(after.pinned, other) == lookup(before.pinned, other),
{
}

/// A floating window on the screen that goes fullscreen and comes back, with
/// nothing between, is put where it was.
pub proof fn law_fullscreen_round_trip_restores(
    facts: DeskFacts,
    modes: ModesView,
    s: u64,
    output: u64,
)
    requires
        facts.floats(s),
        !facts.unmapped@.contains_key(s),
        facts.visible@.contains_key(s),
        !modes.fullscreen.contains_key(s),
        !modes.maximized.contains_key(s),
    ensures
        ({
            let during = facts.fullscreened(modes, s, output);
            let rect = facts.visible@[s].rect;
            &&& facts.unfullscreen_reply(during, s).place == Some((rect.x, rect.y))
            &&& facts.unfullscreen_reply(during, s).size == SizeReply::Fixed(rect.w, rect.h)
            &&& facts.unfullscreened(during, s).fullscreen == modes.fullscreen
            &&& facts.unfullscreened(during, s).pinned == modes.pinned
            &&& facts.unfullscreened(during, s).maximized == modes.maximized
        }),
{
    let during = facts.fullscreened(modes, s, output);
    assert(facts.unfullscreened(during, s).fullscreen =~= modes.fullscreen);
    assert(facts.unfullscreened(during, s).pinned =~= modes.pinned);
}

/// A floating window that is maximized and then not, with nothing between, is told
/// the size and the place it had.
pub proof fn law_maximize_round_trip_restores(facts: DeskFacts, modes: ModesView, s: u64)
    requires
        facts.maximize_step(modes, s) is Take,
        !modes.maximized.contains_key(s),
        !modes.fullscreen.contains_key(s),
        facts.visible@.contains_key(s),
    ensures
        ({
            let during = facts.maximized(modes, s);
            let rect = facts.visible@[s].rect;
            &&& facts.unmaximize_reply(during, s).size == SizeReply::Fixed(rect.w, rect.h)
            &&& facts.unmaximize_reply(during, s).place == Some((rect.x, rect.y))
            &&& facts.unmaximized(during, s).maximized == modes.maximized
        }),
{
    let during = facts.maximized(modes, s);
    assert(facts.unmaximized(during, s).maximized =~= modes.maximized);
}

/// A window is never told both modes at once.
pub proof fn law_never_both_modes(
    facts: DeskFacts,
    modes: ModesView,
    s: u64,
    shown: bool,
    geometry: Rect,
)
    ensures
        facts.maximize_reply(modes, s, shown).maximized == Some(true) ==> facts.maximize_reply(
            modes,
            s,
            shown,
        ).fullscreen == Some(false),
        fullscreen_reply(geometry).fullscreen == Some(true) && fullscreen_reply(geometry).maximized
            == Some(false),
        facts.unfullscreen_reply(modes, s).fullscreen == Some(false),
        facts.unmaximize_reply(modes, s).maximized == Some(false),
{
}

} // verus!
