//! The life of a window: how it comes to be shown, what it takes the place of, and
//! what is forgotten when it goes.

use vstd::prelude::*;

use crate::assoc::Assoc;
use crate::bsp::{inserted, relabeled, substitute, BspLayout, Node, Window};
use crate::bsp_laws::{law_holds_is_membership, law_insert_keeps_the_others};
use crate::config::WindowRule;
use crate::desk::{home_view, lookup, or_else, output_index, Desk, DeskFacts, HomeOutput, ModesView};
use crate::geometry::Rect;
use crate::layouts::{kept_in, next_revision, tiled, trees_without, Layouts, WorkspaceKey};
use crate::layouts_laws::law_remove_is_everywhere;
use crate::looks::{added_looks, ruled_looks, LookRule, WindowLooks};
use crate::text::text_eq;
use crate::xdg_shell::{
    flutter_after, is_dimension_pinned, lifecycle_transition, records_kept, refusal_noted,
    skips_first_tile_configure, tracked_only, transition_of, RefusalFacts, TilingRefusals,
    ToplevelTracking, ToplevelTransition, FLUTTER_FLOPS,
};

verus! {

/// What is known of a window when it is about to be shown.
pub struct MapFacts {
    pub rule: WindowRule,
    pub looks: LookRule,
    pub has_parent: bool,
    pub min_size: (i32, i32),
    pub max_size: (i32, i32),
    /// The window that has the focus, or is to have it.
    pub focused: Option<u64>,
    /// Windows live on the spatial canvas.
    pub ocean: bool,
    /// Some rule lets windows be swallowed.
    pub swallow_rules: bool,
    /// The processes of the windows, as far as they are known.
    pub pids: Assoc<u64, i32>,
    /// The windows whose rules let them be swallowed.
    pub swallowers: Assoc<u64, ()>,
    /// The ancestors of the window's process.
    pub ancestors: Vec<i32>,
}

impl MapFacts {
    pub open spec fn wf(&self) -> bool {
        self.pids.wf() && self.swallowers.wf()
    }

    /// The window is of a kind that is better left to float: a dialog, or one with
    /// a fixed dimension.
    pub open spec fn floats_by_itself(&self) -> bool {
        !self.rule.tile && (self.has_parent || (self.min_size.0 > 0 && self.min_size.1 > 0 && (
        self.min_size.0 == self.max_size.0 || self.min_size.1 == self.max_size.1)))
    }

    /// A tiled window gives its place to `s`: its process is an ancestor of that of
    /// `s`, and a rule says so.
    pub open spec fn is_swallowed_by(&self, window: Window, s: u64) -> bool {
        &&& window.surface is Some
        &&& window.surface->0 != s
        &&& self.pids@.contains_key(window.surface->0)
        &&& self.pids@[window.surface->0] != self.pids@[s]
        &&& self.ancestors@.contains(self.pids@[window.surface->0])
        &&& self.swallowers@.contains_key(window.surface->0)
    }

    /// The first of the windows that gives its place to `s`.
    pub open spec fn first_swallowed(&self, windows: Seq<Window>, s: u64) -> Option<u64>
        decreases windows.len(),
    {
        if windows.len() == 0 {
            None
        } else if self.is_swallowed_by(windows[0], s) {
            windows[0].surface
        } else {
            self.first_swallowed(windows.skip(1), s)
        }
    }

    /// The tiled window that `s` takes the place of.
    pub open spec fn swallow_target(&self, windows: Seq<Window>, s: u64) -> Option<u64> {
        if self.swallow_rules && self.pids@.contains_key(s) {
            self.first_swallowed(windows, s)
        } else {
            None
        }
    }

    /// Whether the ancestors of the window's process have to be known.
    pub fn wants_ancestors(&self, s: u64) -> (r: Option<i32>)
        requires
            self.wf(),
        ensures
            r == if self.swallow_rules {
                lookup(self.pids@, s)
            } else {
                None
            },
    {
        if !self.swallow_rules {
            return None;
        }
        match self.pids.get(&s) {
            Some(pid) => Some(*pid),
            None => None,
        }
    }

    fn has_ancestor(&self, pid: i32) -> (r: bool)
        ensures
            r == self.ancestors@.contains(pid),
    {
        let mut i: usize = 0;
        while i < self.ancestors.len()
            invariant
                i <= self.ancestors@.len(),
                forall|j: int| 0 <= j < i ==> self.ancestors@[j] != pid,
            decreases self.ancestors@.len() - i,
        {
            if self.ancestors[i] == pid {
                assert(self.ancestors@[i as int] == pid);
                return true;
            }
            i += 1;
        }
        false
    }

    /// The tiled window, of those on the workspace, that `s` takes the place of.
    pub fn swallow_candidate(&self, windows: &Vec<Window>, s: u64) -> (r: Option<u64>)
        requires
            self.wf(),
        ensures
            r == self.swallow_target(windows@, s),
    {
        let child: i32 = match self.wants_ancestors(s) {
            Some(pid) => pid,
            None => {
                return None;
            },
        };
        let ghost all = windows@;
        let mut i: usize = 0;
        assert(all.skip(0) =~= all);
        while i < windows.len()
            invariant
                self.wf(),
                self.swallow_rules,
                self.pids@.contains_key(s),
                child == self.pids@[s],
                all == windows@,
                i <= all.len(),
                self.first_swallowed(all, s) == self.first_swallowed(all.skip(i as int), s),
            decreases all.len() - i,
        {
            assert(all.skip(i as int)[0] == all[i as int]);
            assert(all.skip(i as int).skip(1) =~= all.skip(i + 1));
            if let Some(other) = windows[i].surface {
                if other != s {
                    if let Some(pid) = self.pids.get(&other) {
                        if *pid != child && self.has_ancestor(*pid) && self.swallowers.contains(
                            &other,
                        ) {
                            return Some(other);
                        }
                    }
                }
            }
            i += 1;
        }
        None
    }

    fn implicit_float(&self) -> (r: bool)
        ensures
            r == self.floats_by_itself(),
    {
        !self.rule.tile && (self.has_parent || is_dimension_pinned(self.min_size, self.max_size))
    }
}

/// Where a window that is shown goes, and what is done with it, in this order.
#[derive(Clone, Copy, Debug)]
pub struct MapPlan {
    pub window: Window,
    pub output: u64,
    pub workspace: u32,
    /// It is put on the spatial canvas.
    pub ocean: bool,
    /// The window beside which it is put.
    pub beside: Option<u64>,
    /// The window whose place it takes.
    pub swallows: Option<u64>,
    /// Its tile's size is not told to it: another follows at once.
    pub skip_first_configure: bool,
    pub float: bool,
    pub pin: bool,
    pub placement: Option<(Option<(i32, i32)>, Option<(i32, i32)>)>,
    pub pseudo_tile: bool,
    pub maximize: bool,
    pub fullscreen: bool,
    pub focus: bool,
}

/// What becomes of a window that has its first buffer.
#[derive(Clone, Copy, Debug)]
pub enum MapOutcome {
    /// There is no output to show it on: it is told to close, if it is still there.
    NoOutput { close: bool },
    /// It is not waiting to be shown.
    Gone,
    Shown(MapPlan),
}

/// The windows and what is remembered of each.
pub struct Toplevels {
    pub desk: Desk,
    pub refusals: TilingRefusals,
    pub pseudo_tiled: Assoc<u64, ()>,
    pub urgent: Assoc<u64, ()>,
    pub expected_tiled_size: Assoc<u64, (i32, i32)>,
    pub focus_history: Vec<u64>,
    /// The windows whose place others took, by those.
    pub swallowed: Assoc<u64, Window>,
    /// The numbers under which the windows are announced.
    pub numeric_ids: Assoc<u64, u64>,
    pub next_numeric_id: u64,
    pub looks: WindowLooks,
}

/// What was swallowed, but for windows that show `s`.
pub open spec fn still_swallowed(swallowed: Map<u64, Window>, s: u64) -> Map<u64, Window> {
    Map::new(
        |c: u64| swallowed.contains_key(c) && swallowed[c].surface != Some(s),
        |c: u64| swallowed[c],
    )
}

fn drop_swallowed(swallowed: &mut Assoc<u64, Window>, s: u64)
    requires
        old(swallowed).wf(),
    ensures
        final(swallowed).wf(),
        final(swallowed)@ == still_swallowed(old(swallowed)@, s),
{
    let ghost before = swallowed@;
    let ghost goal = still_swallowed(before, s);
    let mut out: Assoc<u64, Window> = Assoc::new();
    loop
        invariant_except_break
            swallowed.wf(),
            out.wf(),
            goal == still_swallowed(before, s),
            forall|c: u64| #[trigger]
                swallowed@.contains_key(c) ==> before.contains_key(c) && before[c] == swallowed@[c],
            forall|c: u64| #[trigger]
                out@.contains_key(c) <==> goal.contains_key(c) && !swallowed@.contains_key(c),
            forall|c: u64| #[trigger] out@.contains_key(c) ==> out@[c] == before[c],
        ensures
            out.wf(),
            out@ == goal,
        decreases swallowed.entries@.len(),
    {
        match swallowed.pop() {
            Some((c, window)) => {
                let same: bool = match window.surface {
                    Some(other) => other == s,
                    None => false,
                };
                if !same {
                    out.insert(c, window);
                }
            },
            None => {
                assert(out@ =~= goal);
                break;
            },
        }
    }
    *swallowed = out;
}

/// Every number but `s`.
pub open spec fn other_than(s: u64) -> spec_fn(u64) -> bool {
    |t: u64| t != s
}

/// The list without `s`.
pub open spec fn without_surface(list: Seq<u64>, s: u64) -> Seq<u64> {
    list.filter(other_than(s))
}

fn drop_surface(list: &Vec<u64>, s: u64) -> (r: Vec<u64>)
    ensures
        r@ == without_surface(list@, s),
{
    let mut out: Vec<u64> = Vec::new();
    let ghost keep = other_than(s);
    let mut i: usize = 0;
    proof {
        crate::seqs::lemma_filter_ends(list@, keep);
    }
    while i < list.len()
        invariant
            i <= list@.len(),
            keep == other_than(s),
            out@ == list@.take(i as int).filter(keep),
        decreases list@.len() - i,
    {
        proof {
            crate::seqs::lemma_filter_step(list@, i as int, keep);
        }
        if list[i] != s {
            out.push(list[i]);
        }
        i += 1;
    }
    assert(list@.take(list@.len() as int) =~= list@);
    out
}

/// `after` is `before` with `window` tiled on a workspace.
pub open spec fn tiles(
    before: Layouts,
    after: Layouts,
    k: WorkspaceKey,
    window: Window,
    target: Option<u64>,
) -> bool {
    &&& after.same_settings(&before)
    &&& after.trees@ == before.trees@.insert(
        k,
        BspLayout {
            root: Some(
                match before.root_at(k) {
                    None => Node::Leaf(window),
                    Some(root) => inserted(root, window, target),
                },
            ),
        },
    )
    &&& after.topology_revision == next_revision(before.topology_revision)
}

/// `after` is `before` without the window that shows `s`.
pub open spec fn untiles(before: Layouts, after: Layouts, s: u64) -> bool {
    &&& after.trees@ == trees_without(before.trees@, s)
    &&& after.algorithms@ == if tiled(before.trees@, s) {
        kept_in(before.algorithms@, after.trees@)
    } else {
        before.algorithms@
    }
    &&& after.master_ratio@ == if tiled(before.trees@, s) {
        kept_in(before.master_ratio@, after.trees@)
    } else {
        before.master_ratio@
    }
    &&& after.topology_revision == if tiled(before.trees@, s) {
        next_revision(before.topology_revision)
    } else {
        before.topology_revision
    }
    &&& after == (Layouts {
        trees: after.trees,
        algorithms: after.algorithms,
        master_ratio: after.master_ratio,
        topology_revision: after.topology_revision,
        ..before
    })
}

/// `after` is `before` with `window` in the place of the window that shows `s`.
pub open spec fn replaces(before: Layouts, after: Layouts, s: u64, window: Window) -> bool {
    match before.home(s) {
        Some(k) => {
            &&& after.same_settings(&before)
            &&& after.trees@ == before.trees@.insert(
                k,
                BspLayout {
                    root: Some(relabeled(before.trees@[k].root->0, substitute(s, window))),
                },
            )
            &&& after.topology_revision == next_revision(before.topology_revision)
        },
        None => after == before,
    }
}

/// `s` leaves its place: to the next member of its window group where it has one, which
/// keeps the place as it is; else the place is given up.
pub open spec fn leaves_place(before: Layouts, after: Layouts, s: u64, next: Option<Window>) -> bool {
    match next {
        None => untiles(before, after, s),
        Some(window) => exists|mid: Layouts|
            {
                &&& mid.wf()
                &&& replaces(before, mid, s, window)
                &&& #[trigger] untiles(mid, after, s)
            },
    }
}

/// The hidden members of window groups when `s` goes and `next` takes its place.
pub open spec fn parked_without(parked: Map<u64, Window>, s: u64, next: Option<Window>) -> Map<
    u64,
    Window,
> {
    if next is Some && (next->0).surface is Some {
        parked.remove(s).remove((next->0).surface->0)
    } else {
        parked.remove(s)
    }
}

/// The window is no longer mapped, and nothing that was remembered of it is left.
pub open spec fn detaches(before: Toplevels, after: Toplevels, s: u64) -> bool {
    &&& after.refusals.flutter == before.refusals.flutter
    &&& after.refusals.floated == before.refusals.floated
    &&& after.refusals.size_refusals@ == before.refusals.size_refusals@.remove(s)
    &&& after.pseudo_tiled@ == before.pseudo_tiled@.remove(s)
    &&& after.urgent@ == before.urgent@.remove(s)
    &&& after.expected_tiled_size@ == before.expected_tiled_size@.remove(s)
    &&& after.focus_history@ == without_surface(before.focus_history@, s)
    &&& after.swallowed@ == still_swallowed(before.swallowed@, s)
    &&& after.numeric_ids@ == before.numeric_ids@.remove(s)
    &&& after.next_numeric_id == before.next_numeric_id
    &&& after.looks.opacity@ == before.looks.opacity@.remove(s)
    &&& after.looks.glass@ == before.looks.glass@.remove(s)
    &&& leaves_place(
        before.desk.facts.layouts,
        after.desk.facts.layouts,
        s,
        lookup(before.desk.facts.next_tab@, s),
    )
    &&& after.desk.facts.visible@ == before.desk.facts.visible@.remove(s)
    &&& after.desk.facts.ocean@ == before.desk.facts.ocean@.remove(s)
    &&& after.desk.facts.parked@ == parked_without(
        before.desk.facts.parked@,
        s,
        lookup(before.desk.facts.next_tab@, s),
    )
    &&& after.desk.facts.next_tab@ == before.desk.facts.next_tab@.remove(s)
    &&& after.desk.facts.put_away@ == before.desk.facts.put_away@.remove(s)
    &&& after.desk.facts.outputs == before.desk.facts.outputs
    &&& after.desk.facts.primary == before.desk.facts.primary
    &&& after.desk.facts.unmapped == before.desk.facts.unmapped
    &&& after.desk.facts.tiled_rects == before.desk.facts.tiled_rects
    &&& after.desk.modes@ == (ModesView {
        fullscreen: before.desk.modes@.fullscreen.remove(s),
        maximized: before.desk.modes@.maximized.remove(s),
        floating: before.desk.modes@.floating.remove(s),
        pinned: before.desk.modes@.pinned.remove(s),
    })
}

/// What is left to do when a window goes.
#[derive(Clone, Copy, Debug)]
pub struct Detached {
    pub window: Option<Window>,
    /// The number under which it was announced.
    pub numeric_id: Option<u64>,
    /// The deck of windows put away, which showed it, closes.
    pub close_deck: bool,
}

/// The place of a window that `s` gives its own place back to.
pub open spec fn restore_place(desk: Desk, s: u64) -> Option<WorkspaceKey> {
    if desk.facts.layouts.home(s) is Some {
        desk.facts.layouts.home(s)
    } else {
        match desk.facts.live(desk.facts.primary) {
            Some(output) => Some(
                (
                    desk.facts.outputs@[crate::desk::output_index(
                        desk.facts.outputs@,
                        output,
                    )].name@,
                    desk.facts.workspace_on(output),
                ),
            ),
            None => None,
        }
    }
}

/// `after` is `before` with `window` announced.
pub open spec fn announces(before: Toplevels, after: Toplevels, s: u64) -> bool {
    &&& after.numeric_ids@ == before.numeric_ids@.insert(s, before.next_numeric_id)
    &&& after.next_numeric_id == if before.next_numeric_id < u64::MAX {
        (before.next_numeric_id + 1) as u64
    } else {
        u64::MAX
    }
    &&& after == (Toplevels {
        numeric_ids: after.numeric_ids,
        next_numeric_id: after.next_numeric_id,
        ..before
    })
}

/// `after` is `before` with `s` looking as its rules say.
pub open spec fn dresses(before: Toplevels, after: Toplevels, s: u64, looks: LookRule) -> bool {
    &&& ruled_looks(before.looks, after.looks, s, looks)
    &&& after == (Toplevels { looks: after.looks, ..before })
}

/// `s` gives its place back to the window that it took it from, if it took one:
/// that window is tiled beside `s`, looks as its rules say and is announced again.
pub open spec fn restores(before: Toplevels, after: Toplevels, s: u64, looks: LookRule) -> bool {
    if !before.swallowed@.contains_key(s) {
        after == before
    } else if restore_place(before.desk, s) is None {
        &&& after.swallowed@ == before.swallowed@.remove(s)
        &&& after == (Toplevels { swallowed: after.swallowed, ..before })
    } else {
        let window = before.swallowed@[s];
        &&& after.swallowed@ == before.swallowed@.remove(s)
        &&& tiles(
            before.desk.facts.layouts,
            after.desk.facts.layouts,
            restore_place(before.desk, s)->0,
            window,
            Some(s),
        )
        &&& after.desk == (Desk {
            facts: DeskFacts { layouts: after.desk.facts.layouts, ..before.desk.facts },
            ..before.desk
        })
        &&& after.numeric_ids@ == if window.surface is Some {
            before.numeric_ids@.insert(window.surface->0, before.next_numeric_id)
        } else {
            before.numeric_ids@
        }
        &&& after.next_numeric_id == if window.surface is Some && before.next_numeric_id
            < u64::MAX {
            (before.next_numeric_id + 1) as u64
        } else {
            before.next_numeric_id
        }
        &&& if window.surface is Some {
            added_looks(before.looks, after.looks, window.surface->0, looks)
        } else {
            after.looks == before.looks
        }
        &&& after == (Toplevels {
            desk: after.desk,
            looks: after.looks,
            swallowed: after.swallowed,
            numeric_ids: after.numeric_ids,
            next_numeric_id: after.next_numeric_id,
            ..before
        })
    }
}

impl Toplevels {
    pub open spec fn wf(&self) -> bool {
        &&& self.desk.wf()
        &&& self.refusals.wf()
        &&& self.pseudo_tiled.wf()
        &&& self.urgent.wf()
        &&& self.expected_tiled_size.wf()
        &&& self.swallowed.wf()
        &&& self.numeric_ids.wf()
        &&& self.looks.wf()
    }

    /// A client makes a window; it is shown with its first buffer.
    pub fn new_toplevel(&mut self, s: u64, window: Window)
        requires
            old(self).wf(),
        ensures
            final(self).wf(),
            final(self).desk.facts.unmapped@ == old(self).desk.facts.unmapped@.insert(s, window),
            *final(self) == (Toplevels {
                desk: Desk {
                    facts: DeskFacts {
                        unmapped: final(self).desk.facts.unmapped,
                        ..old(self).desk.facts
                    },
                    ..old(self).desk
                },
                ..*old(self)
            }),
    {
        self.desk.facts.unmapped.insert(s, window);
    }

    /// Gives the window a number of its own under which it is announced.
    pub fn announce_foreign_toplevel(&mut self, s: u64) -> (r: u64)
        requires
            old(self).wf(),
        ensures
            final(self).wf(),
            r == old(self).next_numeric_id,
            announces(*old(self), *final(self), s),
    {
        let id: u64 = self.next_numeric_id;
        if id < u64::MAX {
            self.next_numeric_id = id + 1;
        }
        self.numeric_ids.insert(s, id);
        id
    }

    /// Forgets everything that made the window a mapped one, and gives the window,
    /// which may be shown again. Where it was the shown member of a window group, the
    /// next member takes its place.
    pub fn detach_mapped_toplevel(&mut self, s: u64) -> (r: Detached)
        requires
            old(self).wf(),
        ensures
            final(self).wf(),
            detaches(*old(self), *final(self), s),
            r.window == old(self).desk.facts.mapped_window(old(self).desk.modes@, s),
            r.window is Some == old(self).desk.facts.mapped(old(self).desk.modes@, s),
            r.numeric_id == lookup(old(self).numeric_ids@, s),
            r.close_deck == old(self).desk.facts.put_away@.contains_key(s),
            !final(self).desk.facts.mapped(final(self).desk.modes@, s),
    {
        let window: Option<Window> = self.desk.mapped_toplevel_window(s);
        drop_swallowed(&mut self.swallowed, s);
        let _ = self.desk.facts.visible.remove(&s);
        let _ = self.desk.facts.parked.remove(&s);
        let close_deck: bool = match self.desk.facts.put_away.remove(&s) {
            Some(_) => true,
            None => false,
        };
        let next: Option<Window> = self.desk.facts.next_tab.remove(&s);
        if let Some(window) = next {
            self.desk.facts.layouts.replace_leaf(s, &window);
            if let Some(shown) = window.surface {
                let _ = self.desk.facts.parked.remove(&shown);
            }
        }
        let ghost mid = self.desk.facts.layouts;
        self.desk.facts.layouts.remove(s);
        assert(untiles(mid, self.desk.facts.layouts, s));
        let _ = self.desk.facts.ocean.remove(&s);
        let _ = self.desk.modes.fullscreen.remove(&s);
        let _ = self.desk.modes.maximized.remove(&s);
        let _ = self.desk.modes.floating_workspace.remove(&s);
        let _ = self.desk.modes.pinned.remove(&s);
        let _ = self.pseudo_tiled.remove(&s);
        let _ = self.urgent.remove(&s);
        let _ = self.expected_tiled_size.remove(&s);
        let _ = self.refusals.size_refusals.remove(&s);
        self.focus_history = drop_surface(&self.focus_history, s);
        let numeric_id: Option<u64> = self.numeric_ids.remove(&s);
        self.looks.forget(s);
        proof {
            law_remove_is_everywhere(
                mid.trees@,
                s,
                s,
                (Seq::empty(), 0),
            );
            self.desk.facts.layouts.lemma_home(s);
        }
        Detached { window, numeric_id, close_deck }
    }

    /// A window that goes gives its place back to the one it took it from, which looks
    /// as its rules say. Gives the window that is there again, whether it takes over the
    /// focus too.
    pub fn restore_swallowed(&mut self, s: u64, focused: Option<u64>, looks: &LookRule) -> (r:
        Option<(Window, bool)>)
        requires
            old(self).wf(),
        ensures
            final(self).wf(),
            restores(*old(self), *final(self), s, *looks),
            r == if old(self).swallowed@.contains_key(s) && restore_place(old(self).desk, s) is Some {
                Some((old(self).swallowed@[s], focused == Some(s)))
            } else {
                None
            },
    {
        let window: Window = match self.swallowed.get(&s) {
            Some(window) => *window,
            None => {
                return None;
            },
        };
        let _ = self.swallowed.remove(&s);
        let home: Option<(String, u32)> = match self.desk.facts.layouts.output_of(s) {
            Some(output) => match self.desk.facts.layouts.workspace_of(s) {
                Some(workspace) => Some((output, workspace)),
                None => None,
            },
            None => None,
        };
        let place: (String, u32) = match home {
            Some(place) => place,
            None => {
                let primary: Option<u64> = self.desk.facts.primary;
                match self.desk.facts.live_output(primary) {
                    Some(id) => {
                        let workspace: u32 = self.desk.facts.output_workspace(id);
                        match self.desk.facts.find_output(id) {
                            Some(i) => (self.desk.facts.outputs[i].name.clone(), workspace),
                            None => {
                                return None;
                            },
                        }
                    },
                    None => {
                        return None;
                    },
                }
            },
        };
        self.desk.facts.layouts.insert(place.0.as_str(), place.1, window, Some(s));
        if let Some(hidden) = window.surface {
            self.looks.restore(hidden, looks);
            let _ = self.announce_foreign_toplevel(hidden);
        }
        let takes_focus: bool = match focused {
            Some(f) => f == s,
            None => false,
        };
        Some((window, takes_focus))
    }
}

/// The output that a window is shown on: the one it is to be fullscreen on, the
/// one its rule names, or the primary one.
pub open spec fn map_output(desk: Desk, s: u64, facts: MapFacts) -> Option<u64> {
    let fullscreen_on = match lookup(desk.modes@.fullscreen, s) {
        Some(entry) => Some(entry.output),
        None => None,
    };
    or_else(
        or_else(desk.facts.live(fullscreen_on), desk.facts.live(facts.rule.output)),
        desk.facts.live(desk.facts.primary),
    )
}

/// The name of an output in use.
pub open spec fn name_of(desk: Desk, output: u64) -> Seq<char> {
    desk.facts.outputs@[crate::desk::output_index(desk.facts.outputs@, output)].name@
}

impl Toplevels {
    /// The window floats from the start.
    pub open spec fn starts_floating(&self, s: u64, facts: MapFacts) -> bool {
        facts.floats_by_itself() || self.refusals.floated@.contains_key(s)
    }

    /// What is done with a window that is shown on `output`.
    pub open spec fn map_plan(&self, s: u64, facts: MapFacts, output: u64) -> MapPlan {
        let rule = facts.rule;
        let aloof = self.starts_floating(s, facts);
        let workspace = match rule.workspace {
            Some(w) => w,
            None => self.desk.facts.workspace_on(output),
        };
        let key = (name_of(self.desk, output), workspace);
        let swallows = if facts.ocean || rule.float || rule.pin || aloof {
            None
        } else {
            facts.swallow_target(
                crate::bsp::root_windows(self.desk.facts.layouts.root_at(key)),
                s,
            )
        };
        let float = rule.float || rule.pin || rule.maximize || aloof;
        MapPlan {
            window: self.desk.facts.unmapped@[s],
            output,
            workspace,
            ocean: facts.ocean,
            beside: or_else(swallows, facts.focused),
            swallows,
            skip_first_configure: rule.maximize || rule.fullscreen || rule.pseudo_tile || ((
            rule.float || rule.pin || facts.floats_by_itself()) && (rule.position is Some
                || rule.size is Some)) || self.refusals.floated@.contains_key(s),
            float,
            pin: float && rule.pin,
            placement: if float && (rule.position is Some || rule.size is Some) {
                Some((rule.position, rule.size))
            } else {
                None
            },
            pseudo_tile: !float && rule.pseudo_tile,
            maximize: rule.maximize,
            fullscreen: rule.fullscreen,
            focus: !rule.no_focus,
        }
    }

    /// What becomes of a window with its first buffer.
    pub open spec fn map_outcome(&self, s: u64, facts: MapFacts) -> MapOutcome {
        let waits = self.desk.facts.unmapped@.contains_key(s);
        match map_output(self.desk, s, facts) {
            None => MapOutcome::NoOutput { close: waits },
            Some(output) => if !waits {
                MapOutcome::Gone
            } else {
                MapOutcome::Shown(self.map_plan(s, facts, output))
            },
        }
    }
}

/// The window waits no more; it has a tile, unless it went to the canvas.
pub open spec fn places(before: Toplevels, after: Toplevels, s: u64, plan: MapPlan) -> bool {
    &&& after.desk.facts.unmapped@ == before.desk.facts.unmapped@.remove(s)
    &&& if plan.ocean {
        after.desk.facts.layouts == before.desk.facts.layouts
    } else {
        tiles(
            before.desk.facts.layouts,
            after.desk.facts.layouts,
            (name_of(before.desk, plan.output), plan.workspace),
            plan.window,
            plan.beside,
        )
    }
    &&& after == (Toplevels {
        desk: Desk {
            facts: DeskFacts {
                unmapped: after.desk.facts.unmapped,
                layouts: after.desk.facts.layouts,
                ..before.desk.facts
            },
            ..before.desk
        },
        ..before
    })
}

/// `target` goes into hiding for as long as `s` has its place.
pub open spec fn hides(before: Toplevels, after: Toplevels, s: u64, target: u64) -> bool {
    exists|gone: Toplevels|
        {
            &&& #[trigger] detaches(before, gone, target)
            &&& before.desk.facts.mapped_window(before.desk.modes@, target) is Some
            &&& after.swallowed@ == gone.swallowed@.insert(
                s,
                before.desk.facts.mapped_window(before.desk.modes@, target)->0,
            )
            &&& after == (Toplevels { swallowed: after.swallowed, ..gone })
        }
}

/// The window is shown: it is placed, hides the one whose place it takes, is announced,
/// and looks as its rules say.
pub open spec fn shows_up(
    before: Toplevels,
    after: Toplevels,
    s: u64,
    plan: MapPlan,
    looks: LookRule,
) -> bool {
    exists|placed: Toplevels, unannounced: Toplevels, plain: Toplevels|
        {
            &&& #[trigger] places(before, placed, s, plan)
            &&& if plan.swallows is Some {
                hides(placed, unannounced, s, plan.swallows->0)
            } else {
                unannounced == placed
            }
            &&& #[trigger] announces(unannounced, plain, s)
            &&& dresses(plain, after, s, looks)
        }
}

proof fn lemma_swallowed_is_tiled(facts: MapFacts, windows: Seq<Window>, s: u64)
    ensures
        facts.first_swallowed(windows, s) is Some ==> exists|i: int|
            0 <= i < windows.len() && (#[trigger] windows[i]).surface == facts.first_swallowed(
                windows,
                s,
            ),
    decreases windows.len(),
{
    if windows.len() > 0 {
        if facts.is_swallowed_by(windows[0], s) {
            assert(windows[0].surface == facts.first_swallowed(windows, s));
        } else {
            lemma_swallowed_is_tiled(facts, windows.skip(1), s);
            if facts.first_swallowed(windows, s) is Some {
                let i = choose|i: int|
                    0 <= i < windows.skip(1).len() && (#[trigger] windows.skip(1)[i]).surface
                        == facts.first_swallowed(windows.skip(1), s);
                assert(windows[i + 1] == windows.skip(1)[i]);
            }
        }
    }
}

impl Toplevels {
    fn hide_for(&mut self, s: u64, target: u64)
        requires
            old(self).wf(),
            old(self).desk.facts.mapped(old(self).desk.modes@, target),
        ensures
            final(self).wf(),
            hides(*old(self), *final(self), s, target),
    {
        let ghost before = *self;
        let gone: Detached = self.detach_mapped_toplevel(target);
        let ghost detached = *self;
        if let Some(hidden) = gone.window {
            self.swallowed.insert(s, hidden);
        }
        assert(detaches(before, detached, target));
    }

    fn plan_for(&self, s: u64, facts: &MapFacts, output: u64, window: Window) -> (r: MapPlan)
        requires
            self.wf(),
            facts.wf(),
            output_index(self.desk.facts.outputs@, output) < self.desk.facts.outputs@.len(),
            self.desk.facts.unmapped@.contains_key(s),
            window == self.desk.facts.unmapped@[s],
        ensures
            r == self.map_plan(s, *facts, output),
    {
        let rule: WindowRule = facts.rule;
        let implicit: bool = facts.implicit_float();
        let flutter: bool = self.refusals.floated.contains(&s);
        let workspace: u32 = match rule.workspace {
            Some(workspace) => workspace,
            None => self.desk.facts.output_workspace(output),
        };
        let windows: Vec<Window> = match self.desk.facts.find_output(output) {
            Some(i) => self.desk.facts.layouts.windows_in(
                self.desk.facts.outputs[i].name.as_str(),
                workspace,
            ),
            None => Vec::new(),
        };
        let swallows: Option<u64> = if facts.ocean || rule.float || rule.pin || implicit || flutter {
            None
        } else {
            facts.swallow_candidate(&windows, s)
        };
        let beside: Option<u64> = match swallows {
            Some(target) => Some(target),
            None => facts.focused,
        };
        let float: bool = rule.float || rule.pin || rule.maximize || implicit || flutter;
        MapPlan {
            window,
            output,
            workspace,
            ocean: facts.ocean,
            beside,
            swallows,
            skip_first_configure: skips_first_tile_configure(&rule, implicit) || flutter,
            float,
            pin: float && rule.pin,
            placement: if float && (rule.position.is_some() || rule.size.is_some()) {
                Some((rule.position, rule.size))
            } else {
                None
            },
            pseudo_tile: !float && rule.pseudo_tile,
            maximize: rule.maximize,
            fullscreen: rule.fullscreen,
            focus: !rule.no_focus,
        }
    }

    /// A window that waits has its first buffer: it is shown. What has to be done
    /// with it beyond its place among the tiles is in the plan.
    pub fn map_toplevel(&mut self, s: u64, facts: &MapFacts) -> (r: MapOutcome)
        requires
            old(self).wf(),
            facts.wf(),
        ensures
            final(self).wf(),
            r == old(self).map_outcome(s, *facts),
            match r {
                MapOutcome::Shown(plan) => shows_up(*old(self), *final(self), s, plan, facts.looks),
                _ => dresses(*old(self), *final(self), s, facts.looks),
            },
    {
        let ghost before = *self;
        let rule: WindowRule = facts.rule;
        let fullscreen_on: Option<u64> = match self.desk.modes.fullscreen.get(&s) {
            Some(entry) => Some(entry.output),
            None => None,
        };
        let primary: Option<u64> = self.desk.facts.primary;
        let mut chosen: Option<u64> = self.desk.facts.live_output(fullscreen_on);
        if chosen.is_none() {
            chosen = self.desk.facts.live_output(rule.output);
        }
        if chosen.is_none() {
            chosen = self.desk.facts.live_output(primary);
        }
        let waiting: Option<Window> = match self.desk.facts.unmapped.get(&s) {
            Some(window) => Some(*window),
            None => None,
        };
        let output: u64 = match chosen {
            Some(output) => output,
            None => {
                self.looks.apply(s, &facts.looks);
                return MapOutcome::NoOutput { close: waiting.is_some() };
            },
        };
        let window: Window = match waiting {
            Some(window) => window,
            None => {
                self.looks.apply(s, &facts.looks);
                return MapOutcome::Gone;
            },
        };
        let plan: MapPlan = self.plan_for(s, facts, output, window);
        let name: String = match self.desk.facts.find_output(output) {
            Some(i) => self.desk.facts.outputs[i].name.clone(),
            None => {
                self.looks.apply(s, &facts.looks);
                return MapOutcome::Gone;
            },
        };
        let ghost key = (name@, plan.workspace);
        let ghost windows = crate::bsp::root_windows(self.desk.facts.layouts.root_at(key));
        let _ = self.desk.facts.unmapped.remove(&s);
        if !facts.ocean {
            self.desk.facts.layouts.insert(name.as_str(), plan.workspace, window, plan.beside);
        }
        let ghost placed = *self;
        assert(places(before, placed, s, plan));
        if let Some(target) = plan.swallows {
            proof {
                lemma_swallowed_is_tiled(*facts, windows, s);
                let i = choose|i: int|
                    0 <= i < windows.len() && (#[trigger] windows[i]).surface == plan.swallows;
                let root = before.desk.facts.layouts.root_at(key)->0;
                law_holds_is_membership(root, target);
                assert(crate::bsp::shows(windows[i], target));
                law_insert_keeps_the_others(root, window, plan.beside, target);
                assert(crate::layouts::tiled_at(
                    placed.desk.facts.layouts.trees@,
                    key,
                    target,
                ));
                placed.desk.facts.layouts.lemma_home(target);
            }
            self.hide_for(s, target);
        }
        let ghost unannounced = *self;
        let _ = self.announce_foreign_toplevel(s);
        let ghost plain = *self;
        self.looks.apply(s, &facts.looks);
        assert(places(before, placed, s, plan) && announces(unannounced, plain, s));
        MapOutcome::Shown(plan)
    }
}

impl Toplevels {
    /// A window that is shown was made to float, as its plan says; it is pinned where the
    /// plan says so too.
    pub fn floated_by_plan(&mut self, s: u64, plan: &MapPlan)
        requires
            old(self).wf(),
        ensures
            final(self).wf(),
            final(self).desk.modes@ == if plan.pin {
                ModesView {
                    pinned: old(self).desk.modes@.pinned.insert(s, ()),
                    ..old(self).desk.modes@
                }
            } else {
                old(self).desk.modes@
            },
            final(self).desk.facts == old(self).desk.facts,
            *final(self) == (Toplevels { desk: final(self).desk, ..*old(self) }),
    {
        if plan.pin {
            self.desk.modes.pinned.insert(s, ());
        }
    }
}

/// What is left to do when a window is no longer shown.
pub struct UnmapOutcome {
    /// The window that is back in its place, and whether it takes over the focus.
    pub restored: Option<(Window, bool)>,
    pub gone: Detached,
    /// The output on which the focus is looked for next.
    pub preferred: Option<HomeOutput>,
}

/// The window gives its place back and is no longer mapped. It waits to be shown
/// again.
pub open spec fn unmaps(
    before: Toplevels,
    after: Toplevels,
    s: u64,
    focused: Option<u64>,
    looks: LookRule,
    outcome: UnmapOutcome,
) -> bool {
    exists|restored: Toplevels, gone: Toplevels|
        {
            let window = restored.desk.facts.mapped_window(restored.desk.modes@, s);
            &&& #[trigger] restores(before, restored, s, looks)
            &&& #[trigger] detaches(restored, gone, s)
            &&& home_view(outcome.preferred) == restored.desk.facts.preferred(restored.desk.modes@, s)
            &&& outcome.gone.window == window
            &&& outcome.gone.numeric_id == lookup(restored.numeric_ids@, s)
            &&& outcome.gone.close_deck == restored.desk.facts.put_away@.contains_key(s)
            &&& outcome.restored == restored_by(before, s, focused)
            &&& if window is Some {
                &&& after.desk.facts.unmapped@ == gone.desk.facts.unmapped@.insert(s, window->0)
                &&& after == (Toplevels {
                    desk: Desk {
                        facts: DeskFacts {
                            unmapped: after.desk.facts.unmapped,
                            ..gone.desk.facts
                        },
                        ..gone.desk
                    },
                    ..gone
                })
            } else {
                after == gone
            }
        }
}

/// The window that comes back when `s` goes, and whether it takes over the focus.
pub open spec fn restored_by(before: Toplevels, s: u64, focused: Option<u64>) -> Option<
    (Window, bool),
> {
    if before.swallowed@.contains_key(s) && restore_place(before.desk, s) is Some {
        Some((before.swallowed@[s], focused == Some(s)))
    } else {
        None
    }
}

/// The window is gone for good.
pub open spec fn destroys(
    before: Toplevels,
    after: Toplevels,
    s: u64,
    focused: Option<u64>,
    looks: LookRule,
    outcome: UnmapOutcome,
) -> bool {
    exists|restored: Toplevels, dropped: Toplevels|
        {
            &&& #[trigger] restores(before, restored, s, looks)
            &&& dropped.desk.facts.unmapped@ == restored.desk.facts.unmapped@.remove(s)
            &&& dropped == (Toplevels {
                desk: Desk {
                    facts: DeskFacts {
                        unmapped: dropped.desk.facts.unmapped,
                        ..restored.desk.facts
                    },
                    ..restored.desk
                },
                ..restored
            })
            &&& #[trigger] detaches(dropped, after, s)
            &&& home_view(outcome.preferred) == before.desk.facts.preferred(before.desk.modes@, s)
            &&& outcome.restored == restored_by(before, s, focused)
            &&& outcome.gone.window == dropped.desk.facts.mapped_window(dropped.desk.modes@, s)
            &&& outcome.gone.numeric_id == lookup(dropped.numeric_ids@, s)
            &&& outcome.gone.close_deck == dropped.desk.facts.put_away@.contains_key(s)
        }
}

/// The surfaces that are windows still.
pub open spec fn alive_surfaces(facts: DeskFacts) -> Set<u64> {
    Set::new(|t: u64| facts.unmapped@.contains_key(t) || facts.visible@.contains_key(t))
}

/// `after` is `before` with note taken that `s` maps or unmaps.
pub open spec fn flutters(
    before: Toplevels,
    after: Toplevels,
    s: u64,
    mapping: bool,
    now: u64,
) -> bool {
    let record = flutter_after(before.refusals.flutter@, s, mapping, now);
    let alive = alive_surfaces(before.desk.facts);
    &&& after.refusals.flutter@ == records_kept(
        before.refusals.flutter@.insert(s, record),
        now,
        alive,
    )
    &&& after.refusals.floated@ == tracked_only(
        if mapping && record.flips >= FLUTTER_FLOPS {
            before.refusals.floated@.insert(s, ())
        } else {
            before.refusals.floated@
        },
        alive,
    )
    &&& after == (Toplevels {
        refusals: TilingRefusals {
            flutter: after.refusals.flutter,
            floated: after.refusals.floated,
            ..before.refusals
        },
        ..before
    })
}

/// What a commit brings.
pub struct CommitFacts {
    pub has_buffer: bool,
    /// In nanoseconds.
    pub now: u64,
    /// The window that has the focus.
    pub focused: Option<u64>,
    /// Something holds the pointer.
    pub grabbed: bool,
    /// The size of the window, where it is mapped.
    pub actual: Option<(i32, i32)>,
    /// The client was told its first state.
    pub initial_configure_sent: bool,
    /// What the rules say of the window that comes back where this one goes.
    pub restored_looks: LookRule,
    pub map: MapFacts,
}

/// What a commit leads to.
pub struct CommitOutcome {
    pub transition: ToplevelTransition,
    pub shown: Option<MapOutcome>,
    pub unmapped: Option<UnmapOutcome>,
    /// The window refuses its tile and floats from now on.
    pub float_now: bool,
    /// The client is told its first state.
    pub configure: bool,
}

impl Toplevels {
    /// Where a surface stands in the life of a window.
    pub open spec fn tracking_of(&self, s: u64) -> ToplevelTracking {
        if self.desk.facts.unmapped@.contains_key(s) {
            ToplevelTracking::Unmapped
        } else if self.desk.facts.mapped(self.desk.modes@, s) {
            ToplevelTracking::Mapped
        } else {
            ToplevelTracking::Unknown
        }
    }

    /// What is known of the tile of a window that commits.
    pub open spec fn refusal_facts(&self, s: u64, facts: CommitFacts) -> RefusalFacts {
        RefusalFacts {
            expected: lookup(self.expected_tiled_size@, s),
            tiled: self.desk.facts.layouts.home(s) is Some,
            fullscreen: self.desk.modes@.fullscreen.contains_key(s),
            grabbed: facts.grabbed,
            actual: facts.actual,
        }
    }

    /// No count of refusals or flips is at its limit.
    pub open spec fn counts_fit(&self, s: u64) -> bool {
        &&& self.refusals.flutter@.contains_key(s) ==> self.refusals.flutter@[s].flips < u32::MAX
        &&& self.refusals.size_refusals@.contains_key(s) ==> self.refusals.size_refusals@[s].refusals
            < u32::MAX
    }

    /// Gives the window up: another may take its place back, and it waits to be
    /// shown again. `looks` is what the rules say of that other window.
    pub fn unmap_toplevel(&mut self, s: u64, focused: Option<u64>, looks: &LookRule) -> (r:
        UnmapOutcome)
        requires
            old(self).wf(),
        ensures
            final(self).wf(),
            unmaps(*old(self), *final(self), s, focused, *looks, r),
    {
        let ghost before = *self;
        let restored: Option<(Window, bool)> = self.restore_swallowed(s, focused, looks);
        let ghost back = *self;
        let preferred: Option<HomeOutput> = self.desk.preferred_output_for_toplevel(s);
        let gone: Detached = self.detach_mapped_toplevel(s);
        let ghost detached = *self;
        if let Some(window) = gone.window {
            self.desk.facts.unmapped.insert(s, window);
        }
        assert(restores(before, back, s, *looks) && detaches(back, detached, s));
        UnmapOutcome { restored, gone, preferred }
    }

    /// The client destroys the window. `looks` is what the rules say of the window that
    /// takes its place back.
    pub fn toplevel_destroyed(&mut self, s: u64, focused: Option<u64>, looks: &LookRule) -> (r:
        UnmapOutcome)
        requires
            old(self).wf(),
        ensures
            final(self).wf(),
            destroys(*old(self), *final(self), s, focused, *looks, r),
            !final(self).desk.facts.known(final(self).desk.modes@, s),
    {
        let ghost before = *self;
        let preferred: Option<HomeOutput> = self.desk.preferred_output_for_toplevel(s);
        let restored: Option<(Window, bool)> = self.restore_swallowed(s, focused, looks);
        let ghost back = *self;
        let _ = self.desk.facts.unmapped.remove(&s);
        let ghost dropped = *self;
        let gone: Detached = self.detach_mapped_toplevel(s);
        assert(restores(before, back, s, *looks) && detaches(dropped, *self, s));
        UnmapOutcome { restored, gone, preferred }
    }

    fn alive(&self) -> (r: Vec<u64>)
        requires
            self.wf(),
        ensures
            r@.to_set() == alive_surfaces(self.desk.facts),
    {
        let mut out: Vec<u64> = self.desk.facts.unmapped.keys();
        let ghost first = out@;
        let mut more: Vec<u64> = self.desk.facts.visible.keys();
        let ghost second = more@;
        out.append(&mut more);
        proof {
            assert(out@ =~= first + second);
            assert forall|t: u64| #[trigger] out@.to_set().contains(t) <==> alive_surfaces(
                self.desk.facts,
            ).contains(t) by {
                if first.contains(t) {
                    let i = choose|i: int| 0 <= i < first.len() && first[i] == t;
                    assert(first[i]@ == t);
                    assert((first + second)[i] == t);
                }
                if second.contains(t) {
                    let i = choose|i: int| 0 <= i < second.len() && second[i] == t;
                    assert(second[i]@ == t);
                    assert((first + second)[first.len() + i] == t);
                }
                if self.desk.facts.unmapped@.contains_key(t) {
                    let i = choose|i: int| 0 <= i < first.len() && (#[trigger] first[i])@ == t;
                    assert(first[i] == t);
                }
                if self.desk.facts.visible@.contains_key(t) {
                    let i = choose|i: int| 0 <= i < second.len() && (#[trigger] second[i])@ == t;
                    assert(second[i] == t);
                }
                if out@.contains(t) {
                    let i = choose|i: int| 0 <= i < out@.len() && out@[i] == t;
                    if i < first.len() {
                        assert(first[i] == t);
                    } else {
                        assert(second[i - first.len()] == t);
                    }
                }
            }
            assert(out@.to_set() =~= alive_surfaces(self.desk.facts));
        }
        out
    }

    fn note_flutter(&mut self, s: u64, mapping: bool, now: u64)
        requires
            old(self).wf(),
            old(self).counts_fit(s),
        ensures
            final(self).wf(),
            flutters(*old(self), *final(self), s, mapping, now),
    {
        let alive: Vec<u64> = self.alive();
        self.refusals.note_toplevel_flutter(s, mapping, now, &alive);
    }

    /// What a commit of a surface does to the windows. A window maps with its first
    /// buffer and unmaps when the buffer is taken away; from its second commit on a
    /// tiled window that keeps another size refuses its tile. While it is announced it
    /// looks as its rules say.
    pub fn handle_commit(&mut self, s: u64, facts: &CommitFacts) -> (r: CommitOutcome)
        requires
            old(self).wf(),
            old(self).counts_fit(s),
            facts.map.wf(),
        ensures
            final(self).wf(),
            r.transition == transition_of(old(self).tracking_of(s), facts.has_buffer),
            r.configure == (old(self).tracking_of(s) == ToplevelTracking::Unmapped
                && !facts.has_buffer && !facts.initial_configure_sent),
            match r.transition {
                ToplevelTransition::ToMapped => {
                    &&& r.shown is Some && r.unmapped is None && !r.float_now
                    &&& exists|noted: Toplevels|
                        {
                            &&& #[trigger] flutters(*old(self), noted, s, true, facts.now)
                            &&& r.shown == Some(noted.map_outcome(s, facts.map))
                            &&& match r.shown->0 {
                                MapOutcome::Shown(plan) => shows_up(
                                    noted,
                                    *final(self),
                                    s,
                                    plan,
                                    facts.map.looks,
                                ),
                                _ => dresses(noted, *final(self), s, facts.map.looks),
                            }
                        }
                },
                ToplevelTransition::ToUnmapped => {
                    &&& r.shown is None && r.unmapped is Some && !r.float_now
                    &&& exists|noted: Toplevels|
                        {
                            &&& #[trigger] flutters(*old(self), noted, s, false, facts.now)
                            &&& unmaps(
                                noted,
                                *final(self),
                                s,
                                facts.focused,
                                facts.restored_looks,
                                r.unmapped->0,
                            )
                        }
                },
                ToplevelTransition::NoChange => {
                    &&& r.shown is None && r.unmapped is None
                    &&& if old(self).tracking_of(s) == ToplevelTracking::Mapped {
                        refusal_noted(
                            old(self).refusals,
                            final(self).refusals,
                            s,
                            old(self).refusal_facts(s, *facts),
                            facts.now,
                            r.float_now,
                        ) && *final(self) == (Toplevels {
                            refusals: final(self).refusals,
                            looks: final(self).looks,
                            ..*old(self)
                        })
                    } else {
                        !r.float_now && *final(self) == (Toplevels {
                            looks: final(self).looks,
                            ..*old(self)
                        })
                    }
                    &&& if old(self).numeric_ids@.contains_key(s) {
                        ruled_looks(old(self).looks, final(self).looks, s, facts.map.looks)
                    } else {
                        final(self).looks == old(self).looks
                    }
                },
            },
    {
        let ghost before = *self;
        let tracking: ToplevelTracking = if self.desk.facts.unmapped.contains(&s) {
            ToplevelTracking::Unmapped
        } else if self.desk.is_mapped(s) {
            ToplevelTracking::Mapped
        } else {
            ToplevelTracking::Unknown
        };
        let transition: ToplevelTransition = lifecycle_transition(tracking, facts.has_buffer);
        let configure: bool = match tracking {
            ToplevelTracking::Unmapped => !facts.has_buffer && !facts.initial_configure_sent,
            _ => false,
        };
        let mut outcome: CommitOutcome = CommitOutcome {
            transition,
            shown: None,
            unmapped: None,
            float_now: false,
            configure,
        };
        match transition {
            ToplevelTransition::ToMapped => {
                self.note_flutter(s, true, facts.now);
                let ghost noted = *self;
                let shown: MapOutcome = self.map_toplevel(s, &facts.map);
                outcome.shown = Some(shown);
                assert(flutters(before, noted, s, true, facts.now));
            },
            ToplevelTransition::ToUnmapped => {
                self.note_flutter(s, false, facts.now);
                let ghost noted = *self;
                let gone: UnmapOutcome = self.unmap_toplevel(
                    s,
                    facts.focused,
                    &facts.restored_looks,
                );
                outcome.unmapped = Some(gone);
                assert(flutters(before, noted, s, false, facts.now));
            },
            ToplevelTransition::NoChange => {
                if let ToplevelTracking::Mapped = tracking {
                    let expected: Option<(i32, i32)> = match self.expected_tiled_size.get(&s) {
                        Some(size) => Some(*size),
                        None => None,
                    };
                    let tile: RefusalFacts = RefusalFacts {
                        expected,
                        tiled: self.desk.facts.layouts.contains(s),
                        fullscreen: self.desk.modes.fullscreen.contains(&s),
                        grabbed: facts.grabbed,
                        actual: facts.actual,
                    };
                    proof {
                        self.desk.facts.layouts.lemma_home(s);
                    }
                    outcome.float_now = self.refusals.note_tiled_size_refusal(s, &tile, facts.now);
                }
                if self.numeric_ids.contains(&s) {
                    self.looks.apply(s, &facts.map.looks);
                }
            },
        }
        outcome
    }

    /// Where a window lies that its client asks to be dragged; nothing where it has
    /// a place of its own, or where the click that was named did not fall on it.
    pub fn drag_start(&self, s: u64, own_seat: bool, clicked: Option<u64>) -> (r: Option<Rect>)
        requires
            self.wf(),
        ensures
            r == if self.desk.facts.floats(s) && !self.desk.modes@.fullscreen.contains_key(s)
                && !self.desk.modes@.maximized.contains_key(s) && own_seat && clicked == Some(s)
                && self.desk.facts.visible@.contains_key(s) {
                Some(self.desk.facts.visible@[s].rect)
            } else {
                None
            },
    {
        if !self.desk.facts.is_floating(s) || self.desk.modes.fullscreen.contains(&s)
            || self.desk.modes.maximized.contains(&s) || !own_seat {
            return None;
        }
        match clicked {
            Some(t) => if t != s {
                return None;
            },
            None => {
                return None;
            },
        }
        match self.desk.facts.visible.get(&s) {
            Some(w) => Some(w.rect),
            None => None,
        }
    }
}

/// The surface that the click of a grab fell on: the one that has a grab of this
/// serial, as far as it began on a surface.
pub fn check_grab(has_grab: bool, focus: Option<u64>, s: u64) -> (r: bool)
    ensures
        r == (has_grab && focus == Some(s)),
{
    match focus {
        Some(f) => has_grab && f == s,
        None => false,
    }
}

/// Whether a title or an application's name is told anew: where the window is
/// announced, is not about to go, and either differs from what was told.
pub fn identity_changed(
    transition: ToplevelTransition,
    told: &Option<(String, String)>,
    title: &Option<String>,
    app_id: &Option<String>,
) -> (r: bool)
    ensures
        r == (transition != ToplevelTransition::ToUnmapped && told is Some && ((told->0).0@ != text_or_empty(
            *title,
        ) || (told->0).1@ != text_or_empty(*app_id))),
{
    if let ToplevelTransition::ToUnmapped = transition {
        return false;
    }
    match told {
        Some((told_title, told_app)) => {
            let empty: &str = "";
            proof {
                reveal_strlit("");
                assert(empty@ =~= Seq::<char>::empty());
            }
            let title: &str = match title {
                Some(text) => text.as_str(),
                None => empty,
            };
            let app: &str = match app_id {
                Some(text) => text.as_str(),
                None => empty,
            };
            !text_eq(told_title.as_str(), title) || !text_eq(told_app.as_str(), app)
        },
        None => false,
    }
}

/// A text, or the empty one.
pub open spec fn text_or_empty(text: Option<String>) -> Seq<char> {
    match text {
        Some(t) => t@,
        None => Seq::empty(),
    }
}

/// A window that goes is known as a mapped one no more, nor remembered by what
/// others gave up for it.
pub proof fn law_detached_windows_are_forgotten(before: Toplevels, after: Toplevels, s: u64, c: u64)
    requires
        before.wf(),
        after.wf(),
        detaches(before, after, s),
    ensures
        !after.desk.facts.mapped(after.desk.modes@, s),
        !after.numeric_ids@.contains_key(s),
        !after.focus_history@.contains(s),
        !after.looks.opacity@.contains_key(s) && !after.looks.glass@.contains_key(s),
        after.swallowed@.contains_key(c) ==> after.swallowed@[c].surface != Some(s),
{
    let mid = match lookup(before.desk.facts.next_tab@, s) {
        Some(window) => choose|mid: Layouts|
            {
                &&& mid.wf()
                &&& replaces(before.desk.facts.layouts, mid, s, window)
                &&& #[trigger] untiles(mid, after.desk.facts.layouts, s)
            },
        None => before.desk.facts.layouts,
    };
    law_remove_is_everywhere(mid.trees@, s, s, (Seq::empty(), 0));
    after.desk.facts.layouts.lemma_home(s);
    broadcast use vstd::seq_lib::group_filter_ensures;
    if after.focus_history@.contains(s) {
        assert(other_than(s)(s));
    }
}

} // verus!
