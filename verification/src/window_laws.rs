//! What showing, hiding and forgetting windows is for.

use vstd::prelude::*;

use crate::bsp::{root_windows, Window};
use crate::desk::{
    lookup, one_per_output, output_index, output_named, Desk, DeskFacts, DeskOutput,
    FullscreenOutcome, FullscreenStep, HomeView, ModesView, SizeReply,
};
use crate::layouts::tiled_at;
use crate::toplevels::{
    announces, detaches, hides, places, restores, MapFacts,
    Toplevels,
};
use crate::xdg_shell::{
    flutter_after, records_kept, refusal_noted, tracked_only, transition_of,
    FlutterRecord, RefusalFacts, TilingRefusals, ToplevelTracking, ToplevelTransition,
};

verus! {

/// A window floats where its rule says float, pin or maximize; where it is a dialog or
/// cannot be resized both ways, unless its rule says tile; and where it would not be tiled
/// before. Else it is tiled.
pub proof fn law_windows_float_for_a_reason(top: Toplevels, s: u64, facts: MapFacts, output: u64)
    ensures
        ({
            let plan = top.map_plan(s, facts, output);
            let (min, max) = (facts.min_size, facts.max_size);
            let fixed = min.0 > 0 && min.1 > 0 && (min.0 == max.0 || min.1 == max.1);
            &&& facts.rule.float ==> plan.float
            &&& facts.rule.pin ==> plan.float && plan.pin
            &&& facts.rule.maximize ==> plan.float && plan.maximize
            &&& facts.has_parent && !facts.rule.tile ==> plan.float
            &&& fixed && !facts.rule.tile ==> plan.float
            &&& top.refusals.floated@.contains_key(s) ==> plan.float
            &&& plan.float ==> facts.rule.float || facts.rule.pin || facts.rule.maximize
                || top.refusals.floated@.contains_key(s) || (!facts.rule.tile && (facts.has_parent
                || fixed))
            &&& plan.pin ==> facts.rule.pin
            &&& plan.maximize ==> facts.rule.maximize
        }),
{
}

/// What its rule says of a window that is shown is done with it: the workspace, the place
/// and the size where it floats, pseudo-tiling where it does not, fullscreen, and the focus
/// unless the rule denies it.
pub proof fn law_a_rule_says_where_a_window_goes(top: Toplevels, s: u64, facts: MapFacts, output: u64)
    ensures
        ({
            let plan = top.map_plan(s, facts, output);
            let rule = facts.rule;
            &&& plan.output == output
            &&& top.desk.facts.unmapped@.contains_key(s) ==> plan.window
                == top.desk.facts.unmapped@[s]
            &&& rule.workspace is Some ==> plan.workspace == rule.workspace->0
            &&& rule.workspace is None && output_index(top.desk.facts.outputs@, output)
                < top.desk.facts.outputs@.len() ==> plan.workspace == top.desk.facts.layouts.shown(
                top.desk.facts.outputs@[output_index(top.desk.facts.outputs@, output)].name@,
            )
            &&& plan.placement is Some ==> plan.float && plan.placement->0 == (
                rule.position,
                rule.size,
            )
            &&& plan.float && rule.position is Some ==> plan.placement is Some
            &&& plan.float && rule.size is Some ==> plan.placement is Some
            &&& rule.position is None && rule.size is None ==> plan.placement is None
            &&& plan.pseudo_tile == (rule.pseudo_tile && !plan.float)
            &&& plan.fullscreen == rule.fullscreen
            &&& rule.no_focus ==> !plan.focus
            &&& !rule.no_focus ==> plan.focus
            &&& plan.ocean == facts.ocean
        }),
{
}

/// The first size of a tile is kept from a window exactly where another follows at once.
pub proof fn law_a_tile_size_is_kept_back_only_where_another_follows(
    top: Toplevels,
    s: u64,
    facts: MapFacts,
    output: u64,
)
    ensures
        ({
            let plan = top.map_plan(s, facts, output);
            &&& plan.maximize || plan.fullscreen || plan.pseudo_tile ==> plan.skip_first_configure
            &&& plan.placement is Some ==> plan.skip_first_configure
            &&& top.refusals.floated@.contains_key(s) ==> plan.skip_first_configure
            &&& plan.skip_first_configure ==> plan.maximize || plan.fullscreen
                || facts.rule.pseudo_tile || plan.placement is Some
                || top.refusals.floated@.contains_key(s)
        }),
{
}

proof fn lemma_swallowed_matches(facts: MapFacts, windows: Seq<Window>, s: u64)
    ensures
        facts.first_swallowed(windows, s) is Some ==> exists|i: int|
            0 <= i < windows.len() && facts.is_swallowed_by(#[trigger] windows[i], s)
                && windows[i].surface == facts.first_swallowed(windows, s),
        facts.first_swallowed(windows, s) is None ==> forall|i: int|
            0 <= i < windows.len() ==> !facts.is_swallowed_by(#[trigger] windows[i], s),
    decreases windows.len(),
{
    if windows.len() > 0 {
        let rest = windows.skip(1);
        lemma_swallowed_matches(facts, rest, s);
        if !facts.is_swallowed_by(windows[0], s) {
            if facts.first_swallowed(windows, s) is Some {
                let i = choose|i: int|
                    0 <= i < rest.len() && facts.is_swallowed_by(#[trigger] rest[i], s)
                        && rest[i].surface == facts.first_swallowed(rest, s);
                assert(windows[i + 1] == rest[i]);
            } else {
                assert forall|i: int| 0 <= i < windows.len() implies !facts.is_swallowed_by(
                    #[trigger] windows[i],
                    s,
                ) by {
                    if i > 0 {
                        assert(windows[i] == rest[i - 1]);
                    }
                }
            }
        }
    }
}

/// A window takes the place only of another one that is tiled on the same workspace, whose
/// rule allows it and whose process is an ancestor of its own; and it does where there is
/// such a one, unless it floats by its rule or by itself or lives on the canvas. It is put
/// beside the window whose place it takes, else beside the focused one.
pub proof fn law_only_a_terminal_is_swallowed(top: Toplevels, s: u64, facts: MapFacts, output: u64)
    ensures
        ({
            let plan = top.map_plan(s, facts, output);
            let name = crate::toplevels::name_of(top.desk, output);
            let there = root_windows(top.desk.facts.layouts.root_at((name, plan.workspace)));
            let rule = facts.rule;
            &&& plan.swallows is Some ==> {
                let t = plan.swallows->0;
                &&& t != s
                &&& exists|i: int| 0 <= i < there.len() && (#[trigger] there[i]).surface == Some(t)
                &&& facts.swallow_rules
                &&& facts.swallowers@.contains_key(t)
                &&& facts.pids@.contains_key(s) && facts.pids@.contains_key(t)
                &&& facts.pids@[t] != facts.pids@[s]
                &&& facts.ancestors@.contains(facts.pids@[t])
                &&& !facts.ocean && !rule.float && !rule.pin
                &&& !top.refusals.floated@.contains_key(s)
                &&& plan.beside == Some(t)
            }
            &&& plan.swallows is None ==> plan.beside == facts.focused
            &&& forall|i: int, t: u64|
                0 <= i < there.len() && (#[trigger] there[i]).surface == Some(t) && t != s
                    && facts.swallow_rules && #[trigger] facts.swallowers@.contains_key(t)
                    && facts.pids@.contains_key(s) && facts.pids@.contains_key(t) && facts.pids@[t]
                    != facts.pids@[s] && facts.ancestors@.contains(facts.pids@[t]) && !facts.ocean
                    && !plan.float ==> plan.swallows is Some
        }),
{
    let plan = top.map_plan(s, facts, output);
    let name = crate::toplevels::name_of(top.desk, output);
    let there = root_windows(top.desk.facts.layouts.root_at((name, plan.workspace)));
    lemma_swallowed_matches(facts, there, s);
    assert forall|i: int, t: u64|
        0 <= i < there.len() && (#[trigger] there[i]).surface == Some(t) && t != s
            && facts.swallow_rules && #[trigger] facts.swallowers@.contains_key(t)
            && facts.pids@.contains_key(s) && facts.pids@.contains_key(t) && facts.pids@[t]
            != facts.pids@[s] && facts.ancestors@.contains(facts.pids@[t]) && !facts.ocean
            && !plan.float implies plan.swallows is Some by {
        assert(facts.is_swallowed_by(there[i], s));
    }
}

proof fn lemma_output_index(outputs: Seq<DeskOutput>, id: u64)
    ensures
        0 <= output_index(outputs, id) <= outputs.len(),
        output_index(outputs, id) < outputs.len() ==> outputs[output_index(outputs, id)].id == id,
        forall|i: int|
            0 <= i < outputs.len() && (#[trigger] outputs[i]).id == id ==> output_index(outputs, id)
                <= i,
    decreases outputs.len(),
{
    if outputs.len() > 0 && outputs[0].id != id {
        let rest = outputs.skip(1);
        lemma_output_index(rest, id);
        assert forall|i: int| 0 <= i < outputs.len() && (#[trigger] outputs[i]).id == id implies output_index(
            outputs,
            id,
        ) <= i by {
            assert(rest[i - 1] == outputs[i]);
        }
    }
}

/// An output is in use exactly when it is listed; it is found under its number.
pub proof fn law_outputs_are_found_by_number(facts: DeskFacts, id: u64)
    ensures
        facts.live(Some(id)) is Some <==> exists|i: int|
            0 <= i < facts.outputs@.len() && (#[trigger] facts.outputs@[i]).id == id,
        facts.live(Some(id)) is Some ==> facts.live(Some(id)) == Some(id),
        facts.live(None) is None,
        output_index(facts.outputs@, id) < facts.outputs@.len() ==> facts.outputs@[output_index(
            facts.outputs@,
            id,
        )].id == id,
{
    lemma_output_index(facts.outputs@, id);
}

/// An output is found under its name.
pub proof fn law_outputs_are_found_by_name(outputs: Seq<DeskOutput>, name: Seq<char>)
    ensures
        match output_named(outputs, name) {
            Some(id) => exists|i: int|
                0 <= i < outputs.len() && (#[trigger] outputs[i]).name@ == name && outputs[i].id == id,
            None => forall|i: int| 0 <= i < outputs.len() ==> (#[trigger] outputs[i]).name@ != name,
        },
    decreases outputs.len(),
{
    if outputs.len() > 0 {
        let rest = outputs.skip(1);
        law_outputs_are_found_by_name(rest, name);
        if outputs[0].name@ == name {
            assert(outputs[0].id == output_named(outputs, name)->0);
        } else {
            match output_named(rest, name) {
                Some(id) => {
                    let i = choose|i: int|
                        0 <= i < rest.len() && (#[trigger] rest[i]).name@ == name && rest[i].id == id;
                    assert(outputs[i + 1] == rest[i]);
                },
                None => {
                    assert forall|i: int| 0 <= i < outputs.len() implies (
                    #[trigger] outputs[i]).name@ != name by {
                        if i > 0 {
                            assert(outputs[i] == rest[i - 1]);
                        }
                    }
                },
            }
        }
    }
}

/// A window with its first buffer is shown where it waits and where there is an output: the
/// one it is to be fullscreen on, where that is in use; else the one its rule names; else
/// the primary one. Without an output it is told to close where it waits.
pub proof fn law_a_first_buffer_shows_a_waiting_window(top: Toplevels, s: u64, facts: MapFacts)
    ensures
        ({
            let d = top.desk;
            let waits = d.facts.unmapped@.contains_key(s);
            let wanted = lookup(d.modes@.fullscreen, s);
            let r = top.map_outcome(s, facts);
            &&& r is Shown ==> waits
            &&& r is Gone ==> !waits
            &&& r is NoOutput ==> r->close == waits && d.facts.live(d.facts.primary) is None
            &&& wanted is Some && d.facts.live(Some((wanted->0).output)) is Some && waits ==> r is Shown
                && (r->Shown_0).output == (wanted->0).output
            &&& (wanted is None || d.facts.live(Some((wanted->0).output)) is None) && d.facts.live(
                facts.rule.output,
            ) is Some && waits ==> r is Shown && (r->Shown_0).output == facts.rule.output->0
            &&& (wanted is None || d.facts.live(Some((wanted->0).output)) is None) && d.facts.live(
                facts.rule.output,
            ) is None && d.facts.live(d.facts.primary) is Some && waits ==> r is Shown
                && (r->Shown_0).output == d.facts.primary->0
        }),
{
}

/// A window maps with its first buffer, unmaps when the buffer is taken away, and stays as
/// it is otherwise; a surface that is no window never does either.
pub proof fn law_buffers_map_and_unmap(tracking: ToplevelTracking, has_buffer: bool)
    ensures
        ({
            let t = transition_of(tracking, has_buffer);
            &&& t == ToplevelTransition::ToMapped <==> tracking == ToplevelTracking::Unmapped
                && has_buffer
            &&& t == ToplevelTransition::ToUnmapped <==> tracking == ToplevelTracking::Mapped
                && !has_buffer
            &&& tracking == ToplevelTracking::Unknown ==> t == ToplevelTransition::NoChange
        }),
{
}

/// A window that maps within a second of having unmapped has flipped once more; one that
/// takes longer, or never unmapped, starts anew. Unmapping is remembered with its time and
/// counts nothing.
pub proof fn law_quick_remaps_are_counted(records: Map<u64, FlutterRecord>, s: u64, now: u64)
    requires
        records.contains_key(s) ==> records[s].flips < u32::MAX,
    ensures
        ({
            let mapped = flutter_after(records, s, true, now);
            let unmapped = flutter_after(records, s, false, now);
            &&& unmapped.last_unmapped_at == Some(now)
            &&& unmapped.flips == if records.contains_key(s) {
                records[s].flips
            } else {
                0
            }
            &&& records.contains_key(s) && records[s].last_unmapped_at is Some ==> {
                let at = records[s].last_unmapped_at->0;
                &&& at <= now <= at + 1_000_000_000 ==> mapped.flips == records[s].flips + 1
                &&& now > at + 1_000_000_000 ==> mapped.flips == 0
                &&& mapped.last_unmapped_at == Some(at)
            }
            &&& !records.contains_key(s) || records[s].last_unmapped_at is None ==> mapped.flips == 0
        }),
{
}

/// Three quick remaps in a row, and a window is left to float; fewer, and it is not.
pub proof fn law_three_quick_remaps_let_a_window_float(flips: u32)
    ensures
        crate::xdg_shell::FLUTTER_FLOPS == 3,
        crate::xdg_shell::FLUTTER_WINDOW == 1_000_000_000,
        crate::xdg_shell::REFUSAL_LIMIT == 3,
        crate::xdg_shell::REFUSAL_WINDOW == 500_000_000,
        crate::xdg_shell::SIZE_TOLERANCE == 8,
{
}

/// What is remembered of flutter stays for windows that are there, for those that flutter
/// for good, and for as long as the last unmapping is recent; nothing else stays.
pub proof fn law_flutter_is_forgotten_in_time(
    records: Map<u64, FlutterRecord>,
    floated: Map<u64, ()>,
    now: u64,
    alive: Set<u64>,
    s: u64,
)
    ensures
        ({
            let kept = records_kept(records, now, alive);
            &&& kept.contains_key(s) ==> records.contains_key(s) && kept[s] == records[s]
            &&& records.contains_key(s) && alive.contains(s) ==> kept.contains_key(s)
            &&& records.contains_key(s) && records[s].flips >= 3 ==> kept.contains_key(s)
            &&& records.contains_key(s) && !alive.contains(s) && records[s].flips < 3 && (
            records[s].last_unmapped_at is None || now > records[s].last_unmapped_at->0
                + 1_000_000_000) ==> !kept.contains_key(s)
            &&& tracked_only(floated, alive).contains_key(s) <==> floated.contains_key(s)
                && alive.contains(s)
        }),
{
}

/// A commit counts as a refusal exactly where the window is tiled, was told the size of its
/// tile, is not fullscreen, nothing is being dragged, and its size differs from the tile's by
/// more than eight pixels in one direction or the other. Only a third refusal or a later one,
/// half a second at least after the first, lets the window float; that it does at once, and
/// for good.
pub proof fn law_a_tile_is_refused_by_another_size(
    before: TilingRefusals,
    after: TilingRefusals,
    s: u64,
    facts: RefusalFacts,
    now: u64,
    trips: bool,
)
    requires
        refusal_noted(before, after, s, facts, now, trips),
        before.size_refusals@.contains_key(s) ==> before.size_refusals@[s].refusals < u32::MAX,
    ensures
        ({
            let counted = facts.expected is Some && facts.tiled && !facts.fullscreen
                && !facts.grabbed && facts.actual is Some && {
                let (e, a) = (facts.expected->0, facts.actual->0);
                a.0 - e.0 > 8 || e.0 - a.0 > 8 || a.1 - e.1 > 8 || e.1 - a.1 > 8
            };
            let known = before.size_refusals@.contains_key(s);
            &&& trips ==> counted && known && before.size_refusals@[s].refusals >= 2
                && after.floated@.contains_key(s) && !after.size_refusals@.contains_key(s)
            &&& trips && before.size_refusals@[s].first_refusal_at is Some ==> now
                >= before.size_refusals@[s].first_refusal_at->0 + 500_000_000
            &&& counted && known && before.size_refusals@[s].refusals >= 2
                && before.size_refusals@[s].first_refusal_at is Some && now
                >= before.size_refusals@[s].first_refusal_at->0 + 500_000_000 ==> trips
            &&& counted && !trips ==> after.size_refusals@.contains_key(s)
                && after.size_refusals@[s].refusals == 1 + if known {
                before.size_refusals@[s].refusals as int
            } else {
                0
            }
            &&& counted && !known ==> after.size_refusals@[s].first_refusal_at == Some(now)
            &&& !trips ==> after.floated@ == before.floated@
            &&& !counted && facts.expected is Some && facts.actual is Some && !facts.grabbed
                ==> !after.size_refusals@.contains_key(s)
            &&& forall|t: u64| t != s ==> (after.size_refusals@.contains_key(t)
                <==> #[trigger] before.size_refusals@.contains_key(t))
        }),
{
}

/// The output that a window belongs to is the one that the canvas, its tile, its floating
/// place or the deck names, in this order; else the one it is seen on.
pub proof fn law_a_window_belongs_to_one_output(facts: DeskFacts, modes: ModesView, s: u64)
    ensures
        ({
            let r = facts.preferred(modes, s);
            let canvas = facts.ocean@.contains_key(s);
            let tile = facts.layouts.home(s) is Some;
            let loose = modes.floating.contains_key(s);
            let away = facts.put_away@.contains_key(s);
            &&& canvas ==> r == Some(HomeView::Number(facts.ocean@[s].output))
            &&& !canvas && tile && r is Some && r->0 is Name ==> (r->0)->Name_0 == (facts.layouts.home(
                s,
            )->0).0
            &&& !canvas && tile ==> r is Some
            &&& !canvas && !tile && loose ==> r == Some(HomeView::Number(modes.floating[s].output))
            &&& !canvas && !tile && !loose && away ==> r == Some(
                HomeView::Number(facts.put_away@[s].output),
            )
            &&& !canvas && !tile && !loose && !away && facts.visible@.contains_key(s)
                && facts.visible@[s].output is Some ==> r == Some(
                HomeView::Number(facts.visible@[s].output->0),
            )
        }),
{
}

/// A window that is granted the fullscreen mode is told the whole size of its output, and has
/// that output from then on; where it floated on the screen, its place is remembered. A
/// window that makes room is told that it is fullscreen no more.
pub proof fn law_fullscreen_takes_the_whole_output(
    facts: DeskFacts,
    before: ModesView,
    after: ModesView,
    s: u64,
    requested: Option<u64>,
    outcome: FullscreenOutcome,
)
    requires
        facts.goes_fullscreen(before, after, s, requested, outcome),
        one_per_output(before),
    ensures
        outcome.reply.fullscreen == Some(true) ==> {
            &&& after.fullscreen.contains_key(s)
            &&& facts.geometry_of(after.fullscreen[s].output) is Some
            &&& ({
                let g = facts.geometry_of(after.fullscreen[s].output)->0;
                outcome.reply.size == SizeReply::Fixed(g.w, g.h)
            })
            &&& outcome.reply.maximized == Some(false)
            &&& outcome.reply.retile
            &&& forall|t: u64|
                t != s && #[trigger] after.fullscreen.contains_key(t) ==> after.fullscreen[t].output
                    != after.fullscreen[s].output
        },
        outcome.reply.fullscreen != Some(true) ==> after == before && outcome.preempted is None,
        outcome.reply.fullscreen == Some(true) && !before.fullscreen.contains_key(s)
            && !before.maximized.contains_key(s) && !facts.unmapped@.contains_key(s)
            && facts.floats(s) && facts.visible@.contains_key(s)
            ==> after.fullscreen[s].restore_rect == Some(facts.visible@[s].rect),
        outcome.preempted is Some ==> {
            let p = outcome.preempted->0;
            &&& p.surface != s
            &&& before.fullscreen.contains_key(p.surface) && !after.fullscreen.contains_key(p.surface)
            &&& facts.known(before, p.surface) ==> p.reply is Some && (p.reply->0).fullscreen == Some(
                false,
            )
        },
{
    if let FullscreenStep::Take { output, geometry } = facts.fullscreen_step(before, s, requested) {
        assert forall|t: u64| t != s && #[trigger] after.fullscreen.contains_key(t) implies after.fullscreen[t].output
            != after.fullscreen[s].output by {
            if before.fullscreen.contains_key(t) && before.fullscreen[t].output == output {
                assert(DeskFacts::in_the_way(before, s, output, t));
                assert(outcome.preempted is Some);
                let p = (outcome.preempted->0).surface;
                assert(before.fullscreen[p].output == before.fullscreen[t].output);
            }
        }
    }
}

/// A mapped window goes fullscreen on the output it belongs to, whatever it asks for; one
/// that waits, on the output it asks for. Else it is the primary one.
pub proof fn law_fullscreen_stays_on_the_own_output(
    facts: DeskFacts,
    modes: ModesView,
    s: u64,
    requested: Option<u64>,
)
    ensures
        ({
            let r = facts.fullscreen_target(modes, s, requested);
            let own = facts.live(facts.owner(modes, s));
            &&& facts.unmapped@.contains_key(s) && requested is Some ==> r == requested
            &&& !facts.unmapped@.contains_key(s) && own is Some ==> r == own
            &&& !facts.unmapped@.contains_key(s) && own is None && requested is Some ==> r == requested
            &&& requested is None && (facts.unmapped@.contains_key(s) || own is None) ==> r
                == facts.primary
        }),
{
}

/// A window leaves the fullscreen mode: nobody else's modes change, it is pinned again where
/// it was, and a tiled one is told the size of its tile.
pub proof fn law_leaving_fullscreen_gives_back(facts: DeskFacts, modes: ModesView, s: u64, other: u64)
    requires
        modes.fullscreen.contains_key(s),
        other != s,
    ensures
        ({
            let after = facts.unfullscreened(modes, s);
            let reply = facts.unfullscreen_reply(modes, s);
            &&& !after.fullscreen.contains_key(s)
            &&& lookup(after.fullscreen, other) == lookup(modes.fullscreen, other)
            &&& lookup(after.maximized, other) == lookup(modes.maximized, other)
            &&& lookup(after.floating, other) == lookup(modes.floating, other)
            &&& lookup(after.pinned, other) == lookup(modes.pinned, other)
            &&& facts.floats(s) && modes.fullscreen[s].was_pinned ==> after.pinned.contains_key(s)
                && reply.pin_to == Some(modes.fullscreen[s].output)
            &&& reply.fullscreen == Some(false) && reply.retile
            &&& !facts.floats(s) && facts.tiled_rects@.contains_key(s) ==> reply.size
                == SizeReply::Fixed(facts.tiled_rects@[s].w, facts.tiled_rects@[s].h)
            &&& facts.floats(s) && modes.maximized.contains_key(s) ==> after.maximized.contains_key(s)
            &&& facts.floats(s) && !modes.maximized.contains_key(s)
                && modes.fullscreen[s].restore_rect is Some && facts.visible@.contains_key(s) ==> {
                let rect = modes.fullscreen[s].restore_rect->0;
                &&& reply.size == SizeReply::Fixed(rect.w, rect.h)
                &&& reply.place == Some((rect.x, rect.y))
                &&& reply.maximized == Some(false)
            }
        }),
{
}

/// A floating window that is maximized is told the tiling area of its output, drawn in by
/// the gap, and is put there where it is seen; a tiled one is told that it is not maximized.
/// Nobody else's modes change.
pub proof fn law_maximized_windows_fill_the_tiling_area(
    facts: DeskFacts,
    modes: ModesView,
    s: u64,
    shown: bool,
    other: u64,
)
    requires
        facts.wf(),
        other != s,
    ensures
        ({
            let reply = facts.maximize_reply(modes, s, shown);
            let after = facts.maximized(modes, s);
            let own = facts.live(facts.owner(modes, s));
            let target = if own is Some {
                own
            } else {
                facts.primary
            };
            &&& !facts.floats(s) ==> reply.maximized == Some(false) && !after.maximized.contains_key(s)
            &&& reply.maximized == Some(true) ==> target is Some && {
                let i = output_index(facts.outputs@, target->0);
                let area = facts.outputs@[i].tiling_area;
                let gap = facts.outputs@[i].gaps;
                &&& i < facts.outputs@.len() && area is Some
                &&& (area->0).w - 2 * gap >= 1 && (area->0).h - 2 * gap >= 1 ==> {
                    &&& reply.size == SizeReply::Fixed(
                        ((area->0).w - 2 * gap) as i32,
                        ((area->0).h - 2 * gap) as i32,
                    )
                    &&& shown ==> reply.place == Some(
                        (((area->0).x + gap) as i32, ((area->0).y + gap) as i32),
                    )
                }
                &&& after.maximized.contains_key(s)
            }
            &&& reply.maximized == Some(true) ==> !modes.fullscreen.contains_key(s) && facts.floats(s)
            &&& reply.maximized == Some(true) && !modes.maximized.contains_key(s) ==> {
                &&& after.maximized[s].output == target->0
                &&& facts.visible@.contains_key(s) && !modes.fullscreen.contains_key(s)
                    ==> after.maximized[s].restore_rect == facts.visible@[s].rect
            }
            &&& lookup(after.maximized, other) == lookup(modes.maximized, other)
            &&& after.fullscreen == modes.fullscreen && after.floating == modes.floating
                && after.pinned == modes.pinned
        }),
{
}

/// A window that is maximized no more is told the size and the place it had before, and its
/// floating place is that one again; nobody else's modes change.
pub proof fn law_unmaximized_windows_go_back(facts: DeskFacts, modes: ModesView, s: u64, other: u64)
    requires
        other != s,
    ensures
        ({
            let reply = facts.unmaximize_reply(modes, s);
            let after = facts.unmaximized(modes, s);
            &&& !after.maximized.contains_key(s)
            &&& after.fullscreen == modes.fullscreen && after.pinned == modes.pinned
            &&& lookup(after.maximized, other) == lookup(modes.maximized, other)
            &&& lookup(after.floating, other) == lookup(modes.floating, other)
            &&& modes.maximized.contains_key(s) && !modes.fullscreen.contains_key(s) ==> {
                let rect = modes.maximized[s].restore_rect;
                &&& reply.size == SizeReply::Fixed(rect.w, rect.h)
                &&& facts.visible@.contains_key(s) ==> reply.place == Some((rect.x, rect.y))
                &&& modes.floating.contains_key(s) ==> after.floating[s].rect == rect
                    && after.floating[s].output == modes.floating[s].output
                    && after.floating[s].workspace == modes.floating[s].workspace
            }
        }),
{
}

/// A toggle acts on the focused window alone, where that is seen and no layer surface has
/// the keyboard to itself.
pub proof fn law_toggles_act_on_the_focused_window(
    desk: Desk,
    focused: Option<u64>,
    exclusive_layer: bool,
)
    ensures
        ({
            let r = desk.toggle_target(focused, exclusive_layer);
            &&& exclusive_layer ==> r is None
            &&& r is Some ==> r == focused && desk.facts.visible@.contains_key(r->0)
            &&& !exclusive_layer && focused is Some && desk.facts.visible@.contains_key(focused->0)
                ==> r == focused
        }),
{
}

/// What is forgotten of a window that goes is forgotten of it alone.
pub proof fn law_forgetting_a_window_leaves_the_others(
    before: Toplevels,
    after: Toplevels,
    s: u64,
    t: u64,
)
    requires
        detaches(before, after, s),
        t != s,
    ensures
        lookup(after.numeric_ids@, t) == lookup(before.numeric_ids@, t),
        lookup(after.pseudo_tiled@, t) == lookup(before.pseudo_tiled@, t),
        lookup(after.urgent@, t) == lookup(before.urgent@, t),
        lookup(after.expected_tiled_size@, t) == lookup(before.expected_tiled_size@, t),
        lookup(after.looks.opacity@, t) == lookup(before.looks.opacity@, t),
        lookup(after.looks.glass@, t) == lookup(before.looks.glass@, t),
        lookup(after.desk.facts.visible@, t) == lookup(before.desk.facts.visible@, t),
        lookup(after.desk.facts.ocean@, t) == lookup(before.desk.facts.ocean@, t),
        lookup(after.desk.facts.put_away@, t) == lookup(before.desk.facts.put_away@, t),
        lookup(after.desk.modes@.fullscreen, t) == lookup(before.desk.modes@.fullscreen, t),
        lookup(after.desk.modes@.maximized, t) == lookup(before.desk.modes@.maximized, t),
        lookup(after.desk.modes@.floating, t) == lookup(before.desk.modes@.floating, t),
        lookup(after.desk.modes@.pinned, t) == lookup(before.desk.modes@.pinned, t),
        before.focus_history@.contains(t) ==> after.focus_history@.contains(t),
        !after.urgent@.contains_key(s) && !after.pseudo_tiled@.contains_key(s),
        !after.desk.modes@.fullscreen.contains_key(s) && !after.desk.modes@.maximized.contains_key(s),
        !after.desk.modes@.pinned.contains_key(s),
{
    broadcast use vstd::seq_lib::group_filter_ensures;
    if before.focus_history@.contains(t) {
        let h = before.focus_history@;
        let i = choose|i: int| 0 <= i < h.len() && h[i] == t;
        assert(crate::toplevels::other_than(s)(h[i]));
    }
}

/// A window that is announced has a number that no window was given before, as long as there
/// are numbers left.
pub proof fn law_numbers_are_given_once(before: Toplevels, after: Toplevels, s: u64, t: u64)
    requires
        announces(before, after, s),
        forall|u: u64| #[trigger] before.numeric_ids@.contains_key(u) ==> before.numeric_ids@[u]
            < before.next_numeric_id,
        before.next_numeric_id < u64::MAX,
    ensures
        after.numeric_ids@.contains_key(s),
        t != s && after.numeric_ids@.contains_key(t) ==> after.numeric_ids@[t]
            != after.numeric_ids@[s],
        t != s ==> lookup(after.numeric_ids@, t) == lookup(before.numeric_ids@, t),
        after.numeric_ids@.contains_key(t) ==> after.numeric_ids@[t] < after.next_numeric_id,
{
}

/// A window that takes the place of another hides it: the other is no longer mapped, and
/// comes back for no other window.
pub proof fn law_a_swallowed_window_is_kept(before: Toplevels, after: Toplevels, s: u64, target: u64)
    requires
        hides(before, after, s, target),
        before.desk.facts.mapped_window(before.desk.modes@, target) is Some,
    ensures
        after.swallowed@.contains_key(s),
        Some(after.swallowed@[s]) == before.desk.facts.mapped_window(before.desk.modes@, target),
        !after.desk.facts.visible@.contains_key(target),
        !after.numeric_ids@.contains_key(target),
{
}

/// A window that goes gives its place back to the one it hid: that one is tiled on the same
/// workspace, and hidden no more.
pub proof fn law_a_hidden_window_comes_back(
    before: Toplevels,
    after: Toplevels,
    s: u64,
    looks: crate::looks::LookRule,
)
    requires
        before.wf(),
        restores(before, after, s, looks),
        before.swallowed@.contains_key(s),
        before.swallowed@[s].surface is Some,
        before.desk.facts.layouts.home(s) is Some,
    ensures
        ({
            let back = before.swallowed@[s].surface->0;
            let k = before.desk.facts.layouts.home(s)->0;
            &&& tiled_at(after.desk.facts.layouts.trees@, k, back)
            &&& !after.swallowed@.contains_key(s)
            &&& after.numeric_ids@.contains_key(back)
            &&& looks.opacity is Some ==> after.looks.opacity@.contains_key(back)
                && after.looks.opacity@[back] == looks.opacity->0
        }),
{
    let k = before.desk.facts.layouts.home(s)->0;
    before.desk.facts.layouts.lemma_home(s);
    let root = before.desk.facts.layouts.root_at(k)->0;
    let window = before.swallowed@[s];
    let back = window.surface->0;
    crate::bsp_laws::law_insert_adds_one_window(root, window, Some(s));
    let new = crate::bsp::inserted(root, window, Some(s));
    crate::bsp_laws::law_holds_is_membership(new, back);
    let ws = crate::bsp::windows_of(new);
    let p = crate::bsp_laws::place_of(crate::bsp::windows_of(root), Some(s));
    assert(ws[p] == window);
    assert(crate::bsp::shows(ws[p], back));
}

/// A window that is shown waits no more, and has a tile on its output and workspace, unless
/// it goes to the canvas.
pub proof fn law_a_shown_window_has_a_tile(
    before: Toplevels,
    after: Toplevels,
    s: u64,
    plan: crate::toplevels::MapPlan,
)
    requires
        before.desk.facts.layouts.wf(),
        places(before, after, s, plan),
        plan.window.surface == Some(s),
    ensures
        !after.desk.facts.unmapped@.contains_key(s),
        !plan.ocean ==> tiled_at(
            after.desk.facts.layouts.trees@,
            (crate::toplevels::name_of(before.desk, plan.output), plan.workspace),
            s,
        ),
{
    if !plan.ocean {
        let k = (crate::toplevels::name_of(before.desk, plan.output), plan.workspace);
        match before.desk.facts.layouts.root_at(k) {
            None => {},
            Some(root) => {
                crate::bsp_laws::law_insert_adds_one_window(root, plan.window, plan.beside);
                let new = crate::bsp::inserted(root, plan.window, plan.beside);
                crate::bsp_laws::law_holds_is_membership(new, s);
                let ws = crate::bsp::windows_of(new);
                let p = crate::bsp_laws::place_of(crate::bsp::windows_of(root), plan.beside);
                assert(ws[p] == plan.window);
                assert(crate::bsp::shows(ws[p], s));
            },
        }
    }
}

} // verus!
