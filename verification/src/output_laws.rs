//! What holds of how outputs are configured, listed, switched and coloured.

use vstd::prelude::*;
use vstd::string::*;

use crate::output_configuration::{
    are_changes, asks, is_change, is_live, plain_head, shift_of, supported, transform_of,
    with_setting, ConfigError, Configuration, EnabledHeadConfig, HeadChange, HeadOp, HeadSetting,
    LiveHead, Transform,
};
use crate::seqs::lemma_filter_member;
use crate::wlr_gamma_control::{word, ByteOrder, GammaRead, GammaReadStep};
use crate::wlr_output_management::{
    completed, has_head, has_object, head_refs, in_use, lacking, lacks, new_objects, out_of_use,
    with_object, with_outputs, without_object, youngest, HeadObject, HeadRef, HeadView,
};
use crate::wlr_output_power_management::{
    control_not, watches, watches_not, PowerControl, WlrOutputPowerManagementState,
};

verus! {

/// The first four transformations turn by quarters, the other four turn what was mirrored;
/// there are no others.
pub proof fn law_transformations_have_their_numbers(n: u32)
    ensures
        n == 0 ==> transform_of(n) == Some(Transform::Normal),
        n == 1 ==> transform_of(n) == Some(Transform::Rotated90),
        n == 2 ==> transform_of(n) == Some(Transform::Rotated180),
        n == 3 ==> transform_of(n) == Some(Transform::Rotated270),
        n == 4 ==> transform_of(n) == Some(Transform::Flipped),
        n == 5 ==> transform_of(n) == Some(Transform::Flipped90),
        n == 6 ==> transform_of(n) == Some(Transform::Flipped180),
        n == 7 ==> transform_of(n) == Some(Transform::Flipped270),
        n > 7 ==> transform_of(n) is None,
{
}

/// A setting that is granted is the one that was asked for, and no other setting changes.
pub proof fn law_a_setting_sets_only_itself(
    cfg: EnabledHeadConfig,
    x: i32,
    y: i32,
    refresh: i32,
    number: u32,
)
    ensures
        ({
            let r = with_setting(cfg, HeadSetting::Position { x, y });
            &&& r is Ok <==> cfg.position is None
            &&& r is Ok ==> r->Ok_0.position == Some((x, y)) && r->Ok_0.transform == cfg.transform
                && r->Ok_0.scale == cfg.scale && r->Ok_0.custom_mode == cfg.custom_mode
                && r->Ok_0.mode_assigned == cfg.mode_assigned
        }),
        ({
            let r = with_setting(cfg, HeadSetting::Scale { scale: x });
            &&& r is Ok <==> cfg.scale is None && x > 0
            &&& r is Ok ==> r->Ok_0.scale == Some(x) && r->Ok_0.transform == cfg.transform
                && r->Ok_0.position == cfg.position && r->Ok_0.custom_mode == cfg.custom_mode
                && r->Ok_0.mode_assigned == cfg.mode_assigned
        }),
        ({
            let r = with_setting(cfg, HeadSetting::Transform { number });
            &&& r is Ok <==> cfg.transform is None && number <= 7
            &&& r is Ok ==> r->Ok_0.transform == transform_of(number) && r->Ok_0.scale == cfg.scale
                && r->Ok_0.position == cfg.position && r->Ok_0.custom_mode == cfg.custom_mode
                && r->Ok_0.mode_assigned == cfg.mode_assigned
        }),
        ({
            let r = with_setting(cfg, HeadSetting::CustomMode { width: x, height: y, refresh });
            &&& r is Ok <==> !cfg.mode_assigned && x > 0 && y > 0
            &&& r is Ok ==> r->Ok_0.custom_mode == Some((x, y, refresh)) && r->Ok_0.mode_assigned
                && r->Ok_0.scale == cfg.scale && r->Ok_0.position == cfg.position
                && r->Ok_0.transform == cfg.transform
        }),
        ({
            let r = with_setting(cfg, HeadSetting::Mode { own: number == 1 });
            &&& r is Ok <==> !cfg.mode_assigned && number == 1
            &&& r is Ok ==> r->Ok_0.mode_assigned && r->Ok_0.custom_mode == cfg.custom_mode
                && r->Ok_0.scale == cfg.scale && r->Ok_0.position == cfg.position
                && r->Ok_0.transform == cfg.transform
        }),
{
}

/// A setting that is refused is refused for the reason given: that it was made already
/// comes first.
pub proof fn law_refused_settings_have_a_reason(
    cfg: EnabledHeadConfig,
    x: i32,
    y: i32,
    refresh: i32,
    number: u32,
)
    ensures
        cfg.position is Some ==> with_setting(cfg, HeadSetting::Position { x, y }) == Err::<
            EnabledHeadConfig,
            ConfigError,
        >(ConfigError::PositionAlreadySet),
        cfg.scale is Some ==> with_setting(cfg, HeadSetting::Scale { scale: x }) == Err::<
            EnabledHeadConfig,
            ConfigError,
        >(ConfigError::ScaleAlreadySet),
        cfg.scale is None && x <= 0 ==> with_setting(cfg, HeadSetting::Scale { scale: x }) == Err::<
            EnabledHeadConfig,
            ConfigError,
        >(ConfigError::InvalidScale),
        cfg.transform is Some ==> with_setting(cfg, HeadSetting::Transform { number }) == Err::<
            EnabledHeadConfig,
            ConfigError,
        >(ConfigError::TransformAlreadySet),
        cfg.transform is None && number > 7 ==> with_setting(cfg, HeadSetting::Transform { number })
            == Err::<EnabledHeadConfig, ConfigError>(ConfigError::InvalidTransform),
        cfg.mode_assigned ==> with_setting(
            cfg,
            HeadSetting::CustomMode { width: x, height: y, refresh },
        ) == Err::<EnabledHeadConfig, ConfigError>(ConfigError::ModeAlreadySet),
        cfg.mode_assigned ==> with_setting(cfg, HeadSetting::Mode { own: number == 1 }) == Err::<
            EnabledHeadConfig,
            ConfigError,
        >(ConfigError::ModeAlreadySet),
        !cfg.mode_assigned && (x <= 0 || y <= 0) ==> with_setting(
            cfg,
            HeadSetting::CustomMode { width: x, height: y, refresh },
        ) == Err::<EnabledHeadConfig, ConfigError>(ConfigError::InvalidCustomMode),
        !cfg.mode_assigned ==> with_setting(cfg, HeadSetting::Mode { own: false }) == Err::<
            EnabledHeadConfig,
            ConfigError,
        >(ConfigError::InvalidMode),
{
}

/// What a client is told of each mistake.
pub proof fn law_mistakes_are_told_in_words(e: ConfigError)
    ensures
        e is EnableAfterUse ==> e.text() == "enable_head after apply/test"@,
        e is DisableAfterUse ==> e.text() == "disable_head after apply/test"@,
        e is UsedTwice ==> e.text() == "apply/test already sent"@,
        e is AlreadyConfiguredHead ==> e.text() == "head already configured"@,
        e is UnconfiguredHead ==> e.text() == "not every head was configured"@,
        e is ModeAlreadySet ==> e.text() == "mode already set"@,
        e is InvalidMode ==> e.text() == "mode does not belong to this head"@,
        e is InvalidCustomMode ==> e.text() == "width/height must be positive"@,
        e is PositionAlreadySet ==> e.text() == "position already set"@,
        e is TransformAlreadySet ==> e.text() == "transform already set"@,
        e is InvalidTransform ==> e.text() == "transform outside enum range"@,
        e is ScaleAlreadySet ==> e.text() == "scale already set"@,
        e is InvalidScale ==> e.text() == "scale must be positive"@,
{
}

/// A head that was only enabled asks for nothing, and can always be had.
pub proof fn law_a_plain_head_asks_for_nothing(head: LiveHead)
    ensures
        !asks(HeadOp::Enabled(plain_head())),
        supported(HeadOp::Enabled(plain_head()), head),
        !plain_head().mode_assigned,
{
}

/// No output is switched off by a configuration, and no mode is changed: what is asked for
/// is supported where it is the mode that the output has, at any rate where none is named.
pub proof fn law_only_the_present_mode_is_supported(
    cfg: EnabledHeadConfig,
    head: LiveHead,
    w: i32,
    h: i32,
    rate: i32,
)
    ensures
        !supported(HeadOp::Disabled, head),
        cfg.custom_mode is None ==> supported(HeadOp::Enabled(cfg), head),
        cfg.custom_mode == Some((w, h, rate)) && head.mode is None ==> !supported(
            HeadOp::Enabled(cfg),
            head,
        ),
        cfg.custom_mode == Some((w, h, rate)) && head.mode is Some ==> (supported(
            HeadOp::Enabled(cfg),
            head,
        ) <==> (head.mode->0).0 == w && (head.mode->0).1 == h && (rate == 0 || (head.mode->0).2
            == rate)),
{
}

/// Windows are shifted by as much as their output moves, and not at all where it stays.
pub proof fn law_windows_move_with_their_output(fx: i32, fy: i32, tx: i32, ty: i32)
    ensures
        ({
            let shift = shift_of(Some((fx, fy)), Some((tx, ty)));
            &&& shift is Some ==> fx + (shift->0).0 == tx && fy + (shift->0).1 == ty
            &&& shift is None <==> fx == tx && fy == ty
            &&& shift_of(None, Some((tx, ty))) is None
            &&& shift_of(Some((fx, fy)), None) is None
        }),
{
}

/// A change carries what was asked for, for the output that was asked.
pub proof fn law_a_change_is_what_was_asked_for(
    change: HeadChange,
    head: LiveHead,
    cfg: EnabledHeadConfig,
)
    requires
        is_change(change, head, HeadOp::Enabled(cfg)),
    ensures
        change.output == head.output,
        change.transform == cfg.transform,
        change.scale == cfg.scale,
        change.position == cfg.position,
        head.position is Some && cfg.position is Some && change.shift is Some ==> (
        head.position->0).0 + (change.shift->0).0 == (cfg.position->0).0 && (head.position->0).1 + (
        change.shift->0).1 == (cfg.position->0).1,
        cfg.position is None ==> change.shift is None,
        head.position is Some && cfg.position is Some && cfg.position != head.position
            ==> change.shift is Some,
{
}

/// A head asks for something where it names a transformation, a scale or a position.
pub proof fn law_heads_ask_by_naming(cfg: EnabledHeadConfig)
    ensures
        asks(HeadOp::Enabled(cfg)) <==> cfg.transform is Some || cfg.scale is Some
            || cfg.position is Some,
        !asks(HeadOp::Disabled),
{
}

/// An output is asked for this change.
pub open spec fn asked_for(
    change: HeadChange,
    live: Seq<LiveHead>,
    ops: Map<u64, HeadOp>,
) -> bool {
    exists|i: int|
        0 <= i < live.len() && ops.contains_key((#[trigger] live[i]).output) && asks(
            ops[live[i].output],
        ) && is_change(change, live[i], ops[live[i].output])
}

/// Every output that is asked for something changes, and no output changes unasked.
pub proof fn law_every_asked_output_changes(
    changes: Seq<HeadChange>,
    live: Seq<LiveHead>,
    ops: Map<u64, HeadOp>,
)
    requires
        are_changes(changes, live, ops),
    ensures
        forall|i: int|
            0 <= i < live.len() && ops.contains_key((#[trigger] live[i]).output) && asks(
                ops[live[i].output],
            ) ==> exists|j: int|
                0 <= j < changes.len() && is_change(
                    #[trigger] changes[j],
                    live[i],
                    ops[live[i].output],
                ),
        forall|j: int| 0 <= j < changes.len() ==> asked_for(#[trigger] changes[j], live, ops),
        changes.len() <= live.len(),
    decreases live.len(),
{
    if live.len() > 0 {
        let head = live.last();
        let rest = live.drop_last();
        let n = live.len() - 1;
        let asked = ops.contains_key(head.output) && asks(ops[head.output]);
        let before = if asked {
            changes.drop_last()
        } else {
            changes
        };
        law_every_asked_output_changes(before, rest, ops);
        assert forall|i: int|
            0 <= i < live.len() && ops.contains_key((#[trigger] live[i]).output) && asks(
                ops[live[i].output],
            ) implies exists|j: int|
            0 <= j < changes.len() && is_change(#[trigger] changes[j], live[i], ops[live[i].output]) by {
            if i < n {
                assert(rest[i] == live[i]);
                let j = choose|j: int|
                    0 <= j < before.len() && is_change(
                        #[trigger] before[j],
                        rest[i],
                        ops[rest[i].output],
                    );
                assert(changes[j] == before[j]);
            } else {
                assert(is_change(changes[changes.len() - 1], live[i], ops[live[i].output]));
            }
        }
        assert forall|j: int| 0 <= j < changes.len() implies asked_for(
            #[trigger] changes[j],
            live,
            ops,
        ) by {
            if j < before.len() {
                assert(before[j] == changes[j]);
                assert(asked_for(before[j], rest, ops));
                let i = choose|i: int|
                    0 <= i < rest.len() && ops.contains_key((#[trigger] rest[i]).output) && asks(
                        ops[rest[i].output],
                    ) && is_change(before[j], rest[i], ops[rest[i].output]);
                assert(live[i] == rest[i]);
            } else {
                assert(is_change(changes[j], live[n], ops[live[n].output]));
            }
        }
    }
}

/// A configuration fits the outputs where it speaks of every output, of no output that is
/// gone, and asks for nothing that cannot be had.
pub proof fn law_a_configuration_speaks_of_every_output(
    c: Configuration,
    live: Seq<LiveHead>,
    i: int,
    gone: u64,
)
    requires
        0 <= i < live.len(),
    ensures
        c.covers(live) ==> c.ops@.contains_key(live[i].output),
        !c.ops@.contains_key(live[i].output) ==> !c.covers(live),
        c.is_current(live) && c.ops@.contains_key(gone) ==> exists|j: int|
            0 <= j < live.len() && (#[trigger] live[j]).output == gone,
        c.ops@.contains_key(gone) && !is_live(live, gone) ==> !c.is_current(live),
        is_live(live, live[i].output),
        c.all_supported(live) ==> supported(c.ops@[live[i].output], live[i]),
        !supported(c.ops@[live[i].output], live[i]) ==> !c.all_supported(live),
{
}

/// Every output gets a head, once; the heads that are there stay where they are, and a new
/// one has no objects yet.
pub proof fn law_every_output_gets_a_head(heads: Seq<HeadView>, outputs: Seq<u64>, k: int)
    ensures
        ({
            let all = with_outputs(heads, outputs);
            &&& 0 <= k < outputs.len() ==> has_head(all, outputs[k])
            &&& heads.len() <= all.len() <= heads.len() + outputs.len()
            &&& 0 <= k < heads.len() ==> all[k] == heads[k]
            &&& heads.len() <= k < all.len() ==> outputs.contains(all[k].output)
                && all[k].resources.len() == 0 && !has_head(all.take(k), all[k].output)
        }),
    decreases outputs.len(),
{
    if outputs.len() > 0 {
        let rest = outputs.drop_last();
        let before = with_outputs(heads, rest);
        let all = with_outputs(heads, outputs);
        law_every_output_gets_a_head(heads, rest, k);
        if 0 <= k < outputs.len() {
            if k < rest.len() {
                assert(rest[k] == outputs[k]);
                let i = choose|i: int|
                    0 <= i < before.len() && (#[trigger] before[i]).output == outputs[k];
                assert(all[i] == before[i]);
            } else if !has_head(before, outputs.last()) {
                assert(all[before.len() as int].output == outputs[k]);
            }
        }
        if heads.len() <= k < all.len() {
            if k < before.len() {
                assert(all[k] == before[k]);
                assert(all.take(k) =~= before.take(k));
                let i = choose|i: int| 0 <= i < rest.len() && rest[i] == before[k].output;
                assert(outputs[i] == all[k].output);
            } else {
                assert(all.take(k) =~= before);
                assert(outputs[outputs.len() - 1] == all[k].output);
            }
        }
    }
}

/// The heads of outputs in use stay; those of all other outputs go.
pub proof fn law_heads_go_with_their_outputs(outputs: Seq<u64>, h: HeadView)
    ensures
        in_use(outputs)(h) <==> outputs.contains(h.output),
        out_of_use(outputs)(h) <==> !outputs.contains(h.output),
{
}

/// A head has an object for every manager that is there: those that it had, and a new one
/// for each manager that it lacked. The new ones are made now, and for no other manager.
pub proof fn law_every_manager_gets_an_object(
    managers: Seq<u64>,
    live: Seq<u64>,
    made: u32,
    h: HeadView,
    manager: u64,
    k: int,
)
    ensures
        ({
            let after = completed(managers, live, made)(h);
            &&& after.output == h.output
            &&& h.resources.len() <= after.resources.len()
            &&& 0 <= k < h.resources.len() ==> after.resources[k] == h.resources[k]
            &&& managers.contains(manager) && live.contains(manager) ==> has_object(
                after.resources,
                manager,
            )
            &&& h.resources.len() <= k < after.resources.len() ==> {
                let o = after.resources[k];
                &&& o.made == made
                &&& managers.contains(o.manager) && live.contains(o.manager)
                &&& !has_object(h.resources, o.manager)
            }
        }),
{
    broadcast use vstd::seq_lib::group_filter_ensures;
    let after = completed(managers, live, made)(h);
    let test = lacks(h.resources, live);
    let who = managers.filter(test);
    let new = new_objects(h.resources, managers, live, made);
    if managers.contains(manager) && live.contains(manager) {
        if has_object(h.resources, manager) {
            let i = choose|i: int|
                0 <= i < h.resources.len() && (#[trigger] h.resources[i]).manager == manager;
            assert(after.resources[i].manager == manager);
        } else {
            let i = choose|i: int| 0 <= i < managers.len() && managers[i] == manager;
            assert(test(managers[i]));
            assert(who.contains(manager));
            let j = choose|j: int| 0 <= j < who.len() && who[j] == manager;
            assert(new[j].manager == manager);
            assert(after.resources[h.resources.len() + j].manager == manager);
        }
    }
    if h.resources.len() <= k < after.resources.len() {
        let j = k - h.resources.len();
        assert(after.resources[k] == new[j]);
        assert(who.contains(who[j]));
        lemma_filter_member(managers, test, who[j]);
    }
}

/// The new objects are told for each head in turn, those of a head together.
pub proof fn law_new_objects_are_told_by_head(
    heads: Seq<HeadView>,
    h: HeadView,
    managers: Seq<u64>,
    live: Seq<u64>,
    made: u32,
    k: int,
)
    ensures
        ({
            let before = lacking(heads, managers, live, made);
            let all = lacking(heads.push(h), managers, live, made);
            let new = new_objects(h.resources, managers, live, made);
            &&& lacking(Seq::empty(), managers, live, made).len() == 0
            &&& all.len() == before.len() + new.len()
            &&& 0 <= k < before.len() ==> all[k] == before[k]
            &&& 0 <= k < new.len() ==> all[before.len() + k] == (HeadRef {
                output: h.output,
                object: new[k],
            })
        }),
{
    assert(heads.push(h).drop_last() =~= heads);
}

/// The objects of heads are told for each head in turn, those of a head together.
pub proof fn law_objects_are_told_by_head(heads: Seq<HeadView>, h: HeadView, k: int)
    ensures
        ({
            let before = head_refs(heads);
            let all = head_refs(heads.push(h));
            &&& head_refs(Seq::empty()).len() == 0
            &&& all.len() == before.len() + h.resources.len()
            &&& 0 <= k < before.len() ==> all[k] == before[k]
            &&& 0 <= k < h.resources.len() ==> all[before.len() + k] == (HeadRef {
                output: h.output,
                object: h.resources[k],
            })
        }),
{
    assert(heads.push(h).drop_last() =~= heads);
}

/// Of each head that has objects, the youngest is the last.
pub proof fn law_the_youngest_object_is_the_last(heads: Seq<HeadView>, h: HeadView)
    ensures
        youngest(Seq::empty()).len() == 0,
        h.resources.len() == 0 ==> youngest(heads.push(h)) == youngest(heads),
        h.resources.len() > 0 ==> youngest(heads.push(h)) == youngest(heads).push(
            HeadRef { output: h.output, object: h.resources[h.resources.len() - 1] },
        ),
{
    assert(heads.push(h).drop_last() =~= heads);
}

/// An object that comes to a head is its last; one that goes leaves the others, and no
/// other head.
pub proof fn law_objects_come_and_go_alone(h: HeadView, object: HeadObject, gone: HeadRef)
    ensures
        with_object(object)(h).output == h.output,
        with_object(object)(h).resources == h.resources.push(object),
        without_object(gone)(h).output == h.output,
        h.output != gone.output ==> without_object(gone)(h) == h,
        h.output == gone.output ==> !without_object(gone)(h).resources.contains(gone.object) && (
        h.resources.contains(object) && object != gone.object ==> without_object(
            gone,
        )(h).resources.contains(object)),
{
    broadcast use vstd::seq_lib::group_filter_ensures;
    let test = crate::wlr_output_management::other_object(gone.object);
    let left = h.resources.filter(test);
    if left.contains(gone.object) {
        lemma_filter_member(h.resources, test, gone.object);
    }
    if h.resources.contains(object) && object != gone.object {
        let i = choose|i: int| 0 <= i < h.resources.len() && h.resources[i] == object;
        assert(test(h.resources[i]));
    }
}

/// An output is on until it is switched off.
pub proof fn law_outputs_are_on_until_switched_off(
    state: WlrOutputPowerManagementState,
    output: u64,
)
    ensures
        !state.power@.contains_key(output) ==> state.on(output),
        state.power@.contains_key(output) ==> state.on(output) == state.power@[output],
{
}

/// A control hears of its own output, and goes with it.
pub proof fn law_controls_hear_of_their_output(c: PowerControl, output: u64, control: u64)
    ensures
        watches(output)(c) <==> c.output == output,
        watches_not(output)(c) <==> c.output != output,
        control_not(control)(c) <==> c.control != control,
{
}

/// A word is read from two bytes, the low one first or last.
pub proof fn law_words_are_read_in_order(a: u8, b: u8)
    ensures
        word(a, b, ByteOrder::Little) == a + b * 256,
        word(a, b, ByteOrder::Big) == b + a * 256,
        word(a, b, ByteOrder::Little) == word(b, a, ByteOrder::Big),
{
}

/// A table is read on from where reading stopped, up to the length it must have; then the
/// length is looked at again.
pub proof fn law_tables_are_read_on_to_the_end(read: GammaRead)
    requires
        read.wf(),
    ensures
        read.bytes@.len() == read.expected ==> read.next() == GammaReadStep::Recheck,
        read.bytes@.len() < read.expected ==> (read.next() matches GammaReadStep::Read {
            offset,
            len,
        } && offset == read.bytes@.len() && offset + len == read.expected),
{
}

} // verus!
