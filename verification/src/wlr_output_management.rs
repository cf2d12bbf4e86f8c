//! Outputs as display tools see them, and changes to them that clients ask for.

use vstd::prelude::*;

use crate::seqs::{lemma_filter_ends, lemma_filter_step};

verus! {

/// A client's object for an output: the manager it came through, and the number of the
/// state that it was made for, which tells it from one that the client had before.
#[derive(Clone, Copy, Debug, PartialEq, Eq, Structural)]
pub struct HeadObject {
    pub manager: u64,
    pub made: u32,
}

/// An output that clients are told of, with their objects for it.
pub struct TrackedHead {
    pub output: u64,
    pub resources: Vec<HeadObject>,
}

/// What a head is.
#[verifier::ext_equal]
pub struct HeadView {
    pub output: u64,
    pub resources: Seq<HeadObject>,
}

impl View for TrackedHead {
    type V = HeadView;

    open spec fn view(&self) -> HeadView {
        HeadView { output: self.output, resources: self.resources@ }
    }
}

/// An object, and the output that it is for.
#[derive(Clone, Copy, Debug, PartialEq, Eq, Structural)]
pub struct HeadRef {
    pub output: u64,
    pub object: HeadObject,
}

/// Who wants to know of outputs, what they were told, and the number of the last
/// state they were told of.
pub struct WlrOutputManagementState {
    pub instances: Vec<u64>,
    pub heads: Vec<TrackedHead>,
    pub current_serial: u32,
}

/// What the heads are.
pub open spec fn head_views(heads: Seq<TrackedHead>) -> Seq<HeadView> {
    heads.map_values(|h: TrackedHead| h@)
}

/// The output has a head.
pub open spec fn has_head(heads: Seq<HeadView>, output: u64) -> bool {
    exists|i: int| 0 <= i < heads.len() && (#[trigger] heads[i]).output == output
}

/// Outputs that have no head yet get one.
pub open spec fn with_outputs(heads: Seq<HeadView>, outputs: Seq<u64>) -> Seq<HeadView>
    decreases outputs.len(),
{
    if outputs.len() == 0 {
        heads
    } else {
        let before = with_outputs(heads, outputs.drop_last());
        if has_head(before, outputs.last()) {
            before
        } else {
            before.push(HeadView { output: outputs.last(), resources: Seq::empty() })
        }
    }
}

/// The output is in use.
pub open spec fn in_use(outputs: Seq<u64>) -> spec_fn(HeadView) -> bool {
    |h: HeadView| outputs.contains(h.output)
}

/// The object, which is for this output.
pub open spec fn head_ref(output: u64) -> spec_fn(HeadObject) -> HeadRef {
    |object: HeadObject| HeadRef { output, object }
}

/// The object that is made for a manager.
pub open spec fn object_of(made: u32) -> spec_fn(u64) -> HeadObject {
    |manager: u64| HeadObject { manager, made }
}

/// One of the objects came through the manager.
pub open spec fn has_object(resources: Seq<HeadObject>, manager: u64) -> bool {
    exists|i: int| 0 <= i < resources.len() && (#[trigger] resources[i]).manager == manager
}

/// All objects of the heads, or those of heads whose output is gone.
pub open spec fn head_refs(heads: Seq<HeadView>) -> Seq<HeadRef>
    decreases heads.len(),
{
    if heads.len() == 0 {
        Seq::empty()
    } else {
        head_refs(heads.drop_last()) + heads.last().resources.map_values(
            head_ref(heads.last().output),
        )
    }
}

/// The output is gone.
pub open spec fn out_of_use(outputs: Seq<u64>) -> spec_fn(HeadView) -> bool {
    |h: HeadView| !outputs.contains(h.output)
}

/// The manager has no object for the head yet, and one can be made.
pub open spec fn lacks(resources: Seq<HeadObject>, live: Seq<u64>) -> spec_fn(u64) -> bool {
    |manager: u64| !has_object(resources, manager) && live.contains(manager)
}

/// The objects that are made for a head.
pub open spec fn new_objects(
    resources: Seq<HeadObject>,
    managers: Seq<u64>,
    live: Seq<u64>,
    made: u32,
) -> Seq<HeadObject> {
    managers.filter(lacks(resources, live)).map_values(object_of(made))
}

/// The head with the objects it lacked.
pub open spec fn completed(managers: Seq<u64>, live: Seq<u64>, made: u32) -> spec_fn(
    HeadView,
) -> HeadView {
    |h: HeadView|
        HeadView {
            resources: h.resources + new_objects(h.resources, managers, live, made),
            ..h
        }
}

/// The objects that the heads lacked.
pub open spec fn lacking(
    heads: Seq<HeadView>,
    managers: Seq<u64>,
    live: Seq<u64>,
    made: u32,
) -> Seq<HeadRef>
    decreases heads.len(),
{
    if heads.len() == 0 {
        Seq::empty()
    } else {
        let h = heads.last();
        lacking(heads.drop_last(), managers, live, made) + new_objects(
            h.resources,
            managers,
            live,
            made,
        ).map_values(head_ref(h.output))
    }
}

/// The head with one more object.
pub open spec fn with_object(object: HeadObject) -> spec_fn(HeadView) -> HeadView {
    |h: HeadView| HeadView { resources: h.resources.push(object), ..h }
}

/// The object, which is for the output of the head.
pub open spec fn object_for(object: HeadObject) -> spec_fn(HeadView) -> HeadRef {
    |h: HeadView| HeadRef { output: h.output, object }
}

/// What clients are told, in this order; then each manager is told the number of the
/// state.
pub struct HeadNews {
    /// The outputs of these are gone.
    pub finished: Vec<HeadRef>,
    /// These are made, and told what never changes.
    pub created: Vec<HeadRef>,
    /// These are told what may change.
    pub told: Vec<HeadRef>,
    pub serial: u32,
}

/// The number of the next state.
pub open spec fn next_serial(serial: u32) -> u32 {
    if serial == u32::MAX {
        0
    } else {
        (serial + 1) as u32
    }
}

fn contains_number(list: &Vec<u64>, n: u64) -> (r: bool)
    ensures
        r == list@.contains(n),
{
    let mut i: usize = 0;
    while i < list.len()
        invariant
            i <= list@.len(),
            forall|j: int| 0 <= j < i ==> list@[j] != n,
        decreases list@.len() - i,
    {
        if list[i] == n {
            assert(list@[i as int] == n);
            return true;
        }
        i += 1;
    }
    false
}

fn find_object(list: &Vec<HeadObject>, manager: u64) -> (r: bool)
    ensures
        r == has_object(list@, manager),
{
    let mut i: usize = 0;
    while i < list.len()
        invariant
            i <= list@.len(),
            forall|j: int| 0 <= j < i ==> (#[trigger] list@[j]).manager != manager,
        decreases list@.len() - i,
    {
        if list[i].manager == manager {
            assert(list@[i as int].manager == manager);
            return true;
        }
        i += 1;
    }
    false
}

fn push_refs(refs: &mut Vec<HeadRef>, output: u64, objects: &Vec<HeadObject>)
    ensures
        final(refs)@ == old(refs)@ + objects@.map_values(head_ref(output)),
{
    let ghost before = refs@;
    let ghost f = head_ref(output);
    let mut i: usize = 0;
    assert(before + objects@.take(0).map_values(f) =~= before);
    while i < objects.len()
        invariant
            i <= objects@.len(),
            f == head_ref(output),
            refs@ == before + objects@.take(i as int).map_values(f),
        decreases objects@.len() - i,
    {
        proof {
            crate::seqs::lemma_map_step(objects@, i as int, f);
        }
        refs.push(HeadRef { output, object: objects[i] });
        i += 1;
        assert(refs@ =~= before + objects@.take(i as int).map_values(f));
    }
    assert(objects@.take(objects@.len() as int) =~= objects@);
}

fn find_lacking(
    managers: &Vec<u64>,
    resources: &Vec<HeadObject>,
    live: &Vec<u64>,
    made: u32,
) -> (r: Vec<HeadObject>)
    ensures
        r@ == new_objects(resources@, managers@, live@, made),
{
    let mut out: Vec<HeadObject> = Vec::new();
    let ghost pred = lacks(resources@, live@);
    let ghost f = object_of(made);
    let mut i: usize = 0;
    proof {
        lemma_filter_ends(managers@, pred);
        assert(managers@.take(0).filter(pred).map_values(f) =~= Seq::<HeadObject>::empty());
    }
    while i < managers.len()
        invariant
            i <= managers@.len(),
            pred == lacks(resources@, live@),
            f == object_of(made),
            out@ == managers@.take(i as int).filter(pred).map_values(f),
        decreases managers@.len() - i,
    {
        proof {
            lemma_filter_step(managers@, i as int, pred);
        }
        if !find_object(resources, managers[i]) && contains_number(live, managers[i]) {
            let ghost before = managers@.take(i as int).filter(pred);
            out.push(HeadObject { manager: managers[i], made });
            assert(out@ =~= before.push(managers@[i as int]).map_values(f));
        }
        i += 1;
    }
    proof {
        lemma_filter_ends(managers@, pred);
    }
    out
}

impl WlrOutputManagementState {
    pub open spec fn views(&self) -> Seq<HeadView> {
        head_views(self.heads@)
    }

    /// No client is listed twice.
    pub open spec fn wf(&self) -> bool {
        self.instances@.no_duplicates()
    }

    pub fn new() -> (r: Self)
        ensures
            r.wf(),
            r.instances@ == Seq::<u64>::empty(),
            r.views() == Seq::<HeadView>::empty(),
            r.current_serial == 0,
    {
        let r = WlrOutputManagementState {
            instances: Vec::new(),
            heads: Vec::new(),
            current_serial: 0,
        };
        assert(r.views() =~= Seq::<HeadView>::empty());
        r
    }

    fn find_head(&self, output: u64) -> (r: bool)
        ensures
            r == has_head(self.views(), output),
    {
        let mut i: usize = 0;
        while i < self.heads.len()
            invariant
                i <= self.heads@.len(),
                forall|j: int| 0 <= j < i ==> (#[trigger] self.views()[j]).output != output,
            decreases self.heads@.len() - i,
        {
            assert(self.views()[i as int] == self.heads@[i as int]@);
            if self.heads[i].output == output {
                return true;
            }
            i += 1;
        }
        false
    }

    fn drop_heads(&mut self, outputs: &Vec<u64>) -> (finished: Vec<HeadRef>)
        ensures
            final(self).views() == old(self).views().filter(in_use(outputs@)),
            finished@ == head_refs(old(self).views().filter(out_of_use(outputs@))),
            final(self).instances == old(self).instances,
            final(self).current_serial == old(self).current_serial,
    {
        let ghost before = self.views();
        let ghost (stay, leave) = (in_use(outputs@), out_of_use(outputs@));
        let mut finished: Vec<HeadRef> = Vec::new();
        let mut i: usize = 0;
        let ghost mut k: int = 0;
        proof {
            lemma_filter_ends(before, stay);
            lemma_filter_ends(before, leave);
            assert(self.views() =~= before.take(0).filter(stay) + before.skip(0));
        }
        while i < self.heads.len()
            invariant
                0 <= k <= before.len(),
                stay == in_use(outputs@),
                leave == out_of_use(outputs@),
                i == before.take(k).filter(stay).len(),
                self.views() == before.take(k).filter(stay) + before.skip(k),
                finished@ == head_refs(before.take(k).filter(leave)),
                self.instances == old(self).instances,
                self.current_serial == old(self).current_serial,
            decreases before.len() - k,
        {
            let ghost now = self.views();
            proof {
                assert(now[i as int] == before.skip(k)[0]);
                assert(before.skip(k)[0] == before[k]);
                assert(before[k] == self.heads@[i as int]@);
                lemma_filter_step(before, k, stay);
                lemma_filter_step(before, k, leave);
            }
            if contains_number(outputs, self.heads[i].output) {
                assert(now =~= before.take(k + 1).filter(stay) + before.skip(k + 1));
                i += 1;
            } else {
                let gone: TrackedHead = self.heads.remove(i);
                assert(self.views() =~= now.remove(i as int));
                assert(self.views() =~= before.take(k + 1).filter(stay) + before.skip(k + 1));
                push_refs(&mut finished, gone.output, &gone.resources);
                proof {
                    let all = before.take(k + 1).filter(leave);
                    assert(all.drop_last() =~= before.take(k).filter(leave));
                    assert(all.last() == gone@);
                }
            }
            proof {
                k = k + 1;
            }
        }
        proof {
            assert(k == before.len());
            lemma_filter_ends(before, stay);
            assert(self.views() =~= before.filter(stay));
        }
        finished
    }

    /// Brings clients up to date with the outputs in use, in their order. Objects can
    /// be made for the clients in `live`.
    pub fn refresh(&mut self, outputs: &Vec<u64>, live: &Vec<u64>) -> (r: HeadNews)
        requires
            old(self).wf(),
        ensures
            final(self).wf(),
            final(self).instances == old(self).instances,
            final(self).current_serial == next_serial(old(self).current_serial),
            r.serial == final(self).current_serial,
            ({
                let all = with_outputs(old(self).views(), outputs@);
                let kept = all.filter(in_use(outputs@));
                &&& final(self).views() == kept.map_values(
                    completed(
                        old(self).instances@,
                        live@,
                        final(self).current_serial,
                    ),
                )
                &&& r.finished@ == head_refs(all.filter(out_of_use(outputs@)))
                &&& r.created@ == lacking(
                    kept,
                    old(self).instances@,
                    live@,
                    final(self).current_serial,
                )
                &&& r.told@ == head_refs(final(self).views())
            }),
    {
        let ghost before = self.views();
        let ghost managers = self.instances@;
        let mut j: usize = 0;
        assert(outputs@.take(0) =~= Seq::<u64>::empty());
        while j < outputs.len()
            invariant
                j <= outputs@.len(),
                self.instances == old(self).instances,
                self.current_serial == old(self).current_serial,
                self.views() == with_outputs(before, outputs@.take(j as int)),
            decreases outputs@.len() - j,
        {
            assert(outputs@.take(j + 1).drop_last() =~= outputs@.take(j as int));
            assert(outputs@.take(j + 1).last() == outputs@[j as int]);
            let ghost now = self.views();
            if !self.find_head(outputs[j]) {
                let fresh: TrackedHead = TrackedHead { output: outputs[j], resources: Vec::new() };
                let ghost view = fresh@;
                self.heads.push(fresh);
                assert(self.views() =~= now.push(view));
            }
            j += 1;
        }
        assert(outputs@.take(outputs@.len() as int) =~= outputs@);
        let ghost all = self.views();
        let finished: Vec<HeadRef> = self.drop_heads(outputs);
        let ghost kept = self.views();
        let serial: u32 = if self.current_serial == u32::MAX {
            0
        } else {
            self.current_serial + 1
        };
        let ghost f = completed(managers, live@, serial);
        let mut created: Vec<HeadRef> = Vec::new();
        let mut told: Vec<HeadRef> = Vec::new();
        let mut i: usize = 0;
        assert(kept.take(0) =~= Seq::<HeadView>::empty());
        while i < self.heads.len()
            invariant
                i <= self.heads@.len(),
                self.instances == old(self).instances,
                self.current_serial == old(self).current_serial,
                managers == self.instances@,
                f == completed(managers, live@, serial),
                self.heads@.len() == kept.len(),
                forall|k: int| 0 <= k < i ==> self.views()[k] == f(#[trigger] kept[k]),
                forall|k: int| i <= k < kept.len() ==> self.views()[k] == #[trigger] kept[k],
                created@ == lacking(kept.take(i as int), managers, live@, serial),
                told@ == head_refs(kept.take(i as int).map_values(f)),
            decreases self.heads@.len() - i,
        {
            let ghost now = self.views();
            let ghost head = self.heads@[i as int]@;
            proof {
                assert(kept[i as int] == head);
                assert(kept.take(i + 1).drop_last() =~= kept.take(i as int));
                assert(kept.take(i + 1).last() == head);
            }
            let mut more: Vec<HeadObject> = find_lacking(
                &self.instances,
                &self.heads[i].resources,
                live,
                serial,
            );
            let output: u64 = self.heads[i].output;
            push_refs(&mut created, output, &more);
            self.heads[i].resources.append(&mut more);
            push_refs(&mut told, output, &self.heads[i].resources);
            proof {
                assert(self.heads@[i as int]@ == f(head));
                assert(forall|k: int| 0 <= k < kept.len() && k != i ==> self.views()[k] == now[k]);
                let mapped = kept.take(i + 1).map_values(f);
                assert(mapped.drop_last() =~= kept.take(i as int).map_values(f));
                assert(mapped.last() == f(head));
            }
            i += 1;
        }
        proof {
            assert(kept.take(kept.len() as int) =~= kept);
            assert(self.views() =~= kept.map_values(f));
        }
        self.current_serial = serial;
        assert(self.views() =~= kept.map_values(f));
        HeadNews { finished, created, told, serial: self.current_serial }
    }

    /// A client wants to know of outputs from now on: it is told of all there are, as
    /// far as objects can be made for it. What may change is told to the youngest
    /// object of each output.
    pub fn bind(&mut self, manager: u64, live: bool) -> (r: HeadNews)
        requires
            old(self).wf(),
            !old(self).instances@.contains(manager),
        ensures
            final(self).wf(),
            final(self).instances@ == old(self).instances@.push(manager),
            final(self).current_serial == next_serial(old(self).current_serial),
            r.serial == final(self).current_serial,
            final(self).views() == if live {
                old(self).views().map_values(
                    with_object(HeadObject { manager, made: final(self).current_serial }),
                )
            } else {
                old(self).views()
            },
            r.finished@ == Seq::<HeadRef>::empty(),
            r.created@ == if live {
                old(self).views().map_values(
                    object_for(HeadObject { manager, made: final(self).current_serial }),
                )
            } else {
                Seq::empty()
            },
            r.told@ == youngest(final(self).views()),
    {
        let ghost before = self.views();
        let serial: u32 = if self.current_serial == u32::MAX {
            0
        } else {
            self.current_serial + 1
        };
        let object: HeadObject = HeadObject { manager, made: serial };
        let ghost joined = with_object(object);
        let ghost goal = if live {
            before.map_values(joined)
        } else {
            before
        };
        let ghost refs = before.map_values(object_for(object));
        let mut created: Vec<HeadRef> = Vec::new();
        let mut told: Vec<HeadRef> = Vec::new();
        let mut i: usize = 0;
        assert(goal.take(0) =~= Seq::<HeadView>::empty());
        assert(refs.take(0) =~= Seq::<HeadRef>::empty());
        while i < self.heads.len()
            invariant
                i <= self.heads@.len(),
                self.instances == old(self).instances,
                self.current_serial == old(self).current_serial,
                self.heads@.len() == before.len(),
                goal.len() == before.len(),
                refs == before.map_values(object_for(object)),
                forall|k: int|
                    0 <= k < before.len() ==> #[trigger] goal[k] == if live {
                        HeadView { resources: before[k].resources.push(object), ..before[k] }
                    } else {
                        before[k]
                    },
                forall|k: int| 0 <= k < i ==> self.views()[k] == #[trigger] goal[k],
                forall|k: int| i <= k < before.len() ==> self.views()[k] == #[trigger] before[k],
                created@ == if live {
                    refs.take(i as int)
                } else {
                    Seq::empty()
                },
                told@ == youngest(goal.take(i as int)),
            decreases self.heads@.len() - i,
        {
            let ghost now = self.views();
            proof {
                assert(before[i as int] == self.heads@[i as int]@);
                assert(goal.take(i + 1).drop_last() =~= goal.take(i as int));
                assert(goal.take(i + 1).last() == goal[i as int]);
                assert(refs.take(i + 1) =~= refs.take(i as int).push(refs[i as int]));
            }
            let output: u64 = self.heads[i].output;
            if live {
                created.push(HeadRef { output, object });
                self.heads[i].resources.push(object);
            }
            assert(self.heads@[i as int]@ == goal[i as int]);
            let n: usize = self.heads[i].resources.len();
            if n > 0 {
                told.push(HeadRef { output, object: self.heads[i].resources[n - 1] });
            }
            assert(forall|k: int| 0 <= k < before.len() && k != i ==> self.views()[k] == now[k]);
            i += 1;
        }
        proof {
            assert(goal.take(goal.len() as int) =~= goal);
            assert(refs.take(refs.len() as int) =~= refs);
            assert(self.views() =~= goal);
        }
        self.current_serial = serial;
        self.instances.push(manager);
        assert(self.views() =~= goal);
        HeadNews { finished: Vec::new(), created, told, serial: self.current_serial }
    }
}

/// It is another object.
pub open spec fn other_object(object: HeadObject) -> spec_fn(HeadObject) -> bool {
    |o: HeadObject| o != object
}

fn drop_object(list: &Vec<HeadObject>, object: HeadObject) -> (r: Vec<HeadObject>)
    ensures
        r@ == list@.filter(other_object(object)),
{
    let mut out: Vec<HeadObject> = Vec::new();
    let mut i: usize = 0;
    proof {
        lemma_filter_ends(list@, other_object(object));
    }
    while i < list.len()
        invariant
            i <= list@.len(),
            out@ == list@.take(i as int).filter(other_object(object)),
        decreases list@.len() - i,
    {
        proof {
            lemma_filter_step(list@, i as int, other_object(object));
        }
        if list[i] != object {
            out.push(list[i]);
        }
        i += 1;
    }
    proof {
        lemma_filter_ends(list@, other_object(object));
    }
    out
}

/// It is another number.
pub open spec fn other_number(n: u64) -> spec_fn(u64) -> bool {
    |m: u64| m != n
}

fn drop_number(list: &Vec<u64>, n: u64) -> (r: Vec<u64>)
    ensures
        r@ == list@.filter(other_number(n)),
        list@.no_duplicates() ==> r@.no_duplicates(),
{
    let mut out: Vec<u64> = Vec::new();
    let mut i: usize = 0;
    proof {
        lemma_filter_ends(list@, other_number(n));
    }
    while i < list.len()
        invariant
            i <= list@.len(),
            out@ == list@.take(i as int).filter(other_number(n)),
            list@.no_duplicates() ==> out@.no_duplicates(),
            forall|x: u64| #[trigger] out@.contains(x) ==> list@.take(i as int).contains(x),
        decreases list@.len() - i,
    {
        proof {
            lemma_filter_step(list@, i as int, other_number(n));
            assert(list@.take(i + 1)[i as int] == list@[i as int]);
            assert forall|x: u64| list@.take(i as int).contains(x) implies #[trigger] list@.take(
                i + 1,
            ).contains(x) by {
                let j = choose|j: int| 0 <= j < i && list@.take(i as int)[j] == x;
                assert(list@.take(i + 1)[j] == x);
            }
        }
        let ghost before = out@;
        if list[i] != n {
            let x: u64 = list[i];
            proof {
                if list@.no_duplicates() && before.contains(x) {
                    let j = choose|j: int| 0 <= j < i && list@.take(i as int)[j] == x;
                    assert(list@[j] == list@[i as int]);
                }
                assert forall|y: u64| #[trigger] before.push(x).contains(y) implies list@.take(
                    i + 1,
                ).contains(y) by {
                    if y != x {
                        let j = choose|j: int| 0 <= j < before.push(x).len() && before.push(x)[j] == y;
                        assert(before[j] == y);
                        assert(before.contains(y));
                    }
                }
            }
            out.push(x);
        }
        i += 1;
    }
    proof {
        lemma_filter_ends(list@, other_number(n));
    }
    out
}

impl WlrOutputManagementState {
    /// A client no longer wants to know.
    pub fn manager_gone(&mut self, manager: u64)
        requires
            old(self).wf(),
        ensures
            final(self).wf(),
            final(self).instances@ == old(self).instances@.filter(other_number(manager)),
            final(self).heads == old(self).heads,
            final(self).current_serial == old(self).current_serial,
    {
        self.instances = drop_number(&self.instances, manager);
    }

    /// A client's object for an output is gone; one that was made for the same client
    /// later stays.
    pub fn head_gone(&mut self, gone: HeadRef)
        requires
            old(self).wf(),
        ensures
            final(self).wf(),
            final(self).instances == old(self).instances,
            final(self).current_serial == old(self).current_serial,
            final(self).views() == old(self).views().map_values(without_object(gone)),
    {
        let ghost before = self.views();
        let ghost goal = before.map_values(without_object(gone));
        let mut i: usize = 0;
        while i < self.heads.len()
            invariant
                i <= self.heads@.len(),
                self.heads@.len() == before.len(),
                self.instances == old(self).instances,
                self.current_serial == old(self).current_serial,
                goal == before.map_values(without_object(gone)),
                forall|k: int| 0 <= k < i ==> self.views()[k] == #[trigger] goal[k],
                forall|k: int| i <= k < before.len() ==> self.views()[k] == #[trigger] before[k],
            decreases self.heads@.len() - i,
        {
            let ghost now = self.views();
            assert(before[i as int] == self.heads@[i as int]@);
            if self.heads[i].output == gone.output {
                let kept: Vec<HeadObject> = drop_object(&self.heads[i].resources, gone.object);
                self.heads[i].resources = kept;
            }
            assert(self.heads@[i as int]@ == goal[i as int]);
            assert(forall|k: int| 0 <= k < before.len() && k != i ==> self.views()[k] == now[k]);
            i += 1;
        }
        assert(self.views() =~= goal);
    }
}

/// The head without a client's object.
pub open spec fn without_object(gone: HeadRef) -> spec_fn(HeadView) -> HeadView {
    |h: HeadView|
        if h.output == gone.output {
            HeadView { resources: h.resources.filter(other_object(gone.object)), ..h }
        } else {
            h
        }
}

/// What a client is told of a head when it is made, besides name and description.
#[derive(Clone, Copy, Debug, PartialEq, Eq, Structural)]
pub struct HeadStatics {
    pub physical_size: bool,
    /// Make, model and serial number.
    pub identity: bool,
    /// The size and the refresh rate of its mode, which is the preferred one.
    pub mode: bool,
}

/// What a client is told of a head when it is made: a physical size where there is
/// one, make and model from the second version on, and the mode that is set.
pub fn static_head_properties(version: u32, physical_size: (i32, i32), has_mode: bool) -> (r:
    HeadStatics)
    ensures
        r == (HeadStatics {
            physical_size: physical_size.0 > 0 && physical_size.1 > 0,
            identity: version >= 2,
            mode: has_mode,
        }),
{
    HeadStatics {
        physical_size: physical_size.0 > 0 && physical_size.1 > 0,
        identity: version >= 2,
        mode: has_mode,
    }
}

/// The youngest object of each head that has one.
pub open spec fn youngest(heads: Seq<HeadView>) -> Seq<HeadRef>
    decreases heads.len(),
{
    if heads.len() == 0 {
        Seq::empty()
    } else {
        let h = heads.last();
        let before = youngest(heads.drop_last());
        if h.resources.len() > 0 {
            before.push(HeadRef { output: h.output, object: h.resources.last() })
        } else {
            before
        }
    }
}

/// A state that clients were told of is never that of a configuration begun before.
pub proof fn law_every_state_has_its_number(serial: u32)
    ensures
        next_serial(serial) != serial,
{
}

} // verus!
