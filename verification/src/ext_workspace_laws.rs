//! What holds of bringing bars up to date.

use vstd::prelude::*;

use crate::ext_workspace::{
    group_at, refreshed, updated_group, wanted_number, wanted_output, with_active, with_new,
    with_updates, with_wanted, without_gone, without_unwanted, workspace_at, EventView,
    GroupProgress, GroupView, Instance, Progress, Wanted, WorkspaceView,
};

verus! {

/// A group has exactly the workspaces that are wanted, each shown or not as it
/// should be.
pub open spec fn group_agrees(workspaces: Seq<WorkspaceView>, wanted: Wanted) -> bool {
    &&& forall|i: int|
        0 <= i < workspaces.len() ==> wanted_number(wanted, (#[trigger] workspaces[i]).number)
    &&& forall|j: int|
        0 <= j < wanted.len() ==> shows_as(workspaces, #[trigger] wanted[j])
}

/// A workspace is there, and shown or not as it should be.
pub open spec fn shows_as(workspaces: Seq<WorkspaceView>, entry: (u32, bool)) -> bool {
    let i = workspace_at(workspaces, entry.0);
    i < workspaces.len() && workspaces[i].active == entry.1
}

/// Groups and workspaces are as desired.
pub open spec fn agrees(groups: Seq<GroupView>, desired: Seq<(Seq<char>, Wanted)>) -> bool {
    &&& forall|i: int|
        0 <= i < groups.len() ==> wanted_output(desired, (#[trigger] groups[i]).name)
    &&& forall|j: int| 0 <= j < desired.len() ==> entry_agrees(groups, #[trigger] desired[j])
}

/// The group of an output is as desired.
pub open spec fn entry_agrees(groups: Seq<GroupView>, entry: (Seq<char>, Wanted)) -> bool {
    let i = group_at(groups, entry.0);
    i < groups.len() && group_agrees(groups[i].workspaces, entry.1)
}

/// No output and no workspace is asked for twice.
pub open spec fn unambiguous(desired: Seq<(Seq<char>, Wanted)>) -> bool {
    &&& forall|i: int, j: int|
        0 <= i < desired.len() && 0 <= j < desired.len() && (#[trigger] desired[i]).0 == (
        #[trigger] desired[j]).0 ==> i == j
    &&& forall|i: int| 0 <= i < desired.len() ==> distinct((#[trigger] desired[i]).1)
}

/// No workspace is asked for twice.
pub open spec fn distinct(wanted: Wanted) -> bool {
    forall|i: int, j: int|
        0 <= i < wanted.len() && 0 <= j < wanted.len() && (#[trigger] wanted[i]).0 == (
        #[trigger] wanted[j]).0 ==> i == j
}

proof fn lemma_group_at(groups: Seq<GroupView>, name: Seq<char>)
    ensures
        0 <= group_at(groups, name) <= groups.len(),
        group_at(groups, name) < groups.len() ==> groups[group_at(groups, name)].name == name,
        (exists|i: int| 0 <= i < groups.len() && (#[trigger] groups[i]).name == name) ==> group_at(
            groups,
            name,
        ) < groups.len(),
        forall|i: int| 0 <= i < group_at(groups, name) ==> (#[trigger] groups[i]).name != name,
    decreases groups.len(),
{
    if groups.len() > 0 && groups[0].name != name {
        let rest = groups.skip(1);
        lemma_group_at(rest, name);
        if exists|i: int| 0 <= i < groups.len() && (#[trigger] groups[i]).name == name {
            let i = choose|i: int| 0 <= i < groups.len() && (#[trigger] groups[i]).name == name;
            assert(rest[i - 1].name == name);
        }
        assert forall|i: int| 0 <= i < group_at(groups, name) implies (#[trigger] groups[i]).name
            != name by {
            if i > 0 {
                assert(rest[i - 1].name != name);
            }
        }
    }
}

proof fn lemma_group_at_is(groups: Seq<GroupView>, name: Seq<char>, i: int)
    requires
        0 <= i <= groups.len(),
        i < groups.len() ==> groups[i].name == name,
        forall|k: int| 0 <= k < i ==> (#[trigger] groups[k]).name != name,
    ensures
        group_at(groups, name) == i,
{
    lemma_group_at(groups, name);
    let at = group_at(groups, name);
    if at < i {
        assert(groups[at].name != name);
    }
    if i < at {
        assert(groups[i].name != name);
    }
}

proof fn lemma_workspace_at(workspaces: Seq<WorkspaceView>, number: u32)
    ensures
        0 <= workspace_at(workspaces, number) <= workspaces.len(),
        workspace_at(workspaces, number) < workspaces.len() ==> workspaces[workspace_at(
            workspaces,
            number,
        )].number == number,
        (exists|i: int| 0 <= i < workspaces.len() && (#[trigger] workspaces[i]).number == number)
            ==> workspace_at(workspaces, number) < workspaces.len(),
        forall|i: int|
            0 <= i < workspace_at(workspaces, number) ==> (#[trigger] workspaces[i]).number
                != number,
    decreases workspaces.len(),
{
    if workspaces.len() > 0 && workspaces[0].number != number {
        let rest = workspaces.skip(1);
        lemma_workspace_at(rest, number);
        if exists|i: int| 0 <= i < workspaces.len() && (#[trigger] workspaces[i]).number == number {
            let i = choose|i: int|
                0 <= i < workspaces.len() && (#[trigger] workspaces[i]).number == number;
            assert(rest[i - 1].number == number);
        }
        assert forall|i: int|
            0 <= i < workspace_at(workspaces, number) implies (#[trigger] workspaces[i]).number
            != number by {
            if i > 0 {
                assert(rest[i - 1].number != number);
            }
        }
    }
}

proof fn lemma_workspace_at_is(workspaces: Seq<WorkspaceView>, number: u32, i: int)
    requires
        0 <= i <= workspaces.len(),
        i < workspaces.len() ==> workspaces[i].number == number,
        forall|k: int| 0 <= k < i ==> (#[trigger] workspaces[k]).number != number,
    ensures
        workspace_at(workspaces, number) == i,
{
    lemma_workspace_at(workspaces, number);
    let at = workspace_at(workspaces, number);
    if at < i {
        assert(workspaces[at].number != number);
    }
    if i < at {
        assert(workspaces[i].number != number);
    }
}

proof fn lemma_nothing_gone(groups: Seq<GroupView>, desired: Seq<(Seq<char>, Wanted)>)
    requires
        forall|i: int|
            0 <= i < groups.len() ==> wanted_output(desired, (#[trigger] groups[i]).name),
    ensures
        without_gone(groups, desired) == (Progress {
            groups,
            events: Seq::empty(),
            changed: false,
        }),
    decreases groups.len(),
{
    if groups.len() > 0 {
        let before = groups.drop_last();
        assert forall|i: int| 0 <= i < before.len() implies wanted_output(
            desired,
            (#[trigger] before[i]).name,
        ) by {
            assert(before[i] == groups[i]);
        }
        lemma_nothing_gone(before, desired);
        assert(groups[groups.len() - 1] == groups.last());
        assert(before.push(groups.last()) =~= groups);
    } else {
        assert(groups =~= Seq::<GroupView>::empty());
    }
}

proof fn lemma_nothing_new(
    start: Progress,
    desired: Seq<(Seq<char>, Wanted)>,
    managers: Seq<Instance>,
    live: Seq<u64>,
)
    requires
        forall|j: int|
            0 <= j < desired.len() ==> group_at(start.groups, (#[trigger] desired[j]).0)
                < start.groups.len(),
    ensures
        with_new(start, desired, managers, live) == start,
    decreases desired.len(),
{
    if desired.len() > 0 {
        let before = desired.drop_last();
        assert forall|j: int| 0 <= j < before.len() implies group_at(
            start.groups,
            (#[trigger] before[j]).0,
        ) < start.groups.len() by {
            assert(before[j] == desired[j]);
        }
        lemma_nothing_new(start, before, managers, live);
        assert(desired[desired.len() - 1] == desired.last());
    }
}

proof fn lemma_nothing_unwanted(
    name: Seq<char>,
    group: Seq<Instance>,
    workspaces: Seq<WorkspaceView>,
    wanted: Wanted,
)
    requires
        forall|i: int|
            0 <= i < workspaces.len() ==> wanted_number(wanted, (#[trigger] workspaces[i]).number),
    ensures
        without_unwanted(name, group, workspaces, wanted) == (GroupProgress {
            workspaces,
            events: Seq::empty(),
            changed: false,
        }),
    decreases workspaces.len(),
{
    if workspaces.len() > 0 {
        let before = workspaces.drop_last();
        assert forall|i: int| 0 <= i < before.len() implies wanted_number(
            wanted,
            (#[trigger] before[i]).number,
        ) by {
            assert(before[i] == workspaces[i]);
        }
        lemma_nothing_unwanted(name, group, before, wanted);
        assert(workspaces[workspaces.len() - 1] == workspaces.last());
        assert(before.push(workspaces.last()) =~= workspaces);
    } else {
        assert(workspaces =~= Seq::<WorkspaceView>::empty());
    }
}

proof fn lemma_nothing_missing(
    start: GroupProgress,
    name: Seq<char>,
    group: Seq<Instance>,
    wanted: Wanted,
    managers: Seq<Instance>,
    live: Seq<u64>,
)
    requires
        forall|j: int|
            0 <= j < wanted.len() ==> shows_as(start.workspaces, #[trigger] wanted[j]),
    ensures
        with_wanted(start, name, group, wanted, managers, live) == start,
        with_active(start, name, wanted) == start,
    decreases wanted.len(),
{
    if wanted.len() > 0 {
        let before = wanted.drop_last();
        assert forall|j: int| 0 <= j < before.len() implies shows_as(
            start.workspaces,
            #[trigger] before[j],
        ) by {
            assert(before[j] == wanted[j]);
        }
        lemma_nothing_missing(start, name, group, before, managers, live);
        assert(wanted[wanted.len() - 1] == wanted.last());
    }
}

proof fn lemma_nothing_to_update(
    start: Progress,
    desired: Seq<(Seq<char>, Wanted)>,
    managers: Seq<Instance>,
    live: Seq<u64>,
)
    requires
        forall|j: int|
            0 <= j < desired.len() ==> entry_agrees(start.groups, #[trigger] desired[j]),
    ensures
        with_updates(start, desired, managers, live) == start,
    decreases desired.len(),
{
    if desired.len() > 0 {
        let before = desired.drop_last();
        assert forall|j: int| 0 <= j < before.len() implies entry_agrees(
            start.groups,
            #[trigger] before[j],
        ) by {
            assert(before[j] == desired[j]);
        }
        lemma_nothing_to_update(start, before, managers, live);
        assert(desired[desired.len() - 1] == desired.last());
        let (name, wanted) = desired.last();
        lemma_group_at(start.groups, name);
        let i = group_at(start.groups, name);
        let g = start.groups[i];
        lemma_nothing_unwanted(g.name, g.instances, g.workspaces, wanted);
        let same = GroupProgress {
            workspaces: g.workspaces,
            events: Seq::<EventView>::empty(),
            changed: false,
        };
        lemma_nothing_missing(same, g.name, g.instances, wanted, managers, live);
        assert(updated_group(g, wanted, managers, live) == same);
        assert(start.groups.update(i, g) =~= start.groups);
        assert(start.events + same.events =~= start.events);
    }
}

/// A refresh that finds everything in place changes nothing and tells nobody
/// anything.
pub proof fn law_refresh_of_the_same_is_silent(
    groups: Seq<GroupView>,
    desired: Seq<(Seq<char>, Wanted)>,
    managers: Seq<Instance>,
    live: Seq<u64>,
)
    requires
        agrees(groups, desired),
    ensures
        refreshed(groups, desired, managers, live) == (Progress {
            groups,
            events: Seq::empty(),
            changed: false,
        }),
{
    lemma_nothing_gone(groups, desired);
    let start = Progress { groups, events: Seq::empty(), changed: false };
    assert forall|j: int| 0 <= j < desired.len() implies group_at(
        start.groups,
        (#[trigger] desired[j]).0,
    ) < start.groups.len() by {
        assert(entry_agrees(groups, desired[j]));
    }
    lemma_nothing_new(start, desired, managers, live);
    lemma_nothing_to_update(start, desired, managers, live);
}

proof fn lemma_gone_groups(groups: Seq<GroupView>, desired: Seq<(Seq<char>, Wanted)>)
    ensures
        forall|i: int|
            0 <= i < without_gone(groups, desired).groups.len() ==> wanted_output(
                desired,
                (#[trigger] without_gone(groups, desired).groups[i]).name,
            ),
    decreases groups.len(),
{
    if groups.len() > 0 {
        lemma_gone_groups(groups.drop_last(), desired);
        let before = without_gone(groups.drop_last(), desired).groups;
        let after = without_gone(groups, desired).groups;
        assert forall|i: int| 0 <= i < after.len() implies wanted_output(
            desired,
            (#[trigger] after[i]).name,
        ) by {
            if i < before.len() {
                assert(after[i] == before[i]);
            }
        }
    }
}

proof fn lemma_new_groups(
    start: Progress,
    desired: Seq<(Seq<char>, Wanted)>,
    n: int,
    managers: Seq<Instance>,
    live: Seq<u64>,
)
    requires
        0 <= n <= desired.len(),
        forall|i: int|
            0 <= i < start.groups.len() ==> wanted_output(
                desired,
                (#[trigger] start.groups[i]).name,
            ),
    ensures
        ({
            let p = with_new(start, desired.take(n), managers, live);
            &&& forall|i: int|
                0 <= i < p.groups.len() ==> wanted_output(desired, (#[trigger] p.groups[i]).name)
            &&& forall|j: int|
                0 <= j < n ==> group_at(p.groups, (#[trigger] desired[j]).0) < p.groups.len()
        }),
    decreases n,
{
    if n > 0 {
        lemma_new_groups(start, desired, n - 1, managers, live);
        assert(desired.take(n).drop_last() =~= desired.take(n - 1));
        assert(desired.take(n).last() == desired[n - 1]);
        let before = with_new(start, desired.take(n - 1), managers, live);
        let p = with_new(start, desired.take(n), managers, live);
        let name = desired[n - 1].0;
        assert(wanted_output(desired, name));
        assert forall|i: int| 0 <= i < p.groups.len() implies wanted_output(
            desired,
            (#[trigger] p.groups[i]).name,
        ) by {
            if i < before.groups.len() {
                assert(p.groups[i] == before.groups[i]);
            }
        }
        assert forall|j: int| 0 <= j < n implies group_at(p.groups, (#[trigger] desired[j]).0)
            < p.groups.len() by {
            lemma_group_at(p.groups, desired[j].0);
            if j < n - 1 {
                lemma_group_at(before.groups, desired[j].0);
                let at = group_at(before.groups, desired[j].0);
                assert(p.groups[at].name == desired[j].0);
            } else {
                lemma_group_at(before.groups, name);
                let at = group_at(before.groups, name);
                assert(p.groups[at].name == name);
            }
        }
    }
}

proof fn lemma_kept_are_wanted(
    name: Seq<char>,
    group: Seq<Instance>,
    workspaces: Seq<WorkspaceView>,
    wanted: Wanted,
)
    ensures
        forall|i: int|
            0 <= i < without_unwanted(name, group, workspaces, wanted).workspaces.len()
                ==> wanted_number(
                wanted,
                (#[trigger] without_unwanted(name, group, workspaces, wanted).workspaces[i]).number,
            ),
    decreases workspaces.len(),
{
    if workspaces.len() > 0 {
        lemma_kept_are_wanted(name, group, workspaces.drop_last(), wanted);
        let before = without_unwanted(name, group, workspaces.drop_last(), wanted).workspaces;
        let after = without_unwanted(name, group, workspaces, wanted).workspaces;
        assert forall|i: int| 0 <= i < after.len() implies wanted_number(
            wanted,
            (#[trigger] after[i]).number,
        ) by {
            if i < before.len() {
                assert(after[i] == before[i]);
            }
        }
    }
}

proof fn lemma_wanted_are_there(
    start: GroupProgress,
    name: Seq<char>,
    group: Seq<Instance>,
    wanted: Wanted,
    n: int,
    managers: Seq<Instance>,
    live: Seq<u64>,
)
    requires
        0 <= n <= wanted.len(),
        forall|i: int|
            0 <= i < start.workspaces.len() ==> wanted_number(
                wanted,
                (#[trigger] start.workspaces[i]).number,
            ),
    ensures
        ({
            let p = with_wanted(start, name, group, wanted.take(n), managers, live);
            &&& forall|i: int|
                0 <= i < p.workspaces.len() ==> wanted_number(
                    wanted,
                    (#[trigger] p.workspaces[i]).number,
                )
            &&& forall|j: int|
                0 <= j < n ==> workspace_at(p.workspaces, (#[trigger] wanted[j]).0)
                    < p.workspaces.len()
        }),
    decreases n,
{
    if n > 0 {
        lemma_wanted_are_there(start, name, group, wanted, n - 1, managers, live);
        assert(wanted.take(n).drop_last() =~= wanted.take(n - 1));
        assert(wanted.take(n).last() == wanted[n - 1]);
        let before = with_wanted(start, name, group, wanted.take(n - 1), managers, live);
        let p = with_wanted(start, name, group, wanted.take(n), managers, live);
        let number = wanted[n - 1].0;
        assert(wanted_number(wanted, number));
        assert forall|i: int| 0 <= i < p.workspaces.len() implies wanted_number(
            wanted,
            (#[trigger] p.workspaces[i]).number,
        ) by {
            if i < before.workspaces.len() {
                assert(p.workspaces[i] == before.workspaces[i]);
            }
        }
        assert forall|j: int| 0 <= j < n implies workspace_at(p.workspaces, (#[trigger] wanted[j]).0)
            < p.workspaces.len() by {
            lemma_workspace_at(p.workspaces, wanted[j].0);
            let m = if j < n - 1 {
                wanted[j].0
            } else {
                number
            };
            lemma_workspace_at(before.workspaces, m);
            let at = workspace_at(before.workspaces, m);
            assert(p.workspaces[at].number == m);
        }
    }
}

proof fn lemma_active_are_marked(start: GroupProgress, name: Seq<char>, wanted: Wanted, n: int)
    requires
        0 <= n <= wanted.len(),
        distinct(wanted),
        forall|i: int|
            0 <= i < start.workspaces.len() ==> wanted_number(
                wanted,
                (#[trigger] start.workspaces[i]).number,
            ),
        forall|j: int|
            0 <= j < wanted.len() ==> workspace_at(start.workspaces, (#[trigger] wanted[j]).0)
                < start.workspaces.len(),
    ensures
        ({
            let p = with_active(start, name, wanted.take(n));
            &&& p.workspaces.len() == start.workspaces.len()
            &&& forall|i: int|
                0 <= i < p.workspaces.len() ==> (#[trigger] p.workspaces[i]).number
                    == start.workspaces[i].number
            &&& forall|j: int| 0 <= j < n ==> shows_as(p.workspaces, #[trigger] wanted[j])
        }),
    decreases n,
{
    if n > 0 {
        lemma_active_are_marked(start, name, wanted, n - 1);
        assert(wanted.take(n).drop_last() =~= wanted.take(n - 1));
        assert(wanted.take(n).last() == wanted[n - 1]);
        let before = with_active(start, name, wanted.take(n - 1));
        let p = with_active(start, name, wanted.take(n));
        let (number, active) = wanted[n - 1];
        lemma_workspace_at(start.workspaces, number);
        let at = workspace_at(start.workspaces, number);
        assert forall|k: int| 0 <= k < at implies (#[trigger] before.workspaces[k]).number
            != number by {
            assert(start.workspaces[k].number != number);
        }
        lemma_workspace_at_is(before.workspaces, number, at);
        assert forall|i: int| 0 <= i < p.workspaces.len() implies (#[trigger] p.workspaces[i]).number
            == start.workspaces[i].number by {
            assert(before.workspaces[i].number == start.workspaces[i].number);
        }
        assert forall|j: int| 0 <= j < n implies shows_as(p.workspaces, #[trigger] wanted[j]) by {
            let m = wanted[j].0;
            lemma_workspace_at(start.workspaces, m);
            let k = workspace_at(start.workspaces, m);
            assert forall|l: int| 0 <= l < k implies (#[trigger] p.workspaces[l]).number != m by {
                assert(start.workspaces[l].number != m);
            }
            assert forall|l: int| 0 <= l < k implies (#[trigger] before.workspaces[l]).number
                != m by {
                assert(start.workspaces[l].number != m);
            }
            lemma_workspace_at_is(p.workspaces, m, k);
            lemma_workspace_at_is(before.workspaces, m, k);
            if j < n - 1 {
                assert(shows_as(before.workspaces, wanted[j]));
                assert(wanted[j].0 != wanted[n - 1].0);
                assert(k != at);
            }
        }
    }
}

proof fn lemma_updated_group_agrees(
    g: GroupView,
    wanted: Wanted,
    managers: Seq<Instance>,
    live: Seq<u64>,
)
    requires
        distinct(wanted),
    ensures
        group_agrees(updated_group(g, wanted, managers, live).workspaces, wanted),
{
    let kept = without_unwanted(g.name, g.instances, g.workspaces, wanted);
    lemma_kept_are_wanted(g.name, g.instances, g.workspaces, wanted);
    lemma_wanted_are_there(
        kept,
        g.name,
        g.instances,
        wanted,
        wanted.len() as int,
        managers,
        live,
    );
    assert(wanted.take(wanted.len() as int) =~= wanted);
    let filled = with_wanted(kept, g.name, g.instances, wanted, managers, live);
    lemma_active_are_marked(filled, g.name, wanted, wanted.len() as int);
    let done = with_active(filled, g.name, wanted);
    assert forall|i: int| 0 <= i < done.workspaces.len() implies wanted_number(
        wanted,
        (#[trigger] done.workspaces[i]).number,
    ) by {
        assert(filled.workspaces[i].number == done.workspaces[i].number);
    }
}

proof fn lemma_updates_agree(
    start: Progress,
    desired: Seq<(Seq<char>, Wanted)>,
    n: int,
    managers: Seq<Instance>,
    live: Seq<u64>,
)
    requires
        0 <= n <= desired.len(),
        unambiguous(desired),
        forall|j: int|
            0 <= j < desired.len() ==> group_at(start.groups, (#[trigger] desired[j]).0)
                < start.groups.len(),
    ensures
        ({
            let p = with_updates(start, desired.take(n), managers, live);
            &&& p.groups.len() == start.groups.len()
            &&& forall|i: int|
                0 <= i < p.groups.len() ==> (#[trigger] p.groups[i]).name == start.groups[i].name
            &&& forall|j: int| 0 <= j < n ==> entry_agrees(p.groups, #[trigger] desired[j])
        }),
    decreases n,
{
    if n > 0 {
        lemma_updates_agree(start, desired, n - 1, managers, live);
        assert(desired.take(n).drop_last() =~= desired.take(n - 1));
        assert(desired.take(n).last() == desired[n - 1]);
        let before = with_updates(start, desired.take(n - 1), managers, live);
        let p = with_updates(start, desired.take(n), managers, live);
        let (name, wanted) = desired[n - 1];
        lemma_group_at(start.groups, name);
        let at = group_at(start.groups, name);
        assert forall|k: int| 0 <= k < at implies (#[trigger] before.groups[k]).name != name by {
            assert(start.groups[k].name != name);
        }
        lemma_group_at_is(before.groups, name, at);
        lemma_updated_group_agrees(before.groups[at], wanted, managers, live);
        assert forall|i: int| 0 <= i < p.groups.len() implies (#[trigger] p.groups[i]).name
            == start.groups[i].name by {
            assert(before.groups[i].name == start.groups[i].name);
        }
        assert forall|j: int| 0 <= j < n implies entry_agrees(p.groups, #[trigger] desired[j]) by {
            let m = desired[j].0;
            lemma_group_at(start.groups, m);
            let k = group_at(start.groups, m);
            assert forall|l: int| 0 <= l < k implies (#[trigger] p.groups[l]).name != m by {
                assert(start.groups[l].name != m);
            }
            assert forall|l: int| 0 <= l < k implies (#[trigger] before.groups[l]).name != m by {
                assert(start.groups[l].name != m);
            }
            lemma_group_at_is(p.groups, m, k);
            lemma_group_at_is(before.groups, m, k);
            if j < n - 1 {
                assert(entry_agrees(before.groups, desired[j]));
                assert(desired[j].0 != desired[n - 1].0);
                assert(k != at);
            }
        }
    }
}

/// After a refresh, groups and workspaces are exactly as desired, as long as nothing
/// was asked for twice.
pub proof fn law_refresh_reaches_what_is_desired(
    groups: Seq<GroupView>,
    desired: Seq<(Seq<char>, Wanted)>,
    managers: Seq<Instance>,
    live: Seq<u64>,
)
    requires
        unambiguous(desired),
    ensures
        agrees(refreshed(groups, desired, managers, live).groups, desired),
{
    let n = desired.len() as int;
    assert(desired.take(n) =~= desired);
    lemma_gone_groups(groups, desired);
    let first = without_gone(groups, desired);
    lemma_new_groups(first, desired, n, managers, live);
    let second = with_new(first, desired, managers, live);
    lemma_updates_agree(second, desired, n, managers, live);
    let last = with_updates(second, desired, managers, live);
    assert forall|i: int| 0 <= i < last.groups.len() implies wanted_output(
        desired,
        (#[trigger] last.groups[i]).name,
    ) by {
        assert(second.groups[i].name == last.groups[i].name);
    }
}

/// A second refresh behind a first tells nobody anything, whoever is bound by then.
pub proof fn law_second_refresh_is_silent(
    groups: Seq<GroupView>,
    desired: Seq<(Seq<char>, Wanted)>,
    managers: Seq<Instance>,
    later: Seq<Instance>,
    live: Seq<u64>,
)
    requires
        unambiguous(desired),
    ensures
        ({
            let once = refreshed(groups, desired, managers, live).groups;
            let twice = refreshed(once, desired, later, live);
            twice.groups == once && twice.events.len() == 0 && !twice.changed
        }),
{
    law_refresh_reaches_what_is_desired(groups, desired, managers, live);
    law_refresh_of_the_same_is_silent(
        refreshed(groups, desired, managers, live).groups,
        desired,
        later,
        live,
    );
}

} // verus!
