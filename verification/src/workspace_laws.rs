//! What the programs that show workspaces are told.

use vstd::prelude::*;

use crate::ext_workspace::{
    creation, departures, desired_of, first_of, group_at, instance_not, introductions, joined_group,
    joined_workspace, later_call, made_by, made_with, manager_not, reachable, removals, replay, served,
    step_for, telling, with_active, with_new, with_wanted, without_gone, without_unwanted,
    workspace_at, EventView, GroupProgress, GroupView, Instance, News, Progress, Step, Wanted,
    WorkspaceView,
};
use crate::layouts::Layouts;
use crate::seqs::lemma_filter_member;

verus! {

/// Each piece of news is told as what it is, to the object it is for.
pub proof fn law_news_is_told_as_it_is(name: Seq<char>, to: Instance, number: u32, active: bool)
    ensures
        telling(name, News::GroupCreated)(to) == (name, Step::GroupCreated { to }),
        telling(name, News::GroupRemoved)(to) == (name, Step::GroupRemoved { to }),
        telling(name, News::StateChanged { number, active })(to) == (
            name,
            Step::StateChanged { to, number, active },
        ),
        telling(name, News::WorkspaceRemoved { number })(to) == (
            name,
            Step::WorkspaceRemoved { to, number },
        ),
        step_for(News::GroupCreated, to) == (Step::GroupCreated { to }),
{
}

/// The first object of a client is the first that the client has.
pub proof fn law_the_first_object_of_a_client(instances: Seq<Instance>, client: u64)
    ensures
        first_of(instances, client) is Some ==> (first_of(instances, client)->0).client == client
            && instances.contains(first_of(instances, client)->0),
        first_of(instances, client) is None <==> forall|i: int|
            0 <= i < instances.len() ==> (#[trigger] instances[i]).client != client,
        instances.len() > 0 && instances[0].client == client ==> first_of(instances, client) == Some(
            instances[0],
        ),
    decreases instances.len(),
{
    if instances.len() > 0 && instances[0].client != client {
        let rest = instances.skip(1);
        law_the_first_object_of_a_client(rest, client);
        if first_of(rest, client) is Some {
            let f = first_of(rest, client)->0;
            let i = choose|i: int| 0 <= i < rest.len() && rest[i] == f;
            assert(instances[i + 1] == f);
            assert(instances[i + 1].client == client);
        } else {
            assert forall|i: int| 0 <= i < instances.len() implies (#[trigger] instances[i]).client
                != client by {
                if i > 0 {
                    assert(rest[i - 1] == instances[i]);
                }
            }
        }
    } else if instances.len() > 0 {
        assert(instances[0] == first_of(instances, client)->0);
    }
}

/// The group of an output is the first of its name, and the workspace of a number the first
/// that has it.
pub proof fn law_groups_and_workspaces_are_found(
    groups: Seq<GroupView>,
    name: Seq<char>,
    workspaces: Seq<WorkspaceView>,
    number: u32,
)
    ensures
        0 <= group_at(groups, name) <= groups.len(),
        group_at(groups, name) < groups.len() ==> groups[group_at(groups, name)].name == name,
        forall|j: int| 0 <= j < group_at(groups, name) ==> (#[trigger] groups[j]).name != name,
        0 <= workspace_at(workspaces, number) <= workspaces.len(),
        workspace_at(workspaces, number) < workspaces.len() ==> workspaces[workspace_at(
            workspaces,
            number,
        )].number == number,
        forall|j: int|
            0 <= j < workspace_at(workspaces, number) ==> (#[trigger] workspaces[j]).number
                != number,
{
    lemma_group_at(groups, name);
    lemma_workspace_at(workspaces, number);
}

proof fn lemma_group_at(groups: Seq<GroupView>, name: Seq<char>)
    ensures
        0 <= group_at(groups, name) <= groups.len(),
        group_at(groups, name) < groups.len() ==> groups[group_at(groups, name)].name == name,
        forall|j: int| 0 <= j < group_at(groups, name) ==> (#[trigger] groups[j]).name != name,
    decreases groups.len(),
{
    if groups.len() > 0 && groups[0].name != name {
        let rest = groups.skip(1);
        lemma_group_at(rest, name);
        let i = group_at(groups, name);
        if i < groups.len() {
            assert(rest[i - 1] == groups[i]);
        }
        assert forall|j: int| 0 <= j < i implies (#[trigger] groups[j]).name != name by {
            if j > 0 {
                assert(rest[j - 1] == groups[j]);
            }
        }
    }
}

proof fn lemma_workspace_at(workspaces: Seq<WorkspaceView>, number: u32)
    ensures
        0 <= workspace_at(workspaces, number) <= workspaces.len(),
        workspace_at(workspaces, number) < workspaces.len() ==> workspaces[workspace_at(
            workspaces,
            number,
        )].number == number,
        forall|j: int|
            0 <= j < workspace_at(workspaces, number) ==> (#[trigger] workspaces[j]).number
                != number,
    decreases workspaces.len(),
{
    if workspaces.len() > 0 && workspaces[0].number != number {
        let rest = workspaces.skip(1);
        lemma_workspace_at(rest, number);
        let i = workspace_at(workspaces, number);
        if i < workspaces.len() {
            assert(rest[i - 1] == workspaces[i]);
        }
        assert forall|j: int| 0 <= j < i implies (#[trigger] workspaces[j]).number != number by {
            if j > 0 {
                assert(rest[j - 1] == workspaces[j]);
            }
        }
    }
}

/// When a group goes, every object of each of its workspaces is told that it is gone.
pub proof fn law_every_removal_is_told(name: Seq<char>, workspaces: Seq<WorkspaceView>, i: int, k: int)
    requires
        0 <= i < workspaces.len(),
        0 <= k < workspaces[i].instances.len(),
    ensures
        removals(name, workspaces).contains(
            (
                name,
                Step::WorkspaceRemoved {
                    to: workspaces[i].instances[k],
                    number: workspaces[i].number,
                },
            ),
        ),
    decreases workspaces.len(),
{
    let rest = workspaces.drop_last();
    let before = removals(name, rest);
    let all = removals(name, workspaces);
    let told = (
        name,
        Step::WorkspaceRemoved { to: workspaces[i].instances[k], number: workspaces[i].number },
    );
    if i < rest.len() {
        law_every_removal_is_told(name, rest, i, k);
        assert(rest[i] == workspaces[i]);
        let j = choose|j: int| 0 <= j < before.len() && before[j] == told;
        assert(all[j] == told);
    } else {
        assert(all[before.len() + k] == told);
    }
}

/// Nothing else is told then: each event is the removal of one of the workspaces.
pub proof fn law_only_removals_are_told(name: Seq<char>, workspaces: Seq<WorkspaceView>, j: int)
    requires
        0 <= j < removals(name, workspaces).len(),
    ensures
        removals(name, workspaces)[j].0 == name,
        removals(name, workspaces)[j].1 is WorkspaceRemoved,
    decreases workspaces.len(),
{
    if workspaces.len() > 0 {
        let before = removals(name, workspaces.drop_last());
        if j < before.len() {
            law_only_removals_are_told(name, workspaces.drop_last(), j);
            assert(removals(name, workspaces)[j] == before[j]);
        }
    }
}

/// At this event an object is told that its workspace is gone, and right before, where
/// there is a group, that it left the group.
pub open spec fn leaves_at(
    events: Seq<EventView>,
    j: int,
    name: Seq<char>,
    group: Option<Instance>,
    to: Instance,
    number: u32,
) -> bool {
    &&& 0 <= j < events.len()
    &&& events[j] == (name, Step::WorkspaceRemoved { to, number })
    &&& group is Some ==> j > 0 && events[j - 1] == (
        name,
        Step::WorkspaceLeft { group: group->0, to, number },
    )
}

/// When a workspace goes, each of its objects is told that it is gone, and right before that
/// it left its group, where the client has an object of the group.
pub proof fn law_a_workspace_leaves_its_group_before_it_goes(
    name: Seq<char>,
    group: Seq<Instance>,
    instances: Seq<Instance>,
    number: u32,
    i: int,
)
    requires
        0 <= i < instances.len(),
    ensures
        exists|j: int| #[trigger]
            leaves_at(
                departures(name, group, instances, number),
                j,
                name,
                first_of(group, instances[i].client),
                instances[i],
                number,
            ),
    decreases instances.len(),
{
    let rest = instances.drop_last();
    let before = departures(name, group, rest, number);
    let all = departures(name, group, instances, number);
    let to = instances[i];
    if i < rest.len() {
        law_a_workspace_leaves_its_group_before_it_goes(name, group, rest, number, i);
        assert(rest[i] == to);
        let j = choose|j: int| #[trigger]
            leaves_at(before, j, name, first_of(group, to.client), to, number);
        assert(all[j] == before[j]);
        if j > 0 {
            assert(all[j - 1] == before[j - 1]);
        }
        assert(leaves_at(all, j, name, first_of(group, to.client), to, number));
    } else {
        let j = all.len() - 1;
        assert(leaves_at(all, j, name, first_of(group, to.client), to, number));
    }
}

/// A group whose output is not wanted goes, and its objects are told so last; all others
/// stay as they are.
pub proof fn law_groups_without_an_output_go(
    groups: Seq<GroupView>,
    g: GroupView,
    desired: Seq<(Seq<char>, Wanted)>,
    k: int,
)
    ensures
        ({
            let before = without_gone(groups, desired);
            let after = without_gone(groups.push(g), desired);
            let kept = exists|i: int| 0 <= i < desired.len() && (#[trigger] desired[i]).0 == g.name;
            &&& kept ==> after.groups == before.groups.push(g) && after.events == before.events
                && after.changed == before.changed
            &&& !kept ==> after.groups == before.groups && after.changed && after.events.len()
                == before.events.len() + removals(g.name, g.workspaces).len() + g.instances.len()
            &&& !kept && 0 <= k < g.instances.len() ==> after.events[after.events.len()
                - g.instances.len() + k] == (g.name, Step::GroupRemoved { to: g.instances[k] })
            &&& without_gone(Seq::empty(), desired).groups.len() == 0
            &&& !without_gone(Seq::empty(), desired).changed
        }),
{
    assert(groups.push(g).drop_last() =~= groups);
}

/// An output without a group gets one, for every manager that can be reached, and each of
/// them is told.
pub proof fn law_new_outputs_get_groups(
    start: Progress,
    desired: Seq<(Seq<char>, Wanted)>,
    name: Seq<char>,
    wanted: Wanted,
    managers: Seq<Instance>,
    live: Seq<u64>,
    k: int,
)
    ensures
        ({
            let before = with_new(start, desired, managers, live);
            let after = with_new(start, desired.push((name, wanted)), managers, live);
            let there = group_at(before.groups, name) < before.groups.len();
            &&& there ==> after == before
            &&& !there ==> {
                let g = after.groups.last();
                &&& after.changed
                &&& after.groups.drop_last() == before.groups
                &&& g.name == name && g.workspaces.len() == 0
                &&& g.instances == managers.filter(reachable(live))
                &&& after.events.len() == before.events.len() + g.instances.len()
                &&& 0 <= k < g.instances.len() ==> after.events[before.events.len() + k] == (
                    name,
                    Step::GroupCreated { to: g.instances[k] },
                )
            }
            &&& with_new(start, Seq::empty(), managers, live) == start
        }),
{
    assert(desired.push((name, wanted)).drop_last() =~= desired);
    let before = with_new(start, desired, managers, live);
    let after = with_new(start, desired.push((name, wanted)), managers, live);
    if group_at(before.groups, name) >= before.groups.len() {
        assert(after.groups.drop_last() =~= before.groups);
    }
}

/// A client can be reached where it is live; it is served where it also has a manager.
pub proof fn law_live_clients_are_reached(managers: Seq<Instance>, live: Seq<u64>, i: Instance)
    ensures
        reachable(live)(i) <==> live.contains(i.client),
        served(managers, live)(i) <==> live.contains(i.client) && first_of(managers, i.client) is Some,
{
}

/// A workspace that is not wanted goes, and is told to have gone; all others stay as they
/// are.
pub proof fn law_unwanted_workspaces_go(
    name: Seq<char>,
    group: Seq<Instance>,
    workspaces: Seq<WorkspaceView>,
    w: WorkspaceView,
    wanted: Wanted,
)
    ensures
        ({
            let before = without_unwanted(name, group, workspaces, wanted);
            let after = without_unwanted(name, group, workspaces.push(w), wanted);
            let kept = exists|i: int| 0 <= i < wanted.len() && (#[trigger] wanted[i]).0 == w.number;
            &&& kept ==> after.workspaces == before.workspaces.push(w) && after.events
                == before.events && after.changed == before.changed
            &&& !kept ==> after.workspaces == before.workspaces && after.events == before.events
                + departures(name, group, w.instances, w.number) && after.changed
            &&& without_unwanted(name, group, Seq::empty(), wanted).workspaces.len() == 0
            &&& !without_unwanted(name, group, Seq::empty(), wanted).changed
        }),
{
    assert(workspaces.push(w).drop_last() =~= workspaces);
}

/// A workspace that is wanted and not there is made for every object of the group whose
/// client is served, and is announced on the manager of that client, as active as it is.
pub proof fn law_wanted_workspaces_are_made(
    start: GroupProgress,
    name: Seq<char>,
    group: Seq<Instance>,
    wanted: Wanted,
    number: u32,
    active: bool,
    managers: Seq<Instance>,
    live: Seq<u64>,
    k: int,
)
    ensures
        ({
            let before = with_wanted(start, name, group, wanted, managers, live);
            let after = with_wanted(
                start,
                name,
                group,
                wanted.push((number, active)),
                managers,
                live,
            );
            let there = workspace_at(before.workspaces, number) < before.workspaces.len();
            &&& there ==> after == before
            &&& !there ==> {
                let w = after.workspaces.last();
                &&& after.changed
                &&& after.workspaces.drop_last() == before.workspaces
                &&& w.number == number && w.active == active
                &&& w.instances.len() == group.filter(served(managers, live)).len()
                &&& after.events.len() == before.events.len() + w.instances.len()
                &&& 0 <= k < w.instances.len() ==> {
                    let to = w.instances[k];
                    &&& after.events[before.events.len() + k] == (
                        name,
                        Step::WorkspaceCreated {
                            announced_on: (first_of(managers, to.client)->0).manager,
                            to,
                            number,
                            active,
                        },
                    )
                    &&& live.contains(to.client)
                    &&& first_of(managers, to.client) is Some
                    &&& to.made == (first_of(managers, to.client)->0).made
                }
            }
            &&& with_wanted(start, name, group, Seq::empty(), managers, live) == start
        }),
{
    assert(wanted.push((number, active)).drop_last() =~= wanted);
    let before = with_wanted(start, name, group, wanted, managers, live);
    let after = with_wanted(start, name, group, wanted.push((number, active)), managers, live);
    if workspace_at(before.workspaces, number) >= before.workspaces.len() {
        assert(after.workspaces.drop_last() =~= before.workspaces);
        let test = served(managers, live);
        let who = group.filter(test);
        let w = after.workspaces.last();
        if 0 <= k < w.instances.len() {
            assert(who.contains(who[k]));
            lemma_filter_member(group, test, who[k]);
            assert(w.instances[k] == made_with(managers)(who[k]));
        }
    }
}

/// A workspace that is to be active, or not, becomes so, and each of its objects is told;
/// where it is so already nothing happens.
pub proof fn law_activity_is_told_when_it_changes(
    start: GroupProgress,
    name: Seq<char>,
    wanted: Wanted,
    number: u32,
    active: bool,
    k: int,
)
    ensures
        ({
            let before = with_active(start, name, wanted);
            let after = with_active(start, name, wanted.push((number, active)));
            let i = workspace_at(before.workspaces, number);
            let there = 0 <= i < before.workspaces.len();
            &&& i >= before.workspaces.len() ==> after == before
            &&& there && before.workspaces[i].active == active ==> after == before
            &&& there && before.workspaces[i].active != active ==> {
                let w = before.workspaces[i];
                &&& after.changed
                &&& after.workspaces.len() == before.workspaces.len()
                &&& after.workspaces[i].active == active && after.workspaces[i].number == w.number
                    && after.workspaces[i].instances == w.instances
                &&& after.events.len() == before.events.len() + w.instances.len()
                &&& 0 <= k < w.instances.len() ==> after.events[before.events.len() + k] == (
                    name,
                    Step::StateChanged { to: w.instances[k], number, active },
                )
            }
            &&& forall|j: int|
                0 <= j < before.workspaces.len() && j != i ==> #[trigger] after.workspaces[j]
                    == before.workspaces[j]
            &&& with_active(start, name, Seq::empty()) == start
        }),
{
    assert(wanted.push((number, active)).drop_last() =~= wanted);
    lemma_workspace_at(with_active(start, name, wanted).workspaces, number);
}

/// A new workspace is announced on the manager that its client has first.
pub proof fn law_workspaces_are_announced_on_the_manager(
    managers: Seq<Instance>,
    name: Seq<char>,
    number: u32,
    active: bool,
    to: Instance,
)
    ensures
        ({
            let told = creation(managers, name, number, active)(to);
            &&& told.0 == name
            &&& told.1 == (Step::WorkspaceCreated {
                announced_on: (first_of(managers, to.client)->0).manager,
                to,
                number,
                active,
            })
        }),
{
}

/// Objects bear the number of the call they were made in; calls are counted on.
pub proof fn law_objects_bear_the_call_they_were_made_in(
    made: u64,
    i: Instance,
    managers: Seq<Instance>,
)
    ensures
        made_by(made)(i).made == made && made_by(made)(i).client == i.client
            && made_by(made)(i).manager == i.manager,
        made_with(managers)(i).client == i.client && made_with(managers)(i).manager == i.manager,
        first_of(managers, i.client) is Some ==> made_with(managers)(i).made == (first_of(
            managers,
            i.client,
        )->0).made,
        later_call(made) != made,
        made < u64::MAX ==> later_call(made) == made + 1,
        later_call(u64::MAX) == 0,
{
}

/// One who comes later is told of every group and each of its workspaces, in order, on its
/// own manager.
pub proof fn law_newcomers_are_told_everything(
    groups: Seq<GroupView>,
    g: GroupView,
    to: Instance,
    k: int,
)
    ensures
        ({
            let before = replay(groups, to);
            let all = replay(groups.push(g), to);
            &&& replay(Seq::empty(), to).len() == 0
            &&& all.len() == before.len() + 1 + g.workspaces.len()
            &&& 0 <= k < before.len() ==> all[k] == before[k]
            &&& all[before.len() as int] == (g.name, Step::GroupCreated { to })
            &&& 0 <= k < g.workspaces.len() ==> all[before.len() + 1 + k] == (
                g.name,
                Step::WorkspaceCreated {
                    announced_on: to.manager,
                    to,
                    number: g.workspaces[k].number,
                    active: g.workspaces[k].active,
                },
            )
            &&& introductions(g.name, g.workspaces, to).len() == g.workspaces.len()
        }),
{
    assert(groups.push(g).drop_last() =~= groups);
}

/// One who comes later gets an object of every group and every workspace, behind all others.
pub proof fn law_newcomers_get_every_object(g: GroupView, to: Instance, k: int)
    ensures
        ({
            let after = joined_group(to)(g);
            &&& after.name == g.name
            &&& after.instances == g.instances.push(to)
            &&& after.workspaces.len() == g.workspaces.len()
            &&& 0 <= k < g.workspaces.len() ==> after.workspaces[k] == joined_workspace(to)(
                g.workspaces[k],
            ) && after.workspaces[k].instances == g.workspaces[k].instances.push(to)
                && after.workspaces[k].number == g.workspaces[k].number
                && after.workspaces[k].active == g.workspaces[k].active
        }),
{
}

/// What goes is the object, or what belongs to the manager, that was named.
pub proof fn law_only_the_named_object_goes(to: Instance, manager: u64, i: Instance)
    ensures
        instance_not(to)(i) <==> i != to,
        manager_not(manager)(i) <==> i.manager != manager,
{
}

/// Each output wants its workspaces, of which the one it shows is active.
pub proof fn law_outputs_want_their_workspaces(
    layouts: Layouts,
    outputs: Seq<(String, Vec<u32>)>,
    i: int,
    k: int,
)
    requires
        0 <= i < outputs.len(),
        0 <= k < outputs[i].1@.len(),
    ensures
        desired_of(layouts, outputs).len() == outputs.len(),
        desired_of(layouts, outputs)[i].0 == outputs[i].0@,
        desired_of(layouts, outputs)[i].1.len() == outputs[i].1@.len(),
        desired_of(layouts, outputs)[i].1[k].0 == outputs[i].1@[k],
        desired_of(layouts, outputs)[i].1[k].1 <==> layouts.shown(outputs[i].0@)
            == outputs[i].1@[k],
{
}

} // verus!
