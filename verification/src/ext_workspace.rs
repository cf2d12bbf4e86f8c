//! Workspaces as bars see them: one group for each output, with its workspaces.

use vstd::prelude::*;

use crate::layouts::Layouts;
use crate::seqs::{lemma_filter_ends, lemma_filter_step, lemma_map_step};
use crate::text::text_eq;

verus! {

/// A client's object, by the client, the manager through which it came to be, and the
/// number of the call that made it, which tells it from one that the client had before.
#[derive(Clone, Copy, Debug, PartialEq, Eq, Structural)]
pub struct Instance {
    pub client: u64,
    pub manager: u64,
    pub made: u64,
}

/// A workspace that clients are told of.
pub struct TrackedWorkspace {
    pub number: u32,
    pub instances: Vec<Instance>,
    pub active: bool,
}

/// The workspaces of an output.
pub struct TrackedGroup {
    pub output_name: String,
    pub instances: Vec<Instance>,
    pub workspaces: Vec<TrackedWorkspace>,
}

/// The clients that want to know, and what they were told.
pub struct ExtWorkspaceState {
    pub managers: Vec<Instance>,
    pub groups: Vec<TrackedGroup>,
    /// The number of the next call that may make objects.
    pub next_made: u64,
}

/// What a workspace is.
#[verifier::ext_equal]
pub struct WorkspaceView {
    pub number: u32,
    pub instances: Seq<Instance>,
    pub active: bool,
}

impl View for TrackedWorkspace {
    type V = WorkspaceView;

    open spec fn view(&self) -> WorkspaceView {
        WorkspaceView { number: self.number, instances: self.instances@, active: self.active }
    }
}

/// What a group is.
#[verifier::ext_equal]
pub struct GroupView {
    pub name: Seq<char>,
    pub instances: Seq<Instance>,
    pub workspaces: Seq<WorkspaceView>,
}

/// What the workspaces are.
pub open spec fn workspace_views(s: Seq<TrackedWorkspace>) -> Seq<WorkspaceView> {
    s.map_values(|w: TrackedWorkspace| w@)
}

impl View for TrackedGroup {
    type V = GroupView;

    open spec fn view(&self) -> GroupView {
        GroupView {
            name: self.output_name@,
            instances: self.instances@,
            workspaces: workspace_views(self.workspaces@),
        }
    }
}

/// What the groups are.
pub open spec fn group_views(s: Seq<TrackedGroup>) -> Seq<GroupView> {
    s.map_values(|g: TrackedGroup| g@)
}

/// What a client is told.
#[derive(Clone, Copy, Debug, PartialEq, Eq, Structural)]
pub enum Step {
    GroupCreated { to: Instance },
    /// It is announced on a manager and enters the group of `to`.
    WorkspaceCreated { announced_on: u64, to: Instance, number: u32, active: bool },
    StateChanged { to: Instance, number: u32, active: bool },
    WorkspaceLeft { group: Instance, to: Instance, number: u32 },
    WorkspaceRemoved { to: Instance, number: u32 },
    GroupRemoved { to: Instance },
}

/// What a client is told of an output's workspaces.
pub struct WorkspaceEvent {
    pub output: String,
    pub step: Step,
}

/// A step, and the output it is about.
pub type EventView = (Seq<char>, Step);

/// What the events are.
pub open spec fn event_views(s: Seq<WorkspaceEvent>) -> Seq<EventView> {
    s.map_values(|e: WorkspaceEvent| (e.output@, e.step))
}

/// The workspaces that an output is to have, and whether each is shown.
pub type Wanted = Seq<(u32, bool)>;

/// What all outputs are to have.
pub open spec fn desired_views(desired: Seq<(String, Vec<(u32, bool)>)>) -> Seq<(Seq<char>, Wanted)> {
    desired.map_values(|d: (String, Vec<(u32, bool)>)| (d.0@, d.1@))
}

/// The output is to have a group.
pub open spec fn wanted_output(desired: Seq<(Seq<char>, Wanted)>, name: Seq<char>) -> bool {
    exists|i: int| 0 <= i < desired.len() && (#[trigger] desired[i]).0 == name
}

/// The workspace is to be there.
pub open spec fn wanted_number(wanted: Wanted, number: u32) -> bool {
    exists|i: int| 0 <= i < wanted.len() && (#[trigger] wanted[i]).0 == number
}

/// The index of the first group of an output, and the number of groups where it has
/// none.
pub open spec fn group_at(groups: Seq<GroupView>, name: Seq<char>) -> int
    decreases groups.len(),
{
    if groups.len() == 0 || groups[0].name == name {
        0
    } else {
        1 + group_at(groups.skip(1), name)
    }
}

/// The index of the first workspace of a number, and the number of workspaces where
/// there is none.
pub open spec fn workspace_at(workspaces: Seq<WorkspaceView>, number: u32) -> int
    decreases workspaces.len(),
{
    if workspaces.len() == 0 || workspaces[0].number == number {
        0
    } else {
        1 + workspace_at(workspaces.skip(1), number)
    }
}

/// The first of a client's objects.
pub open spec fn first_of(instances: Seq<Instance>, client: u64) -> Option<Instance>
    decreases instances.len(),
{
    if instances.len() == 0 {
        None
    } else if instances[0].client == client {
        Some(instances[0])
    } else {
        first_of(instances.skip(1), client)
    }
}

/// What all clients are told in the same words.
#[derive(Clone, Copy, Debug, PartialEq, Eq, Structural)]
pub enum News {
    GroupCreated,
    StateChanged { number: u32, active: bool },
    WorkspaceRemoved { number: u32 },
    GroupRemoved,
}

/// The step that tells it to a client.
pub open spec fn step_for(news: News, to: Instance) -> Step {
    match news {
        News::GroupCreated => Step::GroupCreated { to },
        News::StateChanged { number, active } => Step::StateChanged { to, number, active },
        News::WorkspaceRemoved { number } => Step::WorkspaceRemoved { to, number },
        News::GroupRemoved => Step::GroupRemoved { to },
    }
}

/// The event that tells it to a client.
pub open spec fn telling(name: Seq<char>, news: News) -> spec_fn(Instance) -> EventView {
    |to: Instance| (name, step_for(news, to))
}

/// A workspace is made for a client, announced on its first manager.
pub open spec fn creation(managers: Seq<Instance>, name: Seq<char>, number: u32, active: bool) -> spec_fn(
    Instance,
) -> EventView {
    |to: Instance|
        (
            name,
            Step::WorkspaceCreated {
                announced_on: (first_of(managers, to.client)->0).manager,
                to,
                number,
                active,
            },
        )
}

/// The number of the call behind this one.
pub open spec fn later_call(made: u64) -> u64 {
    if made == u64::MAX {
        0
    } else {
        (made + 1) as u64
    }
}

/// As an object that this call makes.
pub open spec fn made_by(made: u64) -> spec_fn(Instance) -> Instance {
    |i: Instance| Instance { made, ..i }
}

/// As an object that is made by the call whose number the client's first manager bears.
pub open spec fn made_with(managers: Seq<Instance>) -> spec_fn(Instance) -> Instance {
    |i: Instance| Instance { made: (first_of(managers, i.client)->0).made, ..i }
}

/// Objects can be made for the client.
pub open spec fn reachable(live: Seq<u64>) -> spec_fn(Instance) -> bool {
    |i: Instance| live.contains(i.client)
}

/// Objects can be made for the client, and it has a manager.
pub open spec fn served(managers: Seq<Instance>, live: Seq<u64>) -> spec_fn(Instance) -> bool {
    |i: Instance| first_of(managers, i.client) is Some && live.contains(i.client)
}

/// The removal of all workspaces.
pub open spec fn removals(name: Seq<char>, workspaces: Seq<WorkspaceView>) -> Seq<EventView>
    decreases workspaces.len(),
{
    if workspaces.len() == 0 {
        Seq::empty()
    } else {
        removals(name, workspaces.drop_last()) + workspaces.last().instances.map_values(
            telling(name, News::WorkspaceRemoved { number: workspaces.last().number }),
        )
    }
}

/// A workspace leaves its group for each client that has both, and is removed.
pub open spec fn departures(
    name: Seq<char>,
    group: Seq<Instance>,
    instances: Seq<Instance>,
    number: u32,
) -> Seq<EventView>
    decreases instances.len(),
{
    if instances.len() == 0 {
        Seq::empty()
    } else {
        let to = instances.last();
        let before = departures(name, group, instances.drop_last(), number);
        let left = match first_of(group, to.client) {
            Some(g) => before.push((name, Step::WorkspaceLeft { group: g, to, number })),
            None => before,
        };
        left.push((name, Step::WorkspaceRemoved { to, number }))
    }
}

/// The groups, what clients were told, and whether anything changed.
#[verifier::ext_equal]
pub struct Progress {
    pub groups: Seq<GroupView>,
    pub events: Seq<EventView>,
    pub changed: bool,
}

/// One group, what clients were told, and whether anything changed.
#[verifier::ext_equal]
pub struct GroupProgress {
    pub workspaces: Seq<WorkspaceView>,
    pub events: Seq<EventView>,
    pub changed: bool,
}

/// The groups of outputs that are gone are removed.
pub open spec fn without_gone(groups: Seq<GroupView>, desired: Seq<(Seq<char>, Wanted)>) -> Progress
    decreases groups.len(),
{
    if groups.len() == 0 {
        Progress { groups: Seq::empty(), events: Seq::empty(), changed: false }
    } else {
        let before = without_gone(groups.drop_last(), desired);
        let g = groups.last();
        if wanted_output(desired, g.name) {
            Progress { groups: before.groups.push(g), ..before }
        } else {
            Progress {
                groups: before.groups,
                events: before.events + removals(g.name, g.workspaces) + g.instances.map_values(
                    telling(g.name, News::GroupRemoved),
                ),
                changed: true,
            }
        }
    }
}

/// Outputs that have no group yet get one.
pub open spec fn with_new(
    start: Progress,
    desired: Seq<(Seq<char>, Wanted)>,
    managers: Seq<Instance>,
    live: Seq<u64>,
) -> Progress
    decreases desired.len(),
{
    if desired.len() == 0 {
        start
    } else {
        let before = with_new(start, desired.drop_last(), managers, live);
        let name = desired.last().0;
        if group_at(before.groups, name) < before.groups.len() {
            before
        } else {
            let instances = managers.filter(reachable(live));
            Progress {
                groups: before.groups.push(
                    GroupView { name, instances, workspaces: Seq::empty() },
                ),
                events: before.events + instances.map_values(telling(name, News::GroupCreated)),
                changed: true,
            }
        }
    }
}

/// Workspaces that are no longer wanted are removed.
pub open spec fn without_unwanted(
    name: Seq<char>,
    group: Seq<Instance>,
    workspaces: Seq<WorkspaceView>,
    wanted: Wanted,
) -> GroupProgress
    decreases workspaces.len(),
{
    if workspaces.len() == 0 {
        GroupProgress { workspaces: Seq::empty(), events: Seq::empty(), changed: false }
    } else {
        let before = without_unwanted(name, group, workspaces.drop_last(), wanted);
        let w = workspaces.last();
        if wanted_number(wanted, w.number) {
            GroupProgress { workspaces: before.workspaces.push(w), ..before }
        } else {
            GroupProgress {
                workspaces: before.workspaces,
                events: before.events + departures(name, group, w.instances, w.number),
                changed: true,
            }
        }
    }
}

/// Workspaces that are wanted and not there yet are made.
pub open spec fn with_wanted(
    start: GroupProgress,
    name: Seq<char>,
    group: Seq<Instance>,
    wanted: Wanted,
    managers: Seq<Instance>,
    live: Seq<u64>,
) -> GroupProgress
    decreases wanted.len(),
{
    if wanted.len() == 0 {
        start
    } else {
        let before = with_wanted(start, name, group, wanted.drop_last(), managers, live);
        let (number, active) = wanted.last();
        if workspace_at(before.workspaces, number) < before.workspaces.len() {
            before
        } else {
            let instances = group.filter(served(managers, live)).map_values(made_with(managers));
            GroupProgress {
                workspaces: before.workspaces.push(WorkspaceView { number, instances, active }),
                events: before.events + instances.map_values(
                    creation(managers, name, number, active),
                ),
                changed: true,
            }
        }
    }
}

/// Workspaces learn whether they are shown.
pub open spec fn with_active(start: GroupProgress, name: Seq<char>, wanted: Wanted) -> GroupProgress
    decreases wanted.len(),
{
    if wanted.len() == 0 {
        start
    } else {
        let before = with_active(start, name, wanted.drop_last());
        let (number, active) = wanted.last();
        let i = workspace_at(before.workspaces, number);
        if i >= before.workspaces.len() || before.workspaces[i].active == active {
            before
        } else {
            let w = before.workspaces[i];
            GroupProgress {
                workspaces: before.workspaces.update(i, WorkspaceView { active, ..w }),
                events: before.events + w.instances.map_values(telling(name, News::StateChanged { number, active })),
                changed: true,
            }
        }
    }
}

/// A group brought up to date.
pub open spec fn updated_group(
    g: GroupView,
    wanted: Wanted,
    managers: Seq<Instance>,
    live: Seq<u64>,
) -> GroupProgress {
    let kept = without_unwanted(g.name, g.instances, g.workspaces, wanted);
    let filled = with_wanted(kept, g.name, g.instances, wanted, managers, live);
    with_active(filled, g.name, wanted)
}

/// All groups brought up to date.
pub open spec fn with_updates(
    start: Progress,
    desired: Seq<(Seq<char>, Wanted)>,
    managers: Seq<Instance>,
    live: Seq<u64>,
) -> Progress
    decreases desired.len(),
{
    if desired.len() == 0 {
        start
    } else {
        let before = with_updates(start, desired.drop_last(), managers, live);
        let (name, wanted) = desired.last();
        let i = group_at(before.groups, name);
        if i >= before.groups.len() {
            before
        } else {
            let u = updated_group(before.groups[i], wanted, managers, live);
            Progress {
                groups: before.groups.update(
                    i,
                    GroupView { workspaces: u.workspaces, ..before.groups[i] },
                ),
                events: before.events + u.events,
                changed: before.changed || u.changed,
            }
        }
    }
}

/// Groups and workspaces brought in line with what is desired.
pub open spec fn refreshed(
    groups: Seq<GroupView>,
    desired: Seq<(Seq<char>, Wanted)>,
    managers: Seq<Instance>,
    live: Seq<u64>,
) -> Progress {
    with_updates(
        with_new(without_gone(groups, desired), desired, managers, live),
        desired,
        managers,
        live,
    )
}

fn emit(events: &mut Vec<WorkspaceEvent>, output: &str, step: Step)
    ensures
        event_views(final(events)@) == event_views(old(events)@).push((output@, step)),
{
    let ghost before = events@;
    events.push(WorkspaceEvent { output: output.to_owned(), step });
    assert(event_views(events@) =~= event_views(before).push((output@, step)));
}

fn tell_all(events: &mut Vec<WorkspaceEvent>, output: &str, instances: &Vec<Instance>, news: News)
    ensures
        event_views(final(events)@) == event_views(old(events)@) + instances@.map_values(
            telling(output@, news),
        ),
{
    let ghost before = event_views(events@);
    let ghost f = telling(output@, news);
    let mut i: usize = 0;
    assert(before + instances@.take(0).map_values(f) =~= before);
    while i < instances.len()
        invariant
            i <= instances@.len(),
            f == telling(output@, news),
            event_views(events@) == before + instances@.take(i as int).map_values(f),
        decreases instances@.len() - i,
    {
        proof {
            lemma_map_step(instances@, i as int, f);
        }
        let to: Instance = instances[i];
        let step: Step = match news {
            News::GroupCreated => Step::GroupCreated { to },
            News::StateChanged { number, active } => Step::StateChanged { to, number, active },
            News::WorkspaceRemoved { number } => Step::WorkspaceRemoved { to, number },
            News::GroupRemoved => Step::GroupRemoved { to },
        };
        emit(events, output, step);
        assert(f(to) == (output@, step));
        i += 1;
        assert(event_views(events@) =~= before + instances@.take(i as int).map_values(f));
    }
    assert(instances@.take(instances@.len() as int) =~= instances@);
}

fn find_first(instances: &Vec<Instance>, client: u64) -> (r: Option<Instance>)
    ensures
        r == first_of(instances@, client),
{
    let mut i: usize = 0;
    assert(instances@.skip(0) =~= instances@);
    while i < instances.len()
        invariant
            i <= instances@.len(),
            first_of(instances@, client) == first_of(instances@.skip(i as int), client),
        decreases instances@.len() - i,
    {
        assert(instances@.skip(i as int)[0] == instances@[i as int]);
        assert(instances@.skip(i as int).skip(1) =~= instances@.skip(i + 1));
        if instances[i].client == client {
            return Some(instances[i]);
        }
        i += 1;
    }
    None
}

fn has_client(live: &Vec<u64>, client: u64) -> (r: bool)
    ensures
        r == live@.contains(client),
{
    let mut i: usize = 0;
    while i < live.len()
        invariant
            i <= live@.len(),
            forall|j: int| 0 <= j < i ==> live@[j] != client,
        decreases live@.len() - i,
    {
        if live[i] == client {
            assert(live@[i as int] == client);
            return true;
        }
        i += 1;
    }
    false
}

fn is_wanted_output(desired: &Vec<(String, Vec<(u32, bool)>)>, name: &str) -> (r: bool)
    ensures
        r == wanted_output(desired_views(desired@), name@),
{
    let mut i: usize = 0;
    let ghost views = desired_views(desired@);
    while i < desired.len()
        invariant
            i <= desired@.len(),
            views == desired_views(desired@),
            forall|j: int| 0 <= j < i ==> (#[trigger] views[j]).0 != name@,
        decreases desired@.len() - i,
    {
        assert(views[i as int].0 == desired@[i as int].0@);
        if text_eq(desired[i].0.as_str(), name) {
            return true;
        }
        i += 1;
    }
    false
}

fn is_wanted_number(wanted: &Vec<(u32, bool)>, number: u32) -> (r: bool)
    ensures
        r == wanted_number(wanted@, number),
{
    let mut i: usize = 0;
    while i < wanted.len()
        invariant
            i <= wanted@.len(),
            forall|j: int| 0 <= j < i ==> (#[trigger] wanted@[j]).0 != number,
        decreases wanted@.len() - i,
    {
        if wanted[i].0 == number {
            return true;
        }
        i += 1;
    }
    false
}

fn find_group(groups: &Vec<TrackedGroup>, name: &str) -> (r: usize)
    ensures
        r == group_at(group_views(groups@), name@),
        r <= groups@.len(),
{
    let ghost views = group_views(groups@);
    let mut i: usize = 0;
    assert(views.skip(0) =~= views);
    while i < groups.len()
        invariant
            i <= groups@.len(),
            views == group_views(groups@),
            group_at(views, name@) == i + group_at(views.skip(i as int), name@),
        decreases groups@.len() - i,
    {
        assert(views.skip(i as int)[0] == groups@[i as int]@);
        assert(views.skip(i as int).skip(1) =~= views.skip(i + 1));
        if text_eq(groups[i].output_name.as_str(), name) {
            return i;
        }
        i += 1;
    }
    i
}

fn find_workspace(workspaces: &Vec<TrackedWorkspace>, number: u32) -> (r: usize)
    ensures
        r == workspace_at(workspace_views(workspaces@), number),
        r <= workspaces@.len(),
{
    let ghost views = workspace_views(workspaces@);
    let mut i: usize = 0;
    assert(views.skip(0) =~= views);
    while i < workspaces.len()
        invariant
            i <= workspaces@.len(),
            views == workspace_views(workspaces@),
            workspace_at(views, number) == i + workspace_at(views.skip(i as int), number),
        decreases workspaces@.len() - i,
    {
        assert(views.skip(i as int)[0] == workspaces@[i as int]@);
        assert(views.skip(i as int).skip(1) =~= views.skip(i + 1));
        if workspaces[i].number == number {
            return i;
        }
        i += 1;
    }
    i
}

fn tell_removals(events: &mut Vec<WorkspaceEvent>, output: &str, workspaces: &Vec<TrackedWorkspace>)
    ensures
        event_views(final(events)@) == event_views(old(events)@) + removals(
            output@,
            workspace_views(workspaces@),
        ),
{
    let ghost before = event_views(events@);
    let ghost views = workspace_views(workspaces@);
    let mut i: usize = 0;
    assert(before + removals(output@, views.take(0)) =~= before);
    while i < workspaces.len()
        invariant
            i <= workspaces@.len(),
            views == workspace_views(workspaces@),
            event_views(events@) == before + removals(output@, views.take(i as int)),
        decreases workspaces@.len() - i,
    {
        assert(views.take(i + 1).drop_last() =~= views.take(i as int));
        assert(views.take(i + 1).last() == workspaces@[i as int]@);
        tell_all(
            events,
            output,
            &workspaces[i].instances,
            News::WorkspaceRemoved { number: workspaces[i].number },
        );
        i += 1;
        assert(event_views(events@) =~= before + removals(output@, views.take(i as int)));
    }
    assert(views.take(views.len() as int) =~= views);
}

fn tell_departures(
    events: &mut Vec<WorkspaceEvent>,
    output: &str,
    group: &Vec<Instance>,
    instances: &Vec<Instance>,
    number: u32,
)
    ensures
        event_views(final(events)@) == event_views(old(events)@) + departures(
            output@,
            group@,
            instances@,
            number,
        ),
{
    let ghost before = event_views(events@);
    let mut i: usize = 0;
    assert(before + departures(output@, group@, instances@.take(0), number) =~= before);
    while i < instances.len()
        invariant
            i <= instances@.len(),
            event_views(events@) == before + departures(
                output@,
                group@,
                instances@.take(i as int),
                number,
            ),
        decreases instances@.len() - i,
    {
        assert(instances@.take(i + 1).drop_last() =~= instances@.take(i as int));
        let to: Instance = instances[i];
        assert(instances@.take(i + 1).last() == to);
        if let Some(g) = find_first(group, to.client) {
            emit(events, output, Step::WorkspaceLeft { group: g, to, number });
        }
        emit(events, output, Step::WorkspaceRemoved { to, number });
        i += 1;
        assert(event_views(events@) =~= before + departures(
            output@,
            group@,
            instances@.take(i as int),
            number,
        ));
    }
    assert(instances@.take(instances@.len() as int) =~= instances@);
}

fn reachable_managers(managers: &Vec<Instance>, live: &Vec<u64>) -> (r: Vec<Instance>)
    ensures
        r@ == managers@.filter(reachable(live@)),
{
    let mut out: Vec<Instance> = Vec::new();
    let mut i: usize = 0;
    proof {
        lemma_filter_ends(managers@, reachable(live@));
    }
    while i < managers.len()
        invariant
            i <= managers@.len(),
            out@ == managers@.take(i as int).filter(reachable(live@)),
        decreases managers@.len() - i,
    {
        proof {
            lemma_filter_step(managers@, i as int, reachable(live@));
        }
        if has_client(live, managers[i].client) {
            out.push(managers[i]);
        }
        i += 1;
    }
    proof {
        lemma_filter_ends(managers@, reachable(live@));
    }
    out
}

fn next_call(made: u64) -> (r: u64)
    ensures
        r == later_call(made),
{
    if made == u64::MAX {
        0
    } else {
        made + 1
    }
}

/// The managers as objects of one call.
fn stamp_all(list: &Vec<Instance>, made: u64) -> (r: Vec<Instance>)
    ensures
        r@ == list@.map_values(made_by(made)),
{
    let mut out: Vec<Instance> = Vec::new();
    let mut i: usize = 0;
    while i < list.len()
        invariant
            i <= list@.len(),
            out@.len() == i,
            forall|j: int| 0 <= j < i ==> #[trigger] out@[j] == made_by(made)(list@[j]),
        decreases list@.len() - i,
    {
        out.push(Instance { made, ..list[i] });
        i += 1;
    }
    assert(out@ =~= list@.map_values(made_by(made)));
    out
}

fn create_workspace(
    events: &mut Vec<WorkspaceEvent>,
    output: &str,
    group: &Vec<Instance>,
    managers: &Vec<Instance>,
    live: &Vec<u64>,
    number: u32,
    active: bool,
) -> (r: TrackedWorkspace)
    ensures
        r@ == (WorkspaceView {
            number,
            instances: group@.filter(served(managers@, live@)).map_values(made_with(managers@)),
            active,
        }),
        event_views(final(events)@) == event_views(old(events)@) + r@.instances.map_values(
            creation(managers@, output@, number, active),
        ),
{
    let ghost before = event_views(events@);
    let ghost pred = served(managers@, live@);
    let ghost f = creation(managers@, output@, number, active);
    let ghost m = made_with(managers@);
    let mut out: Vec<Instance> = Vec::new();
    let mut i: usize = 0;
    proof {
        lemma_filter_ends(group@, pred);
        assert(group@.take(0).filter(pred).map_values(m) =~= Seq::<Instance>::empty());
        assert(before + Seq::<Instance>::empty().map_values(f) =~= before);
    }
    while i < group.len()
        invariant
            i <= group@.len(),
            pred == served(managers@, live@),
            f == creation(managers@, output@, number, active),
            m == made_with(managers@),
            out@ == group@.take(i as int).filter(pred).map_values(m),
            event_views(events@) == before + out@.map_values(f),
        decreases group@.len() - i,
    {
        proof {
            lemma_filter_step(group@, i as int, pred);
        }
        let holder: Instance = group[i];
        let ghost sofar = out@;
        if let Some(manager) = find_first(managers, holder.client) {
            if has_client(live, holder.client) {
                let to: Instance = Instance { made: manager.made, ..holder };
                assert(to == m(group@[i as int]));
                assert(group@.take(i + 1).filter(pred).map_values(m) =~= group@.take(
                    i as int,
                ).filter(pred).map_values(m).push(to));
                let step: Step = Step::WorkspaceCreated {
                    announced_on: manager.manager,
                    to,
                    number,
                    active,
                };
                emit(events, output, step);
                out.push(to);
                assert(f(to) == (output@, step));
                assert(before + out@.map_values(f) =~= (before + sofar.map_values(f)).push(
                    (output@, step),
                ));
            }
        }
        i += 1;
    }
    proof {
        lemma_filter_ends(group@, pred);
    }
    TrackedWorkspace { number, instances: out, active }
}

/// What came of bringing clients up to date.
pub struct Refreshed {
    pub events: Vec<WorkspaceEvent>,
    /// The managers that are told that this was all.
    pub done: Vec<Instance>,
}

fn copied(list: &Vec<Instance>) -> (r: Vec<Instance>)
    ensures
        r@ == list@,
{
    let mut out: Vec<Instance> = Vec::new();
    let mut i: usize = 0;
    while i < list.len()
        invariant
            i <= list@.len(),
            out@ == list@.take(i as int),
        decreases list@.len() - i,
    {
        out.push(list[i]);
        i += 1;
        assert(list@.take(i as int) =~= list@.take(i - 1).push(list@[i - 1]));
    }
    assert(list@.take(list@.len() as int) =~= list@);
    out
}

fn update_group(
    group: &mut TrackedGroup,
    events: &mut Vec<WorkspaceEvent>,
    wanted: &Vec<(u32, bool)>,
    managers: &Vec<Instance>,
    live: &Vec<u64>,
) -> (changed: bool)
    ensures
        ({
            let u = updated_group(old(group)@, wanted@, managers@, live@);
            &&& final(group)@ == (GroupView { workspaces: u.workspaces, ..old(group)@ })
            &&& event_views(final(events)@) == event_views(old(events)@) + u.events
            &&& changed == u.changed
        }),
{
    let ghost start = event_views(events@);
    let ghost before = group@;
    let ghost (name, instances) = (before.name, before.instances);
    let mut changed: bool = false;

    let mut i: usize = 0;
    let ghost mut k: int = 0;
    proof {
        assert(before.workspaces.take(0) =~= Seq::<WorkspaceView>::empty());
        assert(group@.workspaces =~= Seq::<WorkspaceView>::empty() + before.workspaces.skip(0));
        assert(start + Seq::<EventView>::empty() =~= start);
    }
    while i < group.workspaces.len()
        invariant
            0 <= k <= before.workspaces.len(),
            group.output_name@ == name,
            group.instances@ == instances,
            ({
                let p = without_unwanted(name, instances, before.workspaces.take(k), wanted@);
                &&& i == p.workspaces.len()
                &&& group@.workspaces == p.workspaces + before.workspaces.skip(k)
                &&& event_views(events@) == start + p.events
                &&& changed == p.changed
            }),
        decreases before.workspaces.len() - k,
    {
        let ghost now = group@.workspaces;
        let ghost p = without_unwanted(name, instances, before.workspaces.take(k), wanted@);
        proof {
            assert(now[i as int] == before.workspaces.skip(k)[0]);
            assert(before.workspaces.skip(k)[0] == before.workspaces[k]);
            assert(now[i as int] == group.workspaces@[i as int]@);
            assert(before.workspaces.take(k + 1).drop_last() =~= before.workspaces.take(k));
            assert(before.workspaces.take(k + 1).last() == before.workspaces[k]);
        }
        if is_wanted_number(wanted, group.workspaces[i].number) {
            i += 1;
            assert(now =~= p.workspaces.push(before.workspaces[k]) + before.workspaces.skip(k + 1));
        } else {
            changed = true;
            let gone: TrackedWorkspace = group.workspaces.remove(i);
            assert(group@.workspaces =~= now.remove(i as int));
            assert(group@.workspaces =~= p.workspaces + before.workspaces.skip(k + 1));
            tell_departures(
                events,
                group.output_name.as_str(),
                &group.instances,
                &gone.instances,
                gone.number,
            );
            assert(event_views(events@) =~= start + without_unwanted(
                name,
                instances,
                before.workspaces.take(k + 1),
                wanted@,
            ).events);
        }
        proof {
            k = k + 1;
        }
    }
    let ghost kept = without_unwanted(name, instances, before.workspaces, wanted@);
    proof {
        assert(k == before.workspaces.len());
        assert(before.workspaces.take(k) =~= before.workspaces);
        assert(group@.workspaces =~= kept.workspaces);
    }

    let mut j: usize = 0;
    assert(wanted@.take(0) =~= Seq::<(u32, bool)>::empty());
    while j < wanted.len()
        invariant
            j <= wanted@.len(),
            group.output_name@ == name,
            group.instances@ == instances,
            ({
                let p = with_wanted(
                    kept,
                    name,
                    instances,
                    wanted@.take(j as int),
                    managers@,
                    live@,
                );
                &&& group@.workspaces == p.workspaces
                &&& event_views(events@) == start + p.events
                &&& changed == p.changed
            }),
        decreases wanted@.len() - j,
    {
        assert(wanted@.take(j + 1).drop_last() =~= wanted@.take(j as int));
        assert(wanted@.take(j + 1).last() == wanted@[j as int]);
        let (number, active): (u32, bool) = wanted[j];
        let ghost now = group@.workspaces;
        if find_workspace(&group.workspaces, number) == group.workspaces.len() {
            changed = true;
            let fresh: TrackedWorkspace = create_workspace(
                events,
                group.output_name.as_str(),
                &group.instances,
                managers,
                live,
                number,
                active,
            );
            let ghost view = fresh@;
            group.workspaces.push(fresh);
            assert(group@.workspaces =~= now.push(view));
            assert(event_views(events@) =~= start + with_wanted(
                kept,
                name,
                instances,
                wanted@.take(j + 1),
                managers@,
                live@,
            ).events);
        }
        j += 1;
    }
    let ghost filled = with_wanted(kept, name, instances, wanted@, managers@, live@);
    assert(wanted@.take(wanted@.len() as int) =~= wanted@);

    let mut j: usize = 0;
    while j < wanted.len()
        invariant
            j <= wanted@.len(),
            group.output_name@ == name,
            group.instances@ == instances,
            ({
                let p = with_active(filled, name, wanted@.take(j as int));
                &&& group@.workspaces == p.workspaces
                &&& event_views(events@) == start + p.events
                &&& changed == p.changed
            }),
        decreases wanted@.len() - j,
    {
        assert(wanted@.take(j + 1).drop_last() =~= wanted@.take(j as int));
        assert(wanted@.take(j + 1).last() == wanted@[j as int]);
        let (number, active): (u32, bool) = wanted[j];
        let at: usize = find_workspace(&group.workspaces, number);
        let ghost now = group@.workspaces;
        if at < group.workspaces.len() {
            assert(now[at as int] == group.workspaces@[at as int]@);
            if group.workspaces[at].active != active {
                changed = true;
                tell_all(
                    events,
                    group.output_name.as_str(),
                    &group.workspaces[at].instances,
                    News::StateChanged { number, active },
                );
                group.workspaces[at].active = active;
                assert(group@.workspaces =~= now.update(
                    at as int,
                    WorkspaceView { active, ..now[at as int] },
                ));
                assert(event_views(events@) =~= start + with_active(
                    filled,
                    name,
                    wanted@.take(j + 1),
                ).events);
            }
        }
        j += 1;
    }
    changed
}

impl ExtWorkspaceState {
    pub open spec fn views(&self) -> Seq<GroupView> {
        group_views(self.groups@)
    }

    pub fn new() -> (r: Self)
        ensures
            r.managers@ == Seq::<Instance>::empty(),
            r.views() == Seq::<GroupView>::empty(),
            r.next_made == 0,
    {
        let r = ExtWorkspaceState { managers: Vec::new(), groups: Vec::new(), next_made: 0 };
        assert(r.views() =~= Seq::<GroupView>::empty());
        r
    }

    fn drop_gone(
        &mut self,
        events: &mut Vec<WorkspaceEvent>,
        desired: &Vec<(String, Vec<(u32, bool)>)>,
    ) -> (changed: bool)
        requires
            old(events)@.len() == 0,
        ensures
            ({
                let p = without_gone(old(self).views(), desired_views(desired@));
                &&& final(self).views() == p.groups
                &&& event_views(final(events)@) == p.events
                &&& changed == p.changed
            }),
            final(self).managers == old(self).managers,
            final(self).next_made == old(self).next_made,
    {
        let ghost before = self.views();
        let ghost goal = desired_views(desired@);
        let mut changed: bool = false;
        let mut i: usize = 0;
        let ghost mut k: int = 0;
        proof {
            assert(before.take(0) =~= Seq::<GroupView>::empty());
            assert(self.views() =~= Seq::<GroupView>::empty() + before.skip(0));
            assert(event_views(events@) =~= Seq::<EventView>::empty());
        }
        while i < self.groups.len()
            invariant
                0 <= k <= before.len(),
                goal == desired_views(desired@),
                self.managers == old(self).managers,
                self.next_made == old(self).next_made,
                ({
                    let p = without_gone(before.take(k), goal);
                    &&& i == p.groups.len()
                    &&& self.views() == p.groups + before.skip(k)
                    &&& event_views(events@) == p.events
                    &&& changed == p.changed
                }),
            decreases before.len() - k,
        {
            let ghost now = self.views();
            let ghost p = without_gone(before.take(k), goal);
            proof {
                assert(now[i as int] == before.skip(k)[0]);
                assert(before.skip(k)[0] == before[k]);
                assert(now[i as int] == self.groups@[i as int]@);
                assert(before.take(k + 1).drop_last() =~= before.take(k));
                assert(before.take(k + 1).last() == before[k]);
            }
            if is_wanted_output(desired, self.groups[i].output_name.as_str()) {
                i += 1;
                assert(now =~= p.groups.push(before[k]) + before.skip(k + 1));
            } else {
                changed = true;
                let gone: TrackedGroup = self.groups.remove(i);
                assert(self.views() =~= now.remove(i as int));
                assert(self.views() =~= p.groups + before.skip(k + 1));
                tell_removals(events, gone.output_name.as_str(), &gone.workspaces);
                tell_all(events, gone.output_name.as_str(), &gone.instances, News::GroupRemoved);
                assert(event_views(events@) =~= without_gone(before.take(k + 1), goal).events);
            }
            proof {
                k = k + 1;
            }
        }
        proof {
            assert(k == before.len());
            assert(before.take(k) =~= before);
            assert(self.views() =~= without_gone(before, goal).groups);
        }
        changed
    }

    /// Brings clients up to date with the outputs and workspaces there are, and
    /// tells every manager that this was all, if there was anything. Objects can be
    /// made for the clients in `live`.
    pub fn refresh(&mut self, desired: &Vec<(String, Vec<(u32, bool)>)>, live: &Vec<u64>) -> (r:
        Refreshed)
        ensures
            ({
                let p = refreshed(
                    old(self).views(),
                    desired_views(desired@),
                    old(self).managers@.map_values(made_by(old(self).next_made)),
                    live@,
                );
                &&& final(self).views() == p.groups
                &&& event_views(r.events@) == p.events
                &&& r.done@ == if p.changed {
                    old(self).managers@
                } else {
                    Seq::empty()
                }
            }),
            final(self).managers == old(self).managers,
            final(self).next_made == later_call(old(self).next_made),
    {
        let ghost before = self.views();
        let ghost goal = desired_views(desired@);
        let stamped: Vec<Instance> = stamp_all(&self.managers, self.next_made);
        let ghost managers = stamped@;
        let mut events: Vec<WorkspaceEvent> = Vec::new();
        let mut changed: bool = self.drop_gone(&mut events, desired);
        let ghost first = without_gone(before, goal);

        let mut j: usize = 0;
        assert(goal.take(0) =~= Seq::<(Seq<char>, Wanted)>::empty());
        while j < desired.len()
            invariant
                j <= desired@.len(),
                goal == desired_views(desired@),
                self.managers == old(self).managers,
                self.next_made == old(self).next_made,
                managers == stamped@,
                ({
                    let p = with_new(first, goal.take(j as int), managers, live@);
                    &&& self.views() == p.groups
                    &&& event_views(events@) == p.events
                    &&& changed == p.changed
                }),
            decreases desired@.len() - j,
        {
            assert(goal.take(j + 1).drop_last() =~= goal.take(j as int));
            assert(goal.take(j + 1).last() == goal[j as int]);
            let ghost now = self.views();
            if find_group(&self.groups, desired[j].0.as_str()) == self.groups.len() {
                changed = true;
                let instances: Vec<Instance> = reachable_managers(&stamped, live);
                tell_all(&mut events, desired[j].0.as_str(), &instances, News::GroupCreated);
                let fresh: TrackedGroup = TrackedGroup {
                    output_name: desired[j].0.clone(),
                    instances,
                    workspaces: Vec::new(),
                };
                let ghost view = fresh@;
                assert(view.workspaces =~= Seq::<WorkspaceView>::empty());
                self.groups.push(fresh);
                assert(self.views() =~= now.push(view));
            }
            j += 1;
        }
        let ghost second = with_new(first, goal, managers, live@);
        assert(goal.take(goal.len() as int) =~= goal);

        let mut j: usize = 0;
        while j < desired.len()
            invariant
                j <= desired@.len(),
                goal == desired_views(desired@),
                self.managers == old(self).managers,
                self.next_made == old(self).next_made,
                managers == stamped@,
                ({
                    let p = with_updates(second, goal.take(j as int), managers, live@);
                    &&& self.views() == p.groups
                    &&& event_views(events@) == p.events
                    &&& changed == p.changed
                }),
            decreases desired@.len() - j,
        {
            assert(goal.take(j + 1).drop_last() =~= goal.take(j as int));
            assert(goal.take(j + 1).last() == goal[j as int]);
            let at: usize = find_group(&self.groups, desired[j].0.as_str());
            let ghost now = self.views();
            if at < self.groups.len() {
                assert(now[at as int] == self.groups@[at as int]@);
                let more: bool = update_group(
                    &mut self.groups[at],
                    &mut events,
                    &desired[j].1,
                    &stamped,
                    live,
                );
                changed = changed || more;
                assert(self.views() =~= now.update(at as int, self.groups@[at as int]@));
            }
            j += 1;
        }
        let done: Vec<Instance> = if changed {
            copied(&self.managers)
        } else {
            Vec::new()
        };
        let ghost reached = self.views();
        self.next_made = next_call(self.next_made);
        assert(self.views() =~= reached);
        Refreshed { events, done }
    }
}

/// What a new client is told of one group's workspaces.
pub open spec fn introductions(name: Seq<char>, workspaces: Seq<WorkspaceView>, to: Instance) -> Seq<
    EventView,
> {
    workspaces.map_values(
        |w: WorkspaceView|
            (
                name,
                Step::WorkspaceCreated {
                    announced_on: to.manager,
                    to,
                    number: w.number,
                    active: w.active,
                },
            ),
    )
}

/// What a new client is told of all groups.
pub open spec fn replay(groups: Seq<GroupView>, to: Instance) -> Seq<EventView>
    decreases groups.len(),
{
    if groups.len() == 0 {
        Seq::empty()
    } else {
        let g = groups.last();
        replay(groups.drop_last(), to).push((g.name, Step::GroupCreated { to })) + introductions(
            g.name,
            g.workspaces,
            to,
        )
    }
}

/// The workspace with one client more.
pub open spec fn joined_workspace(to: Instance) -> spec_fn(WorkspaceView) -> WorkspaceView {
    |w: WorkspaceView| WorkspaceView { instances: w.instances.push(to), ..w }
}

/// The group with one client more.
pub open spec fn joined_group(to: Instance) -> spec_fn(GroupView) -> GroupView {
    |g: GroupView|
        GroupView {
            name: g.name,
            instances: g.instances.push(to),
            workspaces: g.workspaces.map_values(joined_workspace(to)),
        }
}

fn join_group(group: &mut TrackedGroup, events: &mut Vec<WorkspaceEvent>, to: Instance)
    ensures
        final(group)@ == joined_group(to)(old(group)@),
        event_views(final(events)@) == event_views(old(events)@).push(
            (old(group)@.name, Step::GroupCreated { to }),
        ) + introductions(old(group)@.name, old(group)@.workspaces, to),
{
    let ghost before = group@;
    let ghost goal = before.workspaces.map_values(joined_workspace(to));
    let ghost told = introductions(before.name, before.workspaces, to);
    emit(events, group.output_name.as_str(), Step::GroupCreated { to });
    let ghost start = event_views(events@);
    let mut i: usize = 0;
    assert(start + told.take(0) =~= start);
    while i < group.workspaces.len()
        invariant
            i <= group.workspaces@.len(),
            group.workspaces@.len() == before.workspaces.len(),
            group.output_name@ == before.name,
            group.instances@ == before.instances,
            goal == before.workspaces.map_values(joined_workspace(to)),
            told == introductions(before.name, before.workspaces, to),
            event_views(events@) == start + told.take(i as int),
            forall|j: int| 0 <= j < i ==> group@.workspaces[j] == #[trigger] goal[j],
            forall|j: int| i <= j < before.workspaces.len() ==> group@.workspaces[j]
                == #[trigger] before.workspaces[j],
        decreases group.workspaces@.len() - i,
    {
        let ghost now = group@.workspaces;
        let ghost sofar = event_views(events@);
        assert(before.workspaces[i as int] == group.workspaces@[i as int]@);
        let number: u32 = group.workspaces[i].number;
        let active: bool = group.workspaces[i].active;
        let step: Step = Step::WorkspaceCreated { announced_on: to.manager, to, number, active };
        emit(events, group.output_name.as_str(), step);
        group.workspaces[i].instances.push(to);
        assert(group.workspaces@[i as int]@ == goal[i as int]);
        assert(forall|j: int|
            0 <= j < before.workspaces.len() && j != i ==> group@.workspaces[j] == now[j]);
        assert(told[i as int] == (before.name, step));
        assert(told.take(i + 1) =~= told.take(i as int).push((before.name, step)));
        i += 1;
        assert(event_views(events@) =~= start + told.take(i as int));
    }
    group.instances.push(to);
    assert(told.take(told.len() as int) =~= told);
    assert(group@.workspaces =~= goal);
}

/// It is another object.
pub open spec fn instance_not(to: Instance) -> spec_fn(Instance) -> bool {
    |i: Instance| i != to
}

/// It is an object of another manager.
pub open spec fn manager_not(manager: u64) -> spec_fn(Instance) -> bool {
    |i: Instance| i.manager != manager
}

fn drop_instance(list: &Vec<Instance>, to: Instance) -> (r: Vec<Instance>)
    ensures
        r@ == list@.filter(instance_not(to)),
{
    let mut out: Vec<Instance> = Vec::new();
    let mut i: usize = 0;
    proof {
        lemma_filter_ends(list@, instance_not(to));
    }
    while i < list.len()
        invariant
            i <= list@.len(),
            out@ == list@.take(i as int).filter(instance_not(to)),
        decreases list@.len() - i,
    {
        proof {
            lemma_filter_step(list@, i as int, instance_not(to));
        }
        if list[i] != to {
            out.push(list[i]);
        }
        i += 1;
    }
    proof {
        lemma_filter_ends(list@, instance_not(to));
    }
    out
}

/// What all outputs are to have, given the workspaces each of them advertises.
pub open spec fn desired_of(layouts: Layouts, outputs: Seq<(String, Vec<u32>)>) -> Seq<
    (Seq<char>, Wanted),
> {
    outputs.map_values(
        |o: (String, Vec<u32>)|
            (o.0@, o.1@.map_values(|n: u32| (n, n == layouts.shown(o.0@)))),
    )
}

/// What all outputs are to have, given the workspaces each of them advertises.
pub fn desired_workspaces(layouts: &Layouts, outputs: &Vec<(String, Vec<u32>)>) -> (r: Vec<
    (String, Vec<(u32, bool)>),
>)
    requires
        layouts.wf(),
    ensures
        desired_views(r@) == desired_of(*layouts, outputs@),
{
    let mut out: Vec<(String, Vec<(u32, bool)>)> = Vec::new();
    let ghost goal = desired_of(*layouts, outputs@);
    let mut i: usize = 0;
    assert(desired_views(out@) =~= goal.take(0));
    while i < outputs.len()
        invariant
            layouts.wf(),
            i <= outputs@.len(),
            goal == desired_of(*layouts, outputs@),
            desired_views(out@) == goal.take(i as int),
        decreases outputs@.len() - i,
    {
        let active: u32 = layouts.active_workspace(outputs[i].0.as_str());
        let numbers: &Vec<u32> = &outputs[i].1;
        let mut wanted: Vec<(u32, bool)> = Vec::new();
        let ghost all = goal[i as int].1;
        let mut j: usize = 0;
        assert(wanted@ =~= all.take(0));
        while j < numbers.len()
            invariant
                j <= numbers@.len(),
                numbers@ == outputs@[i as int].1@,
                all == numbers@.map_values(|n: u32| (n, n == active)),
                wanted@ == all.take(j as int),
            decreases numbers@.len() - j,
        {
            wanted.push((numbers[j], numbers[j] == active));
            assert(all.take(j + 1) =~= all.take(j as int).push(all[j as int]));
            j += 1;
        }
        assert(all.take(all.len() as int) =~= all);
        let ghost before = out@;
        out.push((outputs[i].0.clone(), wanted));
        assert(desired_views(out@) =~= desired_views(before).push(goal[i as int]));
        i += 1;
        assert(goal.take(i as int) =~= goal.take(i - 1).push(goal[i - 1]));
    }
    assert(goal.take(goal.len() as int) =~= goal);
    out
}

impl ExtWorkspaceState {
    /// A client wants to know of workspaces from now on. It is told of all there are,
    /// as far as objects can be made for it, and then that this was all.
    pub fn bind(&mut self, client: u64, manager: u64, live: bool) -> (r: Vec<WorkspaceEvent>)
        ensures
            ({
                let to = Instance { client, manager, made: old(self).next_made };
                &&& final(self).managers@ == old(self).managers@.push(to)
                &&& if live {
                    &&& final(self).views() == old(self).views().map_values(joined_group(to))
                    &&& event_views(r@) == replay(old(self).views(), to)
                } else {
                    final(self).views() == old(self).views() && r@.len() == 0
                }
            }),
            final(self).next_made == later_call(old(self).next_made),
    {
        let ghost before = self.views();
        let to: Instance = Instance { client, manager, made: self.next_made };
        self.next_made = next_call(self.next_made);
        let mut events: Vec<WorkspaceEvent> = Vec::new();
        if !live {
            self.managers.push(to);
            assert(self.views() =~= before);
            return events;
        }
        let ghost goal = before.map_values(joined_group(to));
        let ghost next = self.next_made;
        let mut i: usize = 0;
        assert(self.views() =~= before);
        assert(event_views(events@) =~= replay(before.take(0), to));
        while i < self.groups.len()
            invariant
                i <= self.groups@.len(),
                self.groups@.len() == before.len(),
                self.managers == old(self).managers,
                self.next_made == next,
                goal == before.map_values(joined_group(to)),
                event_views(events@) == replay(before.take(i as int), to),
                forall|j: int| 0 <= j < i ==> self.views()[j] == #[trigger] goal[j],
                forall|j: int| i <= j < before.len() ==> self.views()[j] == #[trigger] before[j],
            decreases self.groups@.len() - i,
        {
            let ghost now = self.views();
            assert(before[i as int] == self.groups@[i as int]@);
            assert(before.take(i + 1).drop_last() =~= before.take(i as int));
            assert(before.take(i + 1).last() == before[i as int]);
            join_group(&mut self.groups[i], &mut events, to);
            assert(self.groups@[i as int]@ == goal[i as int]);
            assert(forall|j: int| 0 <= j < before.len() && j != i ==> self.views()[j] == now[j]);
            i += 1;
        }
        self.managers.push(to);
        assert(before.take(before.len() as int) =~= before);
        assert(self.views() =~= goal);
        events
    }

    /// A client no longer wants to know.
    pub fn manager_gone(&mut self, manager: u64)
        ensures
            final(self).managers@ == old(self).managers@.filter(manager_not(manager)),
            final(self).views() == old(self).views(),
            final(self).next_made == old(self).next_made,
    {
        let ghost before = self.views();
        let mut out: Vec<Instance> = Vec::new();
        let mut i: usize = 0;
        proof {
            lemma_filter_ends(self.managers@, manager_not(manager));
        }
        while i < self.managers.len()
            invariant
                i <= self.managers@.len(),
                out@ == self.managers@.take(i as int).filter(manager_not(manager)),
            decreases self.managers@.len() - i,
        {
            proof {
                lemma_filter_step(self.managers@, i as int, manager_not(manager));
            }
            if self.managers[i].manager != manager {
                out.push(self.managers[i]);
            }
            i += 1;
        }
        proof {
            lemma_filter_ends(self.managers@, manager_not(manager));
        }
        self.managers = out;
        assert(self.views() =~= before);
    }

    /// A client's object for an output's group is gone; one that was made for the same
    /// client later stays.
    pub fn group_gone(&mut self, output: &str, to: Instance)
        ensures
            final(self).managers == old(self).managers,
            final(self).next_made == old(self).next_made,
            ({
                let i = group_at(old(self).views(), output@);
                if i < old(self).views().len() {
                    let g = old(self).views()[i];
                    final(self).views() == old(self).views().update(
                        i,
                        GroupView { instances: g.instances.filter(instance_not(to)), ..g },
                    )
                } else {
                    final(self).views() == old(self).views()
                }
            }),
    {
        let ghost before = self.views();
        let at: usize = find_group(&self.groups, output);
        if at < self.groups.len() {
            let kept: Vec<Instance> = drop_instance(&self.groups[at].instances, to);
            self.groups[at].instances = kept;
            assert(self.groups@[at as int]@ == (GroupView {
                instances: kept@,
                ..before[at as int]
            }));
            assert(self.views() =~= before.update(at as int, self.groups@[at as int]@));
        }
    }

    /// A client's object for a workspace is gone; one that was made for the same client
    /// later stays.
    pub fn workspace_gone(&mut self, output: &str, number: u32, to: Instance)
        ensures
            final(self).managers == old(self).managers,
            final(self).next_made == old(self).next_made,
            ({
                let i = group_at(old(self).views(), output@);
                let k = workspace_at(old(self).views()[i].workspaces, number);
                if i < old(self).views().len() && k < old(self).views()[i].workspaces.len() {
                    let g = old(self).views()[i];
                    let w = g.workspaces[k];
                    final(self).views() == old(self).views().update(
                        i,
                        GroupView {
                            workspaces: g.workspaces.update(
                                k,
                                WorkspaceView {
                                    instances: w.instances.filter(instance_not(to)),
                                    ..w
                                },
                            ),
                            ..g
                        },
                    )
                } else {
                    final(self).views() == old(self).views()
                }
            }),
    {
        let ghost before = self.views();
        let at: usize = find_group(&self.groups, output);
        if at < self.groups.len() {
            let ghost g = self.groups@[at as int]@;
            assert(before[at as int] == g);
            let k: usize = find_workspace(&self.groups[at].workspaces, number);
            if k < self.groups[at].workspaces.len() {
                assert(g.workspaces[k as int] == self.groups@[at as int].workspaces@[k as int]@);
                let kept: Vec<Instance> = drop_instance(
                    &self.groups[at].workspaces[k].instances,
                    to,
                );
                self.groups[at].workspaces[k].instances = kept;
                let ghost after = self.groups@[at as int];
                assert(after@.workspaces =~= g.workspaces.update(
                    k as int,
                    WorkspaceView { instances: kept@, ..g.workspaces[k as int] },
                ));
                assert(self.views() =~= before.update(at as int, after@));
            }
        }
    }
}

} // verus!
