//! What the control socket tells of the desktop.

use vstd::prelude::*;
use vstd::string::*;

use crate::assoc::Assoc;
use crate::bsp::root_windows;
use crate::desk::FloatingTag;
use crate::ipc::{is_one_line, json_line, line_of, EventKind};
use crate::json::{
    bool_value, json_list, json_of, list_value, null_value, optional_number, optional_number_value,
    optional_text, optional_text_value, signed_value, text_value, unsigned_value, JsonView,
    ObjectBuilder,
};
use crate::layouts::{key_views, WorkspaceKey};
use crate::output_configuration::Transform;
use crate::toplevels::Toplevels;

verus! {

/// A window that is seen, and what it calls itself.
pub struct WindowFacts {
    pub surface: u64,
    pub app_id: Option<String>,
    pub title: Option<String>,
}

/// What is known of the desktop beside its windows.
pub struct IpcFacts {
    /// The windows that are seen.
    pub windows: Vec<WindowFacts>,
    /// The names of the outputs in use.
    pub outputs: Vec<String>,
    /// The names of all outputs that windows belong to.
    pub names: Assoc<u64, String>,
    pub focused: Option<u64>,
    /// The names of the workspaces that are put away.
    pub scratchpads: Assoc<u64, String>,
    pub active_submap: Option<String>,
}

/// A text, if it is there.
pub open spec fn text_of(text: Option<String>) -> Option<Seq<char>> {
    match text {
        Some(t) => Some(t@),
        None => None,
    }
}

impl IpcFacts {
    /// The outputs of all floating windows are known by name.
    pub open spec fn wf(&self, top: Toplevels) -> bool {
        &&& self.names.wf()
        &&& self.scratchpads.wf()
        &&& forall|s: u64| #[trigger]
            top.desk.modes.floating_workspace@.contains_key(s) ==> self.names@.contains_key(
                top.desk.modes.floating_workspace@[s].output,
            )
    }

    /// The name of an output.
    pub open spec fn named(&self, output: u64) -> Option<Seq<char>> {
        if self.names@.contains_key(output) {
            Some(self.names@[output]@)
        } else {
            None
        }
    }

    /// The name of a workspace that is put away.
    pub open spec fn scratchpad(&self, workspace: Option<u32>) -> Option<Seq<char>> {
        match workspace {
            Some(w) => if self.scratchpads@.contains_key(w as u64) {
                Some(self.scratchpads@[w as u64]@)
            } else {
                None
            },
            None => None,
        }
    }

    fn scratchpad_name(&self, workspace: Option<u32>) -> (r: Option<&String>)
        requires
            self.scratchpads.wf(),
        ensures
            match r {
                Some(name) => self.scratchpad(workspace) == Some(name@),
                None => self.scratchpad(workspace) is None,
            },
    {
        match workspace {
            Some(w) => self.scratchpads.get(&(w as u64)),
            None => None,
        }
    }
}

/// The output that a window is listed under: where it is tiled, where it floats, or
/// where it is seen.
pub open spec fn window_output(top: Toplevels, facts: IpcFacts, s: u64) -> Option<Seq<char>> {
    let home = top.desk.facts.layouts.home(s);
    let floating = top.desk.modes@.floating;
    if home is Some {
        Some((home->0).0)
    } else if floating.contains_key(s) {
        facts.named(floating[s].output)
    } else if top.desk.facts.visible@.contains_key(s) && top.desk.facts.visible@[s].output is Some {
        facts.named(top.desk.facts.visible@[s].output->0)
    } else {
        None
    }
}

/// The workspace that a window is listed under.
pub open spec fn window_workspace(top: Toplevels, s: u64) -> Option<u32> {
    let floating = top.desk.modes@.floating;
    if floating.contains_key(s) {
        Some(floating[s].workspace)
    } else {
        match top.desk.facts.layouts.home(s) {
            Some(k) => Some(k.1),
            None => None,
        }
    }
}

/// A number that is there or not.
pub open spec fn number_of(n: Option<u64>) -> Option<int> {
    match n {
        Some(n) => Some(n as int),
        None => None,
    }
}

/// The members of a window's entry.
pub open spec fn window_members(top: Toplevels, facts: IpcFacts, w: WindowFacts) -> Map<
    Seq<char>,
    JsonView,
> {
    let s = w.surface;
    let modes = top.desk.modes@;
    let workspace = window_workspace(top, s);
    let fullscreen = modes.fullscreen.contains_key(s);
    let members = map![
        "window_id"@ => optional_number(number_of(crate::desk::lookup(top.numeric_ids@, s))),
        "title"@ => optional_text(text_of(w.title)),
        "app_id"@ => optional_text(text_of(w.app_id)),
        "output"@ => optional_text(window_output(top, facts, s)),
        "workspace"@ => optional_number(
            match workspace {
                Some(n) => Some(n as int),
                None => None,
            },
        ),
        "floating"@ => JsonView::Bool(modes.floating.contains_key(s)),
        "pinned"@ => JsonView::Bool(modes.pinned.contains_key(s)),
        "pseudo_tiled"@ => JsonView::Bool(top.pseudo_tiled@.contains_key(s)),
        "fullscreen"@ => JsonView::Bool(fullscreen),
        "urgent"@ => JsonView::Bool(top.urgent@.contains_key(s)),
        "maximized"@ => JsonView::Bool(modes.maximized.contains_key(s) && !fullscreen),
        "focused"@ => JsonView::Bool(facts.focused == Some(s)),
    ];
    match facts.scratchpad(workspace) {
        Some(name) => members.insert("scratchpad"@, JsonView::Text(name)),
        None => members,
    }
}

fn window_object(top: &Toplevels, facts: &IpcFacts, w: &WindowFacts) -> (r: ObjectBuilder)
    requires
        top.wf(),
        facts.wf(*top),
    ensures
        r.says() == window_members(*top, *facts, *w),
{
    let s: u64 = w.surface;
    let tag: Option<FloatingTag> = match top.desk.modes.floating_workspace.get(&s) {
        Some(tag) => Some(*tag),
        None => None,
    };
    let mut output: Option<String> = top.desk.facts.layouts.output_of(s);
    if output.is_none() {
        let id: Option<u64> = match tag {
            Some(tag) => Some(tag.output),
            None => match top.desk.facts.visible.get(&s) {
                Some(v) => v.output,
                None => None,
            },
        };
        output = match id {
            Some(id) => match facts.names.get(&id) {
                Some(name) => Some(name.clone()),
                None => None,
            },
            None => None,
        };
    }
    let workspace: Option<u32> = match tag {
        Some(tag) => Some(tag.workspace),
        None => top.desk.facts.layouts.workspace_of(s),
    };
    let fullscreen: bool = top.desk.modes.fullscreen.contains(&s);
    let id: Option<u64> = match top.numeric_ids.get(&s) {
        Some(id) => Some(*id),
        None => None,
    };
    let mut entry: ObjectBuilder = ObjectBuilder::new();
    entry.put("window_id", optional_number_value(id));
    entry.put("title", optional_text_value(&w.title));
    entry.put("app_id", optional_text_value(&w.app_id));
    entry.put("output", optional_text_value(&output));
    entry.put(
        "workspace",
        optional_number_value(
            match workspace {
                Some(n) => Some(n as u64),
                None => None,
            },
        ),
    );
    entry.put("floating", bool_value(tag.is_some()));
    entry.put("pinned", bool_value(top.desk.modes.pinned.contains(&s)));
    entry.put("pseudo_tiled", bool_value(top.pseudo_tiled.contains(&s)));
    entry.put("fullscreen", bool_value(fullscreen));
    entry.put("urgent", bool_value(top.urgent.contains(&s)));
    entry.put("maximized", bool_value(top.desk.modes.maximized.contains(&s) && !fullscreen));
    let focused: bool = match facts.focused {
        Some(f) => f == s,
        None => false,
    };
    entry.put("focused", bool_value(focused));
    if let Some(name) = facts.scratchpad_name(workspace) {
        entry.put("scratchpad", text_value(name.as_str()));
    }
    entry
}

/// The entry of a window.
pub fn window_json(top: &Toplevels, facts: &IpcFacts, w: &WindowFacts) -> (r: serde_json::Value)
    requires
        top.wf(),
        facts.wf(*top),
    ensures
        json_of(r) == JsonView::Object(window_members(*top, *facts, *w)),
{
    window_object(top, facts, w).finish()
}

/// The entries of all windows that are seen.
pub open spec fn windows_view(top: Toplevels, facts: IpcFacts) -> Seq<JsonView> {
    facts.windows@.map_values(
        |w: WindowFacts| JsonView::Object(window_members(top, facts, w)),
    )
}

/// The entries of all windows that are seen.
pub fn windows_json(top: &Toplevels, facts: &IpcFacts) -> (r: serde_json::Value)
    requires
        top.wf(),
        facts.wf(*top),
    ensures
        json_of(r) == JsonView::List(windows_view(*top, *facts)),
{
    let mut values: Vec<serde_json::Value> = Vec::new();
    let ghost goal = windows_view(*top, *facts);
    let mut i: usize = 0;
    while i < facts.windows.len()
        invariant
            top.wf(),
            facts.wf(*top),
            i <= facts.windows@.len(),
            goal == windows_view(*top, *facts),
            json_list(values@) == goal.take(i as int),
        decreases facts.windows@.len() - i,
    {
        let ghost before = values@;
        let value: serde_json::Value = window_json(top, facts, &facts.windows[i]);
        let ghost said = json_of(value);
        values.push(value);
        assert(json_list(values@) =~= json_list(before).push(said));
        assert(goal.take(i + 1) =~= goal.take(i as int).push(goal[i as int]));
        i += 1;
    }
    assert(goal.take(goal.len() as int) =~= goal);
    list_value(values)
}

/// The index of the window that shows a surface, and the number of windows where none
/// does.
pub open spec fn window_at(windows: Seq<WindowFacts>, s: u64) -> int
    decreases windows.len(),
{
    if windows.len() == 0 || windows[0].surface == s {
        0
    } else {
        1 + window_at(windows.skip(1), s)
    }
}

fn find_window(windows: &Vec<WindowFacts>, s: u64) -> (r: Option<usize>)
    ensures
        match r {
            Some(i) => i < windows@.len() && i == window_at(windows@, s),
            None => window_at(windows@, s) >= windows@.len(),
        },
{
    let mut i: usize = 0;
    assert(windows@.skip(0) =~= windows@);
    while i < windows.len()
        invariant
            i <= windows@.len(),
            window_at(windows@, s) == i + window_at(windows@.skip(i as int), s),
        decreases windows@.len() - i,
    {
        assert(windows@.skip(i as int)[0] == windows@[i as int]);
        assert(windows@.skip(i as int).skip(1) =~= windows@.skip(i + 1));
        if windows[i].surface == s {
            return Some(i);
        }
        i += 1;
    }
    None
}

/// The members of the entry of the window that shows a surface, if it is seen.
pub open spec fn snapshot(top: Toplevels, facts: IpcFacts, s: u64) -> Option<
    Map<Seq<char>, JsonView>,
> {
    let i = window_at(facts.windows@, s);
    if i < facts.windows@.len() {
        Some(window_members(top, facts, facts.windows@[i]))
    } else {
        None
    }
}

fn snapshot_window(top: &Toplevels, facts: &IpcFacts, s: u64) -> (r: Option<ObjectBuilder>)
    requires
        top.wf(),
        facts.wf(*top),
    ensures
        match r {
            Some(entry) => snapshot(*top, *facts, s) == Some(entry.says()),
            None => snapshot(*top, *facts, s) is None,
        },
{
    match find_window(&facts.windows, s) {
        Some(i) => Some(window_object(top, facts, &facts.windows[i])),
        None => None,
    }
}

/// An entry, or nothing.
pub open spec fn entry_or_null(entry: Option<Map<Seq<char>, JsonView>>) -> JsonView {
    match entry {
        Some(members) => JsonView::Object(members),
        None => JsonView::Null,
    }
}

fn snapshot_value(top: &Toplevels, facts: &IpcFacts, s: u64) -> (r: serde_json::Value)
    requires
        top.wf(),
        facts.wf(*top),
    ensures
        json_of(r) == entry_or_null(snapshot(*top, *facts, s)),
{
    match snapshot_window(top, facts, s) {
        Some(entry) => entry.finish(),
        None => null_value(),
    }
}

/// The entry of the window that has the focus, or nothing.
pub open spec fn focused_view(top: Toplevels, facts: IpcFacts) -> JsonView {
    match facts.focused {
        Some(s) => entry_or_null(snapshot(top, facts, s)),
        None => JsonView::Null,
    }
}

/// The entry of the window that has the focus, or nothing.
pub fn focused_window_json(top: &Toplevels, facts: &IpcFacts) -> (r: serde_json::Value)
    requires
        top.wf(),
        facts.wf(*top),
    ensures
        json_of(r) == focused_view(*top, *facts),
{
    match facts.focused {
        Some(s) => snapshot_value(top, facts, s),
        None => null_value(),
    }
}

/// An output that is in use.
pub struct OutputFacts {
    pub name: String,
    pub position: (i32, i32),
    /// Width, height and refresh rate.
    pub mode: Option<(i32, i32, i32)>,
    /// How much larger things are drawn on it, as a document.
    pub scale: serde_json::Value,
    pub transform: Transform,
}

/// What a transformation is called.
pub open spec fn transform_name(transform: Transform) -> Seq<char> {
    match transform {
        Transform::Normal => "Normal"@,
        Transform::Rotated90 => "_90"@,
        Transform::Rotated180 => "_180"@,
        Transform::Rotated270 => "_270"@,
        Transform::Flipped => "Flipped"@,
        Transform::Flipped90 => "Flipped90"@,
        Transform::Flipped180 => "Flipped180"@,
        Transform::Flipped270 => "Flipped270"@,
    }
}

fn transform_text(transform: Transform) -> (r: &'static str)
    ensures
        r@ == transform_name(transform),
{
    match transform {
        Transform::Normal => "Normal",
        Transform::Rotated90 => "_90",
        Transform::Rotated180 => "_180",
        Transform::Rotated270 => "_270",
        Transform::Flipped => "Flipped",
        Transform::Flipped90 => "Flipped90",
        Transform::Flipped180 => "Flipped180",
        Transform::Flipped270 => "Flipped270",
    }
}

/// Two whole numbers.
pub open spec fn pair_view(a: i32, b: i32) -> JsonView {
    JsonView::List(seq![JsonView::Number(a as int), JsonView::Number(b as int)])
}

fn pair_value(a: i32, b: i32) -> (r: serde_json::Value)
    ensures
        json_of(r) == pair_view(a, b),
{
    let mut values: Vec<serde_json::Value> = Vec::new();
    values.push(signed_value(a as i64));
    values.push(signed_value(b as i64));
    let r = list_value(values);
    assert(json_list(values@) =~= seq![JsonView::Number(a as int), JsonView::Number(b as int)]);
    r
}

/// The entry of an output.
pub open spec fn output_view(top: Toplevels, o: OutputFacts) -> JsonView {
    JsonView::Object(
        map![
            "name"@ => JsonView::Text(o.name@),
            "position"@ => pair_view(o.position.0, o.position.1),
            "size"@ => match o.mode {
                Some((w, h, _)) => pair_view(w, h),
                None => JsonView::Null,
            },
            "refresh_mhz"@ => match o.mode {
                Some((_, _, r)) => JsonView::Number(r as int),
                None => JsonView::Null,
            },
            "scale"@ => json_of(o.scale),
            "transform"@ => JsonView::Text(transform_name(o.transform)),
            "active_workspace"@ => JsonView::Number(
                top.desk.facts.layouts.shown(o.name@) as int,
            ),
        ],
    )
}

fn output_json(top: &Toplevels, o: OutputFacts) -> (r: serde_json::Value)
    requires
        top.wf(),
    ensures
        json_of(r) == output_view(*top, o),
{
    let mut entry: ObjectBuilder = ObjectBuilder::new();
    entry.put("name", text_value(o.name.as_str()));
    entry.put("position", pair_value(o.position.0, o.position.1));
    entry.put(
        "size",
        match o.mode {
            Some((w, h, _)) => pair_value(w, h),
            None => null_value(),
        },
    );
    entry.put(
        "refresh_mhz",
        match o.mode {
            Some((_, _, r)) => signed_value(r as i64),
            None => null_value(),
        },
    );
    let active: u32 = top.desk.facts.layouts.active_workspace(o.name.as_str());
    entry.put("scale", o.scale);
    entry.put("transform", text_value(transform_text(o.transform)));
    entry.put("active_workspace", unsigned_value(active as u64));
    entry.finish()
}

/// The entries of all outputs.
pub open spec fn outputs_view(top: Toplevels, outputs: Seq<OutputFacts>) -> Seq<JsonView> {
    outputs.map_values(|o: OutputFacts| output_view(top, o))
}

/// The entries of all outputs.
pub fn outputs_json(top: &Toplevels, outputs: Vec<OutputFacts>) -> (r: serde_json::Value)
    requires
        top.wf(),
    ensures
        json_of(r) == JsonView::List(outputs_view(*top, outputs@)),
{
    let ghost all = outputs@;
    let ghost goal = outputs_view(*top, all);
    let mut left: Vec<OutputFacts> = outputs;
    let mut values: Vec<serde_json::Value> = Vec::new();
    let ghost mut i: int = 0;
    assert(all.skip(0) =~= all);
    while left.len() > 0
        invariant
            top.wf(),
            0 <= i <= all.len(),
            left@ == all.skip(i),
            goal == outputs_view(*top, all),
            json_list(values@) == goal.take(i),
        decreases left@.len(),
    {
        let ghost before = values@;
        let o: OutputFacts = left.remove(0);
        assert(o == all[i]);
        assert(left@ =~= all.skip(i + 1));
        let value: serde_json::Value = output_json(top, o);
        let ghost said = json_of(value);
        values.push(value);
        assert(json_list(values@) =~= json_list(before).push(said));
        assert(goal.take(i + 1) =~= goal.take(i).push(goal[i]));
        proof {
            i = i + 1;
        }
    }
    assert(goal.take(goal.len() as int) =~= goal);
    list_value(values)
}

/// A workspace that is listed.
pub struct WorkspaceEntry {
    pub output: String,
    pub workspace: u32,
    pub active: bool,
    pub window_count: u64,
}

/// How many of the floating windows are on a workspace.
pub open spec fn floating_on(
    tags: Seq<(u64, FloatingTag)>,
    facts: IpcFacts,
    k: WorkspaceKey,
) -> nat
    decreases tags.len(),
{
    if tags.len() == 0 {
        0
    } else {
        let tag = tags.last().1;
        floating_on(tags.drop_last(), facts, k) + if facts.named(tag.output) == Some(k.0)
            && tag.workspace == k.1 {
            1nat
        } else {
            0
        }
    }
}

/// A workspace is listed where it has tiled windows, an output shows it, or a window
/// floats on it.
pub open spec fn is_listed(top: Toplevels, facts: IpcFacts, k: WorkspaceKey) -> bool {
    ||| root_windows(top.desk.facts.layouts.root_at(k)).len() > 0
    ||| exists|i: int|
        0 <= i < facts.outputs@.len() && (#[trigger] facts.outputs@[i])@ == k.0
            && top.desk.facts.layouts.shown(k.0) == k.1
    ||| exists|s: u64| #[trigger]
        top.desk.modes.floating_workspace@.contains_key(s) && facts.named(
            top.desk.modes.floating_workspace@[s].output,
        ) == Some(k.0) && top.desk.modes.floating_workspace@[s].workspace == k.1
}

/// What is listed of a workspace.
pub open spec fn is_entry(top: Toplevels, facts: IpcFacts, e: WorkspaceEntry) -> bool {
    let k = (e.output@, e.workspace);
    &&& e.active == (top.desk.facts.layouts.shown(k.0) == k.1)
    &&& e.window_count == root_windows(top.desk.facts.layouts.root_at(k)).len() + floating_on(
        top.desk.modes.floating_workspace.entries@,
        facts,
        k,
    )
}

/// The workspaces of entries.
pub open spec fn entry_keys(entries: Seq<WorkspaceEntry>) -> Seq<WorkspaceKey> {
    entries.map_values(|e: WorkspaceEntry| (e.output@, e.workspace))
}

fn count_floating(top: &Toplevels, facts: &IpcFacts, output: &String, workspace: u32) -> (r: u64)
    requires
        top.wf(),
        facts.wf(*top),
    ensures
        r == floating_on(
            top.desk.modes.floating_workspace.entries@,
            *facts,
            (output@, workspace),
        ),
        r <= top.desk.modes.floating_workspace.entries@.len(),
{
    let ghost tags = top.desk.modes.floating_workspace.entries@;
    let total: usize = top.desk.modes.floating_workspace.entries.len();
    let mut count: u64 = 0;
    let mut i: usize = 0;
    assert(tags.take(0) =~= Seq::<(u64, FloatingTag)>::empty());
    while i < total
        invariant
            facts.wf(*top),
            top.wf(),
            total == tags.len(),
            tags == top.desk.modes.floating_workspace.entries@,
            i <= total,
            count == floating_on(tags.take(i as int), *facts, (output@, workspace)),
            count <= i,
        decreases total - i,
    {
        assert(tags.take(i + 1).drop_last() =~= tags.take(i as int));
        assert(tags.take(i + 1).last() == tags[i as int]);
        let tag: FloatingTag = top.desk.modes.floating_workspace.entries[i].1;
        let here: bool = match facts.names.get(&tag.output) {
            Some(name) => *name == *output && tag.workspace == workspace,
            None => false,
        };
        if here {
            count = count + 1;
        }
        i += 1;
    }
    assert(tags.take(tags.len() as int) =~= tags);
    count
}

fn listed_keys(top: &Toplevels, facts: &IpcFacts) -> (r: Assoc<(String, u32), ()>)
    requires
        top.wf(),
        facts.wf(*top),
    ensures
        r.wf(),
        forall|k: WorkspaceKey| #[trigger] r@.contains_key(k) <==> is_listed(*top, *facts, k),
{
    let mut keys: Assoc<(String, u32), ()> = Assoc::new();
    let mut populated: Vec<(String, u32)> = top.desk.facts.layouts.populated_workspaces();
    let ghost first = key_views(populated@);
    let ghost mut n: int = first.len() as int;
    assert(first.take(n) =~= first);
    loop
        invariant_except_break
            keys.wf(),
            0 <= n <= first.len(),
            key_views(populated@) == first.take(n),
            forall|k: WorkspaceKey| #[trigger]
                keys@.contains_key(k) <==> first.skip(n).contains(k),
        ensures
            keys.wf(),
            forall|k: WorkspaceKey| #[trigger] keys@.contains_key(k) <==> first.contains(k),
        decreases populated@.len(),
    {
        match populated.pop() {
            Some(key) => {
                let ghost k = key@;
                assert(first.take(n).last() == k);
                assert(first[n - 1] == k);
                assert(key_views(populated@) =~= first.take(n - 1));
                keys.insert(key, ());
                proof {
                    assert forall|j: WorkspaceKey| #[trigger]
                        keys@.contains_key(j) <==> first.skip(n - 1).contains(j) by {
                        let old_rest = first.skip(n);
                        let rest = first.skip(n - 1);
                        assert(rest[0] == k);
                        if old_rest.contains(j) {
                            let i = choose|i: int| 0 <= i < old_rest.len() && old_rest[i] == j;
                            assert(rest[i + 1] == j);
                        }
                        if rest.contains(j) && j != k {
                            let i = choose|i: int| 0 <= i < rest.len() && rest[i] == j;
                            assert(old_rest[i - 1] == j);
                        }
                    }
                    n = n - 1;
                }
            },
            None => {
                assert(n == 0) by {
                    assert(key_views(populated@).len() == 0);
                }
                assert(first.skip(0) =~= first);
                break;
            },
        }
    }
    let ghost base = keys@;
    let mut i: usize = 0;
    while i < facts.outputs.len()
        invariant
            top.wf(),
            keys.wf(),
            i <= facts.outputs@.len(),
            forall|k: WorkspaceKey| #[trigger]
                keys@.contains_key(k) <==> base.contains_key(k) || exists|j: int|
                    0 <= j < i && (#[trigger] facts.outputs@[j])@ == k.0
                        && top.desk.facts.layouts.shown(k.0) == k.1,
        decreases facts.outputs@.len() - i,
    {
        let active: u32 = top.desk.facts.layouts.active_workspace(facts.outputs[i].as_str());
        let ghost before = keys@;
        keys.insert((facts.outputs[i].clone(), active), ());
        proof {
            let name = facts.outputs@[i as int]@;
            assert forall|k: WorkspaceKey| #[trigger]
                keys@.contains_key(k) <==> base.contains_key(k) || exists|j: int|
                    0 <= j < i + 1 && (#[trigger] facts.outputs@[j])@ == k.0
                        && top.desk.facts.layouts.shown(k.0) == k.1 by {
                if k == (name, active) {
                    assert(facts.outputs@[i as int]@ == k.0);
                }
                assert(before.contains_key(k) == (base.contains_key(k) || exists|j: int|
                    0 <= j < i && (#[trigger] facts.outputs@[j])@ == k.0
                        && top.desk.facts.layouts.shown(k.0) == k.1));
            }
        }
        i += 1;
    }
    let ghost second = keys@;
    let floating = &top.desk.modes.floating_workspace;
    let mut m: usize = 0;
    while m < floating.entries.len()
        invariant
            facts.wf(*top),
            floating.wf(),
            *floating == top.desk.modes.floating_workspace,
            keys.wf(),
            m <= floating.entries@.len(),
            forall|k: WorkspaceKey| #[trigger]
                keys@.contains_key(k) <==> second.contains_key(k) || exists|j: int|
                    0 <= j < m && facts.named((#[trigger] floating.entries@[j]).1.output)
                        == Some(k.0) && floating.entries@[j].1.workspace == k.1,
        decreases floating.entries@.len() - m,
    {
        let tag: FloatingTag = floating.entries[m].1;
        let ghost before = keys@;
        proof {
            floating.lemma_entry(m as int);
        }
        if let Some(name) = facts.names.get(&tag.output) {
            keys.insert((name.clone(), tag.workspace), ());
        }
        proof {
            assert forall|k: WorkspaceKey| #[trigger]
                keys@.contains_key(k) <==> second.contains_key(k) || exists|j: int|
                    0 <= j < m + 1 && facts.named((#[trigger] floating.entries@[j]).1.output)
                        == Some(k.0) && floating.entries@[j].1.workspace == k.1 by {
                assert(before.contains_key(k) == (second.contains_key(k) || exists|j: int|
                    0 <= j < m && facts.named((#[trigger] floating.entries@[j]).1.output)
                        == Some(k.0) && floating.entries@[j].1.workspace == k.1));
                assert(floating.entries@[m as int].1 == tag);
            }
        }
        m += 1;
    }
    proof {
        assert forall|k: WorkspaceKey| #[trigger] keys@.contains_key(k) <==> is_listed(
            *top,
            *facts,
            k,
        ) by {
            let tags = top.desk.modes.floating_workspace;
            if exists|j: int|
                0 <= j < tags.entries@.len() && facts.named((#[trigger] tags.entries@[j]).1.output)
                    == Some(k.0) && tags.entries@[j].1.workspace == k.1 {
                let j = choose|j: int|
                    0 <= j < tags.entries@.len() && facts.named(
                        (#[trigger] tags.entries@[j]).1.output,
                    ) == Some(k.0) && tags.entries@[j].1.workspace == k.1;
                tags.lemma_entry(j);
                assert(tags@.contains_key(tags.entries@[j].0@));
            }
            if exists|s: u64| #[trigger]
                tags@.contains_key(s) && facts.named(tags@[s].output) == Some(k.0)
                    && tags@[s].workspace == k.1 {
                let s = choose|s: u64| #[trigger]
                    tags@.contains_key(s) && facts.named(tags@[s].output) == Some(k.0)
                        && tags@[s].workspace == k.1;
                let j = tags.slot(s);
                tags.lemma_entry(j);
            }
            assert(first.contains(k) <==> root_windows(top.desk.facts.layouts.root_at(k)).len() > 0);
        }
    }
    keys
}

/// There are not more windows than can be counted.
pub open spec fn countable(top: Toplevels) -> bool {
    forall|k: WorkspaceKey|
        root_windows(#[trigger] top.desk.facts.layouts.root_at(k)).len()
            + top.desk.modes.floating_workspace.entries@.len() <= u64::MAX
}

/// The workspaces that are listed, each once, in no particular order.
pub fn workspace_entries(top: &Toplevels, facts: &IpcFacts) -> (r: Vec<WorkspaceEntry>)
    requires
        top.wf(),
        facts.wf(*top),
        countable(*top),
    ensures
        entry_keys(r@).no_duplicates(),
        forall|k: WorkspaceKey| #[trigger]
            entry_keys(r@).contains(k) <==> is_listed(*top, *facts, k),
        forall|i: int| 0 <= i < r@.len() ==> is_entry(*top, *facts, #[trigger] r@[i]),
{
    let keys: Assoc<(String, u32), ()> = listed_keys(top, facts);
    let names: Vec<(String, u32)> = keys.keys();
    let mut out: Vec<WorkspaceEntry> = Vec::new();
    let mut i: usize = 0;
    while i < names.len()
        invariant
            top.wf(),
            facts.wf(*top),
            countable(*top),
            i <= names@.len(),
            out@.len() == i,
            forall|j: int|
                0 <= j < i ==> entry_keys(out@)[j] == (#[trigger] names@[j])@,
            forall|j: int| 0 <= j < i ==> is_entry(*top, *facts, #[trigger] out@[j]),
        decreases names@.len() - i,
    {
        let output: String = names[i].0.clone();
        let workspace: u32 = names[i].1;
        let tiled: usize = top.desk.facts.layouts.windows_in(output.as_str(), workspace).len();
        let floating: u64 = count_floating(top, facts, &output, workspace);
        let active: bool = top.desk.facts.layouts.active_workspace(output.as_str()) == workspace;
        assert(root_windows(top.desk.facts.layouts.root_at((output@, workspace))).len() == tiled);
        let ghost before = out@;
        let entry: WorkspaceEntry = WorkspaceEntry {
            output,
            workspace,
            active,
            window_count: tiled as u64 + floating,
        };
        out.push(entry);
        assert(entry_keys(out@)[i as int] == names@[i as int]@);
        assert(forall|j: int| 0 <= j < i ==> entry_keys(out@)[j] == entry_keys(before)[j]);
        i += 1;
    }
    proof {
        let views = entry_keys(out@);
        assert forall|a: int, b: int|
            0 <= a < views.len() && 0 <= b < views.len() && a != b implies views[a] != views[b] by {
            assert(names@[a]@ != names@[b]@);
        }
        assert forall|k: WorkspaceKey| #[trigger] views.contains(k) <==> is_listed(
            *top,
            *facts,
            k,
        ) by {
            if views.contains(k) {
                let a = choose|a: int| 0 <= a < views.len() && views[a] == k;
                assert(keys@.contains_key(names@[a]@));
            }
            if is_listed(*top, *facts, k) {
                assert(keys@.contains_key(k));
                let a = choose|a: int| 0 <= a < names@.len() && (#[trigger] names@[a])@ == k;
                assert(views[a] == k);
            }
        }
    }
    out
}

/// The entry of a workspace.
pub open spec fn workspace_view(facts: IpcFacts, e: WorkspaceEntry) -> JsonView {
    let members = map![
        "output"@ => JsonView::Text(e.output@),
        "workspace"@ => JsonView::Number(e.workspace as int),
        "active"@ => JsonView::Bool(e.active),
        "window_count"@ => JsonView::Number(e.window_count as int),
    ];
    JsonView::Object(
        match facts.scratchpad(Some(e.workspace)) {
            Some(name) => members.insert("scratchpad"@, JsonView::Text(name)),
            None => members,
        },
    )
}

fn workspace_json(facts: &IpcFacts, e: &WorkspaceEntry) -> (r: serde_json::Value)
    requires
        facts.scratchpads.wf(),
    ensures
        json_of(r) == workspace_view(*facts, *e),
{
    let mut entry: ObjectBuilder = ObjectBuilder::new();
    entry.put("output", text_value(e.output.as_str()));
    entry.put("workspace", unsigned_value(e.workspace as u64));
    entry.put("active", bool_value(e.active));
    entry.put("window_count", unsigned_value(e.window_count));
    if let Some(name) = facts.scratchpad_name(Some(e.workspace)) {
        entry.put("scratchpad", text_value(name.as_str()));
    }
    entry.finish()
}

/// The entries of workspaces.
pub open spec fn workspaces_view(facts: IpcFacts, entries: Seq<WorkspaceEntry>) -> Seq<JsonView> {
    entries.map_values(|e: WorkspaceEntry| workspace_view(facts, e))
}

/// The entries of workspaces.
pub fn entries_json(facts: &IpcFacts, entries: &Vec<WorkspaceEntry>) -> (r: serde_json::Value)
    requires
        facts.scratchpads.wf(),
    ensures
        json_of(r) == JsonView::List(workspaces_view(*facts, entries@)),
{
    let mut values: Vec<serde_json::Value> = Vec::new();
    let ghost goal = workspaces_view(*facts, entries@);
    let mut i: usize = 0;
    while i < entries.len()
        invariant
            facts.scratchpads.wf(),
            i <= entries@.len(),
            goal == workspaces_view(*facts, entries@),
            json_list(values@) == goal.take(i as int),
        decreases entries@.len() - i,
    {
        let ghost before = values@;
        let value: serde_json::Value = workspace_json(facts, &entries[i]);
        let ghost said = json_of(value);
        values.push(value);
        assert(json_list(values@) =~= json_list(before).push(said));
        assert(goal.take(i + 1) =~= goal.take(i as int).push(goal[i as int]));
        i += 1;
    }
    assert(goal.take(goal.len() as int) =~= goal);
    list_value(values)
}

/// `json` lists exactly the workspaces that are listed, each once.
pub open spec fn lists_workspaces(top: Toplevels, facts: IpcFacts, json: JsonView) -> bool {
    exists|entries: Seq<WorkspaceEntry>|
        {
            &&& json == JsonView::List(#[trigger] workspaces_view(facts, entries))
            &&& entry_keys(entries).no_duplicates()
            &&& forall|k: WorkspaceKey| #[trigger]
                entry_keys(entries).contains(k) <==> is_listed(top, facts, k)
            &&& forall|i: int| 0 <= i < entries.len() ==> is_entry(top, facts, #[trigger] entries[i])
        }
}

/// The entries of all workspaces that are listed.
pub fn workspaces_json(top: &Toplevels, facts: &IpcFacts) -> (r: serde_json::Value)
    requires
        top.wf(),
        facts.wf(*top),
        countable(*top),
    ensures
        lists_workspaces(*top, *facts, json_of(r)),
{
    let entries: Vec<WorkspaceEntry> = workspace_entries(top, facts);
    let r = entries_json(facts, &entries);
    assert(json_of(r) == JsonView::List(workspaces_view(*facts, entries@)));
    r
}

/// Something that happened.
#[allow(inconsistent_fields)]
pub enum IpcEvent {
    WindowOpened { surface: u64 },
    /// The window is gone, and with it what could be told of it now.
    WindowClosed { window_id: Option<u64>, app_id: Option<String>, title: Option<String> },
    WindowChanged { surface: u64 },
    WorkspaceChanged { output: String, from: u32, to: u32 },
    FocusChanged { surface: Option<u64> },
    UrgentChanged { surface: u64, urgent: bool },
    DepthChanged { surface: u64, tier: u8 },
    ConfigReloaded,
}

/// What is told of a window that may be gone: its entry, or only its number.
pub open spec fn entry_or_id(top: Toplevels, facts: IpcFacts, s: u64) -> Map<Seq<char>, JsonView> {
    match snapshot(top, facts, s) {
        Some(members) => members,
        None => map![
            "window_id"@ => optional_number(number_of(crate::desk::lookup(top.numeric_ids@, s))),
        ],
    }
}

fn entry_or_id_object(top: &Toplevels, facts: &IpcFacts, s: u64) -> (r: ObjectBuilder)
    requires
        top.wf(),
        facts.wf(*top),
    ensures
        r.says() == entry_or_id(*top, *facts, s),
{
    match snapshot_window(top, facts, s) {
        Some(entry) => entry,
        None => {
            let id: Option<u64> = match top.numeric_ids.get(&s) {
                Some(id) => Some(*id),
                None => None,
            };
            let mut entry: ObjectBuilder = ObjectBuilder::new();
            entry.put("window_id", optional_number_value(id));
            entry
        },
    }
}

impl IpcEvent {
    /// The kind of events that it belongs to.
    pub open spec fn kind_of(&self) -> EventKind {
        match self {
            IpcEvent::WindowOpened { .. } => EventKind::Window,
            IpcEvent::WindowClosed { .. } => EventKind::Window,
            IpcEvent::WindowChanged { .. } => EventKind::Window,
            IpcEvent::WorkspaceChanged { .. } => EventKind::Workspace,
            IpcEvent::FocusChanged { .. } => EventKind::Focus,
            IpcEvent::UrgentChanged { .. } => EventKind::Urgent,
            IpcEvent::DepthChanged { .. } => EventKind::Depth,
            IpcEvent::ConfigReloaded => EventKind::Config,
        }
    }

    /// The kind of events that it belongs to.
    pub fn kind(&self) -> (r: EventKind)
        ensures
            r == self.kind_of(),
    {
        match self {
            IpcEvent::WindowOpened { .. } => EventKind::Window,
            IpcEvent::WindowClosed { .. } => EventKind::Window,
            IpcEvent::WindowChanged { .. } => EventKind::Window,
            IpcEvent::WorkspaceChanged { .. } => EventKind::Workspace,
            IpcEvent::FocusChanged { .. } => EventKind::Focus,
            IpcEvent::UrgentChanged { .. } => EventKind::Urgent,
            IpcEvent::DepthChanged { .. } => EventKind::Depth,
            IpcEvent::ConfigReloaded => EventKind::Config,
        }
    }

    /// What it is called.
    pub open spec fn called(&self) -> Seq<char> {
        match self {
            IpcEvent::WindowOpened { .. } => "window-opened"@,
            IpcEvent::WindowClosed { .. } => "window-closed"@,
            IpcEvent::WindowChanged { .. } => "window-changed"@,
            IpcEvent::WorkspaceChanged { .. } => "workspace-changed"@,
            IpcEvent::FocusChanged { .. } => "focus-changed"@,
            IpcEvent::UrgentChanged { .. } => "urgent-changed"@,
            IpcEvent::DepthChanged { .. } => "depth-changed"@,
            IpcEvent::ConfigReloaded => "config-reloaded"@,
        }
    }

    /// What it is called.
    pub fn event_name(&self) -> (r: &'static str)
        ensures
            r@ == self.called(),
    {
        match self {
            IpcEvent::WindowOpened { .. } => "window-opened",
            IpcEvent::WindowClosed { .. } => "window-closed",
            IpcEvent::WindowChanged { .. } => "window-changed",
            IpcEvent::WorkspaceChanged { .. } => "workspace-changed",
            IpcEvent::FocusChanged { .. } => "focus-changed",
            IpcEvent::UrgentChanged { .. } => "urgent-changed",
            IpcEvent::DepthChanged { .. } => "depth-changed",
            IpcEvent::ConfigReloaded => "config-reloaded",
        }
    }

    /// What is told of it.
    pub open spec fn data(&self, top: Toplevels, facts: IpcFacts) -> JsonView {
        match *self {
            IpcEvent::WindowOpened { surface } => entry_or_null(snapshot(top, facts, surface)),
            IpcEvent::WindowChanged { surface } => entry_or_null(snapshot(top, facts, surface)),
            IpcEvent::WindowClosed { window_id, app_id, title } => JsonView::Object(
                map![
                    "window_id"@ => optional_number(number_of(window_id)),
                    "app_id"@ => optional_text(text_of(app_id)),
                    "title"@ => optional_text(text_of(title)),
                ],
            ),
            IpcEvent::WorkspaceChanged { output, from, to } => JsonView::Object(
                map![
                    "output"@ => JsonView::Text(output@),
                    "from"@ => JsonView::Number(from as int),
                    "to"@ => JsonView::Number(to as int),
                ],
            ),
            IpcEvent::FocusChanged { surface } => match surface {
                Some(s) => entry_or_null(snapshot(top, facts, s)),
                None => JsonView::Null,
            },
            IpcEvent::UrgentChanged { surface, urgent } => JsonView::Object(
                entry_or_id(top, facts, surface).insert("urgent"@, JsonView::Bool(urgent)),
            ),
            IpcEvent::DepthChanged { surface, tier } => JsonView::Object(
                entry_or_id(top, facts, surface).insert("tier"@, JsonView::Number(tier as int)),
            ),
            IpcEvent::ConfigReloaded => JsonView::Null,
        }
    }

    fn data_value(&self, top: &Toplevels, facts: &IpcFacts) -> (r: serde_json::Value)
        requires
            top.wf(),
            facts.wf(*top),
        ensures
            json_of(r) == self.data(*top, *facts),
    {
        match self {
            IpcEvent::WindowOpened { surface } => snapshot_value(top, facts, *surface),
            IpcEvent::WindowChanged { surface } => snapshot_value(top, facts, *surface),
            IpcEvent::WindowClosed { window_id, app_id, title } => {
                let mut entry: ObjectBuilder = ObjectBuilder::new();
                entry.put("window_id", optional_number_value(*window_id));
                entry.put("app_id", optional_text_value(app_id));
                entry.put("title", optional_text_value(title));
                entry.finish()
            },
            IpcEvent::WorkspaceChanged { output, from, to } => {
                let mut entry: ObjectBuilder = ObjectBuilder::new();
                entry.put("output", text_value(output.as_str()));
                entry.put("from", unsigned_value(*from as u64));
                entry.put("to", unsigned_value(*to as u64));
                entry.finish()
            },
            IpcEvent::FocusChanged { surface } => match surface {
                Some(s) => snapshot_value(top, facts, *s),
                None => null_value(),
            },
            IpcEvent::UrgentChanged { surface, urgent } => {
                let mut entry: ObjectBuilder = entry_or_id_object(top, facts, *surface);
                entry.put("urgent", bool_value(*urgent));
                entry.finish()
            },
            IpcEvent::DepthChanged { surface, tier } => {
                let mut entry: ObjectBuilder = entry_or_id_object(top, facts, *surface);
                entry.put("tier", unsigned_value(*tier as u64));
                entry.finish()
            },
            IpcEvent::ConfigReloaded => null_value(),
        }
    }

    /// The line that subscribers are told.
    pub fn to_json_line(&self, top: &Toplevels, facts: &IpcFacts) -> (r: Vec<u8>)
        requires
            top.wf(),
            facts.wf(*top),
        ensures
            r@ == json_line(
                JsonView::Object(
                    map![
                        "event"@ => JsonView::Text(self.called()),
                        "data"@ => self.data(*top, *facts),
                    ],
                ),
            ),
            *self matches IpcEvent::WorkspaceChanged { output, from, to } ==> r@ == json_line(
                JsonView::Object(
                    map![
                        "event"@ => JsonView::Text("workspace-changed"@),
                        "data"@ => JsonView::Object(
                            map![
                                "output"@ => JsonView::Text(output@),
                                "from"@ => JsonView::Number(from as int),
                                "to"@ => JsonView::Number(to as int),
                            ],
                        ),
                    ],
                ),
            ),
            is_one_line(r@),
    {
        let mut line: ObjectBuilder = ObjectBuilder::new();
        line.put("event", text_value(self.event_name()));
        line.put("data", self.data_value(top, facts));
        line_of(&line.finish())
    }
}

/// No window is listed as both maximized and fullscreen.
pub proof fn law_listed_windows_have_one_mode(top: Toplevels, facts: IpcFacts, w: WindowFacts)
    ensures
        ({
            let members = window_members(top, facts, w);
            !(members["fullscreen"@] == JsonView::Bool(true) && members["maximized"@]
                == JsonView::Bool(true))
        }),
{
    reveal_strlit("window_id");
    reveal_strlit("title");
    reveal_strlit("app_id");
    reveal_strlit("output");
    reveal_strlit("workspace");
    reveal_strlit("floating");
    reveal_strlit("pinned");
    reveal_strlit("pseudo_tiled");
    reveal_strlit("fullscreen");
    reveal_strlit("urgent");
    reveal_strlit("maximized");
    reveal_strlit("focused");
    reveal_strlit("scratchpad");
    assert("fullscreen"@.len() == 10 && "urgent"@.len() == 6 && "maximized"@.len() == 9
        && "focused"@.len() == 7 && "scratchpad"@.len() == 10);
    assert("fullscreen"@[0] != "scratchpad"@[0]);
}

} // verus!
