//! The tiling trees of every workspace of every output.

use vstd::prelude::*;

use crate::assoc::{Assoc, Key};
use crate::bsp::{
    copy_path, hit_on, hit_views, ratio_on, relabeled, removed, resize_hits, root_holds,
    root_windows, substitute, swapped, with_gaps, with_ratio, BspLayout, Node, Side, SplitHit,
    SplitHitView, Window,
};
use crate::bsp_laws::law_remove_of_absent_is_nothing;
use crate::config::{LayoutAlgorithm, MasterOrientation, SplitBias};
use crate::geometry::{gap_fits, FinePoint, Rect};
use crate::master::layout_master;
use crate::ratio::Ratio;

verus! {

/// Names one workspace of one output.
pub type WorkspaceKey = (Seq<char>, u32);

/// One tree per workspace that has tiled windows, and what is set for each.
pub struct Layouts {
    pub trees: Assoc<(String, u32), BspLayout>,
    /// The workspace each output shows; the first one where none is named.
    pub active: Assoc<String, u32>,
    pub algorithms: Assoc<(String, u32), LayoutAlgorithm>,
    pub default_algorithm: LayoutAlgorithm,
    pub master_ratio: Assoc<(String, u32), Ratio>,
    pub master_orientation: MasterOrientation,
    pub split_bias: SplitBias,
    /// Changes whenever a path into a tree may lead elsewhere than before.
    pub topology_revision: u64,
}

/// The surface is tiled in one of the trees.
pub open spec fn tiled(trees: Map<WorkspaceKey, BspLayout>, surface: u64) -> bool {
    exists|k: WorkspaceKey| #[trigger] tiled_at(trees, k, surface)
}

/// The surface is tiled in the tree of `k`.
pub open spec fn tiled_at(trees: Map<WorkspaceKey, BspLayout>, k: WorkspaceKey, surface: u64) -> bool {
    trees.contains_key(k) && root_holds(trees[k].root, surface)
}

/// The index of the first tree that holds `surface`, and the number of trees where
/// none does.
pub open spec fn first_holding(entries: Seq<((String, u32), BspLayout)>, surface: u64) -> int
    decreases entries.len(),
{
    if entries.len() == 0 || root_holds(entries[0].1.root, surface) {
        0
    } else {
        1 + first_holding(entries.skip(1), surface)
    }
}

/// The trees without `surface`, and without those that it leaves empty.
pub open spec fn trees_without(trees: Map<WorkspaceKey, BspLayout>, surface: u64) -> Map<
    WorkspaceKey,
    BspLayout,
> {
    Map::new(
        |k: WorkspaceKey|
            trees.contains_key(k) && trees[k].root is Some && removed(trees[k].root->0, surface) is Some,
        |k: WorkspaceKey| BspLayout { root: removed(trees[k].root->0, surface) },
    )
}

/// What a list of keys says.
pub open spec fn key_views(keys: Seq<(String, u32)>) -> Seq<WorkspaceKey> {
    keys.map_values(|k: (String, u32)| (k.0@, k.1))
}

fn key_listed(keys: &Vec<(String, u32)>, key: &(String, u32)) -> (r: bool)
    ensures
        r == key_views(keys@).contains((key.0@, key.1)),
{
    let mut i: usize = 0;
    while i < keys.len()
        invariant
            i <= keys@.len(),
            forall|j: int| 0 <= j < i ==> key_views(keys@)[j] != (key.0@, key.1),
        decreases keys@.len() - i,
    {
        if keys[i].same(key) {
            assert(key_views(keys@)[i as int] == (key.0@, key.1));
            return true;
        }
        i += 1;
    }
    false
}

/// The entries of `overrides` whose key is one of `live`.
pub open spec fn kept<T>(overrides: Map<WorkspaceKey, T>, live: Seq<WorkspaceKey>) -> Map<
    WorkspaceKey,
    T,
> {
    Map::new(
        |k: WorkspaceKey| overrides.contains_key(k) && live.contains(k),
        |k: WorkspaceKey| overrides[k],
    )
}

/// Drops every entry whose key is not one of `live_keys`.
pub fn prune_orphaned<T>(overrides: &mut Assoc<(String, u32), T>, live_keys: &Vec<(String, u32)>)
    requires
        old(overrides).wf(),
    ensures
        final(overrides).wf(),
        final(overrides)@ == kept(old(overrides)@, key_views(live_keys@)),
{
    let ghost before = overrides@;
    let ghost live = key_views(live_keys@);
    let mut out: Assoc<(String, u32), T> = Assoc::new();
    loop
        invariant_except_break
            overrides.wf(),
            out.wf(),
            live == key_views(live_keys@),
            forall|k: WorkspaceKey| #[trigger]
                overrides@.contains_key(k) ==> before.contains_key(k) && before[k] == overrides@[k],
            forall|k: WorkspaceKey| #[trigger]
                out@.contains_key(k) <==> before.contains_key(k) && !overrides@.contains_key(k)
                    && live.contains(k),
            forall|k: WorkspaceKey| #[trigger] out@.contains_key(k) ==> out@[k] == before[k],
        ensures
            out.wf(),
            out@ == kept(before, live),
        decreases overrides.entries@.len(),
    {
        match overrides.pop() {
            Some((key, value)) => {
                if key_listed(live_keys, &key) {
                    out.insert(key, value);
                }
            },
            None => {
                assert(out@ =~= kept(before, live));
                break;
            },
        }
    }
    *overrides = out;
}

impl Default for Layouts {
    fn default() -> (r: Self)
        ensures
            r.wf(),
            r.trees@ == Map::<WorkspaceKey, BspLayout>::empty(),
            r.active@ == Map::<Seq<char>, u32>::empty(),
            r.algorithms@ == Map::<WorkspaceKey, LayoutAlgorithm>::empty(),
            r.default_algorithm == LayoutAlgorithm::Bsp,
            r.master_ratio@ == Map::<WorkspaceKey, Ratio>::empty(),
            r.master_orientation == MasterOrientation::Left,
            r.split_bias == SplitBias::Auto,
            r.topology_revision == 0,
    {
        Layouts {
            trees: Assoc::new(),
            active: Assoc::new(),
            algorithms: Assoc::new(),
            default_algorithm: LayoutAlgorithm::Bsp,
            master_ratio: Assoc::new(),
            master_orientation: MasterOrientation::Left,
            split_bias: SplitBias::Auto,
            topology_revision: 0,
        }
    }
}

impl Layouts {
    /// No workspace is kept without a window, and every fraction is in range.
    pub open spec fn wf(&self) -> bool {
        &&& self.trees.wf()
        &&& self.active.wf()
        &&& self.algorithms.wf()
        &&& self.master_ratio.wf()
        &&& forall|k: WorkspaceKey| #[trigger]
            self.trees@.contains_key(k) ==> self.trees@[k].wf() && self.trees@[k].root is Some
        &&& forall|k: WorkspaceKey| #[trigger]
            self.master_ratio@.contains_key(k) ==> self.master_ratio@[k].wf()
    }

    /// Everything but the trees and the revision is as in `other`.
    pub open spec fn same_settings(&self, other: &Layouts) -> bool {
        &&& self.active == other.active
        &&& self.algorithms == other.algorithms
        &&& self.default_algorithm == other.default_algorithm
        &&& self.master_ratio == other.master_ratio
        &&& self.master_orientation == other.master_orientation
        &&& self.split_bias == other.split_bias
    }

    /// The tree of a workspace.
    pub open spec fn root_at(&self, k: WorkspaceKey) -> Option<Node> {
        if self.trees@.contains_key(k) {
            self.trees@[k].root
        } else {
            None
        }
    }

    /// The workspace `output` shows.
    pub open spec fn shown(&self, output: Seq<char>) -> u32 {
        if self.active@.contains_key(output) {
            self.active@[output]
        } else {
            1
        }
    }

    /// How a workspace is tiled.
    pub open spec fn algorithm_at(&self, k: WorkspaceKey) -> LayoutAlgorithm {
        if self.algorithms@.contains_key(k) {
            self.algorithms@[k]
        } else {
            self.default_algorithm
        }
    }

    /// The master pane's fraction of a workspace.
    pub open spec fn master_ratio_at(&self, k: WorkspaceKey) -> Ratio {
        if self.master_ratio@.contains_key(k) {
            self.master_ratio@[k]
        } else {
            Ratio { units: crate::ratio::HALF_RATIO }
        }
    }

    /// The workspace on which `surface` is tiled; one of them where it is tiled
    /// more than once.
    pub open spec fn home(&self, surface: u64) -> Option<WorkspaceKey> {
        let i = first_holding(self.trees.entries@, surface);
        if i < self.trees.entries@.len() {
            Some(self.trees.entries@[i].0@)
        } else {
            None
        }
    }

    /// A surface has a home exactly when it is tiled, and it is tiled there.
    pub proof fn lemma_home(&self, surface: u64)
        requires
            self.wf(),
        ensures
            self.home(surface) is Some <==> tiled(self.trees@, surface),
            self.home(surface) is Some ==> tiled_at(self.trees@, self.home(surface)->0, surface),
    {
        let entries = self.trees.entries@;
        let i = first_holding(entries, surface);
        lemma_first_holding(entries, surface);
        if i < entries.len() {
            self.trees.lemma_entry(i);
            assert(tiled_at(self.trees@, entries[i].0@, surface));
        } else {
            assert forall|k: WorkspaceKey| !#[trigger] tiled_at(self.trees@, k, surface) by {
                if self.trees@.contains_key(k) {
                    let j = self.trees.slot(k);
                    self.trees.lemma_entry(j);
                    assert(!root_holds(entries[j].1.root, surface));
                }
            }
        }
    }

    fn find_tree(&self, surface: u64) -> (r: Option<usize>)
        requires
            self.wf(),
        ensures
            match r {
                Some(i) => i < self.trees.entries@.len() && i == first_holding(
                    self.trees.entries@,
                    surface,
                ) && self.home(surface) == Some(self.trees.entries@[i as int].0@)
                    && self.trees@.contains_key(self.trees.entries@[i as int].0@)
                    && self.trees@[self.trees.entries@[i as int].0@]
                    == self.trees.entries@[i as int].1,
                None => self.home(surface) is None,
            },
    {
        let ghost entries = self.trees.entries@;
        let mut i: usize = 0;
        assert(entries.skip(0) =~= entries);
        while i < self.trees.entries.len()
            invariant
                self.wf(),
                entries == self.trees.entries@,
                i <= entries.len(),
                first_holding(entries, surface) == i + first_holding(
                    entries.skip(i as int),
                    surface,
                ),
            decreases entries.len() - i,
        {
            assert(entries.skip(i as int)[0] == entries[i as int]);
            assert(entries.skip(i as int).skip(1) =~= entries.skip(i + 1));
            if self.trees.entries[i].1.contains(surface) {
                proof {
                    self.trees.lemma_entry(i as int);
                }
                return Some(i);
            }
            i += 1;
        }
        None
    }

    /// Whether `surface` is tiled on any workspace, shown or not.
    pub fn contains(&self, surface: u64) -> (r: bool)
        requires
            self.wf(),
        ensures
            r == tiled(self.trees@, surface),
            r == (self.home(surface) is Some),
    {
        proof {
            self.lemma_home(surface);
        }
        match self.find_tree(surface) {
            Some(_) => true,
            None => false,
        }
    }

    /// The output on one of whose workspaces `surface` is tiled.
    pub fn output_of(&self, surface: u64) -> (r: Option<String>)
        requires
            self.wf(),
        ensures
            match r {
                Some(output) => self.home(surface) is Some && (self.home(surface)->0).0 == output@,
                None => self.home(surface) is None,
            },
    {
        match self.key_of(surface) {
            Some((output, _)) => Some(output),
            None => None,
        }
    }

    /// The workspace on which `surface` is tiled.
    pub fn workspace_of(&self, surface: u64) -> (r: Option<u32>)
        requires
            self.wf(),
        ensures
            match r {
                Some(workspace) => self.home(surface) is Some && (self.home(surface)->0).1
                    == workspace,
                None => self.home(surface) is None,
            },
    {
        match self.key_of(surface) {
            Some((_, workspace)) => Some(workspace),
            None => None,
        }
    }

    /// The window that shows `surface`, wherever it is tiled.
    pub fn window_of(&self, surface: u64) -> (r: Option<Window>)
        requires
            self.wf(),
        ensures
            r == match self.home(surface) {
                Some(k) => crate::bsp::found(self.trees@[k].root->0, surface),
                None => None,
            },
            r is Some <==> self.home(surface) is Some,
    {
        proof {
            self.lemma_home(surface);
        }
        match self.find_tree(surface) {
            Some(i) => self.trees.entries[i].1.window(surface),
            None => None,
        }
    }

    fn key_of(&self, surface: u64) -> (r: Option<(String, u32)>)
        requires
            self.wf(),
        ensures
            match r {
                Some((output, workspace)) => self.home(surface) == Some((output@, workspace)),
                None => self.home(surface) is None,
            },
    {
        match self.find_tree(surface) {
            Some(i) => Some(self.trees.entries[i].0.duplicate()),
            None => None,
        }
    }

    /// The workspace `output` shows: the first, as long as none was chosen.
    pub fn active_workspace(&self, output: &str) -> (r: u32)
        requires
            self.wf(),
        ensures
            r == self.shown(output@),
    {
        match self.active.get(&output.to_owned()) {
            Some(workspace) => *workspace,
            None => 1,
        }
    }

    /// Makes `workspace` the one `output` shows.
    pub fn set_active_workspace(&mut self, output: &str, workspace: u32)
        requires
            old(self).wf(),
        ensures
            final(self).wf(),
            final(self).active@ == old(self).active@.insert(output@, workspace),
            *final(self) == (Layouts { active: final(self).active, ..*old(self) }),
    {
        self.active.insert(output.to_owned(), workspace);
    }

    fn bump_topology_revision(&mut self)
        ensures
            *final(self) == (Layouts {
                topology_revision: next_revision(old(self).topology_revision),
                ..*old(self)
            }),
    {
        self.topology_revision = self.topology_revision.wrapping_add(1);
    }

    /// Tiles `window` on a workspace, splitting the leaf that shows `target`.
    pub fn insert(&mut self, output: &str, workspace: u32, window: Window, target: Option<u64>)
        requires
            old(self).wf(),
        ensures
            final(self).wf(),
            final(self).same_settings(old(self)),
            final(self).trees@ == old(self).trees@.insert(
                (output@, workspace),
                BspLayout {
                    root: Some(
                        match old(self).root_at((output@, workspace)) {
                            None => Node::Leaf(window),
                            Some(root) => crate::bsp::inserted(root, window, target),
                        },
                    ),
                },
            ),
            final(self).topology_revision == next_revision(old(self).topology_revision),
    {
        let key: (String, u32) = (output.to_owned(), workspace);
        let ghost before = self.trees@;
        let mut tree: BspLayout = match self.trees.remove(&key) {
            Some(tree) => tree,
            None => BspLayout { root: None },
        };
        tree.insert(window, target);
        let ghost inserted = tree;
        self.trees.insert(key, tree);
        assert(self.trees@ =~= before.insert((output@, workspace), inserted));
        self.bump_topology_revision();
    }

    /// Every window tiled on a workspace.
    pub fn windows_in(&self, output: &str, workspace: u32) -> (r: Vec<Window>)
        requires
            self.wf(),
        ensures
            r@ == root_windows(self.root_at((output@, workspace))),
    {
        match self.trees.get(&(output.to_owned(), workspace)) {
            Some(tree) => tree.windows(),
            None => Vec::new(),
        }
    }

    /// Every workspace with a tiled window, each once.
    pub fn populated_workspaces(&self) -> (r: Vec<(String, u32)>)
        requires
            self.wf(),
        ensures
            key_views(r@).no_duplicates(),
            forall|k: WorkspaceKey|
                key_views(r@).contains(k) <==> root_windows(#[trigger] self.root_at(k)).len() > 0,
    {
        let keys = self.trees.keys();
        proof {
            let views = key_views(keys@);
            assert forall|i: int| 0 <= i < views.len() implies #[trigger] views[i] == keys@[i]@ by {}
            assert forall|k: WorkspaceKey|
                views.contains(k) <==> root_windows(#[trigger] self.root_at(k)).len() > 0 by {
                if self.trees@.contains_key(k) {
                    crate::bsp::lemma_windows_nonempty(self.trees@[k].root->0);
                    let i = choose|i: int| 0 <= i < keys@.len() && (#[trigger] keys@[i])@ == k;
                    assert(views[i] == k);
                }
                if views.contains(k) {
                    let i = choose|i: int| 0 <= i < views.len() && views[i] == k;
                    assert(keys@[i]@ == k);
                }
            }
            assert forall|i: int, j: int|
                0 <= i < views.len() && 0 <= j < views.len() && i != j implies views[i]
                != views[j] by {
                assert(keys@[i]@ != keys@[j]@);
            }
        }
        keys
    }
}

/// The revision after a change of topology.
pub open spec fn next_revision(revision: u64) -> u64 {
    if revision == u64::MAX {
        0
    } else {
        (revision + 1) as u64
    }
}

/// The value under `k`, if there is one.
pub open spec fn at<T>(m: Map<WorkspaceKey, T>, k: WorkspaceKey) -> Option<T> {
    if m.contains_key(k) {
        Some(m[k])
    } else {
        None
    }
}

/// `m` with `v` under `k`, where there is a `v`.
pub open spec fn put<T>(m: Map<WorkspaceKey, T>, k: WorkspaceKey, v: Option<T>) -> Map<
    WorkspaceKey,
    T,
> {
    match v {
        Some(v) => m.insert(k, v),
        None => m,
    }
}

/// The trees after those of `a` and `b` traded places; an empty place stays empty.
pub open spec fn traded(trees: Map<WorkspaceKey, BspLayout>, a: WorkspaceKey, b: WorkspaceKey) -> Map<
    WorkspaceKey,
    BspLayout,
> {
    let rest = trees.remove(a).remove(b);
    if a == b {
        trees
    } else {
        put(put(rest, a, at(trees, b)), b, at(trees, a))
    }
}

/// The entries whose workspace still has a tree.
pub open spec fn kept_in<T>(
    overrides: Map<WorkspaceKey, T>,
    trees: Map<WorkspaceKey, BspLayout>,
) -> Map<WorkspaceKey, T> {
    Map::new(
        |k: WorkspaceKey| overrides.contains_key(k) && trees.contains_key(k),
        |k: WorkspaceKey| overrides[k],
    )
}

impl Layouts {
    /// Lets what is tiled on the shown workspaces of two outputs trade places.
    /// Each output goes on showing the workspace of the same number.
    pub fn swap_active(&mut self, output_a: &str, output_b: &str)
        requires
            old(self).wf(),
        ensures
            final(self).wf(),
            final(self).same_settings(old(self)),
            ({
                let a = (output_a@, old(self).shown(output_a@));
                let b = (output_b@, old(self).shown(output_b@));
                &&& final(self).trees@ == traded(old(self).trees@, a, b)
                &&& final(self).topology_revision == if old(self).trees@.contains_key(a) || old(self).trees@.contains_key(b) {
                    next_revision(old(self).topology_revision)
                } else {
                    old(self).topology_revision
                }
            }),
    {
        let key_a: (String, u32) = (output_a.to_owned(), self.active_workspace(output_a));
        let key_b: (String, u32) = (output_b.to_owned(), self.active_workspace(output_b));
        let ghost before = self.trees@;
        let ghost a = (output_a@, self.shown(output_a@));
        let ghost b = (output_b@, self.shown(output_b@));
        let tree_a: Option<BspLayout> = self.trees.remove(&key_a);
        let tree_b: Option<BspLayout> = self.trees.remove(&key_b);
        let changed = tree_a.is_some() || tree_b.is_some();
        if let Some(tree) = tree_b {
            self.trees.insert(key_a, tree);
        }
        if let Some(tree) = tree_a {
            self.trees.insert(key_b, tree);
        }
        assert(self.trees@ =~= traded(before, a, b));
        if changed {
            self.bump_topology_revision();
        }
    }

    /// Takes the window that shows `surface` out of every tree, drops the trees
    /// that this leaves empty, and forgets what was set for workspaces without a tree.
    /// Nothing happens where the surface is tiled nowhere.
    pub fn remove(&mut self, surface: u64)
        requires
            old(self).wf(),
        ensures
            final(self).wf(),
            final(self).trees@ == trees_without(old(self).trees@, surface),
            final(self).algorithms@ == if tiled(old(self).trees@, surface) {
                kept_in(old(self).algorithms@, final(self).trees@)
            } else {
                old(self).algorithms@
            },
            final(self).master_ratio@ == if tiled(old(self).trees@, surface) {
                kept_in(old(self).master_ratio@, final(self).trees@)
            } else {
                old(self).master_ratio@
            },
            !tiled(old(self).trees@, surface) ==> *final(self) == *old(self),
            final(self).topology_revision == if tiled(old(self).trees@, surface) {
                next_revision(old(self).topology_revision)
            } else {
                old(self).topology_revision
            },
            *final(self) == (Layouts {
                trees: final(self).trees,
                algorithms: final(self).algorithms,
                master_ratio: final(self).master_ratio,
                topology_revision: final(self).topology_revision,
                ..*old(self)
            }),
    {
        let ghost before = self.trees@;
        if !self.contains(surface) {
            proof {
                assert forall|k: WorkspaceKey| #[trigger] before.contains_key(k) implies removed(
                    before[k].root->0,
                    surface,
                ) == before[k].root by {
                    assert(!tiled_at(before, k, surface));
                    law_remove_of_absent_is_nothing(before[k].root->0, surface);
                }
                assert(trees_without(before, surface) =~= before);
            }
            return;
        }
        let mut out: Assoc<(String, u32), BspLayout> = Assoc::new();
        loop
            invariant_except_break
                self.trees.wf(),
                out.wf(),
                *self == (Layouts { trees: self.trees, ..*old(self) }),
                old(self).wf(),
                before == old(self).trees@,
                forall|k: WorkspaceKey| #[trigger]
                    self.trees@.contains_key(k) ==> before.contains_key(k) && before[k]
                        == self.trees@[k],
                forall|k: WorkspaceKey| #[trigger]
                    out@.contains_key(k) <==> trees_without(before, surface).contains_key(k)
                        && !self.trees@.contains_key(k),
                forall|k: WorkspaceKey| #[trigger]
                    out@.contains_key(k) ==> out@[k] == trees_without(before, surface)[k],
            ensures
                out.wf(),
                out@ == trees_without(before, surface),
                *self == (Layouts { trees: self.trees, ..*old(self) }),
            decreases self.trees.entries@.len(),
        {
            match self.trees.pop() {
                Some((key, tree)) => {
                    let mut tree: BspLayout = tree;
                    tree.remove(surface);
                    if !tree.is_empty() {
                        out.insert(key, tree);
                    }
                },
                None => {
                    assert(out@ =~= trees_without(before, surface));
                    break;
                },
            }
        }
        self.trees = out;
        assert forall|k: WorkspaceKey| #[trigger] self.trees@.contains_key(k) implies self.trees@[k].wf()
            && self.trees@[k].root is Some by {
            assert(before.contains_key(k));
            lemma_removed_wf(before[k].root->0, surface);
        }
        let live_keys: Vec<(String, u32)> = self.trees.keys();
        proof {
            let views = key_views(live_keys@);
            assert forall|k: WorkspaceKey| views.contains(k) <==> #[trigger] self.trees@.contains_key(
                k,
            ) by {
                if self.trees@.contains_key(k) {
                    let i = choose|i: int|
                        0 <= i < live_keys@.len() && (#[trigger] live_keys@[i])@ == k;
                    assert(views[i] == k);
                }
                if views.contains(k) {
                    let i = choose|i: int| 0 <= i < views.len() && views[i] == k;
                    assert(live_keys@[i]@ == k);
                }
            }
            assert(kept(self.algorithms@, views) =~= kept_in(self.algorithms@, self.trees@));
            assert(kept(self.master_ratio@, views) =~= kept_in(self.master_ratio@, self.trees@));
        }
        prune_orphaned(&mut self.algorithms, &live_keys);
        prune_orphaned(&mut self.master_ratio, &live_keys);
        self.bump_topology_revision();
    }

    /// How a workspace is tiled: as was set for it, else as is usual.
    pub fn algorithm(&self, output: &str, workspace: u32) -> (r: LayoutAlgorithm)
        requires
            self.wf(),
        ensures
            r == self.algorithm_at((output@, workspace)),
    {
        match self.algorithms.get(&(output.to_owned(), workspace)) {
            Some(algorithm) => *algorithm,
            None => self.default_algorithm,
        }
    }

    /// Sets how a workspace is tiled.
    pub fn set_algorithm(&mut self, output: &str, workspace: u32, algorithm: LayoutAlgorithm)
        requires
            old(self).wf(),
        ensures
            final(self).wf(),
            final(self).algorithms@ == old(self).algorithms@.insert(
                (output@, workspace),
                algorithm,
            ),
            *final(self) == (Layouts { algorithms: final(self).algorithms, ..*old(self) }),
    {
        self.algorithms.insert((output.to_owned(), workspace), algorithm);
    }

    /// Sets how the workspaces are tiled for which nothing else was set.
    pub fn set_default_algorithm(&mut self, algorithm: LayoutAlgorithm)
        requires
            old(self).wf(),
        ensures
            final(self).wf(),
            *final(self) == (Layouts { default_algorithm: algorithm, ..*old(self) }),
    {
        self.default_algorithm = algorithm;
    }

    /// Sets the side of the master pane.
    pub fn set_master_orientation(&mut self, orientation: MasterOrientation)
        requires
            old(self).wf(),
        ensures
            final(self).wf(),
            *final(self) == (Layouts { master_orientation: orientation, ..*old(self) }),
    {
        self.master_orientation = orientation;
    }

    /// Sets which way splits run. A change makes every boundary found before it
    /// outdated.
    pub fn set_split_bias(&mut self, bias: SplitBias)
        requires
            old(self).wf(),
        ensures
            final(self).wf(),
            *final(self) == (Layouts {
                split_bias: bias,
                topology_revision: if old(self).split_bias != bias {
                    next_revision(old(self).topology_revision)
                } else {
                    old(self).topology_revision
                },
                ..*old(self)
            }),
    {
        if self.split_bias != bias {
            self.split_bias = bias;
            self.bump_topology_revision();
        }
    }

    /// The master pane's fraction of a workspace: half, as long as it was not
    /// changed.
    pub fn master_ratio(&self, output: &str, workspace: u32) -> (r: Ratio)
        requires
            self.wf(),
        ensures
            r == self.master_ratio_at((output@, workspace)),
            r.wf(),
    {
        match self.master_ratio.get(&(output.to_owned(), workspace)) {
            Some(ratio) => *ratio,
            None => Ratio::half(),
        }
    }

    /// Changes the master pane's fraction of a workspace by `delta` steps of
    /// 2^-52, within 0.05 and 0.95.
    pub fn adjust_master_ratio(&mut self, output: &str, workspace: u32, delta: i64)
        requires
            old(self).wf(),
        ensures
            final(self).wf(),
            final(self).master_ratio@ == old(self).master_ratio@.insert(
                (output@, workspace),
                Ratio {
                    units: crate::ratio::clamped_units(
                        crate::ratio::nudged_units(
                            old(self).master_ratio_at((output@, workspace)).units as int,
                            delta as int,
                        ),
                    ) as u32,
                },
            ),
            *final(self) == (Layouts { master_ratio: final(self).master_ratio, ..*old(self) }),
    {
        let new_ratio: Ratio = self.master_ratio(output, workspace).nudged(delta);
        self.master_ratio.insert((output.to_owned(), workspace), new_ratio);
    }

    /// Lets the windows that show `a` and `b` trade places, where both are tiled
    /// in the same tree.
    pub fn swap(&mut self, a: u64, b: u64)
        requires
            old(self).wf(),
        ensures
            final(self).wf(),
            final(self).same_settings(old(self)),
            match (old(self).home(a), old(self).home(b)) {
                (Some(ka), Some(kb)) => if ka == kb {
                    &&& final(self).trees@ == old(self).trees@.insert(
                        ka,
                        BspLayout { root: Some(swapped(old(self).trees@[ka].root->0, a, b)) },
                    )
                    &&& final(self).topology_revision == next_revision(
                        old(self).topology_revision,
                    )
                } else {
                    *final(self) == *old(self)
                },
                _ => *final(self) == *old(self),
            },
    {
        proof {
            self.lemma_home(a);
        }
        let key_a: (String, u32) = match self.key_of(a) {
            Some(key) => key,
            None => {
                return ;
            },
        };
        let key_b: (String, u32) = match self.key_of(b) {
            Some(key) => key,
            None => {
                return ;
            },
        };
        let ghost ka: WorkspaceKey = (key_a.0@, key_a.1);
        if !key_a.same(&key_b) {
            return ;
        }
        let ghost before = self.trees@;
        if let Some(tree) = self.trees.remove(&key_a) {
            let mut tree: BspLayout = tree;
            tree.swap(a, b);
            let ghost after = tree;
            self.trees.insert(key_a, tree);
            assert(self.trees@ =~= before.insert(ka, after));
            self.bump_topology_revision();
        }
    }

    /// Puts `new_window` where a window shows `old_surface`.
    pub fn replace_leaf(&mut self, old_surface: u64, new_window: &Window)
        requires
            old(self).wf(),
        ensures
            final(self).wf(),
            final(self).same_settings(old(self)),
            match old(self).home(old_surface) {
                Some(k) => {
                    &&& final(self).trees@ == old(self).trees@.insert(
                        k,
                        BspLayout {
                            root: Some(
                                relabeled(
                                    old(self).trees@[k].root->0,
                                    substitute(old_surface, *new_window),
                                ),
                            ),
                        },
                    )
                    &&& final(self).topology_revision == next_revision(
                        old(self).topology_revision,
                    )
                },
                None => *final(self) == *old(self),
            },
    {
        proof {
            self.lemma_home(old_surface);
        }
        let key: (String, u32) = match self.key_of(old_surface) {
            Some(key) => key,
            None => {
                return ;
            },
        };
        let ghost k: WorkspaceKey = (key.0@, key.1);
        let ghost before = self.trees@;
        if let Some(tree) = self.trees.remove(&key) {
            let mut tree: BspLayout = tree;
            tree.replace_leaf(old_surface, new_window);
            let ghost after = tree;
            self.trees.insert(key, tree);
            assert(self.trees@ =~= before.insert(k, after));
            self.bump_topology_revision();
        }
    }

    /// The rectangle of every window tiled on a workspace, by the algorithm set
    /// for it.
    pub fn layout(&self, output: &str, workspace: u32, area: Rect, gap: i32) -> (r: Vec<
        (Window, Rect),
    >)
        requires
            self.wf(),
            gap_fits(area, gap as int),
            root_windows(self.root_at((output@, workspace))).len() <= i32::MAX,
        ensures
            r@ == match self.root_at((output@, workspace)) {
                None => seq![],
                Some(root) => match self.algorithm_at((output@, workspace)) {
                    LayoutAlgorithm::Bsp => with_gaps(
                        crate::bsp::areas_of(root, area, self.split_bias),
                        gap as int,
                    ),
                    LayoutAlgorithm::Master => with_gaps(
                        crate::master::paired(
                            crate::bsp::windows_of(root),
                            crate::master::master_rects(
                                crate::bsp::windows_of(root).len() as nat,
                                area,
                                self.master_ratio_at((output@, workspace)),
                                self.master_orientation,
                            ),
                        ),
                        gap as int,
                    ),
                },
            },
    {
        match self.trees.get(&(output.to_owned(), workspace)) {
            None => Vec::new(),
            Some(tree) => match self.algorithm(output, workspace) {
                LayoutAlgorithm::Bsp => tree.layout(area, gap, self.split_bias),
                LayoutAlgorithm::Master => layout_master(
                    &tree.windows(),
                    area,
                    gap,
                    self.master_ratio(output, workspace),
                    self.master_orientation,
                ),
            },
        }
    }

    /// A boundary found in a tree, as one of this collection.
    pub open spec fn owned(&self, hit: SplitHitView, k: WorkspaceKey) -> SplitHitView {
        SplitHitView {
            output: k.0,
            workspace: k.1,
            topology_revision: self.topology_revision,
            ..hit
        }
    }

    /// The split boundary nearest `point` on a workspace, where it is near enough to one.
    /// The master layout has none.
    pub fn hit_test_split(
        &self,
        output: &str,
        workspace: u32,
        area: Rect,
        gap: i32,
        point: FinePoint,
    ) -> (r: Option<SplitHit>)
        requires
            self.wf(),
            area.fits(),
        ensures
            ({
                let k = (output@, workspace);
                let hit = match self.root_at(k) {
                    Some(root) => crate::bsp::border_at(
                        root,
                        area,
                        gap as int,
                        point,
                        self.split_bias,
                        seq![],
                    ),
                    None => None,
                };
                if self.algorithm_at(k) == LayoutAlgorithm::Bsp && hit is Some {
                    r is Some && (r->0)@ == self.owned(hit_on(hit->0, area, None), k)
                } else {
                    r is None
                }
            }),
    {
        if self.algorithm(output, workspace) != LayoutAlgorithm::Bsp {
            return None;
        }
        match self.trees.get(&(output.to_owned(), workspace)) {
            None => None,
            Some(tree) => match tree.hit_test_split(area, gap, point, self.split_bias) {
                None => None,
                Some(hit) => {
                    let mut hit: SplitHit = hit;
                    hit.output = output.to_owned();
                    hit.workspace = workspace;
                    hit.topology_revision = self.topology_revision;
                    Some(hit)
                },
            },
        }
    }

    /// The boundaries that resize the window of `surface` on a workspace. The
    /// master layout has none.
    pub fn resize_splits(&self, output: &str, workspace: u32, area: Rect, surface: u64) -> (r: Vec<
        SplitHit,
    >)
        requires
            self.wf(),
            area.fits(),
        ensures
            ({
                let k = (output@, workspace);
                hit_views(r@) == if self.algorithm_at(k) == LayoutAlgorithm::Bsp {
                    resize_hits(self.root_at(k), surface, area, self.split_bias).map_values(
                        |h: SplitHitView| self.owned(h, k),
                    )
                } else {
                    seq![]
                }
            }),
    {
        let ghost k = (output@, workspace);
        let ghost f = |h: SplitHitView| self.owned(h, k);
        let mut out: Vec<SplitHit> = Vec::new();
        assert(hit_views(out@) =~= seq![]);
        if self.algorithm(output, workspace) != LayoutAlgorithm::Bsp {
            return out;
        }
        let hits: Vec<SplitHit> = match self.trees.get(&(output.to_owned(), workspace)) {
            None => Vec::new(),
            Some(tree) => tree.resize_splits(surface, area, self.split_bias),
        };
        let ghost all = hit_views(hits@);
        assert(all =~= resize_hits(self.root_at(k), surface, area, self.split_bias));
        let mut i: usize = 0;
        assert(all.take(0).map_values(f) =~= seq![]);
        while i < hits.len()
            invariant
                i <= hits@.len(),
                k == (output@, workspace),
                all == hit_views(hits@),
                f == (|h: SplitHitView| self.owned(h, k)),
                hit_views(out@) == all.take(i as int).map_values(f),
            decreases hits@.len() - i,
        {
            let ghost before = hit_views(out@);
            let hit = SplitHit {
                output: output.to_owned(),
                workspace,
                path: copy_path(&hits[i].path),
                axis: hits[i].axis,
                area: hits[i].area,
                root_area: hits[i].root_area,
                target_side: hits[i].target_side,
                topology_revision: self.topology_revision,
            };
            let ghost v = hit@;
            proof {
                assert(all[i as int] == hits@[i as int]@);
                assert(v == f(all[i as int]));
                crate::seqs::lemma_map_step(all, i as int, f);
            }
            out.push(hit);
            assert(hit_views(out@) =~= before.push(v));
            i += 1;
        }
        assert(all.take(i as int) =~= all);
        out
    }

    /// The fraction of the split that `path` leads to on a workspace.
    pub fn ratio_at(&self, output: &str, workspace: u32, path: &[Side]) -> (r: Option<Ratio>)
        requires
            self.wf(),
        ensures
            r == match self.root_at((output@, workspace)) {
                Some(root) => ratio_on(root, path@),
                None => None,
            },
    {
        match self.trees.get(&(output.to_owned(), workspace)) {
            Some(tree) => tree.ratio_at(path),
            None => None,
        }
    }

    /// Gives the split that `path` leads to on a workspace the fraction of `raw`
    /// steps of 2^-28, within 0.05 and 0.95. Boundaries found before stay current.
    pub fn set_ratio(&mut self, output: &str, workspace: u32, path: &[Side], raw: i64)
        requires
            old(self).wf(),
        ensures
            final(self).wf(),
            *final(self) == (Layouts { trees: final(self).trees, ..*old(self) }),
            final(self).trees@ == match old(self).root_at((output@, workspace)) {
                Some(root) => old(self).trees@.insert(
                    (output@, workspace),
                    BspLayout {
                        root: Some(
                            with_ratio(
                                root,
                                path@,
                                Ratio { units: crate::ratio::clamped_units(raw as int) as u32 },
                            ),
                        ),
                    },
                ),
                None => old(self).trees@,
            },
    {
        let key: (String, u32) = (output.to_owned(), workspace);
        let ghost k = (output@, workspace);
        let ghost before = self.trees@;
        match self.trees.remove(&key) {
            Some(tree) => {
                let mut tree: BspLayout = tree;
                tree.set_ratio(path, raw);
                let ghost after = tree;
                self.trees.insert(key, tree);
                assert(self.trees@ =~= before.insert(k, after));
            },
            None => {
                assert(self.trees@ =~= before);
            },
        }
    }

    /// A boundary found earlier still names the split it named then: its
    /// workspace is the one shown, no path has changed its meaning since, and it
    /// leads to a split.
    pub open spec fn current(&self, hit: SplitHitView) -> bool {
        &&& self.shown(hit.output) == hit.workspace
        &&& self.topology_revision == hit.topology_revision
        &&& self.root_at((hit.output, hit.workspace)) is Some
        &&& ratio_on(self.root_at((hit.output, hit.workspace))->0, hit.path) is Some
    }

    /// Whether a boundary found earlier still names the split it named then.
    pub fn split_is_current(&self, hit: &SplitHit) -> (r: bool)
        requires
            self.wf(),
        ensures
            r == self.current(hit@),
    {
        if self.active_workspace(hit.output.as_str()) != hit.workspace {
            return false;
        }
        if self.topology_revision != hit.topology_revision {
            return false;
        }
        match self.trees.get(&(hit.output.clone(), hit.workspace)) {
            Some(tree) => tree.ratio_at(hit.path.as_slice()).is_some(),
            None => false,
        }
    }
}

proof fn lemma_first_holding(entries: Seq<((String, u32), BspLayout)>, surface: u64)
    ensures
        0 <= first_holding(entries, surface) <= entries.len(),
        forall|j: int|
            0 <= j < first_holding(entries, surface) ==> !root_holds(
                (#[trigger] entries[j]).1.root,
                surface,
            ),
        first_holding(entries, surface) < entries.len() ==> root_holds(
            entries[first_holding(entries, surface)].1.root,
            surface,
        ),
    decreases entries.len(),
{
    if entries.len() > 0 && !root_holds(entries[0].1.root, surface) {
        let rest = entries.skip(1);
        lemma_first_holding(rest, surface);
        assert forall|j: int| 0 <= j < first_holding(entries, surface) implies !root_holds(
            (#[trigger] entries[j]).1.root,
            surface,
        ) by {
            if j > 0 {
                assert(entries[j] == rest[j - 1]);
            }
        }
    }
}

proof fn lemma_removed_wf(node: Node, surface: u64)
    requires
        crate::bsp::node_wf(node),
    ensures
        removed(node, surface) is Some ==> crate::bsp::node_wf(removed(node, surface)->0),
    decreases node,
{
    if let Node::Split { first, second, .. } = node {
        lemma_removed_wf(*first, surface);
        lemma_removed_wf(*second, surface);
    }
}

} // verus!
