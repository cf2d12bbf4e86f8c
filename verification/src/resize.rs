//! Connected resizing: a dragged boundary takes the parallel ones around it along.

use vstd::prelude::*;

use crate::bsp::{copy_path, crossed, split_views, CrossedSplit, PathSplit, Side, SplitHit, SplitHitView};
use crate::layouts::Layouts;
use crate::ratio::Ratio;

verus! {

/// The bits of 2^-23 as a single-precision number, the least weight above which a
/// split moves along.
pub const EPSILON_BITS: u32 = 0x3400_0000;

/// How strongly a split follows a gesture: a single-precision number, by the bits
/// of its magnitude and its sign. Of two magnitudes the larger has the larger bits.
#[derive(Clone, Copy, Debug, PartialEq, Eq, Structural)]
pub struct ResizeWeight {
    pub magnitude: u32,
    pub negative: bool,
}

/// The weight of a split that grows the resized window, which is on `target_side`.
pub fn signed_resize_weight(magnitude: u32, target_side: Option<Side>) -> (r: ResizeWeight)
    ensures
        r.magnitude == magnitude,
        r.negative == (target_side == Some(Side::Second)),
{
    ResizeWeight {
        magnitude,
        negative: match target_side {
            Some(Side::Second) => true,
            _ => false,
        },
    }
}

/// A split that takes part in a resize.
pub struct SplitResizeHandle {
    pub hit: SplitHit,
    pub start_ratio: Ratio,
    pub weight: ResizeWeight,
}

/// What a `SplitResizeHandle` says.
pub struct HandleView {
    pub hit: SplitHitView,
    pub start_ratio: Ratio,
    pub weight: ResizeWeight,
}

impl View for SplitResizeHandle {
    type V = HandleView;

    open spec fn view(&self) -> HandleView {
        HandleView { hit: self.hit@, start_ratio: self.start_ratio, weight: self.weight }
    }
}

/// What a list of handles says.
pub open spec fn handle_views(handles: Seq<SplitResizeHandle>) -> Seq<HandleView> {
    handles.map_values(|h: SplitResizeHandle| h@)
}

/// The child of a crossed split that holds the resized window: the side the hit
/// names for its own split, the side the path goes on into for the splits above;
/// none where a border itself is dragged.
pub open spec fn grown_side(hit: SplitHitView, depth: int) -> Option<Side> {
    if hit.target_side is None {
        None
    } else if depth == hit.path.len() {
        hit.target_side
    } else {
        Some(hit.path[depth])
    }
}

/// The handle of a crossed split.
pub open spec fn handle_of(c: CrossedSplit, hit: SplitHitView, magnitude: u32) -> HandleView {
    let side = grown_side(hit, c.path.len() as int);
    HandleView {
        hit: SplitHitView {
            path: c.path,
            axis: c.axis,
            area: c.area,
            target_side: side,
            ..hit
        },
        start_ratio: c.ratio,
        weight: ResizeWeight { magnitude, negative: side == Some(Side::Second) },
    }
}

/// The split moves along: it is parallel to the dragged one, and its weight, by
/// its distance above it, counts.
pub open spec fn moves_along(c: CrossedSplit, hit: SplitHitView, magnitudes: Seq<u32>) -> bool {
    c.axis == hit.axis && magnitudes[hit.path.len() - c.path.len()] > EPSILON_BITS
}

/// The handles of the last splits that move along, from the dragged one upwards,
/// at most `limit` of them.
pub open spec fn handles_of(
    splits: Seq<CrossedSplit>,
    hit: SplitHitView,
    magnitudes: Seq<u32>,
    limit: nat,
) -> Seq<HandleView>
    decreases splits.len(),
{
    if splits.len() == 0 || limit == 0 {
        seq![]
    } else {
        let c = splits.last();
        if moves_along(c, hit, magnitudes) {
            seq![handle_of(c, hit, magnitudes[hit.path.len() - c.path.len()])] + handles_of(
                splits.drop_last(),
                hit,
                magnitudes,
                (limit - 1) as nat,
            )
        } else {
            handles_of(splits.drop_last(), hit, magnitudes, limit)
        }
    }
}

/// How many splits may move along.
pub open spec fn split_limit(max_splits: u8) -> nat {
    if max_splits == 0 {
        1
    } else {
        max_splits as nat
    }
}

impl Layouts {
    /// The splits that a resize at `hit` moves: the dragged one, then the parallel
    /// ones around it, each with the weight that `magnitudes` gives its distance.
    /// None where the boundary is outdated.
    pub fn connected_resize_handles(&self, hit: &SplitHit, magnitudes: &Vec<u32>, max_splits: u8) -> (r:
        Vec<SplitResizeHandle>)
        requires
            self.wf(),
            hit.root_area.fits(),
            magnitudes@.len() > hit.path@.len(),
        ensures
            handle_views(r@) == if self.current(hit@) {
                handles_of(
                    crossed(
                        self.root_at((hit@.output, hit@.workspace))->0,
                        hit.root_area,
                        self.split_bias,
                        hit@.path,
                        seq![],
                    ),
                    hit@,
                    magnitudes@,
                    split_limit(max_splits),
                )
            } else {
                seq![]
            },
    {
        let mut out: Vec<SplitResizeHandle> = Vec::new();
        assert(handle_views(out@) =~= seq![]);
        if !self.split_is_current(hit) {
            return out;
        }
        let splits: Vec<PathSplit> = match self.trees.get(&(hit.output.clone(), hit.workspace)) {
            None => {
                return out;
            },
            Some(tree) => tree.path_splits(hit.root_area, self.split_bias, hit.path.as_slice()),
        };
        let ghost root = self.root_at((hit@.output, hit@.workspace))->0;
        let ghost all = crossed(root, hit.root_area, self.split_bias, hit@.path, seq![]);
        assert(split_views(splits@) == all);
        let limit: usize = if max_splits == 0 {
            1
        } else {
            max_splits as usize
        };
        let ghost whole = handles_of(all, hit@, magnitudes@, limit as nat);
        let mut i: usize = splits.len();
        assert(all.len() == splits@.len());
        assert(all.take(i as int) =~= all);
        assert(seq![] + whole =~= whole);
        while i > 0 && out.len() < limit
            invariant
                i <= splits@.len(),
                out@.len() <= limit,
                all == split_views(splits@),
                all == crossed(root, hit.root_area, self.split_bias, hit@.path, seq![]),
                magnitudes@.len() > hit.path@.len(),
                handle_views(out@) + handles_of(
                    all.take(i as int),
                    hit@,
                    magnitudes@,
                    (limit - out@.len()) as nat,
                ) == whole,
            decreases i,
        {
            let ghost upto = all.take(i as int);
            i -= 1;
            let split = &splits[i];
            proof {
                assert(upto.last() == split@);
                assert(upto.drop_last() =~= all.take(i as int));
                crate::bsp_laws::law_crossed_addresses_splits(
                    root,
                    hit.root_area,
                    self.split_bias,
                    hit@.path,
                    seq![],
                    i as int,
                );
                assert(all[i as int] == split@);
                assert(seq![] + hit@.path.take(i as int) =~= hit@.path.take(i as int));
                assert(split.path@.len() == i);
            }
            let distance: usize = hit.path.len() - split.path.len();
            let magnitude: u32 = magnitudes[distance];
            if split.axis == hit.axis && magnitude > EPSILON_BITS {
                let target_side: Option<Side> = match hit.target_side {
                    None => None,
                    Some(side) => if distance == 0 {
                        Some(side)
                    } else {
                        Some(hit.path[split.path.len()])
                    },
                };
                let handle = SplitResizeHandle {
                    hit: SplitHit {
                        output: hit.output.clone(),
                        workspace: hit.workspace,
                        path: copy_path(&split.path),
                        axis: split.axis,
                        area: split.area,
                        root_area: hit.root_area,
                        target_side,
                        topology_revision: hit.topology_revision,
                    },
                    start_ratio: split.ratio,
                    weight: signed_resize_weight(magnitude, target_side),
                };
                let ghost before = handle_views(out@);
                let ghost v = handle@;
                assert(v == handle_of(split@, hit@, magnitude));
                let ghost rest = handles_of(
                    all.take(i as int),
                    hit@,
                    magnitudes@,
                    (limit - out@.len() - 1) as nat,
                );
                out.push(handle);
                assert(handle_views(out@) =~= before.push(v));
                assert(before + (seq![v] + rest) =~= before.push(v) + rest);
            }
        }
        assert(handle_views(out@) + seq![] =~= handle_views(out@));
        out
    }
}

/// Of a resize, no more splits move than are allowed.
pub proof fn law_handles_within_limit(
    splits: Seq<CrossedSplit>,
    hit: SplitHitView,
    magnitudes: Seq<u32>,
    limit: nat,
)
    ensures
        handles_of(splits, hit, magnitudes, limit).len() <= limit,
        forall|i: int|
            0 <= i < handles_of(splits, hit, magnitudes, limit).len() ==> (
            #[trigger] handles_of(splits, hit, magnitudes, limit)[i]).hit.axis == hit.axis,
    decreases splits.len(),
{
    if splits.len() > 0 && limit > 0 {
        let c = splits.last();
        law_handles_within_limit(splits.drop_last(), hit, magnitudes, (limit - 1) as nat);
        law_handles_within_limit(splits.drop_last(), hit, magnitudes, limit);
        let all = handles_of(splits, hit, magnitudes, limit);
        if moves_along(c, hit, magnitudes) {
            let rest = handles_of(splits.drop_last(), hit, magnitudes, (limit - 1) as nat);
            assert forall|i: int| 0 <= i < all.len() implies (#[trigger] all[i]).hit.axis
                == hit.axis by {
                if i > 0 {
                    assert(all[i] == rest[i - 1]);
                }
            }
        }
    }
}

} // verus!
