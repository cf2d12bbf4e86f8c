//! Surface commits, before and after the buffer is looked at.

use vstd::prelude::*;

verus! {

/// How many buffers of one client may wait to become ready.
pub const MAX_PENDING_DMABUF_BLOCKERS_PER_CLIENT: usize = 64;

/// How many buffers may wait to become ready in all.
pub const MAX_PENDING_DMABUF_BLOCKERS_TOTAL: usize = 1024;

/// Whether one more buffer of a client may wait to become ready.
pub fn dmabuf_blocker_admitted(per_client: usize, total: usize) -> (r: bool)
    ensures
        r <==> per_client < MAX_PENDING_DMABUF_BLOCKERS_PER_CLIENT && total
            < MAX_PENDING_DMABUF_BLOCKERS_TOTAL,
{
    per_client < MAX_PENDING_DMABUF_BLOCKERS_PER_CLIENT && total
        < MAX_PENDING_DMABUF_BLOCKERS_TOTAL
}

/// What to do with a commit before its state is applied.
#[derive(Clone, Copy, PartialEq, Eq, Structural, Debug)]
pub enum PreCommit {
    /// Apply it at once.
    Proceed,
    /// Hold it until the buffer is ready.
    Block,
    /// Disconnect the client: it has too many buffers waiting.
    Disconnect,
}

/// Decides over a commit before its state is applied: one that brings a shared
/// GPU buffer which is not ready yet waits for it, within the limits.
pub fn pre_commit(
    has_dmabuf: bool,
    already_ready: bool,
    client_alive: bool,
    per_client: usize,
    total: usize,
) -> (r: PreCommit)
    ensures
        r == if !has_dmabuf || already_ready || !client_alive {
            PreCommit::Proceed
        } else if per_client < MAX_PENDING_DMABUF_BLOCKERS_PER_CLIENT && total
            < MAX_PENDING_DMABUF_BLOCKERS_TOTAL {
            PreCommit::Block
        } else {
            PreCommit::Disconnect
        },
{
    if !has_dmabuf || already_ready || !client_alive {
        PreCommit::Proceed
    } else if dmabuf_blocker_admitted(per_client, total) {
        PreCommit::Block
    } else {
        PreCommit::Disconnect
    }
}

/// The root of a surface tree: the last of a surface's ancestors, nearest
/// first, and the surface itself where it has none.
pub open spec fn root_of(surface: u64, ancestors: Seq<u64>) -> u64 {
    if ancestors.len() == 0 {
        surface
    } else {
        ancestors.last()
    }
}

/// The root of the tree that `surface` belongs to.
pub fn surface_root(surface: u64, ancestors: &Vec<u64>) -> (r: u64)
    ensures
        r == root_of(surface, ancestors@),
{
    if ancestors.len() == 0 {
        surface
    } else {
        ancestors[ancestors.len() - 1]
    }
}

/// The window whose commit hooks a surface commit runs: none for a synchronized
/// subsurface; else the one found before the commit was handled, and where there
/// was none, the one found after. Its popups are placed anew only where the
/// window's own surface was committed.
pub fn committed_window(
    is_sync_subsurface: bool,
    before: Option<u64>,
    after: Option<u64>,
    surface: u64,
) -> (r: Option<(u64, bool)>)
    ensures
        r == if is_sync_subsurface {
            None
        } else {
            match (before, after) {
                (Some(w), _) => Some((w, w == surface)),
                (None, Some(w)) => Some((w, w == surface)),
                (None, None) => None,
            }
        },
{
    if is_sync_subsurface {
        return None;
    }
    match before {
        Some(w) => Some((w, w == surface)),
        None => match after {
            Some(w) => Some((w, w == surface)),
            None => None,
        },
    }
}

} // verus!
