//! The settings that the layout reads.

use vstd::prelude::*;

verus! {

/// How the windows of a workspace are tiled.
#[derive(Clone, Copy, PartialEq, Eq, Structural, Debug)]
pub enum LayoutAlgorithm {
    /// Binary space partitioning.
    Bsp,
    /// One master pane beside a stack.
    Master,
}

impl Default for LayoutAlgorithm {
    fn default() -> (r: Self)
        ensures
            r == LayoutAlgorithm::Bsp,
    {
        LayoutAlgorithm::Bsp
    }
}

/// The side of the area that the master pane takes.
#[derive(Clone, Copy, PartialEq, Eq, Structural, Debug)]
pub enum MasterOrientation {
    Left,
    Right,
    Top,
    Bottom,
}

impl Default for MasterOrientation {
    fn default() -> (r: Self)
        ensures
            r == MasterOrientation::Left,
    {
        MasterOrientation::Left
    }
}

/// Which way every split runs, where the area's own shape shall not decide.
#[derive(Clone, Copy, PartialEq, Eq, Structural, Debug)]
pub enum SplitBias {
    Auto,
    Horizontal,
    Vertical,
}

impl Default for SplitBias {
    fn default() -> (r: Self)
        ensures
            r == SplitBias::Auto,
    {
        SplitBias::Auto
    }
}

/// What the rules that match a window say of it. An output that is named stands
/// here by its number, where it is in use.
#[derive(Clone, Copy, Debug)]
pub struct WindowRule {
    pub float: bool,
    pub pin: bool,
    pub maximize: bool,
    pub fullscreen: bool,
    pub pseudo_tile: bool,
    /// Tile it, whatever speaks for letting it float.
    pub tile: bool,
    pub no_focus: bool,
    /// It gives its place to the programs that are started from it.
    pub swallow: bool,
    pub position: Option<(i32, i32)>,
    pub size: Option<(i32, i32)>,
    pub workspace: Option<u32>,
    pub output: Option<u64>,
}

impl Default for WindowRule {
    fn default() -> (r: Self)
        ensures
            r == (WindowRule {
                float: false,
                pin: false,
                maximize: false,
                fullscreen: false,
                pseudo_tile: false,
                tile: false,
                no_focus: false,
                swallow: false,
                position: None,
                size: None,
                workspace: None,
                output: None,
            }),
    {
        WindowRule {
            float: false,
            pin: false,
            maximize: false,
            fullscreen: false,
            pseudo_tile: false,
            tile: false,
            no_focus: false,
            swallow: false,
            position: None,
            size: None,
            workspace: None,
            output: None,
        }
    }
}

} // verus!
