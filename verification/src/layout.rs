//! The draggable splits of the workbench: which split runs along which axis. Sizes are
//! in pixels as floating point and stay with the front end.
use vstd::prelude::*;

verus! {

/// The direction a split moves in.
#[derive(Clone, Copy, Debug, PartialEq, Eq, Structural)]
pub enum Axis {
    Horizontal,
    Vertical,
}

/// A draggable split.
#[derive(Clone, Copy, Debug, PartialEq, Eq, Structural)]
pub enum SplitTarget {
    /// Between the list and the problem.
    Sidebar,
    /// Between the problem and the workbench.
    Problem,
    /// Between the editor and the console, below it.
    Console,
}

impl SplitTarget {
    /// The axis the split moves along: the two columns horizontally, the console
    /// vertically.
    pub fn axis(self) -> (a: Axis)
        ensures
            a == (match self {
                SplitTarget::Sidebar | SplitTarget::Problem => Axis::Horizontal,
                SplitTarget::Console => Axis::Vertical,
            }),
    {
        match self {
            SplitTarget::Sidebar | SplitTarget::Problem => Axis::Horizontal,
            SplitTarget::Console => Axis::Vertical,
        }
    }
}

} // verus!
