//! A mark that there may be work to do.

use vstd::prelude::*;

verus! {

/// A dirty mark. A fresh mark is dirty, so that the first look finds the work
/// that was left from an earlier run.
#[derive(Clone, Copy, Debug, PartialEq, Eq, Structural)]
pub struct DirtyMarker {
    pub value: bool,
}

impl DirtyMarker {
    pub fn new() -> (marker: DirtyMarker)
        ensures
            marker.value,
    {
        DirtyMarker { value: true }
    }

    pub fn mark_dirty(&mut self)
        ensures
            final(self).value,
    {
        self.value = true;
    }

    pub fn mark_clean(&mut self)
        ensures
            !final(self).value,
    {
        self.value = false;
    }

    pub fn is_dirty(&self) -> (dirty: bool)
        ensures
            dirty == self.value,
    {
        self.value
    }
}

} // verus!
