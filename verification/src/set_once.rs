//! A cell that is set at most once until cleared, holding the device's key
//! pair.
//!
//! The state word follows the protocol 0 (empty) -> 1 (being written) -> 2
//! (set) -> 1 (being cleared) -> 0; the value is present exactly in state 2.
use vstd::prelude::*;

verus! {

/// A once-settable cell.
pub struct SetOnce<T> {
    init: u32,
    value: Option<T>,
}

impl<T> SetOnce<T> {
    /// The cell's contents.
    pub closed spec fn contents(&self) -> Option<T> {
        self.value
    }

    /// The cell's state word agrees with its contents.
    pub closed spec fn wf(&self) -> bool {
        &&& (self.init == 0 || self.init == 2)
        &&& (self.init == 2 <==> self.value is Some)
    }

    /// An empty cell.
    pub fn new() -> (r: Self)
        ensures
            r.wf(),
            r.contents() is None,
    {
        SetOnce { value: None, init: 0 }
    }

    /// The stored value, if the cell is set.
    pub fn as_ref(&self) -> (r: Option<&T>)
        requires
            self.wf(),
        ensures
            r matches Some(v) ==> self.contents() == Some(*v),
            r is None ==> self.contents() is None,
    {
        if self.init == 2 {
            match &self.value {
                Some(v) => Some(v),
                None => None,
            }
        } else {
            None
        }
    }

    /// Store `value` if the cell is empty; returns whether it was stored.
    /// A set cell keeps its value.
    pub fn populate(&mut self, value: T) -> (r: bool)
        requires
            old(self).wf(),
        ensures
            final(self).wf(),
            r == (old(self).contents() is None),
            r ==> final(self).contents() == Some(value),
            !r ==> final(self).contents() == old(self).contents(),
    {
        if self.init == 0 {
            self.init = 1;
            self.value = Some(value);
            self.init = 2;
            true
        } else {
            false
        }
    }

    /// Drop the stored value, making the cell empty again.
    pub fn clear(&mut self)
        requires
            old(self).wf(),
        ensures
            final(self).wf(),
            final(self).contents() is None,
    {
        if self.init == 2 {
            self.init = 1;
            self.value = None;
            self.init = 0;
        }
    }
}

impl<T> Default for SetOnce<T> {
    fn default() -> (r: Self)
        ensures
            r.wf(),
            r.contents() is None,
    {
        Self::new()
    }
}

} // verus!
