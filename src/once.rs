//! A cell that is initialized at most once.
use vstd::prelude::*;

verus! {

/// Holds a value that is set at most once and never replaced.
pub struct Once<T> {
    data: Option<T>,
}

impl<T> Once<T> {
    /// The value held, once initialized.
    pub closed spec fn value(&self) -> Option<T> {
        self.data
    }

    /// An uninitialized cell.
    pub fn new() -> (r: Self)
        ensures
            r.value() is None,
    {
        Once { data: None }
    }

    /// Initializes the cell with `data` unless it already holds a value, and
    /// returns the value it holds afterwards.
    pub fn try_init(&mut self, data: T) -> (r: &T)
        ensures
            old(self).value() is None ==> final(self).value() == Some(data) && *r == data,
            old(self).value() is Some ==> final(self).value() == old(self).value() && *r == old(
                self,
            ).value()->0,
    {
        if self.data.is_none() {
            self.data = Some(data);
        }
        self.data.as_ref().unwrap()
    }

    /// The value held, or `None` while the cell is uninitialized.
    pub fn get(&self) -> (r: Option<&T>)
        ensures
            self.value() is None ==> r is None,
            self.value() matches Some(v) ==> r == Some(&v),
    {
        match &self.data {
            Some(d) => Some(d),
            None => None,
        }
    }
}

} // verus!
