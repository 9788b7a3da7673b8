//! A shared-ownership box: one value behind a reference count.

use vstd::prelude::*;

verus! {

/// A reference-counted handle to one shared value.
pub struct MyRc<T> {
    inner: std::rc::Rc<T>,
}

impl<T> MyRc<T> {
    /// The shared value.
    pub closed spec fn value(&self) -> T {
        *self.inner
    }

    /// Wraps a value for shared ownership.
    pub fn new(value: T) -> (r: MyRc<T>)
        ensures
            r.value() == value,
    {
        MyRc { inner: std::rc::Rc::new(value) }
    }

    /// Borrows the shared value.
    pub fn get(&self) -> (r: &T)
        ensures
            *r == self.value(),
    {
        &*self.inner
    }
}

} // verus!
