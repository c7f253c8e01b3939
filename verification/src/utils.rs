//! Small general-purpose helpers.

use vstd::prelude::*;

verus! {

/// A fresh vector holding exactly the elements of `v`.
pub fn copy_vec<T: Copy>(v: &Vec<T>) -> (r: Vec<T>)
    ensures
        r@ =~= v@,
{
    let mut out: Vec<T> = Vec::new();
    let n: usize = v.len();
    let mut i: usize = 0;
    while i < n
        invariant
            n == v.len(),
            i <= n,
            out@ =~= v@.take(i as int),
        decreases n - i,
    {
        out.push(v[i]);
        i = i + 1;
    }
    out
}

/// A cell that protects its inner value from casual mutation: reading
/// goes through [`ProtectedCell::get`], and writing requires naming the
/// cell type explicitly through [`ProtectedCell::get_mut`], which makes
/// every deliberate mutation visible at the call site.
#[derive(Clone, Copy, PartialEq, Eq, Debug, Hash)]
pub struct ProtectedCell<T> {
    value: T,
}

impl<T> ProtectedCell<T> {
    /// The value the cell holds.
    pub closed spec fn spec_value(&self) -> &T {
        &self.value
    }

    /// Wrap `value`.
    pub fn new(value: T) -> (r: Self)
        ensures
            r.spec_value() == value,
    {
        ProtectedCell { value }
    }

    /// Read the protected value.
    pub fn get(&self) -> (r: &T)
        ensures
            r == self.spec_value(),
    {
        &self.value
    }

    /// Deliberately take a mutable reference to the protected value.
    pub fn get_mut(cell: &mut Self) -> (r: &mut T)
        ensures
            *r == *old(cell).spec_value(),
            *final(cell).spec_value() == *final(r),
    {
        &mut cell.value
    }
}

} // verus!
