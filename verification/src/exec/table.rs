//! Bounds-checked tables and the typed handles that index them.

use vstd::prelude::*;
use std::marker::PhantomData;
use crate::error::DbError;

verus! {

/// A handle to one entry of a table of `T`: an index that was checked
/// against a table when the handle was made.
pub struct Ptr<T> {
    index: usize,
    marker: PhantomData<T>,
}

impl<T> Clone for Ptr<T> {
    fn clone(&self) -> (r: Self)
        ensures
            r == *self,
    {
        Ptr { index: self.index, marker: PhantomData }
    }
}

impl<T> Copy for Ptr<T> {

}

impl<T> Ptr<T> {
    /// The index this handle stands for.
    pub closed spec fn view(&self) -> usize {
        self.index
    }

    /// A handle to `slice[index]`, or `InvalidArgument` when `index` is out of range.
    pub fn new(slice: &[T], index: usize) -> (r: Result<Ptr<T>, DbError>)
        ensures
            match r {
                Ok(p) => index < slice@.len() && p@ == index,
                Err(e) => e is InvalidArgument && index >= slice@.len(),
            },
    {
        if index >= slice.len() {
            return Err(DbError::InvalidArgument);
        }
        Ok(Ptr { index, marker: PhantomData })
    }

    /// A handle for a slot number, such as a token handed out by a slot
    /// table. It is checked when it is resolved.
    pub fn from_index(index: usize) -> (p: Ptr<T>)
        ensures
            p@ == index,
    {
        Ptr { index, marker: PhantomData }
    }

    /// The index this handle stands for.
    pub fn index(&self) -> (i: usize)
        ensures
            i == self@,
    {
        self.index
    }
}

/// A table whose every access is bounds-checked.
pub struct Vecb<T> {
    pub vec: Vec<T>,
}

impl<T> Vecb<T> {
    /// The entries, in order.
    pub open spec fn view(&self) -> Seq<T> {
        self.vec@
    }

    /// A table holding `vec`.
    pub fn new(vec: Vec<T>) -> (t: Vecb<T>)
        ensures
            t@ == vec@,
    {
        Vecb { vec }
    }

    /// The number of entries.
    pub fn len(&self) -> (n: usize)
        ensures
            n == self@.len(),
    {
        self.vec.len()
    }

    /// A handle to entry `index`, or `InvalidArgument` when there is no such entry.
    pub fn get(&self, index: usize) -> (r: Result<Ptr<T>, DbError>)
        ensures
            match r {
                Ok(p) => index < self@.len() && p@ == index,
                Err(e) => e is InvalidArgument && index >= self@.len(),
            },
    {
        if index >= self.vec.len() {
            return Err(DbError::InvalidArgument);
        }
        Ok(Ptr::from_index(index))
    }

    /// The entry a handle points to, or `InvalidArgument` when the handle
    /// does not fit this table.
    pub fn resolve(&self, ptr: Ptr<T>) -> (r: Result<&T, DbError>)
        ensures
            match r {
                Ok(item) => ptr@ < self@.len() && *item == self@[ptr@ as int],
                Err(e) => e is InvalidArgument && ptr@ >= self@.len(),
            },
    {
        if ptr.index() >= self.vec.len() {
            return Err(DbError::InvalidArgument);
        }
        Ok(&self.vec[ptr.index()])
    }
}

} // verus!
