//! The slot table of open connections: a `slab::Slab`, used through a small
//! set of contracts that say what each call does to the table's contents.

use vstd::prelude::*;
use crate::exec::model::Connection;

verus! {

#[verifier::external_type_specification]
#[verifier::external_body]
#[verifier::reject_recursive_types(T)]
pub struct ExSlab<T>(slab::Slab<T>);

/// What a slot table holds: the connection stored under each occupied key.
pub uninterp spec fn slab_entries(s: slab::Slab<Connection>) -> Map<usize, Connection>;

/// A table that holds nothing.
pub open spec fn no_entries() -> Map<usize, Connection> {
    Map::empty()
}

/// `Slab::new`: a slab with no stored value.
#[verifier::external_body]
pub(crate) fn slab_new() -> (s: slab::Slab<Connection>)
    ensures
        slab_entries(s) == no_entries(),
{
    slab::Slab::new()
}

/// `Slab::insert`: stores the value under a key that held nothing, returns
/// that key, and leaves every other key as it was. The key is an index
/// into the slab's vector of entries, so it lies below half the range of
/// `usize`. The slab held finitely many values.
#[verifier::external_body]
pub(crate) fn slab_insert(s: &mut slab::Slab<Connection>, value: Connection) -> (key: usize)
    ensures
        !slab_entries(*old(s)).contains_key(key),
        key < usize::MAX / 2,
        slab_entries(*old(s)).dom().finite(),
        slab_entries(*final(s)) == slab_entries(*old(s)).insert(key, value),
{
    s.insert(value)
}

/// `Slab::try_remove`: takes out and returns the value under `key`, if
/// there is one, and leaves every other key as it was. The slab held
/// finitely many values.
#[verifier::external_body]
pub(crate) fn slab_try_remove(s: &mut slab::Slab<Connection>, key: usize) -> (r: Option<
    Connection,
>)
    ensures
        slab_entries(*old(s)).dom().finite(),
        slab_entries(*final(s)) == slab_entries(*old(s)).remove(key),
        match r {
            Some(value) => slab_entries(*old(s)).contains_key(key) && value == slab_entries(
                *old(s),
            )[key],
            None => !slab_entries(*old(s)).contains_key(key),
        },
{
    s.try_remove(key)
}

/// `Slab::get`: the value under `key`, if there is one.
#[verifier::external_body]
pub(crate) fn slab_get(s: &slab::Slab<Connection>, key: usize) -> (r: Option<&Connection>)
    ensures
        match r {
            Some(value) => slab_entries(*s).contains_key(key) && *value == slab_entries(*s)[key],
            None => !slab_entries(*s).contains_key(key),
        },
{
    s.get(key)
}

/// `Slab::get_mut`: the value under `key`, if there is one, for changing in
/// place. The table afterwards holds what the caller left in it under
/// `key`, and every other key as it was.
#[verifier::external_body]
pub(crate) fn slab_get_mut(s: &mut slab::Slab<Connection>, key: usize) -> (r: Option<
    &mut Connection,
>)
    ensures
        match r {
            Some(value) => slab_entries(*old(s)).contains_key(key) && *value == slab_entries(
                *old(s),
            )[key] && slab_entries(*final(s)) == slab_entries(*old(s)).insert(
                key,
                *final(value),
            ),
            None => !slab_entries(*old(s)).contains_key(key) && slab_entries(*final(s))
                == slab_entries(*old(s)),
        },
{
    s.get_mut(key)
}

/// Whether `table` holds exactly `n` values.
pub open spec fn holds(table: Map<usize, Connection>, n: usize) -> bool {
    table.dom().finite() && table.dom().len() == n
}

/// `Slab::len`: the number of stored values, of which there are finitely
/// many.
#[verifier::external_body]
pub(crate) fn slab_len(s: &slab::Slab<Connection>) -> (n: usize)
    ensures
        holds(slab_entries(*s), n),
{
    s.len()
}

/// `Slab::contains`: whether a value is stored under `key`.
#[verifier::external_body]
pub(crate) fn slab_contains(s: &slab::Slab<Connection>, key: usize) -> (b: bool)
    ensures
        b == slab_entries(*s).contains_key(key),
{
    s.contains(key)
}

} // verus!
