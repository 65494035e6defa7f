//! The stable-index collection that holds each subscriber's last seen message
//! id, backed by `slab::Slab`.
use slab::Slab;
use vstd::prelude::*;

verus! {

#[verifier::external_type_specification]
#[verifier::external_body]
#[verifier::reject_recursive_types(T)]
pub struct ExSlab<T>(Slab<T>);

/// What a slab of message ids holds: each occupied key with its value.
pub uninterp spec fn slab_entries(s: Slab<u64>) -> Map<usize, u64>;

/// Relies on `Slab::new`: a new slab holds nothing.
#[verifier::external_body]
pub(crate) fn slab_new() -> (r: Slab<u64>)
    ensures
        slab_entries(r).dom() == Set::<usize>::empty(),
{
    Slab::new()
}

/// Relies on `Slab::len`: the number of stored values.
#[verifier::external_body]
pub(crate) fn slab_len(s: &Slab<u64>) -> (r: usize)
    ensures
        r == slab_entries(*s).len(),
{
    s.len()
}

/// Relies on `Slab::insert`: the value is stored under a key that was vacant,
/// and that key is returned. The bound keeps the backing vector's growth
/// clear of its capacity overflow panic.
#[verifier::external_body]
pub(crate) fn slab_insert(s: &mut Slab<u64>, v: u64) -> (r: usize)
    requires
        slab_entries(*old(s)).len() < isize::MAX / 64,
    ensures
        !slab_entries(*old(s)).contains_key(r),
        slab_entries(*final(s)) == slab_entries(*old(s)).insert(r, v),
{
    s.insert(v)
}

/// Relies on `Slab::get`: the value under an occupied key, `None` otherwise.
#[verifier::external_body]
pub(crate) fn slab_get(s: &Slab<u64>, k: usize) -> (r: Option<u64>)
    ensures
        r == (if slab_entries(*s).contains_key(k) {
            Some(slab_entries(*s)[k])
        } else {
            None
        }),
{
    s.get(k).copied()
}

/// Relies on `Slab`'s `IndexMut`: overwrites the value under an occupied key
/// (it panics on a vacant one).
#[verifier::external_body]
pub(crate) fn slab_set(s: &mut Slab<u64>, k: usize, v: u64)
    requires
        slab_entries(*old(s)).contains_key(k),
    ensures
        slab_entries(*final(s)) == slab_entries(*old(s)).insert(k, v),
{
    s[k] = v;
}

/// Relies on `Slab::try_remove`: removes the key and hands back its value, if
/// it was occupied.
#[verifier::external_body]
pub(crate) fn slab_try_remove(s: &mut Slab<u64>, k: usize) -> (r: Option<u64>)
    ensures
        slab_entries(*final(s)) == slab_entries(*old(s)).remove(k),
        r == (if slab_entries(*old(s)).contains_key(k) {
            Some(slab_entries(*old(s))[k])
        } else {
            None
        }),
{
    s.try_remove(k)
}

/// Relies on `Slab::iter`: it yields each occupied key once, in increasing
/// order; only the keys are kept.
#[verifier::external_body]
pub(crate) fn slab_keys(s: &Slab<u64>) -> (r: Vec<usize>)
    ensures
        r@.no_duplicates(),
        forall|k: usize| r@.contains(k) <==> slab_entries(*s).contains_key(k),
{
    s.iter().map(|(k, _)| k).collect()
}

} // verus!
