//! Sets and maps hashed by FNV, on integer keys.

use vstd::prelude::*;
use fnv::{FnvHashMap, FnvHashSet, FnvHasher};
use std::hash::BuildHasherDefault;

verus! {

/// The builder of hashers that FNV collections are made with.
#[verifier::external_type_specification]
#[verifier::external_body]
#[verifier::reject_recursive_types(H)]
pub struct ExBuildHasherDefault<H>(BuildHasherDefault<H>);

/// The FNV hasher.
#[verifier::external_type_specification]
#[verifier::external_body]
pub struct ExFnvHasher(FnvHasher);

/// `HashSet::insert` on an FNV set: afterwards the set holds `value` besides
/// what it held before.
#[verifier::external_body]
pub(crate) fn fnv_set_insert(set: &mut FnvHashSet<u64>, value: u64)
    ensures
        final(set)@ == old(set)@.insert(value),
{
    set.insert(value);
}

/// The elements of an FNV set as `HashSet::iter` walks them: each element
/// once. The order follows the hashes and is left open.
#[verifier::external_body]
pub(crate) fn fnv_set_elements(set: &FnvHashSet<u64>) -> (res: Vec<u64>)
    ensures
        res@.to_set() == set@,
        res@.no_duplicates(),
{
    set.iter().copied().collect()
}

/// `HashMap::get` on an FNV map: the value stored under `key`, if any.
#[verifier::external_body]
pub(crate) fn fnv_map_get(map: &FnvHashMap<u64, u64>, key: u64) -> (res: Option<u64>)
    ensures
        res == (if map@.contains_key(key) {
            Some(map@[key])
        } else {
            None::<u64>
        }),
{
    map.get(&key).copied()
}

} // verus!
