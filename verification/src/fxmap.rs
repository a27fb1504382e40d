//! Maps from integers that hash with `rustc_hash`.

use rustc_hash::FxHashMap;
use vstd::prelude::*;

verus! {

/// `rustc_hash::FxBuildHasher`, the hasher factory inside an `FxHashMap`.
#[verifier::external_type_specification]
#[verifier::external_body]
pub struct ExFxBuildHasher(rustc_hash::FxBuildHasher);

/// `get` on an `rustc_hash::FxHashMap`: the value that the key was last
/// inserted with, if any. The hasher is a function of the key alone, and `u64`
/// keys are equal exactly if they are the same number.
#[verifier::external_body]
pub(crate) fn fx_get<V: Copy>(m: &FxHashMap<u64, V>, key: u64) -> (r: Option<V>)
    ensures
        r == (if m@.contains_key(key) {
            Some(m@[key])
        } else {
            None
        }),
{
    m.get(&key).copied()
}

/// `insert` on an `rustc_hash::FxHashMap`: the key now has the given value, and
/// every other key has what it had.
#[verifier::external_body]
pub(crate) fn fx_insert<V: Copy>(m: &mut FxHashMap<u64, V>, key: u64, value: V)
    ensures
        final(m)@ == old(m)@.insert(key, value),
{
    m.insert(key, value);
}

} // verus!
