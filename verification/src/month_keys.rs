use vstd::prelude::*;
use ahash::{HashSetExt, RandomState};
use std::collections::HashSet;

verus! {

/// `ahash::RandomState`, the hasher of the key sets below.
#[verifier::external_type_specification]
#[verifier::external_body]
pub struct ExAhashRandomState(RandomState);

/// `ahash::HashSetExt::new` on `HashSet<(i32, u8), ahash::RandomState>`: a new set, which is empty.
#[verifier::external_body]
pub(crate) fn new_key_set() -> (set: HashSet<(i32, u8), RandomState>)
    ensures
        set@ == Set::<(i32, u8)>::empty(),
{
    <HashSet<(i32, u8), RandomState> as HashSetExt>::new()
}

/// `HashSet::insert` on a set hashed by `ahash::RandomState`: afterwards the set
/// holds what it held before and `key`.
#[verifier::external_body]
pub(crate) fn insert_key(set: &mut HashSet<(i32, u8), RandomState>, key: (i32, u8))
    ensures
        final(set)@ == old(set)@.insert(key),
{
    set.insert(key);
}

/// `HashSet::len` on a set hashed by `ahash::RandomState`: the number of distinct keys it holds.
#[verifier::external_body]
pub(crate) fn key_count(set: &HashSet<(i32, u8), RandomState>) -> (count: usize)
    ensures
        count == set@.len(),
{
    set.len()
}

} // verus!
