//! Identifiers of matches, players and bombs: 128-bit numbers.

use vstd::prelude::*;

verus! {

/// Whether a 128-bit identifier has the layout of a random (version 4)
/// identifier: version nibble 4, variant bits `10`.
pub open spec fn is_random_id(id: u128) -> bool {
    &&& id & 0x0000_0000_0000_F000_0000_0000_0000_0000u128 == 0x0000_0000_0000_4000_0000_0000_0000_0000u128
    &&& id & 0x0000_0000_0000_0000_C000_0000_0000_0000u128 == 0x0000_0000_0000_0000_8000_0000_0000_0000u128
}

/// Draws a new random identifier with `uuid::Uuid::new_v4` and hands it
/// over as the 128-bit number that `Uuid::as_u128` gives. Trusted: the
/// number has the version and variant bits that `new_v4` sets. Nothing
/// else is claimed of it: two calls may return anything. The draw relies
/// on the operating system's source of random numbers.
#[verifier::external_body]
pub(crate) fn fresh_id() -> (id: u128)
    ensures
        is_random_id(id),
{
    uuid::Uuid::new_v4().as_u128()
}

/// Whether `i` is the first place at which `id` stands in `ids`.
pub open spec fn is_first_index(ids: Seq<u128>, id: u128, i: int) -> bool {
    &&& 0 <= i < ids.len()
    &&& ids[i] == id
    &&& forall|j: int| 0 <= j < i ==> ids[j] != id
}

/// The first place at which `id` stands in `ids`, if it stands there at all.
pub open spec fn first_index(ids: Seq<u128>, id: u128) -> Option<int> {
    if ids.contains(id) {
        Some(choose|i: int| is_first_index(ids, id, i))
    } else {
        None
    }
}

/// An identifier that stands at place `k` has a first place, at or before `k`.
proof fn lemma_has_first_index(ids: Seq<u128>, id: u128, k: int)
    requires
        0 <= k < ids.len(),
        ids[k] == id,
    ensures
        exists|i: int| is_first_index(ids, id, i),
    decreases k,
{
    if exists|j: int| 0 <= j < k && ids[j] == id {
        let j = choose|j: int| 0 <= j < k && ids[j] == id;
        lemma_has_first_index(ids, id, j);
    } else {
        assert(is_first_index(ids, id, k));
    }
}

/// `first_index` finds the first place of an identifier, and finds none
/// exactly when the identifier does not occur.
pub proof fn lemma_first_index(ids: Seq<u128>, id: u128)
    ensures
        match first_index(ids, id) {
            Some(i) => is_first_index(ids, id, i),
            None => forall|j: int| 0 <= j < ids.len() ==> ids[j] != id,
        },
{
    if ids.contains(id) {
        let k = choose|k: int| 0 <= k < ids.len() && ids[k] == id;
        lemma_has_first_index(ids, id, k);
    }
}

/// There is one first place only.
pub proof fn lemma_first_index_is(ids: Seq<u128>, id: u128, i: int)
    requires
        is_first_index(ids, id, i),
    ensures
        first_index(ids, id) == Some(i),
{
    lemma_first_index(ids, id);
}

/// No identifier occurs twice.
pub open spec fn distinct(ids: Seq<u128>) -> bool {
    forall|i: int, j: int| 0 <= i < j < ids.len() ==> ids[i] != ids[j]
}

} // verus!
