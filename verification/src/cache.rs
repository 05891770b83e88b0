//! The per-node cache of layout results, as the layout algorithms provide it.

use vstd::prelude::*;

verus! {

/// A node's cached layout results. Nothing is known of its inside but which of
/// its slots are occupied.
#[verifier::external_type_specification]
#[verifier::external_body]
pub struct ExCache(taffy::Cache);

/// The slots of a cache that hold a result: one for the final layout, and one
/// for each kind of preliminary measurement.
pub uninterp spec fn occupied_slots(cache: taffy::Cache) -> Set<nat>;

/// Calls `taffy::Cache::new`, and claims of it that no slot of the new cache is
/// occupied.
#[verifier::external_body]
pub(crate) fn new_cache() -> (cache: taffy::Cache)
    ensures
        occupied_slots(cache) == Set::<nat>::empty(),
{
    taffy::Cache::new()
}

/// Calls `taffy::Cache::clear`, and claims of it that no slot is occupied
/// afterwards. Whether any was before, which that function reports, is ignored.
#[verifier::external_body]
pub(crate) fn clear_cache(cache: &mut taffy::Cache)
    ensures
        occupied_slots(*final(cache)) == Set::<nat>::empty(),
{
    cache.clear();
}

} // verus!
