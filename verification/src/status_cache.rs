//! The short-lived cache of the project status list behind the dashboard and the API.

use vstd::prelude::*;

use crate::projects::ProjectStatus;
use crate::ttl_cache::TtlCache;

verus! {

/// How long a status list is reused, in milliseconds: long enough to absorb repeated
/// refreshes, short enough for an operator's reload.
pub const DEFAULT_TTL_MS: u64 = 15000;

/// The cached project status list.
pub type StatusCache = TtlCache<Vec<ProjectStatus>>;

impl TtlCache<Vec<ProjectStatus>> {
    /// An empty status cache with the default time to live.
    pub fn new() -> (r: StatusCache)
        ensures
            r.held() is None,
            r.ttl() == DEFAULT_TTL_MS,
    {
        TtlCache::with_ttl(DEFAULT_TTL_MS)
    }
}

} // verus!
