//! A single cached value that is fresh for a fixed time after it was stored.

use vstd::prelude::*;

verus! {

#[verifier::external_type_specification]
#[verifier::external_body]
pub struct ExInstant(std::time::Instant);

/// A reading of the monotonic clock (`std::time::Instant::now`).
#[verifier::external_body]
fn instant_now() -> std::time::Instant {
    std::time::Instant::now()
}

/// Milliseconds since `since` by the monotonic clock (`Instant::elapsed`, then
/// `Duration::as_millis`). Nothing is promised of the value.
#[verifier::external_body]
fn millis_since(since: &std::time::Instant) -> u128 {
    since.elapsed().as_millis()
}

/// A value with the time it was stored.
pub struct CacheEntry<T> {
    pub value: T,
    pub fetched_at: std::time::Instant,
}

/// One cached value, fresh for `ttl_ms` milliseconds after it is stored.
pub struct TtlCache<T> {
    entry: Option<CacheEntry<T>>,
    ttl_ms: u64,
}

impl<T> TtlCache<T> {
    /// The value held, fresh or not.
    pub closed spec fn held(&self) -> Option<T> {
        match self.entry {
            Some(e) => Some(e.value),
            None => None,
        }
    }

    /// How long a stored value stays fresh, in milliseconds.
    pub closed spec fn ttl(&self) -> u64 {
        self.ttl_ms
    }

    /// What the cache gives when its value was stored `age_ms` milliseconds ago: the value
    /// held, if any, while that is less than the time to live.
    pub open spec fn fresh_value(&self, age_ms: u128) -> Option<T> {
        if self.held() is Some && age_ms < self.ttl() as u128 {
            self.held()
        } else {
            None
        }
    }

    /// An empty cache whose values stay fresh for `ttl_ms` milliseconds.
    pub fn with_ttl(ttl_ms: u64) -> (r: TtlCache<T>)
        ensures
            r.held() is None,
            r.ttl() == ttl_ms,
    {
        TtlCache { entry: None, ttl_ms }
    }

    /// The value held, when it was stored less than the time to live ago: `age_ms` is
    /// how long ago it was stored.
    pub fn value_if_fresh(&self, age_ms: u128) -> (r: Option<&T>)
        ensures
            r == (if self.held() is Some && age_ms < self.ttl() as u128 {
                Some(&self.held()->0)
            } else {
                None
            }),
    {
        match &self.entry {
            Some(e) => if age_ms < self.ttl_ms as u128 {
                Some(&e.value)
            } else {
                None
            },
            None => None,
        }
    }

    /// The value held, when it is still fresh by the monotonic clock: what the cache gives
    /// at the age the clock reports for the stored value.
    pub fn get(&self) -> (r: Option<&T>)
        ensures
            self.held() is None ==> r is None,
            r matches Some(v) ==> self.held() == Some(*v),
            exists|age: u128| match r {
                Some(v) => #[trigger] self.fresh_value(age) == Some(*v),
                None => self.fresh_value(age) is None,
            },
    {
        match &self.entry {
            Some(e) => {
                let age = millis_since(&e.fetched_at);
                let r = self.value_if_fresh(age);
                assert(match r {
                    Some(v) => self.fresh_value(age) == Some(*v),
                    None => self.fresh_value(age) is None,
                });
                r
            },
            None => {
                assert(self.fresh_value(0) is None);
                None
            },
        }
    }

    /// Stores `value`, fresh from now.
    pub fn set(&mut self, value: T)
        ensures
            final(self).held() == Some(value),
            final(self).ttl() == old(self).ttl(),
    {
        self.entry = Some(CacheEntry { value, fetched_at: instant_now() });
    }

    /// Drops the value held.
    pub fn invalidate(&mut self)
        ensures
            final(self).held() is None,
            final(self).ttl() == old(self).ttl(),
    {
        self.entry = None;
    }
}

} // verus!
