//! Which cache a device has copied, and whether the copy is still good.

use vstd::prelude::*;

verus! {

/// The number of a cache and that of its last change by the host.  A device that has copied the
/// cache under the same two numbers need not copy it again.
#[derive(Clone, Copy, Debug, PartialEq, Eq, Structural)]
pub struct CacheStamp {
    pub cache_id: u64,
    pub revision: u64,
}

/// What makes a copy useless.
pub enum StampEvent {
    /// A new cache takes the place of the old.
    NewCache,
    /// The host has run the layers of the device and changed the cache.
    HostRun,
}

/// A stamp after such an event, where its numbers can still grow.
pub open spec fn stamped(s: CacheStamp, e: StampEvent) -> CacheStamp {
    CacheStamp {
        cache_id: if e is NewCache {
            (s.cache_id + 1) as u64
        } else {
            s.cache_id
        },
        revision: (s.revision + 1) as u64,
    }
}

/// A stamp after some events.
pub open spec fn all_stamped(s: CacheStamp, events: Seq<StampEvent>) -> CacheStamp
    decreases events.len(),
{
    if events.len() == 0 {
        s
    } else {
        stamped(all_stamped(s, events.drop_last()), events.last())
    }
}

/// Law: no stamp comes again: after any events it differs from what it was.
pub proof fn law_stamps_differ(s: CacheStamp, events: Seq<StampEvent>)
    requires
        events.len() > 0,
        s.revision + events.len() <= u64::MAX,
    ensures
        all_stamped(s, events) != s,
        all_stamped(s, events).revision == s.revision + events.len(),
    decreases events.len(),
{
    if events.len() > 1 {
        law_stamps_differ(s, events.drop_last());
    } else {
        assert(all_stamped(s, events.drop_last()) == s);
    }
}

impl CacheStamp {
    /// The stamp of a model's first cache; no device has copied anything under it.
    pub fn new() -> (r: CacheStamp)
        ensures
            r.cache_id == 1,
            r.revision == 1,
    {
        CacheStamp { cache_id: 1, revision: 1 }
    }

    /// A new cache takes the place of the old.
    pub fn next_cache(&mut self)
        requires
            old(self).cache_id < u64::MAX,
            old(self).revision < u64::MAX,
        ensures
            *final(self) == stamped(*old(self), StampEvent::NewCache),
    {
        self.cache_id += 1;
        self.revision += 1;
    }

    /// The host has run the layers of the device and changed the cache.
    pub fn host_ran(&mut self)
        requires
            old(self).revision < u64::MAX,
        ensures
            *final(self) == stamped(*old(self), StampEvent::HostRun),
    {
        self.revision += 1;
    }
}

} // verus!
