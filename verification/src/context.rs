//! The shared context: the verified state of one platform session. It owns
//! the call registry and offers the per-tick dispatch step and teardown. The
//! embedding layer shares one context among the subsystem facades and the
//! thread that drives the dispatch loop (under a single exclusive lock when
//! those run concurrently), performs the native calls, and feeds this state
//! machine plain values: handles, drained records and tick timestamps.

use vstd::prelude::*;

use crate::dispatch::CallbackRecord;
use crate::dispatch::registry_after;
use crate::dispatch::resolutions_after;
use crate::dispatch::record_resolution;
use crate::dispatch::apply_record;
use crate::error::SteamError;
use crate::items::SteamPurchase;
use crate::registry::CallRegistry;
use crate::registry::PendingEntry;
use crate::registry::Resolution;
use crate::registry::ResultTag;
use crate::registry::expired;

verus! {

/// One platform session: the owner of the per-context call registry.
///
/// Its mathematical content is the registry's: the map from outstanding call
/// handle to pending entry.
pub struct SteamContext {
    registry: CallRegistry,
}

impl View for SteamContext {
    type V = Map<u64, PendingEntry>;

    closed spec fn view(&self) -> Map<u64, PendingEntry> {
        self.registry@
    }
}

impl SteamContext {
    /// The registry representation holds at most one entry per handle.
    pub closed spec fn wf(&self) -> bool {
        self.registry.wf()
    }

    /// Opens a fresh session: nothing is pending.
    pub fn new() -> (r: SteamContext)
        ensures
            r.wf(),
            r@ == Map::<u64, PendingEntry>::empty(),
    {
        SteamContext { registry: CallRegistry::new() }
    }

    /// Whether an entry for `handle` is currently pending.
    pub fn is_pending(&self, handle: u64) -> (r: bool)
        ensures
            r == self@.dom().contains(handle),
    {
        self.registry.is_pending(handle)
    }

    /// Number of outstanding asynchronous calls.
    pub fn pending_count(&self) -> (n: usize)
        requires
            self.wf(),
        ensures
            n == self@.dom().len(),
    {
        self.registry.len()
    }

    /// Registers a pending call under `handle` with its expected result type
    /// and timeout deadline. Used by the subsystem facades right after the
    /// platform issued the call; a handle that is already pending must not be
    /// registered again.
    pub fn register(&mut self, handle: u64, tag: ResultTag, deadline: u64)
        requires
            old(self).wf(),
            !old(self)@.dom().contains(handle),
        ensures
            final(self).wf(),
            final(self)@ == old(self)@.insert(handle, PendingEntry { handle, tag, deadline }),
    {
        self.registry.register(handle, tag, deadline)
    }

    /// The dispatch step, invoked by the embedding application once per tick
    /// with the records the platform has already queued (it performs no
    /// blocking work itself). Routes each record in order — resolving the
    /// targeted entry and consuming it, with lookup misses as silent no-ops —
    /// then sweeps the timeouts: every entry whose deadline has elapsed at
    /// `now` is removed and resolved with the timeout error.
    ///
    /// The returned resolutions are the record-driven ones, in drain order,
    /// followed by the timeout ones; each is to be delivered to the callback
    /// the embedding layer keeps for its handle, which fires exactly once.
    pub fn run_callbacks(&mut self, records: &Vec<CallbackRecord>, now: u64) -> (res: Vec<
        Resolution,
    >)
        requires
            old(self).wf(),
        ensures
            final(self).wf(),
            forall|h: u64| #[trigger]
                final(self)@.dom().contains(h) <==> (registry_after(
                    old(self)@,
                    records@,
                ).dom().contains(h) && !expired(registry_after(old(self)@, records@)[h], now)),
            forall|h: u64| #[trigger]
                final(self)@.dom().contains(h) ==> final(self)@[h] == registry_after(
                    old(self)@,
                    records@,
                )[h],
            resolutions_after(old(self)@, records@).len() <= res@.len(),
            res@.subrange(0, resolutions_after(old(self)@, records@).len() as int)
                == resolutions_after(old(self)@, records@),
            forall|k: int|
                resolutions_after(old(self)@, records@).len() <= k < res@.len() ==> (
                #[trigger] res@[k]).outcome == Err::<SteamPurchase, SteamError>(SteamError::Timeout)
                    && registry_after(old(self)@, records@).dom().contains(res@[k].handle)
                    && expired(registry_after(old(self)@, records@)[res@[k].handle], now)
                    && !(final(self)@.dom().contains(res@[k].handle)),
            forall|h: u64|
                registry_after(old(self)@, records@).dom().contains(h) && expired(
                    #[trigger] registry_after(old(self)@, records@)[h],
                    now,
                ) ==> exists|k: int|
                    resolutions_after(old(self)@, records@).len() <= k < res@.len() && res@[k]
                        == (Resolution { handle: h, outcome: Err(SteamError::Timeout) }),
            forall|k1: int, k2: int|
                resolutions_after(old(self)@, records@).len() <= k1 < k2 < res@.len() ==> res@[
                    k1
                ].handle != res@[k2].handle,
    {
        let ghost m0 = self@;
        let mut res: Vec<Resolution> = Vec::new();
        let mut i: usize = 0;
        while i < records.len()
            invariant
                self.wf(),
                i <= records@.len(),
                self@ == registry_after(m0, records@.take(i as int)),
                res@ == resolutions_after(m0, records@.take(i as int)),
            decreases records@.len() - i,
        {
            let ghost pre_map = self@;
            let ghost pre_res = res@;
            let r: Option<Resolution> = match &records[i] {
                CallbackRecord::CallResult { handle, payload, io_error } => self.registry.complete(
                    *handle,
                    payload.as_slice(),
                    *io_error,
                ),
                CallbackRecord::CallFailed { handle } => {
                    let empty: Vec<u8> = Vec::new();
                    self.registry.complete(*handle, empty.as_slice(), true)
                },
                CallbackRecord::Other => None,
            };
            match r {
                Some(x) => res.push(x),
                None => {},
            }
            proof {
                let next = records@.take(i + 1);
                assert(next.drop_last() =~= records@.take(i as int));
                assert(next.last() == records@[i as int]);
                assert(self@ == apply_record(pre_map, records@[i as int]));
                assert(res@ == (match record_resolution(pre_map, records@[i as int]) {
                    Some(x) => pre_res.push(x),
                    None => pre_res,
                }));
            }
            i += 1;
        }
        proof {
            assert(records@.take(records@.len() as int) =~= records@);
        }
        let ghost n0 = res@.len();
        let mut sw: Vec<Resolution> = self.registry.sweep_timeouts(now);
        let ghost sw0 = sw@;
        res.append(&mut sw);
        proof {
            assert(res@ == resolutions_after(m0, records@) + sw0);
            assert(res@.subrange(0, n0 as int) =~= resolutions_after(m0, records@));
            assert(forall|k: int| n0 <= k < res@.len() ==> res@[k] == sw0[k - n0]);
            assert forall|h: u64|
                registry_after(m0, records@).dom().contains(h) && expired(
                    #[trigger] registry_after(m0, records@)[h],
                    now,
                ) implies exists|k: int|
                n0 <= k < res@.len() && res@[k] == (Resolution {
                    handle: h,
                    outcome: Err(SteamError::Timeout),
                }) by {
                let k = choose|k: int|
                    0 <= k < sw0.len() && sw0[k] == (Resolution {
                        handle: h,
                        outcome: Err::<SteamPurchase, SteamError>(SteamError::Timeout),
                    });
                assert(res@[n0 + k] == sw0[k]);
            }
        }
        res
    }

    /// Tears the session down: every pending entry is discarded without being
    /// resolved — deliberate abandonment of in-flight work, not failure
    /// signaling. No resolution is reported, so no callback fires; afterwards
    /// nothing is pending, and any late record routes as a silent no-op.
    pub fn teardown(&mut self)
        ensures
            final(self).wf(),
            final(self)@ == Map::<u64, PendingEntry>::empty(),
    {
        self.registry.clear()
    }
}

} // verus!
