//! The call registry: the per-context table correlating outstanding
//! asynchronous call handles with their expected result type and timeout
//! deadline. An entry is consumed exactly once — on completion routing, on a
//! platform-reported I/O failure, or on timeout expiry — and teardown discards
//! whatever is still pending without resolving it.

use vstd::prelude::*;

use crate::error::SteamError;
use crate::items::SteamPurchase;
use crate::wire::spec_decode_purchase;

verus! {

/// The expected result type of a pending asynchronous call, recorded at
/// registration and used to pick the payload decoder on completion.
#[derive(Clone, Copy, Debug, PartialEq, Eq, Structural)]
pub enum ResultTag {
    /// The call answers with a purchase result payload.
    Purchase,
}

/// One outstanding asynchronous call: its opaque handle, the result type its
/// payload is decoded as, and the tick time at which its timeout budget ends.
#[derive(Clone, Copy, Debug, PartialEq, Eq, Structural)]
pub struct PendingEntry {
    pub handle: u64,
    pub tag: ResultTag,
    pub deadline: u64,
}

/// The resolved outcome of one pending entry, to be delivered to the
/// completion callback the embedding layer keeps for this handle.
#[derive(Clone, Copy, Debug, PartialEq, Eq)]
pub struct Resolution {
    pub handle: u64,
    pub outcome: Result<SteamPurchase, SteamError>,
}

/// Whether entry `e`'s timeout budget has elapsed at tick time `now`.
pub open spec fn expired(e: PendingEntry, now: u64) -> bool {
    now >= e.deadline
}

/// The outcome an entry resolves to when its result arrives: an I/O failure
/// when the platform flagged one (the payload is then ignored), else the
/// payload decoded as the entry's expected result type.
pub open spec fn entry_outcome(e: PendingEntry, payload: Seq<u8>, io_error: bool) -> Result<
    SteamPurchase,
    SteamError,
> {
    if io_error {
        Err(SteamError::IOFailure)
    } else {
        match e.tag {
            ResultTag::Purchase => spec_decode_purchase(payload),
        }
    }
}

/// The mathematical content of a sequence of entries: the map from call
/// handle to its entry.
pub open spec fn entries_map(s: Seq<PendingEntry>) -> Map<u64, PendingEntry>
    decreases s.len(),
{
    if s.len() == 0 {
        Map::empty()
    } else {
        entries_map(s.drop_last()).insert(s.last().handle, s.last())
    }
}

/// At most one entry per call handle.
pub open spec fn handles_unique(s: Seq<PendingEntry>) -> bool {
    forall|i: int, j: int| 0 <= i < j < s.len() ==> s[i].handle != s[j].handle
}

proof fn lemma_unique_drop_last(s: Seq<PendingEntry>)
    requires
        handles_unique(s),
        s.len() > 0,
    ensures
        handles_unique(s.drop_last()),
{
    assert forall|i: int, j: int|
        0 <= i < j < s.drop_last().len() implies s.drop_last()[i].handle
        != s.drop_last()[j].handle by {
        assert(s.drop_last()[i] == s[i]);
        assert(s.drop_last()[j] == s[j]);
    }
}

/// A handle is in the map of a sequence of entries exactly when some entry
/// carries it.
pub proof fn lemma_entries_map_dom(s: Seq<PendingEntry>, h: u64)
    ensures
        entries_map(s).dom().contains(h) <==> exists|i: int|
            0 <= i < s.len() && s[i].handle == h,
    decreases s.len(),
{
    if s.len() > 0 {
        lemma_entries_map_dom(s.drop_last(), h);
        if s.last().handle == h {
            assert(s[s.len() - 1].handle == h);
        } else {
            if entries_map(s.drop_last()).dom().contains(h) {
                let i = choose|i: int| 0 <= i < s.drop_last().len() && s.drop_last()[i].handle
                    == h;
                assert(s[i].handle == h);
            }
            if exists|i: int| 0 <= i < s.len() && s[i].handle == h {
                let i = choose|i: int| 0 <= i < s.len() && s[i].handle == h;
                assert(s.drop_last()[i].handle == h);
            }
        }
    }
}

/// In a sequence with unique handles, the map sends each entry's handle to
/// that entry.
pub proof fn lemma_entries_map_index(s: Seq<PendingEntry>, i: int)
    requires
        handles_unique(s),
        0 <= i < s.len(),
    ensures
        entries_map(s).dom().contains(s[i].handle),
        entries_map(s)[s[i].handle] == s[i],
    decreases s.len(),
{
    if i < s.len() - 1 {
        lemma_unique_drop_last(s);
        lemma_entries_map_index(s.drop_last(), i);
        assert(s.drop_last()[i] == s[i]);
    }
}

/// Removing the entry at index `i` removes exactly its handle from the map.
pub proof fn lemma_entries_map_remove(s: Seq<PendingEntry>, i: int)
    requires
        handles_unique(s),
        0 <= i < s.len(),
    ensures
        handles_unique(s.remove(i)),
        entries_map(s.remove(i)) == entries_map(s).remove(s[i].handle),
    decreases s.len(),
{
    let t = s.remove(i);
    assert forall|p: int, q: int|
        0 <= p < q < t.len() implies t[p].handle != t[q].handle by {
        assert(t[p] == (if p < i { s[p] } else { s[p + 1] }));
        assert(t[q] == (if q < i { s[q] } else { s[q + 1] }));
    }
    lemma_unique_drop_last(s);
    lemma_entries_map_dom(s.drop_last(), s[i].handle);
    if i == s.len() - 1 {
        assert(t =~= s.drop_last());
        assert(entries_map(t) =~= entries_map(s).remove(s[i].handle));
    } else {
        lemma_entries_map_remove(s.drop_last(), i);
        assert(t.drop_last() =~= s.drop_last().remove(i));
        assert(t.last() == s.last());
        assert(s.drop_last()[i] == s[i]);
        assert(entries_map(t) == entries_map(s.drop_last().remove(i)).insert(
            s.last().handle,
            s.last(),
        ));
        assert(entries_map(t) =~= entries_map(s).remove(s[i].handle));
    }
}

/// In a sequence with unique handles, the map's domain has exactly one
/// element per entry.
pub proof fn lemma_entries_map_len(s: Seq<PendingEntry>)
    requires
        handles_unique(s),
    ensures
        entries_map(s).dom().finite(),
        entries_map(s).dom().len() == s.len(),
    decreases s.len(),
{
    if s.len() > 0 {
        lemma_unique_drop_last(s);
        lemma_entries_map_len(s.drop_last());
        lemma_entries_map_dom(s.drop_last(), s.last().handle);
        assert(!entries_map(s.drop_last()).dom().contains(s.last().handle));
    }
}

/// The per-context table of outstanding asynchronous calls. Its mathematical
/// content is the map from call handle to pending entry, given by `view`;
/// `wf` says the representation holds at most one entry per handle.
pub struct CallRegistry {
    entries: Vec<PendingEntry>,
}

impl View for CallRegistry {
    type V = Map<u64, PendingEntry>;

    closed spec fn view(&self) -> Map<u64, PendingEntry> {
        entries_map(self.entries@)
    }
}

impl CallRegistry {
    /// Handle uniqueness of the representation.
    pub closed spec fn wf(&self) -> bool {
        handles_unique(self.entries@)
    }

    /// Creates an empty registry: nothing is pending.
    pub fn new() -> (r: CallRegistry)
        ensures
            r.wf(),
            r@ == Map::<u64, PendingEntry>::empty(),
    {
        CallRegistry { entries: Vec::new() }
    }

    /// Number of pending entries.
    pub fn len(&self) -> (n: usize)
        requires
            self.wf(),
        ensures
            n == self@.dom().len(),
    {
        proof {
            lemma_entries_map_len(self.entries@);
        }
        self.entries.len()
    }

    /// Whether an entry for `handle` is currently pending.
    pub fn is_pending(&self, handle: u64) -> (r: bool)
        ensures
            r == self@.dom().contains(handle),
    {
        let mut i: usize = 0;
        while i < self.entries.len()
            invariant
                i <= self.entries@.len(),
                forall|j: int| 0 <= j < i ==> self.entries@[j].handle != handle,
            decreases self.entries@.len() - i,
        {
            if self.entries[i].handle == handle {
                proof {
                    lemma_entries_map_dom(self.entries@, handle);
                }
                return true;
            }
            i += 1;
        }
        proof {
            lemma_entries_map_dom(self.entries@, handle);
        }
        false
    }

    fn find_index(&self, handle: u64) -> (r: Option<usize>)
        ensures
            match r {
                Some(i) => i < self.entries@.len() && self.entries@[i as int].handle == handle,
                None => !self@.dom().contains(handle),
            },
    {
        let mut i: usize = 0;
        while i < self.entries.len()
            invariant
                i <= self.entries@.len(),
                forall|j: int| 0 <= j < i ==> self.entries@[j].handle != handle,
            decreases self.entries@.len() - i,
        {
            if self.entries[i].handle == handle {
                return Some(i);
            }
            i += 1;
        }
        proof {
            lemma_entries_map_dom(self.entries@, handle);
        }
        None
    }

    fn find_expired(&self, now: u64) -> (r: Option<usize>)
        ensures
            match r {
                Some(i) => i < self.entries@.len() && expired(self.entries@[i as int], now),
                None => forall|j: int|
                    0 <= j < self.entries@.len() ==> !expired(self.entries@[j], now),
            },
    {
        let mut i: usize = 0;
        while i < self.entries.len()
            invariant
                i <= self.entries@.len(),
                forall|j: int| 0 <= j < i ==> !expired(self.entries@[j], now),
            decreases self.entries@.len() - i,
        {
            if now >= self.entries[i].deadline {
                return Some(i);
            }
            i += 1;
        }
        None
    }

    /// Registers a new pending entry under `handle` and starts its timeout
    /// clock: the entry's deadline is `deadline`.
    ///
    /// A handle that is currently pending must not be registered again — the
    /// registry holds at most one entry per handle, and the platform never
    /// reuses a call handle while its entry is pending.
    pub fn register(&mut self, handle: u64, tag: ResultTag, deadline: u64)
        requires
            old(self).wf(),
            !old(self)@.dom().contains(handle),
        ensures
            final(self).wf(),
            final(self)@ == old(self)@.insert(
                handle,
                PendingEntry { handle, tag, deadline },
            ),
    {
        proof {
            lemma_entries_map_dom(self.entries@, handle);
        }
        let e = PendingEntry { handle, tag, deadline };
        self.entries.push(e);
        proof {
            assert(self.entries@.drop_last() =~= old(self).entries@);
            assert(self.entries@.last() == e);
            assert forall|i: int, j: int|
                0 <= i < j < self.entries@.len() implies self.entries@[i].handle
                != self.entries@[j].handle by {
                if j < self.entries@.len() - 1 {
                    assert(old(self).entries@[i].handle != old(self).entries@[j].handle);
                } else {
                    assert(old(self).entries@[i].handle != handle);
                }
            }
        }
    }

    /// Completion routing: removes the entry for `handle` and resolves it —
    /// with an I/O failure when the platform flagged one, else with the
    /// decoded payload. A lookup miss is a silent no-op: the call may already
    /// have been abandoned, so an unknown handle is an expected race, not an
    /// error.
    pub fn complete(&mut self, handle: u64, payload: &[u8], io_error: bool) -> (r: Option<
        Resolution,
    >)
        requires
            old(self).wf(),
        ensures
            final(self).wf(),
            final(self)@ == old(self)@.remove(handle),
            old(self)@.dom().contains(handle) ==> r == Some(
                Resolution {
                    handle,
                    outcome: entry_outcome(old(self)@[handle], payload@, io_error),
                },
            ),
            !old(self)@.dom().contains(handle) ==> r is None && final(self)@ == old(self)@,
    {
        match self.find_index(handle) {
            None => {
                proof {
                    assert(old(self)@.remove(handle) =~= old(self)@);
                }
                None
            },
            Some(i) => {
                proof {
                    lemma_entries_map_index(self.entries@, i as int);
                    lemma_entries_map_remove(self.entries@, i as int);
                }
                let e = self.entries.remove(i);
                let outcome: Result<SteamPurchase, SteamError> = if io_error {
                    Err(SteamError::IOFailure)
                } else {
                    match e.tag {
                        ResultTag::Purchase => crate::wire::decode_purchase_result(payload),
                    }
                };
                Some(Resolution { handle, outcome })
            },
        }
    }

    /// The timeout sweep: removes every entry whose deadline has elapsed at
    /// `now` and reports a timeout resolution for each, so that a native call
    /// that silently never completes still resolves its callback exactly
    /// once. Entries whose deadline has not elapsed stay pending, unchanged.
    pub fn sweep_timeouts(&mut self, now: u64) -> (res: Vec<Resolution>)
        requires
            old(self).wf(),
        ensures
            final(self).wf(),
            forall|h: u64| #[trigger]
                final(self)@.dom().contains(h) <==> (old(self)@.dom().contains(h) && !expired(
                    old(self)@[h],
                    now,
                )),
            forall|h: u64| #[trigger]
                final(self)@.dom().contains(h) ==> final(self)@[h] == old(self)@[h],
            forall|h: u64|
                old(self)@.dom().contains(h) && expired(#[trigger] old(self)@[h], now)
                    ==> exists|k: int|
                    0 <= k < res@.len() && res@[k] == (Resolution {
                        handle: h,
                        outcome: Err(SteamError::Timeout),
                    }),
            forall|k: int|
                0 <= k < res@.len() ==> (#[trigger] res@[k]).outcome == Err::<
                    SteamPurchase,
                    SteamError,
                >(SteamError::Timeout) && old(self)@.dom().contains(res@[k].handle) && expired(
                    old(self)@[res@[k].handle],
                    now,
                ) && !final(self)@.dom().contains(res@[k].handle),
            forall|k1: int, k2: int|
                0 <= k1 < k2 < res@.len() ==> res@[k1].handle != res@[k2].handle,
    {
        let ghost m0 = self@;
        let mut res: Vec<Resolution> = Vec::new();
        loop
            invariant
                self.wf(),
                forall|h: u64| #[trigger]
                    self@.dom().contains(h) ==> m0.dom().contains(h) && self@[h] == m0[h],
                forall|h: u64|
                    m0.dom().contains(h) && !self@.dom().contains(h) ==> expired(
                        #[trigger] m0[h],
                        now,
                    ) && exists|k: int|
                        0 <= k < res@.len() && res@[k] == (Resolution {
                            handle: h,
                            outcome: Err(SteamError::Timeout),
                        }),
                forall|k: int|
                    0 <= k < res@.len() ==> (#[trigger] res@[k]).outcome == Err::<
                        SteamPurchase,
                        SteamError,
                    >(SteamError::Timeout) && m0.dom().contains(res@[k].handle) && expired(
                        m0[res@[k].handle],
                        now,
                    ) && !self@.dom().contains(res@[k].handle),
                forall|k1: int, k2: int|
                    0 <= k1 < k2 < res@.len() ==> res@[k1].handle != res@[k2].handle,
            ensures
                self.wf(),
                forall|h: u64| #[trigger]
                    self@.dom().contains(h) ==> m0.dom().contains(h) && self@[h] == m0[h],
                forall|h: u64|
                    m0.dom().contains(h) && !self@.dom().contains(h) ==> expired(
                        #[trigger] m0[h],
                        now,
                    ) && exists|k: int|
                        0 <= k < res@.len() && res@[k] == (Resolution {
                            handle: h,
                            outcome: Err(SteamError::Timeout),
                        }),
                forall|k: int|
                    0 <= k < res@.len() ==> (#[trigger] res@[k]).outcome == Err::<
                        SteamPurchase,
                        SteamError,
                    >(SteamError::Timeout) && m0.dom().contains(res@[k].handle) && expired(
                        m0[res@[k].handle],
                        now,
                    ) && !self@.dom().contains(res@[k].handle),
                forall|k1: int, k2: int|
                    0 <= k1 < k2 < res@.len() ==> res@[k1].handle != res@[k2].handle,
                forall|h: u64| #[trigger] self@.dom().contains(h) ==> !expired(self@[h], now),
            decreases self.entries@.len(),
        {
            match self.find_expired(now) {
                None => {
                    proof {
                        assert forall|h: u64| #[trigger]
                            self@.dom().contains(h) implies !expired(self@[h], now) by {
                            lemma_entries_map_dom(self.entries@, h);
                            let i = choose|i: int|
                                0 <= i < self.entries@.len() && self.entries@[i].handle == h;
                            lemma_entries_map_index(self.entries@, i);
                        }
                    }
                    break;
                },
                Some(i) => {
                    let ghost pre_res = res@;
                    let ghost pre_entries = self.entries@;
                    let ghost pre_map = self@;
                    proof {
                        lemma_entries_map_index(pre_entries, i as int);
                        lemma_entries_map_remove(pre_entries, i as int);
                    }
                    let e = self.entries.remove(i);
                    res.push(Resolution { handle: e.handle, outcome: Err(SteamError::Timeout) });
                    proof {
                        assert(e == pre_entries[i as int]);
                        assert(self.entries@ == pre_entries.remove(i as int));
                        assert(self@ == pre_map.remove(e.handle));
                        assert(pre_map.dom().contains(e.handle) && pre_map[e.handle] == e);
                        assert(res@ == pre_res.push(
                            Resolution {
                                handle: e.handle,
                                outcome: Err::<SteamPurchase, SteamError>(SteamError::Timeout),
                            },
                        ));
                        assert forall|h: u64|
                            m0.dom().contains(h) && !self@.dom().contains(h) implies expired(
                            #[trigger] m0[h],
                            now,
                        ) && exists|k: int|
                            0 <= k < res@.len() && res@[k] == (Resolution {
                                handle: h,
                                outcome: Err(SteamError::Timeout),
                            }) by {
                            if h == e.handle {
                                assert(res@[res@.len() - 1] == (Resolution {
                                    handle: h,
                                    outcome: Err::<SteamPurchase, SteamError>(SteamError::Timeout),
                                }));
                            } else {
                                assert(!pre_map.dom().contains(h));
                                assert(expired(m0[h], now));
                                assert(exists|k: int|
                                    0 <= k < pre_res.len() && pre_res[k] == (Resolution {
                                        handle: h,
                                        outcome: Err::<SteamPurchase, SteamError>(
                                            SteamError::Timeout,
                                        ),
                                    }));
                                let k = choose|k: int|
                                    0 <= k < pre_res.len() && pre_res[k] == (Resolution {
                                        handle: h,
                                        outcome: Err::<SteamPurchase, SteamError>(
                                            SteamError::Timeout,
                                        ),
                                    });
                                assert(res@[k] == (Resolution {
                                    handle: h,
                                    outcome: Err::<SteamPurchase, SteamError>(SteamError::Timeout),
                                }));
                            }
                        }
                    }
                },
            }
        }
        res
    }

    /// Context teardown support: drops every pending entry without resolving
    /// it. This is deliberate abandonment of in-flight work — no resolution
    /// is reported for the discarded entries, so their callbacks never fire.
    pub fn clear(&mut self)
        ensures
            final(self).wf(),
            final(self)@ == Map::<u64, PendingEntry>::empty(),
    {
        self.entries.clear();
    }
}

} // verus!
