//! The mathematical model of the dispatch step: how one drained batch of raw
//! callback records transforms the call registry and which resolutions it
//! emits. The executable drain lives on [`crate::context::SteamContext`]; its
//! contract is stated over the functions of this module, and the proofs here
//! establish the exactly-once and timeout laws of the correlation core.

use vstd::prelude::*;

use crate::error::SteamError;
use crate::items::SteamPurchase;
use crate::registry::PendingEntry;
use crate::registry::Resolution;
use crate::registry::entry_outcome;

verus! {

/// One raw record drained from the platform's completed-callback queue this
/// tick.
#[derive(Debug, PartialEq, Eq)]
pub enum CallbackRecord {
    /// A "call result ready" record: the platform finished the asynchronous
    /// call behind `handle` and queued its raw result payload, together with
    /// its transport-failure flag.
    CallResult { handle: u64, payload: Vec<u8>, io_error: bool },
    /// An explicit "call failed" record for a tracked handle.
    CallFailed { handle: u64 },
    /// A callback of some other kind; the dispatch step ignores it.
    Other,
}

/// The call handle a record is about, if any.
pub open spec fn record_target(rec: CallbackRecord) -> Option<u64> {
    match rec {
        CallbackRecord::CallResult { handle, .. } => Some(handle),
        CallbackRecord::CallFailed { handle } => Some(handle),
        CallbackRecord::Other => None,
    }
}

/// The outcome a record resolves a pending entry to: the decoded payload (or
/// flagged I/O failure) for a result record, and an I/O failure for an
/// explicit failure record.
pub open spec fn record_outcome(e: PendingEntry, rec: CallbackRecord) -> Result<
    SteamPurchase,
    SteamError,
>
    recommends
        record_target(rec) is Some,
{
    match rec {
        CallbackRecord::CallResult { payload, io_error, .. } => entry_outcome(
            e,
            payload@,
            io_error,
        ),
        _ => Err(SteamError::IOFailure),
    }
}

/// The registry content after routing one record: the targeted entry, if
/// any, is consumed; records of other kinds change nothing.
pub open spec fn apply_record(m: Map<u64, PendingEntry>, rec: CallbackRecord) -> Map<
    u64,
    PendingEntry,
> {
    match record_target(rec) {
        Some(h) => m.remove(h),
        None => m,
    }
}

/// The resolution one record produces against registry content `m`: none if
/// the record targets no call or an unknown handle (a lookup miss is a silent
/// no-op), else the targeted entry's outcome.
pub open spec fn record_resolution(m: Map<u64, PendingEntry>, rec: CallbackRecord) -> Option<
    Resolution,
> {
    match record_target(rec) {
        Some(h) => if m.dom().contains(h) {
            Some(Resolution { handle: h, outcome: record_outcome(m[h], rec) })
        } else {
            None
        },
        None => None,
    }
}

/// The registry content after draining a whole batch of records in order.
pub open spec fn registry_after(m: Map<u64, PendingEntry>, records: Seq<CallbackRecord>) -> Map<
    u64,
    PendingEntry,
>
    decreases records.len(),
{
    if records.len() == 0 {
        m
    } else {
        apply_record(registry_after(m, records.drop_last()), records.last())
    }
}

/// The resolutions a whole batch of records produces, in drain order.
pub open spec fn resolutions_after(m: Map<u64, PendingEntry>, records: Seq<CallbackRecord>) -> Seq<
    Resolution,
>
    decreases records.len(),
{
    if records.len() == 0 {
        Seq::empty()
    } else {
        let prefix = resolutions_after(m, records.drop_last());
        match record_resolution(registry_after(m, records.drop_last()), records.last()) {
            Some(r) => prefix.push(r),
            None => prefix,
        }
    }
}

/// Draining never adds entries: whatever is still pending after a batch was
/// pending before it, unchanged.
pub proof fn lemma_registry_after_submap(m: Map<u64, PendingEntry>, records: Seq<CallbackRecord>)
    ensures
        forall|h: u64| #[trigger]
            registry_after(m, records).dom().contains(h) ==> m.dom().contains(h) && registry_after(
                m,
                records,
            )[h] == m[h],
    decreases records.len(),
{
    if records.len() > 0 {
        lemma_registry_after_submap(m, records.drop_last());
        let prev = registry_after(m, records.drop_last());
        assert forall|h: u64| #[trigger]
            registry_after(m, records).dom().contains(h) implies m.dom().contains(h)
            && registry_after(m, records)[h] == m[h] by {
            assert(prev.dom().contains(h));
        }
    }
}

/// A handle with no pending entry is never resolved: the whole batch leaves
/// it absent and emits no resolution that carries it.
pub proof fn lemma_absent_handle_never_resolved(
    m: Map<u64, PendingEntry>,
    records: Seq<CallbackRecord>,
    h: u64,
)
    requires
        !m.dom().contains(h),
    ensures
        !registry_after(m, records).dom().contains(h),
        forall|k: int|
            0 <= k < resolutions_after(m, records).len() ==> (#[trigger] resolutions_after(
                m,
                records,
            )[k]).handle != h,
    decreases records.len(),
{
    if records.len() > 0 {
        lemma_absent_handle_never_resolved(m, records.drop_last(), h);
    }
}

/// Within one drained batch no handle is resolved twice: a resolution
/// consumes its entry, every emitted resolution is for an entry that was
/// pending when the batch began, and the entry is gone once the batch ends.
pub proof fn lemma_resolutions_distinct(m: Map<u64, PendingEntry>, records: Seq<CallbackRecord>)
    ensures
        forall|k: int|
            0 <= k < resolutions_after(m, records).len() ==> m.dom().contains(
                (#[trigger] resolutions_after(m, records)[k]).handle,
            ) && !registry_after(m, records).dom().contains(resolutions_after(m, records)[k].handle),
        forall|k1: int, k2: int|
            0 <= k1 < k2 < resolutions_after(m, records).len() ==> resolutions_after(m, records)[
                k1
            ].handle != resolutions_after(m, records)[k2].handle,
    decreases records.len(),
{
    if records.len() > 0 {
        lemma_resolutions_distinct(m, records.drop_last());
        lemma_registry_after_submap(m, records.drop_last());
    }
}

/// Splitting a drain in two: the registry content and the emitted
/// resolutions compose.
pub proof fn lemma_drain_splits(
    m: Map<u64, PendingEntry>,
    a: Seq<CallbackRecord>,
    b: Seq<CallbackRecord>,
)
    ensures
        registry_after(m, a + b) == registry_after(registry_after(m, a), b),
        resolutions_after(m, a + b) == resolutions_after(m, a) + resolutions_after(
            registry_after(m, a),
            b,
        ),
    decreases b.len(),
{
    if b.len() == 0 {
        assert(a + b =~= a);
        assert(resolutions_after(m, a) + resolutions_after(registry_after(m, a), b)
            =~= resolutions_after(m, a));
    } else {
        lemma_drain_splits(m, a, b.drop_last());
        assert((a + b).drop_last() =~= a + b.drop_last());
        assert((a + b).last() == b.last());
        match record_resolution(registry_after(m, a + b.drop_last()), b.last()) {
            Some(r) => {
                assert(resolutions_after(m, a + b) =~= resolutions_after(m, a)
                    + resolutions_after(registry_after(m, a), b));
            },
            None => {
                assert(resolutions_after(m, a + b) =~= resolutions_after(m, a)
                    + resolutions_after(registry_after(m, a), b));
            },
        }
    }
}

/// A batch that contains no record for a handle leaves its entry exactly as
/// it was: still pending, same expected result type, same deadline. Combined
/// with the timeout sweep's contract, the entry resolves as a timeout at the
/// first sweep whose tick time reaches its deadline — and only then.
pub proof fn lemma_untargeted_entry_unchanged(
    m: Map<u64, PendingEntry>,
    records: Seq<CallbackRecord>,
    h: u64,
)
    requires
        m.dom().contains(h),
        forall|j: int| 0 <= j < records.len() ==> record_target(#[trigger] records[j]) != Some(h),
    ensures
        registry_after(m, records).dom().contains(h),
        registry_after(m, records)[h] == m[h],
        forall|k: int|
            0 <= k < resolutions_after(m, records).len() ==> (#[trigger] resolutions_after(
                m,
                records,
            )[k]).handle != h,
    decreases records.len(),
{
    if records.len() > 0 {
        assert(forall|j: int|
            0 <= j < records.drop_last().len() ==> record_target(
                #[trigger] records.drop_last()[j],
            ) != Some(h));
        lemma_untargeted_entry_unchanged(m, records.drop_last(), h);
        assert(record_target(records.last()) != Some(h)) by {
            assert(records[records.len() - 1] == records.last());
        }
    }
}

/// No decoded or failure outcome is the timeout error: a resolution carries
/// `Err(Timeout)` only when the timeout sweep produced it.
pub proof fn lemma_record_outcome_not_timeout(e: PendingEntry, rec: CallbackRecord)
    ensures
        record_outcome(e, rec) != Err::<SteamPurchase, SteamError>(SteamError::Timeout),
{
    match rec {
        CallbackRecord::CallResult { payload, io_error, .. } => {
            if !io_error {
                crate::error::lemma_mapped_code_is_not_transport_kind(
                    (crate::wire::le_u32_at(payload@, 0) as u32),
                );
            }
        },
        _ => {},
    }
}

/// Exactly-once resolution: the first record of a batch that targets a
/// pending handle resolves its entry — with the entry as it was when the
/// batch began — and consumes it, so that no later record of the batch, and
/// no timeout sweep after the batch, can resolve the same handle again.
pub proof fn lemma_entry_resolved_exactly_once(
    m: Map<u64, PendingEntry>,
    records: Seq<CallbackRecord>,
    i: int,
    h: u64,
)
    requires
        m.dom().contains(h),
        0 <= i < records.len(),
        record_target(records[i]) == Some(h),
        forall|j: int| 0 <= j < i ==> record_target(#[trigger] records[j]) != Some(h),
    ensures
        record_resolution(registry_after(m, records.take(i)), records[i]) == Some(
            Resolution { handle: h, outcome: record_outcome(m[h], records[i]) },
        ),
        exists|k: int|
            0 <= k < resolutions_after(m, records).len() && #[trigger] resolutions_after(
                m,
                records,
            )[k] == (Resolution { handle: h, outcome: record_outcome(m[h], records[i]) }),
        !registry_after(m, records).dom().contains(h),
        forall|k1: int, k2: int|
            0 <= k1 < k2 < resolutions_after(m, records).len() && resolutions_after(m, records)[
                k1
            ].handle == h ==> resolutions_after(m, records)[k2].handle != h,
{
    let a = records.take(i + 1);
    let b = records.skip(i + 1);
    assert(records =~= a + b);
    assert(forall|j: int|
        0 <= j < records.take(i).len() ==> record_target(#[trigger] records.take(i)[j]) != Some(
            h,
        ));
    lemma_untargeted_entry_unchanged(m, records.take(i), h);
    let mid = registry_after(m, records.take(i));
    assert(record_resolution(mid, records[i]) == Some(
        Resolution { handle: h, outcome: record_outcome(m[h], records[i]) },
    ));
    assert(a.drop_last() =~= records.take(i));
    assert(a.last() == records[i]);
    assert(registry_after(m, a) == apply_record(mid, records[i]));
    assert(!registry_after(m, a).dom().contains(h));
    assert(resolutions_after(m, a) == resolutions_after(m, records.take(i)).push(
        Resolution { handle: h, outcome: record_outcome(m[h], records[i]) },
    ));
    lemma_drain_splits(m, a, b);
    lemma_absent_handle_never_resolved(registry_after(m, a), b, h);
    let k = resolutions_after(m, a).len() - 1;
    assert(resolutions_after(m, records)[k] == (Resolution {
        handle: h,
        outcome: record_outcome(m[h], records[i]),
    }));
    lemma_resolutions_distinct(m, records);
}

/// A completion or failure record that arrives while the entry is pending —
/// however close to the deadline — resolves it through the decode or
/// I/O-failure path, never as a timeout: its outcome is not `Err(Timeout)`,
/// and once it is routed the entry is gone, so no sweep can time it out.
pub proof fn lemma_completion_preempts_timeout(
    m: Map<u64, PendingEntry>,
    records: Seq<CallbackRecord>,
    i: int,
    h: u64,
)
    requires
        m.dom().contains(h),
        0 <= i < records.len(),
        record_target(records[i]) == Some(h),
        forall|j: int| 0 <= j < i ==> record_target(#[trigger] records[j]) != Some(h),
    ensures
        exists|k: int|
            0 <= k < resolutions_after(m, records).len() && #[trigger] resolutions_after(
                m,
                records,
            )[k] == (Resolution { handle: h, outcome: record_outcome(m[h], records[i]) }),
        record_outcome(m[h], records[i]) != Err::<SteamPurchase, SteamError>(SteamError::Timeout),
        !registry_after(m, records).dom().contains(h),
{
    lemma_entry_resolved_exactly_once(m, records, i, h);
    lemma_record_outcome_not_timeout(m[h], records[i]);
}

/// Teardown abandons, it does not fail: against an empty registry a drained
/// batch emits no resolution at all, so no callback fires after teardown.
pub proof fn lemma_teardown_abandons(records: Seq<CallbackRecord>)
    ensures
        resolutions_after(Map::<u64, PendingEntry>::empty(), records).len() == 0,
        registry_after(Map::<u64, PendingEntry>::empty(), records) == Map::<
            u64,
            PendingEntry,
        >::empty(),
    decreases records.len(),
{
    if records.len() > 0 {
        lemma_teardown_abandons(records.drop_last());
        match record_target(records.last()) {
            Some(hh) => {
                assert(registry_after(Map::<u64, PendingEntry>::empty(), records) =~= Map::<
                    u64,
                    PendingEntry,
                >::empty());
            },
            None => {},
        }
    }
}

} // verus!
