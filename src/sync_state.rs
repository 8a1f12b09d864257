//! Per-sensor ingestion bookkeeping and its patch semantics: a patch writes
//! only the fields it sets, and the others keep their stored value.
use vstd::prelude::*;

verus! {

#[derive(PartialEq, Eq, Structural, Clone, Copy, Debug)]
pub enum SyncStatus {
    Pending,
    Success,
    Error,
}

/// The stored bookkeeping of one sensor.
pub struct SyncState {
    pub last_data_time: Option<i64>,
    pub last_sync_attempt: Option<i64>,
    pub status: SyncStatus,
    pub error_message: Option<String>,
    pub retry_count: i32,
    pub last_full_sync: Option<i64>,
}

/// A partial update: `None` leaves a field as stored.
pub struct SyncStatePatch {
    pub last_data_time: Option<Option<i64>>,
    pub last_sync_attempt: Option<Option<i64>>,
    pub status: Option<SyncStatus>,
    pub error_message: Option<Option<String>>,
    pub retry_count: Option<i32>,
    pub last_full_sync: Option<Option<i64>>,
}

pub open spec fn pick<T>(p: Option<T>, old: T) -> T {
    match p {
        Some(v) => v,
        None => old,
    }
}

/// The state after writing `p` over `s`.
pub open spec fn patched(s: SyncState, p: SyncStatePatch) -> SyncState {
    SyncState {
        last_data_time: pick(p.last_data_time, s.last_data_time),
        last_sync_attempt: pick(p.last_sync_attempt, s.last_sync_attempt),
        status: pick(p.status, s.status),
        error_message: pick(p.error_message, s.error_message),
        retry_count: pick(p.retry_count, s.retry_count),
        last_full_sync: pick(p.last_full_sync, s.last_full_sync),
    }
}

/// The row that an insert starts from when a sensor has none yet.
pub open spec fn blank_spec() -> SyncState {
    SyncState {
        last_data_time: None,
        last_sync_attempt: None,
        status: SyncStatus::Pending,
        error_message: None,
        retry_count: 0,
        last_full_sync: None,
    }
}

fn take<T>(p: Option<T>, old: T) -> (r: T)
    ensures
        r == pick(p, old),
{
    match p {
        Some(v) => v,
        None => old,
    }
}

impl SyncState {
    /// The bookkeeping of a newly discovered sensor: pending, no retries.
    pub fn pending() -> (r: SyncState)
        ensures
            r == blank_spec(),
    {
        SyncState {
            last_data_time: None,
            last_sync_attempt: None,
            status: SyncStatus::Pending,
            error_message: None,
            retry_count: 0,
            last_full_sync: None,
        }
    }

    /// Writes a patch over this state.
    pub fn apply(self, p: SyncStatePatch) -> (r: SyncState)
        ensures
            r == patched(self, p),
    {
        SyncState {
            last_data_time: take(p.last_data_time, self.last_data_time),
            last_sync_attempt: take(p.last_sync_attempt, self.last_sync_attempt),
            status: take(p.status, self.status),
            error_message: take(p.error_message, self.error_message),
            retry_count: take(p.retry_count, self.retry_count),
            last_full_sync: take(p.last_full_sync, self.last_full_sync),
        }
    }
}

/// Upsert: writes the patch over the stored state, or over a blank row
/// when the sensor has none.
pub fn upsert(existing: Option<SyncState>, p: SyncStatePatch) -> (r: SyncState)
    ensures
        r == patched(
            match existing {
                Some(s) => s,
                None => blank_spec(),
            },
            p,
        ),
{
    let base = match existing {
        Some(s) => s,
        None => SyncState::pending(),
    };
    base.apply(p)
}

pub open spec fn success_patch_spec(latest: i64, now: i64) -> SyncStatePatch {
    SyncStatePatch {
        last_data_time: Some(Some(latest)),
        last_sync_attempt: Some(Some(now)),
        status: Some(SyncStatus::Success),
        error_message: Some(None),
        retry_count: Some(0),
        last_full_sync: None,
    }
}

/// The patch after a stream was stored: the new high-water mark, success,
/// no error, no retries; the last full sync is left alone.
pub fn success_patch(latest: i64, now: i64) -> (r: SyncStatePatch)
    ensures
        r == success_patch_spec(latest, now),
{
    SyncStatePatch {
        last_data_time: Some(Some(latest)),
        last_sync_attempt: Some(Some(now)),
        status: Some(SyncStatus::Success),
        error_message: Some(None),
        retry_count: Some(0),
        last_full_sync: None,
    }
}

/// One more retry, held at `i32::MAX`.
pub open spec fn next_retry(count: i32) -> i32 {
    if count == i32::MAX {
        i32::MAX
    } else {
        (count + 1) as i32
    }
}

/// The patch after an upstream failure: error status with its message and
/// one more retry than `current_retries`; the high-water mark and the last
/// full sync are left alone.
pub fn error_patch(current_retries: i32, message: String, now: i64) -> (r: SyncStatePatch)
    ensures
        r.last_data_time is None,
        r.last_sync_attempt == Some(Some(now)),
        r.status == Some(SyncStatus::Error),
        r.error_message matches Some(Some(m)) && m@ == message@,
        r.retry_count == Some(next_retry(current_retries)),
        r.last_full_sync is None,
{
    let n = if current_retries == i32::MAX {
        i32::MAX
    } else {
        current_retries + 1
    };
    SyncStatePatch {
        last_data_time: None,
        last_sync_attempt: Some(Some(now)),
        status: Some(SyncStatus::Error),
        error_message: Some(Some(message)),
        retry_count: Some(n),
        last_full_sync: None,
    }
}

pub open spec fn full_sync_patch_spec(now: i64) -> SyncStatePatch {
    SyncStatePatch {
        last_data_time: None,
        last_sync_attempt: None,
        status: None,
        error_message: None,
        retry_count: None,
        last_full_sync: Some(Some(now)),
    }
}

/// Stamps every sensor's bookkeeping with a completed full sync at `now`.
pub fn mark_full_sync(states: &mut Vec<SyncState>, now: i64)
    ensures
        final(states)@.len() == old(states)@.len(),
        forall|i: int|
            0 <= i < old(states)@.len() ==> #[trigger] final(states)@[i] == patched(
                old(states)@[i],
                full_sync_patch_spec(now),
            ),
{
    let mut i: usize = 0;
    while i < states.len()
        invariant
            i <= states@.len(),
            states@.len() == old(states)@.len(),
            forall|k: int|
                0 <= k < i ==> #[trigger] states@[k] == patched(
                    old(states)@[k],
                    full_sync_patch_spec(now),
                ),
            forall|k: int| i <= k < states@.len() ==> #[trigger] states@[k] == old(states)@[k],
        decreases states@.len() - i,
    {
        proof {
            assert(states@[i as int] == old(states)@[i as int]);
        }
        states[i].last_full_sync = Some(now);
        i = i + 1;
    }
}

/// Writing the same patch twice leaves the state as writing it once: a
/// repeated pass over the same data leaves the bookkeeping unchanged.
pub proof fn lemma_patch_idempotent(s: SyncState, p: SyncStatePatch)
    ensures
        patched(patched(s, p), p) == patched(s, p),
{
}

/// After a full sync is stamped at `now`, every sensor's last full sync is
/// `now`, and it has advanced for each sensor whose previous one was
/// earlier; nothing else changes.
pub proof fn lemma_full_sync_advances(states: Seq<SyncState>, now: i64)
    ensures
        forall|i: int|
            0 <= i < states.len() ==> {
                let n = #[trigger] patched(states[i], full_sync_patch_spec(now));
                &&& n.last_full_sync == Some(now)
                &&& (states[i].last_full_sync is Some && states[i].last_full_sync->0 < now)
                    ==> n.last_full_sync->0 > states[i].last_full_sync->0
                &&& n.last_data_time == states[i].last_data_time
                &&& n.status == states[i].status
                &&& n.retry_count == states[i].retry_count
            },
{
}

} // verus!
