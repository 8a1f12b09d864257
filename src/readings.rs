//! Planning of reading inserts from upstream history: filtering, timestamp
//! alignment, and the per-sensor high-water mark.
use vstd::prelude::*;

verus! {

/// `(epoch + 300) / 600 * 600` with Rust's division, which truncates
/// toward zero.
pub open spec fn round_spec(epoch: int) -> int {
    let x = epoch + 300;
    if x >= 0 {
        (x / 600) * 600
    } else {
        -(((-x) / 600) * 600)
    }
}

/// Aligns an epoch to the nearest 600-second boundary.
pub fn round_to_slot(epoch: i64) -> (r: i64)
    requires
        epoch <= i64::MAX - 300,
    ensures
        r == round_spec(epoch as int),
        r % 600 == 0,
{
    let x = epoch + 300;
    let r = (x / 600) * 600;
    r
}

/// Longest time a full re-sync may lie in the past.
pub const FULL_SYNC_MAX_AGE_SECONDS: i64 = 86_400;

pub const SECONDS_PER_DAY: i64 = 86_400;

/// One upstream sample as it arrives: the timestamp already cut to whole
/// seconds, the value as the bit pattern of a 64-bit float, or absent.
pub struct RawDataPoint {
    pub timestamp: i64,
    pub value_bits: Option<u64>,
    pub logged: bool,
}

/// One upstream sample with an absent value read as `0.0` (bit pattern 0).
#[derive(Clone, Copy)]
pub struct DataPoint {
    pub timestamp: i64,
    pub value_bits: u64,
    pub logged: bool,
}

impl DataPoint {
    /// Reads a raw sample; an absent value becomes `0.0`.
    pub fn from_raw(raw: &RawDataPoint) -> (r: DataPoint)
        ensures
            r.timestamp == raw.timestamp,
            r.logged == raw.logged,
            r.value_bits == match raw.value_bits {
                Some(b) => b,
                None => 0u64,
            },
    {
        DataPoint {
            timestamp: raw.timestamp,
            value_bits: match raw.value_bits {
                Some(b) => b,
                None => 0,
            },
            logged: raw.logged,
        }
    }
}

/// A reading row to insert for one sensor, keyed by its aligned time.
#[derive(Clone, Copy)]
pub struct ReadingRow {
    pub time: i64,
    pub value_bits: u64,
    pub logged: bool,
}

pub open spec fn row_of(p: DataPoint) -> ReadingRow {
    ReadingRow { time: round_spec(p.timestamp as int) as i64, value_bits: p.value_bits, logged: p.logged }
}

/// A sample is new when no high-water mark is known or it lies past it.
pub open spec fn is_new(p: DataPoint, last: Option<i64>) -> bool {
    match last {
        None => true,
        Some(l) => p.timestamp > l,
    }
}

/// The samples that are new with respect to `last`, in arrival order.
pub open spec fn new_points(points: Seq<DataPoint>, last: Option<i64>) -> Seq<DataPoint>
    decreases points.len(),
{
    if points.len() == 0 {
        Seq::empty()
    } else {
        let rest = new_points(points.drop_last(), last);
        if is_new(points.last(), last) {
            rest.push(points.last())
        } else {
            rest
        }
    }
}

/// The largest timestamp among `points`, if any.
pub open spec fn max_timestamp(points: Seq<DataPoint>) -> Option<i64>
    decreases points.len(),
{
    if points.len() == 0 {
        None
    } else {
        let rest = max_timestamp(points.drop_last());
        let t = points.last().timestamp;
        match rest {
            None => Some(t),
            Some(m) => if t > m {
                Some(t)
            } else {
                Some(m)
            },
        }
    }
}

pub open spec fn fits_rounding(points: Seq<DataPoint>) -> bool {
    forall|i: int| 0 <= i < points.len() ==> #[trigger] points[i].timestamp <= i64::MAX - 300
}

/// The rows to insert for one sensor stream and the new high-water mark.
pub struct StreamPlan {
    pub rows: Vec<ReadingRow>,
    pub latest: Option<i64>,
}

pub proof fn lemma_max_timestamp_bounds(points: Seq<DataPoint>)
    ensures
        max_timestamp(points) is None <==> points.len() == 0,
        max_timestamp(points) is Some ==> (forall|i: int|
            0 <= i < points.len() ==> points[i].timestamp <= max_timestamp(points)->0) && exists|
            i: int,
        | 0 <= i < points.len() && points[i].timestamp == max_timestamp(points)->0,
    decreases points.len(),
{
    if points.len() > 0 {
        let pre = points.drop_last();
        lemma_max_timestamp_bounds(pre);
        assert forall|i: int| 0 <= i < pre.len() implies pre[i] == points[i] by {}
        if max_timestamp(pre) is Some {
            let i = choose|i: int| 0 <= i < pre.len() && pre[i].timestamp == max_timestamp(pre)->0;
            assert(points[i] == pre[i]);
        }
    }
}

pub proof fn lemma_new_points_members(points: Seq<DataPoint>, last: Option<i64>)
    ensures
        forall|i: int|
            0 <= i < new_points(points, last).len() ==> is_new(
                #[trigger] new_points(points, last)[i],
                last,
            ) && points.contains(new_points(points, last)[i]),
        forall|i: int|
            0 <= i < points.len() && is_new(#[trigger] points[i], last) ==> new_points(
                points,
                last,
            ).contains(points[i]),
    decreases points.len(),
{
    if points.len() > 0 {
        let pre = points.drop_last();
        lemma_new_points_members(pre, last);
        let np = new_points(points, last);
        let npre = new_points(pre, last);
        assert forall|i: int| 0 <= i < np.len() implies is_new(#[trigger] np[i], last)
            && points.contains(np[i]) by {
            if i < npre.len() {
                assert(np[i] == npre[i]);
                let k = choose|k: int| 0 <= k < pre.len() && pre[k] == npre[i];
                assert(points[k] == pre[k]);
            } else {
                assert(points[points.len() - 1] == points.last());
            }
        }
        assert forall|i: int| 0 <= i < points.len() && is_new(#[trigger] points[i], last)
            implies np.contains(points[i]) by {
            if i < pre.len() {
                assert(pre[i] == points[i]);
                let k = choose|k: int| 0 <= k < npre.len() && npre[k] == pre[i];
                assert(np[k] == npre[k]);
            } else {
                assert(np[np.len() - 1] == points.last());
            }
        }
    }
}

/// Plans the inserts for one sensor: drops samples at or before the
/// high-water mark `last`, aligns each remaining timestamp to its slot, and
/// records the largest timestamp seen before alignment.
pub fn plan_stream(points: &Vec<DataPoint>, last: Option<i64>) -> (r: StreamPlan)
    requires
        fits_rounding(points@),
    ensures
        r.rows@ == new_points(points@, last).map_values(|p: DataPoint| row_of(p)),
        r.latest == max_timestamp(new_points(points@, last)),
        forall|i: int| 0 <= i < r.rows@.len() ==> (#[trigger] r.rows@[i]).time % 600 == 0,
{
    let mut rows: Vec<ReadingRow> = Vec::new();
    let mut latest: Option<i64> = None;
    let mut i: usize = 0;
    while i < points.len()
        invariant
            i <= points@.len(),
            fits_rounding(points@),
            rows@ == new_points(points@.subrange(0, i as int), last).map_values(
                |p: DataPoint| row_of(p),
            ),
            latest == max_timestamp(new_points(points@.subrange(0, i as int), last)),
            forall|k: int| 0 <= k < rows@.len() ==> (#[trigger] rows@[k]).time % 600 == 0,
        decreases points@.len() - i,
    {
        let p = points[i];
        let ghost pre = points@.subrange(0, i as int);
        let ghost next = points@.subrange(0, i as int + 1);
        proof {
            assert(next.drop_last() =~= pre);
            assert(next.last() == p);
            assert(points@[i as int].timestamp <= i64::MAX - 300);
        }
        let keep = match last {
            None => true,
            Some(l) => p.timestamp > l,
        };
        if keep {
            let t = round_to_slot(p.timestamp);
            rows.push(ReadingRow { time: t, value_bits: p.value_bits, logged: p.logged });
            latest = match latest {
                None => Some(p.timestamp),
                Some(m) => if p.timestamp > m {
                    Some(p.timestamp)
                } else {
                    Some(m)
                },
            };
            proof {
                assert(new_points(next, last) == new_points(pre, last).push(p));
                assert(new_points(next, last).drop_last() =~= new_points(pre, last));
                assert(rows@ =~= new_points(next, last).map_values(|p: DataPoint| row_of(p)));
            }
        } else {
            proof {
                assert(rows@ =~= new_points(next, last).map_values(|p: DataPoint| row_of(p)));
            }
        }
        i = i + 1;
    }
    proof {
        assert(points@.subrange(0, points@.len() as int) =~= points@);
    }
    StreamPlan { rows, latest }
}

/// Whether this tick must be a full sync: no sensor has sync bookkeeping
/// yet, or one has never had a full sync, or its last one is more than a
/// day old.
pub open spec fn full_sync_due(last_full: Seq<Option<i64>>, now: i64) -> bool {
    last_full.len() == 0 || exists|i: int|
        0 <= i < last_full.len() && match #[trigger] last_full[i] {
            None => true,
            Some(t) => now - t > FULL_SYNC_MAX_AGE_SECONDS,
        }
}

/// Decides between a full and an incremental sync from each sensor's last
/// full-sync time.
pub fn needs_full_sync(last_full: &Vec<Option<i64>>, now: i64) -> (r: bool)
    ensures
        r == full_sync_due(last_full@, now),
{
    if last_full.len() == 0 {
        return true;
    }
    let mut i: usize = 0;
    while i < last_full.len()
        invariant
            i <= last_full@.len(),
            last_full@.len() > 0,
            forall|k: int|
                0 <= k < i ==> match #[trigger] last_full@[k] {
                    None => false,
                    Some(t) => now - t <= FULL_SYNC_MAX_AGE_SECONDS,
                },
        decreases last_full@.len() - i,
    {
        match last_full[i] {
            None => {
                return true;
            },
            Some(t) => {
                if (now as i128) - (t as i128) > FULL_SYNC_MAX_AGE_SECONDS as i128 {
                    return true;
                }
            },
        }
        i = i + 1;
    }
    false
}

/// The history window's default start: `max_history_days` before `now`.
pub open spec fn default_start(now: i64, max_history_days: i64) -> int {
    now - max_history_days * SECONDS_PER_DAY
}

/// The start of the single batched history request: the earliest
/// high-water mark, where a sensor without one (or any sensor, in a full
/// sync) counts as the default start.
pub open spec fn history_start_spec(
    lasts: Seq<Option<i64>>,
    full: bool,
    now: i64,
    max_history_days: i64,
) -> int
    decreases lasts.len(),
{
    let d = default_start(now, max_history_days);
    if lasts.len() == 0 {
        d
    } else {
        let rest = history_start_spec(lasts.drop_last(), full, now, max_history_days);
        let own = if full {
            d
        } else {
            match lasts.last() {
                Some(t) => t as int,
                None => d,
            }
        };
        if lasts.len() == 1 || own < rest {
            own
        } else {
            rest
        }
    }
}

/// Computes the start of the batched history request.
pub fn history_start(lasts: &Vec<Option<i64>>, full: bool, now: i64, max_history_days: i64) -> (r:
    i64)
    requires
        0 <= max_history_days,
        default_start(now, max_history_days) >= i64::MIN,
    ensures
        r == history_start_spec(lasts@, full, now, max_history_days),
{
    proof {
        assert(max_history_days * SECONDS_PER_DAY >= 0) by (nonlinear_arith)
            requires
                max_history_days >= 0,
        ;
        assert(max_history_days * SECONDS_PER_DAY <= now - i64::MIN);
    }
    let span = (max_history_days as i128) * (SECONDS_PER_DAY as i128);
    let d = ((now as i128) - span) as i64;
    let mut best = d;
    let mut i: usize = 0;
    while i < lasts.len()
        invariant
            i <= lasts@.len(),
            d == default_start(now, max_history_days),
            i == 0 ==> best == d,
            i > 0 ==> best == history_start_spec(
                lasts@.subrange(0, i as int),
                full,
                now,
                max_history_days,
            ),
        decreases lasts@.len() - i,
    {
        let ghost pre = lasts@.subrange(0, i as int);
        let ghost next = lasts@.subrange(0, i as int + 1);
        proof {
            assert(next.drop_last() =~= pre);
            assert(next.last() == lasts@[i as int]);
        }
        let own = if full {
            d
        } else {
            match lasts[i] {
                Some(t) => t,
                None => d,
            }
        };
        if i == 0 || own < best {
            best = own;
        }
        i = i + 1;
    }
    proof {
        assert(lasts@.subrange(0, lasts@.len() as int) =~= lasts@);
    }
    best
}

/// One sensor's stored readings, keyed by time, after inserting `rows` with
/// duplicates on the key skipped: the row already stored stays.
pub open spec fn insert_ignoring(table: Map<i64, ReadingRow>, rows: Seq<ReadingRow>) -> Map<
    i64,
    ReadingRow,
>
    decreases rows.len(),
{
    if rows.len() == 0 {
        table
    } else {
        let t = insert_ignoring(table, rows.drop_last());
        let r = rows.last();
        if t.contains_key(r.time) {
            t
        } else {
            t.insert(r.time, r)
        }
    }
}

/// Inserting a batch never alters or duplicates a stored reading: every
/// key already present keeps its row, each stored key holds exactly one row,
/// and the keys afterwards are the old keys together with the batch's times.
pub proof fn lemma_insert_keeps_existing(table: Map<i64, ReadingRow>, rows: Seq<ReadingRow>)
    ensures
        forall|k: i64| #[trigger]
            table.contains_key(k) ==> insert_ignoring(table, rows).contains_key(k) && insert_ignoring(
                table,
                rows,
            )[k] == table[k],
        forall|k: i64| #[trigger]
            insert_ignoring(table, rows).contains_key(k) <==> table.contains_key(k) || exists|
                i: int,
            | 0 <= i < rows.len() && rows[i].time == k,
    decreases rows.len(),
{
    if rows.len() > 0 {
        let pre = rows.drop_last();
        lemma_insert_keeps_existing(table, pre);
        assert forall|i: int| 0 <= i < pre.len() implies pre[i] == rows[i] by {}
        let t = insert_ignoring(table, pre);
        assert forall|k: i64| #[trigger]
            insert_ignoring(table, rows).contains_key(k) <==> table.contains_key(k) || exists|
                i: int,
            | 0 <= i < rows.len() && rows[i].time == k by {
            if exists|i: int| 0 <= i < rows.len() && rows[i].time == k {
                let i = choose|i: int| 0 <= i < rows.len() && rows[i].time == k;
                if i < pre.len() {
                    assert(pre[i].time == k);
                } else {
                    assert(rows.last().time == k);
                }
            }
            if t.contains_key(k) && !table.contains_key(k) {
                let i = choose|i: int| 0 <= i < pre.len() && pre[i].time == k;
                assert(rows[i].time == k);
            }
        }
    }
}

/// Ingesting the same batch a second time inserts nothing: the table is
/// left exactly as the first pass left it.
pub proof fn lemma_reingest_is_noop(table: Map<i64, ReadingRow>, rows: Seq<ReadingRow>)
    ensures
        insert_ignoring(insert_ignoring(table, rows), rows) == insert_ignoring(table, rows),
{
    let t1 = insert_ignoring(table, rows);
    lemma_insert_keeps_existing(table, rows);
    lemma_prefix_noop(t1, rows);
}

proof fn lemma_prefix_noop(t1: Map<i64, ReadingRow>, rows: Seq<ReadingRow>)
    requires
        forall|i: int| 0 <= i < rows.len() ==> t1.contains_key(#[trigger] rows[i].time),
    ensures
        insert_ignoring(t1, rows) == t1,
    decreases rows.len(),
{
    if rows.len() > 0 {
        let pre = rows.drop_last();
        assert forall|i: int| 0 <= i < pre.len() implies t1.contains_key(#[trigger] pre[i].time) by {
            assert(pre[i] == rows[i]);
        }
        lemma_prefix_noop(t1, pre);
        assert(t1.contains_key(rows[rows.len() - 1].time));
    }
}

/// The high-water mark after a stream: the new mark when one was seen,
/// otherwise the old one.
pub open spec fn next_mark(last: Option<i64>, latest: Option<i64>) -> Option<i64> {
    match latest {
        Some(m) => Some(m),
        None => last,
    }
}

/// Offering the same stream again after an incremental pass selects no
/// sample: everything left is at or before the new high-water mark.
pub proof fn lemma_incremental_repeat_is_empty(points: Seq<DataPoint>, last: Option<i64>)
    ensures
        new_points(points, next_mark(last, max_timestamp(new_points(points, last)))).len() == 0,
{
    let np = new_points(points, last);
    let mark = next_mark(last, max_timestamp(np));
    lemma_new_points_members(points, last);
    lemma_max_timestamp_bounds(np);
    lemma_new_points_members(points, mark);
    let again = new_points(points, mark);
    if again.len() > 0 {
        let p = again[0];
        assert(is_new(p, mark) && points.contains(p));
        let k = choose|k: int| 0 <= k < points.len() && points[k] == p;
        if last is Some {
            if max_timestamp(np) is None {
                assert(!is_new(points[k], last));
            } else {
                if is_new(points[k], last) {
                    assert(np.contains(points[k]));
                }
            }
        } else {
            assert(is_new(points[k], last));
            assert(np.contains(points[k]));
        }
    }
}

pub proof fn lemma_round_monotone(a: int, b: int)
    requires
        a <= b,
    ensures
        round_spec(a) <= round_spec(b),
{
    let x = a + 300;
    let y = b + 300;
    if x >= 0 {
        assert((x / 600) * 600 <= (y / 600) * 600) by (nonlinear_arith)
            requires
                0 <= x <= y,
        ;
    } else if y >= 0 {
        assert(-(((-x) / 600) * 600) <= 0) by (nonlinear_arith)
            requires
                x < 0,
        ;
        assert((y / 600) * 600 >= 0) by (nonlinear_arith)
            requires
                y >= 0,
        ;
    } else {
        assert(((-y) / 600) * 600 <= ((-x) / 600) * 600) by (nonlinear_arith)
            requires
                0 < -y <= -x,
        ;
    }
}

/// After a stream is planned, the recorded high-water mark `m` bounds every
/// planned reading time up to half a slot: a sample just before a boundary
/// is stored at that boundary (for marks from 1970 on, where the division
/// rounds down). When `m` itself does not round up, the mark bounds every
/// planned time outright.
pub proof fn lemma_mark_bounds_rows(points: Seq<DataPoint>, last: Option<i64>)
    requires
        fits_rounding(points),
        max_timestamp(new_points(points, last)) is Some,
    ensures
        ({
            let m = max_timestamp(new_points(points, last))->0;
            let rows = new_points(points, last).map_values(|p: DataPoint| row_of(p));
            &&& m >= -300 ==> forall|i: int|
                0 <= i < rows.len() ==> (#[trigger] rows[i]).time <= m + 300
            &&& round_spec(m as int) <= m ==> forall|i: int|
                0 <= i < rows.len() ==> (#[trigger] rows[i]).time <= m
        }),
{
    let np = new_points(points, last);
    let m = max_timestamp(np)->0;
    lemma_max_timestamp_bounds(np);
    lemma_new_points_members(points, last);
    let rows = np.map_values(|p: DataPoint| row_of(p));
    assert forall|i: int| 0 <= i < rows.len() implies (m >= -300 ==> (#[trigger] rows[i]).time <= m
        + 300) && (round_spec(m as int) <= m ==> rows[i].time <= m) by {
        let p = np[i];
        assert(rows[i] == row_of(p));
        assert(p.timestamp <= m);
        let k = choose|k: int| 0 <= k < points.len() && points[k] == p;
        assert(points[k].timestamp <= i64::MAX - 300);
        lemma_round_monotone(p.timestamp as int, m as int);
        let x = m + 300;
        if x >= 0 {
            assert((x / 600) * 600 <= x) by (nonlinear_arith)
                requires
                    x >= 0,
            ;
        } else {
            assert(-(((-x) / 600) * 600) <= 0) by (nonlinear_arith)
                requires
                    x < 0,
            ;
        }
        assert(round_spec(p.timestamp as int) >= i64::MIN) by {
            let y = p.timestamp + 300;
            if y < 0 {
                assert(((-y) / 600) * 600 <= -y) by (nonlinear_arith)
                    requires
                        -y > 0,
                ;
            } else {
                assert((y / 600) * 600 >= 0) by (nonlinear_arith)
                    requires
                        y >= 0,
                ;
            }
        }
        assert(round_spec(p.timestamp as int) <= i64::MAX) by {
            let y = p.timestamp + 300;
            if y >= 0 {
                assert((y / 600) * 600 <= y) by (nonlinear_arith)
                    requires
                        y >= 0,
                ;
            } else {
                assert(-(((-y) / 600) * 600) <= 0) by (nonlinear_arith)
                    requires
                        y < 0,
                ;
            }
        }
    }
}

/// An active sensor as a readings tick sees it.
#[derive(Clone, Copy)]
pub struct SensorCursor {
    pub sensor_id: u128,
    pub location_id: i32,
    pub last_data_time: Option<i64>,
}

/// The single batched history request of a tick.
pub struct HistoryRequest {
    pub location_ids: Vec<i32>,
    pub from: i64,
}

pub open spec fn marks_of(sensors: Seq<SensorCursor>) -> Seq<Option<i64>> {
    sensors.map_values(|c: SensorCursor| c.last_data_time)
}

/// Plans the history request of a tick: all active sensors' location ids,
/// from the earliest high-water mark (or the default start).
pub fn history_request(sensors: &Vec<SensorCursor>, full: bool, now: i64, max_history_days: i64) -> (r:
    HistoryRequest)
    requires
        0 <= max_history_days,
        default_start(now, max_history_days) >= i64::MIN,
    ensures
        r.location_ids@ == sensors@.map_values(|c: SensorCursor| c.location_id),
        r.from == history_start_spec(marks_of(sensors@), full, now, max_history_days),
{
    let mut ids: Vec<i32> = Vec::new();
    let mut lasts: Vec<Option<i64>> = Vec::new();
    let mut i: usize = 0;
    while i < sensors.len()
        invariant
            i <= sensors@.len(),
            ids@ == sensors@.subrange(0, i as int).map_values(|c: SensorCursor| c.location_id),
            lasts@ == marks_of(sensors@.subrange(0, i as int)),
        decreases sensors@.len() - i,
    {
        ids.push(sensors[i].location_id);
        lasts.push(sensors[i].last_data_time);
        proof {
            let sub = sensors@.subrange(0, i as int + 1);
            assert(ids@ =~= sub.map_values(|c: SensorCursor| c.location_id));
            assert(lasts@ =~= marks_of(sub));
        }
        i = i + 1;
    }
    proof {
        assert(sensors@.subrange(0, sensors@.len() as int) =~= sensors@);
    }
    let from = history_start(&lasts, full, now, max_history_days);
    HistoryRequest { location_ids: ids, from }
}

/// The first active sensor with the given upstream location id.
pub open spec fn cursor_for(sensors: Seq<SensorCursor>, loc: i32) -> Option<SensorCursor>
    decreases sensors.len(),
{
    if sensors.len() == 0 {
        None
    } else if sensors[0].location_id == loc {
        Some(sensors[0])
    } else {
        cursor_for(sensors.drop_first(), loc)
    }
}

/// The high-water mark a stream is filtered against: none in a full sync.
pub open spec fn effective_mark(c: SensorCursor, full: bool) -> Option<i64> {
    if full {
        None
    } else {
        c.last_data_time
    }
}

/// Plans one returned stream of a tick: the sensor it belongs to and its
/// rows and new high-water mark; nothing for a location that is no active
/// sensor.
pub fn plan_location_stream(
    sensors: &Vec<SensorCursor>,
    full: bool,
    location_id: i32,
    points: &Vec<DataPoint>,
) -> (r: Option<(u128, StreamPlan)>)
    requires
        fits_rounding(points@),
    ensures
        cursor_for(sensors@, location_id) is None ==> r is None,
        cursor_for(sensors@, location_id) matches Some(c) ==> (r matches Some(x) && x.0
            == c.sensor_id && x.1.rows@ == new_points(points@, effective_mark(c, full)).map_values(
            |p: DataPoint| row_of(p),
        ) && x.1.latest == max_timestamp(new_points(points@, effective_mark(c, full)))),
{
    let mut i: usize = 0;
    proof {
        assert(sensors@.subrange(0, sensors@.len() as int) =~= sensors@);
    }
    while i < sensors.len()
        invariant
            i <= sensors@.len(),
            fits_rounding(points@),
            cursor_for(sensors@, location_id) == cursor_for(
                sensors@.subrange(i as int, sensors@.len() as int),
                location_id,
            ),
        decreases sensors@.len() - i,
    {
        let ghost rest = sensors@.subrange(i as int, sensors@.len() as int);
        proof {
            assert(rest[0] == sensors@[i as int]);
            assert(rest.drop_first() =~= sensors@.subrange(i as int + 1, sensors@.len() as int));
        }
        if sensors[i].location_id == location_id {
            let c = sensors[i];
            let mark = if full {
                None
            } else {
                c.last_data_time
            };
            let plan = plan_stream(points, mark);
            return Some((c.sensor_id, plan));
        }
        i = i + 1;
    }
    None
}

} // verus!
