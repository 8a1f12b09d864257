//! Reshaping of row-oriented query results (one row per sensor and time)
//! into the column-oriented wire layout: one sorted time axis and, per
//! sensor, one value per time.
use vstd::prelude::*;

verus! {

/// One result row: a sensor, a time, and what was stored for them.
#[derive(Clone, Copy)]
pub struct Sample<V> {
    pub sensor_id: u128,
    pub time: i64,
    pub value: V,
}

/// The value for `sensor` at `t`: the last row that has both, or `empty`.
pub open spec fn cell<V>(rows: Seq<Sample<V>>, sensor: u128, t: i64, empty: V) -> V
    decreases rows.len(),
{
    if rows.len() == 0 {
        empty
    } else if rows.last().sensor_id == sensor && rows.last().time == t {
        rows.last().value
    } else {
        cell(rows.drop_last(), sensor, t, empty)
    }
}

pub open spec fn strictly_increasing(s: Seq<i64>) -> bool {
    forall|i: int, j: int| 0 <= i < j < s.len() ==> s[i] < s[j]
}

pub open spec fn non_decreasing(s: Seq<i64>) -> bool {
    forall|i: int, j: int| 0 <= i <= j < s.len() ==> s[i] <= s[j]
}

/// Relies on `slice::sort_unstable`: ascending order, the same elements.
#[verifier::external_body]
fn sort_times(v: &mut Vec<i64>)
    ensures
        final(v)@.len() == old(v)@.len(),
        non_decreasing(final(v)@),
        forall|x: i64| final(v)@.contains(x) <==> old(v)@.contains(x),
{
    v.sort_unstable()
}

proof fn lemma_push_contains(s: Seq<i64>, x: i64, t: i64)
    ensures
        s.push(x).contains(t) <==> s.contains(t) || t == x,
{
    if s.contains(t) {
        let k = choose|k: int| 0 <= k < s.len() && s[k] == t;
        assert(s.push(x)[k] == t);
    }
    if t == x {
        assert(s.push(x)[s.len() as int] == x);
    }
    if s.push(x).contains(t) && t != x {
        let k = choose|k: int| 0 <= k < s.len() + 1 && s.push(x)[k] == t;
        assert(s[k] == t);
    }
}

/// The distinct times of `rows`, ascending.
pub fn time_axis<V>(rows: &Vec<Sample<V>>) -> (r: Vec<i64>)
    ensures
        strictly_increasing(r@),
        forall|t: i64|
            r@.contains(t) <==> exists|i: int| 0 <= i < rows@.len() && rows@[i].time == t,
{
    let mut all: Vec<i64> = Vec::new();
    let mut i: usize = 0;
    while i < rows.len()
        invariant
            i <= rows@.len(),
            all@.len() == i,
            forall|k: int| 0 <= k < i ==> all@[k] == rows@[k].time,
        decreases rows@.len() - i,
    {
        all.push(rows[i].time);
        i = i + 1;
    }
    let ghost unsorted = all@;
    sort_times(&mut all);
    let mut out: Vec<i64> = Vec::new();
    let mut j: usize = 0;
    while j < all.len()
        invariant
            j <= all@.len(),
            non_decreasing(all@),
            strictly_increasing(out@),
            out@.len() > 0 ==> j > 0 && out@.last() == all@[j - 1],
            out@.len() == 0 ==> j == 0,
            forall|t: i64| out@.contains(t) <==> all@.subrange(0, j as int).contains(t),
        decreases all@.len() - j,
    {
        let x = all[j];
        let ghost pre = all@.subrange(0, j as int);
        let ghost next = all@.subrange(0, j as int + 1);
        proof {
            assert(next =~= pre.push(x));
        }
        if out.len() == 0 || out[out.len() - 1] != x {
            let ghost before = out@;
            out.push(x);
            proof {
                assert(out@ =~= before.push(x));
                assert forall|t: i64| out@.contains(t) <==> next.contains(t) by {
                    lemma_push_contains(before, x, t);
                    lemma_push_contains(pre, x, t);
                }
                if before.len() > 0 {
                    assert(all@[j - 1] <= x);
                    assert forall|a: int, b: int| 0 <= a < b < out@.len() implies out@[a]
                        < out@[b] by {
                        if b == out@.len() - 1 {
                            assert(before[a] <= before.last());
                        }
                    }
                }
            }
        } else {
            proof {
                assert forall|t: i64| out@.contains(t) <==> next.contains(t) by {
                    lemma_push_contains(pre, x, t);
                    if t == x {
                        assert(out@[out@.len() - 1] == x);
                    }
                }
            }
        }
        j = j + 1;
    }
    proof {
        assert(all@.subrange(0, all@.len() as int) =~= all@);
        assert forall|t: i64|
            out@.contains(t) <==> exists|i: int| 0 <= i < rows@.len() && rows@[i].time == t by {
            if unsorted.contains(t) {
                let k = choose|k: int| 0 <= k < unsorted.len() && unsorted[k] == t;
                assert(rows@[k].time == t);
            }
            if exists|i: int| 0 <= i < rows@.len() && rows@[i].time == t {
                let i = choose|i: int| 0 <= i < rows@.len() && rows@[i].time == t;
                assert(unsorted[i] == t);
            }
        }
    }
    out
}

/// Position of `t` in an ascending axis, if present.
pub fn position_of(axis: &Vec<i64>, t: i64) -> (r: Option<usize>)
    requires
        strictly_increasing(axis@),
    ensures
        r matches Some(i) ==> i < axis@.len() && axis@[i as int] == t,
        r is None ==> !axis@.contains(t),
{
    let mut lo: usize = 0;
    let mut hi: usize = axis.len();
    while lo < hi
        invariant
            lo <= hi <= axis@.len(),
            strictly_increasing(axis@),
            forall|k: int| 0 <= k < lo ==> axis@[k] < t,
            forall|k: int| hi <= k < axis@.len() ==> axis@[k] > t,
        decreases hi - lo,
    {
        let mid = lo + (hi - lo) / 2;
        if axis[mid] == t {
            return Some(mid);
        } else if axis[mid] < t {
            lo = mid + 1;
        } else {
            hi = mid;
        }
    }
    None
}

/// The column of `sensor` along `axis`: for each time the value of the last
/// row with that sensor and time, or `empty`.
pub fn column<V: Copy>(rows: &Vec<Sample<V>>, sensor: u128, axis: &Vec<i64>, empty: V) -> (r: Vec<
    V,
>)
    requires
        strictly_increasing(axis@),
        forall|i: int| 0 <= i < rows@.len() ==> axis@.contains(#[trigger] rows@[i].time),
    ensures
        r@.len() == axis@.len(),
        forall|j: int| 0 <= j < axis@.len() ==> r@[j] == cell(rows@, sensor, axis@[j], empty),
{
    let mut col: Vec<V> = Vec::new();
    let mut j: usize = 0;
    while j < axis.len()
        invariant
            j <= axis@.len(),
            col@.len() == j,
            forall|k: int| 0 <= k < j ==> col@[k] == empty,
        decreases axis@.len() - j,
    {
        col.push(empty);
        j = j + 1;
    }
    let mut i: usize = 0;
    while i < rows.len()
        invariant
            i <= rows@.len(),
            strictly_increasing(axis@),
            forall|k: int| 0 <= k < rows@.len() ==> axis@.contains(#[trigger] rows@[k].time),
            col@.len() == axis@.len(),
            forall|k: int|
                0 <= k < axis@.len() ==> col@[k] == cell(
                    rows@.subrange(0, i as int),
                    sensor,
                    axis@[k],
                    empty,
                ),
        decreases rows@.len() - i,
    {
        let row = rows[i];
        let ghost pre = rows@.subrange(0, i as int);
        let ghost next = rows@.subrange(0, i as int + 1);
        proof {
            assert(next.drop_last() =~= pre);
            assert(next.last() == row);
        }
        if row.sensor_id == sensor {
            match position_of(axis, row.time) {
                Some(p) => {
                    col.set(p, row.value);
                    proof {
                        assert forall|k: int| 0 <= k < axis@.len() implies col@[k] == cell(
                            next,
                            sensor,
                            axis@[k],
                            empty,
                        ) by {
                            if k != p {
                                assert(axis@[k] != axis@[p as int]);
                            }
                        }
                    }
                },
                None => {
                    proof {
                        assert(axis@.contains(rows@[i as int].time));
                    }
                },
            }
        }
        i = i + 1;
    }
    proof {
        assert(rows@.subrange(0, rows@.len() as int) =~= rows@);
    }
    col
}

/// A result in column layout.
pub struct Columns<V> {
    pub times: Vec<i64>,
    pub columns: Vec<Vec<V>>,
}

/// Reshapes rows into the time axis of all their distinct times and one
/// column per requested sensor, in the order given. A sensor without rows
/// still gets its column, holding `empty` throughout.
pub fn reshape<V: Copy>(rows: &Vec<Sample<V>>, sensors: &Vec<u128>, empty: V) -> (r: Columns<V>)
    ensures
        strictly_increasing(r.times@),
        forall|t: i64|
            r.times@.contains(t) <==> exists|i: int| 0 <= i < rows@.len() && rows@[i].time == t,
        r.columns@.len() == sensors@.len(),
        forall|s: int|
            0 <= s < sensors@.len() ==> (#[trigger] r.columns@[s])@.len() == r.times@.len(),
        forall|s: int, j: int|
            #![trigger r.columns@[s]@[j]]
            0 <= s < sensors@.len() && 0 <= j < r.times@.len() ==> r.columns@[s]@[j] == cell(
                rows@,
                sensors@[s],
                r.times@[j],
                empty,
            ),
{
    let times = time_axis(rows);
    proof {
        assert forall|i: int| 0 <= i < rows@.len() implies times@.contains(
            #[trigger] rows@[i].time,
        ) by {}
    }
    let mut columns: Vec<Vec<V>> = Vec::new();
    let mut s: usize = 0;
    while s < sensors.len()
        invariant
            s <= sensors@.len(),
            strictly_increasing(times@),
            forall|i: int| 0 <= i < rows@.len() ==> times@.contains(#[trigger] rows@[i].time),
            columns@.len() == s,
            forall|k: int| 0 <= k < s ==> (#[trigger] columns@[k])@.len() == times@.len(),
            forall|k: int, j: int|
                #![trigger columns@[k]@[j]]
                0 <= k < s && 0 <= j < times@.len() ==> columns@[k]@[j] == cell(
                    rows@,
                    sensors@[k],
                    times@[j],
                    empty,
                ),
        decreases sensors@.len() - s,
    {
        let c = column(rows, sensors[s], &times, empty);
        columns.push(c);
        s = s + 1;
    }
    Columns { times, columns }
}

/// A sensor that no row mentions reads `empty` at every time.
pub proof fn lemma_absent_sensor_is_empty<V>(rows: Seq<Sample<V>>, sensor: u128, t: i64, empty: V)
    requires
        forall|i: int| 0 <= i < rows.len() ==> rows[i].sensor_id != sensor,
    ensures
        cell(rows, sensor, t, empty) == empty,
    decreases rows.len(),
{
    if rows.len() > 0 {
        let pre = rows.drop_last();
        assert forall|i: int| 0 <= i < pre.len() implies pre[i].sensor_id != sensor by {
            assert(pre[i] == rows[i]);
        }
        lemma_absent_sensor_is_empty(pre, sensor, t, empty);
    }
}

} // verus!
