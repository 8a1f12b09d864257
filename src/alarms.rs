//! Reconciliation of stored alarms with the upstream active-alarm list.
use vstd::prelude::*;
use crate::models::fresh_id;

verus! {

/// An active alarm as the upstream lists it (times in epoch seconds, the
/// duration as the bit pattern of a 64-bit float).
pub struct UpstreamAlarm {
    pub id: i32,
    pub severity: i16,
    pub description: String,
    pub error_text: String,
    pub when_on: i64,
    pub when_off: Option<i64>,
    pub when_ack: Option<i64>,
    pub when_condition: Option<i64>,
    pub duration_sec_bits: u64,
    pub status: bool,
    pub is_system: bool,
    pub serial_number: String,
    pub location: String,
    pub zone: String,
    pub location_ids: Vec<i32>,
    pub ack_required: bool,
    pub ack_comments: Option<Vec<String>>,
    pub ack_action_taken: Option<String>,
}

/// A stored alarm.
pub struct Alarm {
    pub id: u128,
    pub upstream_id: i32,
    pub severity: i16,
    pub description: String,
    pub error_text: Option<String>,
    pub alarm_type: Option<String>,
    pub when_on: i64,
    pub when_off: Option<i64>,
    pub when_ack: Option<i64>,
    pub when_condition: Option<i64>,
    pub duration_sec_bits: Option<u64>,
    pub status: bool,
    pub is_system: bool,
    pub serial_number: Option<String>,
    pub location_text: Option<String>,
    pub zone_text: Option<String>,
    pub station_id: Option<u128>,
    pub ack_required: bool,
    pub ack_comments: Option<Vec<String>>,
    pub ack_action_taken: Option<String>,
    pub created_at: Option<i64>,
    pub updated_at: Option<i64>,
}

/// A known sensor: its upstream location id, its id and its station.
#[derive(Clone, Copy)]
pub struct SensorLink {
    pub location_id: i32,
    pub sensor_id: u128,
    pub station_id: u128,
}

/// The first known sensor with the given upstream location id.
pub open spec fn lookup(sensors: Seq<SensorLink>, loc: i32) -> Option<SensorLink>
    decreases sensors.len(),
{
    if sensors.len() == 0 {
        None
    } else if sensors[0].location_id == loc {
        Some(sensors[0])
    } else {
        lookup(sensors.drop_first(), loc)
    }
}

/// Looks up a known sensor by upstream location id.
pub fn find_sensor(sensors: &Vec<SensorLink>, loc: i32) -> (r: Option<SensorLink>)
    ensures
        r == lookup(sensors@, loc),
{
    let mut i: usize = 0;
    proof {
        assert(sensors@.subrange(0, sensors@.len() as int) =~= sensors@);
    }
    while i < sensors.len()
        invariant
            i <= sensors@.len(),
            lookup(sensors@, loc) == lookup(sensors@.subrange(i as int, sensors@.len() as int), loc),
        decreases sensors@.len() - i,
    {
        let ghost rest = sensors@.subrange(i as int, sensors@.len() as int);
        proof {
            assert(rest[0] == sensors@[i as int]);
            assert(rest.drop_first() =~= sensors@.subrange(i as int + 1, sensors@.len() as int));
        }
        if sensors[i].location_id == loc {
            return Some(sensors[i]);
        }
        i = i + 1;
    }
    None
}

/// The station of the first location of the list whose sensor is known.
pub open spec fn first_station(locs: Seq<i32>, sensors: Seq<SensorLink>) -> Option<u128>
    decreases locs.len(),
{
    if locs.len() == 0 {
        None
    } else {
        match lookup(sensors, locs[0]) {
            Some(l) => Some(l.station_id),
            None => first_station(locs.drop_first(), sensors),
        }
    }
}

/// The known sensors of the listed locations, in list order; unknown
/// locations are left out.
pub open spec fn linked_sensors(locs: Seq<i32>, sensors: Seq<SensorLink>) -> Seq<u128>
    decreases locs.len(),
{
    if locs.len() == 0 {
        Seq::empty()
    } else {
        let rest = linked_sensors(locs.drop_last(), sensors);
        match lookup(sensors, locs.last()) {
            Some(l) => rest.push(l.sensor_id),
            None => rest,
        }
    }
}

/// Station of a new alarm: that of its first location with a known sensor.
pub fn alarm_station(locs: &Vec<i32>, sensors: &Vec<SensorLink>) -> (r: Option<u128>)
    ensures
        r == first_station(locs@, sensors@),
{
    let mut i: usize = 0;
    proof {
        assert(locs@.subrange(0, locs@.len() as int) =~= locs@);
    }
    while i < locs.len()
        invariant
            i <= locs@.len(),
            first_station(locs@, sensors@) == first_station(
                locs@.subrange(i as int, locs@.len() as int),
                sensors@,
            ),
        decreases locs@.len() - i,
    {
        let ghost rest = locs@.subrange(i as int, locs@.len() as int);
        proof {
            assert(rest[0] == locs@[i as int]);
            assert(rest.drop_first() =~= locs@.subrange(i as int + 1, locs@.len() as int));
        }
        match find_sensor(sensors, locs[i]) {
            Some(l) => {
                return Some(l.station_id);
            },
            None => {},
        }
        i = i + 1;
    }
    None
}

/// Sensors to link a new alarm to: one per listed location whose sensor is
/// known.
pub fn alarm_sensors(locs: &Vec<i32>, sensors: &Vec<SensorLink>) -> (r: Vec<u128>)
    ensures
        r@ == linked_sensors(locs@, sensors@),
{
    let mut out: Vec<u128> = Vec::new();
    let mut i: usize = 0;
    while i < locs.len()
        invariant
            i <= locs@.len(),
            out@ == linked_sensors(locs@.subrange(0, i as int), sensors@),
        decreases locs@.len() - i,
    {
        proof {
            let next = locs@.subrange(0, i as int + 1);
            assert(next.drop_last() =~= locs@.subrange(0, i as int));
            assert(next.last() == locs@[i as int]);
        }
        match find_sensor(sensors, locs[i]) {
            Some(l) => {
                out.push(l.sensor_id);
            },
            None => {},
        }
        i = i + 1;
    }
    proof {
        assert(locs@.subrange(0, locs@.len() as int) =~= locs@);
    }
    out
}

/// What happens to one fetched alarm.
pub enum FetchedAction {
    /// Update the stored alarm at this position.
    Update(usize),
    /// Create it, on this station, linked to these sensors.
    Create { station_id: Option<u128>, sensor_ids: Vec<u128> },
}

/// The reconciliation of one alarms tick.
pub struct AlarmPlan {
    /// One action per fetched alarm, in fetched order.
    pub per_fetched: Vec<FetchedAction>,
    /// Positions of the stored alarms to mark inactive, ascending.
    pub deactivate: Vec<usize>,
}

pub open spec fn fetched_ids(fetched: Seq<UpstreamAlarm>) -> Seq<i32> {
    fetched.map_values(|f: UpstreamAlarm| f.id)
}

/// A stored alarm must be marked inactive: it is active and its upstream id
/// is missing from the fetched active list.
pub open spec fn must_deactivate(a: Alarm, fetched: Seq<UpstreamAlarm>) -> bool {
    a.status && !fetched_ids(fetched).contains(a.upstream_id)
}

pub open spec fn action_ok(
    act: FetchedAction,
    f: UpstreamAlarm,
    stored: Seq<Alarm>,
    sensors: Seq<SensorLink>,
) -> bool {
    match act {
        FetchedAction::Update(i) => 0 <= i < stored.len() && stored[i as int].upstream_id == f.id
            && forall|k: int| 0 <= k < i ==> stored[k].upstream_id != f.id,
        FetchedAction::Create { station_id, sensor_ids } => (forall|k: int|
            0 <= k < stored.len() ==> stored[k].upstream_id != f.id) && station_id
            == first_station(f.location_ids@, sensors) && sensor_ids@ == linked_sensors(
            f.location_ids@,
            sensors,
        ),
    }
}

fn stored_position(stored: &Vec<Alarm>, id: i32) -> (r: Option<usize>)
    ensures
        r matches Some(i) ==> i < stored@.len() && stored@[i as int].upstream_id == id && forall|
            k: int,
        | 0 <= k < i ==> stored@[k].upstream_id != id,
        r is None ==> forall|k: int| 0 <= k < stored@.len() ==> stored@[k].upstream_id != id,
{
    let mut i: usize = 0;
    while i < stored.len()
        invariant
            i <= stored@.len(),
            forall|k: int| 0 <= k < i ==> stored@[k].upstream_id != id,
        decreases stored@.len() - i,
    {
        if stored[i].upstream_id == id {
            return Some(i);
        }
        i = i + 1;
    }
    None
}

fn fetched_has(fetched: &Vec<UpstreamAlarm>, id: i32) -> (r: bool)
    ensures
        r == fetched_ids(fetched@).contains(id),
{
    let mut i: usize = 0;
    while i < fetched.len()
        invariant
            i <= fetched@.len(),
            forall|k: int| 0 <= k < i ==> fetched@[k].id != id,
        decreases fetched@.len() - i,
    {
        if fetched[i].id == id {
            proof {
                assert(fetched_ids(fetched@)[i as int] == id);
            }
            return true;
        }
        i = i + 1;
    }
    proof {
        if fetched_ids(fetched@).contains(id) {
            let k = choose|k: int| 0 <= k < fetched_ids(fetched@).len() && fetched_ids(fetched@)[k] == id;
            assert(fetched@[k].id == id);
        }
    }
    false
}

/// Plans an alarms tick: each fetched alarm updates the stored alarm with
/// its upstream id, or is created when none is stored; stored alarms that
/// are active but no longer listed are marked inactive.
pub fn plan_alarm_sync(
    stored: &Vec<Alarm>,
    fetched: &Vec<UpstreamAlarm>,
    sensors: &Vec<SensorLink>,
) -> (r: AlarmPlan)
    ensures
        r.per_fetched@.len() == fetched@.len(),
        forall|j: int|
            0 <= j < fetched@.len() ==> action_ok(
                #[trigger] r.per_fetched@[j],
                fetched@[j],
                stored@,
                sensors@,
            ),
        forall|a: int, b: int|
            0 <= a < b < r.deactivate@.len() ==> r.deactivate@[a] < r.deactivate@[b],
        forall|i: int|
            0 <= i < stored@.len() ==> (r.deactivate@.contains(i as usize) <==> must_deactivate(
                #[trigger] stored@[i],
                fetched@,
            )),
        forall|k: int| 0 <= k < r.deactivate@.len() ==> r.deactivate@[k] < stored@.len(),
{
    let mut per: Vec<FetchedAction> = Vec::new();
    let mut j: usize = 0;
    while j < fetched.len()
        invariant
            j <= fetched@.len(),
            per@.len() == j,
            forall|k: int|
                0 <= k < j ==> action_ok(#[trigger] per@[k], fetched@[k], stored@, sensors@),
        decreases fetched@.len() - j,
    {
        let f = &fetched[j];
        match stored_position(stored, f.id) {
            Some(i) => {
                per.push(FetchedAction::Update(i));
            },
            None => {
                let station_id = alarm_station(&f.location_ids, sensors);
                let sensor_ids = alarm_sensors(&f.location_ids, sensors);
                per.push(FetchedAction::Create { station_id, sensor_ids });
            },
        }
        j = j + 1;
    }
    let mut off: Vec<usize> = Vec::new();
    let mut i: usize = 0;
    while i < stored.len()
        invariant
            i <= stored@.len(),
            forall|a: int, b: int| 0 <= a < b < off@.len() ==> off@[a] < off@[b],
            forall|k: int| 0 <= k < off@.len() ==> off@[k] < i,
            forall|k: int|
                0 <= k < i ==> (off@.contains(k as usize) <==> must_deactivate(
                    #[trigger] stored@[k],
                    fetched@,
                )),
        decreases stored@.len() - i,
    {
        let ghost before = off@;
        if stored[i].status && !fetched_has(fetched, stored[i].upstream_id) {
            off.push(i);
            proof {
                assert forall|k: int| 0 <= k < i + 1 implies (off@.contains(k as usize)
                    <==> must_deactivate(#[trigger] stored@[k], fetched@)) by {
                    if k < i {
                        if before.contains(k as usize) {
                            let x = choose|x: int| 0 <= x < before.len() && before[x] == k as usize;
                            assert(off@[x] == k as usize);
                        }
                        if off@.contains(k as usize) {
                            let x = choose|x: int| 0 <= x < off@.len() && off@[x] == k as usize;
                            if x == before.len() {
                                assert(off@[x] == i);
                            } else {
                                assert(before[x] == k as usize);
                            }
                        }
                    } else {
                        assert(off@[before.len() as int] == i);
                    }
                }
            }
        } else {
            proof {
                assert forall|k: int| 0 <= k < i + 1 implies (off@.contains(k as usize)
                    <==> must_deactivate(#[trigger] stored@[k], fetched@)) by {
                    if k == i && off@.contains(k as usize) {
                        let x = choose|x: int| 0 <= x < off@.len() && off@[x] == k as usize;
                        assert(off@[x] < i);
                    }
                }
            }
        }
        i = i + 1;
    }
    AlarmPlan { per_fetched: per, deactivate: off }
}

/// An empty text stands for an absent one.
pub open spec fn text_or_none(s: String) -> Option<String> {
    if s@.len() == 0 {
        None
    } else {
        Some(s)
    }
}

fn non_empty_text(s: String) -> (r: Option<String>)
    ensures
        r == text_or_none(s),
{
    if s.as_str().is_empty() {
        None
    } else {
        Some(s)
    }
}

/// The stored alarm after an update from its upstream record: the mutable
/// fields follow the upstream; identity, onset, station and the rest stay.
pub open spec fn updated_spec(a: Alarm, f: UpstreamAlarm, now: i64) -> Alarm {
    Alarm {
        severity: f.severity,
        description: f.description,
        error_text: text_or_none(f.error_text),
        when_off: f.when_off,
        when_ack: f.when_ack,
        duration_sec_bits: Some(f.duration_sec_bits),
        status: f.status,
        ack_comments: f.ack_comments,
        ack_action_taken: f.ack_action_taken,
        updated_at: Some(now),
        ..a
    }
}

/// Updates a stored alarm from its upstream record.
pub fn update_alarm(a: Alarm, f: UpstreamAlarm, now: i64) -> (r: Alarm)
    ensures
        r == updated_spec(a, f, now),
{
    Alarm {
        severity: f.severity,
        description: f.description,
        error_text: non_empty_text(f.error_text),
        when_off: f.when_off,
        when_ack: f.when_ack,
        duration_sec_bits: Some(f.duration_sec_bits),
        status: f.status,
        ack_comments: f.ack_comments,
        ack_action_taken: f.ack_action_taken,
        updated_at: Some(now),
        ..a
    }
}

/// The alarm to create from an upstream record.
pub open spec fn created_spec(id: u128, f: UpstreamAlarm, station_id: Option<u128>, now: i64) -> Alarm {
    Alarm {
        id,
        upstream_id: f.id,
        severity: f.severity,
        description: f.description,
        error_text: text_or_none(f.error_text),
        alarm_type: None,
        when_on: f.when_on,
        when_off: f.when_off,
        when_ack: f.when_ack,
        when_condition: f.when_condition,
        duration_sec_bits: Some(f.duration_sec_bits),
        status: f.status,
        is_system: f.is_system,
        serial_number: text_or_none(f.serial_number),
        location_text: text_or_none(f.location),
        zone_text: text_or_none(f.zone),
        station_id,
        ack_required: f.ack_required,
        ack_comments: f.ack_comments,
        ack_action_taken: f.ack_action_taken,
        created_at: Some(now),
        updated_at: Some(now),
    }
}

/// Builds a new stored alarm, under a fresh id, from an upstream record.
pub fn create_alarm(f: UpstreamAlarm, station_id: Option<u128>, now: i64) -> (r: Alarm)
    ensures
        r == created_spec(r.id, f, station_id, now),
{
    Alarm {
        id: fresh_id(),
        upstream_id: f.id,
        severity: f.severity,
        description: f.description,
        error_text: non_empty_text(f.error_text),
        alarm_type: None,
        when_on: f.when_on,
        when_off: f.when_off,
        when_ack: f.when_ack,
        when_condition: f.when_condition,
        duration_sec_bits: Some(f.duration_sec_bits),
        status: f.status,
        is_system: f.is_system,
        serial_number: non_empty_text(f.serial_number),
        location_text: non_empty_text(f.location),
        zone_text: non_empty_text(f.zone),
        station_id,
        ack_required: f.ack_required,
        ack_comments: f.ack_comments,
        ack_action_taken: f.ack_action_taken,
        created_at: Some(now),
        updated_at: Some(now),
    }
}

pub open spec fn deactivated_spec(a: Alarm, now: i64) -> Alarm {
    Alarm { status: false, when_off: Some(now), updated_at: Some(now), ..a }
}

/// Marks a stored alarm inactive as of `now`.
pub fn deactivate_alarm(a: Alarm, now: i64) -> (r: Alarm)
    ensures
        r == deactivated_spec(a, now),
{
    Alarm { status: false, when_off: Some(now), updated_at: Some(now), ..a }
}

/// An active alarm that disappears from the upstream list is marked
/// inactive at that moment, keeping its onset; when the upstream lists it
/// as active again, the update path makes it active again, still with its
/// first onset and station.
pub proof fn lemma_alarm_lifecycle(a: Alarm, f: UpstreamAlarm, t1: i64, t2: i64)
    requires
        a.status,
        f.id == a.upstream_id,
        f.status,
        f.when_off is None,
    ensures
        must_deactivate(a, Seq::<UpstreamAlarm>::empty()),
        deactivated_spec(a, t1).status == false,
        deactivated_spec(a, t1).when_off == Some(t1),
        deactivated_spec(a, t1).when_on == a.when_on,
        updated_spec(deactivated_spec(a, t1), f, t2).status,
        updated_spec(deactivated_spec(a, t1), f, t2).when_off is None,
        updated_spec(deactivated_spec(a, t1), f, t2).when_on == a.when_on,
        updated_spec(deactivated_spec(a, t1), f, t2).station_id == a.station_id,
        updated_spec(deactivated_spec(a, t1), f, t2).id == a.id,
{
    assert(!fetched_ids(Seq::<UpstreamAlarm>::empty()).contains(a.upstream_id));
}

} // verus!
