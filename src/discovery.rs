//! Discovery of the zone / station / sensor hierarchy from the upstream
//! location list.
use vstd::prelude::*;
use vstd::string::*;
use crate::models::fresh_id;
use crate::text::{
    chars_of, contains_chars, has_substring, lemma_split_nonempty, split_chars, split_spec,
    string_of,
};

verus! {

/// One entry of the upstream (flattened) location list.
pub struct LocationAttributes {
    pub zone_type_name: String,
    pub description: String,
    pub path: String,
    pub text: String,
    pub pos: i32,
    pub node_id: i32,
    pub pause: bool,
    pub leaf: bool,
    pub type_id: i32,
    pub node_type: i32,
    pub deleted: bool,
}

/// What a location of the hierarchy stands for.
pub enum LocationKind {
    Skip,
    Zone { name: String },
    Station { zone: String, name: String },
    Sensor,
}

/// Path of depth 2 that is not a leaf: a zone, named by its second segment.
pub open spec fn zone_name_spec(path: Seq<char>, leaf: bool, deleted: bool) -> Option<Seq<char>> {
    let parts = split_spec(path, '/');
    if !deleted && !leaf && parts.len() == 2 {
        Some(parts[1])
    } else {
        None
    }
}

/// Path of depth 3 that is not a leaf: a station.
pub open spec fn is_station_spec(path: Seq<char>, leaf: bool, deleted: bool) -> bool {
    !deleted && !leaf && split_spec(path, '/').len() == 3
}

/// A leaf of depth 4 or more: a sensor.
pub open spec fn is_sensor_spec(path: Seq<char>, leaf: bool, deleted: bool) -> bool {
    !deleted && leaf && split_spec(path, '/').len() >= 4
}

/// Classifies a location by the depth of its path and its leaf flag;
/// deleted locations are skipped.
pub fn classify_location(path: &str, leaf: bool, deleted: bool) -> (r: LocationKind)
    ensures
        ({
            let parts = split_spec(path@, '/');
            &&& zone_name_spec(path@, leaf, deleted) is Some ==> (r matches LocationKind::Zone {
                name,
            } && name@ == zone_name_spec(path@, leaf, deleted)->0)
            &&& is_station_spec(path@, leaf, deleted) ==> (r matches LocationKind::Station {
                zone,
                name,
            } && zone@ == parts[1] && name@ == parts[2])
            &&& is_sensor_spec(path@, leaf, deleted) ==> r is Sensor
            &&& (zone_name_spec(path@, leaf, deleted) is None && !is_station_spec(
                path@,
                leaf,
                deleted,
            ) && !is_sensor_spec(path@, leaf, deleted)) ==> r is Skip
        }),
{
    if deleted {
        return LocationKind::Skip;
    }
    let cs = chars_of(path);
    let parts = split_chars(cs.as_slice(), '/');
    proof {
        assert(parts@.map_values(|p: Vec<char>| p@).len() == parts@.len());
    }
    let n = parts.len();
    if n == 2 && !leaf {
        proof {
            assert(parts@.map_values(|p: Vec<char>| p@)[1] == parts@[1]@);
        }
        LocationKind::Zone { name: string_of(parts[1].as_slice()) }
    } else if n == 3 && !leaf {
        proof {
            assert(parts@.map_values(|p: Vec<char>| p@)[1] == parts@[1]@);
            assert(parts@.map_values(|p: Vec<char>| p@)[2] == parts@[2]@);
        }
        LocationKind::Station {
            zone: string_of(parts[1].as_slice()),
            name: string_of(parts[2].as_slice()),
        }
    } else if n >= 4 && leaf {
        LocationKind::Sensor
    } else {
        LocationKind::Skip
    }
}

/// `a/b/c`: the first three segments of a path joined again by `/`.
pub open spec fn station_prefix_spec(parts: Seq<Seq<char>>) -> Seq<char> {
    parts[0] + seq!['/'] + parts[1] + seq!['/'] + parts[2]
}

/// The path of the station that holds a sensor: the first three segments of
/// the sensor's path, or nothing when the path has fewer than four.
pub fn station_path_of(sensor_path: &str) -> (r: Option<String>)
    ensures
        ({
            let parts = split_spec(sensor_path@, '/');
            &&& parts.len() < 4 ==> r is None
            &&& parts.len() >= 4 ==> (r is Some && r->0@ == station_prefix_spec(parts))
        }),
{
    let cs = chars_of(sensor_path);
    let parts = split_chars(cs.as_slice(), '/');
    let ghost pv = parts@.map_values(|p: Vec<char>| p@);
    proof {
        assert(pv.len() == parts@.len());
    }
    if parts.len() < 4 {
        return None;
    }
    let mut out: Vec<char> = Vec::new();
    let mut k: usize = 0;
    while k < 3
        invariant
            k <= 3,
            parts@.len() >= 4,
            pv == parts@.map_values(|p: Vec<char>| p@),
            k == 0 ==> out@ == Seq::<char>::empty(),
            k == 1 ==> out@ == pv[0],
            k == 2 ==> out@ == pv[0] + seq!['/'] + pv[1],
            k == 3 ==> out@ == station_prefix_spec(pv),
        decreases 3 - k,
    {
        if k > 0 {
            out.push('/');
        }
        let seg = &parts[k];
        let mut j: usize = 0;
        let ghost base = out@;
        while j < seg.len()
            invariant
                j <= seg@.len(),
                out@ == base + seg@.subrange(0, j as int),
            decreases seg@.len() - j,
        {
            out.push(seg[j]);
            j = j + 1;
            proof {
                assert(out@ =~= base + seg@.subrange(0, j as int));
            }
        }
        proof {
            assert(seg@.subrange(0, seg@.len() as int) =~= seg@);
            assert(pv[k as int] == seg@);
            if k == 0 {
                assert(out@ =~= pv[0]);
            }
        }
        k = k + 1;
    }
    Some(string_of(out.as_slice()))
}

fn is_any(name: &[char], a: &str, b: &str) -> (r: bool)
    ensures
        r == (has_substring(name@, a@) || has_substring(name@, b@)),
{
    let ka = chars_of(a);
    if contains_chars(name, ka.as_slice()) {
        return true;
    }
    let kb = chars_of(b);
    contains_chars(name, kb.as_slice())
}

/// The sensor type that a sensor's name suggests: the first keyword group
/// that occurs in the name decides, and without one the name is the type.
pub open spec fn sensor_type_of(name: Seq<char>) -> Seq<char> {
    if has_substring(name, "depth"@) || has_substring(name, "Depth"@) {
        "Depth"@
    } else if has_substring(name, "cdom"@) || has_substring(name, "CDOM"@) {
        "CDOM"@
    } else if has_substring(name, "turb"@) || has_substring(name, "Turb"@) {
        "Turbidity"@
    } else if has_substring(name, "batt"@) || has_substring(name, "Batt"@) {
        "Battery"@
    } else if has_substring(name, "DOdegC"@) || has_substring(name, "DOTdegC"@) {
        "DO_Temperature"@
    } else if has_substring(name, "DOuM"@) {
        "Dissolved_O2"@
    } else if has_substring(name, "Condu"@) || has_substring(name, "condu"@) {
        "Conductivity"@
    } else if has_substring(name, "CondT"@) {
        "Cond_Temperature"@
    } else {
        name
    }
}

/// Derives the sensor type from the sensor's name.
pub fn derive_sensor_type(name: &str) -> (r: String)
    ensures
        r@ == sensor_type_of(name@),
{
    let cs = chars_of(name);
    let n = cs.as_slice();
    if is_any(n, "depth", "Depth") {
        String::from_str("Depth")
    } else if is_any(n, "cdom", "CDOM") {
        String::from_str("CDOM")
    } else if is_any(n, "turb", "Turb") {
        String::from_str("Turbidity")
    } else if is_any(n, "batt", "Batt") {
        String::from_str("Battery")
    } else if is_any(n, "DOdegC", "DOTdegC") {
        String::from_str("DO_Temperature")
    } else if is_any(n, "DOuM", "DOuM") {
        String::from_str("Dissolved_O2")
    } else if is_any(n, "Condu", "condu") {
        String::from_str("Conductivity")
    } else if is_any(n, "CondT", "CondT") {
        String::from_str("Cond_Temperature")
    } else {
        string_of(n)
    }
}

/// The zone that a location names, if it is one.
pub open spec fn loc_zone(l: LocationAttributes) -> Option<Seq<char>> {
    zone_name_spec(l.path@, l.leaf, l.deleted)
}

pub open spec fn loc_is_station(l: LocationAttributes) -> bool {
    is_station_spec(l.path@, l.leaf, l.deleted)
}

pub open spec fn loc_is_sensor(l: LocationAttributes) -> bool {
    is_sensor_spec(l.path@, l.leaf, l.deleted)
}

/// An empty text stands for an absent one.
pub open spec fn non_empty(s: Seq<char>) -> Option<Seq<char>> {
    if s.len() == 0 {
        None
    } else {
        Some(s)
    }
}

pub open spec fn opt_view(o: Option<String>) -> Option<Seq<char>> {
    match o {
        Some(s) => Some(s@),
        None => None,
    }
}

pub open spec fn names_hold(v: Seq<String>, n: Seq<char>) -> bool {
    exists|i: int| 0 <= i < v.len() && v[i]@ == n
}

/// A zone to create, under a fresh id.
pub struct NewZone {
    pub id: u128,
    pub name: String,
    pub path: String,
    pub description: Option<String>,
}

/// A station to create, under a fresh id, with the name of the zone that
/// holds it.
pub struct NewStation {
    pub id: u128,
    pub zone_name: String,
    pub name: String,
    pub node_id: i32,
    pub path: String,
}

/// What one discovery pass creates: zones first, then stations, then the
/// upstream ids of the sensors whose details must be fetched.
pub struct DiscoveryPlan {
    pub zones: Vec<NewZone>,
    pub stations: Vec<NewStation>,
    pub sensor_location_ids: Vec<i32>,
}

/// Upstream ids of the sensor locations not yet known, in list order.
pub open spec fn new_sensor_ids(locs: Seq<LocationAttributes>, known: Seq<i32>) -> Seq<i32>
    decreases locs.len(),
{
    if locs.len() == 0 {
        Seq::empty()
    } else {
        let rest = new_sensor_ids(locs.drop_last(), known);
        let l = locs.last();
        if loc_is_sensor(l) && !known.contains(l.node_id) {
            rest.push(l.node_id)
        } else {
            rest
        }
    }
}

pub open spec fn zone_plan_ok(
    locs: Seq<LocationAttributes>,
    known: Seq<String>,
    zones: Seq<NewZone>,
) -> bool {
    &&& forall|j: int|
        #![trigger zones[j]]
        0 <= j < zones.len() ==> exists|i: int|
            #![trigger locs[i]]
            0 <= i < locs.len() && loc_zone(locs[i]) == Some(zones[j].name@) && zones[j].path@
                == locs[i].path@ && opt_view(zones[j].description) == non_empty(
                locs[i].description@,
            ) && (forall|k: int| 0 <= k < i ==> loc_zone(locs[k]) != Some(zones[j].name@))
    &&& forall|j: int| 0 <= j < zones.len() ==> !names_hold(known, #[trigger] zones[j].name@)
    &&& forall|j1: int, j2: int|
        0 <= j1 < zones.len() && 0 <= j2 < zones.len() && j1 != j2 ==> zones[j1].name@
            != zones[j2].name@
    &&& forall|i: int|
        0 <= i < locs.len() && (#[trigger] loc_zone(locs[i])) is Some ==> names_hold(
            known,
            loc_zone(locs[i])->0,
        ) || exists|j: int| 0 <= j < zones.len() && zones[j].name@ == loc_zone(locs[i])->0
}

/// A planned station is the one that a location of depth 3 describes.
pub open spec fn station_matches(s: NewStation, l: LocationAttributes) -> bool {
    &&& loc_is_station(l)
    &&& s.node_id == l.node_id
    &&& s.path@ == l.path@
    &&& s.zone_name@ == split_spec(l.path@, '/')[1]
    &&& s.name@ == split_spec(l.path@, '/')[2]
}

pub open spec fn station_plan_ok(
    locs: Seq<LocationAttributes>,
    known: Seq<i32>,
    stations: Seq<NewStation>,
) -> bool {
    &&& forall|j: int|
        #![trigger stations[j]]
        0 <= j < stations.len() ==> exists|i: int|
            #![trigger locs[i]]
            0 <= i < locs.len() && station_matches(stations[j], locs[i]) && (forall|k: int|
                0 <= k < i && loc_is_station(locs[k]) ==> locs[k].node_id != stations[j].node_id)
    &&& forall|j: int| 0 <= j < stations.len() ==> !known.contains(#[trigger] stations[j].node_id)
    &&& forall|j1: int, j2: int|
        0 <= j1 < stations.len() && 0 <= j2 < stations.len() && j1 != j2
            ==> stations[j1].node_id != stations[j2].node_id
    &&& forall|i: int|
        0 <= i < locs.len() && #[trigger] loc_is_station(locs[i]) ==> known.contains(
            locs[i].node_id,
        ) || exists|j: int| 0 <= j < stations.len() && stations[j].node_id == locs[i].node_id
}

proof fn lemma_zone_plan_keep(
    pre: Seq<LocationAttributes>,
    next: Seq<LocationAttributes>,
    known: Seq<String>,
    zones: Seq<NewZone>,
)
    requires
        next.len() == pre.len() + 1,
        forall|k: int| 0 <= k < pre.len() ==> next[k] == pre[k],
        zone_plan_ok(pre, known, zones),
        loc_zone(next.last()) is Some ==> names_hold(known, loc_zone(next.last())->0) || exists|
            j: int,
        | 0 <= j < zones.len() && zones[j].name@ == loc_zone(next.last())->0,
    ensures
        zone_plan_ok(next, known, zones),
{
    assert forall|j: int| #![trigger zones[j]] 0 <= j < zones.len() implies exists|i: int|
        #![trigger next[i]]
        0 <= i < next.len() && loc_zone(next[i]) == Some(zones[j].name@) && zones[j].path@
            == next[i].path@ && opt_view(zones[j].description) == non_empty(next[i].description@)
            && (forall|k: int| 0 <= k < i ==> loc_zone(next[k]) != Some(zones[j].name@)) by {
        let i = choose|i: int|
            #![trigger pre[i]]
            0 <= i < pre.len() && loc_zone(pre[i]) == Some(zones[j].name@) && zones[j].path@
                == pre[i].path@ && opt_view(zones[j].description) == non_empty(pre[i].description@)
                && (forall|k: int| 0 <= k < i ==> loc_zone(pre[k]) != Some(zones[j].name@));
        assert(next[i] == pre[i]);
        assert forall|k: int| 0 <= k < i implies loc_zone(next[k]) != Some(zones[j].name@) by {
            assert(next[k] == pre[k]);
        }
    }
    assert forall|i: int|
        0 <= i < next.len() && (#[trigger] loc_zone(next[i])) is Some implies names_hold(
            known,
            loc_zone(next[i])->0,
        ) || exists|j: int| 0 <= j < zones.len() && zones[j].name@ == loc_zone(next[i])->0 by {
        if i < pre.len() {
            assert(next[i] == pre[i]);
        }
    }
}

proof fn lemma_zone_plan_add(
    pre: Seq<LocationAttributes>,
    next: Seq<LocationAttributes>,
    known: Seq<String>,
    zones: Seq<NewZone>,
    z: NewZone,
)
    requires
        next.len() == pre.len() + 1,
        forall|k: int| 0 <= k < pre.len() ==> next[k] == pre[k],
        zone_plan_ok(pre, known, zones),
        loc_zone(next.last()) == Some(z.name@),
        z.path@ == next.last().path@,
        opt_view(z.description) == non_empty(next.last().description@),
        !names_hold(known, z.name@),
        !exists|j: int| 0 <= j < zones.len() && zones[j].name@ == z.name@,
    ensures
        zone_plan_ok(next, known, zones.push(z)),
{
    let nz = zones.push(z);
    let last = pre.len() as int;
    assert(nz[zones.len() as int] == z);
    assert forall|j: int| #![trigger nz[j]] 0 <= j < nz.len() implies exists|i: int|
        #![trigger next[i]]
        0 <= i < next.len() && loc_zone(next[i]) == Some(nz[j].name@) && nz[j].path@
            == next[i].path@ && opt_view(nz[j].description) == non_empty(next[i].description@)
            && (forall|k: int| 0 <= k < i ==> loc_zone(next[k]) != Some(nz[j].name@)) by {
        if j < zones.len() {
            assert(nz[j] == zones[j]);
            let i = choose|i: int|
                #![trigger pre[i]]
                0 <= i < pre.len() && loc_zone(pre[i]) == Some(zones[j].name@) && zones[j].path@
                    == pre[i].path@ && opt_view(zones[j].description) == non_empty(
                    pre[i].description@,
                ) && (forall|k: int| 0 <= k < i ==> loc_zone(pre[k]) != Some(zones[j].name@));
            assert(next[i] == pre[i]);
            assert forall|k: int| 0 <= k < i implies loc_zone(next[k]) != Some(nz[j].name@) by {
                assert(next[k] == pre[k]);
            }
        } else {
            assert(next[last] == next.last());
            assert forall|k: int| 0 <= k < last implies loc_zone(next[k]) != Some(nz[j].name@) by {
                assert(next[k] == pre[k]);
                if loc_zone(pre[k]) == Some(z.name@) {
                    assert(names_hold(known, loc_zone(pre[k])->0) || exists|jj: int|
                        0 <= jj < zones.len() && zones[jj].name@ == loc_zone(pre[k])->0);
                }
            }
        }
    }
    assert forall|j: int| 0 <= j < nz.len() implies !names_hold(known, #[trigger] nz[j].name@) by {
        if j < zones.len() {
            assert(nz[j] == zones[j]);
        }
    }
    assert forall|j1: int, j2: int|
        0 <= j1 < nz.len() && 0 <= j2 < nz.len() && j1 != j2 implies nz[j1].name@
        != nz[j2].name@ by {
        if j1 < zones.len() {
            assert(nz[j1] == zones[j1]);
        }
        if j2 < zones.len() {
            assert(nz[j2] == zones[j2]);
        }
    }
    assert forall|i: int|
        0 <= i < next.len() && (#[trigger] loc_zone(next[i])) is Some implies names_hold(
            known,
            loc_zone(next[i])->0,
        ) || exists|j: int| 0 <= j < nz.len() && nz[j].name@ == loc_zone(next[i])->0 by {
        if i < pre.len() {
            assert(next[i] == pre[i]);
            if !names_hold(known, loc_zone(pre[i])->0) {
                let j = choose|j: int|
                    0 <= j < zones.len() && zones[j].name@ == loc_zone(pre[i])->0;
                assert(nz[j] == zones[j]);
            }
        } else {
            assert(nz[zones.len() as int].name@ == z.name@);
        }
    }
}

proof fn lemma_station_plan_keep(
    pre: Seq<LocationAttributes>,
    next: Seq<LocationAttributes>,
    known: Seq<i32>,
    st: Seq<NewStation>,
)
    requires
        next.len() == pre.len() + 1,
        forall|k: int| 0 <= k < pre.len() ==> next[k] == pre[k],
        station_plan_ok(pre, known, st),
        loc_is_station(next.last()) ==> known.contains(next.last().node_id) || exists|j: int|
            0 <= j < st.len() && st[j].node_id == next.last().node_id,
    ensures
        station_plan_ok(next, known, st),
{
    assert forall|j: int| #![trigger st[j]] 0 <= j < st.len() implies exists|i: int|
        #![trigger next[i]]
        0 <= i < next.len() && station_matches(st[j], next[i]) && (forall|k: int|
            0 <= k < i && loc_is_station(next[k]) ==> next[k].node_id != st[j].node_id) by {
        let i = choose|i: int|
            #![trigger pre[i]]
            0 <= i < pre.len() && station_matches(st[j], pre[i]) && (forall|k: int|
                0 <= k < i && loc_is_station(pre[k]) ==> pre[k].node_id != st[j].node_id);
        assert(next[i] == pre[i]);
        assert forall|k: int| 0 <= k < i && loc_is_station(next[k]) implies next[k].node_id
            != st[j].node_id by {
            assert(next[k] == pre[k]);
        }
    }
    assert forall|i: int|
        0 <= i < next.len() && #[trigger] loc_is_station(next[i]) implies known.contains(
            next[i].node_id,
        ) || exists|j: int| 0 <= j < st.len() && st[j].node_id == next[i].node_id by {
        if i < pre.len() {
            assert(next[i] == pre[i]);
        }
    }
}

proof fn lemma_station_plan_add(
    pre: Seq<LocationAttributes>,
    next: Seq<LocationAttributes>,
    known: Seq<i32>,
    st: Seq<NewStation>,
    s: NewStation,
)
    requires
        next.len() == pre.len() + 1,
        forall|k: int| 0 <= k < pre.len() ==> next[k] == pre[k],
        station_plan_ok(pre, known, st),
        station_matches(s, next.last()),
        !known.contains(s.node_id),
        !exists|j: int| 0 <= j < st.len() && st[j].node_id == s.node_id,
    ensures
        station_plan_ok(next, known, st.push(s)),
{
    let ns = st.push(s);
    let last = pre.len() as int;
    assert(ns[st.len() as int] == s);
    assert forall|j: int| #![trigger ns[j]] 0 <= j < ns.len() implies exists|i: int|
        #![trigger next[i]]
        0 <= i < next.len() && station_matches(ns[j], next[i]) && (forall|k: int|
            0 <= k < i && loc_is_station(next[k]) ==> next[k].node_id != ns[j].node_id) by {
        if j < st.len() {
            assert(ns[j] == st[j]);
            let i = choose|i: int|
                #![trigger pre[i]]
                0 <= i < pre.len() && station_matches(st[j], pre[i]) && (forall|k: int|
                    0 <= k < i && loc_is_station(pre[k]) ==> pre[k].node_id != st[j].node_id);
            assert(next[i] == pre[i]);
            assert forall|k: int| 0 <= k < i && loc_is_station(next[k]) implies next[k].node_id
                != ns[j].node_id by {
                assert(next[k] == pre[k]);
            }
        } else {
            assert(next[last] == next.last());
            assert forall|k: int| 0 <= k < last && loc_is_station(next[k]) implies next[k].node_id
                != ns[j].node_id by {
                assert(next[k] == pre[k]);
            }
        }
    }
    assert forall|j: int| 0 <= j < ns.len() implies !known.contains(#[trigger] ns[j].node_id) by {
        if j < st.len() {
            assert(ns[j] == st[j]);
        }
    }
    assert forall|j1: int, j2: int|
        0 <= j1 < ns.len() && 0 <= j2 < ns.len() && j1 != j2 implies ns[j1].node_id
        != ns[j2].node_id by {
        if j1 < st.len() {
            assert(ns[j1] == st[j1]);
        }
        if j2 < st.len() {
            assert(ns[j2] == st[j2]);
        }
    }
    assert forall|i: int|
        0 <= i < next.len() && #[trigger] loc_is_station(next[i]) implies known.contains(
            next[i].node_id,
        ) || exists|j: int| 0 <= j < ns.len() && ns[j].node_id == next[i].node_id by {
        if i < pre.len() {
            assert(next[i] == pre[i]);
            if !known.contains(pre[i].node_id) {
                let j = choose|j: int| 0 <= j < st.len() && st[j].node_id == pre[i].node_id;
                assert(ns[j] == st[j]);
            }
        } else {
            assert(ns[st.len() as int].node_id == s.node_id);
        }
    }
}

fn holds_name(v: &Vec<String>, n: &String) -> (r: bool)
    ensures
        r == names_hold(v@, n@),
{
    let mut i: usize = 0;
    while i < v.len()
        invariant
            i <= v@.len(),
            forall|k: int| 0 <= k < i ==> v@[k]@ != n@,
        decreases v@.len() - i,
    {
        if v[i] == *n {
            return true;
        }
        i = i + 1;
    }
    false
}

fn zone_planned(zones: &Vec<NewZone>, n: &String) -> (r: bool)
    ensures
        r == exists|j: int| 0 <= j < zones@.len() && zones@[j].name@ == n@,
{
    let mut i: usize = 0;
    while i < zones.len()
        invariant
            i <= zones@.len(),
            forall|k: int| 0 <= k < i ==> zones@[k].name@ != n@,
        decreases zones@.len() - i,
    {
        if zones[i].name == *n {
            return true;
        }
        i = i + 1;
    }
    false
}

fn holds_id(v: &Vec<i32>, x: i32) -> (r: bool)
    ensures
        r == v@.contains(x),
{
    let mut i: usize = 0;
    while i < v.len()
        invariant
            i <= v@.len(),
            forall|k: int| 0 <= k < i ==> v@[k] != x,
        decreases v@.len() - i,
    {
        if v[i] == x {
            proof {
                assert(v@[i as int] == x);
            }
            return true;
        }
        i = i + 1;
    }
    false
}

fn station_planned(stations: &Vec<NewStation>, node: i32) -> (r: bool)
    ensures
        r == exists|j: int| 0 <= j < stations@.len() && stations@[j].node_id == node,
{
    let mut i: usize = 0;
    while i < stations.len()
        invariant
            i <= stations@.len(),
            forall|k: int| 0 <= k < i ==> stations@[k].node_id != node,
        decreases stations@.len() - i,
    {
        if stations[i].node_id == node {
            return true;
        }
        i = i + 1;
    }
    false
}

fn describe(d: &String) -> (r: Option<String>)
    ensures
        opt_view(r) == non_empty(d@),
{
    if d.as_str().is_empty() {
        None
    } else {
        Some(d.clone())
    }
}

/// Works out what a discovery pass creates from the upstream location list
/// and the zone names, station node ids and sensor location ids already
/// stored. Deleted locations are skipped; a zone or station seen twice is
/// created once, from its first location.
pub fn plan_discovery(
    locations: &Vec<LocationAttributes>,
    known_zones: &Vec<String>,
    known_stations: &Vec<i32>,
    known_sensors: &Vec<i32>,
) -> (r: DiscoveryPlan)
    ensures
        zone_plan_ok(locations@, known_zones@, r.zones@),
        station_plan_ok(locations@, known_stations@, r.stations@),
        r.sensor_location_ids@ == new_sensor_ids(locations@, known_sensors@),
{
    let mut zones: Vec<NewZone> = Vec::new();
    let mut stations: Vec<NewStation> = Vec::new();
    let mut sensors: Vec<i32> = Vec::new();
    let mut i: usize = 0;
    while i < locations.len()
        invariant
            i <= locations@.len(),
            zone_plan_ok(locations@.subrange(0, i as int), known_zones@, zones@),
            station_plan_ok(locations@.subrange(0, i as int), known_stations@, stations@),
            sensors@ == new_sensor_ids(locations@.subrange(0, i as int), known_sensors@),
        decreases locations@.len() - i,
    {
        let l = &locations[i];
        let ghost pre = locations@.subrange(0, i as int);
        let ghost next = locations@.subrange(0, i as int + 1);
        proof {
            assert(next.drop_last() =~= pre);
            assert(next.last() == *l);
            assert forall|k: int| 0 <= k < pre.len() implies next[k] == pre[k] by {}
        }
        let kind = classify_location(l.path.as_str(), l.leaf, l.deleted);
        match kind {
            LocationKind::Zone { name } => {
                if !holds_name(known_zones, &name) && !zone_planned(&zones, &name) {
                    let ghost old_zones = zones@;
                    let z = NewZone {
                        id: fresh_id(),
                        name,
                        path: l.path.clone(),
                        description: describe(&l.description),
                    };
                    zones.push(z);
                    proof {
                        lemma_zone_plan_add(pre, next, known_zones@, old_zones, z);
                    }
                } else {
                    proof {
                        lemma_zone_plan_keep(pre, next, known_zones@, zones@);
                    }
                }
                proof {
                    lemma_station_plan_keep(pre, next, known_stations@, stations@);
                }
            },
            LocationKind::Station { zone, name } => {
                if !holds_id(known_stations, l.node_id) && !station_planned(&stations, l.node_id) {
                    let st = NewStation {
                        id: fresh_id(),
                        zone_name: zone,
                        name,
                        node_id: l.node_id,
                        path: l.path.clone(),
                    };
                    let ghost old_st = stations@;
                    stations.push(st);
                    proof {
                        lemma_station_plan_add(pre, next, known_stations@, old_st, st);
                    }
                } else {
                    proof {
                        lemma_station_plan_keep(pre, next, known_stations@, stations@);
                    }
                }
                proof {
                    lemma_zone_plan_keep(pre, next, known_zones@, zones@);
                }
            },
            LocationKind::Sensor => {
                if !holds_id(known_sensors, l.node_id) {
                    sensors.push(l.node_id);
                }
                proof {
                    lemma_zone_plan_keep(pre, next, known_zones@, zones@);
                    lemma_station_plan_keep(pre, next, known_stations@, stations@);
                }
            },
            LocationKind::Skip => {
                proof {
                    lemma_zone_plan_keep(pre, next, known_zones@, zones@);
                    lemma_station_plan_keep(pre, next, known_stations@, stations@);
                }
            },
        }
        i = i + 1;
    }
    proof {
        assert(locations@.subrange(0, locations@.len() as int) =~= locations@);
    }
    DiscoveryPlan { zones, stations, sensor_location_ids: sensors }
}

/// The node id of the station that holds a sensor: the first location whose
/// path is the sensor path's three-segment prefix.
pub fn find_station_node(sensor_path: &str, locations: &Vec<LocationAttributes>) -> (r: Option<
    i32,
>)
    ensures
        ({
            let parts = split_spec(sensor_path@, '/');
            &&& parts.len() < 4 ==> r is None
            &&& parts.len() >= 4 ==> {
                let p = station_prefix_spec(parts);
                &&& r is None <==> forall|i: int|
                    0 <= i < locations@.len() ==> locations@[i].path@ != p
                &&& r is Some ==> exists|i: int|
                    0 <= i < locations@.len() && locations@[i].path@ == p && r->0
                        == locations@[i].node_id && forall|k: int|
                        0 <= k < i ==> locations@[k].path@ != p
            }
        }),
{
    let prefix = match station_path_of(sensor_path) {
        Some(p) => p,
        None => {
            return None;
        },
    };
    let mut i: usize = 0;
    while i < locations.len()
        invariant
            i <= locations@.len(),
            split_spec(sensor_path@, '/').len() >= 4,
            prefix@ == station_prefix_spec(split_spec(sensor_path@, '/')),
            forall|k: int| 0 <= k < i ==> locations@[k].path@ != prefix@,
        decreases locations@.len() - i,
    {
        if locations[i].path == prefix {
            proof {
                assert(locations@[i as int].path@ == prefix@);
                assert(!(forall|k: int|
                    0 <= k < locations@.len() ==> locations@[k].path@ != prefix@));
            }
            return Some(locations[i].node_id);
        }
        i = i + 1;
    }
    None
}

/// Current attributes of a sensor location, as the upstream details call
/// returns them.
pub struct LocationDataAttributes {
    pub id: i32,
    pub zone: String,
    pub location_name: String,
    pub location_description: String,
    pub location_path: String,
    pub decimal_places: i16,
    pub display_units: String,
    pub channel_id: i32,
    pub logger_serial_number: String,
    pub probe_serial_number: String,
    pub sample_interval_sec: i32,
    pub timestamp: i64,
    pub device_status: String,
    pub battery_level: i16,
    pub battery_state: i16,
    pub signal_quality: i16,
    pub unreachable: bool,
}

/// A sensor to create, under a fresh id.
pub struct NewSensor {
    pub id: u128,
    pub station_id: u128,
    pub location_id: i32,
    pub name: String,
    pub sensor_type: String,
    pub display_units: Option<String>,
    pub decimal_places: Option<i16>,
    pub device_serial_number: Option<String>,
    pub probe_serial_number: Option<String>,
    pub channel_id: Option<i32>,
    pub sample_interval_sec: Option<i32>,
    pub is_active: bool,
}

/// Zero stands for an absent number.
pub open spec fn non_zero(x: i32) -> Option<i32> {
    if x == 0 {
        None
    } else {
        Some(x)
    }
}

/// The sensor record for a newly discovered location held by `station_id`.
pub fn sensor_record(d: &LocationDataAttributes, station_id: u128) -> (r: NewSensor)
    ensures
        r.station_id == station_id,
        r.location_id == d.id,
        r.name@ == d.location_name@,
        r.sensor_type@ == sensor_type_of(d.location_name@),
        opt_view(r.display_units) == Some(d.display_units@),
        r.decimal_places == Some(d.decimal_places),
        opt_view(r.device_serial_number) == non_empty(d.logger_serial_number@),
        opt_view(r.probe_serial_number) == non_empty(d.probe_serial_number@),
        r.channel_id == non_zero(d.channel_id),
        r.sample_interval_sec == non_zero(d.sample_interval_sec),
        r.is_active,
{
    NewSensor {
        id: fresh_id(),
        station_id,
        location_id: d.id,
        name: d.location_name.clone(),
        sensor_type: derive_sensor_type(d.location_name.as_str()),
        display_units: Some(d.display_units.clone()),
        decimal_places: Some(d.decimal_places),
        device_serial_number: describe(&d.logger_serial_number),
        probe_serial_number: describe(&d.probe_serial_number),
        channel_id: if d.channel_id == 0 {
            None
        } else {
            Some(d.channel_id)
        },
        sample_interval_sec: if d.sample_interval_sec == 0 {
            None
        } else {
            Some(d.sample_interval_sec)
        },
        is_active: true,
    }
}

/// A device-health sample to append for a sensor.
pub struct DeviceStatusRow {
    pub sensor_id: u128,
    pub time: i64,
    pub battery_level: Option<i16>,
    pub battery_state: Option<i16>,
    pub signal_quality: Option<i16>,
    pub device_status: Option<String>,
    pub unreachable: Option<bool>,
}

/// The device-health sample of a sensor's current data, stamped `now`.
pub fn device_status_row(d: &LocationDataAttributes, sensor_id: u128, now: i64) -> (r:
    DeviceStatusRow)
    ensures
        r.sensor_id == sensor_id,
        r.time == now,
        r.battery_level == Some(d.battery_level),
        r.battery_state == Some(d.battery_state),
        r.signal_quality == Some(d.signal_quality),
        opt_view(r.device_status) == Some(d.device_status@),
        r.unreachable == Some(d.unreachable),
{
    DeviceStatusRow {
        sensor_id,
        time: now,
        battery_level: Some(d.battery_level),
        battery_state: Some(d.battery_state),
        signal_quality: Some(d.signal_quality),
        device_status: Some(d.device_status.clone()),
        unreachable: Some(d.unreachable),
    }
}

} // verus!
