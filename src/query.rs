//! Request-side decisions of the query surface: time-window validation,
//! rollup resolution, response format, sensor-type filters and the
//! resolution of hierarchy identifiers.
use vstd::prelude::*;
use vstd::string::*;
use crate::errors::AppError;
use crate::text::{
    chars_of, contains_chars, has_substring, lower_of, lowercase, same_text, split_chars,
    split_spec, string_of, trim, trimmed_of,
};

verus! {

/// Longest span of a rollup query, in days.
pub const MAX_ROLLUP_DAYS: i64 = 90;

pub const MICROS_PER_DAY: i64 = 86_400_000_000;

/// Why a query is refused before it reaches the store.
#[derive(PartialEq, Eq, Structural, Clone, Copy, Debug)]
pub enum WindowError {
    /// Both ends are given and the end is not after the start.
    EndNotAfterStart,
    /// A rollup window longer than the cap.
    SpanTooLong,
}

/// Validates an optional raw-readings window (times in microseconds since
/// the epoch): when both ends are given, the end must lie after the start.
pub fn validate_window(start: Option<i64>, end: Option<i64>) -> (r: Result<(), WindowError>)
    ensures
        r is Err <==> (start is Some && end is Some && end->0 <= start->0),
        r is Err ==> r == Err::<(), WindowError>(WindowError::EndNotAfterStart),
{
    match (start, end) {
        (Some(s), Some(e)) => if e <= s {
            Err(WindowError::EndNotAfterStart)
        } else {
            Ok(())
        },
        _ => Ok(()),
    }
}

/// Validates a rollup window (microseconds since the epoch): the end must
/// lie after the start, and the span may not exceed 90 days.
pub fn validate_rollup_window(start: i64, end: i64) -> (r: Result<(), WindowError>)
    ensures
        end <= start ==> r == Err::<(), WindowError>(WindowError::EndNotAfterStart),
        end > start && end - start > MAX_ROLLUP_DAYS * MICROS_PER_DAY ==> r == Err::<
            (),
            WindowError,
        >(WindowError::SpanTooLong),
        end > start && end - start <= MAX_ROLLUP_DAYS * MICROS_PER_DAY ==> r is Ok,
{
    if end <= start {
        return Err(WindowError::EndNotAfterStart);
    }
    if (end as i128) - (start as i128) > (MAX_ROLLUP_DAYS as i128) * (MICROS_PER_DAY as i128) {
        return Err(WindowError::SpanTooLong);
    }
    Ok(())
}

/// Bucket width of a rollup.
#[derive(PartialEq, Eq, Structural, Clone, Copy, Debug)]
pub enum Resolution {
    Hourly,
    Daily,
    Weekly,
    Monthly,
}

pub open spec fn resolution_spec(s: Seq<char>) -> Option<Resolution> {
    if s == "hourly"@ {
        Some(Resolution::Hourly)
    } else if s == "daily"@ {
        Some(Resolution::Daily)
    } else if s == "weekly"@ {
        Some(Resolution::Weekly)
    } else if s == "monthly"@ {
        Some(Resolution::Monthly)
    } else {
        None
    }
}

impl Resolution {
    /// Reads a resolution name; only the four lower-case names are known.
    pub fn parse(s: &str) -> (r: Option<Resolution>)
        ensures
            r == resolution_spec(s@),
    {
        if same_text(s, "hourly") {
            Some(Resolution::Hourly)
        } else if same_text(s, "daily") {
            Some(Resolution::Daily)
        } else if same_text(s, "weekly") {
            Some(Resolution::Weekly)
        } else if same_text(s, "monthly") {
            Some(Resolution::Monthly)
        } else {
            None
        }
    }

    /// The continuous-aggregate view that holds this rollup.
    pub fn view_name(&self) -> (r: String)
        ensures
            *self == Resolution::Hourly ==> r@ == "readings_hourly"@,
            *self == Resolution::Daily ==> r@ == "readings_daily"@,
            *self == Resolution::Weekly ==> r@ == "readings_weekly"@,
            *self == Resolution::Monthly ==> r@ == "readings_monthly"@,
    {
        match self {
            Resolution::Hourly => String::from_str("readings_hourly"),
            Resolution::Daily => String::from_str("readings_daily"),
            Resolution::Weekly => String::from_str("readings_weekly"),
            Resolution::Monthly => String::from_str("readings_monthly"),
        }
    }
}

/// The response format: a non-default `format` parameter wins (lower-cased);
/// otherwise an `Accept` header naming NDJSON, then one naming CSV; JSON
/// by default.
pub open spec fn format_spec(query_format: Seq<char>, accept: Option<Seq<char>>) -> Seq<char> {
    if query_format != "json"@ {
        lower_of(query_format)
    } else if accept is Some && has_substring(accept->0, "application/x-ndjson"@) {
        "ndjson"@
    } else if accept is Some && has_substring(accept->0, "text/csv"@) {
        "csv"@
    } else {
        "json"@
    }
}

pub open spec fn text_view(o: Option<&str>) -> Option<Seq<char>> {
    match o {
        Some(a) => Some(a@),
        None => None,
    }
}

/// The `format` parameter when none is given.
pub fn default_format() -> (r: String)
    ensures
        r@ == "json"@,
{
    String::from_str("json")
}

/// Chooses the response format.
pub fn determine_format(query_format: &str, accept: Option<&str>) -> (r: String)
    ensures
        r@ == format_spec(query_format@, text_view(accept)),
{
    if !same_text(query_format, "json") {
        return lowercase(query_format);
    }
    match accept {
        Some(a) => {
            let cs = chars_of(a);
            let nd = chars_of("application/x-ndjson");
            if contains_chars(cs.as_slice(), nd.as_slice()) {
                return String::from_str("ndjson");
            }
            let csv = chars_of("text/csv");
            if contains_chars(cs.as_slice(), csv.as_slice()) {
                return String::from_str("csv");
            }
            String::from_str("json")
        },
        None => String::from_str("json"),
    }
}

/// CSV and NDJSON are streamed and need a bulk permit.
pub fn is_bulk_format(format: &str) -> (r: bool)
    ensures
        r == (format@ == "csv"@ || format@ == "ndjson"@),
{
    same_text(format, "csv") || same_text(format, "ndjson")
}

/// Declares tokio's semaphore, which caps concurrent bulk responses.
#[verifier::external_type_specification]
#[verifier::external_body]
pub struct ExSemaphore(tokio::sync::Semaphore);

/// Declares the permit that tokio hands out; dropping it frees its slot.
#[verifier::external_type_specification]
#[verifier::external_body]
pub struct ExOwnedSemaphorePermit(tokio::sync::OwnedSemaphorePermit);

/// Relies on `tokio::sync::Semaphore::try_acquire_owned`: a permit when one
/// is free at this moment, nothing otherwise; it never waits.
#[verifier::external_body]
fn try_permit(gate: &std::sync::Arc<tokio::sync::Semaphore>) -> Option<
    tokio::sync::OwnedSemaphorePermit,
> {
    gate.clone().try_acquire_owned().ok()
}

/// Admission of a response: CSV and NDJSON take a bulk permit, held until
/// the stream ends, and are refused at once (503) when none is free; other
/// formats need none.
pub fn bulk_admission(gate: &std::sync::Arc<tokio::sync::Semaphore>, format: &str) -> (r: Result<
    Option<tokio::sync::OwnedSemaphorePermit>,
    AppError,
>)
    ensures
        !(format@ == "csv"@ || format@ == "ndjson"@) ==> r matches Ok(None),
        (format@ == "csv"@ || format@ == "ndjson"@) ==> (r matches Ok(Some(_)) || (r matches Err(
            AppError::ServiceUnavailable(m),
        ) && m@ == "Too many concurrent bulk requests. Please try again later."@)),
{
    if !is_bulk_format(format) {
        return Ok(None);
    }
    match try_permit(gate) {
        Some(p) => Ok(Some(p)),
        None => Err(AppError::bulk_refused()),
    }
}

/// Only JSON responses are cached.
pub fn is_cached_format(format: &str) -> (r: bool)
    ensures
        r == (format@ == "json"@),
{
    same_text(format, "json")
}

/// The sensor types of a comma-separated filter, each trimmed.
pub open spec fn type_list_spec(filter: Seq<char>) -> Seq<Seq<char>> {
    split_spec(filter, ',').map_values(|p: Seq<char>| trimmed_of(p))
}

/// Splits a `sensor_types` filter at commas and trims each piece.
pub fn parse_sensor_types(filter: &str) -> (r: Vec<String>)
    ensures
        r@.map_values(|s: String| s@) == type_list_spec(filter@),
{
    let cs = chars_of(filter);
    let parts = split_chars(cs.as_slice(), ',');
    let ghost pv = parts@.map_values(|p: Vec<char>| p@);
    let mut out: Vec<String> = Vec::new();
    let mut i: usize = 0;
    while i < parts.len()
        invariant
            i <= parts@.len(),
            pv == parts@.map_values(|p: Vec<char>| p@),
            pv == split_spec(filter@, ','),
            out@.len() == i,
            forall|k: int| 0 <= k < i ==> (#[trigger] out@[k])@ == trimmed_of(pv[k]),
        decreases parts@.len() - i,
    {
        let piece = string_of(parts[i].as_slice());
        let t = trim(piece.as_str());
        out.push(t);
        i = i + 1;
    }
    proof {
        assert(out@.map_values(|s: String| s@) =~= type_list_spec(filter@));
    }
    out
}

/// A zone or station as the resolver sees it.
pub struct NamedNode {
    pub id: u128,
    pub name: String,
}

/// What `uuid::Uuid::parse_str` makes of a text: the 128-bit value, or
/// nothing when the text is no UUID.
pub uninterp spec fn uuid_of(s: Seq<char>) -> Option<u128>;

/// Relies on `uuid::Uuid::parse_str` and `Uuid::as_u128`: the value of the
/// UUID that the text spells, or nothing when it spells none. The result
/// depends on the characters alone.
#[verifier::external_body]
pub(crate) fn parse_uuid(s: &str) -> (r: Option<u128>)
    ensures
        r == uuid_of(s@),
{
    match uuid::Uuid::parse_str(s) {
        Ok(u) => Some(u.as_u128()),
        Err(_) => None,
    }
}

/// `r` is what resolving `name` among `nodes` gives: the id of the first
/// node whose lower-cased name equals the lower-cased `name`, or nothing
/// when there is none.
pub open spec fn resolves_to(nodes: Seq<NamedNode>, name: Seq<char>, r: Option<u128>) -> bool {
    &&& r is None <==> forall|i: int| 0 <= i < nodes.len() ==> lower_of(nodes[i].name@) != lower_of(name)
    &&& r is Some ==> exists|i: int|
        0 <= i < nodes.len() && nodes[i].id == r->0 && lower_of(nodes[i].name@) == lower_of(name)
            && forall|k: int| 0 <= k < i ==> lower_of(nodes[k].name@) != lower_of(name)
}

/// Names are unique once lower-cased.
pub open spec fn unique_names(nodes: Seq<NamedNode>) -> bool {
    forall|a: int, b: int|
        0 <= a < nodes.len() && 0 <= b < nodes.len() && a != b ==> lower_of(nodes[a].name@)
            != lower_of(nodes[b].name@)
}

/// Name resolution ignores case: two spellings with the same lower-cased
/// form resolve alike. And it ignores order: with names unique once
/// lower-cased, two lists holding the same nodes resolve a name alike.
pub proof fn lemma_resolution_insensitive(
    nodes: Seq<NamedNode>,
    other: Seq<NamedNode>,
    n1: Seq<char>,
    n2: Seq<char>,
    r1: Option<u128>,
    r2: Option<u128>,
    r3: Option<u128>,
)
    requires
        resolves_to(nodes, n1, r1),
        resolves_to(nodes, n2, r2),
        resolves_to(other, n1, r3),
    ensures
        lower_of(n1) == lower_of(n2) ==> r1 == r2,
        unique_names(nodes) && unique_names(other) && (forall|x: NamedNode|
            nodes.contains(x) <==> other.contains(x)) ==> r1 == r3,
{
    if lower_of(n1) == lower_of(n2) && r1 is Some {
        let i = choose|i: int|
            0 <= i < nodes.len() && nodes[i].id == r1->0 && lower_of(nodes[i].name@) == lower_of(n1)
                && forall|k: int| 0 <= k < i ==> lower_of(nodes[k].name@) != lower_of(n1);
        let j = choose|j: int|
            0 <= j < nodes.len() && nodes[j].id == r2->0 && lower_of(nodes[j].name@) == lower_of(n2)
                && forall|k: int| 0 <= k < j ==> lower_of(nodes[k].name@) != lower_of(n2);
        assert(i == j);
    }
    if unique_names(nodes) && unique_names(other) && (forall|x: NamedNode|
        nodes.contains(x) <==> other.contains(x)) {
        if r1 is Some {
            let i = choose|i: int|
                0 <= i < nodes.len() && nodes[i].id == r1->0 && lower_of(nodes[i].name@)
                    == lower_of(n1) && forall|k: int|
                    0 <= k < i ==> lower_of(nodes[k].name@) != lower_of(n1);
            assert(nodes.contains(nodes[i]));
            let k = choose|k: int| 0 <= k < other.len() && other[k] == nodes[i];
            let j = choose|j: int|
                0 <= j < other.len() && other[j].id == r3->0 && lower_of(other[j].name@)
                    == lower_of(n1) && forall|q: int|
                    0 <= q < j ==> lower_of(other[q].name@) != lower_of(n1);
            assert(k == j);
        } else if r3 is Some {
            let j = choose|j: int|
                0 <= j < other.len() && other[j].id == r3->0 && lower_of(other[j].name@)
                    == lower_of(n1) && forall|q: int|
                    0 <= q < j ==> lower_of(other[q].name@) != lower_of(n1);
            assert(other.contains(other[j]));
            let k = choose|k: int| 0 <= k < nodes.len() && nodes[k] == other[j];
            assert(lower_of(nodes[k].name@) == lower_of(n1));
        }
    }
}

/// Finds the node whose name matches `name` without regard to case.
pub fn find_by_name(nodes: &Vec<NamedNode>, name: &str) -> (r: Option<u128>)
    ensures
        resolves_to(nodes@, name@, r),
{
    let wanted = lowercase(name);
    let mut i: usize = 0;
    while i < nodes.len()
        invariant
            i <= nodes@.len(),
            wanted@ == lower_of(name@),
            forall|k: int| 0 <= k < i ==> lower_of(nodes@[k].name@) != lower_of(name@),
        decreases nodes@.len() - i,
    {
        let candidate = lowercase(nodes[i].name.as_str());
        if same_text(candidate.as_str(), wanted.as_str()) {
            proof {
                assert(lower_of(nodes@[i as int].name@) == lower_of(name@));
            }
            return Some(nodes[i].id);
        }
        i = i + 1;
    }
    None
}

/// Finds the node with the given id.
pub fn find_by_id(nodes: &Vec<NamedNode>, id: u128) -> (r: Option<u128>)
    ensures
        r is None <==> forall|i: int| 0 <= i < nodes@.len() ==> nodes@[i].id != id,
        r is Some ==> r == Some(id),
{
    let mut i: usize = 0;
    while i < nodes.len()
        invariant
            i <= nodes@.len(),
            forall|k: int| 0 <= k < i ==> nodes@[k].id != id,
        decreases nodes@.len() - i,
    {
        if nodes[i].id == id {
            return Some(id);
        }
        i = i + 1;
    }
    None
}

/// Resolves a path parameter that names a zone or station, given the
/// parameter read as a UUID (or not): a UUID selects by id, and anything
/// else by case-insensitive name. `None` means not found.
pub fn resolve_parsed(nodes: &Vec<NamedNode>, id_or_name: &str, as_uuid: Option<u128>) -> (r:
    Option<u128>)
    ensures
        as_uuid matches Some(u) ==> (r is Some <==> exists|i: int|
            0 <= i < nodes@.len() && nodes@[i].id == u) && (r is Some ==> r == Some(u)),
        as_uuid is None ==> resolves_to(nodes@, id_or_name@, r),
{
    match as_uuid {
        Some(u) => find_by_id(nodes, u),
        None => find_by_name(nodes, id_or_name),
    }
}

/// Resolves a path parameter that names a zone or station: as a UUID when
/// it reads as one, otherwise by name without regard to case.
pub fn resolve_node(nodes: &Vec<NamedNode>, id_or_name: &str) -> (r: Option<u128>)
    ensures
        uuid_of(id_or_name@) matches Some(u) ==> (r is Some <==> exists|i: int|
            0 <= i < nodes@.len() && nodes@[i].id == u) && (r is Some ==> r == Some(u)),
        uuid_of(id_or_name@) is None ==> resolves_to(nodes@, id_or_name@, r),
{
    let parsed = parse_uuid(id_or_name);
    resolve_parsed(nodes, id_or_name, parsed)
}

} // verus!
