//! The upstream event log: where a pass starts, when paging stops, and how
//! an event is tied to a sensor and station.
use vstd::prelude::*;
use vstd::string::*;
use crate::alarms::{find_sensor, lookup, SensorLink};
use crate::text::{decimal, decimal_spec};

verus! {

/// Events requested per page.
pub const EVENTS_PAGE_SIZE: i32 = 1000;

/// The start marker of an events pass: the epoch (in decimal) of the latest
/// stored event, or `7d` when none is stored.
pub fn events_from(latest: Option<i64>) -> (r: String)
    ensures
        latest matches Some(t) ==> r@ == decimal_spec(t as int),
        latest is None ==> r@ == "7d"@,
{
    match latest {
        Some(t) => decimal(t),
        None => String::from_str("7d"),
    }
}

/// Paging of an events pass stops once the pages so far reach the reported
/// total, or on a short (or empty) page.
pub open spec fn fetch_more_spec(page: int, page_size: int, total: int, got: int) -> bool {
    got > 0 && page * page_size < total && got >= page_size
}

/// Whether to ask for the page after page `page` (counted from 1), given
/// how many events that page held and the reported total.
pub fn fetch_more(page: i32, page_size: i32, total: i32, got: usize) -> (r: bool)
    ensures
        r == fetch_more_spec(page as int, page_size as int, total as int, got as int),
{
    if got == 0 {
        return false;
    }
    proof {
        assert(-0x8000_0000 * 0x8000_0000 <= page * page_size <= 0x8000_0000 * 0x8000_0000)
            by (nonlinear_arith)
            requires
                -0x8000_0000 <= page < 0x8000_0000,
                -0x8000_0000 <= page_size < 0x8000_0000,
        ;
    }
    let fetched: i64 = (page as i64) * (page_size as i64);
    if fetched >= total as i64 {
        return false;
    }
    if page_size >= 0 && got < page_size as usize {
        return false;
    }
    true
}

/// A location id as the upstream writes it: a number, or a text such as
/// `N/A` that stands for none.
pub enum LocationIdValue {
    Int(i32),
    String(String),
}

impl LocationIdValue {
    /// The numeric id, if there is one.
    pub fn as_int(&self) -> (r: Option<i32>)
        ensures
            *self matches LocationIdValue::Int(i) ==> r == Some(i),
            *self is String ==> r is None,
    {
        match self {
            LocationIdValue::Int(i) => Some(*i),
            LocationIdValue::String(_) => None,
        }
    }
}

/// The sensor and station an event belongs to: those of the known sensor
/// with the event's numeric location id, if any.
pub fn event_links(location_id: &Option<LocationIdValue>, sensors: &Vec<SensorLink>) -> (r: (
    Option<u128>,
    Option<u128>,
))
    ensures
        ({
            let loc: Option<i32> = match *location_id {
                Some(LocationIdValue::Int(i)) => Some(i),
                _ => None,
            };
            match loc {
                Some(i) => match lookup(sensors@, i) {
                    Some(l) => r == (Some(l.sensor_id), Some(l.station_id)),
                    None => r == (None::<u128>, None::<u128>),
                },
                None => r == (None::<u128>, None::<u128>),
            }
        }),
{
    let loc = match location_id {
        Some(v) => v.as_int(),
        None => None,
    };
    match loc {
        Some(i) => match find_sensor(sensors, i) {
            Some(l) => (Some(l.sensor_id), Some(l.station_id)),
            None => (None, None),
        },
        None => (None, None),
    }
}

/// Upstream page metadata.
#[derive(Clone, Copy, Debug)]
pub struct PaginationMeta {
    pub total_record_count: i32,
    pub page_record_count: i32,
    pub page_size: i32,
    pub page_number: i32,
}

impl PaginationMeta {
    /// The reported total, zero when no metadata came.
    pub fn total_of(meta: &Option<PaginationMeta>) -> (r: i32)
        ensures
            meta matches Some(m) ==> r == m.total_record_count,
            meta is None ==> r == 0,
    {
        match meta {
            Some(m) => m.total_record_count,
            None => 0,
        }
    }
}

} // verus!
