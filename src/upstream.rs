//! Requests to the upstream logger API: their URLs, and how an answer's
//! HTTP status is read.
use vstd::prelude::*;
use vstd::string::*;
use crate::errors::AppError;
use crate::text::{decimal, decimal_spec};

verus! {

/// `d1,d2,...`: the decimal ids joined by commas.
pub open spec fn joined_ids(ids: Seq<i32>) -> Seq<char>
    decreases ids.len(),
{
    if ids.len() == 0 {
        Seq::empty()
    } else if ids.len() == 1 {
        decimal_spec(ids[0] as int)
    } else {
        joined_ids(ids.drop_last()) + seq![','] + decimal_spec(ids.last() as int)
    }
}

/// The `location_ids` parameter: `[d1,d2,...]`, brackets unescaped.
pub fn id_list(ids: &Vec<i32>) -> (r: String)
    ensures
        r@ == seq!['['] + joined_ids(ids@) + seq![']'],
{
    let mut out = String::from_str("[");
    let mut i: usize = 0;
    proof {
        reveal_strlit("[");
        assert(ids@.subrange(0, 0) =~= Seq::<i32>::empty());
        assert(out@ =~= seq!['['] + joined_ids(ids@.subrange(0, 0)));
    }
    while i < ids.len()
        invariant
            i <= ids@.len(),
            out@ == seq!['['] + joined_ids(ids@.subrange(0, i as int)),
        decreases ids@.len() - i,
    {
        if i > 0 {
            out.append(",");
        }
        let d = decimal(ids[i] as i64);
        out.append(d.as_str());
        proof {
            reveal_strlit(",");
            let sub = ids@.subrange(0, i as int + 1);
            assert(sub.drop_last() =~= ids@.subrange(0, i as int));
            assert(sub.last() == ids@[i as int]);
            if i == 0 {
                assert(sub[0] == ids@[0]);
            }
            assert(out@ =~= seq!['['] + joined_ids(sub));
        }
        i = i + 1;
    }
    out.append("]");
    proof {
        reveal_strlit("[");
        reveal_strlit("]");
        assert(ids@.subrange(0, ids@.len() as int) =~= ids@);
    }
    out
}

/// The URL of the flattened location list.
pub fn locations_url(base: &str) -> (r: String)
    ensures
        r@ == base@ + "/locations?flatten=true"@,
{
    let mut u = String::from_str(base);
    u.append("/locations?flatten=true");
    u
}

/// The URL of a history request from `from` (epoch seconds), up to `to`
/// when given.
pub fn history_url(base: &str, ids: &Vec<i32>, from: i64, to: Option<i64>) -> (r: String)
    ensures
        ({
            let head = base@ + "/locations_history?location_ids="@ + seq!['['] + joined_ids(ids@)
                + seq![']'] + "&date_from="@ + decimal_spec(from as int);
            match to {
                Some(t) => r@ == head + "&date_to="@ + decimal_spec(t as int),
                None => r@ == head,
            }
        }),
{
    let mut u = String::from_str(base);
    u.append("/locations_history?location_ids=");
    u.append(id_list(ids).as_str());
    u.append("&date_from=");
    u.append(decimal(from).as_str());
    match to {
        Some(t) => {
            u.append("&date_to=");
            u.append(decimal(t).as_str());
        },
        None => {},
    }
    u
}

/// The URL of the current data (and device status) of some locations.
pub fn data_url(base: &str, ids: &Vec<i32>) -> (r: String)
    ensures
        r@ == base@ + "/locations_data?location_ids="@ + seq!['['] + joined_ids(ids@) + seq![']'],
{
    let mut u = String::from_str(base);
    u.append("/locations_data?location_ids=");
    u.append(id_list(ids).as_str());
    u
}

/// How an upstream answer's status is taken.
#[derive(PartialEq, Eq, Structural, Clone, Copy, Debug)]
pub enum StatusClass {
    /// 2xx: decode the body.
    Success,
    /// 429: transient, the caller may retry.
    RateLimited,
    /// Any other status: a permanent failure.
    Failed,
}

/// Classifies an upstream HTTP status.
pub fn classify_status(status: u16) -> (r: StatusClass)
    ensures
        status == 429 ==> r == StatusClass::RateLimited,
        200 <= status <= 299 ==> r == StatusClass::Success,
        status != 429 && !(200 <= status <= 299) ==> r == StatusClass::Failed,
{
    if status == 429 {
        StatusClass::RateLimited
    } else if 200 <= status && status <= 299 {
        StatusClass::Success
    } else {
        StatusClass::Failed
    }
}

/// The error reported for a rate-limited upstream answer.
pub fn rate_limited() -> (r: AppError)
    ensures
        r matches AppError::VaisalaApi(m) && m@ == "Rate limited (429)"@,
{
    AppError::VaisalaApi(String::from_str("Rate limited (429)"))
}

/// The error reported for a failed upstream answer: its status and body.
pub fn http_failure(status: u16, body: &str) -> (r: AppError)
    ensures
        r matches AppError::VaisalaApi(m) && m@ == "HTTP "@ + decimal_spec(status as int) + ": "@
            + body@,
{
    let mut m = String::from_str("HTTP ");
    m.append(decimal(status as i64).as_str());
    m.append(": ");
    m.append(body);
    AppError::VaisalaApi(m)
}

} // verus!
