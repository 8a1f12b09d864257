//! Envelope types of the upstream JSON:API payloads, and the client key
//! used by the rate limiter.
use vstd::prelude::*;
use crate::text::{chars_of, split_chars, split_spec, string_of, trim, trimmed_of};

verus! {

/// The `jsonapi` member of a payload.
pub struct JsonApiVersion {
    pub version: String,
}

/// One resource of a payload's `data` array.
pub struct JsonApiResource<T> {
    pub resource_type: String,
    pub id: String,
    pub attributes: T,
}

/// Picks the key that requests are rate-limited by: the first address of
/// `X-Forwarded-For`, then `X-Real-IP`, then the peer address, then the
/// loopback address shared by all unidentified clients.
#[derive(Debug, Clone, Copy, PartialEq, Eq, Structural)]
pub struct FallbackIpKeyExtractor;

impl FallbackIpKeyExtractor {
    /// Applies the fallback chain to the addresses that could be read.
    pub fn pick_key<T: Copy>(
        &self,
        forwarded: Option<T>,
        real_ip: Option<T>,
        peer: Option<T>,
        loopback: T,
    ) -> (r: T)
        ensures
            forwarded matches Some(a) ==> r == a,
            forwarded is None ==> (real_ip matches Some(a) ==> r == a),
            forwarded is None && real_ip is None ==> (peer matches Some(a) ==> r == a),
            forwarded is None && real_ip is None && peer is None ==> r == loopback,
    {
        match forwarded {
            Some(a) => a,
            None => match real_ip {
                Some(a) => a,
                None => match peer {
                    Some(a) => a,
                    None => loopback,
                },
            },
        }
    }
}

/// Relies on `uuid::Uuid::new_v4` and `Uuid::as_u128`: a fresh random
/// identifier. Nothing is promised of its value.
#[verifier::external_body]
pub(crate) fn fresh_id() -> u128 {
    uuid::Uuid::new_v4().as_u128()
}

/// The first entry of an `X-Forwarded-For` header, trimmed.
pub fn first_forwarded(header: &str) -> (r: String)
    ensures
        r@ == trimmed_of(split_spec(header@, ',')[0]),
{
    let cs = chars_of(header);
    let parts = split_chars(cs.as_slice(), ',');
    proof {
        crate::text::lemma_split_nonempty(header@, ',');
        assert(parts@.map_values(|p: Vec<char>| p@)[0] == parts@[0]@);
    }
    let first = string_of(parts[0].as_slice());
    trim(first.as_str())
}

} // verus!
