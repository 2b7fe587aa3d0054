//! Client IP resolution for rate limiting.
//!
//! In priority order: the first hop of `X-Forwarded-For` (behind a reverse
//! proxy), the address of the direct connection, and `"unknown"` (for
//! in-process clients that have neither).

use vstd::prelude::*;

use crate::utils::chars::{chars_of, string_from_chars, trim, trim_seq};
use crate::utils::profile::{find_char, first_index_of};

verus! {

/// The client IP as a string, used as a rate-limit key.
#[derive(Debug)]
pub struct ClientIp(pub String);

/// The first hop of an `X-Forwarded-For` value: the part before the first
/// comma, trimmed.
pub open spec fn first_hop(xff: Seq<char>) -> Seq<char> {
    trim_seq(xff.subrange(0, first_index_of(xff, ',')))
}

/// The IP that `resolve_ip` picks.
pub open spec fn resolved_ip(xff: Option<Seq<char>>, connect_ip: Option<Seq<char>>) -> Seq<char> {
    if xff is Some && first_hop(xff.unwrap()).len() > 0 {
        first_hop(xff.unwrap())
    } else if connect_ip is Some {
        connect_ip.unwrap()
    } else {
        "unknown"@
    }
}

/// Resolve the client IP from the `X-Forwarded-For` value (when present and
/// readable as text) or the connection's IP address.
pub fn resolve_ip(xff: Option<&str>, connect_ip: Option<String>) -> (r: String)
    ensures
        r@ == resolved_ip(
            match xff {
                Some(s) => Some(s@),
                None => None,
            },
            match connect_ip {
                Some(s) => Some(s@),
                None => None,
            },
        ),
{
    if let Some(x) = xff {
        let v = chars_of(x);
        let comma = find_char(&v, ',');
        let hop = string_from_chars(&v, 0, comma);
        let first = trim(hop.as_str());
        if !first.as_str().is_empty() {
            return first;
        }
    }
    match connect_ip {
        Some(ip) => ip,
        None => String::from_str("unknown"),
    }
}

} // verus!
