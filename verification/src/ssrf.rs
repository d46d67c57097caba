//! Egress filtering: the URL scheme allowlist, the host allowlist, and the
//! check that every address a host resolves to is public.

use vstd::prelude::*;
use crate::ipaddr::{IpAddress, Ipv4Address, Ipv6Address, ipv4_str_of, ipv6_str_of, is_public_ip,
    ip_to_string, spec_public_ip};
use crate::text::{is_suffix_of, lower_of, lowercase, push_char, str_ends_with, str_eq, strip_dots,
    strip_trailing_dots};

verus! {

// ---------------------------------------------------------------------------
// Scheme allowlist.
// ---------------------------------------------------------------------------

pub open spec fn spec_scheme_allowed(s: Seq<char>) -> bool {
    s == "http"@ || s == "https"@
}

/// Only plain `http` and `https` may leave the daemon.
pub fn is_scheme_allowed(scheme: &str) -> (r: bool)
    ensures
        r == spec_scheme_allowed(scheme@),
{
    str_eq(scheme, "http") || str_eq(scheme, "https")
}

// ---------------------------------------------------------------------------
// Host allowlist.
// ---------------------------------------------------------------------------

/// A host name normalized for comparison: trailing dots stripped, then
/// lowercased.
pub open spec fn normalized_host(s: Seq<char>) -> Seq<char> {
    lower_of(strip_trailing_dots(s))
}

/// After normalization on both sides, the host either equals the allowlist
/// entry or is a proper subdomain of it (ends with `"." + entry`).
pub open spec fn host_matches_entry(host: Seq<char>, entry: Seq<char>) -> bool {
    normalized_host(host) == normalized_host(entry) || is_suffix_of(
        seq!['.'] + normalized_host(entry),
        normalized_host(host),
    )
}

/// The host matches some entry of the allowlist; an empty allowlist admits
/// no host.
pub open spec fn spec_host_allowed(host: Seq<char>, allowlist: Seq<String>) -> bool {
    exists|i: int| 0 <= i < allowlist.len() && host_matches_entry(host, allowlist[i]@)
}

/// Decides membership of a host in the domain allowlist, comparing each
/// entry case-insensitively after stripping trailing dots from both sides.
pub fn is_host_allowed(host: &str, allowlist: &[String]) -> (r: bool)
    ensures
        r == spec_host_allowed(host@, allowlist@),
{
    if allowlist.len() == 0 {
        return false;
    }
    let stripped = strip_dots(host);
    let hn = lowercase(stripped.as_str());
    let mut i: usize = 0;
    while i < allowlist.len()
        invariant
            i <= allowlist@.len(),
            hn@ == normalized_host(host@),
            forall|j: int| 0 <= j < i ==> !host_matches_entry(host@, allowlist@[j]@),
        decreases allowlist@.len() - i,
    {
        let entry = &allowlist[i];
        let estripped = strip_dots(entry.as_str());
        let en = lowercase(estripped.as_str());
        let mut dotted = String::new();
        push_char(&mut dotted, '.');
        dotted.append(en.as_str());
        proof {
            assert(dotted@ =~= seq!['.'] + normalized_host(allowlist@[i as int]@));
        }
        if str_eq(hn.as_str(), en.as_str()) || str_ends_with(hn.as_str(), dotted.as_str()) {
            return true;
        }
        i = i + 1;
    }
    false
}

/// With a single-entry allowlist, membership is exactly the one-entry match:
/// the normalized host equals the normalized entry or ends with `"."` and
/// the normalized entry.
pub proof fn lemma_host_allowed_singleton(host: Seq<char>, entry: String)
    ensures
        spec_host_allowed(host, seq![entry]) == host_matches_entry(host, entry@),
{
    if host_matches_entry(host, entry@) {
        assert(seq![entry][0] == entry);
        assert(spec_host_allowed(host, seq![entry]));
    }
}

// ---------------------------------------------------------------------------
// Resolved-address check.
// ---------------------------------------------------------------------------

/// The rendering of an address, by kind.
pub open spec fn ip_str_of(ip: IpAddress) -> Seq<char> {
    match ip {
        IpAddress::V4(v4) => ipv4_str_of(v4),
        IpAddress::V6(v6) => ipv6_str_of(v6),
    }
}

/// The message that names a blocked address.
pub open spec fn blocked_ip_message(ip: IpAddress) -> Seq<char> {
    "blocked ip "@ + ip_str_of(ip)
}

/// Every address is public.
pub open spec fn spec_all_public(addrs: Seq<IpAddress>) -> bool {
    forall|i: int| 0 <= i < addrs.len() ==> spec_public_ip(addrs[i])
}

/// Checks every resolved address of a host and reports the first one that
/// is not public.  A request may proceed only when the whole set is public,
/// which guards against DNS answers that point into internal networks.
pub fn ensure_addresses_public(addrs: &Vec<IpAddress>) -> (r: Result<(), String>)
    ensures
        r is Ok <==> spec_all_public(addrs@),
        match r {
            Ok(()) => true,
            Err(m) => exists|k: int|
                0 <= k < addrs@.len() && !spec_public_ip(addrs@[k]) && m@ == blocked_ip_message(
                    addrs@[k],
                ) && forall|j: int| 0 <= j < k ==> spec_public_ip(addrs@[j]),
        },
{
    let mut i: usize = 0;
    while i < addrs.len()
        invariant
            i <= addrs@.len(),
            forall|j: int| 0 <= j < i ==> spec_public_ip(addrs@[j]),
        decreases addrs@.len() - i,
    {
        let ip = addrs[i];
        if !is_public_ip(ip) {
            let mut m = String::new();
            m.append("blocked ip ");
            let rendered = ip_to_string(ip);
            m.append(rendered.as_str());
            proof {
                assert(m@ =~= blocked_ip_message(addrs@[i as int]));
            }
            return Err(m);
        }
        i = i + 1;
    }
    Ok(())
}

} // verus!
