//! Plain-value model of IP addresses and the public-address predicate of
//! the egress filter.
//!
//! Addresses reach the library as four octets or eight groups, handed in by
//! the caller that performed address parsing or DNS resolution.  A request
//! may only go out when every address its host stands for is public.

use vstd::prelude::*;
use crate::text::{dec_str_of, hex_digit_char, u64_to_dec_string, push_char};

verus! {

/// An IPv4 address as its four dotted-quad octets.
#[derive(Clone, Copy, Debug, PartialEq, Eq, Structural)]
pub struct Ipv4Address {
    pub a: u8,
    pub b: u8,
    pub c: u8,
    pub d: u8,
}

/// An IPv6 address as its eight 16-bit groups, most significant first.
#[derive(Clone, Copy, Debug, PartialEq, Eq, Structural)]
pub struct Ipv6Address {
    pub g0: u16,
    pub g1: u16,
    pub g2: u16,
    pub g3: u16,
    pub g4: u16,
    pub g5: u16,
    pub g6: u16,
    pub g7: u16,
}

/// Either kind of address.
#[derive(Clone, Copy, Debug, PartialEq, Eq, Structural)]
pub enum IpAddress {
    V4(Ipv4Address),
    V6(Ipv6Address),
}

// ---------------------------------------------------------------------------
// The public-address predicate.
// ---------------------------------------------------------------------------

/// An IPv4 address that must not be dialled from the daemon: private
/// (RFC 1918), loopback, link-local, multicast, broadcast, unspecified, or
/// carrier-grade NAT space (100.64.0.0/10).
pub open spec fn spec_nonpublic_v4(ip: Ipv4Address) -> bool {
    ||| ip.a == 10
    ||| ip.a == 172 && 16 <= ip.b && ip.b <= 31
    ||| ip.a == 192 && ip.b == 168
    ||| ip.a == 127
    ||| ip.a == 169 && ip.b == 254
    ||| 224 <= ip.a && ip.a <= 239
    ||| ip.a == 255 && ip.b == 255 && ip.c == 255 && ip.d == 255
    ||| ip.a == 0 && ip.b == 0 && ip.c == 0 && ip.d == 0
    ||| ip.a == 100 && 64 <= ip.b && ip.b <= 127
}

pub open spec fn spec_public_v4(ip: Ipv4Address) -> bool {
    !spec_nonpublic_v4(ip)
}

/// An IPv6 address that must not be dialled: loopback, unspecified,
/// multicast (ff00::/8), unique-local (fc00::/7), or link-local unicast
/// (fe80::/10).
pub open spec fn spec_nonpublic_v6(ip: Ipv6Address) -> bool {
    ||| ip.g0 == 0 && ip.g1 == 0 && ip.g2 == 0 && ip.g3 == 0 && ip.g4 == 0 && ip.g5 == 0
        && ip.g6 == 0 && (ip.g7 == 0 || ip.g7 == 1)
    ||| ip.g0 & 0xff00 == 0xff00
    ||| ip.g0 & 0xfe00 == 0xfc00
    ||| ip.g0 & 0xffc0 == 0xfe80
}

pub open spec fn spec_public_v6(ip: Ipv6Address) -> bool {
    !spec_nonpublic_v6(ip)
}

pub open spec fn spec_public_ip(ip: IpAddress) -> bool {
    match ip {
        IpAddress::V4(v4) => spec_public_v4(v4),
        IpAddress::V6(v6) => spec_public_v6(v6),
    }
}

/// Decides whether an IPv4 address is public.
pub fn is_public_ipv4(ip: Ipv4Address) -> (r: bool)
    ensures
        r == spec_public_v4(ip),
{
    let private = ip.a == 10 || (ip.a == 172 && 16 <= ip.b && ip.b <= 31) || (ip.a == 192 && ip.b
        == 168);
    let loopback = ip.a == 127;
    let link_local = ip.a == 169 && ip.b == 254;
    let multicast = 224 <= ip.a && ip.a <= 239;
    let broadcast = ip.a == 255 && ip.b == 255 && ip.c == 255 && ip.d == 255;
    let unspecified = ip.a == 0 && ip.b == 0 && ip.c == 0 && ip.d == 0;
    let cgnat = ip.a == 100 && (ip.b & 0xc0) == 0x40;
    proof {
        let b = ip.b;
        assert((b & 0xc0 == 0x40) == (64 <= b && b <= 127)) by (bit_vector);
    }
    !(private || loopback || link_local || multicast || broadcast || unspecified || cgnat)
}

/// Decides whether an IPv6 address is public.
pub fn is_public_ipv6(ip: Ipv6Address) -> (r: bool)
    ensures
        r == spec_public_v6(ip),
{
    let head_zero = ip.g0 == 0 && ip.g1 == 0 && ip.g2 == 0 && ip.g3 == 0 && ip.g4 == 0 && ip.g5
        == 0 && ip.g6 == 0;
    let loopback = head_zero && ip.g7 == 1;
    let unspecified = head_zero && ip.g7 == 0;
    let multicast = ip.g0 & 0xff00 == 0xff00;
    let unique_local = ip.g0 & 0xfe00 == 0xfc00;
    let link_local = ip.g0 & 0xffc0 == 0xfe80;
    !(loopback || unspecified || multicast || unique_local || link_local)
}

/// Decides whether an address of either kind is public.
pub fn is_public_ip(ip: IpAddress) -> (r: bool)
    ensures
        r == spec_public_ip(ip),
{
    match ip {
        IpAddress::V4(v4) => is_public_ipv4(v4),
        IpAddress::V6(v6) => is_public_ipv6(v6),
    }
}

// ---------------------------------------------------------------------------
// Rendering, for the message that names a blocked address.
// ---------------------------------------------------------------------------

/// Dotted-quad decimal rendering of an IPv4 address.
pub open spec fn ipv4_str_of(ip: Ipv4Address) -> Seq<char> {
    dec_str_of(ip.a as nat) + seq!['.'] + dec_str_of(ip.b as nat) + seq!['.'] + dec_str_of(
        ip.c as nat,
    ) + seq!['.'] + dec_str_of(ip.d as nat)
}

/// Renders an IPv4 address as `a.b.c.d`.
pub fn ipv4_to_string(ip: Ipv4Address) -> (r: String)
    ensures
        r@ == ipv4_str_of(ip),
{
    let mut s = u64_to_dec_string(ip.a as u64);
    push_char(&mut s, '.');
    let sb = u64_to_dec_string(ip.b as u64);
    s.append(sb.as_str());
    push_char(&mut s, '.');
    let sc = u64_to_dec_string(ip.c as u64);
    s.append(sc.as_str());
    push_char(&mut s, '.');
    let sd = u64_to_dec_string(ip.d as u64);
    s.append(sd.as_str());
    proof {
        assert(s@ =~= ipv4_str_of(ip));
    }
    s
}

/// Lowercase hex rendering of one group, without leading zeros.
pub open spec fn hex16_str_of(n: nat) -> Seq<char>
    decreases n,
{
    if n < 16 {
        seq![hex_digit_char(n)]
    } else {
        hex16_str_of(n / 16).push(hex_digit_char(n % 16))
    }
}

/// Renders one 16-bit group in lowercase hex.
fn group_to_string(n: u16) -> (r: String)
    ensures
        r@ == hex16_str_of(n as nat),
    decreases n,
{
    let d: u16 = n % 16;
    let c: char = match d {
        0 => '0',
        1 => '1',
        2 => '2',
        3 => '3',
        4 => '4',
        5 => '5',
        6 => '6',
        7 => '7',
        8 => '8',
        9 => '9',
        10 => 'a',
        11 => 'b',
        12 => 'c',
        13 => 'd',
        14 => 'e',
        _ => 'f',
    };
    if n < 16 {
        let mut s = String::new();
        push_char(&mut s, c);
        proof {
            assert(s@ =~= seq![hex_digit_char(n as nat)]);
        }
        s
    } else {
        let mut s = group_to_string(n / 16);
        push_char(&mut s, c);
        s
    }
}

/// Colon-separated full rendering of an IPv6 address, groups in lowercase
/// hex without leading zeros and without `::` compression.
pub open spec fn ipv6_str_of(ip: Ipv6Address) -> Seq<char> {
    hex16_str_of(ip.g0 as nat) + seq![':'] + hex16_str_of(ip.g1 as nat) + seq![':']
        + hex16_str_of(ip.g2 as nat) + seq![':'] + hex16_str_of(ip.g3 as nat) + seq![':']
        + hex16_str_of(ip.g4 as nat) + seq![':'] + hex16_str_of(ip.g5 as nat) + seq![':']
        + hex16_str_of(ip.g6 as nat) + seq![':'] + hex16_str_of(ip.g7 as nat)
}

/// Renders an IPv6 address group by group.
pub fn ipv6_to_string(ip: Ipv6Address) -> (r: String)
    ensures
        r@ == ipv6_str_of(ip),
{
    let mut s = group_to_string(ip.g0);
    push_char(&mut s, ':');
    let g = group_to_string(ip.g1);
    s.append(g.as_str());
    push_char(&mut s, ':');
    let g = group_to_string(ip.g2);
    s.append(g.as_str());
    push_char(&mut s, ':');
    let g = group_to_string(ip.g3);
    s.append(g.as_str());
    push_char(&mut s, ':');
    let g = group_to_string(ip.g4);
    s.append(g.as_str());
    push_char(&mut s, ':');
    let g = group_to_string(ip.g5);
    s.append(g.as_str());
    push_char(&mut s, ':');
    let g = group_to_string(ip.g6);
    s.append(g.as_str());
    push_char(&mut s, ':');
    let g = group_to_string(ip.g7);
    s.append(g.as_str());
    proof {
        assert(s@ =~= ipv6_str_of(ip));
    }
    s
}

/// Renders an address of either kind.
pub fn ip_to_string(ip: IpAddress) -> (r: String)
    ensures
        r@ == match ip {
            IpAddress::V4(v4) => ipv4_str_of(v4),
            IpAddress::V6(v6) => ipv6_str_of(v6),
        },
{
    match ip {
        IpAddress::V4(v4) => ipv4_to_string(v4),
        IpAddress::V6(v6) => ipv6_to_string(v6),
    }
}

} // verus!
