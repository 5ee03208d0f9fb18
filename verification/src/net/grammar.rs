//! The text forms of addresses, as functions on byte sequences.
//!
//! Every reader takes the whole text and a position, and gives the value
//! read together with the position behind it, or `None` when no value
//! starts at that position. A reader that fails consumes nothing.

use vstd::prelude::*;
use super::addr::{IpAddr, Ipv4Addr, Ipv6Addr, SocketAddr};

verus! {

pub const DOT: u8 = 46;

pub const COLON: u8 = 58;

pub const PERCENT: u8 = 37;

pub const OPEN_BRACKET: u8 = 91;

pub const CLOSE_BRACKET: u8 = 93;

pub const ZERO: u8 = 48;

/// Whether `b` is a digit: `0` to `9`, and with `hex` also `a` to `f` in
/// either case.
pub open spec fn is_digit(b: u8, hex: bool) -> bool {
    (48 <= b <= 57) || (hex && ((97 <= b <= 102) || (65 <= b <= 70)))
}

/// The number that a digit stands for.
pub open spec fn digit_value(b: u8) -> nat {
    if 48 <= b <= 57 {
        (b - 48) as nat
    } else if 97 <= b <= 102 {
        (b - 87) as nat
    } else {
        (b - 55) as nat
    }
}

/// Whether the text holds the byte `b` at position `i`.
pub open spec fn has_byte(s: Seq<u8>, i: int, b: u8) -> bool {
    0 <= i < s.len() && s[i] == b
}

/// The position behind the longest run of digits that starts at `i`.
pub open spec fn run_end(s: Seq<u8>, i: int, hex: bool) -> int
    decreases s.len() - i,
{
    if 0 <= i < s.len() && is_digit(s[i], hex) {
        run_end(s, i + 1, hex)
    } else {
        i
    }
}

/// The number written by the digits from `i` up to `j`, most significant
/// first.
pub open spec fn run_value(s: Seq<u8>, i: int, j: int, hex: bool) -> nat
    decreases j - i,
{
    if j <= i {
        0
    } else if hex {
        16 * run_value(s, i, j - 1, hex) + digit_value(s[j - 1])
    } else {
        10 * run_value(s, i, j - 1, hex) + digit_value(s[j - 1])
    }
}

/// A number: the longest run of digits at `i`. It must hold one digit at
/// least and `max_digits` at most, must not start with a zero that another
/// digit follows unless `zero_prefix` allows it, and must not exceed `max`.
pub open spec fn read_number(
    s: Seq<u8>,
    i: int,
    hex: bool,
    max_digits: Option<int>,
    zero_prefix: bool,
    max: nat,
) -> Option<(nat, int)> {
    let end = run_end(s, i, hex);
    let value = run_value(s, i, end, hex);
    if end <= i {
        None
    } else if max_digits is Some && end - i > max_digits->0 {
        None
    } else if !zero_prefix && end - i > 1 && s[i] == ZERO {
        None
    } else if value > max {
        None
    } else {
        Some((value, end))
    }
}

/// One octet of an IPv4 address: up to three decimal digits, no
/// superfluous leading zero, at most 255.
pub open spec fn read_octet(s: Seq<u8>, i: int) -> Option<(nat, int)> {
    read_number(s, i, false, Some(3int), false, 255)
}

/// A dot and the octet behind it.
pub open spec fn read_dot_octet(s: Seq<u8>, i: int) -> Option<(nat, int)> {
    if has_byte(s, i, DOT) {
        read_octet(s, i + 1)
    } else {
        None
    }
}

/// An IPv4 address: four octets with dots between them.
pub open spec fn read_ipv4(s: Seq<u8>, i: int) -> Option<(Ipv4Addr, int)> {
    match read_octet(s, i) {
        None => None,
        Some((a, i1)) => match read_dot_octet(s, i1) {
            None => None,
            Some((b, i2)) => match read_dot_octet(s, i2) {
                None => None,
                Some((c, i3)) => match read_dot_octet(s, i3) {
                    None => None,
                    Some((d, i4)) => Some(
                        (Ipv4Addr::spec_new(a as u8, b as u8, c as u8, d as u8), i4),
                    ),
                },
            },
        },
    }
}

/// One segment of an IPv6 address: one to four hexadecimal digits.
pub open spec fn read_segment(s: Seq<u8>, i: int) -> Option<(nat, int)> {
    read_number(s, i, true, Some(4int), true, 0xffff)
}

/// What a run of IPv6 segments gave: the segments, the position behind
/// them, and whether the last two came from an embedded IPv4 address.
pub struct Groups {
    pub segments: Seq<u16>,
    pub end: int,
    pub embedded: bool,
}

/// The two segments that an embedded IPv4 address fills.
pub open spec fn embedded_segments(ip: Ipv4Addr) -> Seq<u16> {
    seq![
        (ip.octets[0] as int * 256 + ip.octets[1] as int) as u16,
        (ip.octets[2] as int * 256 + ip.octets[3] as int) as u16,
    ]
}

/// Up to `room` segments with colons between them. With `first` the run
/// starts with a segment, else with a colon. Where two segments of room
/// are left, an IPv4 address in dotted form may stand and ends the run.
/// The run ends before the first colon that no segment follows.
pub open spec fn read_groups(s: Seq<u8>, i: int, room: nat, first: bool) -> Groups
    decreases room,
{
    let nothing = Groups { segments: Seq::empty(), end: i, embedded: false };
    if room == 0 {
        nothing
    } else if !first && !has_byte(s, i, COLON) {
        nothing
    } else {
        let start = if first {
            i
        } else {
            i + 1
        };
        let v4 = if room >= 2 {
            read_ipv4(s, start)
        } else {
            None
        };
        match v4 {
            Some((ip, end)) => Groups { segments: embedded_segments(ip), end, embedded: true },
            None => match read_segment(s, start) {
                None => nothing,
                Some((g, next)) => {
                    let rest = read_groups(s, next, (room - 1) as nat, false);
                    Groups {
                        segments: seq![g as u16] + rest.segments,
                        end: rest.end,
                        embedded: rest.embedded,
                    }
                },
            },
        }
    }
}

/// `n` zero segments.
pub open spec fn zero_segments(n: int) -> Seq<u16> {
    Seq::new(n as nat, |k: int| 0u16)
}

/// An IPv6 address: eight segments, or fewer with one `::` that stands
/// for the zero segments left out, at least one of them. An embedded IPv4
/// address may only fill the last two segments.
pub open spec fn read_ipv6(s: Seq<u8>, i: int) -> Option<(Ipv6Addr, int)> {
    let head = read_groups(s, i, 8, true);
    if head.segments.len() == 8 {
        Some((Ipv6Addr::from_seq(head.segments), head.end))
    } else if head.embedded {
        None
    } else if !(has_byte(s, head.end, COLON) && has_byte(s, head.end + 1, COLON)) {
        None
    } else {
        let tail = read_groups(s, head.end + 2, (7 - head.segments.len()) as nat, true);
        let gap = 8 - head.segments.len() - tail.segments.len();
        Some((Ipv6Addr::from_seq(head.segments + zero_segments(gap) + tail.segments), tail.end))
    }
}

/// A colon and a port: decimal digits, any number of leading zeros, at
/// most 65535.
pub open spec fn read_port(s: Seq<u8>, i: int) -> Option<(nat, int)> {
    if has_byte(s, i, COLON) {
        read_number(s, i + 1, false, None, true, 0xffff)
    } else {
        None
    }
}

/// A percent sign and a scope: decimal digits, at most 4294967295.
pub open spec fn read_scope_id(s: Seq<u8>, i: int) -> Option<(nat, int)> {
    if has_byte(s, i, PERCENT) {
        read_number(s, i + 1, false, None, true, 0xffff_ffff)
    } else {
        None
    }
}

/// An IPv4 address and a port.
pub open spec fn read_socket_addr_v4(s: Seq<u8>, i: int) -> Option<(SocketAddr, int)> {
    match read_ipv4(s, i) {
        None => None,
        Some((ip, i1)) => match read_port(s, i1) {
            None => None,
            Some((port, i2)) => Some((SocketAddr::V4 { ip, port: port as u16 }, i2)),
        },
    }
}

/// An IPv6 address in square brackets, with an optional scope inside
/// them, and a port.
pub open spec fn read_socket_addr_v6(s: Seq<u8>, i: int) -> Option<(SocketAddr, int)> {
    if !has_byte(s, i, OPEN_BRACKET) {
        None
    } else {
        match read_ipv6(s, i + 1) {
            None => None,
            Some((ip, i1)) => {
                let (scope_id, i2) = match read_scope_id(s, i1) {
                    Some((id, end)) => (id, end),
                    None => (0nat, i1),
                };
                if !has_byte(s, i2, CLOSE_BRACKET) {
                    None
                } else {
                    match read_port(s, i2 + 1) {
                        None => None,
                        Some((port, i3)) => Some(
                            (SocketAddr::V6 { ip, port: port as u16, scope_id: scope_id as u32 }, i3),
                        ),
                    }
                }
            },
        }
    }
}

/// The value of a reader that has to use up the whole text.
pub open spec fn all_of<T>(s: Seq<u8>, r: Option<(T, int)>) -> Option<T> {
    match r {
        Some((v, end)) => if end == s.len() {
            Some(v)
        } else {
            None
        },
        None => None,
    }
}

/// The address that the whole text denotes, if any: an IPv4 address,
/// or else an IPv6 address without brackets.
#[verifier::opaque]
pub open spec fn parse_ip_addr(s: Seq<u8>) -> Option<IpAddr> {
    match read_ipv4(s, 0) {
        Some((ip, end)) => all_of(s, Some((IpAddr::V4(ip), end))),
        None => match read_ipv6(s, 0) {
            Some((ip, end)) => all_of(s, Some((IpAddr::V6(ip), end))),
            None => None,
        },
    }
}

/// The socket address that the whole text denotes, if any: `a.b.c.d:port`,
/// or else `[ipv6]:port` or `[ipv6%scope]:port`.
#[verifier::opaque]
pub open spec fn parse_socket_addr(s: Seq<u8>) -> Option<SocketAddr> {
    match read_socket_addr_v4(s, 0) {
        Some(r) => all_of(s, Some(r)),
        None => all_of(s, read_socket_addr_v6(s, 0)),
    }
}

} // verus!
