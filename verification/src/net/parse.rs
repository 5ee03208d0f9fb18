//! Readers for the text forms of addresses. Each computes what the
//! function of the same name in the grammar defines.

use vstd::prelude::*;
use vstd::string::*;
use super::addr::{IpAddr, Ipv4Addr, Ipv6Addr, SocketAddr};
use super::grammar;
use super::grammar::{CLOSE_BRACKET, COLON, DOT, OPEN_BRACKET, PERCENT, ZERO};

verus! {

/// An executable reader's result as the grammar writes it.
pub open spec fn at<T>(r: Option<(T, usize)>) -> Option<(T, int)> {
    match r {
        Some((v, end)) => Some((v, end as int)),
        None => None,
    }
}

/// The result of an executable reader of numbers as the grammar writes
/// it.
pub open spec fn number_at(r: Option<(u32, usize)>) -> Option<(nat, int)> {
    match r {
        Some((v, end)) => Some((v as nat, end as int)),
        None => None,
    }
}

fn has_byte(s: &[u8], i: usize, b: u8) -> (r: bool)
    ensures
        r == grammar::has_byte(s@, i as int, b),
        r ==> i < usize::MAX,
{
    i < s.len() && s[i] == b
}

fn is_digit(b: u8, hex: bool) -> (r: bool)
    ensures
        r == grammar::is_digit(b, hex),
{
    (48 <= b && b <= 57) || (hex && ((97 <= b && b <= 102) || (65 <= b && b <= 70)))
}

fn digit_value(b: u8) -> (r: u64)
    requires
        grammar::is_digit(b, true),
    ensures
        r == grammar::digit_value(b),
        r < 16,
        grammar::is_digit(b, false) ==> r < 10,
{
    if 48 <= b && b <= 57 {
        (b - 48) as u64
    } else if 97 <= b && b <= 102 {
        (b - 87) as u64
    } else {
        (b - 55) as u64
    }
}

/// A run of digits ends at the first position that holds none.
pub proof fn lemma_run_end(s: Seq<u8>, i: int, j: int, hex: bool)
    requires
        0 <= i <= j <= s.len(),
        forall|k: int| i <= k < j ==> grammar::is_digit(#[trigger] s[k], hex),
        j == s.len() || !grammar::is_digit(s[j], hex),
    ensures
        grammar::run_end(s, i, hex) == j,
    decreases j - i,
{
    if i < j {
        lemma_run_end(s, i + 1, j, hex);
    }
}

/// Reads a number at position `i`.
pub fn read_number(
    s: &[u8],
    i: usize,
    hex: bool,
    max_digits: Option<usize>,
    zero_prefix: bool,
    max: u32,
) -> (r: Option<(u32, usize)>)
    ensures
        number_at(r) == grammar::read_number(
            s@,
            i as int,
            hex,
            match max_digits {
                Some(m) => Some(m as int),
                None => None,
            },
            zero_prefix,
            max as nat,
        ),
        r matches Some((v, end)) ==> i < end <= s.len() && v <= max,
{
    let mut j: usize = i;
    let mut value: u64 = 0;
    let mut over: bool = false;
    while j < s.len() && is_digit(s[j], hex)
        invariant
            i <= j,
            i == j || j <= s.len(),
            forall|k: int| i <= k < j ==> grammar::is_digit(#[trigger] s@[k], hex),
            !over ==> value == grammar::run_value(s@, i as int, j as int, hex) && value <= max,
            over ==> grammar::run_value(s@, i as int, j as int, hex) > max,
        decreases s.len() - j,
    {
        if !over {
            let d: u64 = digit_value(s[j]);
            value = if hex {
                16 * value + d
            } else {
                10 * value + d
            };
            if value > max as u64 {
                over = true;
            }
        }
        j += 1;
    }
    proof {
        if j <= s.len() {
            lemma_run_end(s@, i as int, j as int, hex);
        }
    }
    if j == i {
        return None;
    }
    if let Some(m) = max_digits {
        if j - i > m {
            return None;
        }
    }
    if !zero_prefix && j - i > 1 && s[i] == ZERO {
        return None;
    }
    if over {
        return None;
    }
    Some((value as u32, j))
}

fn read_octet(s: &[u8], i: usize) -> (r: Option<(u8, usize)>)
    ensures
        match r {
            Some((v, end)) => grammar::read_octet(s@, i as int) == Some((v as nat, end as int)),
            None => grammar::read_octet(s@, i as int) is None,
        },
{
    match read_number(s, i, false, Some(3), false, 255) {
        Some((v, end)) => Some((v as u8, end)),
        None => None,
    }
}

fn read_dot_octet(s: &[u8], i: usize) -> (r: Option<(u8, usize)>)
    ensures
        match r {
            Some((v, end)) => grammar::read_dot_octet(s@, i as int) == Some(
                (v as nat, end as int),
            ),
            None => grammar::read_dot_octet(s@, i as int) is None,
        },
{
    if has_byte(s, i, DOT) {
        read_octet(s, i + 1)
    } else {
        None
    }
}

/// Reads an IPv4 address at position `i`.
pub fn read_ipv4(s: &[u8], i: usize) -> (r: Option<(Ipv4Addr, usize)>)
    ensures
        at(r) == grammar::read_ipv4(s@, i as int),
{
    let (a, i1) = match read_octet(s, i) {
        Some(x) => x,
        None => { return None; },
    };
    let (b, i2) = match read_dot_octet(s, i1) {
        Some(x) => x,
        None => { return None; },
    };
    let (c, i3) = match read_dot_octet(s, i2) {
        Some(x) => x,
        None => { return None; },
    };
    let (d, i4) = match read_dot_octet(s, i3) {
        Some(x) => x,
        None => { return None; },
    };
    Some((Ipv4Addr::new(a, b, c, d), i4))
}

fn read_segment(s: &[u8], i: usize) -> (r: Option<(u16, usize)>)
    ensures
        match r {
            Some((v, end)) => grammar::read_segment(s@, i as int) == Some((v as nat, end as int)),
            None => grammar::read_segment(s@, i as int) is None,
        },
{
    match read_number(s, i, true, Some(4), true, 0xffff) {
        Some((v, end)) => Some((v as u16, end)),
        None => None,
    }
}

fn embedded_segments(ip: &Ipv4Addr) -> (r: Vec<u16>)
    ensures
        r@ == grammar::embedded_segments(*ip),
{
    let hi: u16 = (ip.octets[0] as u16) * 256 + ip.octets[1] as u16;
    let lo: u16 = (ip.octets[2] as u16) * 256 + ip.octets[3] as u16;
    let mut r: Vec<u16> = Vec::new();
    r.push(hi);
    r.push(lo);
    assert(r@ =~= grammar::embedded_segments(*ip));
    r
}

/// A run of segments is never longer than the room it was given.
pub proof fn lemma_groups_fit(s: Seq<u8>, i: int, room: nat, first: bool)
    ensures
        grammar::read_groups(s, i, room, first).segments.len() <= room,
    decreases room,
{
    if room == 0 || (!first && !grammar::has_byte(s, i, COLON)) {
    } else {
        let start = if first {
            i
        } else {
            i + 1
        };
        if room >= 2 && grammar::read_ipv4(s, start) is Some {
        } else {
            match grammar::read_segment(s, start) {
                None => {},
                Some((g, next)) => {
                    lemma_groups_fit(s, next, (room - 1) as nat, false);
                },
            }
        }
    }
}

fn read_groups(s: &[u8], i: usize, room: usize, first: bool) -> (r: (Vec<u16>, usize, bool))
    ensures
        r.0@ == grammar::read_groups(s@, i as int, room as nat, first).segments,
        r.1 == grammar::read_groups(s@, i as int, room as nat, first).end,
        r.2 == grammar::read_groups(s@, i as int, room as nat, first).embedded,
        r.0.len() <= room,
    decreases room,
{
    proof {
        lemma_groups_fit(s@, i as int, room as nat, first);
    }
    if room == 0 {
        return (Vec::new(), i, false);
    }
    if !first && !has_byte(s, i, COLON) {
        return (Vec::new(), i, false);
    }
    let start: usize = if first {
        i
    } else {
        i + 1
    };
    if room >= 2 {
        if let Some((ip, end)) = read_ipv4(s, start) {
            return (embedded_segments(&ip), end, true);
        }
    }
    match read_segment(s, start) {
        None => (Vec::new(), i, false),
        Some((g, next)) => {
            let (rest, end, embedded) = read_groups(s, next, room - 1, false);
            let mut segments: Vec<u16> = Vec::new();
            segments.push(g);
            let mut rest = rest;
            segments.append(&mut rest);
            assert(segments@ =~= seq![g] + grammar::read_groups(
                s@,
                next as int,
                (room - 1) as nat,
                false,
            ).segments);
            (segments, end, embedded)
        },
    }
}

/// Reads an IPv6 address at position `i`.
pub fn read_ipv6(s: &[u8], i: usize) -> (r: Option<(Ipv6Addr, usize)>)
    ensures
        at(r) == grammar::read_ipv6(s@, i as int),
{
    let (head, head_end, head_embedded) = read_groups(s, i, 8, true);
    let mut segments: [u16; 8] = [0; 8];
    let n: usize = head.len();
    let mut k: usize = 0;
    while k < n
        invariant
            k <= n <= 8,
            n == head.len(),
            forall|j: int| 0 <= j < k ==> segments[j] == head@[j],
            forall|j: int| k <= j < 8 ==> segments[j] == 0,
        decreases n - k,
    {
        segments[k] = head[k];
        k += 1;
    }
    if n == 8 {
        let ip = Ipv6Addr { segments };
        assert(ip.segments =~= Ipv6Addr::from_seq(head@).segments);
        return Some((ip, head_end));
    }
    if head_embedded {
        return None;
    }
    if !has_byte(s, head_end, COLON) || !has_byte(s, head_end + 1, COLON) {
        return None;
    }
    let (tail, tail_end, _) = read_groups(s, head_end + 2, 7 - n, true);
    let t: usize = tail.len();
    let from: usize = 8 - t;
    let mut k: usize = 0;
    while k < t
        invariant
            k <= t,
            t == tail.len(),
            n + t <= 7,
            from == 8 - t,
            forall|j: int| 0 <= j < n ==> segments[j] == head@[j],
            forall|j: int| n <= j < from ==> segments[j] == 0,
            forall|j: int| from <= j < from + k ==> segments[j] == tail@[j - from],
        decreases t - k,
    {
        segments[from + k] = tail[k];
        k += 1;
    }
    let ip = Ipv6Addr { segments };
    proof {
        let all = head@ + grammar::zero_segments(8 - n - t) + tail@;
        assert(all.len() == 8);
        assert forall|j: int| 0 <= j < 8 implies ip.segments[j] == all[j] by {
            if j < n {
            } else if j < from {
            } else {
            }
        }
        assert(ip.segments =~= Ipv6Addr::from_seq(all).segments);
    }
    Some((ip, tail_end))
}

fn read_port(s: &[u8], i: usize) -> (r: Option<(u16, usize)>)
    ensures
        match r {
            Some((v, end)) => grammar::read_port(s@, i as int) == Some((v as nat, end as int)),
            None => grammar::read_port(s@, i as int) is None,
        },
{
    if !has_byte(s, i, COLON) {
        return None;
    }
    match read_number(s, i + 1, false, None, true, 0xffff) {
        Some((v, end)) => Some((v as u16, end)),
        None => None,
    }
}

fn read_scope_id(s: &[u8], i: usize) -> (r: Option<(u32, usize)>)
    ensures
        number_at(r) == grammar::read_scope_id(s@, i as int),
{
    if !has_byte(s, i, PERCENT) {
        return None;
    }
    read_number(s, i + 1, false, None, true, 0xffff_ffff)
}

fn read_socket_addr_v4(s: &[u8], i: usize) -> (r: Option<(SocketAddr, usize)>)
    ensures
        at(r) == grammar::read_socket_addr_v4(s@, i as int),
{
    let (ip, i1) = match read_ipv4(s, i) {
        Some(x) => x,
        None => { return None; },
    };
    match read_port(s, i1) {
        Some((port, i2)) => Some((SocketAddr::V4 { ip, port }, i2)),
        None => None,
    }
}

fn read_socket_addr_v6(s: &[u8], i: usize) -> (r: Option<(SocketAddr, usize)>)
    ensures
        at(r) == grammar::read_socket_addr_v6(s@, i as int),
{
    if !has_byte(s, i, OPEN_BRACKET) {
        return None;
    }
    let (ip, i1) = match read_ipv6(s, i + 1) {
        Some(x) => x,
        None => { return None; },
    };
    let (scope_id, i2) = match read_scope_id(s, i1) {
        Some(x) => x,
        None => (0, i1),
    };
    if !has_byte(s, i2, CLOSE_BRACKET) {
        return None;
    }
    match read_port(s, i2 + 1) {
        Some((port, i3)) => Some((SocketAddr::V6 { ip, port, scope_id }, i3)),
        None => None,
    }
}

impl IpAddr {
    /// The address that the whole of `s` denotes, if any.
    pub fn parse_ascii(s: &[u8]) -> (r: Option<IpAddr>)
        ensures
            r == grammar::parse_ip_addr(s@),
    {
        reveal(grammar::parse_ip_addr);
        match read_ipv4(s, 0) {
            Some((ip, end)) => {
                if end == s.len() {
                    Some(IpAddr::V4(ip))
                } else {
                    None
                }
            },
            None => match read_ipv6(s, 0) {
                Some((ip, end)) => {
                    if end == s.len() {
                        Some(IpAddr::V6(ip))
                    } else {
                        None
                    }
                },
                None => None,
            },
        }
    }

    /// The address that `s` denotes, if any.
    pub fn from_str(s: &str) -> (r: Option<IpAddr>)
        ensures
            r == grammar::parse_ip_addr(s.spec_bytes()),
    {
        Self::parse_ascii(s.as_bytes())
    }
}

impl SocketAddr {
    /// The socket address that the whole of `s` denotes, if any.
    pub fn parse_ascii(s: &[u8]) -> (r: Option<SocketAddr>)
        ensures
            r == grammar::parse_socket_addr(s@),
    {
        reveal(grammar::parse_socket_addr);
        match read_socket_addr_v4(s, 0) {
            Some((addr, end)) => {
                if end == s.len() {
                    Some(addr)
                } else {
                    None
                }
            },
            None => match read_socket_addr_v6(s, 0) {
                Some((addr, end)) => {
                    if end == s.len() {
                        Some(addr)
                    } else {
                        None
                    }
                },
                None => None,
            },
        }
    }

    /// The socket address that `s` denotes, if any.
    pub fn from_str(s: &str) -> (r: Option<SocketAddr>)
        ensures
            r == grammar::parse_socket_addr(s.spec_bytes()),
    {
        Self::parse_ascii(s.as_bytes())
    }
}

} // verus!
