//! The canonical text of an address, and the functions that write it.

use vstd::prelude::*;
use vstd::string::*;
use super::addr::{IpAddr, Ipv4Addr, Ipv6Addr, SocketAddr};
use super::grammar::{CLOSE_BRACKET, COLON, DOT, OPEN_BRACKET, PERCENT};

verus! {

/// The digit for a number below sixteen, letters in lower case.
pub open spec fn digit_byte(d: nat) -> u8 {
    if d < 10 {
        (48 + d) as u8
    } else {
        (87 + d) as u8
    }
}

/// A number in digits without leading zeros: hexadecimal with `hex`,
/// else decimal.
pub open spec fn number_text(n: nat, hex: bool) -> Seq<u8>
    decreases n,
{
    if hex {
        if n < 16 {
            seq![digit_byte(n)]
        } else {
            number_text(n / 16, hex).push(digit_byte(n % 16))
        }
    } else {
        if n < 10 {
            seq![digit_byte(n)]
        } else {
            number_text(n / 10, hex).push(digit_byte(n % 10))
        }
    }
}

/// A number in decimal digits, without leading zeros.
pub open spec fn decimal_text(n: nat) -> Seq<u8> {
    number_text(n, false)
}

/// A number in hexadecimal digits, lower case, without leading zeros.
pub open spec fn hex_text(n: nat) -> Seq<u8> {
    number_text(n, true)
}

/// An IPv4 address in dotted form.
pub open spec fn ipv4_text(ip: Ipv4Addr) -> Seq<u8> {
    decimal_text(ip.octets[0] as nat) + seq![DOT] + decimal_text(ip.octets[1] as nat) + seq![DOT]
        + decimal_text(ip.octets[2] as nat) + seq![DOT] + decimal_text(ip.octets[3] as nat)
}

/// Segments in hexadecimal with colons between them; unless `first`,
/// a colon stands before the first one too.
pub open spec fn segments_text(segments: Seq<u16>, first: bool) -> Seq<u8>
    decreases segments.len(),
{
    if segments.len() == 0 {
        Seq::empty()
    } else {
        let lead = if first {
            Seq::<u8>::empty()
        } else {
            seq![COLON]
        };
        lead + hex_text(segments[0] as nat) + segments_text(segments.drop_first(), false)
    }
}

/// A run of segments: where it starts and how many it holds.
pub struct Span {
    pub start: int,
    pub len: int,
}

/// The longest run of zero segments from position `i` on, the earliest
/// among equals, given the run `current` that ends just before `i` and the
/// longest run `longest` found before.
pub open spec fn scan_zero_runs(segments: Seq<u16>, i: int, current: Span, longest: Span) -> Span
    decreases segments.len() - i,
{
    if i < 0 || i >= segments.len() {
        longest
    } else if segments[i] == 0 {
        let grown = Span {
            start: if current.len == 0 {
                i
            } else {
                current.start
            },
            len: current.len + 1,
        };
        scan_zero_runs(
            segments,
            i + 1,
            grown,
            if grown.len > longest.len {
                grown
            } else {
                longest
            },
        )
    } else {
        scan_zero_runs(segments, i + 1, Span { start: 0, len: 0 }, longest)
    }
}

/// The longest run of zero segments, the earliest among equals; of
/// length zero when no segment is zero.
pub open spec fn longest_zero_run(segments: Seq<u16>) -> Span {
    scan_zero_runs(segments, 0, Span { start: 0, len: 0 }, Span { start: 0, len: 0 })
}

/// Whether the address is an IPv4 address mapped into IPv6: five zero
/// segments and one of all ones before the address.
pub open spec fn is_ipv4_mapped(ip: Ipv6Addr) -> bool {
    ip.segments[0] == 0 && ip.segments[1] == 0 && ip.segments[2] == 0 && ip.segments[3] == 0
        && ip.segments[4] == 0 && ip.segments[5] == 0xffff
}

/// The IPv4 address in the last two segments.
pub open spec fn embedded_ipv4(ip: Ipv6Addr) -> Ipv4Addr {
    Ipv4Addr::spec_new(
        (ip.segments[6] / 256) as u8,
        (ip.segments[6] % 256) as u8,
        (ip.segments[7] / 256) as u8,
        (ip.segments[7] % 256) as u8,
    )
}

/// `::ffff:`
pub open spec fn mapped_prefix() -> Seq<u8> {
    seq![COLON, COLON, 102u8, 102u8, 102u8, 102u8, COLON]
}

/// An IPv6 address: a mapped IPv4 address as `::ffff:a.b.c.d`; else the
/// segments in hexadecimal, the longest run of two or more zero segments
/// written as `::`.
pub open spec fn ipv6_text(ip: Ipv6Addr) -> Seq<u8> {
    if is_ipv4_mapped(ip) {
        mapped_prefix() + ipv4_text(embedded_ipv4(ip))
    } else {
        let run = longest_zero_run(ip.segments@);
        if run.len > 1 {
            segments_text(ip.segments@.subrange(0, run.start), true) + seq![COLON, COLON]
                + segments_text(ip.segments@.subrange(run.start + run.len, 8), true)
        } else {
            segments_text(ip.segments@, true)
        }
    }
}

pub open spec fn ip_addr_text(ip: IpAddr) -> Seq<u8> {
    match ip {
        IpAddr::V4(ip) => ipv4_text(ip),
        IpAddr::V6(ip) => ipv6_text(ip),
    }
}

/// The scope of an IPv6 socket address: nothing for scope zero, else a
/// percent sign and the scope in decimal.
pub open spec fn scope_text(scope_id: u32) -> Seq<u8> {
    if scope_id == 0 {
        Seq::<u8>::empty()
    } else {
        seq![PERCENT] + decimal_text(scope_id as nat)
    }
}

/// A socket address: `a.b.c.d:port`, or `[ipv6]:port` with `%scope`
/// before the closing bracket where the scope is not zero.
pub open spec fn socket_addr_text(addr: SocketAddr) -> Seq<u8> {
    match addr {
        SocketAddr::V4 { ip, port } => ipv4_text(ip) + seq![COLON] + decimal_text(port as nat),
        SocketAddr::V6 { ip, port, scope_id } => seq![OPEN_BRACKET] + ipv6_text(ip) + scope_text(
            scope_id,
        ) + seq![CLOSE_BRACKET, COLON] + decimal_text(port as nat),
    }
}

/// Bytes as characters, one for one.
pub open spec fn as_chars(bytes: Seq<u8>) -> Seq<char> {
    Seq::new(bytes.len(), |i: int| bytes[i] as char)
}

/// Whether every byte is an ASCII character.
pub open spec fn is_ascii_text(bytes: Seq<u8>) -> bool {
    forall|i: int| 0 <= i < bytes.len() ==> #[trigger] bytes[i] < 128
}

/// ASCII bytes are the encoding of the characters that they stand for.
pub proof fn lemma_ascii_encoding(bytes: Seq<u8>)
    requires
        is_ascii_text(bytes),
    ensures
        vstd::utf8::encode_utf8(as_chars(bytes)) == bytes,
{
    let chars = as_chars(bytes);
    assert forall|i: int| 0 <= i < chars.len() implies '\0' <= #[trigger] chars[i] <= '\u{7f}' by {
        assert(bytes[i] < 128);
    }
    vstd::utf8::is_ascii_chars_encode_utf8(chars);
    assert(vstd::utf8::encode_utf8(chars) =~= bytes);
}

/// The one-character string for a digit.
fn digit_str(d: u32) -> (r: &'static str)
    requires
        d < 16,
    ensures
        r@ == as_chars(seq![digit_byte(d as nat)]),
{
    proof {
        reveal_strlit("0");
        reveal_strlit("1");
        reveal_strlit("2");
        reveal_strlit("3");
        reveal_strlit("4");
        reveal_strlit("5");
        reveal_strlit("6");
        reveal_strlit("7");
        reveal_strlit("8");
        reveal_strlit("9");
        reveal_strlit("a");
        reveal_strlit("b");
        reveal_strlit("c");
        reveal_strlit("d");
        reveal_strlit("e");
        reveal_strlit("f");
    }
    let r = match d {
        0 => "0",
        1 => "1",
        2 => "2",
        3 => "3",
        4 => "4",
        5 => "5",
        6 => "6",
        7 => "7",
        8 => "8",
        9 => "9",
        10 => "a",
        11 => "b",
        12 => "c",
        13 => "d",
        14 => "e",
        _ => "f",
    };
    assert(r@ =~= as_chars(seq![digit_byte(d as nat)]));
    r
}

/// Appends `n` in decimal.
pub fn push_decimal(out: &mut String, n: u32)
    ensures
        final(out)@ == old(out)@ + as_chars(decimal_text(n as nat)),
    decreases n,
{
    if n >= 10 {
        push_decimal(out, n / 10);
    }
    out.append(digit_str(n % 10));
    assert(out@ =~= old(out)@ + as_chars(decimal_text(n as nat)));
}

/// Appends `n` in hexadecimal.
pub fn push_hex(out: &mut String, n: u32)
    ensures
        final(out)@ == old(out)@ + as_chars(hex_text(n as nat)),
    decreases n,
{
    if n >= 16 {
        push_hex(out, n / 16);
    }
    out.append(digit_str(n % 16));
    assert(out@ =~= old(out)@ + as_chars(hex_text(n as nat)));
}

fn push_dot(out: &mut String)
    ensures
        final(out)@ == old(out)@ + as_chars(seq![DOT]),
{
    proof {
        reveal_strlit(".");
    }
    out.append(".");
    assert(out@ =~= old(out)@ + as_chars(seq![DOT]));
}

fn push_colon(out: &mut String)
    ensures
        final(out)@ == old(out)@ + as_chars(seq![COLON]),
{
    proof {
        reveal_strlit(":");
    }
    out.append(":");
    assert(out@ =~= old(out)@ + as_chars(seq![COLON]));
}

/// Appends an IPv4 address in dotted form.
pub fn push_ipv4(out: &mut String, ip: &Ipv4Addr)
    ensures
        final(out)@ == old(out)@ + as_chars(ipv4_text(*ip)),
{
    push_decimal(out, ip.octets[0] as u32);
    push_dot(out);
    push_decimal(out, ip.octets[1] as u32);
    push_dot(out);
    push_decimal(out, ip.octets[2] as u32);
    push_dot(out);
    push_decimal(out, ip.octets[3] as u32);
    assert(out@ =~= old(out)@ + as_chars(ipv4_text(*ip)));
}

fn push_segments(out: &mut String, ip: &Ipv6Addr, from: usize, to: usize, first: bool)
    requires
        from <= to <= 8,
    ensures
        final(out)@ == old(out)@ + as_chars(
            segments_text(ip.segments@.subrange(from as int, to as int), first),
        ),
    decreases to - from,
{
    let ghost part = ip.segments@.subrange(from as int, to as int);
    if from < to {
        if !first {
            push_colon(out);
        }
        push_hex(out, ip.segments[from] as u32);
        push_segments(out, ip, from + 1, to, false);
        assert(part.drop_first() =~= ip.segments@.subrange(from + 1, to as int));
        assert(out@ =~= old(out)@ + as_chars(segments_text(part, first)));
    } else {
        assert(out@ =~= old(out)@ + as_chars(segments_text(part, first)));
    }
}

fn find_longest_zero_run(ip: &Ipv6Addr) -> (r: (usize, usize))
    ensures
        r.0 == longest_zero_run(ip.segments@).start,
        r.1 == longest_zero_run(ip.segments@).len,
        r.0 + r.1 <= 8,
{
    let mut current: (usize, usize) = (0, 0);
    let mut longest: (usize, usize) = (0, 0);
    let mut i: usize = 0;
    while i < 8
        invariant
            i <= 8,
            current.0 + current.1 <= i,
            longest.0 + longest.1 <= i,
            longest_zero_run(ip.segments@) == scan_zero_runs(
                ip.segments@,
                i as int,
                Span { start: current.0 as int, len: current.1 as int },
                Span { start: longest.0 as int, len: longest.1 as int },
            ),
        decreases 8 - i,
    {
        if ip.segments[i] == 0 {
            if current.1 == 0 {
                current = (i, 1);
            } else {
                current = (current.0, current.1 + 1);
            }
            if current.1 > longest.1 {
                longest = current;
            }
        } else {
            current = (0, 0);
        }
        i += 1;
    }
    longest
}

fn is_ipv4_mapped_addr(ip: &Ipv6Addr) -> (r: bool)
    ensures
        r == is_ipv4_mapped(*ip),
{
    ip.segments[0] == 0 && ip.segments[1] == 0 && ip.segments[2] == 0 && ip.segments[3] == 0
        && ip.segments[4] == 0 && ip.segments[5] == 0xffff
}

/// Appends an IPv6 address.
pub fn push_ipv6(out: &mut String, ip: &Ipv6Addr)
    ensures
        final(out)@ == old(out)@ + as_chars(ipv6_text(*ip)),
{
    if is_ipv4_mapped_addr(ip) {
        let v4 = Ipv4Addr::new(
            (ip.segments[6] / 256) as u8,
            (ip.segments[6] % 256) as u8,
            (ip.segments[7] / 256) as u8,
            (ip.segments[7] % 256) as u8,
        );
        proof {
            reveal_strlit("::ffff:");
        }
        out.append("::ffff:");
        push_ipv4(out, &v4);
        assert(out@ =~= old(out)@ + as_chars(ipv6_text(*ip)));
    } else {
        let (start, len) = find_longest_zero_run(ip);
        if len > 1 {
            push_segments(out, ip, 0, start, true);
            push_colon(out);
            push_colon(out);
            push_segments(out, ip, start + len, 8, true);
            assert(out@ =~= old(out)@ + as_chars(ipv6_text(*ip)));
        } else {
            push_segments(out, ip, 0, 8, true);
            assert(ip.segments@.subrange(0, 8) =~= ip.segments@);
        }
    }
}

/// Appends a socket address.
pub fn push_socket_addr(out: &mut String, addr: &SocketAddr)
    ensures
        final(out)@ == old(out)@ + as_chars(socket_addr_text(*addr)),
{
    match addr {
        SocketAddr::V4 { ip, port } => {
            push_ipv4(out, ip);
            push_colon(out);
            push_decimal(out, *port as u32);
            assert(out@ =~= old(out)@ + as_chars(socket_addr_text(*addr)));
        },
        SocketAddr::V6 { ip, port, scope_id } => {
            proof {
                reveal_strlit("[");
                reveal_strlit("%");
                reveal_strlit("]");
            }
            out.append("[");
            push_ipv6(out, ip);
            if *scope_id != 0 {
                out.append("%");
                push_decimal(out, *scope_id);
            }
            out.append("]");
            push_colon(out);
            push_decimal(out, *port as u32);
            assert(out@ =~= old(out)@ + as_chars(socket_addr_text(*addr)));
        },
    }
}

impl IpAddr {
    /// The address as text.
    pub fn to_string(&self) -> (r: String)
        ensures
            r@ == as_chars(ip_addr_text(*self)),
            vstd::utf8::encode_utf8(r@) == ip_addr_text(*self),
    {
        proof {
            super::laws::lemma_ip_addr_text_ascii(*self);
            lemma_ascii_encoding(ip_addr_text(*self));
        }
        let mut out = String::new();
        match self {
            IpAddr::V4(ip) => push_ipv4(&mut out, ip),
            IpAddr::V6(ip) => push_ipv6(&mut out, ip),
        }
        assert(out@ =~= as_chars(ip_addr_text(*self)));
        out
    }
}

impl SocketAddr {
    /// The address as text.
    pub fn to_string(&self) -> (r: String)
        ensures
            r@ == as_chars(socket_addr_text(*self)),
            vstd::utf8::encode_utf8(r@) == socket_addr_text(*self),
    {
        proof {
            super::laws::lemma_socket_addr_text_ascii(*self);
            lemma_ascii_encoding(socket_addr_text(*self));
        }
        let mut out = String::new();
        push_socket_addr(&mut out, self);
        assert(out@ =~= as_chars(socket_addr_text(*self)));
        out
    }
}

} // verus!
