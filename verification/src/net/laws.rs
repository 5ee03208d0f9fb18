//! What is written is read back: the text of every address denotes that
//! address.

use vstd::prelude::*;
use super::addr::{IpAddr, Ipv4Addr, Ipv6Addr, SocketAddr};
use super::display::{
    Span,
    decimal_text,
    digit_byte,
    embedded_ipv4,
    hex_text,
    ip_addr_text,
    ipv4_text,
    ipv6_text,
    is_ascii_text,
    is_ipv4_mapped,
    longest_zero_run,
    scope_text,
    mapped_prefix,
    number_text,
    scan_zero_runs,
    segments_text,
    socket_addr_text,
};
use super::grammar::{
    CLOSE_BRACKET,
    COLON,
    DOT,
    Groups,
    OPEN_BRACKET,
    PERCENT,
    ZERO,
    digit_value,
    embedded_segments,
    has_byte,
    is_digit,
    parse_ip_addr,
    parse_socket_addr,
    read_dot_octet,
    read_groups,
    read_ipv4,
    read_ipv6,
    read_number,
    read_octet,
    read_port,
    read_scope_id,
    read_segment,
    read_socket_addr_v4,
    read_socket_addr_v6,
    run_end,
    run_value,
    zero_segments,
};
use super::parse::lemma_run_end;

verus! {

/// Whether the text `s` holds `t` at position `i`.
pub open spec fn holds(s: Seq<u8>, i: int, t: Seq<u8>) -> bool {
    0 <= i && i + t.len() <= s.len() && s.subrange(i, i + t.len()) =~= t
}

/// Whether no digit, of either kind, and no dot stands at `i`.
pub open spec fn breaks(s: Seq<u8>, i: int) -> bool {
    i < 0 || i >= s.len() || (!is_digit(s[i], true) && s[i] != DOT)
}

pub proof fn lemma_holds_split(s: Seq<u8>, i: int, a: Seq<u8>, b: Seq<u8>)
    requires
        holds(s, i, a + b),
    ensures
        holds(s, i, a),
        holds(s, i + a.len(), b),
{
    let x = s.subrange(i, i + (a + b).len());
    assert forall|k: int| 0 <= k < a.len() implies s.subrange(i, i + a.len())[k] == a[k] by {
        assert(x[k] == (a + b)[k]);
    }
    assert forall|k: int| 0 <= k < b.len() implies s.subrange(
        i + a.len(),
        i + a.len() + b.len(),
    )[k] == b[k] by {
        assert(x[k + a.len()] == (a + b)[k + a.len()]);
    }
}

pub proof fn lemma_holds_byte(s: Seq<u8>, i: int, t: Seq<u8>, k: int)
    requires
        holds(s, i, t),
        0 <= k < t.len(),
    ensures
        0 <= i + k < s.len(),
        s[i + k] == t[k],
{
    assert(s.subrange(i, i + t.len())[k] == t[k]);
}

/// The digits of a number: one at least, all of its base, and no leading
/// zero before another digit.
pub proof fn lemma_number_text(n: nat, hex: bool)
    ensures
        number_text(n, hex).len() >= 1,
        forall|k: int|
            0 <= k < number_text(n, hex).len() ==> is_digit(#[trigger] number_text(n, hex)[k], hex),
        n >= 1 ==> number_text(n, hex)[0] != ZERO,
        number_text(n, hex).len() > 1 ==> n >= 10,
    decreases n,
{
    let t = number_text(n, hex);
    if hex && n >= 16 {
        lemma_number_text(n / 16, hex);
        let u = number_text(n / 16, hex);
        assert forall|k: int| 0 <= k < t.len() implies is_digit(#[trigger] t[k], hex) by {
            if k < u.len() {
                assert(t[k] == u[k]);
            }
        }
        assert(t[0] == u[0]);
    } else if !hex && n >= 10 {
        lemma_number_text(n / 10, hex);
        let u = number_text(n / 10, hex);
        assert forall|k: int| 0 <= k < t.len() implies is_digit(#[trigger] t[k], hex) by {
            if k < u.len() {
                assert(t[k] == u[k]);
            }
        }
        assert(t[0] == u[0]);
    }
}

/// The digits of a number, read as a number, give it back.
pub proof fn lemma_number_value(s: Seq<u8>, i: int, n: nat, hex: bool)
    requires
        holds(s, i, number_text(n, hex)),
    ensures
        run_value(s, i, i + number_text(n, hex).len(), hex) == n,
    decreases n,
{
    let t = number_text(n, hex);
    assert(run_value(s, i, i, hex) == 0);
    if (hex && n >= 16) || (!hex && n >= 10) {
        let m = if hex {
            n / 16
        } else {
            n / 10
        };
        let d = if hex {
            n % 16
        } else {
            n % 10
        };
        let u = number_text(m, hex);
        assert(t =~= u + seq![digit_byte(d)]);
        lemma_holds_split(s, i, u, seq![digit_byte(d)]);
        lemma_number_value(s, i, m, hex);
        lemma_holds_byte(s, i, t, u.len() as int);
        assert(s[i + u.len()] == digit_byte(d));
        assert(digit_value(digit_byte(d)) == d);
        assert(i + t.len() - 1 == i + u.len());
    } else {
        lemma_holds_byte(s, i, t, 0);
        assert(digit_value(digit_byte(n)) == n);
    }
}

/// A written number is read back, where no further digit follows it and
/// the reader's limits admit it.
pub proof fn lemma_read_number_text(
    s: Seq<u8>,
    i: int,
    n: nat,
    hex: bool,
    max_digits: Option<int>,
    zero_prefix: bool,
    max: nat,
)
    requires
        holds(s, i, number_text(n, hex)),
        i + number_text(n, hex).len() == s.len() || !is_digit(
            s[i + number_text(n, hex).len()],
            hex,
        ),
        n <= max,
        max_digits matches Some(m) ==> number_text(n, hex).len() <= m,
    ensures
        read_number(s, i, hex, max_digits, zero_prefix, max) == Some(
            (n, i + number_text(n, hex).len()),
        ),
{
    let t = number_text(n, hex);
    let e = i + t.len();
    lemma_number_text(n, hex);
    assert forall|k: int| i <= k < e implies is_digit(#[trigger] s[k], hex) by {
        lemma_holds_byte(s, i, t, k - i);
    }
    lemma_run_end(s, i, e, hex);
    lemma_number_value(s, i, n, hex);
    lemma_holds_byte(s, i, t, 0);
}

/// A run of digits ends at or before any later position that holds no
/// digit, and no digit stands at its end.
pub proof fn lemma_run_end_bound(s: Seq<u8>, i: int, p: int, hex: bool)
    requires
        0 <= i <= p <= s.len(),
        p == s.len() || !is_digit(s[p], hex),
    ensures
        i <= run_end(s, i, hex) <= p,
        run_end(s, i, hex) == s.len() || !is_digit(s[run_end(s, i, hex)], hex),
    decreases p - i,
{
    if i < p && is_digit(s[i], hex) {
        lemma_run_end_bound(s, i + 1, p, hex);
    }
}

/// No IPv4 address starts where a run of hexadecimal digits is followed
/// by something other than a dot.
pub proof fn lemma_no_ipv4(s: Seq<u8>, start: int, end: int)
    requires
        0 <= start <= end <= s.len(),
        forall|k: int| start <= k < end ==> is_digit(#[trigger] s[k], true),
        end == s.len() || (!is_digit(s[end], false) && s[end] != DOT),
    ensures
        read_ipv4(s, start) is None,
{
    lemma_run_end_bound(s, start, end, false);
    let r = run_end(s, start, false);
    if r < end {
        assert(is_digit(s[r], true));
    }
    assert(!has_byte(s, r, DOT));
}

/// The octets of an IPv4 address are at most 255 and take three digits
/// at most.
pub proof fn lemma_octet_text(n: nat)
    requires
        n <= 255,
    ensures
        1 <= decimal_text(n).len() <= 3,
{
    reveal_with_fuel(number_text, 4);
}

/// A written IPv4 address is read back, where no digit follows it.
pub proof fn lemma_read_ipv4_text(s: Seq<u8>, i: int, ip: Ipv4Addr)
    requires
        holds(s, i, ipv4_text(ip)),
        i + ipv4_text(ip).len() == s.len() || !is_digit(s[i + ipv4_text(ip).len()], false),
    ensures
        read_ipv4(s, i) == Some((ip, i + ipv4_text(ip).len())),
{
    let a = ip.octets[0] as nat;
    let b = ip.octets[1] as nat;
    let c = ip.octets[2] as nat;
    let d = ip.octets[3] as nat;
    let ta = decimal_text(a);
    let tb = decimal_text(b);
    let tc = decimal_text(c);
    let td = decimal_text(d);
    let dot = seq![DOT];
    lemma_octet_text(a);
    lemma_octet_text(b);
    lemma_octet_text(c);
    lemma_octet_text(d);
    lemma_holds_split(s, i, ta + dot + tb + dot + tc + dot, td);
    lemma_holds_split(s, i, ta + dot + tb + dot + tc, dot);
    lemma_holds_split(s, i, ta + dot + tb + dot, tc);
    lemma_holds_split(s, i, ta + dot + tb, dot);
    lemma_holds_split(s, i, ta + dot, tb);
    lemma_holds_split(s, i, ta, dot);
    let i1 = i + ta.len();
    let i2 = i1 + 1 + tb.len();
    let i3 = i2 + 1 + tc.len();
    let i4 = i3 + 1 + td.len();
    lemma_holds_byte(s, i1, dot, 0);
    lemma_holds_byte(s, i2, dot, 0);
    lemma_holds_byte(s, i3, dot, 0);
    lemma_read_number_text(s, i, a, false, Some(3int), false, 255);
    lemma_read_number_text(s, i1 + 1, b, false, Some(3int), false, 255);
    lemma_read_number_text(s, i2 + 1, c, false, Some(3int), false, 255);
    lemma_read_number_text(s, i3 + 1, d, false, Some(3int), false, 255);
    assert(read_octet(s, i) == Some((a, i1)));
    assert(read_dot_octet(s, i1) == Some((b, i2)));
    assert(read_dot_octet(s, i2) == Some((c, i3)));
    assert(read_dot_octet(s, i3) == Some((d, i4)));
    assert(Ipv4Addr::spec_new(a as u8, b as u8, c as u8, d as u8).octets =~= ip.octets);
}

/// Whether `run` lies within the segments and holds zeros only.
pub open spec fn is_zero_run(segments: Seq<u16>, run: Span) -> bool {
    &&& 0 <= run.start
    &&& 0 <= run.len
    &&& run.start + run.len <= segments.len()
    &&& forall|k: int| run.start <= k < run.start + run.len ==> segments[k] == 0
}

proof fn lemma_scan_zero_runs(segments: Seq<u16>, i: int, current: Span, longest: Span)
    requires
        0 <= i <= segments.len(),
        current.len >= 0,
        current.len > 0 ==> current.start >= 0 && current.start + current.len == i,
        forall|k: int| current.start <= k < current.start + current.len ==> segments[k] == 0,
        is_zero_run(segments, longest),
    ensures
        is_zero_run(segments, scan_zero_runs(segments, i, current, longest)),
    decreases segments.len() - i,
{
    if i < segments.len() {
        if segments[i] == 0 {
            let grown = Span {
                start: if current.len == 0 {
                    i
                } else {
                    current.start
                },
                len: current.len + 1,
            };
            lemma_scan_zero_runs(
                segments,
                i + 1,
                grown,
                if grown.len > longest.len {
                    grown
                } else {
                    longest
                },
            );
        } else {
            lemma_scan_zero_runs(segments, i + 1, Span { start: 0, len: 0 }, longest);
        }
    }
}

/// The run that `::` stands for holds zero segments only.
pub proof fn lemma_longest_zero_run(segments: Seq<u16>)
    ensures
        is_zero_run(segments, longest_zero_run(segments)),
{
    lemma_scan_zero_runs(segments, 0, Span { start: 0, len: 0 }, Span { start: 0, len: 0 });
}

/// What the scan knows of the zero run `other` when it stands at `i`.
spec fn scanned(segments: Seq<u16>, i: int, current: Span, longest: Span, other: Span) -> bool {
    &&& 0 <= i <= segments.len()
    &&& current.len >= 0
    &&& current.len > 0 ==> current.start >= 0 && current.start + current.len == i
    &&& longest.len >= 0
    &&& longest.start >= 0
    &&& longest.start + longest.len <= i
    &&& other.start < i <= other.start + other.len ==> current.len >= i - other.start
    &&& i >= other.start ==> longest.len >= other.len || longest.len >= i - other.start
    &&& longest.len == other.len && other.len > 0 ==> longest.start <= other.start
}

proof fn lemma_scan_is_longest(
    segments: Seq<u16>,
    i: int,
    current: Span,
    longest: Span,
    other: Span,
)
    requires
        is_zero_run(segments, other),
        scanned(segments, i, current, longest, other),
    ensures
        other.len <= scan_zero_runs(segments, i, current, longest).len,
        other.len == scan_zero_runs(segments, i, current, longest).len && other.len > 0
            ==> scan_zero_runs(segments, i, current, longest).start <= other.start,
    decreases segments.len() - i,
{
    if i < segments.len() {
        if segments[i] == 0 {
            let grown = Span {
                start: if current.len == 0 {
                    i
                } else {
                    current.start
                },
                len: current.len + 1,
            };
            let best = if grown.len > longest.len {
                grown
            } else {
                longest
            };
            lemma_scan_is_longest(segments, i + 1, grown, best, other);
        } else {
            lemma_scan_is_longest(segments, i + 1, Span { start: 0, len: 0 }, longest, other);
        }
    }
}

/// No run of zero segments is longer than the one that `::` stands for,
/// and none of the same length starts before it.
pub proof fn lemma_longest_zero_run_is_longest(segments: Seq<u16>, other: Span)
    requires
        is_zero_run(segments, other),
    ensures
        other.len <= longest_zero_run(segments).len,
        other.len == longest_zero_run(segments).len && other.len > 0 ==> longest_zero_run(
            segments,
        ).start <= other.start,
{
    lemma_scan_is_longest(
        segments,
        0,
        Span { start: 0, len: 0 },
        Span { start: 0, len: 0 },
        other,
    );
}

/// Whether a run of segments ends at `e`: no segment starts there, nor
/// behind a colon there. With `first` no colon is looked for.
pub open spec fn stops(s: Seq<u8>, e: int, first: bool) -> bool {
    breaks(s, e) && (first || !has_byte(s, e, COLON) || breaks(s, e + 1))
}

/// Whether an address may end at `e`: no digit, dot or colon follows.
pub open spec fn closes(s: Seq<u8>, e: int) -> bool {
    e < 0 || e >= s.len() || (!is_digit(s[e], true) && s[e] != DOT && s[e] != COLON)
}

/// A segment takes four digits at most.
pub proof fn lemma_segment_text(g: u16)
    ensures
        1 <= hex_text(g as nat).len() <= 4,
{
    reveal_with_fuel(number_text, 5);
}

/// Written segments are read back, where the run ends behind them and
/// there is room for them.
pub proof fn lemma_read_groups_text(s: Seq<u8>, i: int, segments: Seq<u16>, room: nat, first: bool)
    requires
        holds(s, i, segments_text(segments, first)),
        segments.len() <= room,
        stops(s, i + segments_text(segments, first).len(), first && segments.len() == 0),
    ensures
        read_groups(s, i, room, first) == (Groups {
            segments,
            end: i + segments_text(segments, first).len(),
            embedded: false,
        }),
    decreases segments.len(),
{
    let t = segments_text(segments, first);
    let e = i + t.len();
    if segments.len() == 0 {
        assert(segments =~= Seq::empty());
        if room == 0 || (!first && !has_byte(s, i, COLON)) {
        } else {
            let start = if first {
                i
            } else {
                i + 1
            };
            lemma_no_ipv4(s, start, start);
            assert(run_end(s, start, true) == start);
            assert(read_segment(s, start) is None);
        }
    } else {
        let g = segments[0];
        let rest = segments.drop_first();
        let lead = if first {
            Seq::<u8>::empty()
        } else {
            seq![COLON]
        };
        let tg = hex_text(g as nat);
        let tr = segments_text(rest, false);
        assert(t == lead + tg + tr);
        lemma_holds_split(s, i, lead + tg, tr);
        lemma_holds_split(s, i, lead, tg);
        let start = i + lead.len();
        let gend = start + tg.len();
        if !first {
            lemma_holds_byte(s, i, lead, 0);
        }
        lemma_number_text(g as nat, true);
        lemma_segment_text(g);
        if rest.len() > 0 {
            let tail_text = hex_text(rest[0] as nat) + segments_text(rest.drop_first(), false);
            assert(tr =~= seq![COLON] + tail_text);
            lemma_holds_byte(s, gend, tr, 0);
            assert(s[gend] == COLON);
        } else {
            assert(tr.len() == 0);
        }
        assert forall|k: int| start <= k < gend implies is_digit(#[trigger] s[k], true) by {
            lemma_holds_byte(s, start, tg, k - start);
        }
        lemma_no_ipv4(s, start, gend);
        lemma_read_number_text(s, start, g as nat, true, Some(4int), true, 0xffff);
        assert(read_segment(s, start) == Some((g as nat, gend)));
        lemma_read_groups_text(s, gend, rest, (room - 1) as nat, false);
        assert(seq![g] + rest =~= segments);
    }
}

/// The text of `::ffff` and the like: four times the digit `f`.
proof fn lemma_all_ones_text()
    ensures
        hex_text(0xffff) =~= seq![102u8, 102u8, 102u8, 102u8],
{
    reveal_with_fuel(number_text, 5);
}

proof fn lemma_read_mapped_text(s: Seq<u8>, i: int, ip: Ipv6Addr)
    requires
        is_ipv4_mapped(ip),
        holds(s, i, ipv6_text(ip)),
        closes(s, i + ipv6_text(ip).len()),
    ensures
        read_ipv6(s, i) == Some((ip, i + ipv6_text(ip).len())),
{
    let v4 = embedded_ipv4(ip);
    let e = i + ipv6_text(ip).len();
    lemma_holds_split(s, i, mapped_prefix(), ipv4_text(v4));
    lemma_holds_byte(s, i, mapped_prefix(), 0);
    lemma_holds_byte(s, i, mapped_prefix(), 1);
    lemma_holds_byte(s, i, mapped_prefix(), 2);
    lemma_holds_byte(s, i, mapped_prefix(), 3);
    lemma_holds_byte(s, i, mapped_prefix(), 4);
    lemma_holds_byte(s, i, mapped_prefix(), 5);
    lemma_holds_byte(s, i, mapped_prefix(), 6);
    // Nothing stands before the two colons.
    lemma_no_ipv4(s, i, i);
    assert(run_end(s, i, true) == i);
    assert(read_segment(s, i) is None);
    let head = read_groups(s, i, 8, true);
    assert(head == Groups { segments: Seq::empty(), end: i, embedded: false });
    // Behind them: the segment of all ones, then the IPv4 address.
    lemma_no_ipv4(s, i + 2, i + 6);
    lemma_all_ones_text();
    assert(s.subrange(i + 2, i + 6) =~= hex_text(0xffff));
    lemma_read_number_text(s, i + 2, 0xffff, true, Some(4int), true, 0xffff);
    assert(read_segment(s, i + 2) == Some((0xffffnat, i + 6)));
    lemma_read_ipv4_text(s, i + 7, v4);
    let last = read_groups(s, i + 6, 6, false);
    assert(last == Groups { segments: embedded_segments(v4), end: e, embedded: true });
    let tail = read_groups(s, i + 2, 7, true);
    assert(tail.segments == seq![0xffffu16] + embedded_segments(v4));
    assert(tail.end == e);
    let all = head.segments + zero_segments(5) + tail.segments;
    assert(v4.octets[0] == (ip.segments[6] / 256) as u8);
    assert(v4.octets[1] == (ip.segments[6] % 256) as u8);
    assert(v4.octets[2] == (ip.segments[7] / 256) as u8);
    assert(v4.octets[3] == (ip.segments[7] % 256) as u8);
    assert(Ipv6Addr::from_seq(all).segments =~= ip.segments);
}

/// The text of segments with `::` for the zeros of `run`.
pub open spec fn compressed_text(segments: Seq<u16>, run: Span) -> Seq<u8> {
    segments_text(segments.subrange(0, run.start), true) + seq![COLON, COLON] + segments_text(
        segments.subrange(run.start + run.len, 8),
        true,
    )
}

proof fn lemma_read_compressed_text(s: Seq<u8>, i: int, ip: Ipv6Addr, run: Span)
    requires
        is_zero_run(ip.segments@, run),
        run.len > 1,
        holds(s, i, compressed_text(ip.segments@, run)),
        closes(s, i + compressed_text(ip.segments@, run).len()),
    ensures
        read_ipv6(s, i) == Some((ip, i + compressed_text(ip.segments@, run).len())),
        !read_groups(s, i, 8, true).embedded,
{
    let segments = ip.segments@;
    let head = segments.subrange(0, run.start);
    let tail = segments.subrange(run.start + run.len, 8);
    let th = segments_text(head, true);
    let tt = segments_text(tail, true);
    let colons = seq![COLON, COLON];
    lemma_holds_split(s, i, th + colons, tt);
    lemma_holds_split(s, i, th, colons);
    let eh = i + th.len();
    lemma_holds_byte(s, eh, colons, 0);
    lemma_holds_byte(s, eh, colons, 1);
    assert(read_groups(s, i, 8, true) == Groups { segments: head, end: eh, embedded: false }) by {
        lemma_read_groups_text(s, i, head, 8, true);
    }
    let room = (7 - head.len()) as nat;
    assert(read_groups(s, eh + 2, room, true) == Groups {
        segments: tail,
        end: eh + 2 + tt.len(),
        embedded: false,
    }) by {
        lemma_read_groups_text(s, eh + 2, tail, room, true);
    }
    let all = head + zero_segments(run.len) + tail;
    assert(Ipv6Addr::from_seq(all).segments =~= ip.segments);
}

proof fn lemma_read_plain_text(s: Seq<u8>, i: int, ip: Ipv6Addr)
    requires
        holds(s, i, segments_text(ip.segments@, true)),
        closes(s, i + segments_text(ip.segments@, true).len()),
    ensures
        read_ipv6(s, i) == Some((ip, i + segments_text(ip.segments@, true).len())),
        !read_groups(s, i, 8, true).embedded,
{
    let segments = ip.segments@;
    assert(read_groups(s, i, 8, true) == Groups {
        segments,
        end: i + segments_text(segments, true).len(),
        embedded: false,
    }) by {
        lemma_read_groups_text(s, i, segments, 8, true);
    }
    assert(Ipv6Addr::from_seq(segments).segments =~= ip.segments);
}

/// Where a run of segments did not end in an embedded address, no IPv4
/// address stands at its start.
proof fn lemma_not_embedded(s: Seq<u8>, i: int)
    requires
        !read_groups(s, i, 8, true).embedded,
    ensures
        read_ipv4(s, i) is None,
{
}

/// A written IPv6 address is read back, where no digit, dot or colon
/// follows it.
pub proof fn lemma_read_ipv6_text(s: Seq<u8>, i: int, ip: Ipv6Addr)
    requires
        holds(s, i, ipv6_text(ip)),
        closes(s, i + ipv6_text(ip).len()),
    ensures
        read_ipv6(s, i) == Some((ip, i + ipv6_text(ip).len())),
        read_ipv4(s, i) is None,
{
    if is_ipv4_mapped(ip) {
        lemma_read_mapped_text(s, i, ip);
        lemma_holds_split(s, i, mapped_prefix(), ipv4_text(embedded_ipv4(ip)));
        lemma_holds_byte(s, i, mapped_prefix(), 0);
        lemma_no_ipv4(s, i, i);
    } else {
        let run = longest_zero_run(ip.segments@);
        lemma_longest_zero_run(ip.segments@);
        if run.len > 1 {
            lemma_read_compressed_text(s, i, ip, run);
        } else {
            lemma_read_plain_text(s, i, ip);
        }
        lemma_not_embedded(s, i);
    }
}

/// A port takes five digits at most, a scope ten.
pub proof fn lemma_decimal_text_len(n: nat)
    ensures
        1 <= decimal_text(n).len(),
        n <= 0xffff ==> decimal_text(n).len() <= 5,
        n <= 0xffff_ffff ==> decimal_text(n).len() <= 10,
{
    reveal_with_fuel(number_text, 11);
}

/// The text of an IP address denotes that address.
pub proof fn lemma_parse_ip_addr_text(ip: IpAddr)
    ensures
        parse_ip_addr(ip_addr_text(ip)) == Some(ip),
{
    let s = ip_addr_text(ip);
    reveal(parse_ip_addr);
    assert(s.subrange(0, s.len() as int) =~= s);
    match ip {
        IpAddr::V4(v4) => {
            lemma_read_ipv4_text(s, 0, v4);
        },
        IpAddr::V6(v6) => {
            lemma_read_ipv6_text(s, 0, v6);
        },
    }
}

/// A written port is read back at the end of the text.
proof fn lemma_read_port_text(s: Seq<u8>, i: int, port: u16)
    requires
        holds(s, i, seq![COLON] + decimal_text(port as nat)),
        i + 1 + decimal_text(port as nat).len() == s.len(),
    ensures
        read_port(s, i) == Some((port as nat, s.len() as int)),
{
    lemma_holds_split(s, i, seq![COLON], decimal_text(port as nat));
    lemma_holds_byte(s, i, seq![COLON], 0);
    lemma_read_number_text(s, i + 1, port as nat, false, None, true, 0xffff);
}

/// A written scope is read back before a closing bracket.
proof fn lemma_read_scope_text(s: Seq<u8>, i: int, scope_id: u32)
    requires
        holds(s, i, scope_text(scope_id)),
        has_byte(s, i + scope_text(scope_id).len(), CLOSE_BRACKET),
    ensures
        scope_id == 0 ==> read_scope_id(s, i) is None,
        scope_id != 0 ==> read_scope_id(s, i) == Some(
            (scope_id as nat, i + scope_text(scope_id).len()),
        ),
{
    if scope_id != 0 {
        lemma_holds_split(s, i, seq![PERCENT], decimal_text(scope_id as nat));
        lemma_holds_byte(s, i, seq![PERCENT], 0);
        lemma_read_number_text(s, i + 1, scope_id as nat, false, None, true, 0xffff_ffff);
    }
}

proof fn lemma_parse_socket_addr_v4_text(ip: Ipv4Addr, port: u16)
    ensures
        parse_socket_addr(socket_addr_text(SocketAddr::V4 { ip, port })) == Some(
            SocketAddr::V4 { ip, port },
        ),
{
    let addr = SocketAddr::V4 { ip, port };
    let s = socket_addr_text(addr);
    reveal(parse_socket_addr);
    let tp = decimal_text(port as nat);
    let t4 = ipv4_text(ip);
    assert(s.subrange(0, s.len() as int) =~= s);
    assert(s =~= t4 + (seq![COLON] + tp));
    lemma_holds_split(s, 0, t4, seq![COLON] + tp);
    let i1 = t4.len() as int;
    lemma_holds_byte(s, i1, seq![COLON] + tp, 0);
    assert(read_ipv4(s, 0) == Some((ip, i1))) by {
        lemma_read_ipv4_text(s, 0, ip);
    }
    assert(read_port(s, i1) == Some((port as nat, s.len() as int))) by {
        lemma_read_port_text(s, i1, port);
    }
}

/// An address text in brackets with a scope and a port behind it.
pub open spec fn bracketed_text(inner: Seq<u8>, scope_id: u32, port: u16) -> Seq<u8> {
    seq![OPEN_BRACKET] + inner + scope_text(scope_id) + seq![CLOSE_BRACKET, COLON] + decimal_text(
        port as nat,
    )
}

/// What stands where in a bracketed text, and what the readers of scope
/// and port make of it.
proof fn lemma_bracketed_text(inner: Seq<u8>, scope_id: u32, port: u16)
    ensures
        ({
            let s = bracketed_text(inner, scope_id, port);
            let i1 = 1 + inner.len() as int;
            let i2 = i1 + scope_text(scope_id).len() as int;
            &&& has_byte(s, 0, OPEN_BRACKET)
            &&& read_ipv4(s, 0) is None
            &&& holds(s, 1, inner)
            &&& closes(s, i1)
            &&& scope_id == 0 ==> read_scope_id(s, i1) is None
            &&& scope_id != 0 ==> read_scope_id(s, i1) == Some((scope_id as nat, i2))
            &&& has_byte(s, i2, CLOSE_BRACKET)
            &&& read_port(s, i2 + 1) == Some((port as nat, s.len() as int))
        }),
{
    let s = bracketed_text(inner, scope_id, port);
    let open = seq![OPEN_BRACKET];
    let scope = scope_text(scope_id);
    let tp = decimal_text(port as nat);
    let i1: int = 1 + inner.len() as int;
    let i2: int = i1 + scope.len() as int;
    assert(s.subrange(0, s.len() as int) =~= s);
    assert(s =~= open + inner + scope + (seq![CLOSE_BRACKET] + (seq![COLON] + tp)));
    lemma_holds_split(s, 0, open + inner + scope, seq![CLOSE_BRACKET] + (seq![COLON] + tp));
    lemma_holds_split(s, 0, open + inner, scope);
    lemma_holds_split(s, 0, open, inner);
    lemma_holds_split(s, i2, seq![CLOSE_BRACKET], seq![COLON] + tp);
    lemma_holds_byte(s, 0, open, 0);
    lemma_holds_byte(s, i2, seq![CLOSE_BRACKET], 0);
    assert(read_ipv4(s, 0) is None) by {
        lemma_no_ipv4(s, 0, 0);
    }
    assert(closes(s, i1)) by {
        if scope_id != 0 {
            lemma_holds_byte(s, i1, scope, 0);
        }
    }
    lemma_read_scope_text(s, i1, scope_id);
    lemma_read_port_text(s, i2 + 1, port);
}

#[verifier::rlimit(50)]
proof fn lemma_parse_socket_addr_v6_text(ip: Ipv6Addr, port: u16, scope_id: u32)
    ensures
        parse_socket_addr(socket_addr_text(SocketAddr::V6 { ip, port, scope_id })) == Some(
            SocketAddr::V6 { ip, port, scope_id },
        ),
{
    let addr = SocketAddr::V6 { ip, port, scope_id };
    let s = socket_addr_text(addr);
    let i1: int = 1 + ipv6_text(ip).len() as int;
    assert(s == bracketed_text(ipv6_text(ip), scope_id, port));
    lemma_bracketed_text(ipv6_text(ip), scope_id, port);
    assert(read_ipv6(s, 1) == Some((ip, i1))) by {
        lemma_read_ipv6_text(s, 1, ip);
    }
    assert(read_socket_addr_v4(s, 0) is None);
    assert(read_socket_addr_v6(s, 0) == Some((addr, s.len() as int)));
    reveal(parse_socket_addr);
}

/// The text of a socket address denotes that address.
pub proof fn lemma_parse_socket_addr_text(addr: SocketAddr)
    ensures
        parse_socket_addr(socket_addr_text(addr)) == Some(addr),
{
    match addr {
        SocketAddr::V4 { ip, port } => {
            lemma_parse_socket_addr_v4_text(ip, port);
        },
        SocketAddr::V6 { ip, port, scope_id } => {
            lemma_parse_socket_addr_v6_text(ip, port, scope_id);
        },
    }
}

/// Two ASCII texts joined are an ASCII text.
pub proof fn lemma_ascii_joined(a: Seq<u8>, b: Seq<u8>)
    requires
        is_ascii_text(a),
        is_ascii_text(b),
    ensures
        is_ascii_text(a + b),
{
    assert forall|i: int| 0 <= i < (a + b).len() implies #[trigger] (a + b)[i] < 128 by {
        if i < a.len() {
            assert(a[i] < 128);
        } else {
            assert(b[i - a.len()] < 128);
        }
    }
}

/// A number in text is ASCII.
pub proof fn lemma_number_text_ascii(n: nat, hex: bool)
    ensures
        is_ascii_text(number_text(n, hex)),
{
    lemma_number_text(n, hex);
}

/// An IPv4 address in text is ASCII and takes fifteen bytes at most.
pub proof fn lemma_ipv4_text_ascii(ip: Ipv4Addr)
    ensures
        is_ascii_text(ipv4_text(ip)),
        ipv4_text(ip).len() <= 15,
{
    let ta = decimal_text(ip.octets[0] as nat);
    let tb = decimal_text(ip.octets[1] as nat);
    let tc = decimal_text(ip.octets[2] as nat);
    let td = decimal_text(ip.octets[3] as nat);
    let dot = seq![DOT];
    lemma_octet_text(ip.octets[0] as nat);
    lemma_octet_text(ip.octets[1] as nat);
    lemma_octet_text(ip.octets[2] as nat);
    lemma_octet_text(ip.octets[3] as nat);
    lemma_number_text_ascii(ip.octets[0] as nat, false);
    lemma_number_text_ascii(ip.octets[1] as nat, false);
    lemma_number_text_ascii(ip.octets[2] as nat, false);
    lemma_number_text_ascii(ip.octets[3] as nat, false);
    lemma_ascii_joined(ta, dot);
    lemma_ascii_joined(ta + dot, tb);
    lemma_ascii_joined(ta + dot + tb, dot);
    lemma_ascii_joined(ta + dot + tb + dot, tc);
    lemma_ascii_joined(ta + dot + tb + dot + tc, dot);
    lemma_ascii_joined(ta + dot + tb + dot + tc + dot, td);
}

/// Segments in text are ASCII and take five bytes each at most.
pub proof fn lemma_segments_text_ascii(segments: Seq<u16>, first: bool)
    ensures
        is_ascii_text(segments_text(segments, first)),
        segments_text(segments, first).len() <= 5 * segments.len(),
    decreases segments.len(),
{
    if segments.len() > 0 {
        let lead = if first {
            Seq::<u8>::empty()
        } else {
            seq![COLON]
        };
        let tg = hex_text(segments[0] as nat);
        lemma_segment_text(segments[0]);
        lemma_number_text_ascii(segments[0] as nat, true);
        lemma_segments_text_ascii(segments.drop_first(), false);
        lemma_ascii_joined(lead, tg);
        lemma_ascii_joined(lead + tg, segments_text(segments.drop_first(), false));
    }
}

/// An IPv6 address in text is ASCII and takes 39 bytes at most.
pub proof fn lemma_ipv6_text_ascii(ip: Ipv6Addr)
    ensures
        is_ascii_text(ipv6_text(ip)),
        ipv6_text(ip).len() <= 39,
{
    let segments = ip.segments@;
    if is_ipv4_mapped(ip) {
        lemma_ipv4_text_ascii(embedded_ipv4(ip));
        lemma_ascii_joined(mapped_prefix(), ipv4_text(embedded_ipv4(ip)));
    } else {
        let run = longest_zero_run(segments);
        lemma_longest_zero_run(segments);
        if run.len > 1 {
            let head = segments.subrange(0, run.start);
            let tail = segments.subrange(run.start + run.len, 8);
            lemma_segments_text_ascii(head, true);
            lemma_segments_text_ascii(tail, true);
            lemma_ascii_joined(segments_text(head, true), seq![COLON, COLON]);
            lemma_ascii_joined(segments_text(head, true) + seq![COLON, COLON], segments_text(tail, true));
        } else {
            lemma_segments_text_ascii(segments, true);
            assert(segments_text(segments, true).len() <= 39) by {
                lemma_segments_text_tight(segments);
            }
        }
    }
}

/// With a segment first, the colons number one less than the segments.
proof fn lemma_segments_text_tight(segments: Seq<u16>)
    requires
        segments.len() > 0,
    ensures
        segments_text(segments, true).len() <= 5 * segments.len() - 1,
{
    lemma_segment_text(segments[0]);
    lemma_segments_text_ascii(segments.drop_first(), false);
}

/// An IP address in text is ASCII.
pub proof fn lemma_ip_addr_text_ascii(ip: IpAddr)
    ensures
        is_ascii_text(ip_addr_text(ip)),
        ip_addr_text(ip).len() <= 39,
{
    match ip {
        IpAddr::V4(v4) => lemma_ipv4_text_ascii(v4),
        IpAddr::V6(v6) => lemma_ipv6_text_ascii(v6),
    }
}

/// A socket address in text is ASCII and takes 58 bytes at most.
pub proof fn lemma_socket_addr_text_ascii(addr: SocketAddr)
    ensures
        is_ascii_text(socket_addr_text(addr)),
        1 <= socket_addr_text(addr).len() <= 58,
{
    match addr {
        SocketAddr::V4 { ip, port } => {
            let tp = decimal_text(port as nat);
            lemma_ipv4_text_ascii(ip);
            lemma_decimal_text_len(port as nat);
            lemma_number_text_ascii(port as nat, false);
            lemma_ascii_joined(ipv4_text(ip), seq![COLON]);
            lemma_ascii_joined(ipv4_text(ip) + seq![COLON], tp);
        },
        SocketAddr::V6 { ip, port, scope_id } => {
            let open = seq![OPEN_BRACKET];
            let t6 = ipv6_text(ip);
            let scope = scope_text(scope_id);
            let close = seq![CLOSE_BRACKET, COLON];
            let tp = decimal_text(port as nat);
            lemma_ipv6_text_ascii(ip);
            lemma_decimal_text_len(port as nat);
            lemma_decimal_text_len(scope_id as nat);
            lemma_number_text_ascii(port as nat, false);
            lemma_number_text_ascii(scope_id as nat, false);
            if scope_id != 0 {
                lemma_ascii_joined(seq![PERCENT], decimal_text(scope_id as nat));
            }
            lemma_ascii_joined(open, t6);
            lemma_ascii_joined(open + t6, scope);
            lemma_ascii_joined(open + t6 + scope, close);
            lemma_ascii_joined(open + t6 + scope + close, tp);
        },
    }
}

} // verus!
