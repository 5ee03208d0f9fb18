//! The upstream of the resolver: `[scheme "://"] ip:port`, the scheme one
//! of `tcp` and `udp` in any case, `udp` where none is given.

use vstd::prelude::*;
use vstd::string::*;
use vstd::utf8::{encode_utf8, is_char_boundary, valid_utf8};
use crate::ascii::{eq_ignore_ascii_case, lower, to_lower};
use crate::net::addr::SocketAddr;
use crate::net::display::{as_chars, is_ascii_text, lemma_ascii_encoding, push_socket_addr, socket_addr_text};
use crate::net::grammar::parse_socket_addr;
use crate::net::laws::{lemma_ascii_joined, lemma_parse_socket_addr_text, lemma_socket_addr_text_ascii};

verus! {

/// The longest text that is looked at, in bytes.
pub const MAX_LENGTH: usize = 300;

/// Why a text is no destination.
#[derive(Debug, PartialEq, Eq)]
pub enum Error {
    /// What stands behind the scheme is no `IP:PORT`; holds that part.
    InvalidSocketAddr(String),
    /// The scheme is neither `tcp` nor `udp`; holds the scheme.
    InvalidPrefix(String),
    /// The text is longer than `MAX_LENGTH` bytes.
    TooLong,
    /// The text is empty.
    Empty,
}

/// An `Error` over the bytes of the text that it holds.
pub enum Rejection {
    InvalidSocketAddr(Seq<u8>),
    InvalidPrefix(Seq<u8>),
    TooLong,
    Empty,
}

impl View for Error {
    type V = Rejection;

    open spec fn view(&self) -> Rejection {
        match self {
            Error::InvalidSocketAddr(s) => Rejection::InvalidSocketAddr(encode_utf8(s@)),
            Error::InvalidPrefix(s) => Rejection::InvalidPrefix(encode_utf8(s@)),
            Error::TooLong => Rejection::TooLong,
            Error::Empty => Rejection::Empty,
        }
    }
}

/// Where the resolver sends its queries, and over which transport.
#[derive(Clone, Copy, Debug, PartialEq, Eq)]
pub enum DnsDestination {
    Udp(SocketAddr),
    Tcp(SocketAddr),
}

/// `tcp`
pub open spec fn tcp_word() -> Seq<u8> {
    seq![116u8, 99u8, 112u8]
}

/// `udp`
pub open spec fn udp_word() -> Seq<u8> {
    seq![117u8, 100u8, 112u8]
}

/// `://`
pub open spec fn separator() -> Seq<u8> {
    seq![58u8, 47u8, 47u8]
}

/// Whether `://` stands at position `i`.
pub open spec fn separator_at(s: Seq<u8>, i: int) -> bool {
    0 <= i && i + 3 <= s.len() && s[i] == 58 && s[i + 1] == 47 && s[i + 2] == 47
}

/// The first position from `i` on at which `://` stands.
pub open spec fn find_separator(s: Seq<u8>, i: int) -> Option<int>
    decreases s.len() - i,
{
    if i < 0 || i + 3 > s.len() {
        None
    } else if separator_at(s, i) {
        Some(i)
    } else {
        find_separator(s, i + 1)
    }
}

/// The address that `s` denotes, or the text as the reason why it
/// denotes none.
pub open spec fn parse_addr(s: Seq<u8>) -> Result<SocketAddr, Rejection> {
    match parse_socket_addr(s) {
        Some(addr) => Ok(addr),
        None => Err(Rejection::InvalidSocketAddr(s)),
    }
}

/// The destination of the scheme `prefix` and the address text `rest`.
pub open spec fn with_scheme(prefix: Seq<u8>, rest: Seq<u8>) -> Result<DnsDestination, Rejection> {
    if eq_ignore_ascii_case(prefix, tcp_word()) {
        match parse_addr(rest) {
            Ok(addr) => Ok(DnsDestination::Tcp(addr)),
            Err(e) => Err(e),
        }
    } else if eq_ignore_ascii_case(prefix, udp_word()) {
        match parse_addr(rest) {
            Ok(addr) => Ok(DnsDestination::Udp(addr)),
            Err(e) => Err(e),
        }
    } else {
        Err(Rejection::InvalidPrefix(prefix))
    }
}

/// The destination that a text denotes, or why it denotes none.
///
/// The text is cut at the first `://`. What stands before is the scheme;
/// what stands behind, or the whole text where there is no `://`, is the
/// address.
pub open spec fn parse_destination(s: Seq<u8>) -> Result<DnsDestination, Rejection> {
    if s.len() > MAX_LENGTH {
        Err(Rejection::TooLong)
    } else if s.len() == 0 {
        Err(Rejection::Empty)
    } else {
        match find_separator(s, 0) {
            Some(k) => with_scheme(s.subrange(0, k), s.subrange(k + 3, s.len() as int)),
            None => match parse_addr(s) {
                Ok(addr) => Ok(DnsDestination::Udp(addr)),
                Err(e) => Err(e),
            },
        }
    }
}

/// The canonical text of a destination: the scheme, `://` and the
/// address.
pub open spec fn destination_text(d: DnsDestination) -> Seq<u8> {
    match d {
        DnsDestination::Udp(addr) => udp_word() + separator() + socket_addr_text(addr),
        DnsDestination::Tcp(addr) => tcp_word() + separator() + socket_addr_text(addr),
    }
}

/// A parser's result as the specification writes it.
pub open spec fn outcome(r: Result<DnsDestination, Error>) -> Result<DnsDestination, Rejection> {
    match r {
        Ok(d) => Ok(d),
        Err(e) => Err(e@),
    }
}

/// Whether `p` is the three-letter word `a b c`, in any case.
fn is_word(p: &[u8], a: u8, b: u8, c: u8) -> (r: bool)
    ensures
        r == eq_ignore_ascii_case(p@, seq![a, b, c]),
{
    let ghost word = seq![a, b, c];
    if p.len() != 3 {
        return false;
    }
    let r = lower(p[0]) == lower(a) && lower(p[1]) == lower(b) && lower(p[2]) == lower(c);
    proof {
        if !r {
            assert(word[0] == a && word[1] == b && word[2] == c);
        }
    }
    r
}

fn locate_separator(s: &[u8]) -> (r: Option<usize>)
    ensures
        match r {
            Some(k) => find_separator(s@, 0) == Some(k as int) && separator_at(s@, k as int),
            None => find_separator(s@, 0) is None,
        },
{
    let n = s.len();
    if n < 3 {
        return None;
    }
    let mut i: usize = 0;
    while i <= n - 3
        invariant
            n == s.len(),
            n >= 3,
            i <= n - 2,
            find_separator(s@, 0) == find_separator(s@, i as int),
        decreases n - i,
    {
        if s[i] == 58 && s[i + 1] == 47 && s[i + 2] == 47 {
            return Some(i);
        }
        i += 1;
    }
    None
}

/// In valid UTF-8 a character ends behind every run of ASCII bytes at
/// the start.
proof fn lemma_boundary_behind_ascii(bytes: Seq<u8>, n: int)
    requires
        valid_utf8(bytes),
        0 <= n <= bytes.len(),
        forall|k: int| 0 <= k < n ==> bytes[k] < 128,
    ensures
        is_char_boundary(bytes, n),
    decreases n,
{
    if n > 0 {
        let b = bytes[0];
        assert(b & 0x80 == 0) by (bit_vector)
            requires
                b < 128,
        ;
        let rest = vstd::utf8::pop_first_scalar(bytes);
        assert(rest =~= bytes.subrange(1, bytes.len() as int));
        assert forall|k: int| 0 <= k < n - 1 implies rest[k] < 128 by {
            assert(rest[k] == bytes[k + 1]);
        }
        lemma_boundary_behind_ascii(rest, n - 1);
    }
}

fn parse_addr_str(s: &str) -> (r: Result<SocketAddr, Error>)
    ensures
        match r {
            Ok(addr) => parse_addr(s.spec_bytes()) == Ok::<SocketAddr, Rejection>(addr),
            Err(e) => parse_addr(s.spec_bytes()) == Err::<SocketAddr, Rejection>(e@),
        },
{
    match SocketAddr::from_str(s) {
        Some(addr) => Ok(addr),
        None => Err(Error::InvalidSocketAddr(s.to_owned())),
    }
}

/// Cuts a text at a `://` that stands at byte `k`: what is before it, and
/// what is behind it.
fn cut(s: &str, k: usize) -> (r: (&str, &str))
    requires
        separator_at(s.spec_bytes(), k as int),
    ensures
        r.0.spec_bytes() == s.spec_bytes().subrange(0, k as int),
        r.1.spec_bytes() == s.spec_bytes().subrange(k + 3, s.spec_bytes().len() as int),
{
    proof {
        vstd::utf8::encode_utf8_valid_utf8(s@);
        vstd::utf8::is_char_boundary_iff_not_is_continuation_byte(s.spec_bytes(), k as int);
        assert(!vstd::utf8::is_continuation_byte(58u8)) by (bit_vector);
    }
    let (prefix, tail) = s.split_at(k);
    proof {
        vstd::utf8::encode_utf8_valid_utf8(tail@);
        lemma_boundary_behind_ascii(tail.spec_bytes(), 3);
    }
    let (_, rest) = tail.split_at(3);
    assert(rest.spec_bytes() =~= s.spec_bytes().subrange(k + 3, s.spec_bytes().len() as int));
    (prefix, rest)
}

fn parse_with_scheme(prefix: &str, rest: &str) -> (r: Result<DnsDestination, Error>)
    ensures
        outcome(r) == with_scheme(prefix.spec_bytes(), rest.spec_bytes()),
{
    let word = prefix.as_bytes();
    if is_word(word, 116, 99, 112) {
        match parse_addr_str(rest) {
            Ok(addr) => Ok(DnsDestination::Tcp(addr)),
            Err(e) => Err(e),
        }
    } else if is_word(word, 117, 100, 112) {
        match parse_addr_str(rest) {
            Ok(addr) => Ok(DnsDestination::Udp(addr)),
            Err(e) => Err(e),
        }
    } else {
        Err(Error::InvalidPrefix(prefix.to_owned()))
    }
}

impl DnsDestination {
    /// Reads a destination from its text.
    pub fn from_str(s: &str) -> (r: Result<DnsDestination, Error>)
        ensures
            outcome(r) == parse_destination(s.spec_bytes()),
    {
        let bytes = s.as_bytes();
        if bytes.len() > MAX_LENGTH {
            return Err(Error::TooLong);
        }
        if bytes.len() == 0 {
            return Err(Error::Empty);
        }
        match locate_separator(bytes) {
            Some(k) => {
                let (prefix, rest) = cut(s, k);
                parse_with_scheme(prefix, rest)
            },
            None => match parse_addr_str(s) {
                Ok(addr) => Ok(DnsDestination::Udp(addr)),
                Err(e) => Err(e),
            },
        }
    }

    /// Reads a destination from an owned text.
    pub fn try_from(value: String) -> (r: Result<DnsDestination, Error>)
        ensures
            outcome(r) == parse_destination(encode_utf8(value@)),
    {
        Self::from_str(value.as_str())
    }

    /// The canonical text: the scheme is always written.
    pub fn to_string(&self) -> (r: String)
        ensures
            r@ == as_chars(destination_text(*self)),
            encode_utf8(r@) == destination_text(*self),
    {
        proof {
            reveal_strlit("udp://");
            reveal_strlit("tcp://");
            lemma_destination_text(*self);
            lemma_ascii_encoding(destination_text(*self));
        }
        let mut out = String::new();
        match self {
            DnsDestination::Udp(addr) => {
                out.append("udp://");
                push_socket_addr(&mut out, addr);
            },
            DnsDestination::Tcp(addr) => {
                out.append("tcp://");
                push_socket_addr(&mut out, addr);
            },
        }
        assert(out@ =~= as_chars(destination_text(*self)));
        out
    }
}

/// The canonical text is ASCII, not empty and within the length that the
/// parser accepts.
pub proof fn lemma_destination_text(d: DnsDestination)
    ensures
        is_ascii_text(destination_text(d)),
        0 < destination_text(d).len() <= MAX_LENGTH,
{
    match d {
        DnsDestination::Udp(addr) => {
            lemma_socket_addr_text_ascii(addr);
            lemma_ascii_joined(udp_word(), separator());
            lemma_ascii_joined(udp_word() + separator(), socket_addr_text(addr));
        },
        DnsDestination::Tcp(addr) => {
            lemma_socket_addr_text_ascii(addr);
            lemma_ascii_joined(tcp_word(), separator());
            lemma_ascii_joined(tcp_word() + separator(), socket_addr_text(addr));
        },
    }
}

/// A text made of a three-letter word, `://` and more is cut behind the
/// word, for the word holds no colon.
proof fn lemma_cut(word: Seq<u8>, rest: Seq<u8>)
    requires
        word.len() == 3,
        word[0] != 58 && word[1] != 58 && word[2] != 58,
    ensures
        find_separator(word + separator() + rest, 0) == Some(3int),
        (word + separator() + rest).subrange(0, 3) == word,
        (word + separator() + rest).subrange(6, (word + separator() + rest).len() as int) == rest,
{
    let s = word + separator() + rest;
    reveal_with_fuel(find_separator, 5);
    assert(s[0] == word[0] && s[1] == word[1] && s[2] == word[2]);
    assert(s[3] == 58 && s[4] == 47 && s[5] == 47);
    assert(find_separator(s, 0) == Some(3int));
    assert(s.subrange(0, 3) =~= word);
    assert(s.subrange(6, s.len() as int) =~= rest);
}

/// A scheme and a text that denotes an address give the destination of
/// that scheme and address.
proof fn lemma_with_scheme(tcp: bool, text: Seq<u8>, addr: SocketAddr)
    requires
        parse_socket_addr(text) == Some(addr),
    ensures
        tcp ==> with_scheme(tcp_word(), text) == Ok::<DnsDestination, Rejection>(
            DnsDestination::Tcp(addr),
        ),
        !tcp ==> with_scheme(udp_word(), text) == Ok::<DnsDestination, Rejection>(
            DnsDestination::Udp(addr),
        ),
{
    assert(!eq_ignore_ascii_case(udp_word(), tcp_word())) by {
        assert(to_lower(udp_word()[0]) != to_lower(tcp_word()[0]));
    }
    assert(eq_ignore_ascii_case(udp_word(), udp_word()));
    assert(eq_ignore_ascii_case(tcp_word(), tcp_word()));
}

/// A scheme, `://` and a text that denotes an address denote the
/// destination of that scheme and address.
proof fn lemma_scheme_and_addr(tcp: bool, text: Seq<u8>, addr: SocketAddr)
    requires
        parse_socket_addr(text) == Some(addr),
        text.len() <= 58,
    ensures
        parse_destination(
            (if tcp {
                tcp_word()
            } else {
                udp_word()
            }) + separator() + text,
        ) == Ok::<DnsDestination, Rejection>(
            if tcp {
                DnsDestination::Tcp(addr)
            } else {
                DnsDestination::Udp(addr)
            },
        ),
{
    let word = if tcp {
        tcp_word()
    } else {
        udp_word()
    };
    let s = word + separator() + text;
    lemma_cut(word, text);
    lemma_with_scheme(tcp, text, addr);
    assert(s.len() == 6 + text.len());
}

/// Writing a destination and reading the text gives the destination
/// back.
pub proof fn lemma_text_denotes(d: DnsDestination)
    ensures
        parse_destination(destination_text(d)) == Ok::<DnsDestination, Rejection>(d),
{
    match d {
        DnsDestination::Udp(addr) => {
            lemma_socket_addr_text_ascii(addr);
            lemma_parse_socket_addr_text(addr);
            lemma_scheme_and_addr(false, socket_addr_text(addr), addr);
        },
        DnsDestination::Tcp(addr) => {
            lemma_socket_addr_text_ascii(addr);
            lemma_parse_socket_addr_text(addr);
            lemma_scheme_and_addr(true, socket_addr_text(addr), addr);
        },
    }
}

/// For every text that denotes a destination, the canonical text of that
/// destination denotes it too: reading, writing and reading again gives
/// what the first reading gave.
pub proof fn lemma_round_trip(input: Seq<u8>)
    requires
        parse_destination(input) is Ok,
    ensures
        parse_destination(destination_text(parse_destination(input)->Ok_0)) == parse_destination(
            input,
        ),
{
    lemma_text_denotes(parse_destination(input)->Ok_0);
}

} // verus!
