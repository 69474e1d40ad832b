//! The name server a run asks: the system's own, or one given as `ip` or
//! `ip:port`, the address in dotted decimal and the port 53 where none is
//! written.

use crate::text::chars_of;
use vstd::prelude::*;

verus! {

/// The port a name server listens on where none is written.
pub const DEFAULT_PORT: u16 = 53;

/// Where a name server listens.
#[derive(Clone, Copy, Debug, PartialEq, Eq)]
pub struct NameServer {
    pub ip: [u8; 4],
    pub port: u16,
}

impl View for NameServer {
    type V = (Seq<u8>, u16);

    open spec fn view(&self) -> (Seq<u8>, u16) {
        (self.ip@, self.port)
    }
}

/// Which part of a written name server is wrong.
#[derive(Clone, Copy, Debug, PartialEq, Eq)]
pub enum ServerError {
    /// What follows the colon is no port.
    Port,
    /// What stands before the colon is no address.
    Address,
}

/// Whom a run asks for addresses.
#[derive(Clone, Copy, Debug, PartialEq, Eq)]
pub enum ResolverChoice {
    /// Whatever the host system is set up to ask.
    System,
    /// This server alone.
    Server(NameServer),
}

/// One of the ten decimal digits.
pub open spec fn is_digit(c: char) -> bool {
    '0' <= c && c <= '9'
}

/// Decimal digits throughout.
pub open spec fn all_digits(s: Seq<char>) -> bool {
    forall|k: int| 0 <= k < s.len() ==> is_digit(#[trigger] s[k])
}

/// The number that one decimal digit writes.
pub open spec fn digit_value(c: char) -> nat {
    (c as nat - 48) as nat
}

/// The number that the decimal digits `s` write.
pub open spec fn number(s: Seq<char>) -> nat
    decreases s.len(),
{
    if s.len() == 0 {
        0
    } else {
        number(s.drop_last()) * 10 + digit_value(s.last())
    }
}

/// How many characters stand before the first `c` in `s`: all of them
/// where `s` holds no `c`.
pub open spec fn offset(s: Seq<char>, c: char) -> int
    decreases s.len(),
{
    if s.len() == 0 || s[0] == c {
        0
    } else {
        1 + offset(s.skip(1), c)
    }
}

/// The pieces of `s` between its separators, empty ones included.
pub open spec fn fields(s: Seq<char>, sep: char) -> Seq<Seq<char>>
    decreases s.len(),
{
    let i = offset(s, sep);
    if 0 <= i < s.len() {
        seq![s.take(i)] + fields(s.skip(i + 1), sep)
    } else {
        seq![s]
    }
}

/// A port: decimal digits, a `+` before them or not, no more than 65535.
pub open spec fn port_of(s: Seq<char>) -> Option<u16> {
    if s.len() > 0 && s[0] == '+' {
        unsigned_port(s.skip(1))
    } else {
        unsigned_port(s)
    }
}

/// A port without sign: decimal digits, no more than 65535.
pub open spec fn unsigned_port(digits: Seq<char>) -> Option<u16> {
    if digits.len() > 0 && all_digits(digits) && number(digits) <= 65535 {
        Some(number(digits) as u16)
    } else {
        None
    }
}

/// One part of an address: one to three decimal digits, no zero before
/// another digit, no more than 255.
pub open spec fn octet_of(s: Seq<char>) -> Option<u8> {
    if 1 <= s.len() <= 3 && all_digits(s) && (s.len() == 1 || s[0] != '0') && number(s) <= 255 {
        Some(number(s) as u8)
    } else {
        None
    }
}

/// An address in dotted decimal: four parts with a dot between each two.
pub open spec fn quad_of(s: Seq<char>) -> Option<Seq<u8>> {
    let parts = fields(s, '.');
    if parts.len() == 4 && forall|k: int| 0 <= k < 4 ==> octet_of(#[trigger] parts[k]) is Some {
        Some(Seq::new(4, |k: int| octet_of(parts[k]).unwrap()))
    } else {
        None
    }
}

/// The name server that `s` writes. The first colon parts address and port;
/// a port that is wrong is reported before an address that is.
pub open spec fn server_of(s: Seq<char>) -> Result<(Seq<u8>, u16), ServerError> {
    let i = offset(s, ':');
    let port = if 0 <= i < s.len() {
        port_of(s.skip(i + 1))
    } else {
        Some(DEFAULT_PORT)
    };
    match port {
        None => Err(ServerError::Port),
        Some(p) => match quad_of(s.take(i)) {
            None => Err(ServerError::Address),
            Some(ip) => Ok((ip, p)),
        },
    }
}

/// Whom to ask, given what was written, if anything was.
pub open spec fn choice_of(written: Option<Seq<char>>) -> Result<
    Option<(Seq<u8>, u16)>,
    ServerError,
> {
    match written {
        None => Ok(None),
        Some(s) => match server_of(s) {
            Ok(server) => Ok(Some(server)),
            Err(e) => Err(e),
        },
    }
}

/// What is written, as characters.
pub open spec fn written_view(written: Option<&str>) -> Option<Seq<char>> {
    match written {
        None => None,
        Some(text) => Some(text@),
    }
}

/// The model of what [`parse_name_server`] returns.
pub open spec fn server_view(r: Result<NameServer, ServerError>) -> Result<
    (Seq<u8>, u16),
    ServerError,
> {
    match r {
        Ok(server) => Ok(server@),
        Err(e) => Err(e),
    }
}

/// The model of what [`choose_resolver`] returns.
pub open spec fn choice_view(r: Result<ResolverChoice, ServerError>) -> Result<
    Option<(Seq<u8>, u16)>,
    ServerError,
> {
    match r {
        Ok(choice) => Ok(choice@),
        Err(e) => Err(e),
    }
}

impl View for ResolverChoice {
    type V = Option<(Seq<u8>, u16)>;

    open spec fn view(&self) -> Option<(Seq<u8>, u16)> {
        match self {
            ResolverChoice::System => None,
            ResolverChoice::Server(server) => Some(server@),
        }
    }
}

/// `offset` is the place of the first `c`, or the length.
pub proof fn lemma_offset_is(s: Seq<char>, c: char, i: int)
    requires
        0 <= i <= s.len(),
        forall|j: int| 0 <= j < i ==> s[j] != c,
        i < s.len() ==> s[i] == c,
    ensures
        offset(s, c) == i,
    decreases s.len(),
{
    if i > 0 {
        let rest = s.skip(1);
        assert forall|j: int| 0 <= j < i - 1 implies rest[j] != c by {
            assert(rest[j] == s[j + 1]);
        }
        lemma_offset_is(rest, c, i - 1);
    }
}

/// Something always lies between separators, be it empty.
proof fn lemma_fields_some(s: Seq<char>, sep: char)
    ensures
        fields(s, sep).len() >= 1,
    decreases s.len(),
{
    let i = offset(s, sep);
    if 0 <= i < s.len() {
        lemma_fields_some(s.skip(i + 1), sep);
    }
}

/// The first place from `from` and before `to` that holds `c`: `to` where
/// none does.
fn find(chars: &Vec<char>, from: usize, to: usize, c: char) -> (at: usize)
    requires
        from <= to <= chars.len(),
    ensures
        from <= at <= to,
        at - from == offset(chars@.subrange(from as int, to as int), c),
{
    let mut at: usize = from;
    while at < to && chars[at] != c
        invariant
            from <= at <= to <= chars.len(),
            forall|j: int| from <= j < at ==> chars[j] != c,
        decreases to - at,
    {
        at += 1;
    }
    proof {
        lemma_offset_is(chars@.subrange(from as int, to as int), c, at - from);
    }
    at
}

/// Reads the port written from `from` to the end.
fn port(chars: &Vec<char>, from: usize) -> (r: Option<u16>)
    requires
        from <= chars.len(),
    ensures
        r == port_of(chars@.skip(from as int)),
{
    let ghost written: Seq<char> = chars@.skip(from as int);
    let mut i: usize = from;
    if i < chars.len() && chars[i] == '+' {
        i += 1;
    }
    let start: usize = i;
    let ghost digits: Seq<char> = chars@.skip(start as int);
    proof {
        if start > from {
            assert(written[0] == '+');
            assert(digits =~= written.skip(1));
        } else {
            if written.len() > 0 {
                assert(written[0] == chars[from as int]);
            }
            assert(digits =~= written);
        }
    }
    if start == chars.len() {
        return None;
    }
    let mut value: u32 = 0;
    let mut over: bool = false;
    while i < chars.len()
        invariant
            start <= i <= chars.len(),
            digits == chars@.skip(start as int),
            port_of(chars@.skip(from as int)) == unsigned_port(digits),
            all_digits(digits.take(i - start)),
            over ==> number(digits.take(i - start)) > 65535,
            !over ==> value == number(digits.take(i - start)) && value <= 65535,
        decreases chars.len() - i,
    {
        let c: char = chars[i];
        proof {
            assert(digits.take(i - start + 1).drop_last() =~= digits.take(i - start));
            assert(digits.take(i - start + 1).last() == c);
        }
        if !('0' <= c && c <= '9') {
            proof {
                assert(digits[i - start] == c);
            }
            return None;
        }
        if !over {
            value = value * 10 + (c as u32 - '0' as u32);
            if value > 65535 {
                over = true;
            }
        }
        i += 1;
    }
    proof {
        assert(digits.take(i - start) =~= digits);
    }
    if over {
        None
    } else {
        Some(value as u16)
    }
}

/// Reads the part of an address written from `from` up to `to`.
fn octet(chars: &Vec<char>, from: usize, to: usize) -> (r: Option<u8>)
    requires
        from <= to <= chars.len(),
    ensures
        r == octet_of(chars@.subrange(from as int, to as int)),
{
    let ghost part: Seq<char> = chars@.subrange(from as int, to as int);
    let len: usize = to - from;
    if len < 1 || len > 3 {
        return None;
    }
    if len > 1 && chars[from] == '0' {
        proof {
            assert(part[0] == '0');
        }
        return None;
    }
    let mut value: u32 = 0;
    let mut i: usize = from;
    while i < to
        invariant
            from <= i <= to <= chars.len(),
            to - from <= 3,
            part == chars@.subrange(from as int, to as int),
            all_digits(part.take(i - from)),
            value == number(part.take(i - from)),
            value <= 999,
            i - from <= 2 ==> value <= 99,
            i - from <= 1 ==> value <= 9,
            i == from ==> value == 0,
        decreases to - i,
    {
        let c: char = chars[i];
        proof {
            assert(part.take(i - from + 1).drop_last() =~= part.take(i - from));
            assert(part.take(i - from + 1).last() == c);
        }
        if !('0' <= c && c <= '9') {
            proof {
                assert(part[i - from] == c);
            }
            return None;
        }
        value = value * 10 + (c as u32 - '0' as u32);
        i += 1;
    }
    proof {
        assert(part.take(i - from) =~= part);
        if len > 1 {
            assert(part[0] == chars[from as int]);
        }
    }
    if value > 255 {
        None
    } else {
        Some(value as u8)
    }
}

/// Reads the dotted address written before `to`.
fn quad(chars: &Vec<char>, to: usize) -> (r: Option<[u8; 4]>)
    requires
        to <= chars.len(),
    ensures
        match r {
            Some(ip) => quad_of(chars@.take(to as int)) == Some(ip@),
            None => quad_of(chars@.take(to as int)) is None,
        },
{
    let ghost host: Seq<char> = chars@.take(to as int);
    let ghost parts: Seq<Seq<char>> = fields(host, '.');
    let ghost mut done: Seq<Seq<char>> = Seq::empty();
    let mut ip: [u8; 4] = [0u8; 4];
    let mut from: usize = 0;
    let mut n: usize = 0;
    proof {
        assert(host.skip(0) =~= host);
    }
    while n < 4
        invariant
            n <= 3,
            from <= to <= chars.len(),
            host == chars@.take(to as int),
            parts == fields(host, '.'),
            done.len() == n,
            parts == done + fields(host.skip(from as int), '.'),
            forall|k: int| 0 <= k < n ==> octet_of(#[trigger] done[k]) == Some(ip@[k]),
        decreases 4 - n,
    {
        let ghost rest: Seq<char> = host.skip(from as int);
        let dot: usize = find(chars, from, to, '.');
        let ghost part: Seq<char> = chars@.subrange(from as int, dot as int);
        proof {
            assert(chars@.subrange(from as int, to as int) =~= rest);
            assert(offset(rest, '.') == dot - from);
            if dot < to {
                assert(rest.take(dot - from) =~= part);
                assert(rest.skip(dot - from + 1) =~= host.skip(dot + 1));
                lemma_fields_some(host.skip(dot + 1), '.');
                assert(parts =~= done.push(part) + fields(host.skip(dot + 1), '.'));
            } else {
                assert(rest =~= part);
                assert(parts =~= done.push(part));
            }
            assert(parts[n as int] == part);
        }
        let value: u8 = match octet(chars, from, dot) {
            Some(value) => value,
            None => {
                return None;
            },
        };
        ip[n] = value;
        proof {
            done = done.push(part);
        }
        if dot == to {
            if n == 3 {
                proof {
                    assert(parts == done);
                    assert(ip@ =~= Seq::new(4, |k: int| octet_of(parts[k]).unwrap()));
                }
                return Some(ip);
            }
            return None;
        }
        if n == 3 {
            return None;
        }
        from = dot + 1;
        n += 1;
    }
    None
}

/// Reads a name server written as `ip` or `ip:port`.
pub fn parse_name_server(written: &str) -> (r: Result<NameServer, ServerError>)
    ensures
        server_view(r) == server_of(written@),
{
    let chars: Vec<char> = chars_of(written);
    let len: usize = chars.len();
    let colon: usize = find(&chars, 0, len, ':');
    proof {
        assert(chars@.subrange(0, len as int) =~= chars@);
    }
    let port: u16 = if colon < len {
        match port(&chars, colon + 1) {
            Some(port) => port,
            None => {
                return Err(ServerError::Port);
            },
        }
    } else {
        DEFAULT_PORT
    };
    match quad(&chars, colon) {
        Some(ip) => Ok(NameServer { ip, port }),
        None => Err(ServerError::Address),
    }
}

/// Whom to ask: the system's resolver where nothing is written, else the
/// server that is written, if it is written well.
pub fn choose_resolver(written: Option<&str>) -> (r: Result<ResolverChoice, ServerError>)
    ensures
        choice_view(r) == choice_of(written_view(written)),
{
    match written {
        None => Ok(ResolverChoice::System),
        Some(text) => match parse_name_server(text) {
            Ok(server) => Ok(ResolverChoice::Server(server)),
            Err(e) => Err(e),
        },
    }
}

} // verus!
