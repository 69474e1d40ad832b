//! Internet addresses and the way they are written.
//!
//! Version 4 is written as four decimal numbers with dots between them.
//! Version 6 is written as eight hexadecimal groups with colons between
//! them, the longest run of two or more zero groups shortened to `::`; an
//! address that stands for one of version 4 ends in dotted decimal.

use crate::text::{decimal, decimal_text, hexadecimal, hexadecimal_text, join, join_text};
use vstd::prelude::*;
use vstd::string::StringExecFns;

verus! {

/// An internet address: the four bytes of version 4, or the eight groups
/// of version 6.
#[derive(Clone, Copy, Debug, PartialEq, Eq)]
pub enum Address {
    V4([u8; 4]),
    V6([u16; 8]),
}

/// The parts of a version 4 address, each in decimal.
pub open spec fn decimal_parts(bytes: Seq<u8>) -> Seq<Seq<char>> {
    Seq::new(bytes.len(), |i: int| decimal(bytes[i] as nat))
}

/// The groups of a version 6 address, each in hexadecimal.
pub open spec fn hex_parts(groups: Seq<u16>) -> Seq<Seq<char>> {
    Seq::new(groups.len(), |i: int| hexadecimal(groups[i] as nat))
}

/// Dotted decimal.
pub open spec fn dotted(bytes: Seq<u8>) -> Seq<char> {
    join(decimal_parts(bytes), seq!['.'])
}

/// Groups with colons between them.
pub open spec fn coloned(groups: Seq<u16>) -> Seq<char> {
    join(hex_parts(groups), seq![':'])
}

/// How many zero groups follow one another from place `at` on.
pub open spec fn zeros_from(groups: Seq<u16>, at: int) -> int
    decreases groups.len() - at,
{
    if 0 <= at < groups.len() && groups[at] == 0 {
        1 + zeros_from(groups, at + 1)
    } else {
        0
    }
}

/// The place before `upto` from which the most zero groups follow one
/// another: the first such place where several are alike.
pub open spec fn longest_zeros(groups: Seq<u16>, upto: int) -> int
    decreases upto,
{
    if upto <= 1 {
        0
    } else {
        let best = longest_zeros(groups, upto - 1);
        if zeros_from(groups, upto - 1) > zeros_from(groups, best) {
            upto - 1
        } else {
            best
        }
    }
}

/// The address stands for one of version 4: five zero groups, then one of
/// all ones.
pub open spec fn is_mapped(groups: Seq<u16>) -> bool {
    &&& groups.len() == 8
    &&& groups[0] == 0
    &&& groups[1] == 0
    &&& groups[2] == 0
    &&& groups[3] == 0
    &&& groups[4] == 0
    &&& groups[5] == 0xffff
}

/// The version 4 address that the last two groups hold.
pub open spec fn mapped_bytes(groups: Seq<u16>) -> Seq<u8> {
    seq![
        (groups[6] / 256) as u8,
        (groups[6] % 256) as u8,
        (groups[7] / 256) as u8,
        (groups[7] % 256) as u8,
    ]
}

/// What `::ffff:` is made of.
pub open spec fn mapped_prefix() -> Seq<char> {
    seq![':', ':', 'f', 'f', 'f', 'f', ':']
}

/// How a version 6 address is written.
pub open spec fn grouped(groups: Seq<u16>) -> Seq<char> {
    if is_mapped(groups) {
        mapped_prefix() + dotted(mapped_bytes(groups))
    } else {
        let start = longest_zeros(groups, groups.len() as int);
        let run = zeros_from(groups, start);
        if run > 1 {
            coloned(groups.take(start)) + seq![':', ':'] + coloned(groups.skip(start + run))
        } else {
            coloned(groups)
        }
    }
}

/// How an address is written.
pub open spec fn address_text(address: Address) -> Seq<char> {
    match address {
        Address::V4(bytes) => dotted(bytes@),
        Address::V6(groups) => grouped(groups@),
    }
}

/// How each of the addresses is written.
pub open spec fn address_texts(addresses: Seq<Address>) -> Seq<Seq<char>> {
    Seq::new(addresses.len(), |i: int| address_text(addresses[i]))
}

/// Writes four bytes in dotted decimal.
fn dotted_text(bytes: &[u8; 4]) -> (out: String)
    ensures
        out@ == dotted(bytes@),
{
    proof {
        reveal_strlit(".");
    }
    let mut parts: Vec<String> = Vec::new();
    let mut i: usize = 0;
    while i < 4
        invariant
            i <= 4,
            parts.len() == i,
            forall|j: int| 0 <= j < i ==> (#[trigger] parts[j])@ == decimal(bytes@[j] as nat),
        decreases 4 - i,
    {
        let byte: u8 = bytes[i];
        parts.push(decimal_text(byte as u128));
        i += 1;
    }
    assert(parts.deep_view() =~= decimal_parts(bytes@));
    assert("."@ =~= seq!['.']);
    join_text(&parts, ".")
}

/// Writes the groups from `from` up to `to` with colons between them.
fn coloned_text(groups: &[u16; 8], from: usize, to: usize) -> (out: String)
    requires
        from <= to <= 8,
    ensures
        out@ == coloned(groups@.subrange(from as int, to as int)),
{
    proof {
        reveal_strlit(":");
    }
    let ghost part: Seq<u16> = groups@.subrange(from as int, to as int);
    let mut parts: Vec<String> = Vec::new();
    let mut i: usize = from;
    while i < to
        invariant
            from <= i <= to <= 8,
            part == groups@.subrange(from as int, to as int),
            parts.len() == i - from,
            forall|j: int|
                0 <= j < i - from ==> (#[trigger] parts[j])@ == hexadecimal(part[j] as nat),
        decreases to - i,
    {
        let group: u16 = groups[i];
        assert(part[i - from] == group);
        parts.push(hexadecimal_text(group as u128));
        i += 1;
    }
    assert(parts.deep_view() =~= hex_parts(part));
    assert(":"@ =~= seq![':']);
    join_text(&parts, ":")
}

/// Counts the zero groups that follow one another from place `at` on.
fn count_zeros(groups: &[u16; 8], at: usize) -> (run: usize)
    requires
        at < 8,
    ensures
        run == zeros_from(groups@, at as int),
        at + run <= 8,
{
    let mut to: usize = at;
    while to < 8 && groups[to] == 0
        invariant
            at <= to <= 8,
            zeros_from(groups@, at as int) == (to - at) + zeros_from(groups@, to as int),
        decreases 8 - to,
    {
        to += 1;
    }
    to - at
}

/// Finds the first longest run of zero groups: its place and its length.
fn find_zeros(groups: &[u16; 8]) -> (found: (usize, usize))
    ensures
        found.0 == longest_zeros(groups@, 8),
        found.1 == zeros_from(groups@, found.0 as int),
        found.0 + found.1 <= 8,
{
    let mut start: usize = 0;
    let mut run: usize = count_zeros(groups, 0);
    let mut at: usize = 1;
    while at < 8
        invariant
            1 <= at <= 8,
            start < at,
            start == longest_zeros(groups@, at as int),
            run == zeros_from(groups@, start as int),
            start + run <= 8,
        decreases 8 - at,
    {
        let here: usize = count_zeros(groups, at);
        if here > run {
            start = at;
            run = here;
        }
        at += 1;
    }
    (start, run)
}

/// Writes the eight groups of a version 6 address.
fn grouped_text(groups: &[u16; 8]) -> (out: String)
    ensures
        out@ == grouped(groups@),
{
    proof {
        reveal_strlit("::ffff:");
        reveal_strlit("::");
    }
    if groups[0] == 0 && groups[1] == 0 && groups[2] == 0 && groups[3] == 0 && groups[4] == 0
        && groups[5] == 0xffff {
        let bytes: [u8; 4] = [
            (groups[6] / 256) as u8,
            (groups[6] % 256) as u8,
            (groups[7] / 256) as u8,
            (groups[7] % 256) as u8,
        ];
        assert(bytes@ =~= mapped_bytes(groups@));
        let mut out: String = String::from_str("::ffff:");
        assert(out@ =~= mapped_prefix());
        let tail: String = dotted_text(&bytes);
        out.append(tail.as_str());
        out
    } else {
        let (start, run) = find_zeros(groups);
        if run > 1 {
            let mut out: String = coloned_text(groups, 0, start);
            let tail: String = coloned_text(groups, start + run, 8);
            assert(groups@.subrange(0, start as int) =~= groups@.take(start as int));
            assert(groups@.subrange(start + run, 8) =~= groups@.skip(start + run));
            out.append("::");
            out.append(tail.as_str());
            assert("::"@ =~= seq![':', ':']);
            out
        } else {
            assert(groups@.subrange(0, 8) =~= groups@);
            coloned_text(groups, 0, 8)
        }
    }
}

impl Address {
    /// Writes the address.
    pub fn text(&self) -> (out: String)
        ensures
            out@ == address_text(*self),
    {
        match self {
            Address::V4(bytes) => dotted_text(bytes),
            Address::V6(groups) => grouped_text(groups),
        }
    }
}

} // verus!
