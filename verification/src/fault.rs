//! Diagnostic a fault handler emits before halting the execution group.
//!
//! When the execution environment signals an unrecoverable fault, the
//! handler writes one fixed banner, then — only when source-location
//! metadata is available — a suffix naming the originating file, line and
//! column, then a newline, and finally issues the halt. The handler runs
//! with no heap underneath it, so the file name is cut to a fixed bound
//! instead of being copied whole, and a NUL byte ends it early because the
//! output channel reads NUL as a terminator. These functions compute the
//! exact bytes of that diagnostic; writing them to the output channel and
//! issuing the halt instruction belong to the compilation target.

use vstd::prelude::*;

verus! {

/// Source location attached to a fault: the originating file name as raw
/// bytes, with the line and column numbers.
pub struct FaultLocation {
    pub file: Vec<u8>,
    pub line: u32,
    pub column: u32,
}

/// Longest file-name prefix the diagnostic prints, in bytes.
pub const FILE_NAME_CAP: usize = 63;

/// The part of `name` the diagnostic prints: at most `cap` bytes, ending
/// early at the first NUL byte.
pub open spec fn printed_name(name: Seq<u8>, cap: nat) -> Seq<u8>
    decreases name.len(),
{
    if cap == 0 || name.len() == 0 || name[0] == 0 {
        Seq::empty()
    } else {
        seq![name[0]] + printed_name(name.drop_first(), (cap - 1) as nat)
    }
}

/// The printed name is `name` cut exactly at the first stop: the cap, the
/// end of the name, or a NUL byte, whichever comes first.
proof fn lemma_printed_name_stops_at(name: Seq<u8>, cap: nat, stop: int)
    requires
        0 <= stop <= name.len(),
        stop <= cap,
        forall|k: int| 0 <= k < stop ==> name[k] != 0,
        stop == cap || stop == name.len() || name[stop] == 0,
    ensures
        printed_name(name, cap) == name.take(stop),
    decreases stop,
{
    if stop == 0 {
        assert(name.take(0) =~= Seq::<u8>::empty());
    } else {
        let rest = name.drop_first();
        lemma_printed_name_stops_at(rest, (cap - 1) as nat, stop - 1);
        assert(name.take(stop) =~= seq![name[0]] + rest.take(stop - 1));
    }
}

/// The printed name never overflows the bound: it holds at most `cap`
/// bytes, is a clean prefix of the name cut at a byte boundary, and holds no
/// NUL byte.
pub proof fn lemma_printed_name_bounded(name: Seq<u8>, cap: nat)
    ensures
        printed_name(name, cap).len() <= cap,
        printed_name(name, cap).len() <= name.len(),
        printed_name(name, cap) == name.take(printed_name(name, cap).len() as int),
        forall|k: int|
            0 <= k < printed_name(name, cap).len() ==> printed_name(name, cap)[k] != 0,
    decreases name.len(),
{
    if cap == 0 || name.len() == 0 || name[0] == 0 {
        assert(printed_name(name, cap) =~= name.take(0));
    } else {
        let rest = name.drop_first();
        lemma_printed_name_bounded(rest, (cap - 1) as nat);
        let tail = printed_name(rest, (cap - 1) as nat);
        assert(seq![name[0]] + rest.take(tail.len() as int) =~= name.take(tail.len() as int + 1));
    }
}

/// Prefix of `name` that the diagnostic prints, cut to
/// [`FILE_NAME_CAP`] bytes and ended at the first NUL byte.
pub fn truncated_file_name(name: &Vec<u8>) -> (out: Vec<u8>)
    ensures
        out@ == printed_name(name@, FILE_NAME_CAP as nat),
{
    let mut out: Vec<u8> = Vec::new();
    let mut i: usize = 0;
    while i < name.len() && i < FILE_NAME_CAP && name[i] != 0
        invariant
            i <= name@.len(),
            i <= FILE_NAME_CAP,
            out@ == name@.take(i as int),
            forall|k: int| 0 <= k < i ==> name@[k] != 0,
        decreases name@.len() - i,
    {
        out.push(name[i]);
        assert(out@ =~= name@.take(i + 1));
        i = i + 1;
    }
    proof {
        lemma_printed_name_stops_at(name@, FILE_NAME_CAP as nat, i as int);
    }
    out
}

/// Decimal digits of `n`, most significant first, as ASCII bytes.
pub open spec fn decimal_digits(n: nat) -> Seq<u8>
    decreases n,
{
    if n < 10 {
        seq![(48 + n) as u8]
    } else {
        decimal_digits(n / 10) + seq![(48 + n % 10) as u8]
    }
}

/// Decimal rendering of a 32-bit number, most significant digit first.
pub fn u32_decimal(n: u32) -> (out: Vec<u8>)
    ensures
        out@ == decimal_digits(n as nat),
    decreases n,
{
    if n < 10 {
        let mut out: Vec<u8> = Vec::new();
        out.push(48 + n as u8);
        assert(out@ =~= decimal_digits(n as nat));
        out
    } else {
        let mut out: Vec<u8> = u32_decimal(n / 10);
        out.push(48 + (n % 10) as u8);
        assert(out@ =~= decimal_digits(n as nat));
        out
    }
}

/// Powers of ten, for bounding decimal renderings.
pub open spec fn pow10(k: nat) -> nat
    decreases k,
{
    if k == 0 {
        1
    } else {
        10 * pow10((k - 1) as nat)
    }
}

/// A number below `10^k` renders to at most `k` decimal digits.
proof fn lemma_decimal_digits_len(n: nat, k: nat)
    requires
        1 <= k,
        n < pow10(k),
    ensures
        decimal_digits(n).len() <= k,
    decreases k,
{
    if n < 10 {
    } else {
        assert(pow10(k) == 10 * pow10((k - 1) as nat));
        lemma_decimal_digits_len(n / 10, (k - 1) as nat);
    }
}

/// Largest number of bytes any diagnostic holds: the banner, the longest
/// location suffix — a file prefix at the cap and ten decimal digits for
/// each of line and column — and the newline.
pub const MESSAGE_CAP: usize = 116;

/// No diagnostic overflows a fixed buffer: whatever the fault's location,
/// the whole message fits [`MESSAGE_CAP`] bytes, so the handler needs no
/// heap to assemble or emit it.
pub proof fn lemma_fault_message_bounded(location: Option<FaultLocation>)
    ensures
        fault_message_bytes(location).len() <= MESSAGE_CAP,
{
    match location {
        Some(loc) => {
            lemma_printed_name_bounded(loc.file@, FILE_NAME_CAP as nat);
            reveal_with_fuel(pow10, 11);
            assert(pow10(10) == 10_000_000_000);
            lemma_decimal_digits_len(loc.line as nat, 10);
            lemma_decimal_digits_len(loc.column as nat, 10);
        },
        None => {},
    }
}

/// Fixed banner the fault handler always writes first.
pub open spec fn fault_banner() -> Seq<u8> {
    // "CUDA code panicked :("
    seq![
        67u8, 85u8, 68u8, 65u8, 32u8, 99u8, 111u8, 100u8, 101u8, 32u8, 112u8, 97u8, 110u8,
        105u8, 99u8, 107u8, 101u8, 100u8, 32u8, 58u8, 40u8,
    ]
}

/// Opening of the location suffix: " (in ".
pub open spec fn in_marker() -> Seq<u8> {
    seq![32u8, 40u8, 105u8, 110u8, 32u8]
}

/// Middle of the location suffix: " at ".
pub open spec fn at_marker() -> Seq<u8> {
    seq![32u8, 97u8, 116u8, 32u8]
}

/// Location suffix of the diagnostic:
/// " (in <file prefix> at <line>:<column>)".
pub open spec fn location_suffix(location: FaultLocation) -> Seq<u8> {
    in_marker() + printed_name(location.file@, FILE_NAME_CAP as nat) + at_marker()
        + decimal_digits(location.line as nat) + seq![58u8] + decimal_digits(
        location.column as nat,
    ) + seq![41u8]
}

/// The whole diagnostic: the banner, the location suffix when a location is
/// known and nothing in its place otherwise, and a trailing newline.
pub open spec fn fault_message_bytes(location: Option<FaultLocation>) -> Seq<u8> {
    match location {
        Some(loc) => fault_banner() + location_suffix(loc) + seq![10u8],
        None => fault_banner() + seq![10u8],
    }
}

/// Appends the fixed banner.
fn push_banner(out: &mut Vec<u8>)
    ensures
        final(out)@ == old(out)@ + fault_banner(),
{
    out.push(67);
    out.push(85);
    out.push(68);
    out.push(65);
    out.push(32);
    out.push(99);
    out.push(111);
    out.push(100);
    out.push(101);
    out.push(32);
    out.push(112);
    out.push(97);
    out.push(110);
    out.push(105);
    out.push(99);
    out.push(107);
    out.push(101);
    out.push(100);
    out.push(32);
    out.push(58);
    out.push(40);
    assert(out@ =~= old(out)@ + fault_banner());
}

/// Appends every byte of `src`.
fn push_all(out: &mut Vec<u8>, src: &Vec<u8>)
    ensures
        final(out)@ == old(out)@ + src@,
{
    let mut i: usize = 0;
    while i < src.len()
        invariant
            i <= src@.len(),
            out@ == old(out)@ + src@.take(i as int),
        decreases src@.len() - i,
    {
        out.push(src[i]);
        assert(out@ =~= old(out)@ + src@.take(i + 1));
        i = i + 1;
    }
    assert(src@.take(src@.len() as int) =~= src@);
}

/// The exact bytes the fault handler writes to the output channel before it
/// halts the group: the fixed banner, the location suffix only when a
/// location is known, and a trailing newline.
pub fn fault_message(location: &Option<FaultLocation>) -> (out: Vec<u8>)
    ensures
        out@ == fault_message_bytes(*location),
{
    let mut out: Vec<u8> = Vec::new();
    push_banner(&mut out);
    match location {
        Some(loc) => {
            out.push(32);
            out.push(40);
            out.push(105);
            out.push(110);
            out.push(32);
            let name = truncated_file_name(&loc.file);
            push_all(&mut out, &name);
            out.push(32);
            out.push(97);
            out.push(116);
            out.push(32);
            let line = u32_decimal(loc.line);
            push_all(&mut out, &line);
            out.push(58);
            let column = u32_decimal(loc.column);
            push_all(&mut out, &column);
            out.push(41);
            out.push(10);
            assert(out@ =~= fault_message_bytes(*location));
        }
        None => {
            out.push(10);
            assert(out@ =~= fault_message_bytes(*location));
        }
    }
    out
}

} // verus!
