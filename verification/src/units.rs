//! Size units, and sizes written as a number and a unit.

use crate::binary64;
use crate::binary64::Magnitude;
use crate::numerals;
use crate::numerals::{Reading, Real};
use crate::text;
use vstd::prelude::*;

verus! {

/// The bytes in a lower-case unit: powers of 1024 for the binary units, powers
/// of 1000 for the decimal ones, one for anything else.
pub open spec fn unit_bytes(lower: Seq<char>) -> u64 {
    if lower == "kib"@ {
        1024
    } else if lower == "mib"@ {
        1048576
    } else if lower == "gib"@ {
        1073741824
    } else if lower == "tib"@ {
        1099511627776
    } else if lower == "pib"@ {
        1125899906842624
    } else if lower == "eib"@ {
        1152921504606846976
    } else if lower == "kb"@ {
        1000
    } else if lower == "mb"@ {
        1000000
    } else if lower == "gb"@ {
        1000000000
    } else if lower == "tb"@ {
        1000000000000
    } else if lower == "pb"@ {
        1000000000000000
    } else if lower == "eb"@ {
        1000000000000000000
    } else {
        1
    }
}

/// The lower-case units that progress lines are recognised by.
pub open spec fn is_size_unit_spec(lower: Seq<char>) -> bool {
    ||| lower == "b"@
    ||| lower == "kb"@
    ||| lower == "kib"@
    ||| lower == "mb"@
    ||| lower == "mib"@
    ||| lower == "gb"@
    ||| lower == "gib"@
    ||| lower == "tb"@
    ||| lower == "tib"@
}

/// The power that a lower-case unit prefix stands for.
pub open spec fn prefix_power(prefix: Seq<char>) -> Option<nat> {
    if prefix == "k"@ {
        Some(1)
    } else if prefix == "m"@ {
        Some(2)
    } else if prefix == "g"@ {
        Some(3)
    } else if prefix == "t"@ {
        Some(4)
    } else if prefix == "p"@ {
        Some(5)
    } else if prefix == "e"@ {
        Some(6)
    } else {
        None
    }
}

/// `base` to a power of at most 6.
pub open spec fn small_power(base: nat, n: nat) -> nat
    decreases n,
{
    if n == 0 {
        1
    } else {
        base * small_power(base, (n - 1) as nat)
    }
}

/// The bytes in one of croc's lower-case units. Decimal units are powers of
/// 1000, binary ones powers of 1024; other units are refused.
pub open spec fn croc_unit_bytes(lower: Seq<char>) -> Option<nat> {
    if lower == "b"@ {
        Some(1)
    } else if "ib"@.is_suffix_of(lower) {
        match prefix_power(lower.take(lower.len() - "ib"@.len())) {
            Some(n) => Some(small_power(1024, n)),
            None => None,
        }
    } else if "b"@.is_suffix_of(lower) {
        match prefix_power(lower.take(lower.len() - "b"@.len())) {
            Some(n) => Some(small_power(1000, n)),
            None => None,
        }
    } else {
        None
    }
}

/// The bytes in a unit of croc's session summary, where the decimal names stand
/// for powers of 1024.
pub open spec fn header_unit_bytes(lower: Seq<char>) -> Option<u64> {
    if "ib"@.is_suffix_of(lower) {
        Some(unit_bytes(lower))
    } else if lower == "b"@ {
        Some(1)
    } else if lower == "kb"@ {
        Some(1024)
    } else if lower == "mb"@ {
        Some(1048576)
    } else if lower == "gb"@ {
        Some(1073741824)
    } else if lower == "tb"@ {
        Some(1099511627776)
    } else if lower == "pb"@ {
        Some(1125899906842624)
    } else {
        None
    }
}

/// `v` units of `unit` bytes, in whole bytes.
pub open spec fn in_bytes(v: Real, unit: nat) -> u64 {
    v.times(binary64::whole(unit)).to_u64()
}

/// The marks that may stand around a number or a unit of a size.
pub open spec fn stops() -> Seq<char> {
    seq![',', '.']
}

/// The first two words of `t`, each without the marks around it.
pub open spec fn number_and_unit(t: Seq<char>) -> Option<(Seq<char>, Seq<char>)> {
    let ws = text::words(t);
    if ws.len() < 2 {
        None
    } else {
        Some((text::trim_of(ws[0], stops()), text::trim_of(ws[1], stops())))
    }
}

/// The size at the start of `t`: a number that is not negative, and a unit.
pub open spec fn size_prefix(t: Seq<char>) -> Option<u64> {
    match number_and_unit(t) {
        None => None,
        Some((num, unit)) => match numerals::real_of(num) {
            Some(v) if !v.below_zero() => Some(
                in_bytes(v, unit_bytes(text::lowercase(unit)) as nat),
            ),
            _ => None,
        },
    }
}

/// The size at the start of a part of croc's session summary.
pub open spec fn header_size(t: Seq<char>) -> Option<u64> {
    match number_and_unit(t) {
        None => None,
        Some((num, unit)) => match numerals::real_of(num) {
            Some(v) if !v.below_zero() => match header_unit_bytes(text::lowercase(unit)) {
                Some(bytes) => Some(in_bytes(v, bytes as nat)),
                None => None,
            },
            _ => None,
        },
    }
}

/// The bytes in a unit that is in lower case.
pub fn unit_multiplier_in(lower: &[char]) -> (r: u64)
    ensures
        r == unit_bytes(lower@),
{
    if text::is(lower, "kib") {
        1024
    } else if text::is(lower, "mib") {
        1048576
    } else if text::is(lower, "gib") {
        1073741824
    } else if text::is(lower, "tib") {
        1099511627776
    } else if text::is(lower, "pib") {
        1125899906842624
    } else if text::is(lower, "eib") {
        1152921504606846976
    } else if text::is(lower, "kb") {
        1000
    } else if text::is(lower, "mb") {
        1000000
    } else if text::is(lower, "gb") {
        1000000000
    } else if text::is(lower, "tb") {
        1000000000000
    } else if text::is(lower, "pb") {
        1000000000000000
    } else if text::is(lower, "eb") {
        1000000000000000000
    } else {
        1
    }
}

/// Whether a unit that is in lower case is one of those on progress lines.
pub fn is_size_unit_in(lower: &[char]) -> (r: bool)
    ensures
        r == is_size_unit_spec(lower@),
{
    text::is(lower, "b") || text::is(lower, "kb") || text::is(lower, "kib") || text::is(
        lower,
        "mb",
    ) || text::is(lower, "mib") || text::is(lower, "gb") || text::is(lower, "gib") || text::is(
        lower,
        "tb",
    ) || text::is(lower, "tib")
}

/// The bytes in a unit.
pub fn unit_multiplier(unit: &str) -> (r: u64)
    ensures
        r == unit_bytes(text::lowercase(unit@)),
{
    let lower = unit.to_lowercase();
    let lower = text::chars_of(lower.as_str());
    unit_multiplier_in(lower.as_slice())
}

/// Whether a unit is one of those on progress lines, in any case.
pub fn is_size_unit(unit: &str) -> (r: bool)
    ensures
        r == is_size_unit_spec(text::lowercase(unit@)),
{
    let lower = unit.to_lowercase();
    let lower = text::chars_of(lower.as_str());
    is_size_unit_in(lower.as_slice())
}

fn prefix_power_of(prefix: &[char]) -> (r: Option<u32>)
    ensures
        match r {
            Some(n) => prefix_power(prefix@) == Some(n as nat) && n <= 6,
            None => prefix_power(prefix@) is None,
        },
{
    if text::is(prefix, "k") {
        Some(1)
    } else if text::is(prefix, "m") {
        Some(2)
    } else if text::is(prefix, "g") {
        Some(3)
    } else if text::is(prefix, "t") {
        Some(4)
    } else if text::is(prefix, "p") {
        Some(5)
    } else if text::is(prefix, "e") {
        Some(6)
    } else {
        None
    }
}

fn small_power_of(base: u64, n: u32) -> (r: u64)
    requires
        base <= 1024,
        n <= 6,
    ensures
        r == small_power(base as nat, n as nat),
{
    let mut r: u64 = 1;
    let mut i: u32 = 0;
    while i < n
        invariant
            i <= n <= 6,
            base <= 1024,
            r == small_power(base as nat, i as nat),
            r <= small_power(1024, i as nat),
        decreases n - i,
    {
        proof {
            reveal_with_fuel(small_power, 7);
            assert(r * base <= small_power(1024, i as nat) * 1024) by (nonlinear_arith)
                requires
                    r <= small_power(1024, i as nat),
                    base <= 1024,
            ;
            assert(base * r == r * base) by (nonlinear_arith);
        }
        r = r * base;
        i += 1;
    }
    r
}

/// The bytes in one of croc's units that is in lower case.
pub fn croc_unit_multiplier_in(lower: &[char]) -> (r: Option<u64>)
    ensures
        match r {
            Some(n) => croc_unit_bytes(lower@) == Some(n as nat),
            None => croc_unit_bytes(lower@) is None,
        },
{
    proof {
        reveal_strlit("ib");
        reveal_strlit("b");
    }
    if text::is(lower, "b") {
        return Some(1);
    }
    if text::ends_with(lower, "ib") {
        let prefix = vstd::slice::slice_subrange(lower, 0, lower.len() - 2);
        assert(prefix@ =~= lower@.take(lower@.len() - "ib"@.len()));
        return match prefix_power_of(prefix) {
            Some(n) => Some(small_power_of(1024, n)),
            None => None,
        };
    }
    if text::ends_with(lower, "b") {
        let prefix = vstd::slice::slice_subrange(lower, 0, lower.len() - 1);
        assert(prefix@ =~= lower@.take(lower@.len() - "b"@.len()));
        return match prefix_power_of(prefix) {
            Some(n) => Some(small_power_of(1000, n)),
            None => None,
        };
    }
    None
}

/// The bytes in one of croc's units, with the white space around it ignored.
pub fn croc_unit_multiplier(unit: &str) -> (r: Option<u64>)
    ensures
        match r {
            Some(n) => croc_unit_bytes(text::lowercase(text::trim(unit@))) == Some(n as nat),
            None => croc_unit_bytes(text::lowercase(text::trim(unit@))) is None,
        },
{
    let unit = text::chars_of(unit);
    let lower = text::lower_chars(text::trim_chars(unit.as_slice()));
    croc_unit_multiplier_in(lower.as_slice())
}

/// The bytes in a unit of croc's session summary that is in lower case.
pub fn header_unit_multiplier_in(lower: &[char]) -> (r: Option<u64>)
    ensures
        r == header_unit_bytes(lower@),
{
    if text::ends_with(lower, "ib") {
        Some(unit_multiplier_in(lower))
    } else if text::is(lower, "b") {
        Some(1)
    } else if text::is(lower, "kb") {
        Some(1024)
    } else if text::is(lower, "mb") {
        Some(1048576)
    } else if text::is(lower, "gb") {
        Some(1073741824)
    } else if text::is(lower, "tb") {
        Some(1099511627776)
    } else if text::is(lower, "pb") {
        Some(1125899906842624)
    } else {
        None
    }
}

/// `v` units of `unit` bytes, in whole bytes.
pub fn to_bytes(v: &Reading, unit: u64) -> (r: u64)
    ensures
        r == in_bytes(v@, unit as nat),
{
    v.times(&Magnitude::from_u64(unit)).to_u64()
}

fn read_number_and_unit(t: &[char]) -> (r: Option<(Reading, Vec<char>)>)
    ensures
        match number_and_unit(t@) {
            None => r is None,
            Some((num, unit)) => match numerals::real_of(num) {
                Some(v) if !v.below_zero() => r matches Some((x, lower)) && x@ == v && lower@
                    == text::lowercase(unit),
                _ => r is None,
            },
        },
{
    let ws = text::split_words(t);
    if ws.len() < 2 {
        return None;
    }
    let marks: [char; 2] = [',', '.'];
    assert(marks@ =~= stops());
    let num = text::trim_chars_of(ws[0], marks.as_slice());
    let unit = text::trim_chars_of(ws[1], marks.as_slice());
    assert(num@ == text::trim_of(text::words(t@)[0], stops()));
    assert(unit@ == text::trim_of(text::words(t@)[1], stops()));
    match numerals::read_real(num) {
        Some(v) => if v.is_below_zero() {
            None
        } else {
            Some((v, text::lower_chars(unit)))
        },
        None => None,
    }
}

/// Reads the size at the start of a text.
pub fn parse_size_prefix(t: &str) -> (r: Option<u64>)
    ensures
        r == size_prefix(t@),
{
    let t = text::chars_of(t);
    read_size_prefix(t.as_slice())
}

pub fn read_size_prefix(t: &[char]) -> (r: Option<u64>)
    ensures
        r == size_prefix(t@),
{
    match read_number_and_unit(t) {
        Some((v, lower)) => Some(to_bytes(&v, unit_multiplier_in(lower.as_slice()))),
        None => None,
    }
}

/// Reads the size at the start of a part of croc's session summary.
pub fn parse_croc_header_size(t: &str) -> (r: Option<u64>)
    ensures
        r == header_size(t@),
{
    let t = text::chars_of(t);
    read_header_size(t.as_slice())
}

pub fn read_header_size(t: &[char]) -> (r: Option<u64>)
    ensures
        r == header_size(t@),
{
    match read_number_and_unit(t) {
        Some((v, lower)) => match header_unit_multiplier_in(lower.as_slice()) {
            Some(unit) => Some(to_bytes(&v, unit)),
            None => None,
        },
        None => None,
    }
}

} // verus!
