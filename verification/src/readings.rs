//! What the lines of the tools are read as: the numbers that were written are the
//! numbers that are read.

use crate::binary64;
use crate::binary64::whole;
use crate::croc;
use crate::display;
use crate::numerals;
use crate::numerals::Real;
use crate::progress;
use crate::sendme;
use crate::text;
use crate::units;
use vstd::prelude::*;

verus! {

// ── Units ──

proof fn lemma_unit_names()
    ensures
        "b"@ =~= seq!['b'],
        "ib"@ =~= seq!['i', 'b'],
        "k"@ =~= seq!['k'] && "m"@ =~= seq!['m'] && "g"@ =~= seq!['g'] && "t"@ =~= seq!['t'] && "p"@
            =~= seq!['p'] && "e"@ =~= seq!['e'],
        "kb"@ =~= seq!['k', 'b'] && "mb"@ =~= seq!['m', 'b'] && "gb"@ =~= seq!['g', 'b'] && "tb"@
            =~= seq!['t', 'b'] && "pb"@ =~= seq!['p', 'b'] && "eb"@ =~= seq!['e', 'b'],
        "kib"@ =~= seq!['k', 'i', 'b'] && "mib"@ =~= seq!['m', 'i', 'b'] && "gib"@ =~= seq![
            'g',
            'i',
            'b',
        ] && "tib"@ =~= seq!['t', 'i', 'b'] && "pib"@ =~= seq!['p', 'i', 'b'] && "eib"@ =~= seq![
            'e',
            'i',
            'b',
        ],
{
    reveal_strlit("b");
    reveal_strlit("ib");
    reveal_strlit("k");
    reveal_strlit("m");
    reveal_strlit("g");
    reveal_strlit("t");
    reveal_strlit("p");
    reveal_strlit("e");
    reveal_strlit("kb");
    reveal_strlit("mb");
    reveal_strlit("gb");
    reveal_strlit("tb");
    reveal_strlit("pb");
    reveal_strlit("eb");
    reveal_strlit("kib");
    reveal_strlit("mib");
    reveal_strlit("gib");
    reveal_strlit("tib");
    reveal_strlit("pib");
    reveal_strlit("eib");
}

/// The prefixes of units, each a thousand or 1024 times the one before.
pub open spec fn prefixes() -> Seq<char> {
    seq!['k', 'm', 'g', 't', 'p', 'e']
}

pub open spec fn power(base: nat, n: nat) -> nat
    decreases n,
{
    if n == 0 {
        1
    } else {
        base * power(base, (n - 1) as nat)
    }
}

/// Units with an `i` are powers of 1024, those without are powers of 1000; only in
/// croc's summaries are those without powers of 1024 as well.
pub proof fn law_units_are_powers(k: int)
    requires
        0 <= k < 6,
    ensures
        ({
            let p = prefixes()[k];
            &&& units::unit_bytes(seq![p, 'i', 'b']) == power(1024, (k + 1) as nat)
            &&& units::unit_bytes(seq![p, 'b']) == power(1000, (k + 1) as nat)
            &&& units::croc_unit_bytes(seq![p, 'i', 'b']) == Some(power(1024, (k + 1) as nat))
            &&& units::croc_unit_bytes(seq![p, 'b']) == Some(power(1000, (k + 1) as nat))
            &&& k < 5 ==> units::header_unit_bytes(seq![p, 'b']) == Some(
                power(1024, (k + 1) as nat) as u64,
            )
            &&& units::header_unit_bytes(seq![p, 'i', 'b']) == Some(
                power(1024, (k + 1) as nat) as u64,
            )
        }),
        units::unit_bytes(seq!['b']) == 1,
        units::croc_unit_bytes(seq!['b']) == Some(1nat),
        units::header_unit_bytes(seq!['b']) == Some(1u64),
{
    lemma_unit_names();
    let p = prefixes()[k];
    let long = seq![p, 'i', 'b'];
    let short = seq![p, 'b'];
    assert(long[0] == p && short[0] == p);
    assert(long[1] == 'i' && short[1] == 'b');
    reveal_with_fuel(power, 7);
    reveal_with_fuel(units::small_power, 7);
    assert(power(1024, 1) == 1024 && power(1024, 2) == 1048576 && power(1024, 3) == 1073741824
        && power(1024, 4) == 1099511627776 && power(1024, 5) == 1125899906842624 && power(1024, 6)
        == 1152921504606846976);
    assert(power(1000, 1) == 1000 && power(1000, 2) == 1000000 && power(1000, 3) == 1000000000
        && power(1000, 4) == 1000000000000 && power(1000, 5) == 1000000000000000 && power(1000, 6)
        == 1000000000000000000);
    assert(long.skip(1) =~= "ib"@);
    assert(short.skip(1) =~= "b"@);
    assert(!"ib"@.is_suffix_of(short)) by {
        if "ib"@.is_suffix_of(short) {
            assert(short.skip(0) =~= short);
            assert("ib"@[0] == short[0]);
        }
    }
    assert(long.take(1) =~= seq![p]);
    assert(short.take(1) =~= seq![p]);
    assert(seq![p][0] == p);
    let b = seq!['b'];
    assert(b.len() == 1 && b[0] == 'b');
    assert(prefixes()[0] == 'k' && prefixes()[1] == 'm' && prefixes()[2] == 'g' && prefixes()[3]
        == 't' && prefixes()[4] == 'p' && prefixes()[5] == 'e');
}

/// Progress lines are known by bytes and by the units up to tera, and by no larger ones.
pub proof fn law_units_are_recognised(k: int)
    requires
        0 <= k < 6,
    ensures
        ({
            let p = prefixes()[k];
            &&& units::is_size_unit_spec(seq![p, 'b']) <==> k < 4
            &&& units::is_size_unit_spec(seq![p, 'i', 'b']) <==> k < 4
            &&& !units::is_size_unit_spec(seq![p])
        }),
        units::is_size_unit_spec(seq!['b']),
{
    lemma_unit_names();
    let p = prefixes()[k];
    let long = seq![p, 'i', 'b'];
    let short = seq![p, 'b'];
    let bare = seq![p];
    assert(long[0] == p && short[0] == p && bare[0] == p);
    assert(long[1] == 'i' && short[1] == 'b');
    assert(long.len() == 3 && short.len() == 2 && bare.len() == 1);
    assert(prefixes()[0] == 'k' && prefixes()[1] == 'm' && prefixes()[2] == 'g' && prefixes()[3]
        == 't' && prefixes()[4] == 'p' && prefixes()[5] == 'e');
    assert(long =~= seq![p] + "ib"@ && short =~= seq![p] + "b"@);
    assert("kb"@[0] == 'k' && "mb"@[0] == 'm' && "gb"@[0] == 'g' && "tb"@[0] == 't');
    assert("kib"@[0] == 'k' && "mib"@[0] == 'm' && "gib"@[0] == 'g' && "tib"@[0] == 't');
    assert("b"@[0] == 'b');
    if k == 0 {
        assert(short =~= "kb"@ && long =~= "kib"@);
    } else if k == 1 {
        assert(short =~= "mb"@ && long =~= "mib"@);
    } else if k == 2 {
        assert(short =~= "gb"@ && long =~= "gib"@);
    } else if k == 3 {
        assert(short =~= "tb"@ && long =~= "tib"@);
    }
    assert(seq!['b'] =~= "b"@);
}

// ── Sizes ──

proof fn lemma_digits_are_bare(n: nat, set: Seq<char>)
    requires
        forall|c: char| #[trigger] set.contains(c) ==> !text::is_digit(c),
    ensures
        text::trim_of(numerals::decimal(n), set) == numerals::decimal(n),
        forall|i: int|
            0 <= i < numerals::decimal(n).len() ==> !text::is_space(
                #[trigger] numerals::decimal(n)[i],
            ),
        numerals::decimal(n).len() > 0,
        !text::is_space(numerals::decimal(n)[0]),
        !text::is_space(numerals::decimal(n).last()),
{
    let s = numerals::decimal(n);
    numerals::law_decimal_is_read_back(n);
    numerals::lemma_digits_have_no_marks(s);
    assert(text::is_digit(s[0]) && text::is_digit(s[s.len() - 1]));
    assert(!set.contains(s[0]) && !set.contains(s.last()));
}

/// A word for a unit: no white space in it, and no stop at its ends.
pub open spec fn is_unit_word(u: Seq<char>) -> bool {
    &&& u.len() > 0
    &&& forall|i: int| 0 <= i < u.len() ==> !text::is_space(#[trigger] u[i])
    &&& u[0] != ',' && u[0] != '.' && u.last() != ',' && u.last() != '.'
}

proof fn lemma_two_words(a: Seq<char>, b: Seq<char>)
    requires
        a.len() > 0,
        b.len() > 0,
        forall|i: int| 0 <= i < a.len() ==> !text::is_space(#[trigger] a[i]),
        forall|i: int| 0 <= i < b.len() ==> !text::is_space(#[trigger] b[i]),
    ensures
        text::words(a + seq![' '] + b) == seq![a, b],
        text::trim(a + seq![' '] + b) == a + seq![' '] + b,
        text::words(b) == seq![b],
{
    let none = Seq::<char>::empty();
    assert(b + none =~= b);
    text::lemma_first_word(b, none);
    assert(text::words(none) =~= Seq::empty());
    assert(text::words(b) =~= seq![b]);
    text::lemma_words_skip_space(' ', b);
    text::lemma_first_word(a, seq![' '] + b);
    assert(a + seq![' '] + b =~= a + (seq![' '] + b));
    assert(text::words(a + seq![' '] + b) =~= seq![a, b]);
    let s = a + seq![' '] + b;
    assert(s[0] == a[0] && s.last() == b[b.len() - 1]);
    text::lemma_trim_keeps(s);
}

proof fn lemma_in_bytes(n: nat, u: nat)
    requires
        0 < u,
        n + u < 0x20_0000_0000_0000,
        n * u < 0x10_0000_0000_0000,
    ensures
        units::in_bytes(Real::Number { negative: false, units: whole(n) }, u) == n * u,
{
    binary64::law_whole_numbers_are_computed_exactly(n, u);
    assert(n * u + 1 < 0x20_0000_0000_0000 && n * u * 1 < 0x20_0000_0000_0000);
    binary64::law_whole_numbers_are_computed_exactly(n * u, 1);
}

proof fn lemma_stops()
    ensures
        forall|c: char| #[trigger] units::stops().contains(c) ==> !text::is_digit(c),
        forall|c: char| #[trigger] units::stops().contains(c) ==> c == ',' || c == '.',
        forall|c: char| #[trigger] progress::fences().contains(c) ==> !text::is_digit(c),
{
}

/// A size is read as its number times its unit.
pub proof fn law_sizes_are_read_as_written(n: nat, unit: Seq<char>)
    requires
        is_unit_word(unit),
    ensures
        ({
            let u = units::unit_bytes(text::lowercase(unit)) as nat;
            0 < u && n + u < 0x20_0000_0000_0000 && n * u < 0x10_0000_0000_0000
                ==> units::size_prefix(numerals::decimal(n) + seq![' '] + unit) == Some(
                (n * u) as u64,
            )
        }),
        ({
            let h = units::header_unit_bytes(text::lowercase(unit));
            h is Some && 0 < h->0 && n + h->0 < 0x20_0000_0000_0000 && n * h->0
                < 0x10_0000_0000_0000 ==> units::header_size(
                numerals::decimal(n) + seq![' '] + unit,
            ) == Some((n * h->0) as u64)
        }),
{
    lemma_stops();
    lemma_digits_are_bare(n, units::stops());
    lemma_two_words(numerals::decimal(n), unit);
    numerals::law_whole_numbers_are_read_as_doubles(n);
    assert(!units::stops().contains(unit[0]) && !units::stops().contains(unit.last()));
    assert(text::trim_of(unit, units::stops()) == unit);
    let u = units::unit_bytes(text::lowercase(unit)) as nat;
    if 0 < u && n + u < 0x20_0000_0000_0000 && n * u < 0x10_0000_0000_0000 {
        lemma_in_bytes(n, u);
    }
    match units::header_unit_bytes(text::lowercase(unit)) {
        Some(h) => {
            if 0 < h && n + h < 0x20_0000_0000_0000 && n * h < 0x10_0000_0000_0000 {
                lemma_in_bytes(n, h as nat);
            }
        },
        None => {},
    }
}

/// A number with zeros behind its point is read as the whole number that it is.
pub proof fn law_zero_decimals_are_read(n: nat)
    requires
        n < 0x100_0000_0000,
    ensures
        numerals::real_of(numerals::decimal(n) + seq!['.', '0', '0']) == Some(
            Real::Number { negative: false, units: whole(n) },
        ),
{
    let a = numerals::decimal(n);
    let z = seq!['0', '0'];
    let s = a + seq!['.', '0', '0'];
    numerals::law_decimal_is_read_back(n);
    numerals::lemma_digits_have_no_marks(a);
    assert(text::is_digit(a[0]));
    assert(s[0] == a[0]);
    reveal_strlit("inf");
    reveal_strlit("infinity");
    reveal_strlit("nan");
    reveal_strlit(".");
    assert(text::ascii_lower(s[0]) == s[0]);
    assert(!text::same_ignoring_case(s, "inf"@)) by {
        if text::same_ignoring_case(s, "inf"@) {
            assert(text::ascii_lower(s[0]) == text::ascii_lower("inf"@[0]));
        }
    }
    assert(!text::same_ignoring_case(s, "infinity"@)) by {
        if text::same_ignoring_case(s, "infinity"@) {
            assert(text::ascii_lower(s[0]) == text::ascii_lower("infinity"@[0]));
        }
    }
    assert(!text::same_ignoring_case(s, "nan"@)) by {
        if text::same_ignoring_case(s, "nan"@) {
            assert(text::ascii_lower(s[0]) == text::ascii_lower("nan"@[0]));
        }
    }
    assert("."@ =~= seq!['.']);
    assert(s =~= a + seq!['.'] + z);
    text::law_split_at_the_first(a, '.', z);
    assert(text::find(s, "."@) == Some(a.len() as int));
    assert(s.take(a.len() as int) =~= a);
    assert(s.skip(a.len() as int + 1) =~= z);
    lemma_no_exponent(s, a);
    assert(numerals::all_digits(z));
    let all = a + z;
    assert(all.drop_last() =~= a.push('0'));
    assert(all.drop_last().drop_last() =~= a);
    assert(numerals::digits_value(a.push('0')) == 10 * n) by {
        assert(a.push('0').drop_last() =~= a);
    }
    assert(numerals::digits_value(all) == 100 * n);
    reveal_with_fuel(numerals::tens, 3);
    assert(numerals::tens(2) == 100);
    lemma_hundredths(n);
}

proof fn lemma_hundredths(n: nat)
    requires
        n < 0x100_0000_0000,
    ensures
        binary64::nearest((100 * n) * binary64::one(), 100) == whole(n),
{
    assert((100 * n) * binary64::one() == 100 * (n * binary64::one())) by (nonlinear_arith);
    binary64::law_equal_fractions_are_rounded_alike(n * binary64::one(), 1, 53, 100);
    assert(100 * 1 == 100);
}

proof fn lemma_no_exponent(s: Seq<char>, a: Seq<char>)
    requires
        numerals::all_digits(a),
        s == a + seq!['.', '0', '0'],
    ensures
        text::position(s, seq!['e', 'E']) is None,
    decreases a.len(),
{
    let set = seq!['e', 'E'];
    if a.len() > 0 {
        assert(text::is_digit(a[0]));
        assert(s[0] == a[0]);
        assert(!set.contains(s[0]));
        assert(s.skip(1) =~= a.skip(1) + seq!['.', '0', '0']);
        assert forall|i: int| 0 <= i < a.skip(1).len() implies text::is_digit(
            #[trigger] a.skip(1)[i],
        ) by {
            assert(a.skip(1)[i] == a[i + 1]);
        }
        lemma_no_exponent(s.skip(1), a.skip(1));
    } else {
        assert(s =~= seq!['.', '0', '0']);
        assert(!set.contains('.') && !set.contains('0'));
        reveal_with_fuel(text::position, 4);
        assert(s.skip(1) =~= seq!['0', '0']);
        assert(s.skip(1).skip(1) =~= seq!['0']);
        assert(s.skip(1).skip(1).skip(1) =~= Seq::empty());
    }
}

/// What a sender announces of its size is what is read as the total: whole mebibytes
/// come back as the bytes that they are.
pub proof fn law_announced_sizes_are_read_back(kind: Seq<char>, n: nat, lower: Seq<char>)
    requires
        1 <= n < 1024,
        !kind.contains(','),
        "imported directory "@.is_prefix_of(lower) || "imported file "@.is_prefix_of(lower),
        text::lowercase("MiB"@) == "mib"@,
    ensures
        sendme::imported_size(
            "imported "@ + kind + " native, "@ + display::size_unit((n * 1048576) as u64),
            lower,
        ) == Some((n * 1048576) as u64),
{
    let size = numerals::decimal(n) + seq!['.', '0', '0'] + " MiB"@;
    let part = seq![' '] + size;
    assert(display::size_unit((n * 1048576) as u64) == size) by {
        display::law_sizes_are_shown_in_their_unit(n);
        reveal_strlit(" MiB");
        assert(display::size_unit((n * 1048576) as u64) =~= size);
    }
    assert("imported "@ + kind + " native, "@ + size =~= "imported "@ + kind + " native"@ + seq![
        ',',
    ] + part) by {
        lemma_native();
    }
    assert(!part.contains(',')) by {
        reveal_strlit(" MiB");
        numerals::law_decimal_is_read_back(n);
        numerals::lemma_digits_have_no_marks(numerals::decimal(n));
        if part.contains(',') {
            let i = choose|i: int| 0 <= i < part.len() && part[i] == ',';
            if 1 <= i < 1 + numerals::decimal(n).len() {
                assert(text::is_digit(numerals::decimal(n)[i - 1]));
            }
        }
    }
    assert(text::trim(part) == text::trim(size)) by {
        text::lemma_trim_drops_first(part);
        assert(part.skip(1) =~= size);
    }
    lemma_second_part(kind, part);
    lemma_mebibytes(n);
}

proof fn lemma_second_part(kind: Seq<char>, part: Seq<char>)
    requires
        !kind.contains(','),
    ensures
        !part.contains(',') ==> sendme::second_part(
            "imported "@ + kind + " native"@ + seq![','] + part,
        ) == Some(part),
{
    reveal_strlit("imported ");
    reveal_strlit(",");
    assert(","@ =~= seq![',']);
    lemma_native();
    let head = "imported "@ + kind + " native"@;
    assert(!head.contains(',')) by {
        if head.contains(',') {
            let i = choose|i: int| 0 <= i < head.len() && head[i] == ',';
            if 9 <= i < 9 + kind.len() {
                assert(kind[i - 9] == ',');
            } else if i < 9 {
                assert("imported "@[i] == ',');
            } else {
                assert(" native"@[i - 9 - kind.len()] == ',');
            }
        }
    }
    text::law_split_at_the_first(head, ',', part);
    if !part.contains(',') {
        text::lemma_no_split(part, ',');
    }
}

proof fn lemma_mebibytes(n: nat)
    requires
        1 <= n < 1024,
        text::lowercase("MiB"@) == "mib"@,
    ensures
        ({
            let size = numerals::decimal(n) + seq!['.', '0', '0'] + " MiB"@;
            &&& text::trim(size) == size
            &&& units::size_prefix(size) == Some((n * 1048576) as u64)
        }),
{
    reveal_strlit(" MiB");
    reveal_strlit("MiB");
    let a = numerals::decimal(n);
    let num = a + seq!['.', '0', '0'];
    let size = num + " MiB"@;
    numerals::law_decimal_is_read_back(n);
    numerals::lemma_digits_have_no_marks(a);
    let unit = seq!['M', 'i', 'B'];
    assert(size =~= num + seq![' '] + unit);
    assert forall|i: int| 0 <= i < num.len() implies !text::is_space(#[trigger] num[i]) by {
        if i < a.len() {
            assert(num[i] == a[i]);
        }
    }
    lemma_two_words(num, unit);
    lemma_stops();
    assert(text::is_digit(a[0]));
    assert(num[0] == a[0] && num.last() == '0');
    assert(!units::stops().contains(num[0]) && !units::stops().contains(num.last()));
    assert(!units::stops().contains('M') && !units::stops().contains('B'));
    assert(unit[0] == 'M' && unit.last() == 'B');
    assert(text::trim_of(num, units::stops()) == num);
    assert(text::trim_of(unit, units::stops()) == unit);
    assert(unit =~= "MiB"@);
    law_zero_decimals_are_read(n);
    lemma_mib();
    lemma_in_bytes(n, 1048576);
}

proof fn lemma_mib()
    ensures
        units::unit_bytes("mib"@) == 1048576,
{
    lemma_unit_names();
    law_units_are_powers(1);
    reveal_with_fuel(power, 3);
    assert(power(1024, 2) == 1048576);
    assert(prefixes()[1] == 'm');
}

proof fn lemma_native()
    ensures
        " native, "@ =~= " native"@ + seq![',', ' '],
        !" native"@.contains(','),
        !"imported "@.contains(','),
{
    reveal_strlit(" native, ");
    reveal_strlit(" native");
    reveal_strlit("imported ");
}

/// How many files are imported is read as it is written.
pub proof fn law_imported_files_are_counted(n: u64, rest: Seq<char>)
    requires
        rest.len() > 0 ==> text::is_space(rest[0]),
    ensures
        sendme::total_files("importing "@ + numerals::decimal(n as nat) + " files"@ + rest) == Some(
            n,
        ),
{
    reveal_strlit("importing ");
    reveal_strlit(" files");
    reveal_strlit("file");
    let d = numerals::decimal(n as nat);
    let f = seq!['f', 'i', 'l', 'e', 's'];
    let s = "importing "@ + d + " files"@ + rest;
    assert(s.subrange(0, 10) =~= "importing "@);
    text::lemma_find_at(s, "importing "@, 0);
    let tail = d + (seq![' '] + (f + rest));
    assert(s.skip(10) =~= tail);
    lemma_digits_are_bare(n as nat, Seq::empty());
    numerals::law_decimal_is_read_back(n as nat);
    text::lemma_words_skip_space(' ', f + rest);
    text::lemma_first_word(d, seq![' '] + (f + rest));
    text::lemma_first_word(f, rest);
    let ws = text::words(tail);
    assert(ws[0] == d);
    assert(ws[1] == f);
    assert(f.take(4) =~= "file"@);
}

/// The item that a line is about is counted from one: the number behind the word `i`,
/// and one more.
pub proof fn law_items_are_counted_from_one(pre: Seq<Seq<char>>, n: u64, rest: Seq<Seq<char>>)
    requires
        n < u64::MAX,
        forall|k: int| 0 <= k < pre.len() ==> #[trigger] pre[k] != "i"@,
    ensures
        sendme::item_index_from(
            pre + seq!["i"@, numerals::decimal(n as nat)] + rest,
            0,
        ) == Some((n + 1) as u64),
{
    let ws = pre + seq!["i"@, numerals::decimal(n as nat)] + rest;
    numerals::law_decimal_is_read_back(n as nat);
    lemma_item_skips(ws, 0, pre.len() as int);
    assert(ws[pre.len() as int] == "i"@ && ws[pre.len() as int + 1] == numerals::decimal(
        n as nat,
    ));
}

proof fn lemma_item_skips(ws: Seq<Seq<char>>, k: int, to: int)
    requires
        0 <= k <= to,
        to + 1 < ws.len(),
        forall|i: int| k <= i < to ==> #[trigger] ws[i] != "i"@,
    ensures
        sendme::item_index_from(ws, k) == sendme::item_index_from(ws, to),
    decreases to - k,
{
    if k < to {
        assert(ws[k] != "i"@);
        lemma_item_skips(ws, k + 1, to);
    }
}

// ── Ratios ──

proof fn lemma_ratio(a: nat, b: nat)
    ensures
        ({
            let w = numerals::decimal(a) + seq!['/'] + numerals::decimal(b);
            &&& text::split_once(w, "/"@) == Some((numerals::decimal(a), numerals::decimal(b)))
            &&& progress::bare(w) == w
            &&& w.len() > 0
            &&& forall|i: int| 0 <= i < w.len() ==> !text::is_space(#[trigger] w[i])
            &&& text::is_digit(w[0]) && text::is_digit(w.last())
        }),
{
    reveal_strlit("/");
    assert("/"@ =~= seq!['/']);
    let x = numerals::decimal(a);
    let y = numerals::decimal(b);
    let w = x + seq!['/'] + y;
    numerals::law_decimal_is_read_back(a);
    numerals::law_decimal_is_read_back(b);
    numerals::lemma_digits_have_no_marks(x);
    numerals::lemma_digits_have_no_marks(y);
    text::law_split_at_the_first(x, '/', y);
    assert(w[0] == x[0] && w.last() == y[y.len() - 1]);
    assert(text::is_digit(x[0]) && text::is_digit(y[y.len() - 1]));
    lemma_stops();
    assert(!progress::fences().contains(w[0]) && !progress::fences().contains(w.last()));
    assert forall|i: int| 0 <= i < w.len() implies !text::is_space(#[trigger] w[i]) by {
        if i < x.len() {
            assert(w[i] == x[i]);
        } else if i > x.len() {
            assert(w[i] == y[i - x.len() - 1]);
        }
    }
}

/// A ratio with a unit is read as two sizes: what is done and what there is, each number
/// times the unit.
pub proof fn law_ratios_are_read_as_written(d: nat, t: nat, unit: Seq<char>, u: nat)
    requires
        0 < t,
        is_unit_word(unit),
        !progress::fences().contains(unit[0]),
        !progress::fences().contains(unit.last()),
        progress::is_unit(unit),
        u == units::unit_bytes(text::lowercase(unit)),
        0 < u,
        d + u < 0x20_0000_0000_0000,
        t + u < 0x20_0000_0000_0000,
        d * u < 0x10_0000_0000_0000,
        t * u < 0x10_0000_0000_0000,
    ensures
        progress::payload_progress(
            numerals::decimal(d) + seq!['/'] + numerals::decimal(t) + seq![' '] + unit,
        ) == Some(((d * u) as u64, (t * u) as u64)),
{
    let w = numerals::decimal(d) + seq!['/'] + numerals::decimal(t);
    lemma_ratio(d, t);
    lemma_two_words(w, unit);
    numerals::law_whole_numbers_are_read_as_doubles(d);
    numerals::law_whole_numbers_are_read_as_doubles(t);
    lemma_in_bytes(d, u);
    lemma_in_bytes(t, u);
    binary64::lemma_whole_positive(t);
    assert(progress::bare(unit) == unit);
    let ws = seq![w, unit];
    assert(progress::pair_at(ws, 2, 0) == progress::shared_unit_pair(w, unit));
    assert(progress::first_pair(ws, 2, 0) == progress::shared_unit_pair(w, unit));
}

/// The counter that a line of croc's ends with is read as it is written.
pub proof fn law_file_counters_are_read(pre: Seq<char>, k: u64, n: u64)
    requires
        0 < n,
        k <= n,
    ensures
        croc::file_counter(
            numerals::decimal(k as nat) + seq!['/'] + numerals::decimal(n as nat),
        ) == Some((k, n)),
        text::words(pre).len() > 0 && text::words(pre).last() == numerals::decimal(k as nat) + seq![
            '/',
        ] + numerals::decimal(n as nat) ==> croc::file_counter(pre) == Some((k, n)),
{
    let w = numerals::decimal(k as nat) + seq!['/'] + numerals::decimal(n as nat);
    lemma_ratio(k as nat, n as nat);
    numerals::law_decimal_is_read_back(k as nat);
    numerals::law_decimal_is_read_back(n as nat);
    text::lemma_first_word(w, Seq::empty());
    assert(w + Seq::<char>::empty() =~= w);
    assert(text::words(w).last() == w);
}

/// A stage in brackets is read as it is written, at the front of a line.
pub proof fn law_stages_are_read(k: nat, n: nat, rest: Seq<char>)
    requires
        0 < n <= 12,
        k <= n,
    ensures
        croc::stage_progress(
            seq!['['] + (numerals::decimal(k) + seq!['/'] + numerals::decimal(n)) + seq![']']
                + rest,
        ) == Some((k as u32, n as u32)),
{
    let w = numerals::decimal(k) + seq!['/'] + numerals::decimal(n);
    let s = seq!['['] + w + seq![']'] + rest;
    reveal_strlit("[");
    reveal_strlit("]");
    assert("["@ =~= seq!['['] && "]"@ =~= seq![']']);
    lemma_ratio(k, n);
    numerals::law_decimal_is_read_back(k);
    numerals::law_decimal_is_read_back(n);
    numerals::lemma_digits_have_no_marks(numerals::decimal(k));
    numerals::lemma_digits_have_no_marks(numerals::decimal(n));
    assert(s.subrange(0, 1) =~= "["@);
    text::lemma_find_at(s, "["@, 0);
    let after = s.skip(1);
    assert(after =~= w + seq![']'] + rest);
    assert(!w.contains(']')) by {
        if w.contains(']') {
            let i = choose|i: int| 0 <= i < w.len() && w[i] == ']';
            if i < numerals::decimal(k).len() {
                assert(text::is_digit(numerals::decimal(k)[i]));
            } else if i > numerals::decimal(k).len() {
                assert(text::is_digit(numerals::decimal(n)[i - numerals::decimal(k).len() - 1]));
            }
        }
    }
    text::law_split_at_the_first(w, ']', rest);
    assert(text::find(after, "]"@) == Some(w.len() as int));
    assert(after.take(w.len() as int) =~= w);
    text::lemma_trim_keeps(w);
    lemma_stage(k, n);
    assert(text::find(s, "["@) == Some(0int));
    assert(s.skip(1) == after);
    assert(text::trim(after.take(w.len() as int)) == w);
    reveal_with_fuel(croc::stage_progress, 1);
}

proof fn lemma_stage(k: nat, n: nat)
    requires
        0 < n <= 12,
        k <= n,
    ensures
        croc::stage(numerals::decimal(k) + seq!['/'] + numerals::decimal(n)) == Some(
            (k as u32, n as u32),
        ),
{
    lemma_ratio(k, n);
    numerals::law_decimal_is_read_back(k);
    numerals::law_decimal_is_read_back(n);
    let a = numerals::decimal(k);
    let b = numerals::decimal(n);
    assert(text::is_digit(a[0]) && text::is_digit(a[a.len() - 1]) && text::is_digit(b[0])
        && text::is_digit(b[b.len() - 1]));
    text::lemma_trim_keeps(a);
    text::lemma_trim_keeps(b);
}

/// Two amounts in one unit are read as two sizes, and an amount per second as a speed.
pub proof fn law_bars_amounts_are_read_as_written(
    d: nat,
    t: nat,
    v: nat,
    unit: Seq<char>,
    u: nat,
)
    requires
        0 < t,
        is_unit_word(unit),
        units::croc_unit_bytes(text::lowercase(unit)) == Some(u),
        0 < u,
        d + u < 0x20_0000_0000_0000,
        t + u < 0x20_0000_0000_0000,
        v + u < 0x20_0000_0000_0000,
        d * u < 0x10_0000_0000_0000,
        t * u < 0x10_0000_0000_0000,
        v * u < 0x10_0000_0000_0000,
    ensures
        croc::size_pair(
            numerals::decimal(d) + seq!['/'] + numerals::decimal(t) + seq![' '] + unit,
        ) == Some(((d * u) as u64, (t * u) as u64)),
        croc::bar_speed(
            seq![' '] + (numerals::decimal(v) + seq![' '] + unit + seq!['/', 's']),
        ) == Some(Real::Number { negative: false, units: whole(v * u) }),
{
    let a = numerals::decimal(d);
    let b = numerals::decimal(t);
    let w = a + seq!['/'] + b;
    lemma_stops();
    lemma_ratio(d, t);
    lemma_two_words(w, unit);
    text::lemma_trim_keeps(unit);
    lemma_digits_are_bare(d, units::stops());
    lemma_digits_are_bare(t, units::stops());
    lemma_digits_are_bare(v, units::stops());
    text::lemma_trim_keeps(a);
    text::lemma_trim_keeps(b);
    numerals::law_whole_numbers_are_read_as_doubles(d);
    numerals::law_whole_numbers_are_read_as_doubles(t);
    numerals::law_whole_numbers_are_read_as_doubles(v);
    lemma_in_bytes(d, u);
    lemma_in_bytes(t, u);
    binary64::law_whole_numbers_are_computed_exactly(d, u);
    binary64::law_whole_numbers_are_computed_exactly(t, u);
    binary64::law_whole_numbers_are_computed_exactly(v, u);
    assert(t * u > 0) by (nonlinear_arith)
        requires
            t > 0,
            u > 0,
    ;
    binary64::lemma_whole_positive(t * u);
    binary64::lemma_whole_positive(t);
    let ws = text::words(w + seq![' '] + unit);
    assert(ws.len() == 2 && ws[0] == w && ws[1] == unit);
    // The speed.
    reveal_strlit("/s");
    let c = numerals::decimal(v);
    let inner = c + seq![' '] + unit;
    let speed = inner + seq!['/', 's'];
    lemma_two_words(c, unit);
    assert(speed[0] == c[0] && speed.last() == 's');
    text::lemma_trim_keeps(speed);
    text::lemma_trim_drops_first(seq![' '] + speed);
    assert((seq![' '] + speed).skip(1) =~= speed);
    assert(speed.subrange(speed.len() - 2, speed.len() as int) =~= "/s"@);
    assert(speed.take(speed.len() - 2) =~= inner);
    let vs = text::words(inner);
    assert(vs.len() == 2 && vs[0] == c && vs[1] == unit);
}

/// A duration as croc prints it is read as the seconds that it is: seconds alone, and
/// minutes with seconds.
pub proof fn law_durations_are_read_as_written(m: nat, s: nat)
    requires
        m < 0x1_0000_0000,
        s < 0x1_0000_0000,
    ensures
        croc::go_duration(numerals::decimal(s) + seq!['s']) == Some(whole(s)),
        croc::go_duration(
            numerals::decimal(m) + seq!['m'] + (numerals::decimal(s) + seq!['s']),
        ) == Some(whole(60 * m + s)),
{
    let a = numerals::decimal(m);
    let b = numerals::decimal(s);
    let secs = b + seq!['s'];
    let all = a + seq!['m'] + secs;
    reveal_strlit("h");
    reveal_strlit("m");
    reveal_strlit("s");
    assert("h"@ =~= seq!['h'] && "m"@ =~= seq!['m'] && "s"@ =~= seq!['s']);
    assert(seq!['m'][0] == 'm' && seq!['s'][0] == 's' && seq!['h'][0] == 'h');
    numerals::law_decimal_is_read_back(m);
    numerals::law_decimal_is_read_back(s);
    assert(text::is_digit(a[0]) && text::is_digit(b[0]));
    assert(secs[0] == b[0] && secs.last() == 's');
    assert(all[0] == a[0] && all.last() == 's');
    text::lemma_trim_keeps(secs);
    text::lemma_trim_keeps(all);
    numerals::law_whole_numbers_are_read_as_doubles(m);
    numerals::law_whole_numbers_are_read_as_doubles(s);
    // The seconds.
    lemma_number_len(b, seq!['s']);
    assert(secs.take(b.len() as int) =~= b);
    assert(secs.skip(b.len() as int) =~= seq!['s']);
    lemma_name_len(seq!['s'], Seq::empty());
    assert(seq!['s'] + Seq::<char>::empty() =~= seq!['s']);
    assert(seq!['s'].take(1) =~= seq!['s']);
    assert(seq!['s'].skip(1) =~= Seq::empty());
    binary64::law_whole_numbers_are_computed_exactly(s, 1);
    binary64::law_whole_numbers_are_computed_exactly(0, s);
    binary64::law_whole_is_exact(0);
    assert(whole(0) == 0);
    assert(croc::duration_from(Seq::empty(), whole(s)) == Some(whole(s)));
    assert(croc::duration_from(secs, 0) == Some(whole(s)));
    // The minutes.
    lemma_number_len(a, seq!['m'] + secs);
    assert(all =~= a + (seq!['m'] + secs));
    assert(all.take(a.len() as int) =~= a);
    assert(all.skip(a.len() as int) =~= seq!['m'] + secs);
    lemma_name_len(seq!['m'], secs);
    assert((seq!['m'] + secs).take(1) =~= seq!['m']);
    assert((seq!['m'] + secs).skip(1) =~= secs);
    binary64::law_whole_numbers_are_computed_exactly(m, 60);
    binary64::law_whole_numbers_are_computed_exactly(0, m * 60);
    assert(0 * (m * 60) == 0);
    binary64::lemma_sum_of_wholes(m * 60, s);
    assert(croc::duration_from(Seq::empty(), whole(m * 60 + s)) == Some(whole(m * 60 + s)));
    assert(croc::duration_from(secs, whole(m * 60)) == Some(whole(m * 60 + s)));
    assert(croc::duration_from(all, 0) == croc::duration_from(secs, whole(m * 60)));
}

proof fn lemma_number_len(d: Seq<char>, rest: Seq<char>)
    requires
        numerals::all_digits(d),
        rest.len() > 0,
        !text::is_digit(rest[0]),
        rest[0] != '.',
    ensures
        croc::number_len(d + rest) == d.len(),
    decreases d.len(),
{
    let s = d + rest;
    if d.len() > 0 {
        assert(text::is_digit(d[0]) && s[0] == d[0]);
        assert(s.skip(1) =~= d.skip(1) + rest);
        assert forall|i: int| 0 <= i < d.skip(1).len() implies text::is_digit(
            #[trigger] d.skip(1)[i],
        ) by {
            assert(d.skip(1)[i] == d[i + 1]);
        }
        lemma_number_len(d.skip(1), rest);
    } else {
        assert(s =~= rest);
    }
}

proof fn lemma_name_len(unit: Seq<char>, rest: Seq<char>)
    requires
        unit.len() == 1,
        !text::is_digit(unit[0]),
        unit[0] != '.',
        rest.len() > 0 ==> text::is_digit(rest[0]),
    ensures
        croc::name_len(unit + rest) == 1,
{
    let s = unit + rest;
    assert(s[0] == unit[0]);
    assert(s.skip(1) =~= rest);
    assert(croc::name_len(rest) == 0);
}

// ── Speeds, and sizes with units of their own ──

/// A number and a unit per second are read as that many bytes per second, in two words
/// and in one.
pub proof fn law_speeds_are_read_as_written(v: nat, unit: Seq<char>, u: nat)
    requires
        is_unit_word(unit),
        !unit.contains('/'),
        !progress::brackets().contains(unit[0]),
        u == units::unit_bytes(text::lowercase(unit)),
        0 < u,
        v + u < 0x20_0000_0000_0000,
        v * u < 0x20_0000_0000_0000,
    ensures
        progress::is_unit(unit) ==> progress::speed_hint(
            numerals::decimal(v) + seq![' '] + (unit + seq!['/', 's']),
        ) == Some(Real::Number { negative: false, units: whole(v * u) }),
        progress::is_rate_unit(unit + seq!['/', 's']) ==> progress::speed_token(
            numerals::decimal(v) + seq!['/'] + (unit + seq!['/', 's']),
        ) == Some(Real::Number { negative: false, units: whole(v * u) }),
{
    let num = numerals::decimal(v);
    let rate = unit + seq!['/', 's'];
    let brackets = progress::brackets();
    lemma_speed_parts(v, unit);
    numerals::law_whole_numbers_are_read_as_doubles(v);
    binary64::law_whole_numbers_are_computed_exactly(v, u);
    if progress::is_unit(unit) {
        lemma_two_words(num, rate);
        let ws = seq![num, rate];
        assert(progress::speed_token(ws[0]) is None);
        assert(progress::speed_token(ws[1]) is None);
        reveal_with_fuel(progress::first_speed_token, 3);
        assert(progress::first_speed_token(ws, 0) is None);
        assert(progress::speed_pair(num, rate) == Some(
            Real::Number { negative: false, units: whole(v * u) },
        ));
        assert(progress::first_speed_pair(ws, 0) == progress::speed_pair(ws[0], ws[1]));
    }
}

proof fn lemma_speed_parts(v: nat, unit: Seq<char>)
    requires
        is_unit_word(unit),
        !unit.contains('/'),
        !progress::brackets().contains(unit[0]),
    ensures
        ({
            let num = numerals::decimal(v);
            let rate = unit + seq!['/', 's'];
            let brackets = progress::brackets();
            &&& text::trim_of(num, brackets) == num
            &&& num.len() > 0
            &&& forall|i: int| 0 <= i < num.len() ==> !text::is_space(#[trigger] num[i])
            &&& forall|i: int| 0 <= i < rate.len() ==> !text::is_space(#[trigger] rate[i])
            &&& text::split_once(num, "/"@) is None
            &&& text::trim_of(rate, brackets) == rate
            &&& text::split_once(rate, "/"@) == Some((unit, seq!['s']))
            &&& !progress::is_rate_unit(seq!['s'])
            &&& "/s"@.is_suffix_of(rate)
            &&& rate.take(rate.len() - 2) == unit
            &&& progress::without_suffixes(rate, "/s"@) == unit
            &&& text::trim_of(num + seq!['/'] + rate, brackets) == num + seq!['/'] + rate
            &&& text::split_once(num + seq!['/'] + rate, "/"@) == Some((num, rate))
        }),
{
    let num = numerals::decimal(v);
    let rate = unit + seq!['/', 's'];
    let brackets = progress::brackets();
    reveal_strlit("/");
    reveal_strlit("/s");
    assert("/"@ =~= seq!['/']);
    assert("/s"@ =~= seq!['/', 's']);
    assert forall|c: char| #[trigger] brackets.contains(c) implies !text::is_digit(c) by {}
    lemma_digits_are_bare(v, brackets);
    numerals::law_decimal_is_read_back(v);
    numerals::lemma_digits_have_no_marks(num);
    text::lemma_no_split(num, '/');
    assert(rate[0] == unit[0] && rate.last() == 's');
    assert(!brackets.contains('s'));
    assert(rate =~= unit + seq!['/'] + seq!['s']);
    text::law_split_at_the_first(unit, '/', seq!['s']);
    assert(rate.subrange(rate.len() - 2, rate.len() as int) =~= "/s"@);
    assert(rate.take(rate.len() - 2) =~= unit);
    assert(!"/s"@.is_suffix_of(unit)) by {
        if "/s"@.is_suffix_of(unit) {
            assert(unit.subrange(unit.len() - 2, unit.len() as int)[0] == '/');
            assert(unit[unit.len() - 2] == '/');
        }
    }
    assert(progress::without_suffixes(unit, "/s"@) == unit);
    assert(progress::without_suffixes(rate, "/s"@) == progress::without_suffixes(
        rate.take(rate.len() - 2),
        "/s"@,
    ));
    let all = num + seq!['/'] + rate;
    assert(all[0] == num[0] && all.last() == 's');
    assert(text::is_digit(num[0]));
    assert(!brackets.contains(all[0]));
    text::law_split_at_the_first(num, '/', rate);
    lemma_no_rate();
}

proof fn lemma_no_rate()
    ensures
        !progress::is_rate_unit(seq!['s']),
{
    reveal_strlit("b/s");
    reveal_strlit("kb/s");
    reveal_strlit("kib/s");
    reveal_strlit("mb/s");
    reveal_strlit("mib/s");
    reveal_strlit("gb/s");
    reveal_strlit("gib/s");
}

/// Two sizes with a slash between them are read each in its own unit.
pub proof fn law_each_size_has_its_own_unit(
    d: nat,
    du: Seq<char>,
    t: nat,
    tu: Seq<char>,
    a: nat,
    b: nat,
)
    requires
        0 < t,
        is_unit_word(du) && is_unit_word(tu),
        !du.contains('/'),
        !progress::fences().contains(du[0]) && !progress::fences().contains(du.last()),
        !progress::fences().contains(tu[0]) && !progress::fences().contains(tu.last()),
        progress::is_unit(du) && progress::is_unit(tu),
        a == units::unit_bytes(text::lowercase(du)),
        b == units::unit_bytes(text::lowercase(tu)),
        0 < a && 0 < b,
        d + a < 0x20_0000_0000_0000 && d * a < 0x10_0000_0000_0000,
        t + b < 0x20_0000_0000_0000 && t * b < 0x10_0000_0000_0000,
    ensures
        progress::tight_pair(
            numerals::decimal(d),
            du + seq!['/'] + numerals::decimal(t),
            tu,
        ) == Some(((d * a) as u64, (t * b) as u64)),
        progress::spaced_pair(
            numerals::decimal(d),
            du,
            "/"@,
            numerals::decimal(t),
            tu,
        ) == Some(((d * a) as u64, (t * b) as u64)),
{
    let x = numerals::decimal(d);
    let y = numerals::decimal(t);
    let w = du + seq!['/'] + y;
    reveal_strlit("/");
    assert("/"@ =~= seq!['/']);
    lemma_stops();
    lemma_digits_are_bare(d, progress::fences());
    lemma_digits_are_bare(t, progress::fences());
    numerals::law_decimal_is_read_back(t);
    assert(text::is_digit(y[y.len() - 1]));
    assert(w[0] == du[0] && w.last() == y[y.len() - 1]);
    assert(!progress::fences().contains(w.last()));
    assert(progress::bare(w) == w);
    text::law_split_at_the_first(du, '/', y);
    assert("/"@[0] == '/' && "/"@.last() == '/');
    assert(!progress::fences().contains('/'));
    assert(progress::bare("/"@) == "/"@);
    numerals::law_whole_numbers_are_read_as_doubles(d);
    numerals::law_whole_numbers_are_read_as_doubles(t);
    lemma_in_bytes(d, a);
    lemma_in_bytes(t, b);
    binary64::lemma_whole_positive(t);
    assert(t * b > 0) by (nonlinear_arith)
        requires
            t > 0,
            b > 0,
    ;
}

// ── Lines about the whole ──

/// The size behind "in total," and the size in the last brackets of a summary are read as
/// written.
pub proof fn law_summaries_are_read_as_written(
    a: Seq<char>,
    c: Seq<char>,
    n: nat,
    unit: Seq<char>,
    u: nat,
    lower: Seq<char>,
)
    requires
        is_unit_word(unit),
        !unit.contains('(') && !unit.contains(')'),
        units::header_unit_bytes(text::lowercase(unit)) == Some(u as u64),
        0 < u <= u64::MAX,
        n + u < 0x20_0000_0000_0000,
        n * u < 0x10_0000_0000_0000,
        !c.contains('(') && !c.contains(')'),
    ensures
        (text::find(lower, "in total,"@) matches Some(i) && 0 <= i <= lower.len() && text::bytes(
            lower.take(i),
        ) == text::bytes(a)) ==> croc::total_size(
            a + "in total,"@ + (seq![' '] + (numerals::decimal(n) + seq![' '] + unit)),
            lower,
        ) == Some((n * u) as u64),
        text::find(lower, "in total,"@) is None ==> croc::total_size(a, lower) is None,
        croc::is_session_summary(lower) ==> croc::summary_size(
            a + seq!['('] + (numerals::decimal(n) + seq![' '] + unit) + seq![')'] + c,
            lower,
        ) == Some((n * u) as u64),
        !croc::is_session_summary(lower) ==> croc::summary_size(a, lower) is None,
{
    let size = numerals::decimal(n) + seq![' '] + unit;
    law_sizes_are_read_as_written(n, unit);
    lemma_digits_are_bare(n, Seq::empty());
    lemma_two_words(numerals::decimal(n), unit);
    if text::find(lower, "in total,"@) is Some {
        let i = text::find(lower, "in total,"@)->0;
        if 0 <= i <= lower.len() && text::bytes(lower.take(i)) == text::bytes(a) {
            let tail = seq![' '] + size;
            lemma_bytes_add(a, "in total,"@);
            text::law_bytes_lead_to_the_rest(a + "in total,"@, tail);
            text::lemma_trim_drops_first(tail);
            assert(tail.skip(1) =~= size);
        }
    }
    if croc::is_session_summary(lower) {
        lemma_in_brackets(a, size, c, n, unit);
    }
}

proof fn lemma_bytes_add(a: Seq<char>, b: Seq<char>)
    ensures
        text::bytes(a + b) == text::bytes(a) + text::bytes(b),
    decreases b.len(),
{
    if b.len() == 0 {
        assert(a + b =~= a);
    } else {
        assert((a + b).drop_last() =~= a + b.drop_last());
        assert((a + b).last() == b.last());
        lemma_bytes_add(a, b.drop_last());
    }
}

proof fn lemma_in_brackets(a: Seq<char>, size: Seq<char>, c: Seq<char>, n: nat, unit: Seq<char>)
    requires
        size == numerals::decimal(n) + seq![' '] + unit,
        !unit.contains('(') && !unit.contains(')'),
        !c.contains('(') && !c.contains(')'),
    ensures
        ({
            let line = a + seq!['('] + size + seq![')'] + c;
            let open = a.len() as int;
            let close = open + 1 + size.len();
            &&& text::rfind(line, "("@) == Some(open)
            &&& text::rfind(line, ")"@) == Some(close)
            &&& line.subrange(open + 1, close) == size
            &&& size.len() > 0
        }),
{
    let line = a + seq!['('] + size + seq![')'] + c;
    let open = a.len() as int;
    let d = numerals::decimal(n);
    numerals::law_decimal_is_read_back(n);
    reveal_strlit("(");
    reveal_strlit(")");
    assert("("@ =~= seq!['('] && ")"@ =~= seq![')']);
    let rest = size + seq![')'] + c;
    assert(!rest.contains('(')) by {
        if rest.contains('(') {
            let i = choose|i: int| 0 <= i < rest.len() && rest[i] == '(';
            if i < d.len() {
                assert(rest[i] == d[i] && text::is_digit(d[i]));
            } else if d.len() < i < size.len() {
                assert(rest[i] == unit[i - d.len() - 1]);
                assert(unit.contains('('));
            } else if i > size.len() {
                assert(rest[i] == c[i - size.len() - 1]);
                assert(c.contains('('));
            }
        }
    }
    text::law_the_last_is_found(a, '(', rest);
    assert(line =~= a + seq!['('] + rest);
    text::law_the_last_is_found(a + seq!['('] + size, ')', c);
    assert(line.subrange(open + 1, open + 1 + size.len()) =~= size);
}

/// A progress line is cut down to what stands from its last mark of the third stage on,
/// else from that of the fourth, else to its last 220 characters.
pub proof fn law_progress_lines_are_cut(a: Seq<char>, b: Seq<char>)
    requires
        a.len() > 0 ==> !text::is_space(a[0]),
        b.len() > 0 ==> !text::is_space(b.last()),
        forall|j: int| !#[trigger] text::stands_at(b, "[3/4]"@, j),
    ensures
        progress::compact(a + "[3/4]"@ + b) == "[3/4]"@ + b,
{
    reveal_strlit("[3/4]");
    let p = "[3/4]"@;
    let s = a + p + b;
    let rest = p + b;
    lemma_last_mark(a, p, b);
    assert(s[0] == (if a.len() > 0 {
        a[0]
    } else {
        '['
    }));
    assert(s.last() == rest.last());
    assert(rest.last() == (if b.len() > 0 {
        b[b.len() - 1]
    } else {
        ']'
    }));
    text::lemma_trim_keeps(s);
    assert(s.skip(a.len() as int) =~= rest);
    assert(rest[0] == '[');
    text::lemma_trim_keeps(rest);
}

proof fn lemma_last_mark(a: Seq<char>, p: Seq<char>, b: Seq<char>)
    requires
        p.len() > 0,
        forall|k: int| 0 < k < p.len() ==> #[trigger] p[k] != p[0],
        forall|j: int| !#[trigger] text::stands_at(b, p, j),
    ensures
        text::rfind(a + p + b, p) == Some(a.len() as int),
{
    let s = a + p + b;
    let i = a.len() as int;
    let n = p.len() as int;
    assert(s.subrange(i, i + n) =~= p);
    assert forall|j: int| i < j implies !#[trigger] text::stands_at(s, p, j) by {
        if text::stands_at(s, p, j) {
            if j >= i + n {
                assert(b.subrange(j - i - n, j - i) =~= s.subrange(j, j + n));
                assert(text::stands_at(b, p, j - i - n));
            } else {
                assert(s.subrange(j, j + n)[0] == p[0]);
                assert(s[j] == p[j - i]);
            }
        }
    }
    text::lemma_rfind_at(s, p, i);
}

/// A line without a mark keeps its last 220 characters, and a shorter one everything.
pub proof fn law_unmarked_lines_keep_their_end(s: Seq<char>)
    requires
        s.len() > 0 ==> !text::is_space(s[0]) && !text::is_space(s.last()),
        text::rfind(s, "[3/4]"@) is None,
        text::rfind(s, "[4/4]"@) is None,
    ensures
        s.len() <= 220 ==> progress::compact(s) == s,
        s.len() > 220 ==> progress::compact(s).len() == 220 && progress::compact(s)
            == s.subrange(s.len() - 220, s.len() as int),
{
    text::lemma_trim_keeps(s);
}

} // verus!
