//! The redraws of croc's progress bar: what was drawn is what is read.

use crate::binary64::whole;
use crate::croc;
use crate::croc::BarModel;
use crate::numerals;
use crate::numerals::Real;
use crate::readings;
use crate::text;
use crate::units;
use vstd::prelude::*;

verus! {

/// The amounts in a bar: `56/600 MB, 4 MB/s`.
pub open spec fn amounts(d: nat, t: nat, v: nat, unit: Seq<char>) -> Seq<char> {
    numerals::decimal(d) + seq!['/'] + numerals::decimal(t) + seq![' '] + unit + seq![','] + (seq![
        ' ',
    ] + (numerals::decimal(v) + seq![' '] + unit + seq!['/', 's']))
}

/// A bar as croc draws it: `name 56% |███   | (stats)` and what stands behind it.
pub open spec fn drawn(
    name: Seq<char>,
    p: nat,
    glyphs: Seq<char>,
    stats: Seq<char>,
    end: Seq<char>,
) -> Seq<char> {
    name + seq![' '] + numerals::decimal(p) + (seq!['%', ' ', '|'] + (glyphs + seq!['|'] + (seq![
        ' ',
        '(',
    ] + (stats + seq![')'] + end))))
}

/// A name and the glyphs of a bar that cannot be taken for anything else.
pub open spec fn is_drawable(name: Seq<char>, glyphs: Seq<char>) -> bool {
    &&& name.len() > 0
    &&& !text::is_space(name[0])
    &&& !text::is_space(name.last())
    &&& !name.contains('%')
    &&& glyphs.len() > 0
    &&& !glyphs.contains('|')
    &&& forall|i: int| 0 <= i < glyphs.len() ==> !croc::is_alphanumeric(#[trigger] glyphs[i])
}

proof fn lemma_percent_skips(s: Seq<char>, i: int, k: int)
    requires
        0 <= i <= k < s.len(),
        forall|j: int| i <= j < k ==> #[trigger] s[j] != '%',
    ensures
        croc::percent_from(s, i) == croc::percent_from(s, k),
    decreases k - i,
{
    if i < k {
        assert(s[i] != '%');
        lemma_percent_skips(s, i + 1, k);
    }
}

proof fn lemma_trailing(a: Seq<char>, d: Seq<char>)
    requires
        numerals::all_digits(d),
        a.len() > 0,
        !text::is_digit(a.last()),
    ensures
        croc::trailing_digits(a + d) == d.len(),
    decreases d.len(),
{
    let s = a + d;
    if d.len() > 0 {
        let less = d.drop_last();
        assert(text::is_digit(d[d.len() - 1]));
        assert(s.last() == d[d.len() - 1]);
        assert(s.drop_last() =~= a + less);
        assert forall|i: int| 0 <= i < less.len() implies text::is_digit(#[trigger] less[i]) by {
            assert(less[i] == d[i]);
        }
        lemma_trailing(a, less);
    } else {
        assert(s =~= a);
    }
}

proof fn lemma_three_digits(p: nat)
    requires
        p <= 100,
    ensures
        1 <= numerals::decimal(p).len() <= 3,
{
    reveal_with_fuel(numerals::decimal, 4);
}

proof fn lemma_sign(name: Seq<char>, p: nat, glyphs: Seq<char>, behind: Seq<char>)
    requires
        is_drawable(name, glyphs),
        p <= 100,
    ensures
        ({
            let d = numerals::decimal(p);
            let s = name + seq![' '] + d + (seq!['%', ' ', '|'] + (glyphs + seq!['|'] + behind));
            let k = (name.len() + 1 + d.len()) as int;
            &&& croc::percent_from(s, 0) == Some((k, name.len() as int + 1))
            &&& text::trim_start(s.skip(k + 1)) == seq!['|'] + (glyphs + seq!['|'] + behind)
            &&& text::find(glyphs + seq!['|'] + behind, "|"@) == Some(glyphs.len() as int)
        }),
{
    let d = numerals::decimal(p);
    let inner = glyphs + seq!['|'] + behind;
    let s = name + seq![' '] + d + (seq!['%', ' ', '|'] + inner);
    let k = (name.len() + 1 + d.len()) as int;
    reveal_strlit("|");
    assert("|"@ =~= seq!['|']);
    numerals::law_decimal_is_read_back(p);
    lemma_three_digits(p);
    assert(s[k] == '%');
    assert forall|j: int| 0 <= j < k implies #[trigger] s[j] != '%' by {
        if j < name.len() {
            assert(s[j] == name[j]);
            if s[j] == '%' {
                assert(name.contains('%'));
            }
        } else if j > name.len() {
            assert(s[j] == d[j - name.len() - 1]);
            assert(text::is_digit(d[j - name.len() - 1]));
        }
    }
    lemma_percent_skips(s, 0, k);
    assert(s.take(k) =~= (name + seq![' ']) + d);
    assert((name + seq![' ']).last() == ' ');
    lemma_trailing(name + seq![' '], d);
    let t = s.skip(k + 1);
    assert(t =~= seq![' '] + (seq!['|'] + inner));
    assert(t[0] == ' ');
    assert(t.skip(1) =~= seq!['|'] + inner);
    let after = seq!['|'] + inner;
    assert(after[0] == '|');
    assert(text::trim_start(t) == text::trim_start(t.skip(1)));
    assert(text::trim_start(after) == after);
    assert(after.skip(1) =~= inner);
    text::law_split_at_the_first(glyphs, '|', behind);
    assert forall|i: int| 0 <= i < glyphs.len() implies !croc::is_alphanumeric(
        #[trigger] after.skip(1)[i],
    ) by {
        assert(after.skip(1)[i] == glyphs[i]);
    }
    assert(croc::bar_follows(t));
    assert(croc::percent_at(s, k));
}

/// A bar is read as it was drawn: its name, what its brackets say, and behind them the
/// time left or the counter of files.
proof fn lemma_drawn(
    name: Seq<char>,
    p: nat,
    glyphs: Seq<char>,
    stats: Seq<char>,
    end: Seq<char>,
)
    requires
        is_drawable(name, glyphs),
        p <= 100,
        croc::bar_stats(stats) is Some,
        !end.contains(')'),
        end.len() > 0 ==> !text::is_space(end.last()),
    ensures
        ({
            let ((done, total), speed) = croc::bar_stats(stats)->0;
            let (eta, tail) = croc::bar_times(text::trim(end));
            let (index, count) = croc::bar_counter(tail);
            croc::bar_frame(drawn(name, p, glyphs, stats, end)) == Some(
                BarModel {
                    file_name: name,
                    done_bytes: done,
                    total_bytes: total,
                    speed_bps: speed,
                    eta_secs: eta,
                    file_index: index,
                    file_count: count,
                },
            )
        }),
{
    let d = numerals::decimal(p);
    let within = stats + seq![')'] + end;
    let behind = seq![' ', '('] + within;
    let inner = glyphs + seq!['|'] + behind;
    let tail = seq!['%', ' ', '|'] + inner;
    let s = drawn(name, p, glyphs, stats, end);
    let sign = (name.len() + 1 + d.len()) as int;
    let close = glyphs.len() as int;
    lemma_sign(name, p, glyphs, behind);
    lemma_front(name, p, tail);
    lemma_brackets(glyphs, within);
    lemma_within(stats, end);
    assert(text::trim(s) == s) by {
        let all = seq![' '] + d + tail;
        assert(name + all =~= s);
        assert(all.last() == within.last());
        lemma_ends(name, all, end);
    }
    lemma_assembled(
        s,
        sign,
        name.len() as int + 1,
        inner,
        close,
        seq!['('] + within,
        within,
        stats.len() as int,
    );
}

proof fn lemma_ends(name: Seq<char>, tail: Seq<char>, end: Seq<char>)
    requires
        name.len() > 0,
        !text::is_space(name[0]),
        end.len() > 0 ==> !text::is_space(end.last()),
        tail.len() > 0,
        tail.last() == (if end.len() > 0 {
            end.last()
        } else {
            ')'
        }),
    ensures
        text::trim(name + tail) == name + tail,
{
    let s = name + tail;
    assert(s[0] == name[0]);
    assert(s.last() == tail[tail.len() - 1]);
    text::lemma_trim_keeps(s);
}

proof fn lemma_front(name: Seq<char>, p: nat, tail: Seq<char>)
    requires
        name.len() > 0,
        !text::is_space(name[0]),
        !text::is_space(name.last()),
        p <= 100,
    ensures
        ({
            let d = numerals::decimal(p);
            let s = name + seq![' '] + d + tail;
            let digits = name.len() as int + 1;
            &&& numerals::digits_value(s.subrange(digits, digits + d.len())) <= 100
            &&& text::trim(s.take(digits)) == name
        }),
{
    let d = numerals::decimal(p);
    let s = name + seq![' '] + d + tail;
    let digits = name.len() as int + 1;
    numerals::law_decimal_is_read_back(p);
    assert(s.subrange(digits, digits + d.len()) =~= d);
    assert(s.take(digits) =~= name + seq![' ']);
    lemma_name(name);
}

proof fn lemma_brackets(glyphs: Seq<char>, within: Seq<char>)
    ensures
        ({
            let inner = glyphs + seq!['|'] + (seq![' ', '('] + within);
            let rest = seq!['('] + within;
            &&& (seq!['|'] + inner).skip(1) == inner
            &&& text::trim_start(inner.skip(glyphs.len() as int + 1)) == rest
            &&& rest.skip(1) == within
            &&& "("@.is_prefix_of(rest)
        }),
{
    let behind = seq![' ', '('] + within;
    let inner = glyphs + seq!['|'] + behind;
    let rest = seq!['('] + within;
    assert((seq!['|'] + inner).skip(1) =~= inner);
    assert(inner.skip(glyphs.len() as int + 1) =~= behind);
    assert(behind[0] == ' ');
    assert(behind.skip(1) =~= rest);
    assert(rest[0] == '(');
    assert(text::trim_start(behind) == text::trim_start(behind.skip(1)));
    assert(text::trim_start(rest) == rest);
    assert(rest.skip(1) =~= within);
    reveal_strlit("(");
    assert(rest.subrange(0, 1) =~= "("@);
}

proof fn lemma_within(stats: Seq<char>, end: Seq<char>)
    requires
        !end.contains(')'),
    ensures
        ({
            let within = stats + seq![')'] + end;
            &&& text::rfind(within, ")"@) == Some(stats.len() as int)
            &&& within.take(stats.len() as int) == stats
            &&& within.skip(stats.len() as int + 1) == end
            &&& within.last() == (if end.len() > 0 {
                end.last()
            } else {
                ')'
            })
        }),
{
    let within = stats + seq![')'] + end;
    reveal_strlit(")");
    assert(")"@ =~= seq![')']);
    text::law_the_last_is_found(stats, ')', end);
    assert(within.take(stats.len() as int) =~= stats);
    assert(within.skip(stats.len() as int + 1) =~= end);
}

/// A bar is put together from its parts.
proof fn lemma_assembled(
    s: Seq<char>,
    sign: int,
    digits: int,
    inner: Seq<char>,
    close: int,
    rest: Seq<char>,
    within: Seq<char>,
    end: int,
)
    requires
        text::trim(s) == s,
        croc::percent_from(s, 0) == Some((sign, digits)),
        text::trim_start(s.skip(sign + 1)).skip(1) == inner,
        text::find(inner, "|"@) == Some(close),
        text::trim_start(inner.skip(close + 1)) == rest,
        rest.skip(1) == within,
        "("@.is_prefix_of(rest),
        text::rfind(within, ")"@) == Some(end),
        numerals::digits_value(s.subrange(digits, sign)) <= 100,
        croc::bar_stats(within.take(end)) is Some,
    ensures
        ({
            let ((done, total), speed) = croc::bar_stats(within.take(end))->0;
            let (eta, tail) = croc::bar_times(text::trim(within.skip(end + 1)));
            let (index, count) = croc::bar_counter(tail);
            croc::bar_frame(s) == Some(
                BarModel {
                    file_name: text::trim(s.take(digits)),
                    done_bytes: done,
                    total_bytes: total,
                    speed_bps: speed,
                    eta_secs: eta,
                    file_index: index,
                    file_count: count,
                },
            )
        }),
{
}

proof fn lemma_name(name: Seq<char>)
    requires
        name.len() > 0,
        !text::is_space(name[0]),
        !text::is_space(name.last()),
    ensures
        text::trim(name + seq![' ']) == name,
{
    let s = name + seq![' '];
    assert(s[0] == name[0]);
    assert(s.last() == ' ');
    assert(s.drop_last() =~= name);
    assert(text::trim_end(s) == text::trim_end(s.drop_last()));
    assert(text::trim_end(name) == name);
}

proof fn lemma_amounts(d: nat, t: nat, v: nat, unit: Seq<char>, u: nat)
    requires
        is_amount(d, t, v, unit, u),
    ensures
        croc::bar_stats(amounts(d, t, v, unit)) == Some(
            (
                ((d * u) as u64, (t * u) as u64),
                Some(Real::Number { negative: false, units: whole(v * u) }),
            ),
        ),
{
    let a = numerals::decimal(d) + seq!['/'] + numerals::decimal(t) + seq![' '] + unit;
    let b = seq![' '] + (numerals::decimal(v) + seq![' '] + unit + seq!['/', 's']);
    reveal_strlit(",");
    assert(","@ =~= seq![',']);
    lemma_no_comma(d);
    lemma_no_comma(t);
    lemma_no_comma(v);
    let x = numerals::decimal(d);
    let y = numerals::decimal(t);
    let z = numerals::decimal(v);
    assert(!a.contains(',')) by {
        if a.contains(',') {
            let i = choose|i: int| 0 <= i < a.len() && a[i] == ',';
            if i < x.len() {
                assert(x[i] == ',');
            } else if x.len() < i < x.len() + 1 + y.len() {
                assert(y[i - x.len() - 1] == ',');
            } else if i > x.len() + 1 + y.len() {
                assert(unit[i - x.len() - y.len() - 2] == ',');
            }
        }
    }
    assert(!b.contains(',')) by {
        if b.contains(',') {
            let i = choose|i: int| 0 <= i < b.len() && b[i] == ',';
            if 1 <= i < 1 + z.len() {
                assert(z[i - 1] == ',');
            } else if 1 + z.len() < i < 2 + z.len() + unit.len() {
                assert(unit[i - z.len() - 2] == ',');
            }
        }
    }
    text::law_split_at_the_first(a, ',', b);
    text::lemma_no_split(b, ',');
    readings::law_bars_amounts_are_read_as_written(d, t, v, unit, u);
    numerals::law_decimal_is_read_back(d);
    assert(text::is_digit(x[0]));
    assert(a[0] == x[0] && a.last() == unit[unit.len() - 1]);
    text::lemma_trim_keeps(a);
    assert(amounts(d, t, v, unit) =~= a + seq![','] + b);
}

proof fn lemma_no_comma(n: nat)
    ensures
        !numerals::decimal(n).contains(','),
{
    let s = numerals::decimal(n);
    numerals::law_decimal_is_read_back(n);
    if s.contains(',') {
        let i = choose|i: int| 0 <= i < s.len() && s[i] == ',';
        assert(text::is_digit(s[i]));
    }
}

/// Amounts of whole units that are small enough to be exact.
pub open spec fn is_amount(d: nat, t: nat, v: nat, unit: Seq<char>, u: nat) -> bool {
    &&& 0 < t
    &&& readings::is_unit_word(unit)
    &&& !unit.contains(',')
    &&& units::croc_unit_bytes(text::lowercase(unit)) == Some(u)
    &&& 0 < u
    &&& d + u < 0x20_0000_0000_0000 && t + u < 0x20_0000_0000_0000 && v + u < 0x20_0000_0000_0000
    &&& d * u < 0x10_0000_0000_0000 && t * u < 0x10_0000_0000_0000 && v * u < 0x10_0000_0000_0000
}

/// A bar is read as it was drawn: the name, the bytes that are done and that there are,
/// and the speed. The last redraw of a file carries the counter of files; before it, the
/// time left is what stands behind the colon.
pub proof fn law_bars_are_read_as_drawn(
    name: Seq<char>,
    p: nat,
    glyphs: Seq<char>,
    d: nat,
    t: nat,
    v: nat,
    unit: Seq<char>,
    u: nat,
    k: u64,
    n: u64,
    passed: Seq<char>,
    m: nat,
    s: nat,
)
    requires
        is_drawable(name, glyphs),
        p <= 100,
        is_amount(d, t, v, unit, u),
        !passed.contains(':') && !passed.contains(']') && !passed.contains(')'),
        m < 0x1_0000_0000,
        s < 0x1_0000_0000,
    ensures
        ({
            let read = BarModel {
                file_name: name,
                done_bytes: (d * u) as u64,
                total_bytes: (t * u) as u64,
                speed_bps: Some(Real::Number { negative: false, units: whole(v * u) }),
                eta_secs: None,
                file_index: None,
                file_count: None,
            };
            let stats = amounts(d, t, v, unit);
            let counter = numerals::decimal(k as nat) + seq!['/'] + numerals::decimal(n as nat);
            let left = numerals::decimal(m) + seq!['m'] + (numerals::decimal(s) + seq!['s']);
            let times = seq!['['] + (passed + seq![':'] + left) + seq![']'];
            &&& croc::bar_frame(drawn(name, p, glyphs, stats, Seq::empty())) == Some(read)
            &&& croc::bar_frame(drawn(name, p, glyphs, stats, seq![' '] + counter)) == Some(
                BarModel { file_index: Some(k), file_count: Some(n), ..read },
            )
            &&& croc::bar_frame(drawn(name, p, glyphs, stats, seq![' '] + times)) == Some(
                BarModel { eta_secs: Some(whole(60 * m + s)), ..read },
            )
        }),
{
    let stats = amounts(d, t, v, unit);
    lemma_amounts(d, t, v, unit, u);
    let none = Seq::<char>::empty();
    lemma_drawn(name, p, glyphs, stats, none);
    lemma_no_end();
    let counter = numerals::decimal(k as nat) + seq!['/'] + numerals::decimal(n as nat);
    lemma_counter_end(k, n);
    lemma_drawn(name, p, glyphs, stats, seq![' '] + counter);
    let left = numerals::decimal(m) + seq!['m'] + (numerals::decimal(s) + seq!['s']);
    let times = seq!['['] + (passed + seq![':'] + left) + seq![']'];
    lemma_times_end(passed, m, s);
    lemma_drawn(name, p, glyphs, stats, seq![' '] + times);
}

proof fn lemma_no_end()
    ensures
        ({
            let none = Seq::<char>::empty();
            &&& !none.contains(')')
            &&& text::trim(none) == none
            &&& croc::bar_times(none) == (None::<nat>, none)
            &&& croc::bar_counter(none) == (None::<u64>, None::<u64>)
        }),
{
    let none = Seq::<char>::empty();
    reveal_strlit("[");
    assert(!"["@.is_prefix_of(none));
    assert(text::words(none) =~= Seq::empty());
}

proof fn lemma_counter_end(k: u64, n: u64)
    ensures
        ({
            let counter = numerals::decimal(k as nat) + seq!['/'] + numerals::decimal(n as nat);
            let end = seq![' '] + counter;
            &&& !end.contains(')')
            &&& !text::is_space(end.last())
            &&& text::trim(end) == counter
            &&& croc::bar_times(counter) == (None::<nat>, counter)
            &&& croc::bar_counter(counter) == (Some(k), Some(n))
        }),
{
    let a = numerals::decimal(k as nat);
    let b = numerals::decimal(n as nat);
    let counter = a + seq!['/'] + b;
    let end = seq![' '] + counter;
    numerals::law_decimal_is_read_back(k as nat);
    numerals::law_decimal_is_read_back(n as nat);
    numerals::lemma_digits_have_no_marks(a);
    numerals::lemma_digits_have_no_marks(b);
    reveal_strlit("/");
    reveal_strlit("[");
    assert("/"@ =~= seq!['/']);
    text::law_split_at_the_first(a, '/', b);
    assert(text::is_digit(a[0]) && text::is_digit(b[b.len() - 1]));
    assert(counter[0] == a[0] && counter.last() == b[b.len() - 1]);
    text::lemma_trim_keeps(counter);
    text::lemma_trim_drops_first(end);
    assert(end.skip(1) =~= counter);
    assert(end.last() == counter.last());
    assert forall|i: int| 0 <= i < counter.len() implies !text::is_space(#[trigger] counter[i])
        && counter[i] != ')' by {
        if i < a.len() {
            assert(counter[i] == a[i] && text::is_digit(a[i]));
        } else if i > a.len() {
            assert(counter[i] == b[i - a.len() - 1] && text::is_digit(b[i - a.len() - 1]));
        }
    }
    assert(!end.contains(')')) by {
        if end.contains(')') {
            let i = choose|i: int| 0 <= i < end.len() && end[i] == ')';
            if i > 0 {
                assert(end[i] == counter[i - 1]);
            }
        }
    }
    assert(!"["@.is_prefix_of(counter)) by {
        if "["@.is_prefix_of(counter) {
            assert(counter.subrange(0, 1)[0] == "["@[0]);
        }
    }
    text::lemma_first_word(counter, Seq::empty());
    assert(counter + Seq::<char>::empty() =~= counter);
    assert(text::words(counter)[0] == counter);
}

proof fn lemma_times_end(passed: Seq<char>, m: nat, s: nat)
    requires
        !passed.contains(':') && !passed.contains(']') && !passed.contains(')'),
        m < 0x1_0000_0000,
        s < 0x1_0000_0000,
    ensures
        ({
            let left = numerals::decimal(m) + seq!['m'] + (numerals::decimal(s) + seq!['s']);
            let times = seq!['['] + (passed + seq![':'] + left) + seq![']'];
            let end = seq![' '] + times;
            &&& !end.contains(')')
            &&& !text::is_space(end.last())
            &&& text::trim(end) == times
            &&& croc::bar_times(times) == (Some(whole(60 * m + s)), Seq::<char>::empty())
            &&& croc::bar_counter(Seq::empty()) == (None::<u64>, None::<u64>)
        }),
{
    let a = numerals::decimal(m);
    let b = numerals::decimal(s);
    let left = a + seq!['m'] + (b + seq!['s']);
    let inside = passed + seq![':'] + left;
    let times = seq!['['] + inside + seq![']'];
    let end = seq![' '] + times;
    let head = seq!['['] + inside;
    lemma_left(m, s);
    assert forall|i: int| 0 <= i < inside.len() implies #[trigger] inside[i] != ']' && inside[i]
        != ')' by {
        if i < passed.len() {
            assert(inside[i] == passed[i]);
            assert(passed.contains(inside[i]));
        } else if i > passed.len() {
            assert(inside[i] == left[i - passed.len() - 1]);
        }
    }
    assert(text::find(times, "]"@) == Some(head.len() as int)) by {
        reveal_strlit("]");
        assert("]"@ =~= seq![']']);
        if head.contains(']') {
            let i = choose|i: int| 0 <= i < head.len() && head[i] == ']';
            if i > 0 {
                assert(head[i] == inside[i - 1]);
            }
        }
        text::law_split_at_the_first(head, ']', Seq::empty());
        assert(times =~= head + seq![']'] + Seq::<char>::empty());
    }
    assert("["@.is_prefix_of(times)) by {
        reveal_strlit("[");
        assert(times.subrange(0, 1) =~= "["@);
    }
    assert(times.subrange(1, head.len() as int) == inside) by {
        assert(times.subrange(1, head.len() as int) =~= inside);
    }
    assert(text::split_once(inside, ":"@) == Some((passed, left))) by {
        reveal_strlit(":");
        assert(":"@ =~= seq![':']);
        text::law_split_at_the_first(passed, ':', left);
    }
    assert(text::trim(times.skip(head.len() as int + 1)) == Seq::<char>::empty()) by {
        assert(times.skip(head.len() as int + 1) =~= Seq::empty());
        lemma_no_end();
    }
    lemma_no_end();
    assert(text::trim(end) == times) by {
        assert(times[0] == '[' && times.last() == ']');
        text::lemma_trim_keeps(times);
        text::lemma_trim_drops_first(end);
        assert(end.skip(1) =~= times);
    }
    assert(end.last() == ']');
    assert(!end.contains(')')) by {
        if end.contains(')') {
            let i = choose|i: int| 0 <= i < end.len() && end[i] == ')';
            if 2 <= i < 2 + inside.len() {
                assert(end[i] == inside[i - 2]);
            }
        }
    }
}

proof fn lemma_left(m: nat, s: nat)
    requires
        m < 0x1_0000_0000,
        s < 0x1_0000_0000,
    ensures
        ({
            let left = numerals::decimal(m) + seq!['m'] + (numerals::decimal(s) + seq!['s']);
            &&& croc::go_duration(left) == Some(whole(60 * m + s))
            &&& forall|i: int|
                0 <= i < left.len() ==> #[trigger] left[i] != ']' && left[i] != ')'
        }),
{
    let a = numerals::decimal(m);
    let b = numerals::decimal(s);
    let left = a + seq!['m'] + (b + seq!['s']);
    numerals::law_decimal_is_read_back(m);
    numerals::law_decimal_is_read_back(s);
    readings::law_durations_are_read_as_written(m, s);
    assert forall|i: int| 0 <= i < left.len() implies #[trigger] left[i] != ']' && left[i] != ')' by {
        if i < a.len() {
            assert(left[i] == a[i] && text::is_digit(a[i]));
        } else if a.len() < i < a.len() + 1 + b.len() {
            assert(left[i] == b[i - a.len() - 1] && text::is_digit(b[i - a.len() - 1]));
        }
    }
}

} // verus!
