//! Sizes, speeds and times as the user reads them.

use crate::binary64;
use crate::binary64::Magnitude;
use crate::numerals;
use crate::numerals::{Reading, Real};
use crate::text;
use vstd::arithmetic::power2::pow2;
use vstd::prelude::*;
use vstd::slice::slice_subrange;

verus! {

/// `bytes` over a power of two, in double precision.
pub open spec fn in_units(bytes: u64, unit: nat) -> nat {
    binary64::quotient(binary64::whole(bytes as nat), binary64::whole(unit))
}

/// A size in binary units with two decimals: `1.50 MiB`.
pub open spec fn size_unit(bytes: u64) -> Seq<char> {
    let b = binary64::whole(bytes as nat);
    if b >= 1073741824 * binary64::one() {
        numerals::fixed(in_units(bytes, 1073741824), 2) + " GiB"@
    } else if b >= 1048576 * binary64::one() {
        numerals::fixed(in_units(bytes, 1048576), 2) + " MiB"@
    } else if b >= 1024 * binary64::one() {
        numerals::fixed(in_units(bytes, 1024), 2) + " KiB"@
    } else {
        numerals::decimal(bytes as nat) + " B"@
    }
}

/// A size in powers of 1024 with one decimal: `1.5 MB`.
pub open spec fn file_size(bytes: u64) -> Seq<char> {
    if bytes >= 1073741824 {
        numerals::fixed(in_units(bytes, 1073741824), 1) + " GB"@
    } else if bytes >= 1048576 {
        numerals::fixed(in_units(bytes, 1048576), 1) + " MB"@
    } else if bytes >= 1024 {
        numerals::fixed(in_units(bytes, 1024), 1) + " KB"@
    } else {
        numerals::decimal(bytes as nat) + " B"@
    }
}

/// A speed in binary units: `1.50 MiB/s`, and `0 B/s` at zero and below.
pub open spec fn speed_unit(speed: Real) -> Seq<char> {
    if speed.not_above_zero() {
        "0 B/s"@
    } else {
        size_unit(speed.to_u64_rounded()) + "/s"@
    }
}

/// Hours, minutes and seconds: `01:02:03`.
pub open spec fn clock(secs: u64) -> Seq<char> {
    numerals::two_digits((secs / 3600) as nat) + ":"@ + numerals::two_digits(
        ((secs % 3600) / 60) as nat,
    ) + ":"@ + numerals::two_digits((secs % 60) as nat)
}

/// Seconds as `45s`, `2m 3s` or `1h 4m`; dashes where there is no time left to tell.
pub open spec fn eta(secs: Real) -> Seq<char> {
    if !secs.above_zero() || (secs matches Real::Number { units, .. } && units
        >= binary64::infinity()) {
        "--"@
    } else {
        let n = secs.to_u64_rounded();
        if n < 60 {
            numerals::decimal(n as nat) + "s"@
        } else if n < 3600 {
            numerals::decimal((n / 60) as nat) + "m "@ + numerals::decimal((n % 60) as nat) + "s"@
        } else {
            numerals::decimal((n / 3600) as nat) + "h "@ + numerals::decimal(
                ((n % 3600) / 60) as nat,
            ) + "m"@
        }
    }
}

/// The number of marks in a request's bar that are filled.
pub open spec fn filled_marks(done: u64, total: u64, width: u64) -> u64 {
    binary64::truncated(
        binary64::product(
            binary64::quotient(binary64::whole(done as nat), binary64::whole(total as nat)),
            binary64::whole(width as nat),
        ),
    )
}

/// A request's bar: `###>----`.
pub open spec fn request_bar(done: u64, total: u64, width: u64) -> Seq<char> {
    let total: u64 = if total == 0 {
        1
    } else {
        total
    };
    if done >= total {
        Seq::new(width as nat, |i: int| '#')
    } else {
        let filled = filled_marks(done, total, width);
        Seq::new(
            width as nat,
            |i: int|
                if i < filled {
                    '#'
                } else if i == filled {
                    '>'
                } else {
                    '-'
                },
        )
    }
}

/// A request's bar is as wide as it was asked to be, and never shrinks: what is
/// filled stays filled when more is done.
pub proof fn law_request_bar_never_shrinks(done: u64, more: u64, total: u64, width: u64)
    requires
        done <= more,
    ensures
        request_bar(done, total, width).len() == width,
        forall|i: int|
            0 <= i < width && #[trigger] request_bar(done, total, width)[i] == '#' ==> request_bar(
                more,
                total,
                width,
            )[i] == '#',
{
    let whole: u64 = if total == 0 {
        1
    } else {
        total
    };
    let t = binary64::whole(whole as nat);
    let a = binary64::quotient(binary64::whole(done as nat), t);
    let b = binary64::quotient(binary64::whole(more as nat), t);
    let w = binary64::whole(width as nat);
    binary64::lemma_whole_positive(whole as nat);
    binary64::lemma_whole_grows(done as nat, more as nat);
    binary64::lemma_quotient_grows(
        binary64::whole(done as nat),
        binary64::whole(more as nat),
        t,
    );
    binary64::lemma_product_grows(a, b, w);
    binary64::lemma_truncated_grows(binary64::product(a, w), binary64::product(b, w));
    assert(filled_marks(done, whole, width) <= filled_marks(more, whole, width));
}

/// A line about one request of a receiver.
pub open spec fn request_line(hash: Seq<char>, elapsed: u64, done: u64, total: u64) -> Seq<char> {
    hash + " ["@ + clock(elapsed) + "]  ["@ + request_bar(done, total, 36) + "] "@ + size_unit(done)
        + "/"@ + size_unit(total)
}

/// `value` cut in its middle to at most `max` characters.
pub open spec fn cut_middle(value: Seq<char>, max: nat) -> Seq<char> {
    if value.len() <= max {
        value
    } else if max <= 10 {
        value.take(max as int)
    } else {
        let head = ((max - 1) * 2) / 3;
        let tail = max - (head + 1);
        value.take(head) + seq!['\u{2026}'] + value.skip(value.len() - tail)
    }
}

/// A text that is cut has the asked length, and one that fits stays as it is.
pub proof fn law_cut_middle_length(value: Seq<char>, max: nat)
    ensures
        cut_middle(value, max).len() <= max,
        value.len() <= max ==> cut_middle(value, max) == value,
        value.len() > max ==> cut_middle(value, max).len() == max,
{
}

/// Cutting a text again changes nothing.
pub proof fn law_cut_middle_idempotent(value: Seq<char>, max: nat)
    ensures
        cut_middle(cut_middle(value, max), max) == cut_middle(value, max),
{
    law_cut_middle_length(value, max);
    law_cut_middle_length(cut_middle(value, max), max);
}

fn over_unit(bytes: u64, unit: u64) -> (r: Magnitude)
    requires
        unit == 1024 || unit == 1048576 || unit == 1073741824,
    ensures
        r@ == in_units(bytes, unit as nat),
{
    let d = Magnitude::from_u64(unit);
    proof {
        binary64::lemma_whole_positive(unit as nat);
    }
    Magnitude::from_u64(bytes).over(&d)
}

/// Appends a size in binary units.
pub fn push_size_unit(out: &mut Vec<char>, bytes: u64)
    ensures
        final(out)@ == old(out)@ + size_unit(bytes),
{
    let b = Magnitude::from_u64(bytes);
    let ghost before = out@;
    if !b.is_below(1073741824) {
        let v = over_unit(bytes, 1073741824);
        numerals::push_hundredths(out, &v);
        text::push_text(out, " GiB");
    } else if !b.is_below(1048576) {
        let v = over_unit(bytes, 1048576);
        numerals::push_hundredths(out, &v);
        text::push_text(out, " MiB");
    } else if !b.is_below(1024) {
        let v = over_unit(bytes, 1024);
        numerals::push_hundredths(out, &v);
        text::push_text(out, " KiB");
    } else {
        numerals::push_decimal(out, bytes);
        text::push_text(out, " B");
    }
    assert(out@ =~= before + size_unit(bytes));
}

/// A size in binary units with two decimals.
pub fn format_size_unit(bytes: u64) -> (r: String)
    ensures
        r@ == size_unit(bytes),
{
    let mut out: Vec<char> = Vec::new();
    push_size_unit(&mut out, bytes);
    assert(out@ =~= size_unit(bytes));
    text::string_of(out.as_slice())
}

/// Appends a size with one decimal.
pub fn push_file_size(out: &mut Vec<char>, bytes: u64)
    ensures
        final(out)@ == old(out)@ + file_size(bytes),
{
    let ghost before = out@;
    if bytes >= 1073741824 {
        let v = over_unit(bytes, 1073741824);
        numerals::push_tenths(out, &v);
        text::push_text(out, " GB");
    } else if bytes >= 1048576 {
        let v = over_unit(bytes, 1048576);
        numerals::push_tenths(out, &v);
        text::push_text(out, " MB");
    } else if bytes >= 1024 {
        let v = over_unit(bytes, 1024);
        numerals::push_tenths(out, &v);
        text::push_text(out, " KB");
    } else {
        numerals::push_decimal(out, bytes);
        text::push_text(out, " B");
    }
    assert(out@ =~= before + file_size(bytes));
}

/// A size in powers of 1024 with one decimal.
pub fn format_file_size(bytes: u64) -> (r: String)
    ensures
        r@ == file_size(bytes),
{
    let mut out: Vec<char> = Vec::new();
    push_file_size(&mut out, bytes);
    assert(out@ =~= file_size(bytes));
    text::string_of(out.as_slice())
}

/// Appends a speed in binary units.
pub fn push_speed_unit(out: &mut Vec<char>, speed: &Reading)
    ensures
        final(out)@ == old(out)@ + speed_unit(speed@),
{
    let ghost before = out@;
    if speed.is_not_above_zero() {
        text::push_text(out, "0 B/s");
    } else {
        push_size_unit(out, speed.to_u64_rounded());
        text::push_text(out, "/s");
    }
    assert(out@ =~= before + speed_unit(speed@));
}

/// A speed in binary units.
pub fn format_speed_unit(speed: &Reading) -> (r: String)
    ensures
        r@ == speed_unit(speed@),
{
    let mut out: Vec<char> = Vec::new();
    push_speed_unit(&mut out, speed);
    assert(out@ =~= speed_unit(speed@));
    text::string_of(out.as_slice())
}

fn push_clock(out: &mut Vec<char>, secs: u64)
    ensures
        final(out)@ == old(out)@ + clock(secs),
{
    let ghost before = out@;
    numerals::push_two_digits(out, secs / 3600);
    text::push_text(out, ":");
    numerals::push_two_digits(out, (secs % 3600) / 60);
    text::push_text(out, ":");
    numerals::push_two_digits(out, secs % 60);
    assert(out@ =~= before + clock(secs));
}

/// Elapsed seconds as hours, minutes and seconds.
pub fn format_elapsed_precise(secs: u64) -> (r: String)
    ensures
        r@ == clock(secs),
{
    let mut out: Vec<char> = Vec::new();
    push_clock(&mut out, secs);
    assert(out@ =~= clock(secs));
    text::string_of(out.as_slice())
}

/// The time left, in hours, minutes and seconds.
pub fn format_eta_compact(secs: &Reading) -> (r: String)
    ensures
        r@ == eta(secs@),
{
    let mut out: Vec<char> = Vec::new();
    push_eta(&mut out, secs);
    assert(out@ =~= eta(secs@));
    text::string_of(out.as_slice())
}

/// Appends the time left.
pub fn push_eta(out: &mut Vec<char>, secs: &Reading)
    ensures
        final(out)@ == old(out)@ + eta(secs@),
{
    let ghost before = out@;
    let endless: bool = match secs {
        Reading::Nan => false,
        Reading::Number { negative: _, size } => size.is_infinite(),
    };
    if !secs.is_above_zero() || endless {
        text::push_text(out, "--");
        return;
    }
    let n: u64 = secs.to_u64_rounded();
    if n < 60 {
        numerals::push_decimal(out, n);
        text::push_text(out, "s");
    } else if n < 3600 {
        numerals::push_decimal(out, n / 60);
        text::push_text(out, "m ");
        numerals::push_decimal(out, n % 60);
        text::push_text(out, "s");
    } else {
        numerals::push_decimal(out, n / 3600);
        text::push_text(out, "h ");
        numerals::push_decimal(out, (n % 3600) / 60);
        text::push_text(out, "m");
    }
    assert(out@ =~= before + eta(secs@));
}

fn push_request_bar(out: &mut Vec<char>, done: u64, total: u64, width: u64)
    ensures
        final(out)@ == old(out)@ + request_bar(done, total, width),
{
    let whole: u64 = if total == 0 {
        1
    } else {
        total
    };
    let ghost before = out@;
    let ghost bar = request_bar(done, total, width);
    let full: bool = done >= whole;
    let filled: u64 = if full {
        width
    } else {
        proof {
            binary64::lemma_whole_positive(whole as nat);
        }
        Magnitude::from_u64(done).over(&Magnitude::from_u64(whole)).times(
            &Magnitude::from_u64(width),
        ).truncate()
    };
    let mut i: u64 = 0;
    assert(out@ =~= before + bar.take(0));
    while i < width
        invariant
            i <= width,
            bar == request_bar(done, total, width),
            bar.len() == width,
            forall|j: int|
                0 <= j < width ==> #[trigger] bar[j] == (if j < filled {
                    '#'
                } else if j == filled {
                    '>'
                } else {
                    '-'
                }),
            out@ == before + bar.take(i as int),
        decreases width - i,
    {
        let c: char = if i < filled {
            '#'
        } else if i == filled {
            '>'
        } else {
            '-'
        };
        out.push(c);
        assert(bar[i as int] == c);
        i += 1;
        assert(before + bar.take(i as int) =~= (before + bar.take(i - 1)).push(bar[i - 1]));
    }
    assert(bar.take(width as int) =~= bar);
}

/// A request's bar.
pub fn format_sender_request_bar(done: u64, total: u64, width: u64) -> (r: String)
    ensures
        r@ == request_bar(done, total, width),
{
    let mut out: Vec<char> = Vec::new();
    push_request_bar(&mut out, done, total, width);
    assert(out@ =~= request_bar(done, total, width));
    text::string_of(out.as_slice())
}

/// A line about one request of a receiver.
pub fn format_sender_request_line(hash: &str, elapsed: u64, done: u64, total: u64) -> (r: String)
    ensures
        r@ == request_line(hash@, elapsed, done, total),
{
    let mut out: Vec<char> = text::chars_of(hash);
    text::push_text(&mut out, " [");
    push_clock(&mut out, elapsed);
    text::push_text(&mut out, "]  [");
    push_request_bar(&mut out, done, total, 36);
    text::push_text(&mut out, "] ");
    push_size_unit(&mut out, done);
    text::push_text(&mut out, "/");
    push_size_unit(&mut out, total);
    assert(out@ =~= request_line(hash@, elapsed, done, total));
    text::string_of(out.as_slice())
}

/// Cuts a text in its middle to at most `max_chars` characters.
pub fn truncate_middle(value: &str, max_chars: usize) -> (r: String)
    ensures
        r@ == cut_middle(value@, max_chars as nat),
{
    let chars = text::chars_of(value);
    let s = chars.as_slice();
    if s.len() <= max_chars {
        return text::string_of(s);
    }
    if max_chars <= 10 {
        let head = slice_subrange(s, 0, max_chars);
        assert(head@ =~= value@.take(max_chars as int));
        return text::string_of(head);
    }
    let head: usize = (((max_chars - 1) as u128 * 2) / 3) as usize;
    let tail: usize = max_chars - (head + 1);
    let mut out: Vec<char> = Vec::new();
    let first = slice_subrange(s, 0, head);
    let last = slice_subrange(s, s.len() - tail, s.len());
    text::push_slice(&mut out, first);
    out.push('\u{2026}');
    text::push_slice(&mut out, last);
    assert(out@ =~= cut_middle(value@, max_chars as nat));
    text::string_of(out.as_slice())
}

/// Cuts a label in its middle to at most `max_chars` characters.
pub fn truncate_middle_for_ui(value: &str, max_chars: usize) -> (r: String)
    ensures
        r@ == cut_middle(value@, max_chars as nat),
{
    truncate_middle(value, max_chars)
}

/// A color component made lighter, at most white.
pub fn lighten_component(value: u8, amount: u8) -> (r: u8)
    ensures
        r == (if value + amount > 255 {
            255int
        } else {
            value + amount
        }),
{
    value.saturating_add(amount)
}

// ── What is read in them ──

proof fn lemma_in_units(n: nat, unit: nat)
    requires
        0 < unit <= 0x4000_0000,
        n * unit < 0x10_0000_0000_0000,
    ensures
        in_units((n * unit) as u64, unit) == n * binary64::one(),
{
    assert(n <= n * unit) by (nonlinear_arith)
        requires
            unit >= 1,
    ;
    binary64::law_whole_numbers_are_computed_exactly(n, unit);
    binary64::law_whole_is_exact(n);
}

/// Sizes are shown in the largest unit of 1024 that fits, with two decimals: whole
/// numbers of a unit with zeros for them.
pub proof fn law_sizes_are_shown_in_their_unit(n: nat)
    requires
        1 <= n < 1024,
    ensures
        size_unit(n as u64) == numerals::decimal(n) + " B"@,
        size_unit((n * 1024) as u64) == numerals::decimal(n) + seq!['.', '0', '0'] + " KiB"@,
        size_unit((n * 1048576) as u64) == numerals::decimal(n) + seq!['.', '0', '0'] + " MiB"@,
        size_unit((n * 1073741824) as u64) == numerals::decimal(n) + seq!['.', '0', '0']
            + " GiB"@,
        size_unit(0) == numerals::decimal(0) + " B"@,
        file_size(n as u64) == numerals::decimal(n) + " B"@,
        file_size((n * 1024) as u64) == numerals::decimal(n) + seq!['.', '0'] + " KB"@,
        file_size((n * 1048576) as u64) == numerals::decimal(n) + seq!['.', '0'] + " MB"@,
        file_size((n * 1073741824) as u64) == numerals::decimal(n) + seq!['.', '0'] + " GB"@,
        file_size(0) == numerals::decimal(0) + " B"@,
{
    let o = binary64::one();
    lemma_in_units(n, 1024);
    lemma_in_units(n, 1048576);
    lemma_in_units(n, 1073741824);
    binary64::law_whole_is_exact(0);
    binary64::law_whole_is_exact(n);
    binary64::law_whole_is_exact(n * 1024);
    binary64::law_whole_is_exact(n * 1048576);
    binary64::law_whole_is_exact(n * 1073741824);
    numerals::law_whole_numbers_have_zero_decimals(n);
    assert(forall|a: nat, b: nat| a < b ==> #[trigger] (a * o) < #[trigger] (b * o)) by {
        assert forall|a: nat, b: nat| a < b implies #[trigger] (a * o) < #[trigger] (b * o) by {
            assert(a * o < b * o) by (nonlinear_arith)
                requires
                    a < b,
                    o > 0,
            ;
        }
    }
    assert(0 * o < 1024 * o);
    assert(n * o < 1024 * o && 1024 * o < 1048576 * o && 1048576 * o < 1073741824 * o);
    assert(n * 1024 >= 1024 && n * 1024 < 1048576);
    assert((n * 1024) * o < 1048576 * o);
    assert((n * 1024) * o >= 1024 * o) by (nonlinear_arith)
        requires
            n >= 1,
    ;
    assert((n * 1048576) * o < 1073741824 * o);
    assert((n * 1048576) * o >= 1048576 * o) by (nonlinear_arith)
        requires
            n >= 1,
    ;
    assert((n * 1073741824) * o >= 1073741824 * o) by (nonlinear_arith)
        requires
            n >= 1,
    ;
}

/// A speed is shown as a size per second; below one byte there is none.
pub proof fn law_speeds_are_sizes_per_second(n: nat)
    requires
        0 < n < 0x10_0000_0000_0000,
    ensures
        speed_unit(Real::Number { negative: false, units: binary64::whole(n) }) == size_unit(
            n as u64,
        ) + "/s"@,
        speed_unit(Real::Number { negative: false, units: 0 }) == "0 B/s"@,
        speed_unit(Real::Number { negative: true, units: binary64::whole(n) }) == "0 B/s"@,
{
    binary64::law_whole_numbers_are_computed_exactly(n, 0);
    binary64::lemma_whole_positive(n);
}

/// A clock shows hours, minutes and seconds that make up the time: of minutes and of
/// seconds always two digits, and fewer than sixty of either.
pub proof fn law_clocks_add_up(secs: u64, h: nat, m: nat, s: nat)
    requires
        secs == 3600 * h + 60 * m + s,
        m < 60,
        s < 60,
    ensures
        clock(secs) == numerals::two_digits(h) + ":"@ + numerals::two_digits(m) + ":"@
            + numerals::two_digits(s),
{
}

/// The time that is left is shown in seconds below a minute, in minutes and seconds
/// below an hour, and else in hours and minutes.
#[verifier::spinoff_prover]
#[verifier::rlimit(40)]
pub proof fn law_times_left_add_up(h: nat, m: nat, s: nat)
    requires
        h < 0x1_0000_0000,
        m < 60,
        s < 60,
        3600 * h + 60 * m + s > 0,
    ensures
        ({
            let secs = Real::Number {
                negative: false,
                units: binary64::whole(3600 * h + 60 * m + s),
            };
            &&& h == 0 && m == 0 ==> eta(secs) == numerals::decimal(s) + "s"@
            &&& h == 0 && m > 0 ==> eta(secs) == numerals::decimal(m) + "m "@ + numerals::decimal(s)
                + "s"@
            &&& h > 0 ==> eta(secs) == numerals::decimal(h) + "h "@ + numerals::decimal(m) + "m"@
        }),
        eta(Real::Nan) == "--"@,
        eta(Real::Number { negative: false, units: 0 }) == "--"@,
{
    let n = 3600 * h + 60 * m + s;
    lemma_rounded_seconds(n);
    lemma_parted(h, m, s);
}

proof fn lemma_rounded_seconds(n: nat)
    requires
        0 < n < 0x10_0000_0000_0000,
    ensures
        ({
            let secs = Real::Number { negative: false, units: binary64::whole(n) };
            &&& secs.above_zero()
            &&& binary64::whole(n) < binary64::infinity()
            &&& secs.to_u64_rounded() == n
        }),
{
    binary64::law_whole_numbers_are_computed_exactly(n, 0);
    binary64::law_whole_is_exact(n);
    binary64::lemma_whole_positive(n);
}

proof fn lemma_parted(h: nat, m: nat, s: nat)
    requires
        m < 60,
        s < 60,
    ensures
        ({
            let n = 3600 * h + 60 * m + s;
            &&& n / 3600 == h
            &&& (n % 3600) / 60 == m
            &&& n % 60 == s
            &&& h == 0 ==> n / 60 == m && n < 3600
            &&& h == 0 && m == 0 ==> n == s
            &&& h == 0 && m > 0 ==> n >= 60
            &&& h > 0 ==> n >= 3600
        }),
{
}

/// What is cut keeps its beginning and its end, the beginning at least as long as the
/// end, with one mark between them.
pub proof fn law_cut_texts_keep_both_ends(value: Seq<char>, max: nat)
    requires
        value.len() > max,
        max > 10,
    ensures
        ({
            let cut = cut_middle(value, max);
            exists|head: int, tail: int|
                #![trigger value.take(head), value.skip(value.len() - tail)]
                0 < tail <= head && head + 1 + tail == max && cut == value.take(head) + seq![
                    '\u{2026}',
                ] + value.skip(value.len() - tail)
        }),
{
    let head = ((max - 1) * 2) / 3;
    let tail = max - (head + 1);
    assert(0 < tail <= head && head + 1 + tail == max);
    assert(cut_middle(value, max) == value.take(head) + seq!['\u{2026}'] + value.skip(
        value.len() - tail,
    ));
}

/// A line about a request names its hash, its time, its bar, and the bytes that were
/// sent and that there are, in that order.
pub proof fn law_request_lines_name_both_amounts(hash: Seq<char>, elapsed: u64, done: u64, total: u64)
    ensures
        hash.is_prefix_of(request_line(hash, elapsed, done, total)),
        (size_unit(done) + "/"@ + size_unit(total)).is_suffix_of(
            request_line(hash, elapsed, done, total),
        ),
{
    let line = request_line(hash, elapsed, done, total);
    let tail = size_unit(done) + "/"@ + size_unit(total);
    let head = hash + " ["@ + clock(elapsed) + "]  ["@ + request_bar(done, total, 36) + "] "@;
    assert(line =~= head + tail);
    assert(line.skip(head.len() as int) =~= tail);
    assert(line.take(hash.len() as int) =~= hash);
}

/// An empty bar has its mark at the front, a full one is filled throughout.
pub proof fn law_bars_begin_empty_and_end_full(done: u64, total: u64, width: u64)
    requires
        0 < total,
        0 < width,
    ensures
        request_bar(0, total, width)[0] == '>',
        forall|i: int| 0 < i < width ==> #[trigger] request_bar(0, total, width)[i] == '-',
        done >= total ==> forall|i: int|
            0 <= i < width ==> #[trigger] request_bar(done, total, width)[i] == '#',
{
    binary64::law_whole_is_exact(0);
    binary64::lemma_whole_positive(total as nat);
    binary64::lemma_whole_is_finite(total as nat);
    binary64::lemma_whole_is_finite(width as nat);
    binary64::lemma_zero(binary64::whole(total as nat), binary64::whole(width as nat));
    assert(filled_marks(0, total, width) == 0);
}

/// Half a request fills half of its bar.
pub proof fn law_half_done_bars_are_half_full(done: u64, half: u64)
    requires
        0 < done < 0x10_0000_0000_0000,
        half < 0x1_0000_0000,
    ensures
        filled_marks(done, (2 * done) as u64, (2 * half) as u64) == half,
{
    let o = binary64::one();
    let d = done as nat;
    vstd::arithmetic::power2::lemma2_to64();
    vstd::arithmetic::power2::lemma2_to64_rest();
    vstd::arithmetic::power2::lemma_pow2_pos(1073);
    vstd::arithmetic::power2::lemma_pow2_adds(1073, 1);
    let e = pow2(1073);
    assert(o == 2 * e);
    binary64::law_whole_is_exact(d);
    binary64::law_whole_is_exact(2 * d);
    binary64::law_whole_is_exact(2 * half as nat);
    binary64::law_whole_is_exact(half as nat);
    binary64::law_whole_is_exact(1);
    let den = 2 * d * o;
    assert(2 * d * o > 0) by (nonlinear_arith)
        requires
            d > 0,
            o > 0,
    ;
    assert(d * o * o == 1 * e * den) by (nonlinear_arith)
        requires
            o == 2 * e,
            den == 2 * d * o,
    ;
    assert(1 * o == o);
    binary64::law_nearest_keeps_what_fits(1, 1073, den, 53);
    assert(binary64::quotient(binary64::whole(d), binary64::whole(2 * d)) == e);
    let h = half as nat;
    assert(e * (2 * h * o) == h * pow2(1074) * o) by (nonlinear_arith)
        requires
            o == 2 * e,
            o == pow2(1074),
    ;
    binary64::law_nearest_keeps_what_fits(h, 1074, o, 53);
    binary64::law_whole_numbers_are_computed_exactly(h, 0);
}

} // verus!
