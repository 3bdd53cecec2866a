//! What croc prints: session summaries, file counters and progress bars.

use crate::binary64;
use crate::binary64::Magnitude;
use crate::numerals;
use crate::numerals::{Reading, Real};
use crate::progress;
use crate::text;
use crate::units;
use vstd::prelude::*;
use vstd::slice::slice_subrange;

verus! {

/// The size behind "in total,", which is looked for in the line's lower-case form.
pub open spec fn total_size(line: Seq<char>, lower: Seq<char>) -> Option<u64> {
    match text::find(lower, "in total,"@) {
        Some(i) => match text::from_byte(
            line,
            text::bytes(lower.take(i)) + text::bytes("in total,"@),
        ) {
            Some(tail) => units::header_size(text::trim(tail)),
            None => None,
        },
        None => None,
    }
}

/// A line of the form "Sending 4 files (60.1 MB)".
pub open spec fn is_session_summary(lower: Seq<char>) -> bool {
    &&& "sending "@.is_prefix_of(lower) || "receiving "@.is_prefix_of(lower)
    &&& text::contains(lower, " file ("@) || text::contains(lower, " files ("@)
}

/// The size in the last brackets of a session summary.
pub open spec fn summary_size(line: Seq<char>, lower: Seq<char>) -> Option<u64> {
    if !is_session_summary(lower) {
        None
    } else {
        match (text::rfind(line, "("@), text::rfind(line, ")"@)) {
            (Some(open), Some(close)) if close > open + 1 => units::header_size(
                text::trim(line.subrange(open + 1, close)),
            ),
            _ => None,
        }
    }
}

/// A stage mark's inside, `2/4`: at most twelve stages, none beyond the last.
pub open spec fn stage(inside: Seq<char>) -> Option<(u32, u32)> {
    match text::split_once(inside, "/"@) {
        Some((l, r)) => match (
            numerals::natural_to(text::trim(l), u32::MAX as nat),
            numerals::natural_to(text::trim(r), u32::MAX as nat),
        ) {
            (Some(cur), Some(total)) if 0 < total <= 12 && cur <= total => Some(
                (cur as u32, total as u32),
            ),
            _ => None,
        },
        None => None,
    }
}

/// The first stage mark in square brackets.
pub open spec fn stage_progress(s: Seq<char>) -> Option<(u32, u32)>
    decreases s.len(),
{
    match text::find(s, "["@) {
        None => None,
        Some(open) => if open < 0 || open >= s.len() {
            None
        } else {
            let after = s.skip(open + 1);
            match text::find(after, "]"@) {
                None => None,
                Some(close) => if close < 0 || close >= after.len() {
                    None
                } else {
                    match stage(text::trim(after.take(close))) {
                        Some(p) => Some(p),
                        None => stage_progress(after.skip(close + 1)),
                    }
                },
            }
        },
    }
}

/// The counter that a line ends with: `3/10`, not beyond its total.
pub open spec fn file_counter(line: Seq<char>) -> Option<(u64, u64)> {
    let ws = text::words(line);
    if ws.len() == 0 {
        None
    } else {
        match text::split_once(progress::bare(ws.last()), "/"@) {
            Some((d, t)) if numerals::all_digits(d) && numerals::all_digits(t) => match (
                numerals::u64_of(d),
                numerals::u64_of(t),
            ) {
                (Some(done), Some(total)) if total != 0 && done <= total => Some((done, total)),
                _ => None,
            },
            _ => None,
        }
    }
}

/// Reads the size behind "in total,", given the line in lower case too.
pub fn parse_total_size_hint_in(line: &[char], lower: &[char]) -> (r: Option<u64>)
    ensures
        r == total_size(line@, lower@),
{
    let mark = text::chars_of("in total,");
    match text::find_str(lower, "in total,") {
        Some(i) => {
            let head = slice_subrange(lower, 0, i);
            assert(head@ =~= lower@.take(i as int));
            let at: u128 = text::byte_len(head) + text::byte_len(mark.as_slice());
            match text::slice_from_byte(line, at) {
                Some(tail) => units::read_header_size(text::trim_chars(tail)),
                None => None,
            }
        },
        None => None,
    }
}

/// Reads the size behind "in total,".
pub fn parse_total_size_hint(line: &str) -> (r: Option<u64>)
    ensures
        r == total_size(line@, text::lowercase(line@)),
{
    let lower = line.to_lowercase();
    let lower = text::chars_of(lower.as_str());
    let line = text::chars_of(line);
    parse_total_size_hint_in(line.as_slice(), lower.as_slice())
}

/// Reads the size in a session summary, given the line in lower case too.
pub fn parse_croc_total_size_hint_in(line: &[char], lower: &[char]) -> (r: Option<u64>)
    ensures
        r == summary_size(line@, lower@),
{
    proof {
        reveal_strlit("(");
        reveal_strlit(")");
    }
    let starts: bool = text::starts_with(lower, "sending ") || text::starts_with(
        lower,
        "receiving ",
    );
    let summary: bool = text::contains_str(lower, " file (") || text::contains_str(
        lower,
        " files (",
    );
    if !(starts && summary) {
        return None;
    }
    match (text::rfind_str(line, "("), text::rfind_str(line, ")")) {
        (Some(open), Some(close)) => {
            if close <= open + 1 {
                return None;
            }
            let inside = slice_subrange(line, open + 1, close);
            units::read_header_size(text::trim_chars(inside))
        },
        _ => None,
    }
}

/// Reads the size in a session summary.
pub fn parse_croc_total_size_hint(line: &str) -> (r: Option<u64>)
    ensures
        r == summary_size(line@, text::lowercase(line@)),
{
    let lower = line.to_lowercase();
    let lower = text::chars_of(lower.as_str());
    let line = text::chars_of(line);
    parse_croc_total_size_hint_in(line.as_slice(), lower.as_slice())
}

fn read_stage(inside: &[char]) -> (r: Option<(u32, u32)>)
    ensures
        r == stage(inside@),
{
    match text::split_once_at(inside, "/") {
        Some((l, r)) => {
            let cur = numerals::read_natural(text::trim_chars(l), u32::MAX as u64);
            let total = numerals::read_natural(text::trim_chars(r), u32::MAX as u64);
            match (cur, total) {
                (Some(cur), Some(total)) => if total > 0 && cur <= total && total <= 12 {
                    Some((cur as u32, total as u32))
                } else {
                    None
                },
                _ => None,
            }
        },
        None => None,
    }
}

/// Reads the first stage mark in square brackets: the stage and the number of stages.
pub fn parse_stage_progress(line: &str) -> (r: Option<(u32, u32)>)
    ensures
        r == stage_progress(line@),
{
    proof {
        reveal_strlit("[");
        reveal_strlit("]");
    }
    let chars = text::chars_of(line);
    let mut scan: &[char] = chars.as_slice();
    loop
        invariant
            "["@.len() == 1,
            "]"@.len() == 1,
            stage_progress(line@) == stage_progress(scan@),
        decreases scan.len(),
    {
        match text::find_str(scan, "[") {
            None => {
                return None;
            },
            Some(open) => {
                let after = slice_subrange(scan, open + 1, scan.len());
                assert(after@ =~= scan@.skip(open + 1));
                match text::find_str(after, "]") {
                    None => {
                        return None;
                    },
                    Some(close) => {
                        let inside = slice_subrange(after, 0, close);
                        assert(inside@ =~= after@.take(close as int));
                        let p = read_stage(text::trim_chars(inside));
                        if p.is_some() {
                            return p;
                        }
                        let rest = slice_subrange(after, close + 1, after.len());
                        assert(rest@ =~= after@.skip(close + 1));
                        scan = rest;
                    },
                }
            },
        }
    }
}

/// Reads the counter that a line ends with.
pub fn parse_croc_file_counter_progress(line: &str) -> (r: Option<(u64, u64)>)
    ensures
        r == file_counter(line@),
{
    let chars = text::chars_of(line);
    let ws = text::split_words(chars.as_slice());
    if ws.len() == 0 {
        return None;
    }
    let marks: [char; 5] = ['[', ']', '(', ')', ','];
    assert(marks@ =~= progress::fences());
    let last = ws[ws.len() - 1];
    assert(last@ == text::words(line@).last());
    match text::split_once_at(text::trim_chars_of(last, marks.as_slice()), "/") {
        Some((d, t)) => {
            if !numerals::digits_only(d) || !numerals::digits_only(t) {
                return None;
            }
            match (numerals::read_u64(d), numerals::read_u64(t)) {
                (Some(done), Some(total)) => if total == 0 || done > total {
                    None
                } else {
                    Some((done, total))
                },
                _ => None,
            }
        },
        None => None,
    }
}

// ── Progress bars ──
//
// croc redraws one bar per file. A redraw reads
//
//   <file>  56% |███████    | (56.2 MB/600.7 MB, 4.46 MB/s) [1m3s:2m3s]
//
// and the last one of a file has the counter of finished files ("1/4") where
// the others have their times.

/// The number of digits that `s` ends with.
pub open spec fn trailing_digits(s: Seq<char>) -> nat
    decreases s.len(),
{
    if s.len() > 0 && text::is_digit(s.last()) {
        1 + trailing_digits(s.drop_last())
    } else {
        0
    }
}

pub open spec fn is_alphanumeric(c: char) -> bool {
    'a' <= c <= 'z' || 'A' <= c <= 'Z' || '0' <= c <= '9'
}

/// What stands behind a percent sign begins with a bar of glyphs between two
/// strokes; prose between strokes is no bar.
pub open spec fn bar_follows(t: Seq<char>) -> bool {
    let after = text::trim_start(t);
    &&& after.len() > 0
    &&& after[0] == '|'
    &&& text::find(after.skip(1), "|"@) matches Some(c) && c > 0 && forall|i: int|
        0 <= i < c ==> !is_alphanumeric(#[trigger] after.skip(1)[i])
}

/// At `i` stands the percent sign of a bar, behind one to three digits.
pub open spec fn percent_at(s: Seq<char>, i: int) -> bool {
    &&& s[i] == '%'
    &&& 1 <= trailing_digits(s.take(i)) <= 3
    &&& bar_follows(s.skip(i + 1))
}

/// The position of the first percent sign of a bar from `i` on, and that of its
/// first digit.
pub open spec fn percent_from(s: Seq<char>, i: int) -> Option<(int, int)>
    decreases s.len() - i,
{
    if i < 0 || i >= s.len() {
        None
    } else if percent_at(s, i) {
        Some((i, i - trailing_digits(s.take(i))))
    } else {
        percent_from(s, i + 1)
    }
}

/// The number of leading characters of `s` that are digits or points.
pub open spec fn number_len(s: Seq<char>) -> nat
    decreases s.len(),
{
    if s.len() > 0 && (text::is_digit(s[0]) || s[0] == '.') {
        1 + number_len(s.skip(1))
    } else {
        0
    }
}

/// The number of leading characters of `s` that are neither digits nor points.
pub open spec fn name_len(s: Seq<char>) -> nat
    decreases s.len(),
{
    if s.len() > 0 && !text::is_digit(s[0]) && s[0] != '.' {
        1 + name_len(s.skip(1))
    } else {
        0
    }
}

/// The seconds in a unit of time, as a double.
pub open spec fn time_unit(unit: Seq<char>) -> Option<nat> {
    if unit == "h"@ {
        Some(binary64::whole(3600))
    } else if unit == "m"@ {
        Some(binary64::whole(60))
    } else if unit == "s"@ {
        Some(binary64::whole(1))
    } else if unit == "ms"@ {
        Some(binary64::nearest(binary64::one(), 1000))
    } else if unit == "us"@ || unit == "\u{b5}s"@ {
        Some(binary64::nearest(binary64::one(), 1000000))
    } else if unit == "ns"@ {
        Some(binary64::nearest(binary64::one(), 1000000000))
    } else {
        None
    }
}

/// The seconds that numbers with units stand for, added to those before them.
pub open spec fn duration_from(s: Seq<char>, total: nat) -> Option<nat>
    decreases s.len(),
{
    if s.len() == 0 {
        Some(total)
    } else {
        let n = number_len(s);
        if n == 0 || n > s.len() {
            None
        } else {
            let rest = s.skip(n as int);
            let m = name_len(rest);
            match (numerals::unsigned(s.take(n as int)), time_unit(rest.take(m as int))) {
                (Some(v), Some(unit)) if m <= rest.len() => duration_from(
                    rest.skip(m as int),
                    binary64::sum(total, binary64::product(v, unit)),
                ),
                _ => None,
            }
        }
    }
}

/// The seconds in a duration as Go prints it: `45s`, `2m3s`, `1h4m5s`.
pub open spec fn go_duration(t: Seq<char>) -> Option<nat> {
    let s = text::trim(t);
    if s.len() == 0 || !text::is_digit(s[0]) {
        None
    } else {
        duration_from(s, 0)
    }
}

pub open spec fn croc_unit(unit: Seq<char>) -> Option<nat> {
    units::croc_unit_bytes(text::lowercase(text::trim(unit)))
}

/// Done and total amounts as bytes, where neither is out of range.
pub open spec fn sized_pair(done: Real, total: Real) -> Option<(u64, u64)> {
    if done.below_zero() || total.not_above_zero() {
        None
    } else {
        Some((done.to_u64(), total.to_u64()))
    }
}

/// Done and total sizes: `56.2/600.7 MB` or `210 MB/5 GB`.
pub open spec fn size_pair(part: Seq<char>) -> Option<(u64, u64)> {
    let ws = text::words(part);
    if ws.len() == 2 {
        match (croc_unit(ws[1]), text::split_once(ws[0], "/"@)) {
            (Some(unit), Some((a, b))) => match (
                numerals::real_of(text::trim(a)),
                numerals::real_of(text::trim(b)),
            ) {
                (Some(done), Some(total)) => sized_pair(
                    done.times(binary64::whole(unit)),
                    total.times(binary64::whole(unit)),
                ),
                _ => None,
            },
            _ => None,
        }
    } else if ws.len() == 3 {
        match text::split_once(ws[1], "/"@) {
            Some((unit_a, b)) => match (
                croc_unit(unit_a),
                croc_unit(ws[2]),
                numerals::real_of(ws[0]),
                numerals::real_of(b),
            ) {
                (Some(ua), Some(ub), Some(done), Some(total)) => sized_pair(
                    done.times(binary64::whole(ua)),
                    total.times(binary64::whole(ub)),
                ),
                _ => None,
            },
            None => None,
        }
    } else {
        None
    }
}

/// The speed in a bar: a number and a unit per second, and nothing else.
pub open spec fn bar_speed(part: Seq<char>) -> Option<Real> {
    let speed = text::trim(part);
    if "/s"@.is_suffix_of(speed) {
        let ws = text::words(speed.take(speed.len() - 2));
        if ws.len() == 2 {
            match (numerals::real_of(ws[0]), croc_unit(ws[1])) {
                (Some(v), Some(unit)) if !v.below_zero() => Some(v.times(binary64::whole(unit))),
                _ => None,
            }
        } else {
            None
        }
    } else {
        None
    }
}

/// The sizes in a bar's brackets, and the speed behind them; a second comma
/// makes it no bar.
pub open spec fn bar_stats(body: Seq<char>) -> Option<((u64, u64), Option<Real>)> {
    match text::split_once(body, ","@) {
        None => match size_pair(text::trim(body)) {
            Some(p) => Some((p, None)),
            None => None,
        },
        Some((a, b)) => if text::contains(b, ","@) {
            None
        } else {
            match size_pair(text::trim(a)) {
                Some(p) => Some((p, bar_speed(b))),
                None => None,
            }
        },
    }
}

/// The time left in the square brackets that `tail` begins with, and what
/// stands behind them.
pub open spec fn bar_times(tail: Seq<char>) -> (Option<nat>, Seq<char>) {
    match text::find(tail, "]"@) {
        Some(close) if "["@.is_prefix_of(tail) => (
            match text::split_once(tail.subrange(1, close), ":"@) {
                Some((_, left)) => go_duration(left),
                None => None,
            },
            text::trim(tail.skip(close + 1)),
        ),
        _ => (None, tail),
    }
}

/// The counter of finished files that `rest` begins with.
pub open spec fn bar_counter(rest: Seq<char>) -> (Option<u64>, Option<u64>) {
    let ws = text::words(rest);
    if ws.len() == 0 {
        (None, None)
    } else {
        match text::split_once(ws[0], "/"@) {
            Some((a, b)) if a.len() > 0 && b.len() > 0 && numerals::all_digits(a)
                && numerals::all_digits(b) => match (numerals::u64_of(a), numerals::u64_of(b)) {
                (Some(i), Some(n)) => (Some(i), Some(n)),
                _ => (None, None),
            },
            _ => (None, None),
        }
    }
}

/// One redraw of a file's progress bar.
pub struct BarModel {
    pub file_name: Seq<char>,
    pub done_bytes: u64,
    pub total_bytes: u64,
    pub speed_bps: Option<Real>,
    pub eta_secs: Option<nat>,
    pub file_index: Option<u64>,
    pub file_count: Option<u64>,
}

/// The redraw of a progress bar that a line is.
pub open spec fn bar_frame(line: Seq<char>) -> Option<BarModel> {
    let s = text::trim(line);
    match percent_from(s, 0) {
        None => None,
        Some((sign, digits)) => {
            let after = text::trim_start(s.skip(sign + 1));
            let inner = after.skip(1);
            match text::find(inner, "|"@) {
                None => None,
                Some(close) => {
                    let rest = text::trim_start(inner.skip(close + 1));
                    let stats = rest.skip(1);
                    match text::rfind(stats, ")"@) {
                        Some(end) if numerals::digits_value(s.subrange(digits, sign)) <= 100
                            && "("@.is_prefix_of(rest) => match bar_stats(stats.take(end)) {
                            Some(((done, total), speed)) => {
                                let (eta, tail) = bar_times(text::trim(stats.skip(end + 1)));
                                let (index, count) = bar_counter(tail);
                                Some(
                                    BarModel {
                                        file_name: text::trim(s.take(digits)),
                                        done_bytes: done,
                                        total_bytes: total,
                                        speed_bps: speed,
                                        eta_secs: eta,
                                        file_index: index,
                                        file_count: count,
                                    },
                                )
                            },
                            None => None,
                        },
                        _ => None,
                    }
                },
            }
        },
    }
}

/// One redraw of a file's progress bar.
#[derive(Debug)]
pub struct CrocBarFrame {
    pub file_name: String,
    pub done_bytes: u64,
    pub total_bytes: u64,
    pub speed_bps: Option<Reading>,
    pub eta_secs: Option<Magnitude>,
    /// The number of files that are done, on a file's last redraw.
    pub file_index: Option<u64>,
    pub file_count: Option<u64>,
}

pub open spec fn magnitude_view(m: Option<Magnitude>) -> Option<nat> {
    match m {
        Some(x) => Some(x@),
        None => None,
    }
}

impl View for CrocBarFrame {
    type V = BarModel;

    open spec fn view(&self) -> BarModel {
        BarModel {
            file_name: self.file_name@,
            done_bytes: self.done_bytes,
            total_bytes: self.total_bytes,
            speed_bps: numerals::reading_view(self.speed_bps),
            eta_secs: magnitude_view(self.eta_secs),
            file_index: self.file_index,
            file_count: self.file_count,
        }
    }
}

fn alphanumeric(c: char) -> (r: bool)
    ensures
        r == is_alphanumeric(c),
{
    ('a' <= c && c <= 'z') || ('A' <= c && c <= 'Z') || ('0' <= c && c <= '9')
}

fn count_trailing_digits(s: &[char]) -> (r: usize)
    ensures
        r == trailing_digits(s@),
        r <= s.len(),
        forall|i: int| s.len() - r <= i < s.len() ==> text::is_digit(#[trigger] s@[i]),
{
    let mut n: usize = 0;
    assert(s@.take(s@.len() as int) =~= s@);
    while n < s.len() && text::is_ascii_digit(s[s.len() - n - 1])
        invariant
            n <= s.len(),
            trailing_digits(s@) == n + trailing_digits(s@.take(s@.len() - n)),
            forall|i: int| s.len() - n <= i < s.len() ==> text::is_digit(#[trigger] s@[i]),
        decreases s.len() - n,
    {
        assert(s@.take(s@.len() - n).drop_last() =~= s@.take(s@.len() - n - 1));
        n += 1;
    }
    n
}

fn only_glyphs(s: &[char]) -> (r: bool)
    ensures
        r == forall|i: int| 0 <= i < s@.len() ==> !is_alphanumeric(#[trigger] s@[i]),
{
    let mut i: usize = 0;
    while i < s.len()
        invariant
            i <= s.len(),
            forall|j: int| 0 <= j < i ==> !is_alphanumeric(#[trigger] s@[j]),
        decreases s.len() - i,
    {
        if alphanumeric(s[i]) {
            assert(is_alphanumeric(s@[i as int]));
            return false;
        }
        i += 1;
    }
    true
}

fn is_bar_next(t: &[char]) -> (r: bool)
    ensures
        r == bar_follows(t@),
{
    let after = text::trim_start_chars(t);
    if after.len() == 0 || after[0] != '|' {
        return false;
    }
    let inner = slice_subrange(after, 1, after.len());
    assert(inner@ =~= after@.skip(1));
    match text::find_str(inner, "|") {
        None => false,
        Some(close) => {
            let bar = slice_subrange(inner, 0, close);
            proof {
                let glyphs = inner@.take(close as int);
                assert(bar@ =~= glyphs);
                if !(forall|i: int| 0 <= i < close ==> !is_alphanumeric(#[trigger] inner@[i])) {
                    let i = choose|i: int| 0 <= i < close && is_alphanumeric(#[trigger] inner@[i]);
                    assert(is_alphanumeric(bar@[i]));
                }
                if forall|i: int| 0 <= i < close ==> !is_alphanumeric(#[trigger] inner@[i]) {
                    assert forall|i: int| 0 <= i < bar@.len() implies !is_alphanumeric(
                        #[trigger] bar@[i],
                    ) by {
                        assert(!is_alphanumeric(inner@[i]));
                    }
                }
            }
            close > 0 && only_glyphs(bar)
        },
    }
}

/// Finds the percent sign of a bar: its position and that of its first digit,
/// counted in characters.
pub fn find_croc_percent_token(s: &[char]) -> (r: Option<(usize, usize)>)
    ensures
        match r {
            Some((sign, digits)) => percent_from(s@, 0) == Some((sign as int, digits as int))
                && digits < sign < s.len() && percent_at(s@, sign as int) && forall|i: int|
                digits <= i < sign ==> text::is_digit(#[trigger] s@[i]),
            None => percent_from(s@, 0) is None,
        },
{
    let mut i: usize = 0;
    while i < s.len()
        invariant
            i <= s.len(),
            percent_from(s@, 0) == percent_from(s@, i as int),
        decreases s.len() - i,
    {
        if s[i] == '%' {
            let before = slice_subrange(s, 0, i);
            assert(before@ =~= s@.take(i as int));
            let n: usize = count_trailing_digits(before);
            let behind = slice_subrange(s, i + 1, s.len());
            assert(behind@ =~= s@.skip(i + 1));
            if 1 <= n && n <= 3 && is_bar_next(behind) {
                assert forall|j: int| i - n <= j < i implies text::is_digit(#[trigger] s@[j]) by {
                    assert(s@[j] == before@[j]);
                }
                return Some((i, i - n));
            }
        }
        i += 1;
    }
    None
}

fn read_time_unit(unit: &[char]) -> (r: Option<Magnitude>)
    ensures
        magnitude_view(r) == time_unit(unit@),
{
    proof {
        let x = binary64::one();
        assert(1 * x == x);
    }
    if text::is(unit, "h") {
        Some(Magnitude::from_u64(3600))
    } else if text::is(unit, "m") {
        Some(Magnitude::from_u64(60))
    } else if text::is(unit, "s") {
        Some(Magnitude::from_u64(1))
    } else if text::is(unit, "ms") {
        Some(Magnitude::ratio(1, 1000))
    } else if text::is(unit, "us") || text::is(unit, "\u{b5}s") {
        Some(Magnitude::ratio(1, 1000000))
    } else if text::is(unit, "ns") {
        Some(Magnitude::ratio(1, 1000000000))
    } else {
        None
    }
}

proof fn lemma_number_has_no_sign(s: Seq<char>)
    requires
        s.len() > 0,
        text::is_digit(s[0]) || s[0] == '.',
    ensures
        numerals::real_of(s) == (match numerals::unsigned(s) {
            Some(units) => Some(Real::Number { negative: false, units }),
            None => None,
        }),
{
    reveal_strlit("inf");
    reveal_strlit("infinity");
    reveal_strlit("nan");
    assert(text::ascii_lower(s[0]) == s[0]);
    assert(text::ascii_lower("inf"@[0]) == 'i');
    assert(text::ascii_lower("infinity"@[0]) == 'i');
    assert(text::ascii_lower("nan"@[0]) == 'n');
}

proof fn lemma_number_len(s: Seq<char>)
    ensures
        number_len(s) <= s.len(),
    decreases s.len(),
{
    if s.len() > 0 && (text::is_digit(s[0]) || s[0] == '.') {
        lemma_number_len(s.skip(1));
    }
}

/// Reads a duration as Go prints it, in seconds.
pub fn parse_go_duration(t: &str) -> (r: Option<Magnitude>)
    ensures
        magnitude_view(r) == go_duration(t@),
{
    let chars = text::chars_of(t);
    read_go_duration(chars.as_slice())
}

fn read_go_duration(t: &[char]) -> (r: Option<Magnitude>)
    ensures
        magnitude_view(r) == go_duration(t@),
{
    let s = text::trim_chars(t);
    if s.len() == 0 || !text::is_ascii_digit(s[0]) {
        return None;
    }
    let mut total: Magnitude = Magnitude::zero();
    let mut i: usize = 0;
    assert(s@.skip(0) =~= s@);
    while i < s.len()
        invariant
            i <= s.len(),
            s@ == text::trim(t@),
            go_duration(t@) == duration_from(s@.skip(i as int), total@),
        decreases s.len() - i,
    {
        let start: usize = i;
        let ghost here = s@.skip(start as int);
        while i < s.len() && (text::is_ascii_digit(s[i]) || s[i] == '.')
            invariant
                start <= i <= s.len(),
                here == s@.skip(start as int),
                number_len(here) == (i - start) + number_len(s@.skip(i as int)),
            decreases s.len() - i,
        {
            assert(s@.skip(i as int).skip(1) =~= s@.skip(i + 1));
            i += 1;
        }
        if i == start {
            return None;
        }
        let num = slice_subrange(s, start, i);
        let middle: usize = i;
        let ghost rest = s@.skip(middle as int);
        proof {
            lemma_number_len(here);
            assert(num@ =~= here.take((i - start) as int));
            assert(here.skip((i - start) as int) =~= rest);
            assert(num@[0] == here[0]);
            lemma_number_has_no_sign(num@);
        }
        let value = match numerals::read_real(num) {
            Some(Reading::Number { negative: _, size }) => size,
            _ => {
                return None;
            },
        };
        while i < s.len() && !text::is_ascii_digit(s[i]) && s[i] != '.'
            invariant
                middle <= i <= s.len(),
                rest == s@.skip(middle as int),
                name_len(rest) == (i - middle) + name_len(s@.skip(i as int)),
            decreases s.len() - i,
        {
            assert(s@.skip(i as int).skip(1) =~= s@.skip(i + 1));
            i += 1;
        }
        let unit = slice_subrange(s, middle, i);
        proof {
            assert(unit@ =~= rest.take((i - middle) as int));
            assert(rest.skip((i - middle) as int) =~= s@.skip(i as int));
        }
        match read_time_unit(unit) {
            Some(unit) => {
                total = total.plus(&value.times(&unit));
            },
            None => {
                return None;
            },
        }
    }
    Some(total)
}

fn read_croc_unit(unit: &[char]) -> (r: Option<u64>)
    ensures
        match r {
            Some(n) => croc_unit(unit@) == Some(n as nat),
            None => croc_unit(unit@) is None,
        },
{
    let lower = text::lower_chars(text::trim_chars(unit));
    units::croc_unit_multiplier_in(lower.as_slice())
}

fn make_sized_pair(done: &Reading, total: &Reading) -> (r: Option<(u64, u64)>)
    ensures
        r == sized_pair(done@, total@),
{
    if done.is_below_zero() || total.is_not_above_zero() {
        None
    } else {
        Some((done.to_u64(), total.to_u64()))
    }
}

/// Reads done and total sizes with a unit behind both or behind each.
pub fn parse_croc_size_pair(part: &str) -> (r: Option<(u64, u64)>)
    ensures
        r == size_pair(part@),
{
    let chars = text::chars_of(part);
    read_size_pair(chars.as_slice())
}

fn read_size_pair(part: &[char]) -> (r: Option<(u64, u64)>)
    ensures
        r == size_pair(part@),
{
    let ws = text::split_words(part);
    if ws.len() == 2 {
        match (read_croc_unit(ws[1]), text::split_once_at(ws[0], "/")) {
            (Some(unit), Some((a, b))) => {
                let unit = Magnitude::from_u64(unit);
                match (
                    numerals::read_real(text::trim_chars(a)),
                    numerals::read_real(text::trim_chars(b)),
                ) {
                    (Some(done), Some(total)) => make_sized_pair(
                        &done.times(&unit),
                        &total.times(&unit),
                    ),
                    _ => None,
                }
            },
            _ => None,
        }
    } else if ws.len() == 3 {
        match text::split_once_at(ws[1], "/") {
            Some((unit_a, b)) => match (
                read_croc_unit(unit_a),
                read_croc_unit(ws[2]),
                numerals::read_real(ws[0]),
                numerals::read_real(b),
            ) {
                (Some(ua), Some(ub), Some(done), Some(total)) => make_sized_pair(
                    &done.times(&Magnitude::from_u64(ua)),
                    &total.times(&Magnitude::from_u64(ub)),
                ),
                _ => None,
            },
            None => None,
        }
    } else {
        None
    }
}

/// Reads the speed in a bar.
pub fn parse_croc_speed_part(part: &[char]) -> (r: Option<Reading>)
    ensures
        numerals::reading_view(r) == bar_speed(part@),
{
    proof {
        reveal_strlit("/s");
    }
    let speed = text::trim_chars(part);
    if !text::ends_with(speed, "/s") {
        return None;
    }
    let value = slice_subrange(speed, 0, speed.len() - 2);
    assert(value@ =~= speed@.take(speed@.len() - 2));
    let ws = text::split_words(value);
    if ws.len() != 2 {
        return None;
    }
    match (numerals::read_real(ws[0]), read_croc_unit(ws[1])) {
        (Some(v), Some(unit)) => if v.is_below_zero() {
            None
        } else {
            Some(v.times(&Magnitude::from_u64(unit)))
        },
        _ => None,
    }
}

fn read_bar_stats(body: &[char]) -> (r: Option<((u64, u64), Option<Reading>)>)
    ensures
        match r {
            Some((p, speed)) => bar_stats(body@) == Some((p, numerals::reading_view(speed))),
            None => bar_stats(body@) is None,
        },
{
    match text::split_once_at(body, ",") {
        None => match read_size_pair(text::trim_chars(body)) {
            Some(p) => Some((p, None)),
            None => None,
        },
        Some((a, b)) => {
            if text::contains_str(b, ",") {
                return None;
            }
            match read_size_pair(text::trim_chars(a)) {
                Some(p) => Some((p, parse_croc_speed_part(b))),
                None => None,
            }
        },
    }
}

fn read_bar_times(tail: &[char]) -> (r: (Option<Magnitude>, &[char]))
    ensures
        (magnitude_view(r.0), r.1@) == bar_times(tail@),
{
    proof {
        reveal_strlit("]");
        reveal_strlit("[");
    }
    if !text::starts_with(tail, "[") {
        return (None, tail);
    }
    match text::find_str(tail, "]") {
        Some(close) => {
            proof {
                text::lemma_find_from(tail@, "]"@, 0);
                assert(tail@[0] == "["@[0]);
                assert(close > 0) by {
                    if close == 0 {
                        assert(tail@.subrange(0, 1)[0] == "]"@[0]);
                    }
                }
            }
            let inside = slice_subrange(tail, 1, close);
            let eta = match text::split_once_at(inside, ":") {
                Some((_, left)) => read_go_duration(left),
                None => None,
            };
            let rest = slice_subrange(tail, close + 1, tail.len());
            assert(rest@ =~= tail@.skip(close + 1));
            (eta, text::trim_chars(rest))
        },
        None => (None, tail),
    }
}

fn read_bar_counter(rest: &[char]) -> (r: (Option<u64>, Option<u64>))
    ensures
        r == bar_counter(rest@),
{
    let ws = text::split_words(rest);
    if ws.len() == 0 {
        return (None, None);
    }
    match text::split_once_at(ws[0], "/") {
        Some((a, b)) => {
            if a.len() == 0 || b.len() == 0 || !numerals::digits_only(a) || !numerals::digits_only(
                b,
            ) {
                return (None, None);
            }
            match (numerals::read_u64(a), numerals::read_u64(b)) {
                (Some(i), Some(n)) => (Some(i), Some(n)),
                _ => (None, None),
            }
        },
        None => (None, None),
    }
}

proof fn lemma_digits_are_natural(s: Seq<char>)
    requires
        s.len() > 0,
        numerals::all_digits(s),
    ensures
        numerals::natural(s) == Some(numerals::digits_value(s)),
{
    assert(text::is_digit(s[0]));
}

/// Reads one redraw of a file's progress bar.
pub fn parse_croc_bar_frame(line: &str) -> (r: Option<CrocBarFrame>)
    ensures
        match r {
            Some(frame) => bar_frame(line@) == Some(frame@),
            None => bar_frame(line@) is None,
        },
{
    proof {
        reveal_strlit("|");
        reveal_strlit("(");
        reveal_strlit(")");
    }
    let chars = text::chars_of(line);
    let s = text::trim_chars(chars.as_slice());
    let (sign, digits) = match find_croc_percent_token(s) {
        Some(p) => p,
        None => {
            return None;
        },
    };
    let percent = slice_subrange(s, digits, sign);
    proof {
        assert forall|i: int| 0 <= i < percent@.len() implies text::is_digit(
            #[trigger] percent@[i],
        ) by {
            assert(text::is_digit(s@[digits + i]));
        }
        lemma_digits_are_natural(percent@);
    }
    if numerals::read_natural(percent, 100).is_none() {
        return None;
    }
    let behind = slice_subrange(s, sign + 1, s.len());
    assert(behind@ =~= s@.skip(sign + 1));
    let after = text::trim_start_chars(behind);
    let inner = slice_subrange(after, 1, after.len());
    assert(inner@ =~= after@.skip(1));
    let close = match text::find_str(inner, "|") {
        Some(c) => c,
        None => {
            return None;
        },
    };
    let beyond = slice_subrange(inner, close + 1, inner.len());
    assert(beyond@ =~= inner@.skip(close + 1));
    let rest = text::trim_start_chars(beyond);
    if !text::starts_with(rest, "(") {
        return None;
    }
    let stats = slice_subrange(rest, 1, rest.len());
    assert(stats@ =~= rest@.skip(1));
    let end = match text::rfind_str(stats, ")") {
        Some(e) => e,
        None => {
            return None;
        },
    };
    let body = slice_subrange(stats, 0, end);
    assert(body@ =~= stats@.take(end as int));
    let tail = slice_subrange(stats, end + 1, stats.len());
    assert(tail@ =~= stats@.skip(end + 1));
    let ((done_bytes, total_bytes), speed_bps) = match read_bar_stats(body) {
        Some(x) => x,
        None => {
            return None;
        },
    };
    let (eta_secs, left) = read_bar_times(text::trim_chars(tail));
    let (file_index, file_count) = read_bar_counter(left);
    let name = slice_subrange(s, 0, digits);
    assert(name@ =~= s@.take(digits as int));
    let file_name = text::string_of(text::trim_chars(name));
    Some(
        CrocBarFrame {
            file_name,
            done_bytes,
            total_bytes,
            speed_bps,
            eta_secs,
            file_index,
            file_count,
        },
    )
}

} // verus!
