//! Progress and speed on the lines that the command-line tools print.

use crate::binary64;
use crate::binary64::Magnitude;
use crate::numerals;
use crate::numerals::{Reading, Real};
use crate::text;
use crate::units;
use vstd::prelude::*;
use vstd::slice::slice_subrange;

verus! {

/// The brackets and commas that may stand around a word.
pub open spec fn fences() -> Seq<char> {
    seq!['[', ']', '(', ')', ',']
}

/// `w` without the brackets and commas around it.
pub open spec fn bare(w: Seq<char>) -> Seq<char> {
    text::trim_of(w, fences())
}

pub open spec fn is_unit(w: Seq<char>) -> bool {
    units::is_size_unit_spec(text::lowercase(w))
}

/// `v` of the size unit `w`, in bytes.
pub open spec fn bytes_of(v: Real, w: Seq<char>) -> u64 {
    units::in_bytes(v, units::unit_bytes(text::lowercase(w)) as nat)
}

/// A ratio and its unit: `11/11 MB`.
pub open spec fn shared_unit_pair(w0: Seq<char>, w1: Seq<char>) -> Option<(u64, u64)> {
    let unit = bare(w1);
    match text::split_once(bare(w0), "/"@) {
        Some((d, t)) if is_unit(unit) => match (numerals::real_of(d), numerals::real_of(t)) {
            (Some(done), Some(total)) if !done.below_zero() && !total.not_above_zero() => Some(
                (bytes_of(done, unit), bytes_of(total, unit)),
            ),
            _ => None,
        },
        _ => None,
    }
}

/// Two sizes, given by their numbers and units; the total is positive.
pub open spec fn two_sizes(d: Seq<char>, du: Seq<char>, t: Seq<char>, tu: Seq<char>) -> Option<
    (u64, u64),
> {
    if is_unit(du) && is_unit(tu) {
        match (numerals::real_of(d), numerals::real_of(t)) {
            (Some(done), Some(total)) if !done.below_zero() && !total.not_above_zero()
                && bytes_of(total, tu) > 0 => Some((bytes_of(done, du), bytes_of(total, tu))),
            _ => None,
        }
    } else {
        None
    }
}

/// Two sizes with a slash between them: `8.98 MiB/19.02 MiB`.
pub open spec fn tight_pair(w0: Seq<char>, w1: Seq<char>, w2: Seq<char>) -> Option<(u64, u64)> {
    match text::split_once(bare(w1), "/"@) {
        Some((du, t)) => two_sizes(bare(w0), du, t, bare(w2)),
        None => None,
    }
}

/// Two sizes with a slash between them that stands alone: `8.98 MiB / 19.02 MiB`.
pub open spec fn spaced_pair(
    w0: Seq<char>,
    w1: Seq<char>,
    w2: Seq<char>,
    w3: Seq<char>,
    w4: Seq<char>,
) -> Option<(u64, u64)> {
    if bare(w2) == "/"@ {
        two_sizes(bare(w0), bare(w1), bare(w3), bare(w4))
    } else {
        None
    }
}

/// What the words from position `i` on read in one of the three forms.
pub open spec fn pair_at(ws: Seq<Seq<char>>, form: int, i: int) -> Option<(u64, u64)> {
    if form == 2 {
        shared_unit_pair(ws[i], ws[i + 1])
    } else if form == 3 {
        tight_pair(ws[i], ws[i + 1], ws[i + 2])
    } else {
        spaced_pair(ws[i], ws[i + 1], ws[i + 2], ws[i + 3], ws[i + 4])
    }
}

/// The first pair in the given form, from position `i` on. A form is known by
/// the number of its words.
pub open spec fn first_pair(ws: Seq<Seq<char>>, form: int, i: int) -> Option<(u64, u64)>
    decreases ws.len() - i,
{
    if i + form > ws.len() || i >= ws.len() {
        None
    } else {
        match pair_at(ws, form, i) {
            Some(p) => Some(p),
            None => first_pair(ws, form, i + 1),
        }
    }
}

/// The done and total bytes that a line reports: a ratio with one unit comes
/// first, then two sizes, then two sizes around a slash that stands alone.
pub open spec fn payload_progress(line: Seq<char>) -> Option<(u64, u64)> {
    let ws = text::words(line);
    match first_pair(ws, 2, 0) {
        Some(p) => Some(p),
        None => match first_pair(ws, 3, 0) {
            Some(p) => Some(p),
            None => first_pair(ws, 5, 0),
        },
    }
}

/// `s` without any `p` at its end.
pub open spec fn without_suffixes(s: Seq<char>, p: Seq<char>) -> Seq<char>
    decreases s.len(),
{
    if p.len() > 0 && p.is_suffix_of(s) {
        without_suffixes(s.take(s.len() - p.len()), p)
    } else {
        s
    }
}

/// The brackets that may stand around a speed.
pub open spec fn brackets() -> Seq<char> {
    seq!['(', ')', '[', ']']
}

pub open spec fn is_rate_unit(u: Seq<char>) -> bool {
    ||| text::same_ignoring_case(u, "b/s"@)
    ||| text::same_ignoring_case(u, "kb/s"@)
    ||| text::same_ignoring_case(u, "kib/s"@)
    ||| text::same_ignoring_case(u, "mb/s"@)
    ||| text::same_ignoring_case(u, "mib/s"@)
    ||| text::same_ignoring_case(u, "gb/s"@)
    ||| text::same_ignoring_case(u, "gib/s"@)
}

/// `v` of the size unit `w`, in bytes, with its fraction.
pub open spec fn speed_of(v: Real, w: Seq<char>) -> Real {
    v.times(binary64::whole(units::unit_bytes(text::lowercase(w)) as nat))
}

/// The speed that one word reads: a number, a slash and a unit per second.
pub open spec fn speed_token(token: Seq<char>) -> Option<Real> {
    match text::split_once(text::trim_of(token, brackets()), "/"@) {
        Some((num, unit)) if is_rate_unit(unit) => match numerals::real_of(num) {
            Some(v) if !v.below_zero() => Some(speed_of(v, without_suffixes(unit, "/s"@))),
            _ => None,
        },
        _ => None,
    }
}

/// The speed that two words read: a number, and a size unit per second.
pub open spec fn speed_pair(w0: Seq<char>, w1: Seq<char>) -> Option<Real> {
    let u = text::trim_of(w1, brackets());
    match numerals::real_of(text::trim_of(w0, brackets())) {
        Some(v) if "/s"@.is_suffix_of(u) && is_unit(u.take(u.len() - 2)) => Some(
            speed_of(v, u.take(u.len() - 2)),
        ),
        _ => None,
    }
}

pub open spec fn first_speed_token(ws: Seq<Seq<char>>, i: int) -> Option<Real>
    decreases ws.len() - i,
{
    if i >= ws.len() {
        None
    } else {
        match speed_token(ws[i]) {
            Some(v) => Some(v),
            None => first_speed_token(ws, i + 1),
        }
    }
}

pub open spec fn first_speed_pair(ws: Seq<Seq<char>>, i: int) -> Option<Real>
    decreases ws.len() - i,
{
    if i + 1 >= ws.len() {
        None
    } else {
        match speed_pair(ws[i], ws[i + 1]) {
            Some(v) => Some(v),
            None => first_speed_pair(ws, i + 1),
        }
    }
}

/// The speed that a line reports.
pub open spec fn speed_hint(line: Seq<char>) -> Option<Real> {
    let ws = text::words(line);
    match first_speed_token(ws, 0) {
        Some(v) => Some(v),
        None => first_speed_pair(ws, 0),
    }
}

fn bare_of(w: &[char]) -> (r: &[char])
    ensures
        r@ == bare(w@),
{
    let marks: [char; 5] = ['[', ']', '(', ')', ','];
    assert(marks@ =~= fences());
    text::trim_chars_of(w, marks.as_slice())
}

fn without_brackets(w: &[char]) -> (r: &[char])
    ensures
        r@ == text::trim_of(w@, brackets()),
{
    let marks: [char; 4] = ['(', ')', '[', ']'];
    assert(marks@ =~= brackets());
    text::trim_chars_of(w, marks.as_slice())
}

fn is_unit_word(w: &[char]) -> (r: bool)
    ensures
        r == is_unit(w@),
{
    let lower = text::lower_chars(w);
    units::is_size_unit_in(lower.as_slice())
}

fn word_bytes(v: &Reading, w: &[char]) -> (r: u64)
    ensures
        r == bytes_of(v@, w@),
{
    let lower = text::lower_chars(w);
    units::to_bytes(v, units::unit_multiplier_in(lower.as_slice()))
}

fn read_shared_unit_pair(w0: &[char], w1: &[char]) -> (r: Option<(u64, u64)>)
    ensures
        r == shared_unit_pair(w0@, w1@),
{
    let unit = bare_of(w1);
    match text::split_once_at(bare_of(w0), "/") {
        Some((d, t)) => {
            if !is_unit_word(unit) {
                return None;
            }
            match (numerals::read_real(d), numerals::read_real(t)) {
                (Some(done), Some(total)) => if done.is_below_zero() || total.is_not_above_zero() {
                    None
                } else {
                    Some((word_bytes(&done, unit), word_bytes(&total, unit)))
                },
                _ => None,
            }
        },
        None => None,
    }
}

fn read_two_sizes(d: &[char], du: &[char], t: &[char], tu: &[char]) -> (r: Option<(u64, u64)>)
    ensures
        r == two_sizes(d@, du@, t@, tu@),
{
    if !is_unit_word(du) || !is_unit_word(tu) {
        return None;
    }
    match (numerals::read_real(d), numerals::read_real(t)) {
        (Some(done), Some(total)) => {
            if done.is_below_zero() || total.is_not_above_zero() {
                return None;
            }
            let total: u64 = word_bytes(&total, tu);
            if total > 0 {
                Some((word_bytes(&done, du), total))
            } else {
                None
            }
        },
        _ => None,
    }
}

fn read_pair_at(ws: &Vec<&[char]>, wv: Ghost<Seq<Seq<char>>>, form: usize, i: usize) -> (r: Option<
    (u64, u64),
>)
    requires
        form == 2 || form == 3 || form == 5,
        i + form <= ws.len(),
        wv@.len() == ws@.len(),
        forall|j: int| 0 <= j < ws@.len() ==> (#[trigger] ws@[j])@ == wv@[j],
    ensures
        r == pair_at(wv@, form as int, i as int),
{
    if form == 2 {
        read_shared_unit_pair(ws[i], ws[i + 1])
    } else if form == 3 {
        match text::split_once_at(bare_of(ws[i + 1]), "/") {
            Some((du, t)) => read_two_sizes(bare_of(ws[i]), du, t, bare_of(ws[i + 2])),
            None => None,
        }
    } else {
        if !text::is(bare_of(ws[i + 2]), "/") {
            return None;
        }
        read_two_sizes(
            bare_of(ws[i]),
            bare_of(ws[i + 1]),
            bare_of(ws[i + 3]),
            bare_of(ws[i + 4]),
        )
    }
}

fn find_pair(ws: &Vec<&[char]>, wv: Ghost<Seq<Seq<char>>>, form: usize) -> (r: Option<(u64, u64)>)
    requires
        form == 2 || form == 3 || form == 5,
        wv@.len() == ws@.len(),
        forall|j: int| 0 <= j < ws@.len() ==> (#[trigger] ws@[j])@ == wv@[j],
    ensures
        r == first_pair(wv@, form as int, 0),
{
    if ws.len() < form {
        return None;
    }
    let mut i: usize = 0;
    while i <= ws.len() - form
        invariant
            form == 2 || form == 3 || form == 5,
            form <= ws.len(),
            i <= ws.len() - form + 1,
            wv@.len() == ws@.len(),
            forall|j: int| 0 <= j < ws@.len() ==> (#[trigger] ws@[j])@ == wv@[j],
            first_pair(wv@, form as int, 0) == first_pair(wv@, form as int, i as int),
        decreases ws.len() - i,
    {
        let p = read_pair_at(ws, wv, form, i);
        if p.is_some() {
            return p;
        }
        i += 1;
    }
    None
}

/// Reads the done and total bytes that a line reports.
pub fn parse_payload_progress(line: &str) -> (r: Option<(u64, u64)>)
    ensures
        r == payload_progress(line@),
{
    let line = text::chars_of(line);
    read_payload_progress(line.as_slice())
}

pub fn read_payload_progress(line: &[char]) -> (r: Option<(u64, u64)>)
    ensures
        r == payload_progress(line@),
{
    let ws = text::split_words(line);
    let ghost wv = text::words(line@);
    let a = find_pair(&ws, Ghost(wv), 2);
    if a.is_some() {
        return a;
    }
    let b = find_pair(&ws, Ghost(wv), 3);
    if b.is_some() {
        return b;
    }
    find_pair(&ws, Ghost(wv), 5)
}

fn strip_suffixes<'a>(s: &'a [char], p: &str) -> (r: &'a [char])
    ensures
        r@ == without_suffixes(s@, p@),
    decreases s.len(),
{
    let pat = text::chars_of(p);
    if pat.len() > 0 && text::ends_with(s, p) {
        let t = slice_subrange(s, 0, s.len() - pat.len());
        assert(t@ =~= s@.take(s@.len() - p@.len()));
        strip_suffixes(t, p)
    } else {
        s
    }
}

fn speed_in_bytes(v: &Reading, w: &[char]) -> (r: Reading)
    ensures
        r@ == speed_of(v@, w@),
{
    let lower = text::lower_chars(w);
    v.times(&Magnitude::from_u64(units::unit_multiplier_in(lower.as_slice())))
}

/// Reads the speed that one word reports.
pub fn parse_speed_token(token: &[char]) -> (r: Option<Reading>)
    ensures
        numerals::reading_view(r) == speed_token(token@),
{
    match text::split_once_at(without_brackets(token), "/") {
        Some((num, unit)) => {
            if !(text::is_ignoring_case(unit, "b/s") || text::is_ignoring_case(unit, "kb/s")
                || text::is_ignoring_case(unit, "kib/s") || text::is_ignoring_case(unit, "mb/s")
                || text::is_ignoring_case(unit, "mib/s") || text::is_ignoring_case(unit, "gb/s")
                || text::is_ignoring_case(unit, "gib/s")) {
                return None;
            }
            match numerals::read_real(num) {
                Some(v) => if v.is_below_zero() {
                    None
                } else {
                    Some(speed_in_bytes(&v, strip_suffixes(unit, "/s")))
                },
                None => None,
            }
        },
        None => None,
    }
}

fn read_speed_pair(w0: &[char], w1: &[char]) -> (r: Option<Reading>)
    ensures
        numerals::reading_view(r) == speed_pair(w0@, w1@),
{
    proof {
        reveal_strlit("/s");
    }
    let n = without_brackets(w0);
    let u = without_brackets(w1);
    match numerals::read_real(n) {
        Some(v) => {
            if !text::ends_with(u, "/s") {
                return None;
            }
            let unit = slice_subrange(u, 0, u.len() - 2);
            assert(unit@ =~= u@.take(u@.len() - 2));
            if is_unit_word(unit) {
                Some(speed_in_bytes(&v, unit))
            } else {
                None
            }
        },
        None => None,
    }
}

/// Reads the speed that a line reports.
pub fn parse_speed_hint(line: &str) -> (r: Option<Reading>)
    ensures
        numerals::reading_view(r) == speed_hint(line@),
{
    let chars = text::chars_of(line);
    let ws = text::split_words(chars.as_slice());
    let ghost wv = text::words(line@);
    let mut i: usize = 0;
    while i < ws.len()
        invariant
            i <= ws.len(),
            wv == text::words(line@),
            wv.len() == ws@.len(),
            forall|j: int| 0 <= j < ws@.len() ==> (#[trigger] ws@[j])@ == wv[j],
            first_speed_token(wv, 0) == first_speed_token(wv, i as int),
        decreases ws.len() - i,
    {
        let v = parse_speed_token(ws[i]);
        if v.is_some() {
            return v;
        }
        i += 1;
    }
    let mut k: usize = 0;
    while k < ws.len() && ws.len() - k > 1
        invariant
            k <= ws.len(),
            wv == text::words(line@),
            wv.len() == ws@.len(),
            forall|j: int| 0 <= j < ws@.len() ==> (#[trigger] ws@[j])@ == wv[j],
            first_speed_token(wv, 0) is None,
            first_speed_pair(wv, 0) == first_speed_pair(wv, k as int),
        decreases ws.len() - k,
    {
        let v = read_speed_pair(ws[k], ws[k + 1]);
        if v.is_some() {
            return v;
        }
        k += 1;
    }
    None
}

/// A progress line of a tool's own: a download or an upload with a rate on it.
/// `lower` is the line in lower case.
pub open spec fn cli_progress(line: Seq<char>, lower: Seq<char>) -> bool {
    &&& text::contains(lower, "download"@) || text::contains(lower, "upload"@)
    &&& text::contains(line, "/"@)
    &&& text::contains(line, "B/s"@)
}

/// As `is_cli_progress_line`, with the line in lower case given too.
pub fn is_cli_progress_line_in(line: &[char], lower: &[char]) -> (r: bool)
    ensures
        r == cli_progress(line@, lower@),
{
    (text::contains_str(lower, "download") || text::contains_str(lower, "upload"))
        && text::contains_str(line, "/") && text::contains_str(line, "B/s")
}

/// Whether a line is a progress line of a tool's own.
pub fn is_cli_progress_line(line: &str) -> (r: bool)
    ensures
        r == cli_progress(line@, text::lowercase(line@)),
{
    let lower = line.to_lowercase();
    let lower = text::chars_of(lower.as_str());
    let line = text::chars_of(line);
    is_cli_progress_line_in(line.as_slice(), lower.as_slice())
}

/// A progress line cut down to its last stage, or to its last 220 characters.
pub open spec fn compact(line: Seq<char>) -> Seq<char> {
    let t = text::trim(line);
    match text::rfind(t, "[3/4]"@) {
        Some(i) => text::trim(t.skip(i)),
        None => match text::rfind(t, "[4/4]"@) {
            Some(i) => text::trim(t.skip(i)),
            None => text::last_chars(t, 220),
        },
    }
}

/// Cuts a progress line down to its last stage, or to its last 220 characters.
pub fn compact_cli_progress_line(line: &str) -> (r: String)
    ensures
        r@ == compact(line@),
{
    let line = text::chars_of(line);
    let t = text::trim_chars(line.as_slice());
    match text::rfind_str(t, "[3/4]") {
        Some(i) => {
            let tail = slice_subrange(t, i, t.len());
            assert(tail@ =~= t@.skip(i as int));
            return text::string_of(text::trim_chars(tail));
        },
        None => {},
    }
    match text::rfind_str(t, "[4/4]") {
        Some(i) => {
            let tail = slice_subrange(t, i, t.len());
            assert(tail@ =~= t@.skip(i as int));
            return text::string_of(text::trim_chars(tail));
        },
        None => {},
    }
    if t.len() > 220 {
        let tail = slice_subrange(t, t.len() - 220, t.len());
        assert(tail@ =~= t@.skip(t@.len() - 220));
        return text::string_of(tail);
    }
    text::string_of(t)
}

} // verus!
