//! What sendme prints, and tickets as people paste them.

use crate::numerals;
use crate::progress;
use crate::text;
use crate::units;
use vstd::prelude::*;

verus! {

/// What stands between the first comma of `line` and the next.
pub open spec fn second_part(line: Seq<char>) -> Option<Seq<char>> {
    match text::split_once(line, ","@) {
        Some((_, rest)) => match text::split_once(rest, ","@) {
            Some((part, _)) => Some(part),
            None => Some(rest),
        },
        None => None,
    }
}

/// The size on a line about an imported file or directory.
pub open spec fn imported_size(line: Seq<char>, lower: Seq<char>) -> Option<u64> {
    if "imported directory "@.is_prefix_of(lower) || "imported file "@.is_prefix_of(lower) {
        match second_part(line) {
            Some(part) => units::size_prefix(text::trim(part)),
            None => None,
        }
    } else {
        None
    }
}

/// The number of files on a line that reads "importing 17 files".
pub open spec fn total_files(lower: Seq<char>) -> Option<u64> {
    match text::split_once(lower, "importing "@) {
        Some((_, tail)) => {
            let ws = text::words(tail);
            if ws.len() >= 2 && "file"@.is_prefix_of(ws[1]) {
                numerals::u64_of(ws[0])
            } else {
                None
            }
        },
        None => None,
    }
}

pub open spec fn saturating_next(n: u64) -> u64 {
    if n == u64::MAX {
        n
    } else {
        (n + 1) as u64
    }
}

/// The number behind the first word `i` that a number follows, counted from one.
pub open spec fn item_index_from(ws: Seq<Seq<char>>, k: int) -> Option<u64>
    decreases ws.len() - k,
{
    if k + 1 >= ws.len() {
        None
    } else {
        match numerals::u64_of(ws[k + 1]) {
            Some(n) if ws[k] == "i"@ => Some(saturating_next(n)),
            _ => item_index_from(ws, k + 1),
        }
    }
}

/// A counter such as `[3/10]`.
pub open spec fn counter(w: Seq<char>) -> Option<(u64, u64)> {
    match text::split_once(progress::bare(w), "/"@) {
        Some((d, t)) => match (numerals::u64_of(d), numerals::u64_of(t)) {
            (Some(done), Some(total)) => Some((done, total)),
            _ => None,
        },
        None => None,
    }
}

/// The counter behind the first word `r` that a word follows.
pub open spec fn r_counter_from(ws: Seq<Seq<char>>, k: int) -> Option<(u64, u64)>
    decreases ws.len() - k,
{
    if k + 1 >= ws.len() {
        None
    } else if ws[k] == "r"@ {
        counter(ws[k + 1])
    } else {
        r_counter_from(ws, k + 1)
    }
}

/// As the counter behind `r`, where it is not beyond its total.
pub open spec fn r_payload(line: Seq<char>) -> Option<(u64, u64)> {
    match r_counter_from(text::words(line), 0) {
        Some((done, total)) if total != 0 && done <= total => Some((done, total)),
        _ => None,
    }
}

/// A line about a receiver's request, with its progress.
pub open spec fn is_request_line(line: Seq<char>) -> bool {
    let t = text::trim(line);
    &&& "n "@.is_prefix_of(t)
    &&& text::contains(t, " r "@)
    &&& text::contains(t, " i "@)
    &&& text::contains(t, " # "@)
    &&& progress::payload_progress(t) is Some
}

/// Reads the size on a line about an import, given the line in lower case too.
pub fn parse_sendme_imported_size_hint_in(line: &[char], lower: &[char]) -> (r: Option<u64>)
    ensures
        r == imported_size(line@, lower@),
{
    if !(text::starts_with(lower, "imported directory ") || text::starts_with(
        lower,
        "imported file ",
    )) {
        return None;
    }
    match text::split_once_at(line, ",") {
        Some((_, rest)) => {
            let part = match text::split_once_at(rest, ",") {
                Some((part, _)) => part,
                None => rest,
            };
            units::read_size_prefix(text::trim_chars(part))
        },
        None => None,
    }
}

/// Reads the size on a line about an imported file or directory.
pub fn parse_sendme_imported_size_hint(line: &str) -> (r: Option<u64>)
    ensures
        r == imported_size(line@, text::lowercase(line@)),
{
    let lower = line.to_lowercase();
    let lower = text::chars_of(lower.as_str());
    let line = text::chars_of(line);
    parse_sendme_imported_size_hint_in(line.as_slice(), lower.as_slice())
}

/// Reads the number of files on a line that is in lower case.
pub fn parse_sendme_total_files_hint_in(lower: &[char]) -> (r: Option<u64>)
    ensures
        r == total_files(lower@),
{
    match text::split_once_at(lower, "importing ") {
        Some((_, tail)) => {
            let ws = text::split_words(tail);
            if ws.len() >= 2 && text::starts_with(ws[1], "file") {
                numerals::read_u64(ws[0])
            } else {
                None
            }
        },
        None => None,
    }
}

/// Reads the number of files on a line that reads "importing 17 files".
pub fn parse_sendme_total_files_hint(line: &str) -> (r: Option<u64>)
    ensures
        r == total_files(text::lowercase(line@)),
{
    let lower = line.to_lowercase();
    let lower = text::chars_of(lower.as_str());
    parse_sendme_total_files_hint_in(lower.as_slice())
}

/// Reads the number of the item that a line is about, counted from one.
pub fn parse_sendme_item_index(line: &str) -> (r: Option<u64>)
    ensures
        r == item_index_from(text::words(line@), 0),
{
    let chars = text::chars_of(line);
    let ws = text::split_words(chars.as_slice());
    let ghost wv = text::words(line@);
    let mut k: usize = 0;
    while k < ws.len() && ws.len() - k > 1
        invariant
            k <= ws.len(),
            wv == text::words(line@),
            wv.len() == ws@.len(),
            forall|j: int| 0 <= j < ws@.len() ==> (#[trigger] ws@[j])@ == wv[j],
            item_index_from(wv, 0) == item_index_from(wv, k as int),
        decreases ws.len() - k,
    {
        if text::is(ws[k], "i") {
            match numerals::read_u64(ws[k + 1]) {
                Some(n) => {
                    return Some(n.saturating_add(1));
                },
                None => {},
            }
        }
        k += 1;
    }
    None
}

/// Reads the counter behind the word `r`.
pub fn parse_sendme_r_counter(line: &str) -> (r: Option<(u64, u64)>)
    ensures
        r == r_counter_from(text::words(line@), 0),
{
    let chars = text::chars_of(line);
    let ws = text::split_words(chars.as_slice());
    let ghost wv = text::words(line@);
    let mut k: usize = 0;
    while k < ws.len() && ws.len() - k > 1
        invariant
            k <= ws.len(),
            wv == text::words(line@),
            wv.len() == ws@.len(),
            forall|j: int| 0 <= j < ws@.len() ==> (#[trigger] ws@[j])@ == wv[j],
            r_counter_from(wv, 0) == r_counter_from(wv, k as int),
        decreases ws.len() - k,
    {
        if text::is(ws[k], "r") {
            let marks: [char; 5] = ['[', ']', '(', ')', ','];
            assert(marks@ =~= progress::fences());
            return match text::split_once_at(
                text::trim_chars_of(ws[k + 1], marks.as_slice()),
                "/",
            ) {
                Some((d, t)) => match (numerals::read_u64(d), numerals::read_u64(t)) {
                    (Some(done), Some(total)) => Some((done, total)),
                    _ => None,
                },
                None => None,
            };
        }
        k += 1;
    }
    None
}

/// Reads the counter behind the word `r`, where it is not beyond its total.
pub fn parse_sendme_r_payload_progress(line: &str) -> (r: Option<(u64, u64)>)
    ensures
        r == r_payload(line@),
{
    match parse_sendme_r_counter(line) {
        Some((done, total)) => if total == 0 || done > total {
            None
        } else {
            Some((done, total))
        },
        None => None,
    }
}

/// Whether a line is about a receiver's request, with its progress.
pub fn is_sendme_sender_request_line(line: &str) -> (r: bool)
    ensures
        r == is_request_line(line@),
{
    let chars = text::chars_of(line);
    let t = text::trim_chars(chars.as_slice());
    text::starts_with(t, "n ") && text::contains_str(t, " r ") && text::contains_str(t, " i ")
        && text::contains_str(t, " # ") && progress::read_payload_progress(t).is_some()
}

// ── Tickets ──

pub open spec fn is_ticket_char(c: char) -> bool {
    'a' <= c <= 'z' || '0' <= c <= '9'
}

/// A ticket: "blob" and more than twenty small letters and digits in all.
pub open spec fn is_ticket(t: Seq<char>) -> bool {
    &&& "blob"@.is_prefix_of(t)
    &&& t.len() > 20
    &&& forall|i: int| 0 <= i < t.len() ==> is_ticket_char(#[trigger] t[i])
}

/// A word without the quotes, commas and semicolons around it.
pub open spec fn unquoted(w: Seq<char>) -> Seq<char> {
    text::trim(text::trim_of(w, seq!['"', '\'', ',', ';']))
}

pub open spec fn first_ticket(ws: Seq<Seq<char>>, k: int) -> Option<Seq<char>>
    decreases ws.len() - k,
{
    if k >= ws.len() {
        None
    } else if is_ticket(unquoted(ws[k])) {
        Some(unquoted(ws[k]))
    } else {
        first_ticket(ws, k + 1)
    }
}

/// The first ticket among the words of a pasted text: a bare ticket, or a whole
/// command with one in it.
pub open spec fn ticket_in(t: Seq<char>) -> Option<Seq<char>> {
    first_ticket(
        text::words(text::trim_of(text::trim_of(text::trim(t), seq!['"']), seq!['\''])),
        0,
    )
}

/// A word with nothing to take off: no white space, and no quote at its ends.
pub open spec fn is_bare_word(w: Seq<char>) -> bool {
    &&& w.len() > 0
    &&& forall|i: int| 0 <= i < w.len() ==> !text::is_space(#[trigger] w[i])
    &&& !seq!['"', '\'', ',', ';'].contains(w[0])
    &&& !seq!['"', '\'', ',', ';'].contains(w.last())
}

proof fn lemma_ticket_is_bare(t: Seq<char>)
    requires
        is_ticket(t),
    ensures
        is_bare_word(t),
{
    assert(is_ticket_char(t[0]));
    assert(is_ticket_char(t.last()));
    assert forall|i: int| 0 <= i < t.len() implies !text::is_space(#[trigger] t[i]) by {
        assert(is_ticket_char(t[i]));
    }
}

/// A bare word that is followed by white space is the first word.
proof fn lemma_first_word(w: Seq<char>, rest: Seq<char>)
    requires
        is_bare_word(w),
        rest.len() > 0 ==> text::is_space(rest[0]),
    ensures
        unquoted(w) == w,
        text::words(w + rest) == seq![w] + text::words(rest),
{
    let s = w + rest;
    text::lemma_word_len(s);
    let n = text::word_len(s);
    assert(s[0] == w[0]);
    if n < w.len() {
        assert(s[n as int] == w[n as int]);
    }
    if n > w.len() {
        assert(s[w.len() as int] == rest[0]);
    }
    assert(s.take(n as int) =~= w);
    assert(s.skip(n as int) =~= rest);
}

/// A ticket is found as it is, alone and behind the command that receives it.
pub proof fn law_tickets_are_found(t: Seq<char>)
    requires
        is_ticket(t),
    ensures
        ticket_in(t) == Some(t),
        ticket_in("sendme receive "@ + t) == Some(t),
{
    reveal_strlit("sendme receive ");
    reveal_strlit("blob");
    lemma_ticket_is_bare(t);
    assert(t + Seq::empty() =~= t);
    lemma_first_word(t, Seq::empty());
    assert(text::words(t) =~= seq![t]);
    let double = seq!['"'];
    let single = seq!['\''];
    assert(is_ticket_char(t[0]) && is_ticket_char(t.last()));
    assert(text::trim_of(text::trim_of(text::trim(t), double), single) == t);
    assert(text::words(t)[0] == t);

    let a = seq!['s', 'e', 'n', 'd', 'm', 'e'];
    let b = seq!['r', 'e', 'c', 'e', 'i', 'v', 'e'];
    let tail = seq![' '] + t;
    let middle = seq![' '] + (b + tail);
    let c = "sendme receive "@ + t;
    assert(c =~= a + middle);
    assert(c[0] == 's' && c.last() == t.last());
    assert(text::trim_of(text::trim_of(text::trim(c), double), single) == c);
    lemma_first_word(a, middle);
    assert(middle.skip(1) =~= b + tail);
    lemma_first_word(b, tail);
    assert(tail.skip(1) =~= t);
    let ws = seq![a, b, t];
    assert(text::words(c) =~= ws);
    assert(!is_ticket(a) && !is_ticket(b));
    assert(first_ticket(ws, 2) == Some(t));
    assert(first_ticket(ws, 1) == Some(t));
    assert(first_ticket(ws, 0) == Some(t));
}

pub open spec fn string_view(s: Option<String>) -> Option<Seq<char>> {
    match s {
        Some(x) => Some(x@),
        None => None,
    }
}

fn looks_like_ticket(t: &[char]) -> (r: bool)
    ensures
        r == is_ticket(t@),
{
    if !text::starts_with(t, "blob") || t.len() <= 20 {
        return false;
    }
    let mut i: usize = 0;
    while i < t.len()
        invariant
            i <= t.len(),
            forall|j: int| 0 <= j < i ==> is_ticket_char(#[trigger] t@[j]),
        decreases t.len() - i,
    {
        let c: char = t[i];
        if !(('a' <= c && c <= 'z') || ('0' <= c && c <= '9')) {
            assert(!is_ticket_char(t@[i as int]));
            return false;
        }
        i += 1;
    }
    true
}

/// Finds the ticket in a pasted text.
pub fn normalize_sendme_ticket(t: &str) -> (r: Option<String>)
    ensures
        string_view(r) == ticket_in(t@),
{
    let chars = text::chars_of(t);
    let double: [char; 1] = ['"'];
    let single: [char; 1] = ['\''];
    let all: [char; 4] = ['"', '\'', ',', ';'];
    assert(double@ =~= seq!['"']);
    assert(single@ =~= seq!['\'']);
    assert(all@ =~= seq!['"', '\'', ',', ';']);
    let trimmed = text::trim_chars_of(
        text::trim_chars_of(text::trim_chars(chars.as_slice()), double.as_slice()),
        single.as_slice(),
    );
    let ws = text::split_words(trimmed);
    let ghost wv = text::words(trimmed@);
    let mut k: usize = 0;
    while k < ws.len()
        invariant
            k <= ws.len(),
            all@ == seq!['"', '\'', ',', ';'],
            wv.len() == ws@.len(),
            forall|j: int| 0 <= j < ws@.len() ==> (#[trigger] ws@[j])@ == wv[j],
            ticket_in(t@) == first_ticket(wv, k as int),
        decreases ws.len() - k,
    {
        let w = text::trim_chars(text::trim_chars_of(ws[k], all.as_slice()));
        if looks_like_ticket(w) {
            return Some(text::string_of(w));
        }
        k += 1;
    }
    None
}

} // verus!
