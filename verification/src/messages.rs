//! Texts and codes in what croc prints.

use crate::sendme;
use crate::text;
use vstd::prelude::*;
use vstd::slice::slice_subrange;

verus! {

// ── Terminal escapes ──

pub open spec fn is_letter(c: char) -> bool {
    'a' <= c <= 'z' || 'A' <= c <= 'Z'
}

pub open spec fn is_control(c: char) -> bool {
    (c as u32) < 32 || c as u32 == 127
}

/// What follows the first letter in `s`.
pub open spec fn after_letter(s: Seq<char>) -> Seq<char>
    decreases s.len(),
{
    if s.len() == 0 {
        s
    } else if is_letter(s[0]) {
        s.skip(1)
    } else {
        after_letter(s.skip(1))
    }
}

/// What follows an escape character in `s`: a sequence that a bracket opens
/// ends with a letter, any other is one character.
pub open spec fn after_escape(s: Seq<char>) -> Seq<char> {
    if s.len() == 0 {
        s
    } else if s[0] == '[' {
        after_letter(s.skip(1))
    } else {
        s.skip(1)
    }
}

pub proof fn lemma_after_letter(s: Seq<char>)
    ensures
        after_letter(s).len() <= s.len(),
        exists|i: int| 0 <= i <= s.len() && after_letter(s) == s.skip(i),
    decreases s.len(),
{
    if s.len() == 0 {
        assert(s =~= s.skip(0));
    } else if is_letter(s[0]) {
        assert(after_letter(s) == s.skip(1));
    } else {
        lemma_after_letter(s.skip(1));
        let i = choose|i: int|
            0 <= i <= s.skip(1).len() && after_letter(s.skip(1)) == s.skip(1).skip(i);
        assert(s.skip(1).skip(i) =~= s.skip(i + 1));
    }
}

/// `s` without terminal escapes and without control characters other than tab
/// and line feed.
pub open spec fn plain(s: Seq<char>) -> Seq<char>
    decreases s.len(),
{
    if s.len() == 0 {
        s
    } else if s[0] == '\u{1b}' {
        proof {
            lemma_after_escape(s.skip(1));
        }
        plain(after_escape(s.skip(1)))
    } else if is_control(s[0]) && s[0] != '\t' && s[0] != '\n' {
        plain(s.skip(1))
    } else {
        seq![s[0]] + plain(s.skip(1))
    }
}

pub proof fn lemma_after_escape(s: Seq<char>)
    ensures
        after_escape(s).len() <= s.len(),
{
    if s.len() > 0 {
        lemma_after_letter(s.skip(1));
    }
}

/// Nothing that `plain` leaves is an escape or another control character.
pub proof fn law_plain_is_clean(s: Seq<char>)
    ensures
        forall|i: int|
            0 <= i < plain(s).len() ==> ({
                let c = #[trigger] plain(s)[i];
                c == '\t' || c == '\n' || !is_control(c)
            }),
        plain(s).len() <= s.len(),
    decreases s.len(),
{
    if s.len() == 0 {
    } else if s[0] == '\u{1b}' {
        lemma_after_escape(s.skip(1));
        law_plain_is_clean(after_escape(s.skip(1)));
    } else if is_control(s[0]) && s[0] != '\t' && s[0] != '\n' {
        law_plain_is_clean(s.skip(1));
    } else {
        law_plain_is_clean(s.skip(1));
    }
}

/// A text with no control character but tab and line feed stays as it is, so
/// cleaning twice is cleaning once.
pub proof fn law_plain_keeps_clean_text(s: Seq<char>)
    requires
        forall|i: int|
            0 <= i < s.len() ==> ({
                let c = #[trigger] s[i];
                c == '\t' || c == '\n' || !is_control(c)
            }),
    ensures
        plain(s) == s,
    decreases s.len(),
{
    if s.len() > 0 {
        let c = s[0];
        assert(c == '\t' || c == '\n' || !is_control(c));
        assert forall|i: int| 0 <= i < s.skip(1).len() implies ({
            let c = #[trigger] s.skip(1)[i];
            c == '\t' || c == '\n' || !is_control(c)
        }) by {
            assert(s.skip(1)[i] == s[i + 1]);
        }
        law_plain_keeps_clean_text(s.skip(1));
        assert(seq![s[0]] + s.skip(1) =~= s);
    }
}

/// Cleaning a text twice is cleaning it once.
pub proof fn law_plain_idempotent(s: Seq<char>)
    ensures
        plain(plain(s)) == plain(s),
{
    law_plain_is_clean(s);
    law_plain_keeps_clean_text(plain(s));
}

fn is_ascii_control(c: char) -> (r: bool)
    ensures
        r == is_control(c),
{
    (c as u32) < 32 || c as u32 == 127
}

/// Whether a character is a letter of ASCII.
pub fn is_ascii_letter(c: char) -> (r: bool)
    ensures
        r == is_letter(c),
{
    ('a' <= c && c <= 'z') || ('A' <= c && c <= 'Z')
}

/// Removes terminal escapes and control characters.
pub fn strip_ansi(s: &str) -> (r: String)
    ensures
        r@ == plain(s@),
{
    let chars = text::chars_of(s);
    let t = chars.as_slice();
    let mut out: Vec<char> = Vec::new();
    let mut i: usize = 0;
    proof {
        assert(t@.skip(0) =~= t@);
        assert(out@ + plain(t@) =~= plain(t@));
    }
    while i < t.len()
        invariant
            i <= t.len(),
            t@ == s@,
            plain(s@) == out@ + plain(t@.skip(i as int)),
        decreases t.len() - i,
    {
        let c: char = t[i];
        let ghost here = t@.skip(i as int);
        assert(here.skip(1) =~= t@.skip(i + 1));
        i += 1;
        if c == '\u{1b}' {
            if i < t.len() {
                let next: char = t[i];
                assert(t@.skip(i as int).skip(1) =~= t@.skip(i + 1));
                i += 1;
                if next == '[' {
                    let ghost inside = t@.skip(i as int);
                    let ghost begun = i;
                    let mut found: bool = false;
                    while i < t.len() && !found
                        invariant
                            begun <= i <= t.len(),
                            found ==> after_letter(inside) == t@.skip(i as int),
                            !found ==> after_letter(inside) == after_letter(t@.skip(i as int)),
                        decreases t.len() - i,
                    {
                        assert(t@.skip(i as int).skip(1) =~= t@.skip(i + 1));
                        found = is_ascii_letter(t[i]);
                        i += 1;
                    }
                    proof {
                        if !found {
                            assert(t@.skip(i as int).len() == 0);
                        }
                    }
                }
            }
        } else if is_ascii_control(c) && c != '\t' && c != '\n' {
        } else {
            let ghost before = out@;
            out.push(c);
            assert(before + (seq![c] + plain(t@.skip(i as int))) =~= out@ + plain(
                t@.skip(i as int),
            ));
        }
    }
    proof {
        assert(t@.skip(i as int).len() == 0);
        assert(out@ + plain(t@.skip(i as int)) =~= out@);
    }
    text::string_of(out.as_slice())
}

// ── Codes ──

pub open spec fn first_word(s: Seq<char>) -> Option<Seq<char>> {
    let ws = text::words(s);
    if ws.len() == 0 {
        None
    } else {
        Some(ws[0])
    }
}

pub open spec fn unless_empty(s: Seq<char>) -> Option<Seq<char>> {
    if s.len() == 0 {
        None
    } else {
        Some(s)
    }
}

/// What a secret's setting reads: a text in quotes, or the first word.
pub open spec fn secret_value(suffix: Seq<char>) -> Option<Seq<char>> {
    if suffix.len() > 0 && suffix[0] == '"' {
        match text::split_once(suffix.skip(1), "\""@) {
            Some((code, _)) => unless_empty(code),
            None => None,
        }
    } else {
        match first_word(suffix) {
            Some(w) => unless_empty(text::trim_of(w, seq!['"'])),
            None => None,
        }
    }
}

/// The code behind the colon that follows "code is".
pub open spec fn announced_code(s: Seq<char>, lower: Seq<char>) -> Option<Option<Seq<char>>> {
    match text::find(lower, "code is"@) {
        Some(i) => match text::from_byte(s, text::bytes(lower.take(i))) {
            Some(suffix) => match text::split_once(text::trim(suffix), ":"@) {
                Some((_, rest)) if text::trim(rest).len() > 0 => Some(Some(text::trim(rest))),
                _ => None,
            },
            None => Some(None),
        },
        None => None,
    }
}

/// The code that a line gives: one that it announces, or the value of the
/// variable that croc reads its secret from.
pub open spec fn code_in(s: Seq<char>, lower: Seq<char>) -> Option<Seq<char>> {
    match announced_code(s, lower) {
        Some(code) => code,
        None => match text::find(lower, "croc_secret="@) {
            Some(i) => match text::from_byte(
                s,
                text::bytes(lower.take(i)) + text::bytes("croc_secret="@),
            ) {
                Some(suffix) => secret_value(text::trim(suffix)),
                None => None,
            },
            None => None,
        },
    }
}

fn read_secret_value(suffix: &[char]) -> (r: Option<String>)
    ensures
        sendme::string_view(r) == secret_value(suffix@),
{
    let quote: [char; 1] = ['"'];
    assert(quote@ =~= seq!['"']);
    if suffix.len() > 0 && suffix[0] == '"' {
        let rest = slice_subrange(suffix, 1, suffix.len());
        assert(rest@ =~= suffix@.skip(1));
        match text::split_once_at(rest, "\"") {
            Some((code, _)) => if code.len() == 0 {
                None
            } else {
                Some(text::string_of(code))
            },
            None => None,
        }
    } else {
        let ws = text::split_words(suffix);
        if ws.len() == 0 {
            return None;
        }
        assert(ws@[0]@ == text::words(suffix@)[0]);
        let token = text::trim_chars_of(ws[0], quote.as_slice());
        if token.len() == 0 {
            None
        } else {
            Some(text::string_of(token))
        }
    }
}

/// Reads the code that a line gives, with the line in lower case given too.
pub fn extract_croc_code_in(s: &[char], lower: &[char]) -> (r: Option<String>)
    ensures
        sendme::string_view(r) == code_in(s@, lower@),
{
    match text::find_str(lower, "code is") {
        Some(i) => {
            let head = slice_subrange(lower, 0, i);
            assert(head@ =~= lower@.take(i as int));
            match text::slice_from_byte(s, text::byte_len(head)) {
                Some(suffix) => match text::split_once_at(text::trim_chars(suffix), ":") {
                    Some((_, rest)) => {
                        let code = text::trim_chars(rest);
                        if code.len() > 0 {
                            return Some(text::string_of(code));
                        }
                    },
                    None => {},
                },
                None => {
                    return None;
                },
            }
        },
        None => {},
    }
    match text::find_str(lower, "croc_secret=") {
        Some(i) => {
            let head = slice_subrange(lower, 0, i);
            assert(head@ =~= lower@.take(i as int));
            let mark = text::chars_of("croc_secret=");
            let at: u128 = text::byte_len(head) + text::byte_len(mark.as_slice());
            match text::slice_from_byte(s, at) {
                Some(suffix) => read_secret_value(text::trim_chars(suffix)),
                None => None,
            }
        },
        None => None,
    }
}

/// Reads the code that a line gives.
pub fn extract_croc_code(s: &str) -> (r: Option<String>)
    ensures
        sendme::string_view(r) == code_in(s@, text::lowercase(s@)),
{
    let lower = s.to_lowercase();
    let lower = text::chars_of(lower.as_str());
    let chars = text::chars_of(s);
    extract_croc_code_in(chars.as_slice(), lower.as_slice())
}

/// The mark stands in a line in lower case first behind `pre`, of which each
/// character takes one byte.
pub open spec fn is_marked(lower: Seq<char>, pre: Seq<char>, mark: Seq<char>) -> bool {
    &&& text::is_ascii_text(pre)
    &&& text::is_ascii_text(lower.take(pre.len() as int))
    &&& text::stands_at(lower, mark, pre.len() as int)
    &&& forall|j: int| 0 <= j < pre.len() ==> !#[trigger] text::stands_at(lower, mark, j)
}

proof fn lemma_behind_secret(pre: Seq<char>, rest: Seq<char>, lower: Seq<char>)
    requires
        is_marked(lower, pre, "croc_secret="@),
        !text::contains(lower, "code is"@),
    ensures
        code_in(pre + "CROC_SECRET="@ + rest, lower) == secret_value(text::trim(rest)),
{
    reveal_strlit("croc_secret=");
    reveal_strlit("CROC_SECRET=");
    let head = pre + "CROC_SECRET="@;
    let i = pre.len() as int;
    text::lemma_find_at(lower, "croc_secret="@, i);
    text::lemma_contains_find(lower, "code is"@);
    text::lemma_ascii_bytes(lower.take(i));
    text::lemma_ascii_bytes("croc_secret="@);
    text::lemma_ascii_bytes(head);
    text::law_bytes_lead_to_the_rest(head, rest);
}

/// The secret that croc prints for the receiver is the code that is read, whatever
/// stands around it: all between the quotes, or a word without them.
pub proof fn law_printed_secret_is_the_code(
    pre: Seq<char>,
    code: Seq<char>,
    tail: Seq<char>,
    lower: Seq<char>,
)
    requires
        is_marked(lower, pre, "croc_secret="@),
        !text::contains(lower, "code is"@),
        code.len() > 0,
    ensures
        !code.contains('"') ==> code_in(
            pre + "CROC_SECRET="@ + (seq!['"'] + code + seq!['"'] + tail),
            lower,
        ) == Some(code),
        (forall|i: int| 0 <= i < code.len() ==> !text::is_space(#[trigger] code[i])) && code[0]
            != '"' && code.last() != '"' && (tail.len() > 0 ==> text::is_space(tail[0]))
            ==> code_in(pre + "CROC_SECRET="@ + (code + tail), lower) == Some(code),
{
    reveal_strlit("\"");
    assert("\""@ =~= seq!['"']);
    if !code.contains('"') {
        let quoted = seq!['"'] + code + seq!['"'];
        lemma_behind_secret(pre, quoted + tail, lower);
        text::lemma_trim_end_stops(quoted, tail);
        let t = text::trim(quoted + tail);
        assert(text::trim_start(quoted + tail) == quoted + tail);
        assert(t == quoted + text::trim_end(tail));
        text::law_split_at_the_first(code, '"', text::trim_end(tail));
        assert(t.skip(1) =~= code + seq!['"'] + text::trim_end(tail));
    }
    if (forall|i: int| 0 <= i < code.len() ==> !text::is_space(#[trigger] code[i])) && code[0]
        != '"' && code.last() != '"' && (tail.len() > 0 ==> text::is_space(tail[0])) {
        lemma_behind_secret(pre, code + tail, lower);
        assert(!text::is_space(code[0]) && !text::is_space(code.last()));
        text::lemma_trim_end_stops(code, tail);
        assert(text::trim_start(code + tail) == code + tail);
        let rest = text::trim_end(tail);
        lemma_trim_end_keeps_first(tail);
        assert(text::trim(code + tail) == code + rest);
        text::lemma_first_word(code, rest);
        assert((code + rest)[0] == code[0]);
        assert(!seq!['"'].contains(code[0]) && !seq!['"'].contains(code.last()));
        assert(text::trim_of(code, seq!['"']) == code);
    }
}

proof fn lemma_trim_end_keeps_first(s: Seq<char>)
    ensures
        text::trim_end(s).len() <= s.len(),
        text::trim_end(s).len() > 0 ==> text::trim_end(s)[0] == s[0],
    decreases s.len(),
{
    if s.len() > 0 && text::is_space(s.last()) {
        lemma_trim_end_keeps_first(s.drop_last());
    }
}

/// The code that croc announces is the code that is read: all that stands behind the
/// colon, without white space around it.
pub proof fn law_announced_code_is_the_code(
    pre: Seq<char>,
    head: Seq<char>,
    code: Seq<char>,
    lower: Seq<char>,
)
    requires
        is_marked(lower, pre, "code is"@),
        head.len() > 0,
        !text::is_space(head[0]),
        !head.contains(':'),
        code.len() > 0,
        !text::is_space(code[0]),
        !text::is_space(code.last()),
    ensures
        code_in(pre + (head + seq![':'] + seq![' '] + code), lower) == Some(code),
        code_in(pre + (head + seq![':'] + code), lower) == Some(code),
{
    reveal_strlit("code is");
    reveal_strlit(":");
    assert(":"@ =~= seq![':']);
    let i = pre.len() as int;
    text::lemma_find_at(lower, "code is"@, i);
    text::lemma_ascii_bytes(lower.take(i));
    text::lemma_ascii_bytes(pre);
    let a = head + seq![':'] + seq![' '] + code;
    text::law_bytes_lead_to_the_rest(pre, a);
    assert(a[0] == head[0] && a.last() == code.last());
    text::lemma_trim_keeps(a);
    text::law_split_at_the_first(head, ':', seq![' '] + code);
    assert(a =~= head + seq![':'] + (seq![' '] + code));
    text::lemma_trim_drops_first(seq![' '] + code);
    assert((seq![' '] + code).skip(1) =~= code);
    text::lemma_trim_keeps(code);
    let b = head + seq![':'] + code;
    text::law_bytes_lead_to_the_rest(pre, b);
    assert(b[0] == head[0] && b.last() == code.last());
    text::lemma_trim_keeps(b);
    text::law_split_at_the_first(head, ':', code);
}

/// A line that speaks of no code gives none.
pub proof fn law_no_code_without_a_mark(s: Seq<char>, lower: Seq<char>)
    requires
        !text::contains(lower, "code is"@),
        !text::contains(lower, "croc_secret="@),
    ensures
        code_in(s, lower) is None,
{
    text::lemma_contains_find(lower, "code is"@);
    text::lemma_contains_find(lower, "croc_secret="@);
}

pub open spec fn is_word_char(c: char) -> bool {
    is_letter(c) || text::is_digit(c)
}

/// A code that croc has hidden behind stars.
pub open spec fn is_masked(code: Seq<char>) -> bool {
    let t = text::trim(code);
    &&& t.contains('*')
    &&& forall|i: int| 0 <= i < t.len() ==> !is_word_char(#[trigger] t[i])
}

/// Whether a code is hidden behind stars.
pub fn is_masked_croc_code(code: &str) -> (r: bool)
    ensures
        r == is_masked(code@),
{
    let chars = text::chars_of(code);
    let t = text::trim_chars(chars.as_slice());
    let mut i: usize = 0;
    while i < t.len()
        invariant
            i <= t.len(),
            t@ == text::trim(code@),
            forall|j: int| 0 <= j < i ==> !is_word_char(#[trigger] t@[j]),
        decreases t.len() - i,
    {
        let c: char = t[i];
        if is_ascii_letter(c) || text::is_ascii_digit(c) {
            assert(is_word_char(t@[i as int]));
            return false;
        }
        i += 1;
    }
    text::one_of('*', t)
}

// ── Texts ──

/// The words that announce a text, in the order in which they are looked for.
pub open spec fn text_markers() -> Seq<Seq<char>> {
    seq![
        "received text:"@,
        "text received:"@,
        "received text "@,
        "message:"@,
        "received message:"@,
        "received:"@,
        "text message:"@,
        "text payload:"@,
    ]
}

/// What a line has behind the first of the markers from `k` on that something
/// follows. A marker whose place the line does not share ends the search.
pub open spec fn marked_text(t: Seq<char>, lower: Seq<char>, k: int) -> Option<Option<Seq<char>>>
    decreases 8 - k,
{
    if k < 0 || k >= 8 {
        None
    } else {
        let mark = text_markers()[k];
        match text::find(lower, mark) {
            Some(i) => match text::from_byte(t, text::bytes(lower.take(i)) + text::bytes(mark)) {
                Some(rest) => if text::trim(rest).len() > 0 {
                    Some(Some(text::trim(rest)))
                } else {
                    marked_text(t, lower, k + 1)
                },
                None => Some(None),
            },
            None => marked_text(t, lower, k + 1),
        }
    }
}

/// The text behind "text:" at the start of a line.
pub open spec fn labelled_text(t: Seq<char>, lower: Seq<char>) -> Option<Seq<char>> {
    if "text:"@.is_prefix_of(lower) {
        match text::from_byte(t, 5) {
            Some(rest) => unless_empty(text::trim(rest)),
            None => None,
        }
    } else {
        None
    }
}

/// The text between quotes around a line of fewer than 2000 bytes.
pub open spec fn quoted_text(t: Seq<char>) -> Option<Seq<char>> {
    if t.len() >= 2 && t[0] == '"' && t.last() == '"' {
        let inner = text::trim(t.subrange(1, t.len() - 1));
        if inner.len() > 0 && text::bytes(inner) < 2000 {
            Some(inner)
        } else {
            None
        }
    } else {
        None
    }
}

/// The text that a trimmed line carries; `lower` is that line in lower case.
pub open spec fn received_text(t: Seq<char>, lower: Seq<char>) -> Option<Seq<char>> {
    match marked_text(t, lower, 0) {
        Some(r) => r,
        None => match labelled_text(t, lower) {
            Some(r) => Some(r),
            None => quoted_text(t),
        },
    }
}

/// The text that a line carries.
pub open spec fn text_in_line(line: Seq<char>) -> Option<Seq<char>> {
    received_text(text::trim(line), text::lowercase(text::trim(line)))
}

fn marker(k: usize) -> (r: &'static str)
    requires
        k < 8,
    ensures
        r@ == text_markers()[k as int],
{
    if k == 0 {
        "received text:"
    } else if k == 1 {
        "text received:"
    } else if k == 2 {
        "received text "
    } else if k == 3 {
        "message:"
    } else if k == 4 {
        "received message:"
    } else if k == 5 {
        "received:"
    } else if k == 6 {
        "text message:"
    } else {
        "text payload:"
    }
}

/// Reads the text that a trimmed line carries, with the line in lower case given too.
pub fn extract_croc_received_text_in(t: &[char], lower: &[char]) -> (r: Option<String>)
    ensures
        sendme::string_view(r) == received_text(t@, lower@),
{
    let mut k: usize = 0;
    while k < 8
        invariant
            k <= 8,
            marked_text(t@, lower@, 0) == marked_text(t@, lower@, k as int),
        decreases 8 - k,
    {
        let mark = marker(k);
        match text::find_str(lower, mark) {
            Some(i) => {
                let head = slice_subrange(lower, 0, i);
                assert(head@ =~= lower@.take(i as int));
                let mark = text::chars_of(mark);
                let at: u128 = text::byte_len(head) + text::byte_len(mark.as_slice());
                match text::slice_from_byte(t, at) {
                    Some(rest) => {
                        let found = text::trim_chars(rest);
                        if found.len() > 0 {
                            return Some(text::string_of(found));
                        }
                    },
                    None => {
                        return None;
                    },
                }
            },
            None => {},
        }
        k += 1;
    }
    if text::starts_with(lower, "text:") {
        match text::slice_from_byte(t, 5) {
            Some(rest) => {
                let found = text::trim_chars(rest);
                if found.len() > 0 {
                    return Some(text::string_of(found));
                }
            },
            None => {},
        }
    }
    if t.len() >= 2 && t[0] == '"' && t[t.len() - 1] == '"' {
        let inside = slice_subrange(t, 1, t.len() - 1);
        let inner = text::trim_chars(inside);
        if inner.len() > 0 && text::byte_len(inner) < 2000 {
            return Some(text::string_of(inner));
        }
    }
    None
}

/// Reads the text that a line carries.
pub fn extract_croc_received_text(line: &str) -> (r: Option<String>)
    ensures
        sendme::string_view(r) == text_in_line(line@),
{
    let chars = text::chars_of(line);
    let t = text::trim_chars(chars.as_slice());
    let lower = text::lower_chars(t);
    extract_croc_received_text_in(t, lower.as_slice())
}

/// A line in lower case that announces a text on one of the lines behind it.
pub open spec fn announces_text(lower: Seq<char>) -> bool {
    (text::contains(lower, "receiv"@) && text::contains(lower, "text"@)) || text::contains(
        lower,
        "received text"@,
    )
}

/// A line in lower case that croc prints about its own work.
pub open spec fn is_status(lower: Seq<char>) -> bool {
    ||| text::contains(lower, "connecting"@)
    ||| text::contains(lower, "securing"@)
    ||| text::contains(lower, "receiving"@)
    ||| text::contains(lower, "sending"@)
    ||| text::contains(lower, "code is"@)
    ||| text::contains(lower, "croc_secret"@)
    ||| text::contains(lower, "download"@)
    ||| text::contains(lower, "upload"@)
    ||| text::contains(lower, "mb/s"@)
    ||| text::contains(lower, "kb/s"@)
    ||| text::contains(lower, "error"@)
    ||| text::contains(lower, "failed"@)
}

/// A line without white space and quotes around it.
pub open spec fn candidate(line: Seq<char>) -> Seq<char> {
    text::trim_of(text::trim(line), seq!['"'])
}

/// A line that can be the text that an earlier one announces.
pub open spec fn may_follow(line: Seq<char>) -> bool {
    let c = candidate(line);
    c.len() > 0 && text::bytes(c) <= 2000 && !is_status(text::lowercase(c))
}

/// The first of at most `n` lines from `i` on that can be an announced text.
pub open spec fn following_text(log: Seq<Seq<char>>, i: int, n: nat) -> Option<Seq<char>>
    decreases n,
{
    if n == 0 || i >= log.len() {
        None
    } else if may_follow(log[i]) {
        Some(candidate(log[i]))
    } else {
        following_text(log, i + 1, (n - 1) as nat)
    }
}

/// The text that the first `n` lines of a log carry, looked for from their end:
/// on a line itself, or on one of the six behind a line that announces it.
pub open spec fn text_in_log(log: Seq<Seq<char>>, n: nat) -> Option<Seq<char>>
    decreases n,
{
    if n == 0 || n > log.len() {
        None
    } else {
        let line = log[n - 1];
        match text_in_line(line) {
            Some(found) => Some(found),
            None => match following_text(log, n as int, 6) {
                Some(found) if announces_text(text::lowercase(line)) => Some(found),
                _ => text_in_log(log, (n - 1) as nat),
            },
        }
    }
}

/// The lines of a log.
pub open spec fn lines_view(log: Seq<String>) -> Seq<Seq<char>> {
    log.map_values(|s: String| s@)
}

fn is_status_line(lower: &[char]) -> (r: bool)
    ensures
        r == is_status(lower@),
{
    text::contains_str(lower, "connecting") || text::contains_str(lower, "securing")
        || text::contains_str(lower, "receiving") || text::contains_str(lower, "sending")
        || text::contains_str(lower, "code is") || text::contains_str(lower, "croc_secret")
        || text::contains_str(lower, "download") || text::contains_str(lower, "upload")
        || text::contains_str(lower, "mb/s") || text::contains_str(lower, "kb/s")
        || text::contains_str(lower, "error") || text::contains_str(lower, "failed")
}

fn announcing(lower: &[char]) -> (r: bool)
    ensures
        r == announces_text(lower@),
{
    (text::contains_str(lower, "receiv") && text::contains_str(lower, "text"))
        || text::contains_str(lower, "received text")
}

fn find_following(log: &Vec<String>, from: usize) -> (r: Option<String>)
    ensures
        sendme::string_view(r) == following_text(lines_view(log@), from as int, 6),
{
    let quote: [char; 1] = ['"'];
    assert(quote@ =~= seq!['"']);
    let mut left: u32 = 6;
    let mut i: usize = from;
    while left > 0 && i < log.len()
        invariant
            left <= 6,
            quote@ == seq!['"'],
            following_text(lines_view(log@), from as int, 6) == following_text(
                lines_view(log@),
                i as int,
                left as nat,
            ),
        decreases left,
    {
        let chars = text::chars_of(log[i].as_str());
        let c = text::trim_chars_of(text::trim_chars(chars.as_slice()), quote.as_slice());
        if c.len() > 0 && text::byte_len(c) <= 2000 {
            let lower = text::lower_chars(c);
            if !is_status_line(lower.as_slice()) {
                return Some(text::string_of(c));
            }
        }
        i += 1;
        left -= 1;
    }
    None
}

/// Looks for a text in the lines of a log, from their end.
pub fn extract_croc_received_text_from_logs(log: &Vec<String>) -> (r: Option<String>)
    ensures
        sendme::string_view(r) == text_in_log(lines_view(log@), log@.len()),
{
    let mut n: usize = log.len();
    while n > 0
        invariant
            n <= log.len(),
            text_in_log(lines_view(log@), log@.len()) == text_in_log(lines_view(log@), n as nat),
        decreases n,
    {
        let line = log[n - 1].as_str();
        let found = extract_croc_received_text(line);
        if found.is_some() {
            return found;
        }
        let lower = line.to_lowercase();
        let lower = text::chars_of(lower.as_str());
        if announcing(lower.as_slice()) {
            let found = find_following(log, n);
            if found.is_some() {
                return found;
            }
        }
        n -= 1;
    }
    None
}

/// A line, given without quotes and in lower case, that can be an expected text.
pub open spec fn is_payload(c: Seq<char>, lower: Seq<char>) -> bool {
    &&& c.len() > 0
    &&& text::bytes(c) <= 2000
    &&& !is_status(lower)
    &&& !text::contains(lower, "b/s"@)
    &&& !text::contains(lower, "file"@)
}

/// Whether a line, given without quotes and in lower case, can be an expected text.
pub fn is_probable_croc_text_payload_line_in(c: &[char], lower: &[char]) -> (r: bool)
    ensures
        r == is_payload(c@, lower@),
{
    c.len() > 0 && text::byte_len(c) <= 2000 && !is_status_line(lower) && !text::contains_str(
        lower,
        "b/s",
    ) && !text::contains_str(lower, "file")
}

/// Whether a line can be an expected text.
pub fn is_probable_croc_text_payload_line(line: &str) -> (r: bool)
    ensures
        r == is_payload(candidate(line@), text::lowercase(candidate(line@))),
{
    let quote: [char; 1] = ['"'];
    assert(quote@ =~= seq!['"']);
    let chars = text::chars_of(line);
    let c = text::trim_chars_of(text::trim_chars(chars.as_slice()), quote.as_slice());
    let lower = text::lower_chars(c);
    is_probable_croc_text_payload_line_in(c, lower.as_slice())
}

// ── What texts are taken for ──

/// The words of croc's own lines. A line with one of them is not an announced text.
pub open spec fn croc_words() -> Seq<Seq<char>> {
    seq![
        "connecting"@,
        "securing"@,
        "receiving"@,
        "sending"@,
        "code is"@,
        "croc_secret"@,
        "download"@,
        "upload"@,
        "mb/s"@,
        "kb/s"@,
        "error"@,
        "failed"@,
    ]
}

/// A text in lower case without the words of croc's own lines.
pub open spec fn is_no_croc_line(lower: Seq<char>) -> bool {
    forall|i: int| 0 <= i < 12 ==> !text::contains(lower, #[trigger] croc_words()[i])
}

/// A line is taken for an expected text exactly where it is neither empty nor longer
/// than 2000 bytes, is none of croc's own, and names no rate and no file.
pub proof fn law_only_croc_lines_are_no_texts(c: Seq<char>, lower: Seq<char>)
    ensures
        is_payload(c, lower) <==> 0 < c.len() && text::bytes(c) <= 2000 && is_no_croc_line(lower)
            && !text::contains(lower, "b/s"@) && !text::contains(lower, "file"@),
        is_status(lower) <==> !is_no_croc_line(lower),
{
    let w = croc_words();
    assert(w[0] == "connecting"@ && w[1] == "securing"@ && w[2] == "receiving"@ && w[3]
        == "sending"@ && w[4] == "code is"@ && w[5] == "croc_secret"@ && w[6] == "download"@
        && w[7] == "upload"@ && w[8] == "mb/s"@ && w[9] == "kb/s"@ && w[10] == "error"@ && w[11]
        == "failed"@);
    if !is_status(lower) {
        assert forall|i: int| 0 <= i < 12 implies !text::contains(lower, #[trigger] w[i]) by {}
    }
}

/// The words behind which a text stands on the same line.
pub open spec fn announcements() -> Seq<Seq<char>> {
    seq![
        "received text:"@,
        "text received:"@,
        "received text "@,
        "message:"@,
        "received message:"@,
        "received:"@,
        "text message:"@,
        "text payload:"@,
    ]
}

proof fn lemma_markers_skipped(t: Seq<char>, lower: Seq<char>, j: int, k: int)
    requires
        0 <= j <= k <= 8,
        forall|i: int| j <= i < k ==> !text::contains(lower, #[trigger] text_markers()[i]),
    ensures
        marked_text(t, lower, j) == marked_text(t, lower, k),
    decreases k - j,
{
    if j < k {
        text::lemma_contains_find(lower, text_markers()[j]);
        lemma_markers_skipped(t, lower, j + 1, k);
    }
}

/// A text stands behind the words that announce it: all of it, without the white
/// space around it.
pub proof fn law_announced_text_is_taken_whole(
    pre: Seq<char>,
    mark: Seq<char>,
    rest: Seq<char>,
    lower: Seq<char>,
    k: int,
)
    requires
        0 <= k < 8,
        is_marked(lower, pre, announcements()[k]),
        text::is_ascii_text(mark),
        mark.len() == announcements()[k].len(),
        forall|i: int| 0 <= i < k ==> !text::contains(lower, #[trigger] announcements()[i]),
        text::trim(rest).len() > 0,
    ensures
        received_text(pre + mark + rest, lower) == Some(text::trim(rest)),
{
    let w = announcements()[k];
    let head = pre + mark;
    let i = pre.len() as int;
    assert(announcements() =~= text_markers());
    lemma_markers_skipped(head + rest, lower, 0, k);
    text::lemma_find_at(lower, w, i);
    text::lemma_ascii_bytes(lower.take(i));
    text::lemma_ascii_bytes(head);
    assert(text::is_ascii_text(w)) by {
        reveal_strlit("received text:");
        reveal_strlit("text received:");
        reveal_strlit("received text ");
        reveal_strlit("message:");
        reveal_strlit("received message:");
        reveal_strlit("received:");
        reveal_strlit("text message:");
        reveal_strlit("text payload:");
        let all = announcements();
        assert(text::is_ascii_text(all[0]) && text::is_ascii_text(all[1]) && text::is_ascii_text(
            all[2],
        ) && text::is_ascii_text(all[3]) && text::is_ascii_text(all[4]) && text::is_ascii_text(
            all[5],
        ) && text::is_ascii_text(all[6]) && text::is_ascii_text(all[7]));
    }
    text::lemma_ascii_bytes(w);
    text::law_bytes_lead_to_the_rest(head, rest);
}

proof fn lemma_char_not_in(lower: Seq<char>, p: Seq<char>, i: int, c: char)
    requires
        0 <= i < p.len(),
        p[i] == c,
        !lower.contains(c),
    ensures
        !text::contains(lower, p),
{
    if text::contains(lower, p) {
        let k = choose|k: int| text::stands_at(lower, p, k);
        assert(lower.subrange(k, k + p.len())[i] == c);
        assert(lower[k + i] == c);
    }
}

/// A line that names no text: it has no colon, is not behind the words for one, and
/// does not stand in quotes.
pub proof fn law_plain_lines_carry_no_text(t: Seq<char>, lower: Seq<char>)
    requires
        !lower.contains(':'),
        !text::contains(lower, "received text "@),
        t.len() > 0 ==> t[0] != '"',
    ensures
        received_text(t, lower) is None,
{
    reveal_strlit("received text:");
    reveal_strlit("text received:");
    reveal_strlit("message:");
    reveal_strlit("received message:");
    reveal_strlit("received:");
    reveal_strlit("text message:");
    reveal_strlit("text payload:");
    reveal_strlit("text:");
    lemma_char_not_in(lower, "received text:"@, 13, ':');
    lemma_char_not_in(lower, "text received:"@, 13, ':');
    lemma_char_not_in(lower, "message:"@, 7, ':');
    lemma_char_not_in(lower, "received message:"@, 16, ':');
    lemma_char_not_in(lower, "received:"@, 8, ':');
    lemma_char_not_in(lower, "text message:"@, 12, ':');
    lemma_char_not_in(lower, "text payload:"@, 12, ':');
    let w = text_markers();
    assert(w[0] == "received text:"@ && w[1] == "text received:"@ && w[2] == "received text "@
        && w[3] == "message:"@ && w[4] == "received message:"@ && w[5] == "received:"@ && w[6]
        == "text message:"@ && w[7] == "text payload:"@);
    assert forall|i: int| 0 <= i < 8 implies !text::contains(lower, #[trigger] w[i]) by {}
    lemma_markers_skipped(t, lower, 0, 8);
    if "text:"@.is_prefix_of(lower) {
        assert(lower[4] == "text:"@[4]);
    }
}

/// A line in quotes is a text: all that stands between them.
pub proof fn law_quoted_lines_are_texts(t: Seq<char>, lower: Seq<char>)
    requires
        !lower.contains(':'),
        !text::contains(lower, "received text "@),
        t.len() > 0,
        !text::is_space(t[0]),
        !text::is_space(t.last()),
        text::bytes(t) < 2000,
    ensures
        received_text(seq!['"'] + t + seq!['"'], lower) == Some(t),
{
    let q = seq!['"'] + t + seq!['"'];
    reveal_strlit("received text:");
    reveal_strlit("text received:");
    reveal_strlit("message:");
    reveal_strlit("received message:");
    reveal_strlit("received:");
    reveal_strlit("text message:");
    reveal_strlit("text payload:");
    reveal_strlit("text:");
    lemma_char_not_in(lower, "received text:"@, 13, ':');
    lemma_char_not_in(lower, "text received:"@, 13, ':');
    lemma_char_not_in(lower, "message:"@, 7, ':');
    lemma_char_not_in(lower, "received message:"@, 16, ':');
    lemma_char_not_in(lower, "received:"@, 8, ':');
    lemma_char_not_in(lower, "text message:"@, 12, ':');
    lemma_char_not_in(lower, "text payload:"@, 12, ':');
    let w = text_markers();
    assert(w[0] == "received text:"@ && w[1] == "text received:"@ && w[2] == "received text "@
        && w[3] == "message:"@ && w[4] == "received message:"@ && w[5] == "received:"@ && w[6]
        == "text message:"@ && w[7] == "text payload:"@);
    assert forall|i: int| 0 <= i < 8 implies !text::contains(lower, #[trigger] w[i]) by {}
    lemma_markers_skipped(q, lower, 0, 8);
    if "text:"@.is_prefix_of(lower) {
        assert(lower[4] == "text:"@[4]);
    }
    assert(q.subrange(1, q.len() - 1) =~= t);
    text::lemma_trim_keeps(t);
}

// ── Lines from croc ──

/// What a line from croc is worth.
pub enum CrocLineModel {
    Nothing,
    /// croc asks whether to overwrite something.
    Conflict,
    Line { code: Option<Seq<char>>, text: Seq<char> },
}

/// What a line from croc is worth.
pub enum CrocLine {
    Nothing,
    /// croc asks whether to overwrite something: the transfer is to be cancelled.
    Conflict,
    Line { code: Option<String>, text: String },
}

impl View for CrocLine {
    type V = CrocLineModel;

    open spec fn view(&self) -> CrocLineModel {
        match *self {
            CrocLine::Nothing => CrocLineModel::Nothing,
            CrocLine::Conflict => CrocLineModel::Conflict,
            CrocLine::Line { code, text } => CrocLineModel::Line {
                code: sendme::string_view(code),
                text: text@,
            },
        }
    }
}

/// What a cleaned and trimmed line is worth; `lower` is it in lower case.
pub open spec fn croc_line(t: Seq<char>, lower: Seq<char>) -> CrocLineModel {
    if t.len() == 0 {
        CrocLineModel::Nothing
    } else if text::contains(lower, "overwrite"@) {
        CrocLineModel::Conflict
    } else {
        CrocLineModel::Line { code: code_in(t, lower), text: t }
    }
}

/// Tells what a cleaned and trimmed line is worth, with it in lower case given too.
pub fn parse_croc_output_in(t: &[char], lower: &[char]) -> (r: CrocLine)
    ensures
        r@ == croc_line(t@, lower@),
{
    if t.len() == 0 {
        return CrocLine::Nothing;
    }
    if text::contains_str(lower, "overwrite") {
        return CrocLine::Conflict;
    }
    CrocLine::Line { code: extract_croc_code_in(t, lower), text: text::string_of(t) }
}

/// Tells what a line from croc is worth.
pub fn parse_croc_output(line: &str) -> (r: CrocLine)
    ensures
        r@ == croc_line(
            text::trim(plain(line@)),
            text::lowercase(text::trim(plain(line@))),
        ),
{
    let cleaned = strip_ansi(line);
    let chars = text::chars_of(cleaned.as_str());
    let t = text::trim_chars(chars.as_slice());
    let lower = text::lower_chars(t);
    parse_croc_output_in(t, lower.as_slice())
}

} // verus!
