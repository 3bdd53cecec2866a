//! Files that are dropped on the window, or pasted into it, as text.

use crate::messages;
use crate::paths;
use crate::reader;
use crate::sendme;
use crate::text;
use crate::transfer::owned;
use vstd::prelude::*;
use vstd::slice::slice_subrange;

verus! {

// ── Percent signs ──

pub open spec fn hex_value(b: u8) -> Option<u8> {
    if 48 <= b <= 57 {
        Some((b - 48) as u8)
    } else if 97 <= b <= 102 {
        Some((b - 87) as u8)
    } else if 65 <= b <= 70 {
        Some((b - 55) as u8)
    } else {
        None
    }
}

/// Bytes with each percent sign and the two hexadecimal digits behind it replaced
/// by the byte that they stand for. Other percent signs are kept.
pub open spec fn percent_decoded(b: Seq<u8>) -> Seq<u8>
    decreases b.len(),
{
    if b.len() == 0 {
        b
    } else if b[0] == 37 && b.len() >= 3 && hex_value(b[1]) is Some && hex_value(b[2]) is Some {
        seq![(16 * hex_value(b[1])->0 + hex_value(b[2])->0) as u8] + percent_decoded(b.skip(3))
    } else {
        seq![b[0]] + percent_decoded(b.skip(1))
    }
}

/// A text without percent signs stands for itself.
pub proof fn law_plain_text_is_kept(b: Seq<u8>)
    requires
        forall|i: int| 0 <= i < b.len() ==> #[trigger] b[i] != 37,
    ensures
        percent_decoded(b) == b,
    decreases b.len(),
{
    if b.len() > 0 {
        assert forall|i: int| 0 <= i < b.skip(1).len() implies #[trigger] b.skip(1)[i] != 37 by {
            assert(b.skip(1)[i] == b[i + 1]);
        }
        law_plain_text_is_kept(b.skip(1));
        assert(seq![b[0]] + b.skip(1) =~= b);
    }
}

fn hex(b: u8) -> (r: Option<u8>)
    ensures
        r == hex_value(b),
        r matches Some(v) ==> v < 16,
{
    if 48 <= b && b <= 57 {
        Some(b - 48)
    } else if 97 <= b && b <= 102 {
        Some(b - 87)
    } else if 65 <= b && b <= 70 {
        Some(b - 55)
    } else {
        None
    }
}

/// The bytes that an encoded text stands for.
pub fn percent_decoded_bytes(bytes: &[u8]) -> (r: Vec<u8>)
    ensures
        r@ == percent_decoded(bytes@),
{
    let mut out: Vec<u8> = Vec::new();
    let mut i: usize = 0;
    assert(bytes@.skip(0) =~= bytes@);
    assert(out@ + percent_decoded(bytes@) =~= percent_decoded(bytes@));
    while i < bytes.len()
        invariant
            i <= bytes.len(),
            percent_decoded(bytes@) == out@ + percent_decoded(bytes@.skip(i as int)),
        decreases bytes.len() - i,
    {
        let ghost rest = bytes@.skip(i as int);
        let ghost before = out@;
        assert(rest.skip(1) =~= bytes@.skip(i + 1));
        let mut step: usize = 1;
        let mut byte: u8 = bytes[i];
        if byte == 37 && bytes.len() - i >= 3 {
            assert(rest.skip(3) =~= bytes@.skip(i + 3));
            match (hex(bytes[i + 1]), hex(bytes[i + 2])) {
                (Some(a), Some(b)) => {
                    byte = 16 * a + b;
                    step = 3;
                },
                _ => {},
            }
        }
        out.push(byte);
        i += step;
        assert(before + (seq![byte] + percent_decoded(bytes@.skip(i as int))) =~= out@
            + percent_decoded(bytes@.skip(i as int)));
    }
    assert(bytes@.skip(i as int) =~= Seq::empty());
    assert(out@ + Seq::<u8>::empty() =~= out@);
    out
}

/// The text that an encoded text stands for.
pub open spec fn decoded_text(s: Seq<char>) -> Seq<char> {
    reader::lossy(percent_decoded(vstd::utf8::encode_utf8(s)))
}

/// The text that an encoded text stands for.
pub fn percent_decode_uri_component(input: &str) -> (r: String)
    ensures
        r@ == decoded_text(input@),
{
    let bytes = percent_decoded_bytes(input.as_bytes());
    reader::from_utf8_lossy(bytes.as_slice())
}

// ── File addresses ──

/// What stands before the first `mark`, or everything.
pub open spec fn before(s: Seq<char>, mark: Seq<char>) -> Seq<char> {
    match text::split_once(s, mark) {
        Some((a, _)) => a,
        None => s,
    }
}

/// What stands behind a beginning.
pub open spec fn after_prefix(s: Seq<char>, p: Seq<char>) -> Option<Seq<char>> {
    if p.is_prefix_of(s) {
        Some(s.skip(p.len() as int))
    } else {
        None
    }
}

/// The path in a file address, still encoded. On Windows it is everything behind
/// `file://`; elsewhere it begins behind the host.
pub open spec fn encoded_path(uri: Seq<char>, windows: bool) -> Option<Seq<char>> {
    match after_prefix(uri, "file://"@) {
        None => None,
        Some(rest) => {
            let body = before(before(rest, "#"@), "?"@);
            if body.len() == 0 {
                None
            } else if windows || "/"@.is_prefix_of(body) {
                Some(body)
            } else {
                match text::split_once(body, "/"@) {
                    Some((_, path)) => Some("/"@ + path),
                    None => None,
                }
            }
        },
    }
}

/// The path that is meant, once it is decoded. On Windows the local host and the
/// slashes before the drive do not belong to it.
pub open spec fn finished_path(decoded: Seq<char>, windows: bool) -> Option<Seq<char>> {
    let path = if windows {
        text::trim_start_of(
            match after_prefix(decoded, "localhost/"@) {
                Some(rest) => rest,
                None => decoded,
            },
            seq!['/'],
        )
    } else {
        decoded
    };
    if path.len() == 0 {
        None
    } else {
        Some(path)
    }
}

pub open spec fn uri_path(uri: Seq<char>, windows: bool) -> Option<Seq<char>> {
    match encoded_path(uri, windows) {
        Some(p) => finished_path(decoded_text(p), windows),
        None => None,
    }
}

fn behind<'a>(s: &'a [char], p: &str) -> (r: Option<&'a [char]>)
    ensures
        match r {
            Some(rest) => after_prefix(s@, p@) == Some(rest@),
            None => after_prefix(s@, p@) is None,
        },
{
    if text::starts_with(s, p) {
        let n = text::chars_of(p).len();
        let rest = slice_subrange(s, n, s.len());
        assert(rest@ =~= s@.skip(n as int));
        Some(rest)
    } else {
        None
    }
}

fn up_to<'a>(s: &'a [char], mark: &str) -> (r: &'a [char])
    ensures
        r@ == before(s@, mark@),
{
    match text::split_once_at(s, mark) {
        Some((a, _)) => a,
        None => s,
    }
}

/// The path in a file address, still encoded.
pub fn encoded_file_path(uri: &str, windows: bool) -> (r: Option<String>)
    ensures
        sendme::string_view(r) == encoded_path(uri@, windows),
{
    let chars = text::chars_of(uri);
    match behind(chars.as_slice(), "file://") {
        None => None,
        Some(rest) => {
            let body = up_to(up_to(rest, "#"), "?");
            if body.len() == 0 {
                None
            } else if windows || text::starts_with(body, "/") {
                Some(text::string_of(body))
            } else {
                match text::split_once_at(body, "/") {
                    Some((_, path)) => {
                        let mut out = text::chars_of("/");
                        text::push_slice(&mut out, path);
                        Some(text::string_of(out.as_slice()))
                    },
                    None => None,
                }
            }
        },
    }
}

fn without_slashes(s: &[char]) -> (r: &[char])
    ensures
        r@ == text::trim_start_of(s@, seq!['/']),
{
    let mut i: usize = 0;
    assert(s@.skip(0) =~= s@);
    while i < s.len() && s[i] == '/'
        invariant
            i <= s.len(),
            text::trim_start_of(s@, seq!['/']) == text::trim_start_of(
                s@.skip(i as int),
                seq!['/'],
            ),
        decreases s.len() - i,
    {
        assert(seq!['/'].contains('/')) by {
            assert(seq!['/'][0] == '/');
        }
        assert(s@.skip(i as int).skip(1) =~= s@.skip(i + 1));
        i += 1;
    }
    let rest = slice_subrange(s, i, s.len());
    assert(rest@ =~= s@.skip(i as int));
    rest
}

/// The path that is meant, once it is decoded.
pub fn decoded_file_path(decoded: &str, windows: bool) -> (r: Option<String>)
    ensures
        sendme::string_view(r) == finished_path(decoded@, windows),
{
    let chars = text::chars_of(decoded);
    let path = if windows {
        match behind(chars.as_slice(), "localhost/") {
            Some(rest) => without_slashes(rest),
            None => without_slashes(chars.as_slice()),
        }
    } else {
        chars.as_slice()
    };
    if path.len() == 0 {
        None
    } else {
        Some(text::string_of(path))
    }
}

/// The path that a file address means.
pub fn path_from_file_uri(uri: &str, windows: bool) -> (r: Option<String>)
    ensures
        sendme::string_view(r) == uri_path(uri@, windows),
{
    match encoded_file_path(uri, windows) {
        Some(p) => {
            let decoded = percent_decode_uri_component(p.as_str());
            decoded_file_path(decoded.as_str(), windows)
        },
        None => None,
    }
}

// ── Payloads ──

/// `Path::is_absolute`: whether a path begins at a root, by the rules of the
/// system that the program runs on, of which nothing is claimed.
#[verifier::external_body]
fn is_absolute_path(path: &str) -> (r: bool)
{
    std::path::Path::new(path).is_absolute()
}

/// A word by which a file manager says what the paths behind it are for.
pub open spec fn is_verb(s: Seq<char>) -> bool {
    text::same_ignoring_case(s, "copy"@) || text::same_ignoring_case(s, "cut"@)
}

fn verb(s: &[char]) -> (r: bool)
    ensures
        r == is_verb(s@),
{
    text::is_ignoring_case(s, "copy") || text::is_ignoring_case(s, "cut")
}

/// A line of a payload without what surrounds it.
pub open spec fn bare(line: Seq<char>) -> Seq<char> {
    text::trim_of(text::trim(line), seq!['"'])
}

/// Whether each path is absolute, as far as that can be said without asking the
/// system.
pub open spec fn are_answers(absolute: Seq<bool>, lines: Seq<Seq<char>>, windows: bool) -> bool {
    &&& absolute.len() == lines.len()
    &&& forall|i: int|
        0 <= i < lines.len() ==> match paths::root_answer(lines[i], windows) {
            Some(known) => #[trigger] absolute[i] == known,
            None => true,
        }
}

/// Whether each path is absolute on a system other than Windows: whether it begins
/// with a slash.
pub open spec fn rooted(lines: Seq<Seq<char>>) -> Seq<bool> {
    lines.map_values(|p: Seq<char>| p.len() > 0 && p[0] == '/')
}

pub open spec fn bare_lines(s: Seq<char>) -> Seq<Seq<char>> {
    text::lines(text::trim(s)).map_values(|l: Seq<char>| bare(l))
}

/// A line that is a verb or an absolute path.
pub open spec fn names_files(lines: Seq<Seq<char>>, absolute: Seq<bool>, i: int) -> bool {
    is_verb(lines[i]) || (i < absolute.len() && absolute[i])
}

/// A text that names files: by a file address, or on several lines of which one is
/// a verb or an absolute path.
pub open spec fn looks_like_drop(s: Seq<char>, absolute: Seq<bool>) -> bool {
    let t = text::trim(s);
    ||| text::contains(t, "file://"@)
    ||| (text::contains(t, "\n"@) || text::contains(t, "\r"@)) && exists|i: int|
        0 <= i < bare_lines(s).len() && #[trigger] names_files(bare_lines(s), absolute, i)
}

fn bare_line(line: &[char]) -> (r: &[char])
    ensures
        r@ == bare(line@),
{
    let quotes: [char; 1] = ['"'];
    assert(quotes@ =~= seq!['"']);
    text::trim_chars_of(text::trim_chars(line), &quotes)
}

fn bare_strings(s: &str) -> (r: Vec<String>)
    ensures
        messages::lines_view(r@) == bare_lines(s@),
{
    let chars = text::chars_of(s);
    let lines = text::split_lines(text::trim_chars(chars.as_slice()));
    let ghost all = bare_lines(s@);
    let mut out: Vec<String> = Vec::new();
    let mut i: usize = 0;
    assert(messages::lines_view(out@) =~= all.take(0));
    while i < lines.len()
        invariant
            i <= lines.len(),
            lines@.len() == all.len(),
            all == bare_lines(s@),
            forall|j: int|
                0 <= j < lines@.len() ==> (#[trigger] lines@[j])@ == text::lines(
                    text::trim(s@),
                )[j],
            messages::lines_view(out@) == all.take(i as int),
        decreases lines.len() - i,
    {
        assert(lines@[i as int]@ == text::lines(text::trim(s@))[i as int]);
        let line = text::string_of(bare_line(lines[i]));
        assert(line@ == all[i as int]);
        let ghost had = out@;
        let ghost model = line@;
        out.push(line);
        assert(messages::lines_view(out@) =~= messages::lines_view(had).push(model));
        assert(all.take(i + 1) =~= all.take(i as int).push(all[i as int]));
        i += 1;
    }
    assert(all.take(i as int) =~= all);
    out
}

/// Whether a text names files, given which of its lines are absolute paths.
pub fn looks_like_file_drop_payload_in(s: &str, absolute: &Vec<bool>) -> (r: bool)
    ensures
        r == looks_like_drop(s@, absolute@),
{
    let chars = text::chars_of(s);
    let t = text::trim_chars(chars.as_slice());
    if text::contains_str(t, "file://") {
        return true;
    }
    if !text::contains_str(t, "\n") && !text::contains_str(t, "\r") {
        return false;
    }
    let lines = bare_strings(s);
    let ghost all = bare_lines(s@);
    let mut i: usize = 0;
    while i < lines.len()
        invariant
            i <= lines.len(),
            all == bare_lines(s@),
            all == messages::lines_view(lines@),
            !text::contains(text::trim(s@), "file://"@),
            text::contains(text::trim(s@), "\n"@) || text::contains(text::trim(s@), "\r"@),
            forall|j: int| 0 <= j < i ==> !#[trigger] names_files(all, absolute@, j),
        decreases lines.len() - i,
    {
        assert(all[i as int] == lines@[i as int]@);
        let line = text::chars_of(lines[i].as_str());
        let named: bool = i < absolute.len() && absolute[i];
        if verb(line.as_slice()) || named {
            assert(names_files(all, absolute@, i as int));
            return true;
        }
        i += 1;
    }
    false
}

/// Which paths are absolute. The system is asked only where that cannot be said
/// without it.
fn absolute_paths(lines: &Vec<String>, windows: bool) -> (r: Vec<bool>)
    ensures
        are_answers(r@, messages::lines_view(lines@), windows),
{
    let ghost all = messages::lines_view(lines@);
    let mut out: Vec<bool> = Vec::new();
    let mut i: usize = 0;
    while i < lines.len()
        invariant
            i <= lines.len(),
            all == messages::lines_view(lines@),
            out@.len() == i,
            forall|j: int|
                0 <= j < i ==> match paths::root_answer(all[j], windows) {
                    Some(known) => #[trigger] out@[j] == known,
                    None => true,
                },
        decreases lines.len() - i,
    {
        assert(all[i as int] == lines@[i as int]@);
        let path = text::chars_of(lines[i].as_str());
        out.push(
            match paths::has_root(path.as_slice(), windows) {
                Some(known) => known,
                None => is_absolute_path(lines[i].as_str()),
            },
        );
        i += 1;
    }
    out
}

proof fn lemma_rooted(absolute: Seq<bool>, lines: Seq<Seq<char>>)
    requires
        are_answers(absolute, lines, false),
    ensures
        absolute == rooted(lines),
{
    assert forall|i: int| 0 <= i < lines.len() implies #[trigger] absolute[i] == rooted(
        lines,
    )[i] by {
        assert(paths::root_answer(lines[i], false) is Some);
    }
    assert(absolute =~= rooted(lines));
}

/// Whether a text names files. Of some paths it is on Windows for the system to say
/// whether they are absolute.
pub fn looks_like_file_drop_payload(s: &str, windows: bool) -> (r: bool)
    ensures
        !windows ==> r == looks_like_drop(s@, rooted(bare_lines(s@))),
        exists|absolute: Seq<bool>|
            are_answers(absolute, bare_lines(s@), windows) && r == #[trigger] looks_like_drop(
                s@,
                absolute,
            ),
{
    let lines = bare_strings(s);
    let absolute = absolute_paths(&lines, windows);
    proof {
        if !windows {
            lemma_rooted(absolute@, bare_lines(s@));
        }
    }
    looks_like_file_drop_payload_in(s, &absolute)
}

/// A path that was named.
pub struct CandidateModel {
    pub path: Seq<char>,
    /// It stood in a file address; else it counts only if it is absolute.
    pub from_uri: bool,
}

pub struct Candidate {
    pub path: String,
    pub from_uri: bool,
}

impl View for Candidate {
    type V = CandidateModel;

    open spec fn view(&self) -> CandidateModel {
        CandidateModel { path: self.path@, from_uri: self.from_uri }
    }
}

pub open spec fn candidates_view(v: Seq<Candidate>) -> Seq<CandidateModel> {
    v.map_values(|c: Candidate| c@)
}

/// The path that a line names: a comment and a verb name none.
pub open spec fn line_candidate(raw: Seq<char>, windows: bool) -> Option<CandidateModel> {
    let line = text::trim(text::trim_of(text::trim(raw), seq!['\0']));
    if line.len() == 0 || "#"@.is_prefix_of(line) || is_verb(line) {
        None
    } else if "file://"@.is_prefix_of(line) {
        match uri_path(line, windows) {
            Some(path) => Some(CandidateModel { path, from_uri: true }),
            None => None,
        }
    } else {
        Some(CandidateModel { path: text::trim_of(line, seq!['"']), from_uri: false })
    }
}

/// The paths that the first `n` lines name.
pub open spec fn named_in(lines: Seq<Seq<char>>, windows: bool, n: nat) -> Seq<CandidateModel>
    decreases n,
{
    if n == 0 || n > lines.len() {
        Seq::empty()
    } else {
        let named = named_in(lines, windows, (n - 1) as nat);
        match line_candidate(lines[n - 1], windows) {
            Some(c) => named.push(c),
            None => named,
        }
    }
}

pub open spec fn named(s: Seq<char>, windows: bool) -> Seq<CandidateModel> {
    named_in(text::lines(s), windows, text::lines(s).len())
}

fn candidate(raw: &[char], windows: bool) -> (r: Option<Candidate>)
    ensures
        match r {
            Some(c) => line_candidate(raw@, windows) == Some(c@),
            None => line_candidate(raw@, windows) is None,
        },
{
    let nul: [char; 1] = ['\0'];
    assert(nul@ =~= seq!['\0']);
    let line = text::trim_chars(text::trim_chars_of(text::trim_chars(raw), &nul));
    if line.len() == 0 || text::starts_with(line, "#") || verb(line) {
        return None;
    }
    if text::starts_with(line, "file://") {
        let uri = text::string_of(line);
        match path_from_file_uri(uri.as_str(), windows) {
            Some(path) => Some(Candidate { path, from_uri: true }),
            None => None,
        }
    } else {
        let quotes: [char; 1] = ['"'];
        assert(quotes@ =~= seq!['"']);
        Some(
            Candidate {
                path: text::string_of(text::trim_chars_of(line, &quotes)),
                from_uri: false,
            },
        )
    }
}

/// The paths that a payload names.
pub fn drop_candidates(s: &str, windows: bool) -> (r: Vec<Candidate>)
    ensures
        candidates_view(r@) == named(s@, windows),
{
    let chars = text::chars_of(s);
    let lines = text::split_lines(chars.as_slice());
    let ghost all = text::lines(s@);
    let mut out: Vec<Candidate> = Vec::new();
    let mut i: usize = 0;
    assert(candidates_view(out@) =~= Seq::empty());
    while i < lines.len()
        invariant
            i <= lines.len(),
            lines@.len() == all.len(),
            forall|j: int| 0 <= j < lines@.len() ==> (#[trigger] lines@[j])@ == all[j],
            candidates_view(out@) == named_in(all, windows, i as nat),
        decreases lines.len() - i,
    {
        assert(lines@[i as int]@ == all[i as int]);
        let ghost had = out@;
        match candidate(lines[i], windows) {
            Some(c) => {
                let ghost model = c@;
                out.push(c);
                assert(candidates_view(out@) =~= candidates_view(had).push(model));
            },
            None => {},
        }
        i += 1;
    }
    out
}

/// What a line names, as a list.
pub open spec fn named_by(line: Seq<char>, windows: bool) -> Seq<CandidateModel> {
    match line_candidate(line, windows) {
        Some(c) => seq![c],
        None => Seq::empty(),
    }
}

proof fn lemma_first_line(first: Seq<char>, rest: Seq<Seq<char>>, windows: bool, n: nat)
    requires
        n <= rest.len(),
    ensures
        named_in(seq![first] + rest, windows, n + 1) == named_by(first, windows) + named_in(
            rest,
            windows,
            n,
        ),
    decreases n,
{
    let all = seq![first] + rest;
    assert(all[n as int] == if n == 0 {
        first
    } else {
        rest[n - 1]
    });
    if n > 0 {
        lemma_first_line(first, rest, windows, (n - 1) as nat);
        match line_candidate(rest[n - 1], windows) {
            Some(c) => {
                let before = named_by(first, windows);
                let named = named_in(rest, windows, (n - 1) as nat);
                assert((before + named).push(c) =~= before + named.push(c));
            },
            None => {},
        }
    } else {
        assert(named_in(all, windows, 0) =~= Seq::empty());
        assert(named_by(first, windows) + named_in(rest, windows, 0) =~= named_by(first, windows));
        match line_candidate(first, windows) {
            Some(c) => {
                assert(Seq::<CandidateModel>::empty().push(c) =~= seq![c]);
            },
            None => {},
        }
    }
}

proof fn lemma_line_len(s: Seq<char>)
    ensures
        text::line_len(s) <= s.len(),
    decreases s.len(),
{
    if s.len() > 0 && s[0] != '\n' {
        lemma_line_len(s.skip(1));
    }
}

/// What a text names is what its first line names, and then what the rest does.
proof fn lemma_named(s: Seq<char>, windows: bool)
    requires
        s.len() > 0,
    ensures
        ({
            let n = text::line_len(s) as int;
            named(s, windows) == if n >= s.len() {
                named_by(s, windows)
            } else {
                named_by(text::without_return(s.take(n)), windows) + named(s.skip(n + 1), windows)
            }
        }),
{
    let n = text::line_len(s) as int;
    if n >= s.len() {
        let none: Seq<Seq<char>> = Seq::empty();
        lemma_first_line(s, none, windows, 0);
        assert(seq![s] + none =~= seq![s]);
        assert(named_by(s, windows) + named_in(none, windows, 0) =~= named_by(s, windows));
    } else {
        let rest = text::lines(s.skip(n + 1));
        lemma_first_line(text::without_return(s.take(n)), rest, windows, rest.len());
    }
}

proof fn lemma_same_when_trimmed(a: Seq<char>, b: Seq<char>, windows: bool)
    requires
        text::trim(a) == text::trim(b),
    ensures
        named_by(a, windows) == named_by(b, windows),
{
}

proof fn lemma_return_is_lost(s: Seq<char>)
    ensures
        text::trim(text::without_return(s)) == text::trim(s),
{
    if s.len() > 0 && s.last() == '\r' {
        text::lemma_trim_drops_last(s);
    }
}

proof fn lemma_blank_names_nothing(s: Seq<char>, windows: bool)
    requires
        text::trim(s).len() == 0,
    ensures
        named_by(s, windows) == Seq::<CandidateModel>::empty(),
{
}

/// White space before a text does not change what it names.
proof fn lemma_space_before(s: Seq<char>, windows: bool)
    requires
        s.len() > 0,
        text::is_space(s[0]),
    ensures
        named(s, windows) == named(s.skip(1), windows),
{
    let t = s.skip(1);
    let n = text::line_len(t) as int;
    lemma_named(s, windows);
    lemma_line_len(t);
    if s[0] == '\n' {
        assert(s.take(0) =~= Seq::empty());
        lemma_blank_names_nothing(s.take(0), windows);
        assert(named_by(s.take(0), windows) + named(t, windows) =~= named(t, windows));
    } else if t.len() == 0 {
        assert(text::trim_start(t) == t);
        lemma_blank_names_nothing(s, windows);
        assert(named(t, windows) =~= Seq::empty());
    } else {
        lemma_named(t, windows);
        if n >= t.len() {
            lemma_same_when_trimmed(s, t, windows);
        } else {
            let head = s.take(n + 1);
            assert(head.skip(1) =~= t.take(n));
            assert(text::trim(head) == text::trim(t.take(n)));
            lemma_return_is_lost(head);
            lemma_return_is_lost(t.take(n));
            lemma_same_when_trimmed(
                text::without_return(head),
                text::without_return(t.take(n)),
                windows,
            );
            assert(s.skip(n + 2) =~= t.skip(n + 1));
        }
    }
}

proof fn lemma_line_len_of_more(s: Seq<char>, c: char)
    ensures
        text::line_len(s) < s.len() ==> text::line_len(s.push(c)) == text::line_len(s),
        text::line_len(s) >= s.len() ==> text::line_len(s.push(c)) == s.len() + (if c == '\n' {
            0int
        } else {
            1
        }),
    decreases s.len(),
{
    if s.len() > 0 {
        assert(s.push(c).skip(1) =~= s.skip(1).push(c));
        if s[0] != '\n' {
            lemma_line_len_of_more(s.skip(1), c);
        }
    } else {
        assert(s.push(c).skip(1) =~= s);
    }
}

/// White space behind a text does not change what it names.
proof fn lemma_space_behind(s: Seq<char>, c: char, windows: bool)
    requires
        text::is_space(c),
    ensures
        named(s.push(c), windows) == named(s, windows),
    decreases s.len(),
{
    let more = s.push(c);
    let n = text::line_len(s) as int;
    lemma_named(more, windows);
    lemma_line_len(s);
    lemma_line_len_of_more(s, c);
    assert(more.drop_last() =~= s);
    text::lemma_trim_drops_last(more);
    if n < s.len() {
        lemma_named(s, windows);
        assert(more.take(n) =~= s.take(n));
        assert(more.skip(n + 1) =~= s.skip(n + 1).push(c));
        lemma_space_behind(s.skip(n + 1), c, windows);
    } else {
        let none = more.skip(more.len() as int);
        assert(none =~= Seq::empty());
        assert(named(none, windows) =~= Seq::empty());
        assert(more.take(n) =~= s);
        lemma_return_is_lost(s);
        lemma_same_when_trimmed(text::without_return(s), s, windows);
        lemma_same_when_trimmed(more, s, windows);
        assert(named_by(s, windows) + Seq::empty() =~= named_by(s, windows));
        if s.len() == 0 {
            assert(text::trim(s) =~= s);
            lemma_blank_names_nothing(s, windows);
            assert(named(s, windows) =~= Seq::empty());
        } else {
            lemma_named(s, windows);
        }
    }
}

proof fn lemma_trim_start_names(s: Seq<char>, windows: bool)
    ensures
        named(text::trim_start(s), windows) == named(s, windows),
    decreases s.len(),
{
    if s.len() > 0 && text::is_space(s[0]) {
        lemma_space_before(s, windows);
        lemma_trim_start_names(s.skip(1), windows);
    }
}

proof fn lemma_trim_end_names(s: Seq<char>, windows: bool)
    ensures
        named(text::trim_end(s), windows) == named(s, windows),
    decreases s.len(),
{
    if s.len() > 0 && text::is_space(s.last()) {
        assert(s.drop_last().push(s.last()) =~= s);
        lemma_space_behind(s.drop_last(), s.last(), windows);
        lemma_trim_end_names(s.drop_last(), windows);
    }
}

/// White space around a payload changes nothing: neither whether it names files,
/// nor which.
pub proof fn law_space_around_is_ignored(s: Seq<char>, absolute: Seq<bool>, windows: bool)
    ensures
        bare_lines(text::trim(s)) == bare_lines(s),
        looks_like_drop(text::trim(s), absolute) == looks_like_drop(s, absolute),
        named(text::trim(s), windows) == named(s, windows),
{
    text::law_trim_idempotent(s);
    lemma_trim_start_names(s, windows);
    lemma_trim_end_names(text::trim_start(s), windows);
}

/// The paths that count, given which of them are absolute.
pub open spec fn counted(c: Seq<CandidateModel>, absolute: Seq<bool>, n: nat) -> Seq<Seq<char>>
    decreases n,
{
    if n == 0 || n > c.len() {
        Seq::empty()
    } else {
        let kept = counted(c, absolute, (n - 1) as nat);
        if c[n - 1].from_uri || (n <= absolute.len() && absolute[n - 1]) {
            kept.push(c[n - 1].path)
        } else {
            kept
        }
    }
}

/// The paths that count, given which of them are absolute.
pub fn counted_paths(c: &Vec<Candidate>, absolute: &Vec<bool>) -> (r: Vec<String>)
    ensures
        messages::lines_view(r@) == counted(candidates_view(c@), absolute@, c@.len()),
{
    let ghost all = candidates_view(c@);
    let mut out: Vec<String> = Vec::new();
    let mut i: usize = 0;
    assert(messages::lines_view(out@) =~= Seq::empty());
    while i < c.len()
        invariant
            i <= c.len(),
            all == candidates_view(c@),
            messages::lines_view(out@) == counted(all, absolute@, i as nat),
        decreases c.len() - i,
    {
        assert(all[i as int] == c@[i as int]@);
        if c[i].from_uri || (i < absolute.len() && absolute[i]) {
            let ghost had = out@;
            let path = owned(c[i].path.as_str());
            let ghost model = path@;
            out.push(path);
            assert(messages::lines_view(out@) =~= messages::lines_view(had).push(model));
        }
        i += 1;
    }
    out
}

pub open spec fn candidate_paths(c: Seq<CandidateModel>) -> Seq<Seq<char>> {
    c.map_values(|c: CandidateModel| c.path)
}

/// The paths that a payload names, whether they exist or not. Of some it is on
/// Windows for the system to say whether they are absolute.
pub fn parse_file_drop_payload(s: &str, windows: bool) -> (r: Vec<String>)
    ensures
        !windows ==> messages::lines_view(r@) == counted(
            named(s@, windows),
            rooted(candidate_paths(named(s@, windows))),
            named(s@, windows).len(),
        ),
        exists|absolute: Seq<bool>|
            are_answers(absolute, candidate_paths(named(s@, windows)), windows) && messages::lines_view(r@)
                == #[trigger] counted(
                named(s@, windows),
                absolute,
                named(s@, windows).len(),
            ),
{
    let c = drop_candidates(s, windows);
    let ghost all = candidate_paths(named(s@, windows));
    let mut found: Vec<String> = Vec::new();
    let mut i: usize = 0;
    assert(messages::lines_view(found@) =~= all.take(0));
    while i < c.len()
        invariant
            i <= c.len(),
            candidates_view(c@) == named(s@, windows),
            all == candidate_paths(named(s@, windows)),
            messages::lines_view(found@) == all.take(i as int),
        decreases c.len() - i,
    {
        assert(candidates_view(c@)[i as int] == c@[i as int]@);
        let path = owned(c[i].path.as_str());
        assert(path@ == all[i as int]);
        let ghost had = found@;
        let ghost model = path@;
        found.push(path);
        assert(messages::lines_view(found@) =~= messages::lines_view(had).push(model));
        assert(all.take(i + 1) =~= all.take(i as int).push(all[i as int]));
        i += 1;
    }
    assert(all.take(i as int) =~= all);
    let absolute = absolute_paths(&found, windows);
    proof {
        if !windows {
            lemma_rooted(absolute@, all);
        }
    }
    assert(c@.len() == candidates_view(c@).len());
    counted_paths(&c, &absolute)
}

} // verus!
