//! Paths, as systems read them.

use crate::messages;
use crate::text;
use vstd::prelude::*;
use vstd::slice::slice_subrange;

verus! {

/// A character that parts a path: on Windows a backslash does, too.
pub open spec fn is_separator(c: char, windows: bool) -> bool {
    c == '/' || (windows && c == '\\')
}

fn separates(c: char, windows: bool) -> (r: bool)
    ensures
        r == is_separator(c, windows),
{
    c == '/' || (windows && c == '\\')
}

// ── Names ──

/// The last part of a path: what stands behind its last separator.
pub open spec fn last_part(p: Seq<char>, windows: bool) -> Seq<char>
    decreases p.len(),
{
    if p.len() == 0 || is_separator(p.last(), windows) {
        Seq::empty()
    } else {
        last_part(p.drop_last(), windows).push(p.last())
    }
}

/// The file name of a path, empty where there is none. Separators at the end and
/// parts that are a single dot do not count; there is none behind two dots.
pub open spec fn file_name(p: Seq<char>, windows: bool) -> Seq<char>
    decreases p.len(),
{
    if p.len() == 0 {
        p
    } else if is_separator(p.last(), windows) || last_part(p, windows) == seq!['.'] {
        file_name(p.drop_last(), windows)
    } else if last_part(p, windows) == seq!['.', '.'] {
        Seq::empty()
    } else {
        last_part(p, windows)
    }
}

/// A path that begins with two separators of Windows.
pub open spec fn begins_with_two(p: Seq<char>) -> bool {
    p.len() >= 2 && is_separator(p[0], true) && is_separator(p[1], true)
}

/// A path that may begin with something other than its parts: on Windows a drive, a
/// share or a device.
pub open spec fn may_have_prefix(p: Seq<char>, windows: bool) -> bool {
    windows && (begins_with_two(p) || (p.len() >= 2 && p[1] == ':'))
}

proof fn lemma_last_part(p: Seq<char>, windows: bool, start: int)
    requires
        0 <= start <= p.len(),
        start == 0 || is_separator(p[start - 1], windows),
        forall|j: int| start <= j < p.len() ==> !is_separator(#[trigger] p[j], windows),
    ensures
        last_part(p, windows) == p.skip(start),
    decreases p.len(),
{
    if p.len() > start {
        lemma_last_part(p.drop_last(), windows, start);
        assert(p.drop_last().skip(start).push(p.last()) =~= p.skip(start));
    } else {
        assert(p.skip(start) =~= Seq::empty());
    }
}

fn last_of(p: &[char], windows: bool) -> (r: &[char])
    ensures
        r@ == last_part(p@, windows),
{
    let mut start: usize = p.len();
    while start > 0 && !separates(p[start - 1], windows)
        invariant
            start <= p.len(),
            forall|j: int| start <= j < p.len() ==> !is_separator(#[trigger] p@[j], windows),
        decreases start,
    {
        start -= 1;
    }
    proof {
        lemma_last_part(p@, windows, start as int);
    }
    let r = slice_subrange(p, start, p.len());
    assert(r@ =~= p@.skip(start as int));
    r
}

/// The file name of a path, empty where there is none.
pub fn name_of(p: &[char], windows: bool) -> (r: String)
    ensures
        r@ == file_name(p@, windows),
{
    let mut end: usize = p.len();
    assert(p@.take(end as int) =~= p@);
    while end > 0
        invariant
            end <= p.len(),
            file_name(p@, windows) == file_name(p@.take(end as int), windows),
        decreases end,
    {
        let head = slice_subrange(p, 0, end);
        assert(head@ =~= p@.take(end as int));
        assert(head@.drop_last() =~= p@.take(end - 1));
        if !separates(p[end - 1], windows) {
            let part = last_of(head, windows);
            let one = part.len() == 1 && part[0] == '.';
            let two = part.len() == 2 && part[0] == '.' && part[1] == '.';
            assert(one ==> part@ =~= seq!['.']);
            assert(two ==> part@ =~= seq!['.', '.']);
            if two {
                let none: Vec<char> = Vec::new();
                let r = text::string_of(none.as_slice());
                assert(r@ =~= Seq::empty());
                return r;
            }
            if !one {
                return text::string_of(part);
            }
        }
        end -= 1;
    }
    assert(p@.take(0) =~= Seq::empty());
    let none: Vec<char> = Vec::new();
    let r = text::string_of(none.as_slice());
    assert(r@ =~= Seq::empty());
    r
}

/// Whether a path may begin with something other than its parts.
pub fn is_prefix_possible(p: &[char], windows: bool) -> (r: bool)
    ensures
        r == may_have_prefix(p@, windows),
{
    windows && p.len() >= 2 && (p[1] == ':' || (separates(p[0], true) && separates(p[1], true)))
}

// ── Roots ──

/// A path that begins with a drive and its root: a letter, a colon and a separator.
pub open spec fn begins_with_drive(p: Seq<char>) -> bool {
    p.len() >= 3 && messages::is_letter(p[0]) && p[1] == ':' && is_separator(p[2], true)
}

/// The number of leading characters that part nothing on Windows.
pub open spec fn first_part_len(p: Seq<char>) -> nat
    decreases p.len(),
{
    if p.len() > 0 && !is_separator(p[0], true) {
        1 + first_part_len(p.skip(1))
    } else {
        0
    }
}

/// A path that begins with a share: `\\server\share`.
pub open spec fn begins_with_share(p: Seq<char>) -> bool {
    &&& p.len() >= 2 && p[0] == '\\' && p[1] == '\\'
    &&& {
        let n = first_part_len(p.skip(2)) as int;
        &&& n > 0
        &&& n + 3 < p.len()
        &&& p[n + 2] == '\\'
        &&& !is_separator(p[n + 3], true)
    }
}

/// Whether a path begins at a root, where that can be said without asking the
/// system: on Windows not of one with two separators at its beginning, unless it
/// begins with a share.
pub open spec fn root_answer(p: Seq<char>, windows: bool) -> Option<bool> {
    if !windows {
        Some(p.len() > 0 && p[0] == '/')
    } else if begins_with_two(p) && !begins_with_share(p) {
        None
    } else {
        Some(begins_with_drive(p) || begins_with_share(p))
    }
}

proof fn lemma_first_part_len(p: Seq<char>, n: int)
    requires
        0 <= n <= p.len(),
        forall|j: int| 0 <= j < n ==> !is_separator(#[trigger] p[j], true),
        n == p.len() || is_separator(p[n], true),
    ensures
        first_part_len(p) == n,
    decreases p.len(),
{
    if n > 0 {
        assert forall|j: int| 0 <= j < n - 1 implies !is_separator(#[trigger] p.skip(1)[j], true) by {
            assert(p.skip(1)[j] == p[j + 1]);
        }
        lemma_first_part_len(p.skip(1), n - 1);
    }
}

fn names_share(p: &[char]) -> (r: bool)
    ensures
        r == begins_with_share(p@),
{
    if p.len() < 2 || p[0] != '\\' || p[1] != '\\' {
        return false;
    }
    let mut i: usize = 2;
    while i < p.len() && !separates(p[i], true)
        invariant
            2 <= i <= p.len(),
            forall|j: int| 2 <= j < i ==> !is_separator(#[trigger] p@[j], true),
        decreases p.len() - i,
    {
        i += 1;
    }
    proof {
        let rest = p@.skip(2);
        assert forall|j: int| 0 <= j < i - 2 implies !is_separator(#[trigger] rest[j], true) by {
            assert(rest[j] == p@[j + 2]);
        }
        lemma_first_part_len(rest, i - 2);
    }
    i > 2 && p.len() - i > 1 && p[i] == '\\' && !separates(p[i + 1], true)
}

/// Whether a path begins at a root, where that can be said without asking the
/// system.
pub fn has_root(p: &[char], windows: bool) -> (r: Option<bool>)
    ensures
        r == root_answer(p@, windows),
{
    if !windows {
        return Some(p.len() > 0 && p[0] == '/');
    }
    let share = names_share(p);
    if !share && p.len() >= 2 && separates(p[0], true) && separates(p[1], true) {
        return None;
    }
    Some(
        share || (p.len() >= 3 && messages::is_ascii_letter(p[0]) && p[1] == ':' && separates(
            p[2],
            true,
        )),
    )
}

} // verus!
