//! The output of a tool, cut into lines.
//!
//! Tools redraw a line by a carriage return, so that ends a line too. A question
//! about overwriting waits for its answer on an unfinished line; it is handed on
//! as soon as it can be read.

use crate::text;
use vstd::prelude::*;

verus! {

/// What `String::from_utf8_lossy` makes of bytes.
pub uninterp spec fn lossy(bytes: Seq<u8>) -> Seq<char>;

/// `String::from_utf8_lossy` reads bytes as UTF-8: what is valid is kept, what is
/// not gives way to replacement characters. Its result is a function of the bytes
/// alone; how many replacement characters stand for invalid bytes is not stated.
#[verifier::external_body]
pub(crate) fn from_utf8_lossy(bytes: &[u8]) -> (r: String)
    ensures
        r@ == lossy(bytes@),
        vstd::utf8::valid_utf8(bytes@) ==> r@ == vstd::utf8::decode_utf8(bytes@),
{
    String::from_utf8_lossy(bytes).into_owned()
}

/// `String::from_utf8`: bytes as a text, where they are valid UTF-8.
#[verifier::external_body]
pub(crate) fn from_utf8(bytes: &[u8]) -> (r: Option<String>)
    ensures
        match r {
            Some(s) => vstd::utf8::valid_utf8(bytes@) && s@ == vstd::utf8::decode_utf8(bytes@),
            None => !vstd::utf8::valid_utf8(bytes@),
        },
{
    String::from_utf8(bytes.to_vec()).ok()
}

pub open spec fn ends_line(byte: u8) -> bool {
    byte == 10 || byte == 13
}

/// A text in lower case that asks about overwriting.
pub open spec fn asks_to_overwrite(lower: Seq<char>) -> bool {
    text::contains(lower, "overwrite"@)
}

/// An unfinished line that is handed on: a question about overwriting.
pub open spec fn is_prompt(buf: Seq<u8>) -> bool {
    buf.len() >= 9 && asks_to_overwrite(text::lowercase(lossy(buf)))
}

/// What is kept after a byte, and the line that it finishes.
pub open spec fn after_byte(buf: Seq<u8>, byte: u8) -> (Seq<u8>, Option<Seq<u8>>) {
    if ends_line(byte) {
        if buf.len() == 0 {
            (buf, None)
        } else {
            (Seq::empty(), Some(buf))
        }
    } else if is_prompt(buf.push(byte)) {
        (Seq::empty(), Some(buf.push(byte)))
    } else {
        (buf.push(byte), None)
    }
}

/// The lines that bytes finish, behind what was kept before them, and what is kept.
pub open spec fn after_bytes(buf: Seq<u8>, bytes: Seq<u8>) -> (Seq<u8>, Seq<Seq<u8>>)
    decreases bytes.len(),
{
    if bytes.len() == 0 {
        (buf, Seq::empty())
    } else {
        let (kept, lines) = after_bytes(buf, bytes.drop_last());
        let (next, line) = after_byte(kept, bytes.last());
        match line {
            Some(l) => (next, lines.push(l)),
            None => (next, lines),
        }
    }
}

/// All bytes but those that end lines.
pub open spec fn content(bytes: Seq<u8>) -> Seq<u8>
    decreases bytes.len(),
{
    if bytes.len() == 0 {
        bytes
    } else if ends_line(bytes.last()) {
        content(bytes.drop_last())
    } else {
        content(bytes.drop_last()).push(bytes.last())
    }
}

/// The lines one behind the other.
pub open spec fn joined(lines: Seq<Seq<u8>>) -> Seq<u8>
    decreases lines.len(),
{
    if lines.len() == 0 {
        Seq::empty()
    } else {
        joined(lines.drop_last()) + lines.last()
    }
}

/// Every byte that does not end a line stands in exactly one line, or is kept for
/// the next, and none changes its place.
pub proof fn law_no_byte_is_lost(bytes: Seq<u8>)
    ensures
        joined(after_bytes(Seq::empty(), bytes).1) + after_bytes(Seq::empty(), bytes).0 == content(
            bytes,
        ),
    decreases bytes.len(),
{
    if bytes.len() > 0 {
        law_no_byte_is_lost(bytes.drop_last());
        let (kept, lines) = after_bytes(Seq::empty(), bytes.drop_last());
        let (next, line) = after_byte(kept, bytes.last());
        match line {
            Some(l) => {
                assert(lines.push(l).drop_last() =~= lines);
                assert(joined(lines.push(l)) + next =~= joined(lines) + l);
                if !ends_line(bytes.last()) {
                    assert(joined(lines) + kept.push(bytes.last()) =~= (joined(lines) + kept).push(
                        bytes.last(),
                    ));
                }
            },
            None => {
                if !ends_line(bytes.last()) {
                    assert(joined(lines) + kept.push(bytes.last()) =~= (joined(lines) + kept).push(
                        bytes.last(),
                    ));
                }
            },
        }
    } else {
        assert(joined(Seq::<Seq<u8>>::empty()) + Seq::<u8>::empty() =~= content(bytes));
    }
}

/// No line is empty, and none has a byte in it that ends lines.
pub proof fn law_lines_are_lines(bytes: Seq<u8>)
    ensures
        ({
            let (kept, lines) = after_bytes(Seq::empty(), bytes);
            &&& forall|i: int| 0 <= i < kept.len() ==> !ends_line(#[trigger] kept[i])
            &&& forall|k: int| 0 <= k < lines.len() ==> (#[trigger] lines[k]).len() > 0
            &&& forall|k: int, i: int|
                0 <= k < lines.len() && 0 <= i < lines[k].len() ==> !ends_line(
                    #[trigger] lines[k][i],
                )
        }),
    decreases bytes.len(),
{
    if bytes.len() > 0 {
        let last = bytes.last();
        law_lines_are_lines(bytes.drop_last());
        let (kept0, lines0) = after_bytes(Seq::empty(), bytes.drop_last());
        let (kept, lines) = after_bytes(Seq::empty(), bytes);
        let open = if ends_line(last) {
            kept0
        } else {
            kept0.push(last)
        };
        assert forall|i: int| 0 <= i < open.len() implies !ends_line(#[trigger] open[i]) by {
            if i < kept0.len() {
                assert(open[i] == kept0[i]);
            }
        }
        assert forall|k: int| 0 <= k < lines.len() implies (#[trigger] lines[k]).len() > 0 by {
            if k < lines0.len() {
                assert(lines[k] == lines0[k]);
            } else {
                assert(lines[k] == open);
            }
        }
        assert forall|k: int, i: int|
            0 <= k < lines.len() && 0 <= i < lines[k].len() implies !ends_line(
            #[trigger] lines[k][i],
        ) by {
            if k < lines0.len() {
                assert(lines[k] == lines0[k]);
                assert(!ends_line(lines0[k][i]));
            } else {
                assert(lines[k] == open);
                assert(!ends_line(open[i]));
            }
        }
    }
}

/// The two bytes that end lines do the same.
pub proof fn law_line_ends_are_alike(buf: Seq<u8>, a: Seq<u8>, b: Seq<u8>)
    requires
        a.len() == b.len(),
        forall|i: int|
            #![trigger a[i], b[i]]
            0 <= i < a.len() ==> a[i] == b[i] || (ends_line(a[i]) && ends_line(b[i])),
    ensures
        after_bytes(buf, a) == after_bytes(buf, b),
    decreases a.len(),
{
    if a.len() > 0 {
        law_line_ends_are_alike(buf, a.drop_last(), b.drop_last());
        assert(a.last() == a[a.len() - 1] && b.last() == b[a.len() - 1]);
    }
}

/// The bytes from `i` to `j` end no line, and begin at the start or behind one that
/// does.
pub open spec fn is_open_run(bytes: Seq<u8>, i: int, j: int) -> bool {
    &&& 0 <= i <= j <= bytes.len()
    &&& i == 0 || ends_line(bytes[i - 1])
    &&& forall|m: int| i <= m < j ==> !ends_line(#[trigger] bytes[m])
}

/// Such bytes, at least one, with one behind them that ends their line.
pub open spec fn is_run(bytes: Seq<u8>, i: int, j: int) -> bool {
    is_open_run(bytes, i, j) && i < j < bytes.len() && ends_line(bytes[j])
}

/// A line that reaches from one line end to the next.
pub open spec fn is_whole_line(bytes: Seq<u8>, line: Seq<u8>) -> bool {
    exists|i: int, j: int| #[trigger] is_run(bytes, i, j) && line == bytes.subrange(i, j)
}

/// Where nothing asks about overwriting, the lines reach from one line end to the
/// next, and what is kept reaches to the end.
pub proof fn law_lines_are_whole(bytes: Seq<u8>)
    requires
        forall|i: int, j: int|
            0 <= i <= j <= bytes.len() ==> !is_prompt(#[trigger] bytes.subrange(i, j)),
    ensures
        ({
            let (kept, lines) = after_bytes(Seq::empty(), bytes);
            &&& kept.len() <= bytes.len()
            &&& is_open_run(bytes, bytes.len() - kept.len(), bytes.len() as int)
            &&& kept == bytes.skip(bytes.len() - kept.len())
            &&& forall|k: int| 0 <= k < lines.len() ==> is_whole_line(bytes, #[trigger] lines[k])
        }),
    decreases bytes.len(),
{
    let (kept, lines) = after_bytes(Seq::empty(), bytes);
    if bytes.len() > 0 {
        let before = bytes.drop_last();
        let last = bytes.last();
        assert forall|i: int, j: int| 0 <= i <= j <= before.len() implies !is_prompt(
            #[trigger] before.subrange(i, j),
        ) by {
            assert(before.subrange(i, j) =~= bytes.subrange(i, j));
        }
        law_lines_are_whole(before);
        let (kept0, lines0) = after_bytes(Seq::empty(), before);
        let from = before.len() - kept0.len();
        assert(kept0 =~= bytes.subrange(from, before.len() as int));
        assert(kept0.push(last) =~= bytes.subrange(from, bytes.len() as int));
        assert(is_open_run(bytes, from, before.len() as int)) by {
            assert forall|m: int| from <= m < before.len() implies !ends_line(
                #[trigger] bytes[m],
            ) by {
                assert(before[m] == bytes[m]);
            }
            assert(from > 0 ==> before[from - 1] == bytes[from - 1]);
        }
        assert(kept =~= bytes.skip(bytes.len() - kept.len()));
        assert(is_open_run(bytes, bytes.len() - kept.len(), bytes.len() as int)) by {
            if ends_line(last) {
                assert(kept.len() == 0);
            } else {
                assert(kept == kept0.push(last));
            }
        }
        assert forall|k: int| 0 <= k < lines.len() implies is_whole_line(
            bytes,
            #[trigger] lines[k],
        ) by {
            if k < lines0.len() {
                assert(lines[k] == lines0[k]);
                let (i, j) = choose|i: int, j: int|
                    #[trigger] is_run(before, i, j) && lines0[k] == before.subrange(i, j);
                assert(is_open_run(bytes, i, j)) by {
                    assert forall|m: int| i <= m < j implies !ends_line(#[trigger] bytes[m]) by {
                        assert(before[m] == bytes[m]);
                    }
                    assert(i > 0 ==> before[i - 1] == bytes[i - 1]);
                }
                assert(before[j] == bytes[j]);
                assert(is_run(bytes, i, j));
                assert(before.subrange(i, j) =~= bytes.subrange(i, j));
            } else {
                assert(lines[k] == kept0);
                assert(is_run(bytes, from, before.len() as int));
            }
        }
    } else {
        assert(kept =~= bytes.skip(0));
    }
}

/// Cuts the bytes that a tool prints into lines.
pub struct LineSplitter {
    buf: Vec<u8>,
}

impl View for LineSplitter {
    type V = Seq<u8>;

    closed spec fn view(&self) -> Seq<u8> {
        self.buf@
    }
}

/// Whether a text in lower case asks about overwriting.
pub fn is_overwrite_prompt(lower: &[char]) -> (r: bool)
    ensures
        r == asks_to_overwrite(lower@),
{
    text::contains_str(lower, "overwrite")
}

impl LineSplitter {
    pub fn new() -> (r: LineSplitter)
        ensures
            r@ == Seq::<u8>::empty(),
    {
        LineSplitter { buf: Vec::new() }
    }

    /// Takes one byte, and gives back the line that it finishes.
    pub fn feed(&mut self, byte: u8) -> (r: Option<String>)
        ensures
            final(self)@ == after_byte(old(self)@, byte).0,
            match after_byte(old(self)@, byte).1 {
                Some(line) => r matches Some(s) && s@ == lossy(line),
                None => r is None,
            },
    {
        if byte == 10 || byte == 13 {
            if self.buf.len() == 0 {
                return None;
            }
            let line = from_utf8_lossy(self.buf.as_slice());
            self.buf = Vec::new();
            return Some(line);
        }
        self.buf.push(byte);
        if self.buf.len() >= 9 {
            let partial = from_utf8_lossy(self.buf.as_slice());
            let lower = partial.as_str().to_lowercase();
            let lower = text::chars_of(lower.as_str());
            if is_overwrite_prompt(lower.as_slice()) {
                self.buf = Vec::new();
                return Some(partial);
            }
        }
        None
    }

    /// The last line, where the output ended without ending it.
    pub fn finish(self) -> (r: Option<String>)
        ensures
            if self@.len() == 0 {
                r is None
            } else {
                r matches Some(s) && s@ == lossy(self@)
            },
    {
        if self.buf.len() == 0 {
            None
        } else {
            Some(from_utf8_lossy(self.buf.as_slice()))
        }
    }
}

} // verus!
