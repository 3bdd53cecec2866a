//! What holds of paths, of files that are dropped, of the window and of the icon in the
//! tray.

use crate::binary64;
use crate::binary64::whole;
use crate::drops;
use crate::drops::CandidateModel;
use crate::messages;
use crate::metrics;
use crate::numerals::Real;
use crate::paths;
use crate::session::SessionModel;
use crate::text;
use crate::tray;
use crate::tray::{IconEvent, MouseButton, RawModel, TrayAction, TrayEffectModel, TrayModel};
use crate::window;
use crate::window::{Redraw, SizeModel};
use vstd::prelude::*;

verus! {

// ── Paths ──

/// A name of a file: no separator in it, and not one of the two that stand for folders.
pub open spec fn is_name(name: Seq<char>, windows: bool) -> bool {
    &&& name.len() > 0
    &&& name != seq!['.']
    &&& name != seq!['.', '.']
    &&& forall|i: int| 0 <= i < name.len() ==> !paths::is_separator(#[trigger] name[i], windows)
}

proof fn lemma_last_part_is(dir: Seq<char>, c: char, name: Seq<char>, windows: bool)
    requires
        paths::is_separator(c, windows),
        forall|i: int| 0 <= i < name.len() ==> !paths::is_separator(#[trigger] name[i], windows),
    ensures
        paths::last_part(dir + seq![c] + name, windows) == name,
        paths::last_part(name, windows) == name,
    decreases name.len(),
{
    let p = dir + seq![c] + name;
    if name.len() == 0 {
        assert(p.last() == c);
        assert(name =~= Seq::empty());
    } else {
        let less = name.drop_last();
        assert forall|i: int| 0 <= i < less.len() implies !paths::is_separator(
            #[trigger] less[i],
            windows,
        ) by {
            assert(less[i] == name[i]);
        }
        lemma_last_part_is(dir, c, less, windows);
        assert(p.drop_last() =~= dir + seq![c] + less);
        assert(p.last() == name[name.len() - 1]);
        assert(less.push(name.last()) =~= name);
    }
}

/// The name of a file is what stands behind the last separator; separators and single
/// dots behind it do not count, and two dots name no file.
pub proof fn law_names_stand_behind_the_last_separator(
    dir: Seq<char>,
    c: char,
    name: Seq<char>,
    windows: bool,
)
    requires
        paths::is_separator(c, windows),
        is_name(name, windows),
    ensures
        paths::file_name(dir + seq![c] + name, windows) == name,
        paths::file_name(name, windows) == name,
        paths::file_name(dir + seq![c] + name + seq![c], windows) == name,
        paths::file_name(dir + seq![c] + name + seq![c, '.'], windows) == name,
        paths::file_name(dir + seq![c, '.', '.'], windows) == Seq::<char>::empty(),
        paths::is_separator('/', windows),
        paths::is_separator('\\', windows) == windows,
{
    let p = dir + seq![c] + name;
    lemma_last_part_is(dir, c, name, windows);
    assert(p.last() == name[name.len() - 1]);
    let q = p + seq![c];
    assert(q.drop_last() =~= p);
    assert(q.last() == c);
    assert(paths::file_name(p, windows) == name);
    assert(paths::file_name(q, windows) == paths::file_name(q.drop_last(), windows));
    let dot = seq!['.'];
    let r = p + seq![c, '.'];
    assert(r =~= p + seq![c] + dot);
    lemma_last_part_is(p, c, dot, windows);
    assert(r.drop_last() =~= q);
    assert(r.last() == '.');
    assert(paths::file_name(r, windows) == paths::file_name(r.drop_last(), windows));
    let dots = seq!['.', '.'];
    let t = dir + seq![c, '.', '.'];
    assert(t =~= dir + seq![c] + dots);
    lemma_last_part_is(dir, c, dots, windows);
    assert(t.last() == '.');
    assert(dots.len() == 2 && dot.len() == 1);
}

/// A path is absolute if it begins with a slash; on Windows, if it begins with a drive
/// and a separator or with a share.
pub proof fn law_absolute_paths_are_known(c: char, s: char, rest: Seq<char>)
    ensures
        paths::root_answer(seq!['/'] + rest, false) == Some(true),
        c != '/' ==> paths::root_answer(seq![c] + rest, false) == Some(false),
        messages::is_letter(c) && (s == '/' || s == '\\') ==> paths::root_answer(
            seq![c, ':', s] + rest,
            true,
        ) == Some(true),
        messages::is_letter(c) && s != '/' && s != '\\' ==> paths::root_answer(
            seq![c, ':', s] + rest,
            true,
        ) == Some(false),
        c != '/' && c != '\\' && s != ':' ==> paths::root_answer(seq![c, s] + rest, true) == Some(
            false,
        ),
{
    assert((seq!['/'] + rest)[0] == '/');
    assert((seq![c] + rest)[0] == c);
    let d = seq![c, ':', s] + rest;
    assert(d[0] == c && d[1] == ':' && d[2] == s);
    let e = seq![c, s] + rest;
    assert(e[0] == c && e[1] == s);
}

/// A share begins with two backslashes, a server and a folder.
pub proof fn law_shares_are_absolute(server: Seq<char>, folder: char, rest: Seq<char>)
    requires
        server.len() > 0,
        forall|i: int| 0 <= i < server.len() ==> !paths::is_separator(#[trigger] server[i], true),
        !paths::is_separator(folder, true),
    ensures
        paths::root_answer(
            seq!['\\', '\\'] + server + seq!['\\', folder] + rest,
            true,
        ) == Some(true),
{
    let p = seq!['\\', '\\'] + server + seq!['\\', folder] + rest;
    let tail = seq!['\\', folder] + rest;
    assert(p.skip(2) =~= server + tail);
    lemma_server_len(server, tail);
    let n = server.len() as int;
    assert(p[n + 2] == '\\' && p[n + 3] == folder);
    assert(p[0] == '\\' && p[1] == '\\');
}

proof fn lemma_server_len(server: Seq<char>, tail: Seq<char>)
    requires
        forall|i: int| 0 <= i < server.len() ==> !paths::is_separator(#[trigger] server[i], true),
        tail.len() > 0,
        paths::is_separator(tail[0], true),
    ensures
        paths::first_part_len(server + tail) == server.len(),
    decreases server.len(),
{
    let p = server + tail;
    if server.len() > 0 {
        assert(p[0] == server[0]);
        assert(p.skip(1) =~= server.skip(1) + tail);
        assert forall|i: int| 0 <= i < server.skip(1).len() implies !paths::is_separator(
            #[trigger] server.skip(1)[i],
            true,
        ) by {
            assert(server.skip(1)[i] == server[i + 1]);
        }
        lemma_server_len(server.skip(1), tail);
    } else {
        assert(p =~= tail);
    }
}

// ── Files that are dropped ──

/// A hexadecimal digit: `0` to `9`, and then from the letter `first` on.
pub open spec fn hex_digit(v: nat, first: nat) -> u8
    recommends
        v < 16,
{
    if v < 10 {
        (48 + v) as u8
    } else {
        (first + v - 10) as u8
    }
}

/// A percent sign and two hexadecimal digits, in capital or in small letters, stand for
/// the byte with that number; what stands before and behind is decoded by itself.
pub proof fn law_escaped_bytes_are_decoded(b: u8, plain: Seq<u8>, rest: Seq<u8>)
    requires
        forall|i: int| 0 <= i < plain.len() ==> #[trigger] plain[i] != 37,
    ensures
        drops::percent_decoded(
            plain + (seq![
                37u8,
                hex_digit((b / 16) as nat, 65),
                hex_digit((b % 16) as nat, 65),
            ] + rest),
        ) == plain + (seq![b] + drops::percent_decoded(rest)),
        drops::percent_decoded(
            plain + (seq![
                37u8,
                hex_digit((b / 16) as nat, 97),
                hex_digit((b % 16) as nat, 97),
            ] + rest),
        ) == plain + (seq![b] + drops::percent_decoded(rest)),
{
    lemma_escape(b, 65, rest);
    lemma_escape(b, 97, rest);
    lemma_plain_before(
        plain,
        seq![37u8, hex_digit((b / 16) as nat, 65), hex_digit((b % 16) as nat, 65)] + rest,
    );
    lemma_plain_before(
        plain,
        seq![37u8, hex_digit((b / 16) as nat, 97), hex_digit((b % 16) as nat, 97)] + rest,
    );
}

proof fn lemma_escape(b: u8, first: nat, rest: Seq<u8>)
    requires
        first == 65 || first == 97,
    ensures
        drops::percent_decoded(
            seq![37u8, hex_digit((b / 16) as nat, first), hex_digit((b % 16) as nat, first)]
                + rest,
        ) == seq![b] + drops::percent_decoded(rest),
{
    let h = hex_digit((b / 16) as nat, first);
    let l = hex_digit((b % 16) as nat, first);
    let s = seq![37u8, h, l] + rest;
    assert(s[0] == 37 && s[1] == h && s[2] == l);
    assert(s.skip(3) =~= rest);
    assert(drops::hex_value(h) == Some((b / 16) as u8));
    assert(drops::hex_value(l) == Some((b % 16) as u8));
    assert(16 * (b / 16) + b % 16 == b);
}

proof fn lemma_plain_before(plain: Seq<u8>, rest: Seq<u8>)
    requires
        forall|i: int| 0 <= i < plain.len() ==> #[trigger] plain[i] != 37,
    ensures
        drops::percent_decoded(plain + rest) == plain + drops::percent_decoded(rest),
    decreases plain.len(),
{
    let s = plain + rest;
    if plain.len() == 0 {
        assert(s =~= rest);
        assert(plain + drops::percent_decoded(rest) =~= drops::percent_decoded(rest));
    } else {
        let less = plain.skip(1);
        assert forall|i: int| 0 <= i < less.len() implies #[trigger] less[i] != 37 by {
            assert(less[i] == plain[i + 1]);
        }
        lemma_plain_before(less, rest);
        assert(s[0] == plain[0]);
        assert(s.skip(1) =~= less + rest);
        assert(seq![plain[0]] + (less + drops::percent_decoded(rest)) =~= plain
            + drops::percent_decoded(rest));
    }
}

/// A percent sign that no two hexadecimal digits follow stands for itself.
pub proof fn law_lone_percent_signs_are_kept(rest: Seq<u8>)
    requires
        rest.len() < 2 || drops::hex_value(rest[0]) is None || drops::hex_value(rest[1]) is None,
    ensures
        drops::percent_decoded(seq![37u8] + rest) == seq![37u8] + drops::percent_decoded(rest),
{
    let s = seq![37u8] + rest;
    assert(s[0] == 37);
    assert(s.skip(1) =~= rest);
    if rest.len() >= 2 {
        assert(s[1] == rest[0] && s[2] == rest[1]);
    }
}

proof fn lemma_address(rest: Seq<char>)
    ensures
        drops::after_prefix("file://"@ + rest, "file://"@) == Some(rest),
{
    reveal_strlit("file://");
    let s = "file://"@ + rest;
    assert(s.take(7) =~= "file://"@);
    assert("file://"@.is_prefix_of(s)) by {
        assert(s.subrange(0, 7) =~= "file://"@);
    }
    assert(s.skip(7) =~= rest);
}

proof fn lemma_before(a: Seq<char>, b: Seq<char>)
    requires
        !a.contains('#'),
        !a.contains('?'),
        b.len() > 0 ==> b[0] == '#' || b[0] == '?',
        b.len() > 0 && b[0] == '?' ==> !b.contains('#'),
    ensures
        drops::before(drops::before(a + b, "#"@), "?"@) == a,
{
    reveal_strlit("#");
    reveal_strlit("?");
    assert("#"@ =~= seq!['#'] && "?"@ =~= seq!['?']);
    if b.len() == 0 {
        assert(a + b =~= a);
        text::lemma_no_split(a, '#');
        text::lemma_no_split(a, '?');
    } else if b[0] == '#' {
        assert(a + b =~= a + seq!['#'] + b.skip(1));
        text::law_split_at_the_first(a, '#', b.skip(1));
        text::lemma_no_split(a, '?');
    } else {
        assert(!(a + b).contains('#')) by {
            if (a + b).contains('#') {
                let i = choose|i: int| 0 <= i < (a + b).len() && (a + b)[i] == '#';
                if i < a.len() {
                    assert(a[i] == '#');
                } else {
                    assert(b[i - a.len()] == '#');
                }
            }
        }
        text::lemma_no_split(a + b, '#');
        assert(a + b =~= a + seq!['?'] + b.skip(1));
        text::law_split_at_the_first(a, '?', b.skip(1));
    }
}

/// The path in a file address begins with the first slash behind the host, with or
/// without a host, and ends before a query or a fragment.
pub proof fn law_addresses_name_their_path(host: Seq<char>, path: Seq<char>, end: Seq<char>)
    requires
        !host.contains('/'),
        !host.contains('#') && !host.contains('?'),
        !path.contains('#') && !path.contains('?'),
        end.len() > 0 ==> end[0] == '#' || end[0] == '?',
        end.len() > 0 && end[0] == '?' ==> !end.contains('#'),
    ensures
        drops::encoded_path("file://"@ + (host + seq!['/'] + path + end), false) == Some(
            seq!['/'] + path,
        ),
        drops::encoded_path("file://"@ + (seq!['/'] + path + end), true) == Some(
            seq!['/'] + path,
        ),
{
    reveal_strlit("/");
    assert("/"@ =~= seq!['/']);
    let body = host + seq!['/'] + path;
    lemma_address(body + end);
    lemma_body_has_no_mark(host, path);
    lemma_before(body, end);
    text::law_split_at_the_first(host, '/', path);
    if host.len() == 0 {
        assert(body =~= seq!['/'] + path);
        assert("/"@.is_prefix_of(body)) by {
            assert(body.subrange(0, 1) =~= "/"@);
        }
    } else {
        assert(!"/"@.is_prefix_of(body)) by {
            if "/"@.is_prefix_of(body) {
                assert(body.subrange(0, 1)[0] == "/"@[0]);
                assert(host[0] == '/');
            }
        }
    }
    let none = Seq::<char>::empty();
    let bare = none + seq!['/'] + path;
    lemma_body_has_no_mark(none, path);
    assert(bare =~= seq!['/'] + path);
    lemma_before(bare, end);
    lemma_address(bare + end);
}

proof fn lemma_body_has_no_mark(host: Seq<char>, path: Seq<char>)
    requires
        !host.contains('#') && !host.contains('?'),
        !path.contains('#') && !path.contains('?'),
    ensures
        !(host + seq!['/'] + path).contains('#'),
        !(host + seq!['/'] + path).contains('?'),
{
    let body = host + seq!['/'] + path;
    assert forall|c: char| c == '#' || c == '?' implies !#[trigger] body.contains(c) by {
        if body.contains(c) {
            let i = choose|i: int| 0 <= i < body.len() && body[i] == c;
            if i < host.len() {
                assert(host[i] == c);
            } else if i > host.len() {
                assert(path[i - host.len() - 1] == c);
            }
        }
    }
}

/// Elsewhere a decoded path is taken as it is; on Windows without the local host and the
/// slashes before the drive.
pub proof fn law_decoded_paths_are_finished(path: Seq<char>)
    requires
        path.len() > 0,
        path[0] != '/',
        !"localhost/"@.is_prefix_of(path),
    ensures
        drops::finished_path(path, false) == Some(path),
        drops::finished_path(path, true) == Some(path),
        drops::finished_path(seq!['/'] + path, true) == Some(path),
        drops::finished_path("localhost/"@ + path, true) == Some(path),
        drops::finished_path(Seq::empty(), false) is None,
        drops::finished_path(seq!['/'], true) is None,
{
    reveal_strlit("localhost/");
    let slash = seq!['/'];
    assert(slash.contains('/')) by {
        assert(slash[0] == '/');
    }
    let a = slash + path;
    assert(a[0] == '/' && a.skip(1) =~= path);
    assert(!"localhost/"@.is_prefix_of(a)) by {
        if "localhost/"@.is_prefix_of(a) {
            assert(a.subrange(0, 10)[0] == "localhost/"@[0]);
        }
    }
    let b = "localhost/"@ + path;
    assert(b.subrange(0, 10) =~= "localhost/"@);
    assert(b.skip(10) =~= path);
    assert(!slash.contains(path[0]));
    assert(text::trim_start_of(path, slash) == path);
    assert(text::trim_start_of(a, slash) == text::trim_start_of(path, slash));
    assert(slash.skip(1) =~= Seq::empty());
    assert(!"localhost/"@.is_prefix_of(slash));
    assert(text::trim_start_of(Seq::<char>::empty(), slash).len() == 0);
    assert(slash[0] == '/');
    assert(text::trim_start_of(slash, slash) == text::trim_start_of(slash.skip(1), slash));
}

/// A line that names a path by itself.
pub open spec fn is_plain_path(p: Seq<char>) -> bool {
    &&& p.len() > 0
    &&& !text::is_space(p[0]) && !text::is_space(p.last())
    &&& p[0] != '\0' && p.last() != '\0'
    &&& p[0] != '"' && p.last() != '"'
    &&& p[0] != '#'
    &&& !"file://"@.is_prefix_of(p)
}

/// A line names the path that stands on it, with or without quotation marks; comments and
/// the verbs of a file manager name none.
pub proof fn law_lines_name_their_paths(p: Seq<char>, windows: bool)
    requires
        is_plain_path(p),
        !text::same_ignoring_case(p, "copy"@),
        !text::same_ignoring_case(p, "cut"@),
    ensures
        drops::line_candidate(p, windows) == Some(CandidateModel { path: p, from_uri: false }),
        drops::line_candidate(seq!['"'] + p + seq!['"'], windows) == Some(
            CandidateModel { path: p, from_uri: false },
        ),
        drops::line_candidate(seq!['#'] + p, windows) is None,
        drops::line_candidate("copy"@, windows) is None,
        drops::line_candidate("cut"@, windows) is None,
{
    reveal_strlit("copy");
    reveal_strlit("cut");
    reveal_strlit("#");
    reveal_strlit("file://");
    let nul = seq!['\0'];
    let quote = seq!['"'];
    assert(!nul.contains(p[0]) && !nul.contains(p.last()));
    assert(!quote.contains(p[0]) && !quote.contains(p.last()));
    text::lemma_trim_keeps(p);
    assert(text::trim_of(p, nul) == p);
    assert(text::trim_of(p, quote) == p);
    assert(!"#"@.is_prefix_of(p)) by {
        if "#"@.is_prefix_of(p) {
            assert(p.subrange(0, 1)[0] == "#"@[0]);
        }
    }
    // With quotation marks.
    let q = quote + p + quote;
    assert(q[0] == '"' && q.last() == '"' && q[1] == p[0]);
    assert(!text::is_space('"'));
    text::lemma_trim_keeps(q);
    assert(!nul.contains('"'));
    assert(text::trim_of(q, nul) == q);
    assert(!"#"@.is_prefix_of(q)) by {
        if "#"@.is_prefix_of(q) {
            assert(q.subrange(0, 1)[0] == "#"@[0]);
        }
    }
    assert(!"file://"@.is_prefix_of(q)) by {
        if "file://"@.is_prefix_of(q) {
            assert(q.subrange(0, 7)[0] == "file://"@[0]);
        }
    }
    assert(!drops::is_verb(q)) by {
        if text::same_ignoring_case(q, "copy"@) {
            assert(text::ascii_lower(q[0]) == text::ascii_lower("copy"@[0]));
        }
        if text::same_ignoring_case(q, "cut"@) {
            assert(text::ascii_lower(q[0]) == text::ascii_lower("cut"@[0]));
        }
    }
    assert(quote.contains('"')) by {
        assert(quote[0] == '"');
    }
    assert(q.skip(1) =~= p + quote);
    let r = p + quote;
    assert(r[0] == p[0] && r.last() == '"');
    assert(text::trim_start_of(q, quote) == text::trim_start_of(r, quote));
    assert(text::trim_start_of(r, quote) == r);
    assert(r.drop_last() =~= p);
    assert(text::trim_end_of(r, quote) == text::trim_end_of(p, quote));
    // Comments and verbs.
    let c = seq!['#'] + p;
    assert(c[0] == '#' && c.last() == p[p.len() - 1]);
    assert(!text::is_space('#') && !nul.contains('#'));
    text::lemma_trim_keeps(c);
    assert(text::trim_of(c, nul) == c);
    assert(c.subrange(0, 1) =~= "#"@);
    text::lemma_trim_keeps("copy"@);
    text::lemma_trim_keeps("cut"@);
    assert(!nul.contains('c') && !nul.contains('y') && !nul.contains('t'));
    assert(text::trim_of("copy"@, nul) == "copy"@);
    assert(text::trim_of("cut"@, nul) == "cut"@);
    assert(text::same_ignoring_case("copy"@, "copy"@));
    assert(text::same_ignoring_case("cut"@, "cut"@));
}

/// A path that neither came from an address nor is absolute.
pub open spec fn is_left_out(c: CandidateModel, absolute: bool) -> bool {
    !c.from_uri && !absolute
}

/// Of the paths that are named those count that came from addresses and those that are
/// absolute, each once and in order.
pub proof fn law_named_paths_count_in_order(c: Seq<CandidateModel>, absolute: Seq<bool>)
    requires
        absolute.len() == c.len(),
    ensures
        (forall|i: int| 0 <= i < c.len() ==> #[trigger] c[i].from_uri || absolute[i])
            ==> drops::counted(c, absolute, c.len()) == c.map_values(|m: CandidateModel| m.path),
        (forall|i: int| 0 <= i < c.len() ==> is_left_out(#[trigger] c[i], absolute[i]))
            ==> drops::counted(c, absolute, c.len()).len() == 0,
{
    if forall|i: int| 0 <= i < c.len() ==> #[trigger] c[i].from_uri || absolute[i] {
        lemma_all_counted(c, absolute, c.len());
        assert(c.take(c.len() as int) =~= c);
    }
    if forall|i: int| 0 <= i < c.len() ==> is_left_out(#[trigger] c[i], absolute[i]) {
        lemma_none_counted(c, absolute, c.len());
    }
}

proof fn lemma_all_counted(c: Seq<CandidateModel>, absolute: Seq<bool>, n: nat)
    requires
        absolute.len() == c.len(),
        n <= c.len(),
        forall|i: int| 0 <= i < c.len() ==> #[trigger] c[i].from_uri || absolute[i],
    ensures
        drops::counted(c, absolute, n) == c.take(n as int).map_values(|m: CandidateModel| m.path),
    decreases n,
{
    if n > 0 {
        lemma_all_counted(c, absolute, (n - 1) as nat);
        assert(c[n - 1].from_uri || absolute[n - 1]);
        assert(c.take(n as int) =~= c.take(n - 1).push(c[n - 1]));
    }
    assert(drops::counted(c, absolute, n) =~= c.take(n as int).map_values(
        |m: CandidateModel| m.path,
    ));
}

proof fn lemma_none_counted(c: Seq<CandidateModel>, absolute: Seq<bool>, n: nat)
    requires
        absolute.len() == c.len(),
        n <= c.len(),
        forall|i: int| 0 <= i < c.len() ==> is_left_out(#[trigger] c[i], absolute[i]),
    ensures
        drops::counted(c, absolute, n).len() == 0,
    decreases n,
{
    if n > 0 {
        lemma_none_counted(c, absolute, (n - 1) as nat);
        assert(is_left_out(c[n - 1], absolute[n - 1]));
    }
}

/// A text with a file address in it names files; one without a line end and without an
/// address does not, whatever it says.
pub proof fn law_texts_on_one_line_are_texts(s: Seq<char>, absolute: Seq<bool>)
    ensures
        text::contains(text::trim(s), "file://"@) ==> drops::looks_like_drop(s, absolute),
        !text::contains(text::trim(s), "file://"@) && !text::trim(s).contains('\n')
            && !text::trim(s).contains('\r') ==> !drops::looks_like_drop(s, absolute),
{
    reveal_strlit("\n");
    reveal_strlit("\r");
    assert("\n"@ =~= seq!['\n'] && "\r"@ =~= seq!['\r']);
    let t = text::trim(s);
    if !t.contains('\n') && !t.contains('\r') {
        text::lemma_no_split(t, '\n');
        text::lemma_no_split(t, '\r');
    }
}

// ── The window ──

pub open spec fn pixels(n: nat) -> Real {
    Real::Number { negative: false, units: whole(n) }
}

/// A window that is narrower than 460 or lower than 400 is given the size that it had
/// before; any other size is kept and remembered.
pub proof fn law_only_small_windows_are_resized(w: nat, h: nat, last_good: SizeModel)
    requires
        w < 0x1_0000_0000,
        h < 0x1_0000_0000,
    ensures
        ({
            let size = SizeModel { width: pixels(w), height: pixels(h) };
            &&& w < 460 || h < 400 ==> window::forced_size(size, last_good) == Some(last_good)
            &&& w >= 460 && h >= 400 ==> window::forced_size(size, last_good) is None
            &&& window::is_healthy(size) == (w >= 460 && h >= 400)
            &&& window::default_size() == (SizeModel { width: pixels(620), height: pixels(820) })
            &&& forall|m: window::WindowModel|
                {
                    let seen = #[trigger] window::frame_seen(m, size);
                    seen.launched && seen.last_good == (if w >= 460 && h >= 400 {
                        size
                    } else {
                        m.last_good
                    })
                }
        }),
{
    binary64::law_whole_is_exact(w);
    binary64::law_whole_is_exact(h);
    lemma_order(w, 460);
    lemma_order(h, 400);
}

proof fn lemma_order(a: nat, b: nat)
    requires
        binary64::one() > 0,
    ensures
        (a * binary64::one() < b * binary64::one()) == (a < b),
{
    let o = binary64::one();
    if a < b {
        assert(a * o < b * o) by (nonlinear_arith)
            requires
                a < b,
                o > 0,
        ;
    } else {
        assert(a * o >= b * o) by (nonlinear_arith)
            requires
                a >= b,
        ;
    }
}

proof fn lemma_difference(a: nat, d: nat)
    requires
        a + d < 0x20_0000_0000_0000,
    ensures
        whole(a) <= whole(a + d),
        metrics::seconds_since(whole(a + d), whole(a)) == whole(d),
{
    binary64::law_whole_is_exact(a);
    binary64::law_whole_is_exact(d);
    binary64::law_whole_is_exact(a + d);
    let o = binary64::one();
    assert((a + d) * o == a * o + d * o) by (nonlinear_arith);
    assert(whole(a + d) - whole(a) == d * o);
}

/// A hidden window sleeps until its retry, an hour at most; without a retry it sleeps
/// until it is woken.
pub proof fn law_hidden_windows_wake_for_retries(now: nat, wait: nat)
    requires
        now + wait < 0x20_0000_0000_0000,
    ensures
        window::sleep(whole(now), Some(whole(now + wait))) == Some(
            whole(
                if wait <= 3600 {
                    wait
                } else {
                    3600
                },
            ),
        ),
        wait > 0 ==> window::sleep(whole(now + wait), Some(whole(now))) == Some(0nat),
        window::sleep(whole(now), None) is None,
{
    lemma_difference(now, wait);
    binary64::law_whole_is_exact(now);
    binary64::law_whole_is_exact(now + wait);
    binary64::law_whole_is_exact(wait);
    binary64::law_whole_is_exact(3600);
    lemma_order(wait, 3600);
    lemma_order(now, now + wait);
    if wait > 0 {
        assert(whole(now) < whole(now + wait));
    }
}

/// A note is opaque for two seconds and gone after the third.
pub proof fn law_notes_last_three_seconds(start: nat, d: nat)
    requires
        start + d < 0x20_0000_0000_0000,
    ensures
        d <= 2 ==> window::opacity(whole(start + d), whole(start)) == Some(255u8),
        d == 3 ==> window::opacity(whole(start + d), whole(start)) == Some(0u8),
        d > 3 ==> window::opacity(whole(start + d), whole(start)) is None,
{
    lemma_difference(start, d);
    binary64::law_whole_is_exact(d);
    binary64::law_whole_is_exact(2);
    binary64::law_whole_is_exact(3);
    lemma_order(d, 3);
    lemma_order(d, 2);
    lemma_order(2, d);
    lemma_order(3, d);
    if d == 3 {
        binary64::law_whole_is_exact(0);
        assert(whole(0) == 0);
        binary64::law_whole_numbers_are_computed_exactly(0, 255);
        assert(binary64::nearest(0, 1) == whole(0)) by {
            assert(0 * binary64::one() == 0);
        }
        assert(0nat * 255 == 0);
    }
}

/// While a note fades it only becomes less opaque.
pub proof fn law_notes_only_fade(start: nat, now: nat, later: nat)
    requires
        start <= now <= later,
        window::opacity(later, start) is Some,
    ensures
        window::opacity(now, start) is Some,
        window::opacity(later, start)->0 <= window::opacity(now, start)->0,
{
    let e = metrics::seconds_since(now, start);
    let f = metrics::seconds_since(later, start);
    binary64::lemma_nearest_grows((now - start) as nat, (later - start) as nat, 1, 53);
    assert(e <= f);
    let three = whole(3);
    if e > whole(2) {
        let a = binary64::nearest((three - e) as nat, 1);
        let b = binary64::nearest((three - f) as nat, 1);
        binary64::lemma_nearest_grows((three - f) as nat, (three - e) as nat, 1, 53);
        assert(b <= a);
        vstd::arithmetic::power2::lemma_pow2_pos(1074);
        assert(b * whole(255) <= a * whole(255)) by (nonlinear_arith)
            requires
                b <= a,
        ;
        binary64::lemma_nearest_grows(b * whole(255), a * whole(255), binary64::one(), 53);
        vstd::arithmetic::div_mod::lemma_div_is_ordered(
            binary64::product(b, whole(255)) as int,
            binary64::product(a, whole(255)) as int,
            binary64::one() as int,
        );
    }
}

/// The window is drawn at once while a retry counts down, soon while a transfer runs, and
/// otherwise when something happens.
pub proof fn law_windows_are_drawn_as_needed(s: SessionModel)
    ensures
        window::redraw(s, true) == Redraw::Now,
        s.state is Failed && s.eazy.next_retry is Some ==> window::redraw(s, false) == Redraw::Now,
        s.state is Running ==> window::redraw(s, false) == Redraw::Soon,
        !(s.state is Failed) && s.eazy.next_retry is Some ==> window::redraw(s, false)
            == Redraw::Soon,
        !(s.state is Running) && s.eazy.next_retry is None ==> window::redraw(s, false)
            == Redraw::Idle,
{
}

// ── The tray ──

/// The left button shows the window, by a click or a double click, and no other does; the
/// entries of the menu do what they are named after, once there has been an icon.
pub proof fn law_the_left_button_shows_the_window(
    t: TrayModel,
    hwnd: Option<isize>,
    state: tray::MouseButtonState,
    id: Seq<char>,
)
    ensures
        ({
            let u = tray::installed(t, hwnd);
            let click = |b: MouseButton|
                RawModel::Icon(IconEvent::Click { button: b, button_state: state });
            let twice = |b: MouseButton| RawModel::Icon(IconEvent::DoubleClick { button: b });
            &&& tray::tray_action(t, click(MouseButton::Left)) == Some(TrayAction::Show)
            &&& tray::tray_action(t, twice(MouseButton::Left)) == Some(TrayAction::Show)
            &&& tray::tray_action(t, click(MouseButton::Right)) is None
            &&& tray::tray_action(t, twice(MouseButton::Right)) is None
            &&& tray::tray_action(t, click(MouseButton::Middle)) is None
            &&& tray::tray_action(t, twice(MouseButton::Middle)) is None
            &&& tray::tray_action(t, RawModel::Icon(IconEvent::Enter)) is None
            &&& tray::tray_action(t, RawModel::Icon(IconEvent::Move)) is None
            &&& tray::tray_action(t, RawModel::Icon(IconEvent::Leave)) is None
            &&& tray::tray_action(t, RawModel::Icon(IconEvent::Unknown)) is None
            &&& tray::tray_action(u, RawModel::Menu("databeam_show"@)) == Some(TrayAction::Show)
            &&& tray::tray_action(u, RawModel::Menu("databeam_quit"@)) == Some(TrayAction::Quit)
            &&& id != "databeam_show"@ && id != "databeam_quit"@ ==> tray::tray_action(
                u,
                RawModel::Menu(id),
            ) is None
            &&& tray::tray_action(tray::removed(u), RawModel::Menu("databeam_show"@)) == Some(
                TrayAction::Show,
            )
        }),
{
    reveal_strlit("databeam_show");
    reveal_strlit("databeam_quit");
    assert("databeam_show"@[9] == 's' && "databeam_quit"@[9] == 'q');
}

/// Showing the window wakes it by the handle that the icon was made for, where there is
/// one, and then restores it; quitting ends the program. Both are logged first.
pub proof fn law_actions_reach_the_icons_window(t: TrayModel, h: isize)
    ensures
        tray::applied(tray::installed(t, Some(h)), TrayAction::Show) == seq![
            TrayEffectModel::Log("tray action applied: Show"@),
            TrayEffectModel::ShowWindow(h),
            TrayEffectModel::Restore,
        ],
        tray::applied(tray::installed(t, None), TrayAction::Show) == seq![
            TrayEffectModel::Log("tray action applied: Show"@),
            TrayEffectModel::Restore,
        ],
        tray::applied(tray::installed(t, Some(h)), TrayAction::Quit) == seq![
            TrayEffectModel::Log("tray action applied: Quit"@),
            TrayEffectModel::HardQuit,
        ],
        tray::close_hides(tray::installed(t, Some(h)), true),
        !tray::close_hides(tray::installed(t, Some(h)), false),
{
    assert(tray::applied(tray::installed(t, Some(h)), TrayAction::Show) =~= seq![
        TrayEffectModel::Log("tray action applied: Show"@),
        TrayEffectModel::ShowWindow(h),
        TrayEffectModel::Restore,
    ]);
    assert(tray::applied(tray::installed(t, None), TrayAction::Show) =~= seq![
        TrayEffectModel::Log("tray action applied: Show"@),
        TrayEffectModel::Restore,
    ]);
}

/// Each event of a list gives its action, in order; events without one are passed over.
pub proof fn law_events_give_their_actions(t: TrayModel, before: Seq<RawModel>, e: RawModel)
    ensures
        tray::tray_actions(t, before.push(e), before.len() + 1) == (match tray::tray_action(t, e) {
            Some(a) => tray::tray_actions(t, before, before.len()).push(a),
            None => tray::tray_actions(t, before, before.len()),
        }),
        tray::tray_actions(t, Seq::empty(), 0).len() == 0,
{
    lemma_actions_before(t, before, e, before.len());
    assert(before.push(e)[before.len() as int] == e);
}

proof fn lemma_actions_before(t: TrayModel, before: Seq<RawModel>, e: RawModel, n: nat)
    requires
        n <= before.len(),
    ensures
        tray::tray_actions(t, before.push(e), n) == tray::tray_actions(t, before, n),
    decreases n,
{
    if n > 0 {
        lemma_actions_before(t, before, e, (n - 1) as nat);
        assert(before.push(e)[n - 1] == before[n - 1]);
    }
}

/// What is passed on is logged with its name and whether it arrived; what comes in
/// streams only where it did not arrive.
pub proof fn law_passed_on_events_are_logged(id: Seq<char>)
    ensures
        tray::forward_lines(RawModel::Menu(id), true) == seq![
            "tray event forwarded: menu"@,
            "tray forward delivered: true"@,
        ],
        tray::forward_lines(RawModel::Icon(IconEvent::Leave), false) == seq![
            "tray event forwarded: icon-leave"@,
            "tray forward delivered: false"@,
        ],
        tray::forward_lines(RawModel::Icon(IconEvent::Move), true).len() == 0,
        tray::forward_lines(RawModel::Icon(IconEvent::Enter), true).len() == 0,
        tray::forward_lines(RawModel::Icon(IconEvent::Move), false) == seq![
            "tray forward delivered: false"@,
        ],
{
    reveal_strlit("tray event forwarded: ");
    reveal_strlit("tray event forwarded: menu");
    reveal_strlit("tray event forwarded: icon-leave");
    reveal_strlit("menu");
    reveal_strlit("icon-leave");
    assert("tray event forwarded: "@ + "menu"@ =~= "tray event forwarded: menu"@);
    assert("tray event forwarded: "@ + "icon-leave"@ =~= "tray event forwarded: icon-leave"@);
}

} // verus!
