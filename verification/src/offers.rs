//! What holds of the words that the desk offers, of its dialogues, and of what the lines of
//! croc and the log lead to.

use crate::binary64;
use crate::binary64::whole;
use crate::cleanup;
use crate::desk;
use crate::desk::{DeskModel, PickerModel, SendItem};
use crate::display;
use crate::home;
use crate::home::Tone;
use crate::messages;
use crate::numerals;
use crate::reader;
use crate::sender;
use crate::session;
use crate::session::{EffectModel, SessionModel};
use crate::settings;
use crate::settings::SettingsModel;
use crate::state::SelectedTool;
use crate::text;
use crate::transfer;
use crate::transfer::MsgModel;
use vstd::arithmetic::power2::pow2;
use vstd::prelude::*;

verus! {

// ── Words ──

/// The line over the items counts them and sums their sizes up; what is not measured yet
/// is said to be so.
pub proof fn law_items_are_counted_and_summed_up(items: Seq<SendItem>, n: nat)
    requires
        1 <= n < 1024,
        desk::known_bytes(items) == n * 1048576,
    ensures
        ({
            let count = numerals::decimal(items.len()) + (if items.len() == 1 {
                " item"@
            } else {
                " items"@
            });
            let size = numerals::decimal(n) + ".0 MB"@;
            &&& (forall|i: int| 0 <= i < items.len() ==> (#[trigger] items[i]).size is Some)
                ==> desk::items_line(items) == count + " \u{2014} "@ + size
            &&& (exists|i: int| 0 <= i < items.len() && (#[trigger] items[i]).size is None)
                ==> desk::items_line(items) == count + " \u{2014} "@ + (size
                + " (estimating\u{2026})"@)
        }),
{
    display::law_sizes_are_shown_in_their_unit(n);
    reveal_strlit(".0 MB");
    reveal_strlit(" MB");
    assert(numerals::decimal(n) + seq!['.', '0'] + " MB"@ =~= numerals::decimal(n) + ".0 MB"@);
    assert((n * 1048576) as u64 > 0);
}

/// An item is labelled with its size; a folder that is not measured yet with three dots,
/// anything else of no known size with nothing.
pub proof fn law_items_are_labelled_with_their_size(path: u64, n: nat, is_dir: bool)
    requires
        1 <= n < 1024,
    ensures
        desk::size_label(SendItem { path, is_dir, size: Some((n * 1024) as u64) })
            == numerals::decimal(n) + ".0 KB"@,
        desk::size_label(SendItem { path, is_dir: true, size: None }) == "\u{2026}"@,
        desk::size_label(SendItem { path, is_dir: false, size: None }) == "0 B"@,
{
    display::law_sizes_are_shown_in_their_unit(n);
    reveal_strlit(".0 KB");
    reveal_strlit(" KB");
    assert(numerals::decimal(n) + seq!['.', '0'] + " KB"@ =~= numerals::decimal(n) + ".0 KB"@);
}

/// The button for sending names the tool, and from two items on how many there are.
pub proof fn law_the_button_says_what_is_sent(d: DeskModel)
    ensures
        ({
            let many = " "@ + numerals::decimal(d.items.len()) + " items"@;
            let tool = d.w.session.tool;
            &&& tool == SelectedTool::Croc && desk::sends_text(d) ==> desk::send_label(d)
                == "\u{1F40A} Send Text"@
            &&& tool == SelectedTool::Croc && !desk::sends_text(d) && d.items.len() == 1
                ==> desk::send_label(d) == "\u{1F40A} Send"@
            &&& tool == SelectedTool::Croc && !desk::sends_text(d) && d.items.len() >= 2
                ==> desk::send_label(d) == "\u{1F40A} Send"@ + many
            &&& tool == SelectedTool::Sendme && d.items.len() <= 1 ==> desk::send_label(d)
                == "\u{1F4E1} Send"@
            &&& tool == SelectedTool::Sendme && d.items.len() >= 2 ==> desk::send_label(d)
                == "\u{1F4E1} Send"@ + many
            &&& tool == SelectedTool::EazySendme && d.items.len() <= 1 ==> desk::send_label(d)
                == "\u{26A1} EazySend"@
            &&& tool == SelectedTool::EazySendme && d.items.len() >= 2 ==> desk::send_label(d)
                == "\u{26A1} EazySend"@ + many
        }),
{
    let none = Seq::<char>::empty();
    assert("\u{1F40A} Send"@ + none =~= "\u{1F40A} Send"@);
    assert("\u{1F4E1} Send"@ + none =~= "\u{1F4E1} Send"@);
    assert("\u{26A1} EazySend"@ + none =~= "\u{26A1} EazySend"@);
}

/// Without a choice to begin with: no custom code, no text, no code that was used.
pub proof fn law_preferences_begin_empty()
    ensures
        ({
            let p = desk::first_preferences();
            &&& !p.use_custom_code && !p.text_mode && !p.updating
            &&& p.croc_code.len() == 0 && p.text_value.len() == 0
            &&& p.croc_recent.len() == 0 && p.eazy_recent.len() == 0 && p.receive_recent.len() == 0
        }),
{
}

/// The latest code is entered when a code of one's own is first asked for and none is
/// there; asking again, or giving it up, enters nothing.
pub proof fn law_codes_are_entered_only_when_asked_for(d: DeskModel)
    ensures
        ({
            let a = desk::custom_code_chosen(d, true);
            let b = desk::custom_code_chosen(d, false);
            let p = d.w.preferences;
            &&& a.w.preferences.use_custom_code && !b.w.preferences.use_custom_code
            &&& b.w.preferences.croc_code == p.croc_code
            &&& p.use_custom_code ==> a.w.preferences.croc_code == p.croc_code
            &&& text::trim(p.croc_code).len() > 0 ==> a.w.preferences.croc_code == p.croc_code
            &&& !p.use_custom_code && text::trim(p.croc_code).len() == 0 && p.croc_recent.len() > 0
                ==> a.w.preferences.croc_code == p.croc_recent[0]
            &&& a.items == d.items && b.items == d.items
            &&& a.w.session == d.w.session && b.w.session == d.w.session
        }),
{
}

/// Only folders of no known size are measured, each once it is laid out.
pub proof fn law_only_folders_are_measured(d: DeskModel, fx: Seq<EffectModel>, item: SendItem)
    requires
        !desk::sends_text(d),
        !desk::has_path(d.items, item.path),
    ensures
        ({
            let paths = desk::measured(d, fx, seq![item], 1);
            if item.is_dir && item.size is None {
                paths == seq![item.path]
            } else {
                paths.len() == 0
            }
        }),
        desk::measured(d, fx, seq![item, item], 2).len() <= 1,
{
    reveal_with_fuel(desk::measured, 3);
    reveal_with_fuel(desk::items_added, 3);
    let one = seq![item];
    let two = seq![item, item];
    assert(one[0] == item && two[0] == item && two[1] == item);
    assert(desk::measured(d, fx, one, 0) =~= Seq::empty());
    assert(Seq::<u64>::empty().push(item.path) =~= seq![item.path]);
    let a = desk::items_added(d, fx, two, 1).0;
    assert(a.items.last() == item);
    assert(desk::has_path(a.items, item.path)) by {
        assert(a.items[a.items.len() - 1].path == item.path);
    }
}

/// The ticket that is asked about belongs to the code that is entered: the one in use only
/// where it came with that code, else the one that was kept for it.
pub proof fn law_asked_tickets_belong_to_the_code(s: SessionModel)
    ensures
        text::trim(s.receive_code).len() == 0 ==> desk::ticket_in_question(s) is None,
        text::trim(s.receive_code).len() > 0 && (s.code is None || text::trim(s.code->0)
            != text::trim(s.receive_code)) ==> desk::ticket_in_question(s) == session::ticket_for(
            s.cache,
            text::trim(s.receive_code),
        ),
        text::trim(s.receive_code).len() > 0 && s.eazy.ticket is Some && s.code is Some
            && text::trim(s.code->0) == text::trim(s.receive_code) ==> desk::ticket_in_question(s)
            == s.eazy.ticket,
{
}

/// Another tool begins with nothing entered and nothing laid out, and the choice is kept.
pub proof fn law_tools_begin_with_nothing_entered(
    d: DeskModel,
    fx: Seq<EffectModel>,
    tool: SelectedTool,
)
    requires
        d.w.session.tool != tool,
    ensures
        ({
            let (t, told) = desk::tool_switched(d, fx, tool);
            &&& t.w.session.tool == tool
            &&& t.w.session.receive_code.len() == 0
            &&& t.items.len() == 0
            &&& t.w.session.view == d.w.session.view
            &&& t.w.session.cache == d.w.session.cache
            &&& told.len() > fx.len() && told[fx.len() as int] == EffectModel::Persist
            &&& t.w.preferences == d.w.preferences
        }),
{
}

/// Whatever was stored, transfers of the combined mode are tried again.
pub proof fn law_retries_are_always_on(d: DeskModel, s: SettingsModel)
    ensures
        settings::desk_read(d, s).w.session.eazy.auto_retry,
        settings::desk_read(d, s).w.session.serve.one_shot == s.sendme_one_shot,
        settings::desk_read(d, s).w.session.custom_code == s.eazysendme_custom_code,
        settings::desk_read(d, s).w.preferences.croc_code == s.croc_custom_code,
        settings::desk_read(d, s).w.preferences.use_custom_code == s.croc_use_custom_code,
        settings::desk_read(d, s).items == d.items,
{
}

// ── Dialogues ──

proof fn lemma_small_delay(t: nat, num: nat)
    requires
        t < 0x1_0000_0000_0000,
        15 <= num <= 20,
    ensures
        ({
            let d = binary64::nearest(num * binary64::one(), 100);
            whole(t) < binary64::sum(whole(t), d) <= whole(t + 1)
        }),
{
    let o = binary64::one();
    let d = binary64::nearest(num * o, 100);
    vstd::arithmetic::power2::lemma2_to64();
    vstd::arithmetic::power2::lemma2_to64_rest();
    vstd::arithmetic::power2::lemma_pow2_pos(1071);
    vstd::arithmetic::power2::lemma_pow2_adds(1071, 3);
    let e = pow2(1071);
    assert(o == 8 * e);
    binary64::law_whole_is_exact(t);
    binary64::law_whole_is_exact(t + 1);
    binary64::law_whole_is_exact(1);
    binary64::law_whole_is_exact(0x1_0000_0000_0000);
    // An eighth of a second is a double that is no larger, a second one that is no smaller.
    assert(1 * o == o);
    assert(1 * pow2(1071) == e);
    assert(e < binary64::infinity());
    assert(1nat < pow2(53));
    binary64::law_nearest_keeps_what_fits(1, 1071, 100, 53);
    assert(1 * pow2(1071) * 100 == 100 * e);
    binary64::lemma_nearest_grows(100 * e, num * o, 100, 53);
    assert(100 * e <= num * o) by (nonlinear_arith)
        requires
            o == 8 * e,
            num >= 15,
    ;
    assert(d >= e);
    binary64::law_nearest_keeps_what_fits(1, 1074, 100, 53);
    assert(1 * pow2(1074) * 100 == 100 * o);
    binary64::lemma_nearest_grows(num * o, 100 * o, 100, 53);
    assert(num * o <= 100 * o) by (nonlinear_arith)
        requires
            num <= 100,
    ;
    assert(d <= o);
    // Both sums with them are exact.
    let m = 8 * t + 1;
    assert(m * e == t * o + e) by (nonlinear_arith)
        requires
            o == 8 * e,
            m == 8 * t + 1,
    ;
    assert((t + 1) * o == t * o + o) by (nonlinear_arith);
    assert(m * e < binary64::infinity()) by {
        assert(m * e <= (t + 1) * o);
    }
    binary64::law_nearest_keeps_what_fits(m, 1071, 1, 53);
    assert(m * e * 1 == m * e);
    binary64::lemma_nearest_grows(m * e, whole(t) + d, 1, 53);
    binary64::lemma_nearest_grows(whole(t) + d, (t + 1) * o, 1, 53);
    assert((t + 1) * o * 1 == (t + 1) * o);
    binary64::law_nearest_keeps_what_fits(t + 1, 1074, 1, 53);
}

/// One dialogue is open at a time: none can be opened while one is, nor at once after it
/// was closed; a second later one can.
pub proof fn law_one_dialogue_at_a_time(p: PickerModel, t: nat, later: nat)
    requires
        t < 0x1_0000_0000_0000,
    ensures
        desk::picker_launched(p, whole(t)).in_flight,
        !desk::picker_is_ready(desk::picker_launched(p, whole(t)), later),
        p.in_flight ==> desk::picker_launched(p, whole(t)) == p,
        !p.in_flight ==> desk::picker_launched(p, whole(t)).block_until > whole(t),
        !desk::picker_closed(whole(t)).in_flight,
        !desk::picker_is_ready(desk::picker_closed(whole(t)), whole(t)),
        later >= whole(t + 1) ==> desk::picker_is_ready(desk::picker_closed(whole(t)), later),
        desk::picker_is_ready(desk::idle_picker(), later),
{
    lemma_small_delay(t, 15);
    lemma_small_delay(t, 20);
}

// ── Lines ──

/// A line that prints a code is reported as the code and as a line; any other line as
/// itself, and a question about overwriting ends the transfer.
pub proof fn law_croc_lines_are_reported(
    pre: Seq<char>,
    code: Seq<char>,
    tail: Seq<char>,
    lower: Seq<char>,
)
    requires
        messages::is_marked(lower, pre, "croc_secret="@),
        !text::contains(lower, "code is"@),
        code.len() > 0,
        !code.contains('"'),
    ensures
        ({
            let t = pre + "CROC_SECRET="@ + (seq!['"'] + code + seq!['"'] + tail);
            let said = transfer::croc_line_messages(messages::croc_line(t, lower));
            if text::contains(lower, "overwrite"@) {
                said == (seq![MsgModel::Error("conflict-detected"@)], true)
            } else {
                said == (seq![MsgModel::Code(code), MsgModel::Output(t)], false)
            }
        }),
        transfer::croc_line_messages(messages::croc_line(Seq::empty(), lower)) == (
            Seq::<MsgModel>::empty(),
            false,
        ),
{
    messages::law_printed_secret_is_the_code(pre, code, tail, lower);
    reveal_strlit("CROC_SECRET=");
}

/// A line without a mark for a code is reported as itself.
pub proof fn law_other_lines_are_reported(t: Seq<char>, lower: Seq<char>)
    requires
        t.len() > 0,
        !text::contains(lower, "overwrite"@),
        messages::code_in(t, lower) is None,
    ensures
        transfer::croc_line_messages(messages::croc_line(t, lower)) == (
            seq![MsgModel::Output(t)],
            false,
        ),
{
}

/// A question about overwriting is handed on before its line has ended, and only such a
/// question is.
pub proof fn law_questions_are_handed_on(buf: Seq<u8>, byte: u8)
    requires
        byte != 10,
        byte != 13,
    ensures
        ({
            let lower = text::lowercase(reader::lossy(buf.push(byte)));
            let asked = buf.len() >= 8 && text::contains(lower, "overwrite"@);
            &&& asked ==> reader::after_byte(buf, byte) == (
                Seq::<u8>::empty(),
                Some(buf.push(byte)),
            )
            &&& !asked ==> reader::after_byte(buf, byte) == (buf.push(byte), None::<Seq<u8>>)
        }),
        buf.len() > 0 ==> reader::after_byte(buf, 10) == (Seq::<u8>::empty(), Some(buf)),
        buf.len() > 0 ==> reader::after_byte(buf, 13) == (Seq::<u8>::empty(), Some(buf)),
{
}

/// Lines are toned by their words: failures first, then warnings, then what is done.
pub proof fn law_lines_are_toned_by_their_words(lower: Seq<char>)
    ensures
        text::contains(lower, "error"@) ==> home::tone_of(lower) == Tone::Error,
        text::contains(lower, "fail"@) ==> home::tone_of(lower) == Tone::Error,
        home::tone_of(lower) == Tone::Warning <==> text::contains(lower, "warn"@)
            && home::tone_of(lower) != Tone::Error,
        home::tone_of(lower) == Tone::Success ==> text::contains(lower, "100%"@) || text::contains(
            lower,
            "complete"@,
        ) || text::contains(lower, "done"@),
        text::contains(lower, "complete"@) || text::contains(lower, "done"@) || text::contains(
            lower,
            "100%"@,
        ) ==> home::tone_of(lower) != Tone::Plain,
        home::tone_of(lower) == Tone::Error ==> text::contains(lower, "error"@) || text::contains(
            lower,
            "fail"@,
        ),
{
}

/// At most 800 messages of croc are taken at once, and 600 of the others.
pub proof fn law_messages_are_taken_by_the_hundred()
    ensures
        session::quota(SelectedTool::Croc) == 800,
        session::quota(SelectedTool::Sendme) == 600,
        session::quota(SelectedTool::EazySendme) == 600,
{
}

// ── Leftovers ──

/// What a sender leaves behind is known by its name; what a receiver may go on with is
/// not taken for it, and its name gives its hash.
pub proof fn law_leftovers_are_known_by_name(x: Seq<char>)
    ensures
        sender::is_send_dir(".sendme-send-"@ + x),
        sender::is_session_artifact(".sendme-send-"@ + x),
        sender::is_session_artifact("databeam_sendme_"@ + x),
        sender::is_session_artifact("databeam_sendme_recv_"@ + x),
        !sender::is_send_dir(".sendme-recv-"@ + x),
        !sender::is_session_artifact(".sendme-recv-"@ + x),
        cleanup::received_hash(".sendme-recv-"@ + x) == Some(x),
        cleanup::received_hash(".sendme-send-"@ + x) is None,
{
    reveal_strlit(".sendme-send-");
    reveal_strlit(".sendme-recv-");
    reveal_strlit("databeam_sendme_");
    reveal_strlit("databeam_sendme_recv_");
    let a = ".sendme-send-"@ + x;
    let b = "databeam_sendme_"@ + x;
    let c = "databeam_sendme_recv_"@ + x;
    let r = ".sendme-recv-"@ + x;
    assert(a.subrange(0, 13) =~= ".sendme-send-"@);
    assert(b.subrange(0, 16) =~= "databeam_sendme_"@);
    assert(c.subrange(0, 21) =~= "databeam_sendme_recv_"@);
    assert(r.subrange(0, 13) =~= ".sendme-recv-"@);
    assert(r.skip(13) =~= x);
    assert(!".sendme-send-"@.is_prefix_of(r)) by {
        if ".sendme-send-"@.is_prefix_of(r) {
            assert(r.subrange(0, 13)[8] == ".sendme-send-"@[8]);
        }
    }
    assert(!".sendme-recv-"@.is_prefix_of(a)) by {
        if ".sendme-recv-"@.is_prefix_of(a) {
            assert(a.subrange(0, 13)[8] == ".sendme-recv-"@[8]);
        }
    }
    assert(!"databeam_sendme_"@.is_prefix_of(r)) by {
        if "databeam_sendme_"@.is_prefix_of(r) {
            assert(r.subrange(0, 16)[0] == "databeam_sendme_"@[0]);
        }
    }
    assert(!"databeam_sendme_recv_"@.is_prefix_of(r)) by {
        if "databeam_sendme_recv_"@.is_prefix_of(r) {
            assert(r.subrange(0, 21)[0] == "databeam_sendme_recv_"@[0]);
        }
    }
}

// ── What tools print ──

/// A text that a terminal shows as it stands.
pub open spec fn is_clean(s: Seq<char>) -> bool {
    forall|i: int|
        0 <= i < s.len() ==> (#[trigger] s[i]) != '\u{1b}' && (!messages::is_control(s[i]) || s[i]
            == '\t' || s[i] == '\n')
}

/// Colours and other sequences for a terminal are taken out whole: from the escape and the
/// bracket up to the first letter. What stands around them is kept.
pub proof fn law_terminal_sequences_are_taken_out(
    clean: Seq<char>,
    inside: Seq<char>,
    letter: char,
    rest: Seq<char>,
)
    requires
        is_clean(clean),
        messages::is_letter(letter),
        forall|i: int| 0 <= i < inside.len() ==> !messages::is_letter(#[trigger] inside[i]),
    ensures
        messages::plain(clean + (seq!['\u{1b}', '['] + (inside + (seq![letter] + rest)))) == clean
            + messages::plain(rest),
{
    let tail = inside + (seq![letter] + rest);
    let sequence = seq!['\u{1b}', '['] + tail;
    assert(sequence[0] == '\u{1b}');
    let behind = seq!['['] + tail;
    assert(sequence.skip(1) =~= behind);
    assert(behind[0] == '[');
    assert(behind.skip(1) =~= tail);
    lemma_up_to_letter(inside, letter, rest);
    assert(messages::plain(sequence) == messages::plain(messages::after_escape(sequence.skip(1))));
    lemma_clean_front(clean, sequence);
}

/// An escape before anything but a bracket takes that one character with it; other control
/// characters go alone, and tabs and line ends stay.
pub proof fn law_control_characters_are_taken_out(clean: Seq<char>, c: char, rest: Seq<char>)
    requires
        is_clean(clean),
    ensures
        c != '[' ==> messages::plain(clean + (seq!['\u{1b}', c] + rest)) == clean
            + messages::plain(rest),
        messages::is_control(c) && c != '\u{1b}' && c != '\t' && c != '\n' ==> messages::plain(
            clean + (seq![c] + rest),
        ) == clean + messages::plain(rest),
        c == '\t' || c == '\n' || (!messages::is_control(c) && c != '\u{1b}') ==> messages::plain(
            clean + (seq![c] + rest),
        ) == clean + (seq![c] + messages::plain(rest)),
{
    let a = seq!['\u{1b}', c] + rest;
    assert(a[0] == '\u{1b}');
    assert(a.skip(1) =~= seq![c] + rest);
    assert((seq![c] + rest)[0] == c);
    assert((seq![c] + rest).skip(1) =~= rest);
    if c != '[' {
        assert(messages::plain(a) == messages::plain(messages::after_escape(a.skip(1))));
    }
    lemma_clean_front(clean, a);
    lemma_clean_front(clean, seq![c] + rest);
}

proof fn lemma_up_to_letter(inside: Seq<char>, letter: char, rest: Seq<char>)
    requires
        messages::is_letter(letter),
        forall|i: int| 0 <= i < inside.len() ==> !messages::is_letter(#[trigger] inside[i]),
    ensures
        messages::after_letter(inside + (seq![letter] + rest)) == rest,
    decreases inside.len(),
{
    let s = inside + (seq![letter] + rest);
    if inside.len() == 0 {
        assert(s =~= seq![letter] + rest);
        assert(s[0] == letter);
        assert(s.skip(1) =~= rest);
    } else {
        let less = inside.skip(1);
        assert(s[0] == inside[0]);
        assert(s.skip(1) =~= less + (seq![letter] + rest));
        assert forall|i: int| 0 <= i < less.len() implies !messages::is_letter(
            #[trigger] less[i],
        ) by {
            assert(less[i] == inside[i + 1]);
        }
        lemma_up_to_letter(less, letter, rest);
    }
}

proof fn lemma_clean_front(clean: Seq<char>, rest: Seq<char>)
    requires
        is_clean(clean),
    ensures
        messages::plain(clean + rest) == clean + messages::plain(rest),
    decreases clean.len(),
{
    let s = clean + rest;
    if clean.len() == 0 {
        assert(s =~= rest);
        assert(clean + messages::plain(rest) =~= messages::plain(rest));
    } else {
        let less = clean.skip(1);
        assert(s[0] == clean[0]);
        assert(s.skip(1) =~= less + rest);
        assert forall|i: int| 0 <= i < less.len() implies (#[trigger] less[i]) != '\u{1b}' && (
        !messages::is_control(less[i]) || less[i] == '\t' || less[i] == '\n') by {
            assert(less[i] == clean[i + 1]);
        }
        lemma_clean_front(less, rest);
        assert(seq![clean[0]] + (less + messages::plain(rest)) =~= clean + messages::plain(rest));
    }
}

/// The text that an announcement speaks of is the first line behind it that can be one,
/// within six lines.
pub proof fn law_texts_follow_within_six_lines(log: Seq<Seq<char>>, i: int, gap: nat)
    requires
        0 <= i,
        i + gap < log.len(),
        forall|j: int| i <= j < i + gap ==> !messages::may_follow(#[trigger] log[j]),
        messages::may_follow(log[i + gap]),
    ensures
        gap < 6 ==> messages::following_text(log, i, 6) == Some(
            messages::candidate(log[i + gap]),
        ),
        gap >= 6 ==> messages::following_text(log, i, 6) is None,
{
    lemma_follows(log, i, gap, 6);
}

proof fn lemma_follows(log: Seq<Seq<char>>, i: int, gap: nat, n: nat)
    requires
        0 <= i,
        i + gap < log.len(),
        forall|j: int| i <= j < i + gap ==> !messages::may_follow(#[trigger] log[j]),
        messages::may_follow(log[i + gap]),
    ensures
        gap < n ==> messages::following_text(log, i, n) == Some(
            messages::candidate(log[i + gap]),
        ),
        gap >= n ==> messages::following_text(log, i, n) is None,
    decreases n,
{
    if n > 0 && gap > 0 {
        assert(!messages::may_follow(log[i]));
        lemma_follows(log, i + 1, (gap - 1) as nat, (n - 1) as nat);
    }
}

/// An announcement with a text behind it in the log gives that text, however many lines
/// without either came before them.
pub proof fn law_logged_texts_are_found(
    before: Seq<Seq<char>>,
    announcement: Seq<char>,
    t: Seq<char>,
)
    requires
        messages::text_in_line(announcement) is None,
        messages::text_in_line(t) is None,
        text::contains(text::lowercase(announcement), "receiv"@),
        text::contains(text::lowercase(announcement), "text"@),
        messages::may_follow(t),
    ensures
        ({
            let log = before.push(announcement).push(t);
            messages::text_in_log(log, log.len()) == Some(messages::candidate(t))
        }),
{
    let log = before.push(announcement).push(t);
    let n = log.len();
    assert(log[n - 1] == t && log[n - 2] == announcement);
    assert(messages::following_text(log, n as int, 6) is None);
    lemma_follows(log, n - 1, 0, 6);
    assert(messages::text_in_log(log, n) == messages::text_in_log(log, (n - 1) as nat));
}

} // verus!
