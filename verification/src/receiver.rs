//! The receiving side of a sendme session: the engine's events as messages.

use crate::binary64;
use crate::binary64::Magnitude;
use crate::display;
use crate::numerals;
use crate::numerals::{Reading, Real};
use crate::sender;
use crate::sender::{EventModel, NativeSendmeEvent};
use crate::text;
use crate::transfer::{msgs, owned, say, MsgModel, TransferMsg};
use vstd::prelude::*;
use vstd::slice::slice_subrange;

verus! {

// ── Events by name ──

/// The events that come without a payload.
pub open spec fn event_named(name: Seq<char>) -> Option<EventModel> {
    if name == "transfer-started"@ {
        Some(EventModel::TransferStarted)
    } else if name == "transfer-completed"@ {
        Some(EventModel::TransferCompleted)
    } else if name == "transfer-failed"@ {
        Some(EventModel::TransferFailed)
    } else if name == "receive-started"@ {
        Some(EventModel::ReceiveStarted)
    } else if name == "receive-completed"@ {
        Some(EventModel::ReceiveCompleted)
    } else {
        None
    }
}

pub open spec fn event_view(e: Option<NativeSendmeEvent>) -> Option<EventModel> {
    match e {
        Some(x) => Some(x@),
        None => None,
    }
}

/// The event that a name stands for.
pub fn decode_event(name: &str) -> (r: Option<NativeSendmeEvent>)
    ensures
        event_view(r) == event_named(name@),
{
    if text::same_str(name, "transfer-started") {
        Some(NativeSendmeEvent::TransferStarted)
    } else if text::same_str(name, "transfer-completed") {
        Some(NativeSendmeEvent::TransferCompleted)
    } else if text::same_str(name, "transfer-failed") {
        Some(NativeSendmeEvent::TransferFailed)
    } else if text::same_str(name, "receive-started") {
        Some(NativeSendmeEvent::ReceiveStarted)
    } else if text::same_str(name, "receive-completed") {
        Some(NativeSendmeEvent::ReceiveCompleted)
    } else {
        None
    }
}

/// What stands before the first colon of a payload, and what stands behind it.
pub open spec fn first_part(s: Seq<char>) -> (Seq<char>, Option<Seq<char>>) {
    match text::split_once(s, ":"@) {
        Some((a, b)) => (a, Some(b)),
        None => (s, None),
    }
}

/// A whole number with or without a sign, within the signed 64-bit numbers.
pub open spec fn signed(s: Seq<char>) -> Option<(bool, nat)> {
    if s.len() > 0 && s[0] == '-' {
        let body = s.skip(1);
        if body.len() > 0 && numerals::all_digits(body) && numerals::digits_value(body)
            <= 0x8000_0000_0000_0000 {
            Some((true, numerals::digits_value(body)))
        } else {
            None
        }
    } else {
        match numerals::natural_to(s, 0x7FFF_FFFF_FFFF_FFFF) {
            Some(n) => Some((false, n)),
            None => None,
        }
    }
}

/// A speed that comes as thousandths.
pub open spec fn thousandths(negative: bool, n: nat) -> Real {
    Real::Number {
        negative: negative && n > 0,
        units: binary64::quotient(binary64::whole(n), binary64::whole(1000)),
    }
}

/// A progress payload: done, total and speed in thousandths, between colons.
pub open spec fn progress_payload(payload: Seq<char>) -> Option<(u64, u64, Real)> {
    let (a, rest) = first_part(payload);
    match rest {
        None => None,
        Some(rest) => {
            let (b, rest) = first_part(rest);
            match rest {
                None => None,
                Some(rest) => {
                    let (c, _) = first_part(rest);
                    match (
                        numerals::u64_of(text::trim(a)),
                        numerals::u64_of(text::trim(b)),
                        signed(text::trim(c)),
                    ) {
                        (Some(done), Some(total), Some((negative, n))) => Some(
                            (done, total, thousandths(negative, n)),
                        ),
                        _ => None,
                    }
                },
            }
        },
    }
}

/// Done and total, between colons.
pub open spec fn pair_payload(payload: Seq<char>) -> Option<(u64, u64)> {
    let (a, rest) = first_part(payload);
    match rest {
        None => None,
        Some(rest) => match (
            numerals::u64_of(text::trim(a)),
            numerals::u64_of(text::trim(first_part(rest).0)),
        ) {
            (Some(done), Some(total)) => Some((done, total)),
            _ => None,
        },
    }
}

/// The events whose payload is written in plain text.
pub open spec fn event_with(name: Seq<char>, payload: Seq<char>) -> Option<EventModel> {
    if name == "transfer-progress"@ {
        match progress_payload(payload) {
            Some((done, total, speed)) => Some(EventModel::TransferProgress { done, total, speed }),
            None => None,
        }
    } else if name == "receive-progress"@ {
        match progress_payload(payload) {
            Some((done, total, speed)) => Some(EventModel::ReceiveProgress { done, total, speed }),
            None => None,
        }
    } else if name == "active-connection-count"@ {
        match numerals::natural_to(text::trim(payload), usize::MAX as nat) {
            Some(n) => Some(EventModel::ActiveConnectionCount(n as usize)),
            None => Some(EventModel::ActiveConnectionCount(0)),
        }
    } else if name == "receive-export-started"@ {
        Some(EventModel::ReceiveExportStarted)
    } else if name == "receive-export-progress"@ {
        match pair_payload(payload) {
            Some((done, total)) => Some(EventModel::ReceiveExportProgress { done, total }),
            None => None,
        }
    } else {
        None
    }
}

fn split_part(s: &[char]) -> (r: (&[char], Option<&[char]>))
    ensures
        r.0@ == first_part(s@).0,
        match r.1 {
            Some(rest) => first_part(s@).1 == Some(rest@),
            None => first_part(s@).1 is None,
        },
{
    match text::split_once_at(s, ":") {
        Some((a, b)) => (a, Some(b)),
        None => (s, None),
    }
}

fn read_signed(s: &[char]) -> (r: Option<(bool, u64)>)
    ensures
        match r {
            Some((negative, n)) => signed(s@) == Some((negative, n as nat)),
            None => signed(s@) is None,
        },
{
    if s.len() > 0 && s[0] == '-' {
        let body = slice_subrange(s, 1, s.len());
        assert(body@ =~= s@.skip(1));
        if body.len() == 0 || !numerals::digits_only(body) {
            return None;
        }
        proof {
            assert(text::is_digit(body@[0]));
        }
        match numerals::read_natural(body, 0x8000_0000_0000_0000) {
            Some(n) => Some((true, n)),
            None => None,
        }
    } else {
        match numerals::read_natural(s, 0x7FFF_FFFF_FFFF_FFFF) {
            Some(n) => Some((false, n)),
            None => None,
        }
    }
}

/// Reads a progress payload.
pub fn parse_native_progress_payload(payload: &str) -> (r: Option<(u64, u64, Reading)>)
    ensures
        match r {
            Some((done, total, speed)) => progress_payload(payload@) == Some((done, total, speed@)),
            None => progress_payload(payload@) is None,
        },
{
    let chars = text::chars_of(payload);
    let (a, rest) = split_part(chars.as_slice());
    match rest {
        None => None,
        Some(rest) => {
            let (b, rest) = split_part(rest);
            match rest {
                None => None,
                Some(rest) => {
                    let (c, _) = split_part(rest);
                    match (
                        numerals::read_u64(text::trim_chars(a)),
                        numerals::read_u64(text::trim_chars(b)),
                        read_signed(text::trim_chars(c)),
                    ) {
                        (Some(done), Some(total), Some((negative, n))) => {
                            proof {
                                binary64::lemma_whole_positive(1000);
                            }
                            let size = Magnitude::from_u64(n).over(&Magnitude::from_u64(1000));
                            Some((done, total, Reading::Number { negative: negative && n > 0, size }))
                        },
                        _ => None,
                    }
                },
            }
        },
    }
}

/// The event that a name and a plain payload stand for.
pub fn decode_event_with_payload(name: &str, payload: &str) -> (r: Option<NativeSendmeEvent>)
    ensures
        event_view(r) == event_with(name@, payload@),
{
    if text::same_str(name, "transfer-progress") {
        match parse_native_progress_payload(payload) {
            Some((done, total, speed_bps)) => Some(
                NativeSendmeEvent::TransferProgress { done, total, speed_bps },
            ),
            None => None,
        }
    } else if text::same_str(name, "receive-progress") {
        match parse_native_progress_payload(payload) {
            Some((done, total, speed_bps)) => Some(
                NativeSendmeEvent::ReceiveProgress { done, total, speed_bps },
            ),
            None => None,
        }
    } else if text::same_str(name, "active-connection-count") {
        let chars = text::chars_of(payload);
        let count: usize = match numerals::read_natural(
            text::trim_chars(chars.as_slice()),
            usize::MAX as u64,
        ) {
            Some(n) => n as usize,
            None => 0,
        };
        Some(NativeSendmeEvent::ActiveConnectionCount(count))
    } else if text::same_str(name, "receive-export-started") {
        Some(NativeSendmeEvent::ReceiveExportStarted)
    } else if text::same_str(name, "receive-export-progress") {
        let chars = text::chars_of(payload);
        let (a, rest) = split_part(chars.as_slice());
        match rest {
            None => None,
            Some(rest) => {
                let (b, _) = split_part(rest);
                match (
                    numerals::read_u64(text::trim_chars(a)),
                    numerals::read_u64(text::trim_chars(b)),
                ) {
                    (Some(done), Some(total)) => Some(
                        NativeSendmeEvent::ReceiveExportProgress { done, total },
                    ),
                    _ => None,
                }
            },
        }
    } else {
        None
    }
}

// ── Receiving ──

/// The total that is shown: never less than what is done, nor zero.
pub open spec fn shown_total(done: u64, total: u64) -> u64 {
    sender::at_least_one(sender::more_of(total, done))
}

/// The part that is done, where there is anything to do.
pub open spec fn part_done(done: u64, total: u64) -> Seq<MsgModel> {
    if total > 0 {
        seq![MsgModel::Progress(binary64::fraction(done as nat, total as nat))]
    } else {
        Seq::empty()
    }
}

pub open spec fn download_line(done: u64, total: u64, speed: Real) -> Seq<char> {
    "[3/4] Downloading ... "@ + display::size_unit(done) + " / "@ + display::size_unit(
        shown_total(done, total),
    ) + " "@ + display::speed_unit(speed)
}

pub open spec fn counter_line(done: u64, total: u64) -> Seq<char> {
    "n native r "@ + numerals::decimal(done as nat) + "/"@ + numerals::decimal(
        shown_total(done, total) as nat,
    ) + " i 0 # recv"@
}

pub open spec fn writing_line(done: u64, total: u64) -> Seq<char> {
    "[4/4] Writing... "@ + display::size_unit(done) + " / "@ + display::size_unit(
        shown_total(done, total),
    )
}

/// The messages for an event of a receive.
pub open spec fn receive_messages(e: EventModel) -> Seq<MsgModel> {
    match e {
        EventModel::ReceiveStarted => seq![MsgModel::Output("[2/4] Downloading..."@)],
        EventModel::ReceiveProgress { done, total, speed } => part_done(done, total).push(
            MsgModel::Output(download_line(done, total, speed)),
        ).push(MsgModel::Output(counter_line(done, total))),
        EventModel::ReceiveCompleted => seq![MsgModel::Progress(binary64::one())],
        EventModel::ReceiveExportStarted => seq![
            MsgModel::Output("[4/4] Writing files to disk..."@),
        ],
        EventModel::ReceiveExportProgress { done, total } => seq![
            MsgModel::Output(writing_line(done, total)),
        ] + part_done(done, total),
        _ => Seq::empty(),
    }
}

/// The messages for an event that is still there when a receive has ended.
pub open spec fn late_receive_messages(e: EventModel) -> Seq<MsgModel> {
    match e {
        EventModel::ReceiveProgress { done, total, .. } => part_done(done, total),
        _ => Seq::empty(),
    }
}

/// The messages for an event of an export from blobs that are already here.
pub open spec fn local_messages(e: EventModel) -> Seq<MsgModel> {
    match e {
        EventModel::ReceiveStarted => seq![
            MsgModel::Output("[local] Blobs complete locally, exporting..."@),
        ],
        EventModel::ReceiveExportStarted => receive_messages(e),
        EventModel::ReceiveExportProgress { .. } => receive_messages(e),
        EventModel::ReceiveCompleted => receive_messages(e),
        _ => Seq::empty(),
    }
}

fn total_shown(done: u64, total: u64) -> (r: u64)
    ensures
        r == shown_total(done, total),
{
    let m: u64 = if total >= done {
        total
    } else {
        done
    };
    if m == 0 {
        1
    } else {
        m
    }
}

fn say_part(out: &mut Vec<TransferMsg>, done: u64, total: u64)
    ensures
        msgs(final(out)@) == msgs(old(out)@) + part_done(done, total),
{
    let ghost before = msgs(out@);
    if total > 0 {
        say(out, TransferMsg::Progress(Magnitude::fraction_of(done, total)));
    }
    assert(msgs(out@) =~= before + part_done(done, total));
}

fn say_text(out: &mut Vec<TransferMsg>, s: &str)
    ensures
        msgs(final(out)@) == msgs(old(out)@).push(MsgModel::Output(s@)),
{
    say(out, TransferMsg::Output(owned(s)));
}

fn say_writing(out: &mut Vec<TransferMsg>, done: u64, total: u64)
    ensures
        msgs(final(out)@) == msgs(old(out)@) + receive_messages(
            EventModel::ReceiveExportProgress { done, total },
        ),
{
    let ghost before = msgs(out@);
    let mut line = text::chars_of("[4/4] Writing... ");
    display::push_size_unit(&mut line, done);
    text::push_text(&mut line, " / ");
    display::push_size_unit(&mut line, total_shown(done, total));
    assert(line@ =~= writing_line(done, total));
    say(out, TransferMsg::Output(text::string_of(line.as_slice())));
    say_part(out, done, total);
    assert(msgs(out@) =~= before + receive_messages(
        EventModel::ReceiveExportProgress { done, total },
    ));
}

/// The messages for an event of a receive.
pub fn on_receive_event(e: &NativeSendmeEvent) -> (r: Vec<TransferMsg>)
    ensures
        msgs(r@) == receive_messages(e@),
{
    let mut out: Vec<TransferMsg> = Vec::new();
    assert(msgs(out@) =~= Seq::empty());
    match e {
        NativeSendmeEvent::ReceiveStarted => {
            say_text(&mut out, "[2/4] Downloading...");
        },
        NativeSendmeEvent::ReceiveProgress { done, total, speed_bps } => {
            say_part(&mut out, *done, *total);
            let mut line = text::chars_of("[3/4] Downloading ... ");
            display::push_size_unit(&mut line, *done);
            text::push_text(&mut line, " / ");
            display::push_size_unit(&mut line, total_shown(*done, *total));
            text::push_text(&mut line, " ");
            display::push_speed_unit(&mut line, speed_bps);
            assert(line@ =~= download_line(*done, *total, speed_bps@));
            say(&mut out, TransferMsg::Output(text::string_of(line.as_slice())));
            let mut counter = text::chars_of("n native r ");
            numerals::push_decimal(&mut counter, *done);
            text::push_text(&mut counter, "/");
            numerals::push_decimal(&mut counter, total_shown(*done, *total));
            text::push_text(&mut counter, " i 0 # recv");
            assert(counter@ =~= counter_line(*done, *total));
            say(&mut out, TransferMsg::Output(text::string_of(counter.as_slice())));
        },
        NativeSendmeEvent::ReceiveCompleted => {
            say(&mut out, TransferMsg::Progress(Magnitude::unit()));
        },
        NativeSendmeEvent::ReceiveExportStarted => {
            say_text(&mut out, "[4/4] Writing files to disk...");
        },
        NativeSendmeEvent::ReceiveExportProgress { done, total } => {
            say_writing(&mut out, *done, *total);
        },
        _ => {},
    }
    assert(msgs(out@) =~= receive_messages(e@));
    out
}

/// The messages for an event that is still there when a receive has ended.
pub fn on_late_receive_event(e: &NativeSendmeEvent) -> (r: Vec<TransferMsg>)
    ensures
        msgs(r@) == late_receive_messages(e@),
{
    let mut out: Vec<TransferMsg> = Vec::new();
    assert(msgs(out@) =~= Seq::empty());
    match e {
        NativeSendmeEvent::ReceiveProgress { done, total, speed_bps: _ } => {
            say_part(&mut out, *done, *total);
        },
        _ => {},
    }
    assert(msgs(out@) =~= late_receive_messages(e@));
    out
}

/// The messages for an event of an export from blobs that are already here.
pub fn on_local_event(e: &NativeSendmeEvent) -> (r: Vec<TransferMsg>)
    ensures
        msgs(r@) == local_messages(e@),
{
    let mut out: Vec<TransferMsg> = Vec::new();
    assert(msgs(out@) =~= Seq::empty());
    match e {
        NativeSendmeEvent::ReceiveStarted => {
            say_text(&mut out, "[local] Blobs complete locally, exporting...");
        },
        NativeSendmeEvent::ReceiveExportStarted => {
            say_text(&mut out, "[4/4] Writing files to disk...");
        },
        NativeSendmeEvent::ReceiveExportProgress { done, total } => {
            say_writing(&mut out, *done, *total);
        },
        NativeSendmeEvent::ReceiveCompleted => {
            say(&mut out, TransferMsg::Progress(Magnitude::unit()));
        },
        _ => {},
    }
    assert(msgs(out@) =~= local_messages(e@));
    out
}

/// How a receiving task ended.
pub enum ReceiveEnd {
    /// With the engine's message.
    Done(String),
    Failed(String),
    Lost(String),
}

/// The last messages of a receive; `lower` is the engine's message in lower case.
pub open spec fn receive_end_messages(end: ReceiveEnd, lower: Seq<char>) -> Seq<MsgModel> {
    match end {
        ReceiveEnd::Done(_) => seq![
            MsgModel::Output(lower),
            MsgModel::Progress(binary64::one()),
            MsgModel::Completed,
        ],
        ReceiveEnd::Failed(e) => seq![MsgModel::Error(e@)],
        ReceiveEnd::Lost(e) => seq![MsgModel::Error("Receive task ended unexpectedly: "@ + e@)],
    }
}

/// The last messages of a receive, with the engine's message in lower case given too.
pub fn on_receive_end_in(end: ReceiveEnd, lower: &str) -> (r: Vec<TransferMsg>)
    ensures
        msgs(r@) == receive_end_messages(end, lower@),
{
    let mut out: Vec<TransferMsg> = Vec::new();
    assert(msgs(out@) =~= Seq::empty());
    match end {
        ReceiveEnd::Done(_) => {
            say_text(&mut out, lower);
            say(&mut out, TransferMsg::Progress(Magnitude::unit()));
            say(&mut out, TransferMsg::Completed);
        },
        ReceiveEnd::Failed(e) => {
            say(&mut out, TransferMsg::Error(e));
        },
        ReceiveEnd::Lost(e) => {
            let mut line = text::chars_of("Receive task ended unexpectedly: ");
            text::push_text(&mut line, e.as_str());
            say(&mut out, TransferMsg::Error(text::string_of(line.as_slice())));
        },
    }
    assert(msgs(out@) =~= receive_end_messages(end, lower@));
    out
}

/// The last messages of a receive.
pub fn on_receive_end(end: ReceiveEnd) -> (r: Vec<TransferMsg>)
    ensures
        match end {
            ReceiveEnd::Done(m) => msgs(r@) == receive_end_messages(end, text::lowercase(m@)),
            _ => msgs(r@) == receive_end_messages(end, Seq::empty()),
        },
{
    let lower = match &end {
        ReceiveEnd::Done(m) => m.as_str().to_lowercase(),
        _ => String::new(),
    };
    on_receive_end_in(end, lower.as_str())
}

/// How a look for blobs that are already here ended.
pub enum LocalEnd {
    Exported,
    Incomplete,
    Failed(String),
    Lost(String),
}

/// The last messages of an export from blobs that are already here.
pub open spec fn local_end_messages(end: LocalEnd) -> Seq<MsgModel> {
    match end {
        LocalEnd::Exported => seq![MsgModel::Progress(binary64::one()), MsgModel::Completed],
        LocalEnd::Incomplete => seq![MsgModel::Error("blobs-incomplete"@)],
        LocalEnd::Failed(e) => seq![MsgModel::Error(e@)],
        LocalEnd::Lost(e) => seq![MsgModel::Error("Local check task failed: "@ + e@)],
    }
}

/// The last messages of an export from blobs that are already here.
pub fn on_local_end(end: LocalEnd) -> (r: Vec<TransferMsg>)
    ensures
        msgs(r@) == local_end_messages(end),
{
    let mut out: Vec<TransferMsg> = Vec::new();
    assert(msgs(out@) =~= Seq::empty());
    match end {
        LocalEnd::Exported => {
            say(&mut out, TransferMsg::Progress(Magnitude::unit()));
            say(&mut out, TransferMsg::Completed);
        },
        LocalEnd::Incomplete => {
            say(&mut out, TransferMsg::Error(owned("blobs-incomplete")));
        },
        LocalEnd::Failed(e) => {
            say(&mut out, TransferMsg::Error(e));
        },
        LocalEnd::Lost(e) => {
            let mut line = text::chars_of("Local check task failed: ");
            text::push_text(&mut line, e.as_str());
            say(&mut out, TransferMsg::Error(text::string_of(line.as_slice())));
        },
    }
    assert(msgs(out@) =~= local_end_messages(end));
    out
}

} // verus!
