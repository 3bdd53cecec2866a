//! How far a transfer is, by the lines that its tools print.

use crate::binary64;
use crate::binary64::Magnitude;
use crate::croc::{BarModel, CrocBarFrame};
use crate::facts::{FactsModel, LineFacts};
use crate::numerals;
use crate::numerals::{Reading, Real};
use crate::sender::{at_least_one, less_of, more_of};
use crate::sendme;
use crate::state::{AppView, Context, ContextModel, SelectedTool, TransferPhase};
use std::collections::HashMap;
use vstd::arithmetic::power2::pow2;
use vstd::prelude::*;

verus! {

broadcast use vstd::std_specs::hash::group_hash_axioms;

// ── The model ──

pub struct MetricsModel {
    pub phase: TransferPhase,
    /// The part that is done, in single precision.
    pub progress: nat,
    pub preparing: nat,
    pub total: Option<u64>,
    pub done: Option<u64>,
    pub speed: Option<Real>,
    /// When the payload began to move.
    pub payload_start: Option<nat>,
    /// When bytes were last counted for the speed, and how many they were.
    pub sample: Option<(nat, u64)>,
    pub cli_line: Option<Seq<char>>,
    /// The files that croc has done, of how many.
    pub file_progress: Option<(u64, u64)>,
    pub bar_file: Option<Seq<char>>,
    pub bar_done: u64,
    pub bar_total: u64,
    /// The bytes of all files whose bars are over.
    pub completed: u64,
    pub last_frame_at: Option<nat>,
    pub total_items: Option<u64>,
    pub done_estimate: u64,
    pub item_done: Map<u64, u64>,
    pub item_total: Map<u64, u64>,
    pub stream_base: u64,
    pub stream_done: Option<u64>,
    pub stream_total: Option<u64>,
    pub payload_complete: bool,
    pub had_transfer: bool,
}

pub open spec fn saturating_sum(a: u64, b: u64) -> u64 {
    if a + b > u64::MAX {
        u64::MAX
    } else {
        (a + b) as u64
    }
}

pub open spec fn saturating_difference(a: u64, b: u64) -> u64 {
    if a >= b {
        (a - b) as u64
    } else {
        0
    }
}

pub open spec fn or_zero(n: Option<u64>) -> u64 {
    match n {
        Some(x) => x,
        None => 0,
    }
}

/// The larger of a number that is known and one that is read.
pub open spec fn raised(known: Option<u64>, read: u64) -> Option<u64> {
    match known {
        Some(k) if k >= read => Some(k),
        _ => Some(read),
    }
}

pub open spec fn or_now(t: Option<nat>, now: nat) -> Option<nat> {
    match t {
        Some(x) => Some(x),
        None => Some(now),
    }
}

/// The seconds from one time to a later one.
pub open spec fn seconds_since(now: nat, earlier: nat) -> nat {
    binary64::nearest((now - earlier) as nat, 1)
}

/// 0.3 in double precision.
pub open spec fn point_three() -> nat {
    binary64::nearest(3 * binary64::one(), 10)
}

/// The speed by the bytes that are done: sampled at most every 0.3 seconds, and
/// shown from 1024 bytes per second up. A receiving sendme prints its own.
pub open spec fn derived_speed(m: MetricsModel, c: ContextModel) -> MetricsModel {
    let now = c.now;
    match m.done {
        Some(done) if !(c.tool == SelectedTool::Sendme && c.view == AppView::Receive) => match m.sample {
            Some((t, before)) => if now >= t && seconds_since(now, t) >= point_three() {
                let rate = binary64::quotient(
                    binary64::whole(saturating_difference(done, before) as nat),
                    seconds_since(now, t),
                );
                MetricsModel {
                    speed: if done >= before && rate >= 1024 * binary64::one() {
                        Some(Real::Number { negative: false, units: rate })
                    } else {
                        m.speed
                    },
                    sample: Some((now, done)),
                    ..m
                }
            } else {
                m
            },
            None => MetricsModel { sample: Some((now, done)), ..m },
        },
        _ => m,
    }
}

// ── croc's bars ──

/// Another file's bar has begun: under another name, or with fewer bytes done.
pub open spec fn is_new_bar(m: MetricsModel, f: BarModel) -> bool {
    match m.bar_file {
        Some(name) => name != f.file_name || f.done_bytes < m.bar_done,
        None => false,
    }
}

/// A bar is taken over: the bytes of a file that is over are kept.
pub open spec fn bar_folded(m: MetricsModel, f: BarModel, now: nat) -> MetricsModel {
    MetricsModel {
        completed: if is_new_bar(m, f) {
            saturating_sum(m.completed, more_of(m.bar_total, m.bar_done))
        } else {
            m.completed
        },
        bar_file: Some(f.file_name),
        bar_total: f.total_bytes,
        bar_done: f.done_bytes,
        last_frame_at: Some(now),
        file_progress: match (f.file_index, f.file_count) {
            (Some(i), Some(n)) if n > 0 => Some((less_of(i, n), n)),
            _ => m.file_progress,
        },
        total: match m.total {
            Some(t) => Some(t),
            None => Some(f.total_bytes),
        },
        phase: TransferPhase::Transferring,
        preparing: if m.phase != TransferPhase::Transferring {
            binary64::one()
        } else {
            m.preparing
        },
        payload_start: if m.phase != TransferPhase::Transferring {
            or_now(m.payload_start, now)
        } else {
            m.payload_start
        },
        ..m
    }
}

/// The bytes that are done in all files, at most the total.
pub open spec fn overall_done(m: MetricsModel, f: BarModel) -> u64 {
    less_of(saturating_sum(m.completed, f.done_bytes), or_zero(m.total))
}

/// `a / b` in single precision.
pub open spec fn single_quotient(a: u64, b: u64) -> nat {
    binary64::nearest_single(
        binary64::whole_single(a as nat) * binary64::one(),
        binary64::whole_single(b as nat),
    )
}

/// The part that is done when `files` of `total` files have begun and `within`
/// of the last of them is done.
pub open spec fn files_part(files: u64, within: nat, total: u64) -> nat {
    binary64::at_most_one(
        binary64::nearest_single(
            binary64::nearest_single(
                binary64::whole_single(saturating_difference(files, 1) as nat) + within,
                1,
            ) * binary64::one(),
            binary64::whole_single(total as nat),
        ),
    )
}

/// The part that is done by a folded bar: by bytes where the total is known and
/// not zero, then by files, then by the file itself.
pub open spec fn bar_progress(m: MetricsModel, f: BarModel) -> nat {
    let total = or_zero(m.total);
    if total > 0 {
        binary64::fraction(or_zero(m.done) as nat, total as nat)
    } else {
        match m.file_progress {
            Some((files, all)) => if all > 0 {
                files_part(
                    files,
                    single_quotient(f.done_bytes, at_least_one(f.total_bytes)),
                    all,
                )
            } else {
                m.progress
            },
            None => binary64::larger(
                m.progress,
                binary64::fraction(f.done_bytes as nat, at_least_one(f.total_bytes) as nat),
            ),
        }
    }
}

/// A redraw of croc's progress bar is taken in.
#[verifier::opaque]
pub open spec fn after_frame(m: MetricsModel, c: ContextModel, f: BarModel) -> MetricsModel {
    let now = c.now;
    let a = bar_folded(m, f, now);
    let d = overall_done(a, f);
    let b = MetricsModel {
        done: if d >= or_zero(a.done) {
            Some(d)
        } else {
            a.done
        },
        ..a
    };
    let e = MetricsModel { progress: bar_progress(b, f), ..b };
    match f.speed_bps {
        Some(v) if v.above_zero() => MetricsModel {
            speed: Some(v),
            sample: Some((now, or_zero(e.done))),
            ..e
        },
        _ => derived_speed(e, c),
    }
}

// ── Other lines ──

/// The payload begins to move.
pub open spec fn begun(m: MetricsModel, now: nat) -> MetricsModel {
    MetricsModel {
        phase: TransferPhase::Transferring,
        payload_start: or_now(m.payload_start, now),
        ..m
    }
}

/// A line that is kept as the latest progress of a tool.
pub open spec fn shows_cli_line(c: ContextModel, f: FactsModel) -> bool {
    let raw = c.sendme_like() && c.view == AppView::Receive && f.r_counter is Some;
    let request = c.sendme_like() && c.view == AppView::Send && f.request_line;
    (f.cli_progress || raw || request) && !(c.croc() && f.file_counter is Some)
}

/// What a line tells before its amounts are looked at: the tool's own progress
/// line, croc's direction, the stage, and totals.
#[verifier::opaque]
pub open spec fn with_hints(m: MetricsModel, c: ContextModel, f: FactsModel, direction: bool) -> MetricsModel {
    let a = if shows_cli_line(c, f) {
        MetricsModel { cli_line: Some(f.compact), ..m }
    } else {
        m
    };
    let b = if c.croc() && a.phase != TransferPhase::Transferring && direction {
        MetricsModel { preparing: binary64::one(), ..begun(a, c.now) }
    } else {
        a
    };
    let d = match f.stage {
        Some((cur, all)) if b.phase == TransferPhase::Preparing && all > 0 => MetricsModel {
            preparing: binary64::larger(b.preparing, single_quotient(cur as u64, all as u64)),
            ..b
        },
        _ => b,
    };
    let e = match f.croc_total {
        Some(t) if c.croc() => MetricsModel { total: raised(d.total, t), ..d },
        _ => d,
    };
    let g = match f.imported {
        Some(t) if c.sendme_like() => MetricsModel { total: raised(e.total, t), ..e },
        _ => e,
    };
    match f.total_files {
        Some(n) if c.sendme_like() => MetricsModel { total_items: raised(g.total_items, n), ..g },
        _ => g,
    }
}

/// A receiver's counter of bytes is taken in. What is done never falls.
pub open spec fn after_counter(m: MetricsModel, c: ContextModel, done: u64, total: u64) -> MetricsModel {
    let a = MetricsModel { total: raised(m.total, total), ..m };
    let before = or_zero(a.done);
    let next = less_of(more_of(done, before), total);
    let b = if next > before {
        derived_speed(MetricsModel { done: Some(next), ..a }, c)
    } else {
        a
    };
    let d = MetricsModel { progress: binary64::fraction(next as nat, total as nat), ..b };
    if d.phase != TransferPhase::Transferring {
        begun(d, c.now)
    } else {
        d
    }
}

/// A line about one item of a sender is taken in: its bytes are added to the
/// estimate of what is done.
pub open spec fn after_item(m: MetricsModel, index: u64, done: u64, total: u64) -> MetricsModel {
    let key = saturating_difference(index, 1);
    let part = less_of(done, total);
    let before = if m.item_done.contains_key(key) {
        m.item_done[key]
    } else {
        0
    };
    let old_total = if m.item_total.contains_key(key) {
        m.item_total[key]
    } else {
        total
    };
    MetricsModel {
        done_estimate: if part >= before {
            saturating_sum(m.done_estimate, (part - before) as u64)
        } else if total != old_total {
            saturating_sum(
                saturating_sum(
                    saturating_difference(m.done_estimate, before),
                    more_of(old_total, before),
                ),
                part,
            )
        } else {
            m.done_estimate
        },
        item_done: m.item_done.insert(key, part),
        item_total: m.item_total.insert(key, total),
        ..m
    }
}

/// A line about a sender's stream is taken in: where it starts over, the total
/// of the stream before it is done.
pub open spec fn after_stream(m: MetricsModel, done: u64, total: u64) -> MetricsModel {
    let part = less_of(done, total);
    MetricsModel {
        stream_base: match (m.stream_done, m.stream_total) {
            (Some(d), Some(t)) if part < d => saturating_sum(m.stream_base, t),
            _ => m.stream_base,
        },
        stream_done: Some(part),
        stream_total: Some(total),
        ..m
    }
}

/// The bytes of the streams that are done.
pub open spec fn streamed(m: MetricsModel) -> u64 {
    match (m.stream_done, m.stream_total) {
        (Some(d), Some(t)) if t > 0 => saturating_sum(m.stream_base, less_of(d, t)),
        _ => m.stream_base,
    }
}

/// A sender's estimates are taken over into what is done.
pub open spec fn after_estimates(m: MetricsModel, c: ContextModel, payload: Option<(u64, u64)>) -> MetricsModel {
    match m.total {
        Some(total) if total > 0 => {
            let estimate = less_of(more_of(m.done_estimate, streamed(m)), total);
            let a = if estimate > or_zero(m.done) {
                derived_speed(
                    MetricsModel {
                        done: Some(estimate),
                        progress: binary64::fraction(estimate as nat, total as nat),
                        ..m
                    },
                    c,
                )
            } else {
                m
            };
            match payload {
                Some((d, t)) => MetricsModel {
                    payload_complete: estimate >= total && t > 0 && less_of(d, t) >= t,
                    ..a
                },
                None => a,
            }
        },
        _ => m,
    }
}

/// A line of a sending sendme is taken in.
pub open spec fn after_sender_line(m: MetricsModel, c: ContextModel, f: FactsModel) -> MetricsModel {
    let a = match (f.payload, f.item_index) {
        (Some((d, t)), Some(index)) => if t > 0 {
            after_item(m, index, d, t)
        } else {
            m
        },
        (Some((d, t)), None) => if t > 0 && f.has_marks {
            after_stream(m, d, t)
        } else {
            m
        },
        _ => m,
    };
    after_estimates(a, c, f.payload)
}

/// What sendme's own counters on a line tell.
#[verifier::opaque]
pub open spec fn with_sendme_counters(m: MetricsModel, c: ContextModel, f: FactsModel) -> MetricsModel {
    if !c.sendme_like() {
        m
    } else {
        let a = match f.r_counter {
            Some((d, t)) if c.view == AppView::Receive && t > 0 => after_counter(m, c, d, t),
            _ => m,
        };
        if c.view == AppView::Send && !f.request_line {
            after_sender_line(a, c, f)
        } else {
            a
        }
    }
}

/// croc's counter of files is used while its payload moves.
pub open spec fn used_file_counter(m: MetricsModel, c: ContextModel, f: FactsModel) -> Option<(u64, u64)> {
    if c.croc() && m.phase == TransferPhase::Transferring {
        f.file_counter
    } else {
        None
    }
}

/// The part done by croc's counter of files and the file that is being sent.
pub open spec fn counter_part(files: u64, all: u64, payload: Option<(u64, u64)>) -> nat {
    match payload {
        Some((d, t)) if t > 0 => files_part(files, binary64::fraction(d as nat, t as nat), all),
        _ => single_quotient(files, all),
    }
}

/// The bytes in a part of a total.
pub open spec fn part_of(part: nat, total: u64) -> u64 {
    less_of(
        binary64::truncated(binary64::product(part, binary64::whole(total as nat))),
        total,
    )
}

/// croc's counter of files is taken in. Once bars have been seen they decide.
#[verifier::opaque]
pub open spec fn with_file_counter(m: MetricsModel, c: ContextModel, f: FactsModel) -> MetricsModel {
    match used_file_counter(m, c, f) {
        Some((files, all)) if all > 0 => {
            let a = MetricsModel { file_progress: Some((files, all)), ..m };
            if a.bar_file is Some {
                a
            } else {
                let part = counter_part(files, all, f.payload);
                MetricsModel {
                    progress: part,
                    done: match a.total {
                        Some(t) if t > 0 => Some(part_of(part, t)),
                        _ => a.done,
                    },
                    ..a
                }
            }
        },
        _ => m,
    }
}

/// The amounts on a line, as far as they are looked at: a receiving sendme's
/// counter comes first.
pub open spec fn used_payload(m: MetricsModel, c: ContextModel, f: FactsModel) -> Option<(u64, u64)> {
    if f.exporting || used_file_counter(m, c, f) is Some {
        None
    } else {
        match f.r_counter {
            Some((d, t)) if c.sendme_like() && c.view == AppView::Receive && t != 0 && d <= t => Some(
                (d, t),
            ),
            _ => f.payload,
        }
    }
}

/// A line of sendme's whose amounts are those of the transfer.
pub open spec fn is_transfer_line(c: ContextModel, f: FactsModel) -> bool {
    if !c.sendme_like() {
        true
    } else if c.view == AppView::Send {
        f.download || f.upload || f.sending || f.transferring
    } else if c.view == AppView::Receive {
        f.downloading || f.uploading || f.third_stage || f.fourth_stage || (f.r_counter matches Some(
            (d, t),
        ) && t != 0 && d <= t)
    } else {
        true
    }
}

/// A waiting sender stays so on a line on which nothing is done yet, unless the
/// line is one of a transfer that runs.
pub open spec fn still_waiting(m: MetricsModel, c: ContextModel, f: FactsModel, done: u64) -> bool {
    c.tool == SelectedTool::Sendme && c.view == AppView::Send && m.phase
        != TransferPhase::Transferring && done == 0 && !(f.third_stage || f.fourth_stage || (
    f.downloading && c.peer_connected))
}

/// Amounts are taken in. What a receiver has done never falls, nor does a total;
/// and nothing done is beyond its total.
pub open spec fn after_payload(m: MetricsModel, c: ContextModel, done: u64, total: u64) -> MetricsModel {
    let waited = c.tool == SelectedTool::Sendme && c.view == AppView::Send && m.phase
        != TransferPhase::Transferring && done == 0;
    let a = if waited {
        begun(m, c.now)
    } else if m.phase != TransferPhase::Transferring {
        MetricsModel {
            phase: TransferPhase::Transferring,
            payload_start: Some(c.now),
            preparing: binary64::one(),
            ..m
        }
    } else {
        m
    };
    let next_done = if c.tool == SelectedTool::Sendme && c.view == AppView::Send {
        done
    } else {
        more_of(done, or_zero(a.done))
    };
    let next_total = more_of(more_of(total, or_zero(a.total)), next_done);
    derived_speed(
        MetricsModel {
            done: Some(next_done),
            total: Some(next_total),
            progress: if next_total > 0 {
                binary64::fraction(next_done as nat, next_total as nat)
            } else {
                a.progress
            },
            ..a
        },
        c,
    )
}

/// The amounts on a line are looked at: the state behind them, and whether the
/// rest of the line is looked at too.
#[verifier::opaque]
pub open spec fn with_payload(m: MetricsModel, c: ContextModel, f: FactsModel) -> (MetricsModel, bool) {
    match used_payload(m, c, f) {
        None => (m, true),
        Some((done, total)) => if c.croc() || !is_transfer_line(c, f) || still_waiting(
            m,
            c,
            f,
            done,
        ) {
            (m, false)
        } else {
            (after_payload(m, c, done, total), true)
        },
    }
}

/// The end of a line: croc's announced total, the speed, and whether a sender
/// has sent anything.
#[verifier::opaque]
pub open spec fn with_rest(m: MetricsModel, c: ContextModel, f: FactsModel) -> MetricsModel {
    let a = match f.total_hint {
        Some(t) if m.total is None && m.phase == TransferPhase::Preparing && c.croc() => MetricsModel {
            total: Some(t),
            ..m
        },
        _ => m,
    };
    let b = match f.speed {
        Some(v) if a.phase == TransferPhase::Transferring && !(c.tool == SelectedTool::Sendme && c.view
            == AppView::Receive && !f.downloading) && !v.below(1024) => MetricsModel {
            speed: Some(v),
            ..a
        },
        _ => a,
    };
    if c.sendme_like() && c.view == AppView::Send && or_zero(b.done) > 0 {
        MetricsModel { had_transfer: true, ..b }
    } else {
        b
    }
}

/// The combined mode receives its ticket: croc's lines say nothing of the transfer.
pub open spec fn before_ticket(c: ContextModel) -> bool {
    c.tool == SelectedTool::EazySendme && c.view == AppView::Receive && !c.ticket_known
}

/// A line is taken in; `direction` is whether it is one of croc's direction lines.
pub open spec fn after_line(m: MetricsModel, c: ContextModel, f: FactsModel, direction: bool) -> MetricsModel {
    if before_ticket(c) {
        m
    } else {
        match f.frame {
            Some(frame) if c.croc() => after_frame(m, c, frame),
            _ => {
                let a = with_file_counter(
                    with_sendme_counters(with_hints(m, c, f, direction), c, f),
                    c,
                    f,
                );
                let (b, more) = with_payload(a, c, f);
                if more {
                    with_rest(b, c, f)
                } else {
                    b
                }
            },
        }
    }
}

// ── The state ──

/// How far a transfer is.
pub struct Metrics {
    pub phase: TransferPhase,
    pub progress: Magnitude,
    pub preparing: Magnitude,
    pub total: Option<u64>,
    pub done: Option<u64>,
    pub speed: Option<Reading>,
    pub payload_start: Option<Magnitude>,
    pub sample: Option<(Magnitude, u64)>,
    pub cli_line: Option<String>,
    pub file_progress: Option<(u64, u64)>,
    pub bar_file: Option<String>,
    pub bar_done: u64,
    pub bar_total: u64,
    pub completed: u64,
    pub last_frame_at: Option<Magnitude>,
    pub total_items: Option<u64>,
    pub done_estimate: u64,
    pub item_done: HashMap<u64, u64>,
    pub item_total: HashMap<u64, u64>,
    pub stream_base: u64,
    pub stream_done: Option<u64>,
    pub stream_total: Option<u64>,
    pub payload_complete: bool,
    pub had_transfer: bool,
}

pub open spec fn time_view(t: Option<Magnitude>) -> Option<nat> {
    match t {
        Some(x) => Some(x@),
        None => None,
    }
}

pub open spec fn sample_view(s: Option<(Magnitude, u64)>) -> Option<(nat, u64)> {
    match s {
        Some((t, n)) => Some((t@, n)),
        None => None,
    }
}

impl View for Metrics {
    type V = MetricsModel;

    open spec fn view(&self) -> MetricsModel {
        MetricsModel {
            phase: self.phase,
            progress: self.progress@,
            preparing: self.preparing@,
            total: self.total,
            done: self.done,
            speed: numerals::reading_view(self.speed),
            payload_start: time_view(self.payload_start),
            sample: sample_view(self.sample),
            cli_line: sendme::string_view(self.cli_line),
            file_progress: self.file_progress,
            bar_file: sendme::string_view(self.bar_file),
            bar_done: self.bar_done,
            bar_total: self.bar_total,
            completed: self.completed,
            last_frame_at: time_view(self.last_frame_at),
            total_items: self.total_items,
            done_estimate: self.done_estimate,
            item_done: self.item_done@,
            item_total: self.item_total@,
            stream_base: self.stream_base,
            stream_done: self.stream_done,
            stream_total: self.stream_total,
            payload_complete: self.payload_complete,
            had_transfer: self.had_transfer,
        }
    }
}

/// Nothing is known of a transfer yet.
pub open spec fn no_metrics() -> MetricsModel {
    MetricsModel {
        phase: TransferPhase::Preparing,
        progress: 0,
        preparing: 0,
        total: None,
        done: None,
        speed: None,
        payload_start: None,
        sample: None,
        cli_line: None,
        file_progress: None,
        bar_file: None,
        bar_done: 0,
        bar_total: 0,
        completed: 0,
        last_frame_at: None,
        total_items: None,
        done_estimate: 0,
        item_done: Map::empty(),
        item_total: Map::empty(),
        stream_base: 0,
        stream_done: None,
        stream_total: None,
        payload_complete: false,
        had_transfer: false,
    }
}

fn zero_or(n: Option<u64>) -> (r: u64)
    ensures
        r == or_zero(n),
{
    match n {
        Some(x) => x,
        None => 0,
    }
}

fn raise(known: Option<u64>, read: u64) -> (r: Option<u64>)
    ensures
        r == raised(known, read),
{
    match known {
        Some(k) => if k >= read {
            Some(k)
        } else {
            Some(read)
        },
        None => Some(read),
    }
}

fn lesser(a: u64, b: u64) -> (r: u64)
    ensures
        r == less_of(a, b),
{
    if a <= b {
        a
    } else {
        b
    }
}

fn greater(a: u64, b: u64) -> (r: u64)
    ensures
        r == more_of(a, b),
{
    if a >= b {
        a
    } else {
        b
    }
}

fn divide_single(a: u64, b: u64) -> (r: Magnitude)
    requires
        b > 0,
    ensures
        r@ == single_quotient(a, b),
{
    proof {
        binary64::lemma_whole_single_positive(b as nat);
    }
    Magnitude::single(a).over_single(&Magnitude::single(b))
}

fn part_by_files(files: u64, within: &Magnitude, total: u64) -> (r: Magnitude)
    requires
        total > 0,
    ensures
        r@ == files_part(files, within@, total),
{
    proof {
        binary64::lemma_whole_single_positive(total as nat);
    }
    Magnitude::single(files.saturating_sub(1)).plus_single(within).over_single(
        &Magnitude::single(total),
    ).capped()
}

fn bytes_in_part(part: &Magnitude, total: u64) -> (r: u64)
    ensures
        r == part_of(part@, total),
{
    lesser(part.times(&Magnitude::from_u64(total)).truncate(), total)
}

impl Metrics {
    pub fn new() -> (r: Metrics)
        ensures
            r@ == no_metrics(),
    {
        Metrics {
            phase: TransferPhase::Preparing,
            progress: Magnitude::zero(),
            preparing: Magnitude::zero(),
            total: None,
            done: None,
            speed: None,
            payload_start: None,
            sample: None,
            cli_line: None,
            file_progress: None,
            bar_file: None,
            bar_done: 0,
            bar_total: 0,
            completed: 0,
            last_frame_at: None,
            total_items: None,
            done_estimate: 0,
            item_done: HashMap::new(),
            item_total: HashMap::new(),
            stream_base: 0,
            stream_done: None,
            stream_total: None,
            payload_complete: false,
            had_transfer: false,
        }
    }

    /// The payload begins to move.
    pub fn begin(&mut self, now: Magnitude)
        ensures
            final(self)@ == begun(old(self)@, now@),
    {
        self.phase = TransferPhase::Transferring;
        if self.payload_start.is_none() {
            self.payload_start = Some(now);
        }
    }

    /// Takes the speed from the bytes that are done.
    pub fn update_derived_speed_from_done_bytes(&mut self, c: &Context)
        ensures
            final(self)@ == derived_speed(old(self)@, c@),
    {
        if c.tool == SelectedTool::Sendme && c.view == AppView::Receive {
            return;
        }
        let done: u64 = match self.done {
            Some(d) => d,
            None => {
                return;
            },
        };
        match self.sample {
            Some((t, before)) => {
                match c.now.minus(&t) {
                    Some(dt) => {
                        let least = Magnitude::ratio(3, 10);
                        if dt.reaches(&least) {
                            if done >= before {
                                proof {
                                    lemma_point_three_positive();
                                }
                                let rate = Magnitude::from_u64(done - before).over(&dt);
                                if !rate.is_below(1024) {
                                    self.speed = Some(
                                        Reading::Number { negative: false, size: rate },
                                    );
                                }
                            }
                            self.sample = Some((c.now, done));
                        }
                    },
                    None => {},
                }
            },
            None => {
                self.sample = Some((c.now, done));
            },
        }
    }

    fn fold_bar(&mut self, frame: &CrocBarFrame, now: Magnitude)
        ensures
            final(self)@ == bar_folded(old(self)@, frame@, now@),
    {
        let new_bar: bool = match &self.bar_file {
            Some(name) => !crate::text::same_str(name.as_str(), frame.file_name.as_str())
                || frame.done_bytes < self.bar_done,
            None => false,
        };
        if new_bar {
            self.completed = self.completed.saturating_add(greater(self.bar_total, self.bar_done));
        }
        self.bar_file = Some(crate::transfer::owned(frame.file_name.as_str()));
        self.bar_total = frame.total_bytes;
        self.bar_done = frame.done_bytes;
        self.last_frame_at = Some(now);
        match (frame.file_index, frame.file_count) {
            (Some(i), Some(n)) => {
                if n > 0 {
                    self.file_progress = Some((lesser(i, n), n));
                }
            },
            _ => {},
        }
        if self.total.is_none() {
            self.total = Some(frame.total_bytes);
        }
        if self.phase != TransferPhase::Transferring {
            self.preparing = Magnitude::unit();
            self.begin(now);
        }
    }

    fn bar_part(&self, frame: &CrocBarFrame) -> (r: Magnitude)
        ensures
            r@ == bar_progress(self@, frame@),
    {
        let total: u64 = zero_or(self.total);
        if total > 0 {
            return Magnitude::fraction_of(zero_or(self.done), total);
        }
        let whole: u64 = if frame.total_bytes == 0 {
            1
        } else {
            frame.total_bytes
        };
        match self.file_progress {
            Some((files, all)) => if all > 0 {
                let within = divide_single(frame.done_bytes, whole);
                part_by_files(files, &within, all)
            } else {
                self.progress
            },
            None => {
                let part = Magnitude::fraction_of(frame.done_bytes, whole);
                self.progress.max(&part)
            },
        }
    }

    /// Takes in a redraw of croc's progress bar. When croc goes on to the next
    /// file, the size of the one before is kept, so that what is done never
    /// starts over.
    pub fn apply_croc_bar_frame(&mut self, c: &Context, frame: CrocBarFrame)
        ensures
            final(self)@ == after_frame(old(self)@, c@, frame@),
    {
        proof {
            reveal(after_frame);
        }
        self.fold_bar(&frame, c.now);
        let done: u64 = lesser(
            self.completed.saturating_add(frame.done_bytes),
            zero_or(self.total),
        );
        if done >= zero_or(self.done) {
            self.done = Some(done);
        }
        self.progress = self.bar_part(&frame);
        match frame.speed_bps {
            Some(v) => {
                if v.is_above_zero() {
                    self.speed = Some(v);
                    self.sample = Some((c.now, zero_or(self.done)));
                    return;
                }
            },
            None => {},
        }
        self.update_derived_speed_from_done_bytes(c);
    }

    fn take_hints(&mut self, c: &Context, f: &LineFacts, direction: bool)
        ensures
            final(self)@ == with_hints(old(self)@, c@, f@, direction),
    {
        proof {
            reveal(with_hints);
        }
        let sendme_like: bool = c.is_sendme_like();
        let is_croc: bool = c.tool == SelectedTool::Croc;
        let raw: bool = sendme_like && c.view == AppView::Receive && f.r_counter.is_some();
        let request: bool = sendme_like && c.view == AppView::Send && f.request_line;
        if (f.cli_progress || raw || request) && !(is_croc && f.file_counter.is_some()) {
            self.cli_line = Some(crate::transfer::owned(f.compact.as_str()));
        }
        if is_croc && self.phase != TransferPhase::Transferring && direction {
            self.preparing = Magnitude::unit();
            self.begin(c.now);
        }
        match f.stage {
            Some((cur, all)) => {
                if self.phase == TransferPhase::Preparing && all > 0 {
                    let p = divide_single(cur as u64, all as u64);
                    self.preparing = self.preparing.max(&p);
                }
            },
            None => {},
        }
        match f.croc_total {
            Some(t) => {
                if is_croc {
                    self.total = raise(self.total, t);
                }
            },
            None => {},
        }
        if sendme_like {
            match f.imported {
                Some(t) => {
                    self.total = raise(self.total, t);
                },
                None => {},
            }
            match f.total_files {
                Some(n) => {
                    self.total_items = raise(self.total_items, n);
                },
                None => {},
            }
        }
    }
}

impl Metrics {
    fn take_counter(&mut self, c: &Context, done: u64, total: u64)
        requires
            total > 0,
        ensures
            final(self)@ == after_counter(old(self)@, c@, done, total),
    {
        self.total = raise(self.total, total);
        let before: u64 = zero_or(self.done);
        let next: u64 = lesser(greater(done, before), total);
        if next > before {
            self.done = Some(next);
            self.update_derived_speed_from_done_bytes(c);
        }
        self.progress = Magnitude::fraction_of(next, total);
        if self.phase != TransferPhase::Transferring {
            self.begin(c.now);
        }
    }

    fn take_item(&mut self, index: u64, done: u64, total: u64)
        ensures
            final(self)@ == after_item(old(self)@, index, done, total),
    {
        let key: u64 = index.saturating_sub(1);
        let part: u64 = lesser(done, total);
        let before: u64 = match self.item_done.get(&key) {
            Some(n) => *n,
            None => 0,
        };
        let old_total: u64 = match self.item_total.get(&key) {
            Some(n) => *n,
            None => total,
        };
        if part >= before {
            self.done_estimate = self.done_estimate.saturating_add(part - before);
        } else if total != old_total {
            self.done_estimate = self.done_estimate.saturating_sub(before).saturating_add(
                greater(old_total, before),
            ).saturating_add(part);
        }
        self.item_done.insert(key, part);
        self.item_total.insert(key, total);
    }

    fn take_stream(&mut self, done: u64, total: u64)
        ensures
            final(self)@ == after_stream(old(self)@, done, total),
    {
        let part: u64 = lesser(done, total);
        match (self.stream_done, self.stream_total) {
            (Some(d), Some(t)) => {
                if part < d {
                    self.stream_base = self.stream_base.saturating_add(t);
                }
            },
            _ => {},
        }
        self.stream_done = Some(part);
        self.stream_total = Some(total);
    }

    fn take_estimates(&mut self, c: &Context, payload: Option<(u64, u64)>)
        ensures
            final(self)@ == after_estimates(old(self)@, c@, payload),
    {
        match self.total {
            Some(total) => {
                if total > 0 {
                    let stream: u64 = match (self.stream_done, self.stream_total) {
                        (Some(d), Some(t)) => if t > 0 {
                            self.stream_base.saturating_add(lesser(d, t))
                        } else {
                            self.stream_base
                        },
                        _ => self.stream_base,
                    };
                    let estimate: u64 = lesser(greater(self.done_estimate, stream), total);
                    if estimate > zero_or(self.done) {
                        self.done = Some(estimate);
                        self.progress = Magnitude::fraction_of(estimate, total);
                        self.update_derived_speed_from_done_bytes(c);
                    }
                    match payload {
                        Some((d, t)) => {
                            self.payload_complete = estimate >= total && t > 0 && lesser(d, t)
                                >= t;
                        },
                        None => {},
                    }
                }
            },
            None => {},
        }
    }

    fn take_sender_line(&mut self, c: &Context, f: &LineFacts)
        ensures
            final(self)@ == after_sender_line(old(self)@, c@, f@),
    {
        match (f.payload, f.item_index) {
            (Some((d, t)), Some(index)) => {
                if t > 0 {
                    self.take_item(index, d, t);
                }
            },
            (Some((d, t)), None) => {
                if t > 0 && f.has_marks {
                    self.take_stream(d, t);
                }
            },
            _ => {},
        }
        self.take_estimates(c, f.payload);
    }

    fn take_sendme_counters(&mut self, c: &Context, f: &LineFacts)
        ensures
            final(self)@ == with_sendme_counters(old(self)@, c@, f@),
    {
        proof {
            reveal(with_sendme_counters);
        }
        if !c.is_sendme_like() {
            return;
        }
        if c.view == AppView::Receive {
            match f.r_counter {
                Some((d, t)) => {
                    if t > 0 {
                        self.take_counter(c, d, t);
                    }
                },
                None => {},
            }
        }
        if c.view == AppView::Send && !f.request_line {
            self.take_sender_line(c, f);
        }
    }

    fn file_counter(&self, c: &Context, f: &LineFacts) -> (r: Option<(u64, u64)>)
        ensures
            r == used_file_counter(self@, c@, f@),
    {
        if c.tool == SelectedTool::Croc && self.phase == TransferPhase::Transferring {
            f.file_counter
        } else {
            None
        }
    }

    fn take_file_counter(&mut self, c: &Context, f: &LineFacts)
        ensures
            final(self)@ == with_file_counter(old(self)@, c@, f@),
    {
        proof {
            reveal(with_file_counter);
        }
        match self.file_counter(c, f) {
            Some((files, all)) => {
                if all > 0 {
                    self.file_progress = Some((files, all));
                    if self.bar_file.is_none() {
                        let mut part = divide_single(files, all);
                        match f.payload {
                            Some((d, t)) => {
                                if t > 0 {
                                    let within = Magnitude::fraction_of(d, t);
                                    part = part_by_files(files, &within, all);
                                }
                            },
                            None => {},
                        }
                        self.progress = part;
                        match self.total {
                            Some(t) => {
                                if t > 0 {
                                    self.done = Some(bytes_in_part(&part, t));
                                }
                            },
                            None => {},
                        }
                    }
                }
            },
            None => {},
        }
    }

    fn take_payload(&mut self, c: &Context, done: u64, total: u64)
        ensures
            final(self)@ == after_payload(old(self)@, c@, done, total),
    {
        let sending: bool = c.tool == SelectedTool::Sendme && c.view == AppView::Send;
        if self.phase != TransferPhase::Transferring {
            if sending && done == 0 {
                self.begin(c.now);
            } else {
                self.phase = TransferPhase::Transferring;
                self.payload_start = Some(c.now);
                self.preparing = Magnitude::unit();
            }
        }
        let next_done: u64 = if sending {
            done
        } else {
            greater(done, zero_or(self.done))
        };
        let next_total: u64 = greater(greater(total, zero_or(self.total)), next_done);
        self.done = Some(next_done);
        self.total = Some(next_total);
        if next_total > 0 {
            self.progress = Magnitude::fraction_of(next_done, next_total);
        }
        self.update_derived_speed_from_done_bytes(c);
    }

    fn take_amounts(&mut self, c: &Context, f: &LineFacts) -> (more: bool)
        ensures
            (final(self)@, more) == with_payload(old(self)@, c@, f@),
    {
        proof {
            reveal(with_payload);
        }
        if f.exporting || self.file_counter(c, f).is_some() {
            return true;
        }
        let sendme_like: bool = c.is_sendme_like();
        let counted: Option<(u64, u64)> = match f.r_counter {
            Some((d, t)) => if t != 0 && d <= t {
                Some((d, t))
            } else {
                None
            },
            None => None,
        };
        let payload: Option<(u64, u64)> = if sendme_like && c.view == AppView::Receive
            && counted.is_some() {
            counted
        } else {
            f.payload
        };
        match payload {
            None => true,
            Some((done, total)) => {
                if c.tool == SelectedTool::Croc {
                    return false;
                }
                let allowed: bool = if !sendme_like {
                    true
                } else if c.view == AppView::Send {
                    f.download || f.upload || f.sending || f.transferring
                } else if c.view == AppView::Receive {
                    f.downloading || f.uploading || f.third_stage || f.fourth_stage
                        || counted.is_some()
                } else {
                    true
                };
                if !allowed {
                    return false;
                }
                if c.tool == SelectedTool::Sendme && c.view == AppView::Send && self.phase
                    != TransferPhase::Transferring && done == 0 && !(f.third_stage
                    || f.fourth_stage || (f.downloading && c.peer_connected)) {
                    return false;
                }
                self.take_payload(c, done, total);
                true
            },
        }
    }

    fn take_rest(&mut self, c: &Context, f: &LineFacts)
        ensures
            final(self)@ == with_rest(old(self)@, c@, f@),
    {
        proof {
            reveal(with_rest);
        }
        match f.total_hint {
            Some(t) => {
                if self.total.is_none() && self.phase == TransferPhase::Preparing && c.tool
                    == SelectedTool::Croc {
                    self.total = Some(t);
                }
            },
            None => {},
        }
        match f.speed {
            Some(v) => {
                if self.phase == TransferPhase::Transferring && !(c.tool == SelectedTool::Sendme
                    && c.view == AppView::Receive && !f.downloading) && !v.is_below(1024) {
                    self.speed = Some(v);
                }
            },
            None => {},
        }
        if c.is_sendme_like() && c.view == AppView::Send && zero_or(self.done) > 0 {
            self.had_transfer = true;
        }
    }

    /// Takes in a line by what it tells; `direction` is whether it is one of
    /// croc's direction lines.
    pub fn update(&mut self, c: &Context, f: LineFacts, direction: bool)
        ensures
            final(self)@ == after_line(old(self)@, c@, f@, direction),
    {
        if c.tool == SelectedTool::EazySendme && c.view == AppView::Receive && !c.ticket_known {
            return;
        }
        let ghost told = f@;
        let mut f = f;
        if c.tool == SelectedTool::Croc {
            match f.frame {
                Some(frame) => {
                    self.apply_croc_bar_frame(c, frame);
                    return;
                },
                None => {
                    f.frame = None;
                },
            }
        }
        self.take_hints(c, &f, direction);
        self.take_sendme_counters(c, &f);
        self.take_file_counter(c, &f);
        if self.take_amounts(c, &f) {
            self.take_rest(c, &f);
        }
    }
}

proof fn lemma_point_three_positive()
    ensures
        point_three() > 0,
{
    vstd::arithmetic::power2::lemma_pow2_strictly_increases(10, 1074);
    vstd::arithmetic::power2::lemma2_to64();
    binary64::lemma_nearest_positive(3 * binary64::one(), 10, 53);
}

// ── Laws ──

/// Nothing is done beyond the total.
pub open spec fn is_sound(m: MetricsModel) -> bool {
    m.done matches Some(d) ==> m.total matches Some(t) && d <= t
}

proof fn lemma_hints(m: MetricsModel, c: ContextModel, f: FactsModel, direction: bool)
    ensures
        with_hints(m, c, f, direction).done == m.done,
        or_zero(with_hints(m, c, f, direction).total) >= or_zero(m.total),
        m.total is Some ==> with_hints(m, c, f, direction).total is Some,
        m.phase == TransferPhase::Transferring ==> with_hints(m, c, f, direction).phase == m.phase,
{
    reveal(with_hints);
}

proof fn lemma_sender_line(m: MetricsModel, c: ContextModel, f: FactsModel)
    ensures
        is_sound(m) ==> is_sound(after_sender_line(m, c, f)),
        after_sender_line(m, c, f).total == m.total,
        after_sender_line(m, c, f).phase == m.phase,
{
}

proof fn lemma_sendme_counters(m: MetricsModel, c: ContextModel, f: FactsModel)
    ensures
        is_sound(m) ==> is_sound(with_sendme_counters(m, c, f)),
        or_zero(with_sendme_counters(m, c, f).total) >= or_zero(m.total),
        m.total is Some ==> with_sendme_counters(m, c, f).total is Some,
        c.view == AppView::Receive ==> or_zero(with_sendme_counters(m, c, f).done) >= or_zero(
            m.done,
        ),
        m.phase == TransferPhase::Transferring ==> with_sendme_counters(m, c, f).phase == m.phase,
{
    reveal(with_sendme_counters);
    let a = match f.r_counter {
        Some((d, t)) if c.view == AppView::Receive && t > 0 => after_counter(m, c, d, t),
        _ => m,
    };
    lemma_sender_line(a, c, f);
}

proof fn lemma_file_counter(m: MetricsModel, c: ContextModel, f: FactsModel)
    ensures
        is_sound(m) ==> is_sound(with_file_counter(m, c, f)),
        with_file_counter(m, c, f).total == m.total,
        !c.croc() ==> with_file_counter(m, c, f) == m,
        with_file_counter(m, c, f).phase == m.phase,
{
    reveal(with_file_counter);
}

proof fn lemma_payload(m: MetricsModel, c: ContextModel, f: FactsModel)
    ensures
        is_sound(m) ==> is_sound(with_payload(m, c, f).0),
        or_zero(with_payload(m, c, f).0.total) >= or_zero(m.total),
        m.total is Some ==> with_payload(m, c, f).0.total is Some,
        c.view == AppView::Receive ==> or_zero(with_payload(m, c, f).0.done) >= or_zero(m.done),
        m.phase == TransferPhase::Transferring ==> with_payload(m, c, f).0.phase == m.phase,
{
    reveal(with_payload);
}

proof fn lemma_rest(m: MetricsModel, c: ContextModel, f: FactsModel)
    ensures
        is_sound(m) ==> is_sound(with_rest(m, c, f)),
        with_rest(m, c, f).done == m.done,
        or_zero(with_rest(m, c, f).total) >= or_zero(m.total),
        m.total is Some ==> with_rest(m, c, f).total is Some,
        with_rest(m, c, f).phase == m.phase,
{
    reveal(with_rest);
}

proof fn lemma_frame(m: MetricsModel, c: ContextModel, frame: BarModel)
    ensures
        is_sound(m) ==> is_sound(after_frame(m, c, frame)),
        or_zero(after_frame(m, c, frame).total) >= or_zero(m.total),
        m.total is Some ==> after_frame(m, c, frame).total is Some,
        after_frame(m, c, frame).phase == TransferPhase::Transferring,
{
    reveal(after_frame);
}

proof fn lemma_line(m: MetricsModel, c: ContextModel, f: FactsModel, direction: bool)
    ensures
        is_sound(m) ==> is_sound(after_line(m, c, f, direction)),
        or_zero(after_line(m, c, f, direction).total) >= or_zero(m.total),
        m.total is Some ==> after_line(m, c, f, direction).total is Some,
        c.view == AppView::Receive && !c.croc() ==> or_zero(after_line(m, c, f, direction).done)
            >= or_zero(m.done),
        m.phase == TransferPhase::Transferring ==> after_line(m, c, f, direction).phase == m.phase,
{
    match f.frame {
        Some(frame) => {
            lemma_frame(m, c, frame);
        },
        None => {},
    }
    let a = with_hints(m, c, f, direction);
    lemma_hints(m, c, f, direction);
    let b = with_sendme_counters(a, c, f);
    lemma_sendme_counters(a, c, f);
    let d = with_file_counter(b, c, f);
    lemma_file_counter(b, c, f);
    lemma_payload(d, c, f);
    lemma_rest(with_payload(d, c, f).0, c, f);
}

/// No line takes what is done beyond the total.
pub proof fn law_done_stays_within_total(m: MetricsModel, c: ContextModel, f: FactsModel, direction: bool)
    requires
        is_sound(m),
    ensures
        is_sound(after_line(m, c, f, direction)),
{
    lemma_line(m, c, f, direction);
}

/// A total that is known never falls.
pub proof fn law_total_never_falls(m: MetricsModel, c: ContextModel, f: FactsModel, direction: bool)
    ensures
        or_zero(after_line(m, c, f, direction).total) >= or_zero(m.total),
        m.total is Some ==> after_line(m, c, f, direction).total is Some,
{
    lemma_line(m, c, f, direction);
}

/// What a receiver of sendme's has done never falls.
pub proof fn law_receive_progress_is_monotonic(
    m: MetricsModel,
    c: ContextModel,
    f: FactsModel,
    direction: bool,
)
    requires
        c.tool != SelectedTool::Croc,
        c.view == AppView::Receive,
    ensures
        or_zero(after_line(m, c, f, direction).done) >= or_zero(m.done),
{
    lemma_line(m, c, f, direction);
}

/// croc's bars add up: what is done never falls when a file's bar starts over or
/// another file's begins.
pub proof fn law_bars_never_start_over(m: MetricsModel, c: ContextModel, frame: BarModel)
    ensures
        or_zero(after_frame(m, c, frame).done) >= or_zero(m.done),
        after_frame(m, c, frame).completed >= m.completed,
{
    reveal(after_frame);
}

/// When another file's bar begins, all bytes of the one before are kept.
pub proof fn law_finished_bar_is_kept(m: MetricsModel, c: ContextModel, frame: BarModel)
    requires
        is_new_bar(m, frame),
        m.completed + more_of(m.bar_total, m.bar_done) <= u64::MAX,
    ensures
        after_frame(m, c, frame).completed == m.completed + more_of(m.bar_total, m.bar_done),
{
    reveal(after_frame);
}

/// A payload that moves goes on moving: no line leads back to a phase before.
pub proof fn law_transferring_stays(m: MetricsModel, c: ContextModel, f: FactsModel, direction: bool)
    requires
        m.phase == TransferPhase::Transferring,
    ensures
        after_line(m, c, f, direction).phase == TransferPhase::Transferring,
{
    lemma_line(m, c, f, direction);
}

// ── What the lines come to ──

pub open spec fn max_of(a: u64, b: u64) -> u64 {
    if a < b {
        b
    } else {
        a
    }
}

/// A counter of a receiving sendme is what the receiver has done, unless more was done
/// before; the part that is shown is that of the total; and the payload moves. Nothing
/// is ever shown as done that neither the counter says nor was done before.
pub proof fn law_counters_are_what_a_receiver_has_done(
    m: MetricsModel,
    c: ContextModel,
    f: FactsModel,
    direction: bool,
    d: u64,
    t: u64,
)
    requires
        c.view == AppView::Receive,
        c.tool == SelectedTool::Sendme || (c.tool == SelectedTool::EazySendme && c.ticket_known),
        f.r_counter == Some((d, t)),
        0 < t,
        d <= t,
        f.imported is None,
    ensures
        ({
            let a = after_line(m, c, f, direction);
            let before = or_zero(m.done);
            &&& or_zero(a.done) <= max_of(d, before)
            &&& a.phase == TransferPhase::Transferring
            &&& a.total == Some(max_of(t, or_zero(a.total)))
            &&& !f.exporting && before <= t ==> {
                &&& a.done == Some(max_of(d, before))
                &&& a.total == Some(max_of(t, or_zero(m.total)))
                &&& a.progress == binary64::fraction(
                    max_of(d, before) as nat,
                    max_of(t, or_zero(m.total)) as nat,
                )
            }
        }),
{
    reveal(with_hints);
    reveal(with_sendme_counters);
    reveal(with_file_counter);
    reveal(with_payload);
    reveal(with_rest);
    let h = with_hints(m, c, f, direction);
    assert(h.done == m.done && h.total == m.total);
    let k = with_sendme_counters(h, c, f);
    assert(k == after_counter(h, c, d, t));
    assert(with_file_counter(k, c, f) == k);
    if !f.exporting {
        assert(used_payload(k, c, f) == Some((d, t)));
    }
}

/// A redraw of croc's bar says how much of its file is done; what is done in all is
/// that, on top of the files before. The first bar counts from nothing, another redraw
/// of the same bar adds nothing to the files before, and a new bar adds the whole file
/// before it. The part that is shown is that of the total, where there is one.
pub proof fn law_bars_say_what_croc_has_done(m: MetricsModel, c: ContextModel, frame: BarModel)
    requires
        m.completed + m.bar_total + m.bar_done + frame.done_bytes <= u64::MAX,
        m.bar_done <= m.bar_total,
    ensures
        ({
            let a = after_frame(m, c, frame);
            let before = match m.bar_file {
                Some(name) if name != frame.file_name || frame.done_bytes < m.bar_done => (
                m.completed + m.bar_total) as u64,
                _ => m.completed,
            };
            let all = (before + frame.done_bytes) as u64;
            let total = match m.total {
                Some(t) => t,
                None => frame.total_bytes,
            };
            &&& a.total == Some(total)
            &&& a.bar_file == Some(frame.file_name)
            &&& a.bar_done == frame.done_bytes
            &&& a.bar_total == frame.total_bytes
            &&& a.completed == before
            &&& a.phase == TransferPhase::Transferring
            &&& all <= total ==> or_zero(a.done) == max_of(all, or_zero(m.done))
            &&& all > total ==> or_zero(a.done) == max_of(total, or_zero(m.done))
            &&& total > 0 ==> a.progress == binary64::fraction(
                or_zero(a.done) as nat,
                total as nat,
            )
            &&& (frame.speed_bps matches Some(v) && v.above_zero()) ==> a.speed == frame.speed_bps
        }),
{
    reveal(after_frame);
}

/// Amounts on a line of a sendme transfer are what its receiver has done and what there
/// is, unless more was known before.
pub proof fn law_amounts_are_taken_over(
    m: MetricsModel,
    c: ContextModel,
    f: FactsModel,
    direction: bool,
    d: u64,
    t: u64,
)
    requires
        c.tool == SelectedTool::Sendme || (c.tool == SelectedTool::EazySendme && c.ticket_known),
        c.view == AppView::Receive,
        f.payload == Some((d, t)),
        f.r_counter is None,
        f.imported is None,
        f.downloading || f.uploading,
        !f.exporting,
    ensures
        ({
            let a = after_line(m, c, f, direction);
            &&& a.done == Some(max_of(d, or_zero(m.done)))
            &&& a.total == Some(max_of(max_of(t, or_zero(m.total)), max_of(d, or_zero(m.done))))
            &&& or_zero(a.total) > 0 ==> a.progress == binary64::fraction(
                or_zero(a.done) as nat,
                or_zero(a.total) as nat,
            )
            &&& a.phase == TransferPhase::Transferring
        }),
{
    reveal(with_hints);
    reveal(with_sendme_counters);
    reveal(with_file_counter);
    reveal(with_payload);
    reveal(with_rest);
}

/// Of a sender of sendme's, the amounts on a line of the transfer are what is done, and
/// show that something was sent.
pub proof fn law_senders_amounts_are_taken_over(
    m: MetricsModel,
    c: ContextModel,
    f: FactsModel,
    direction: bool,
    d: u64,
    t: u64,
)
    requires
        c.tool == SelectedTool::Sendme,
        c.view == AppView::Send,
        f.payload == Some((d, t)),
        f.imported is None,
        f.request_line,
        f.downloading || f.uploading || f.sending || f.transferring,
        f.uploading ==> f.upload,
        f.downloading ==> f.download,
        !f.exporting,
        0 < d <= t,
    ensures
        ({
            let a = after_line(m, c, f, direction);
            &&& a.done == Some(d)
            &&& a.total == Some(max_of(t, or_zero(m.total)))
            &&& a.progress == binary64::fraction(d as nat, or_zero(a.total) as nat)
            &&& a.phase == TransferPhase::Transferring
            &&& a.had_transfer
        }),
{
    reveal(with_hints);
    reveal(with_sendme_counters);
    reveal(with_file_counter);
    reveal(with_payload);
    reveal(with_rest);
}

/// A line of croc's other than a bar never changes how many bytes are done while no
/// file is counted.
pub proof fn law_only_bars_and_counters_move_croc(
    m: MetricsModel,
    c: ContextModel,
    f: FactsModel,
    direction: bool,
)
    requires
        c.tool == SelectedTool::Croc,
        f.frame is None,
        f.file_counter is None,
    ensures
        after_line(m, c, f, direction).done == m.done,
        after_line(m, c, f, direction).progress == m.progress,
        after_line(m, c, f, direction).completed == m.completed,
{
    reveal(with_hints);
    reveal(with_sendme_counters);
    reveal(with_file_counter);
    reveal(with_payload);
    reveal(with_rest);
}

/// croc's counter of files is the part that is done while it sends and draws no bar.
pub proof fn law_counted_files_are_the_part_done(
    m: MetricsModel,
    c: ContextModel,
    f: FactsModel,
    direction: bool,
    files: u64,
    all: u64,
)
    requires
        c.tool == SelectedTool::Croc,
        f.frame is None,
        f.file_counter == Some((files, all)),
        0 < all,
        f.payload is None,
        m.phase == TransferPhase::Transferring,
        m.bar_file is None,
    ensures
        ({
            let a = after_line(m, c, f, direction);
            &&& a.file_progress == Some((files, all))
            &&& a.progress == single_quotient(files, all)
        }),
{
    reveal(with_hints);
    reveal(with_sendme_counters);
    reveal(with_file_counter);
    reveal(with_payload);
    reveal(with_rest);
}

/// The speed is the bytes that were done since they were last counted, over the
/// seconds since then. It is counted anew only after 0.3 seconds.
pub proof fn law_speed_is_bytes_over_seconds(
    m: MetricsModel,
    c: ContextModel,
    then: nat,
    before: u64,
    rate: nat,
    secs: nat,
)
    requires
        !(c.tool == SelectedTool::Sendme && c.view == AppView::Receive),
        m.sample == Some((then, before)),
        c.now == then + binary64::whole(secs),
        1 <= secs,
        1024 <= rate,
        rate + secs < 0x20_0000_0000_0000,
        rate * secs < 0x20_0000_0000_0000,
        m.done == Some((before + rate * secs) as u64),
        before + rate * secs <= u64::MAX,
    ensures
        derived_speed(m, c).speed == Some(
            Real::Number { negative: false, units: binary64::whole(rate) },
        ),
        derived_speed(m, c).sample == Some((c.now, (before + rate * secs) as u64)),
{
    assert(secs <= rate * secs) by (nonlinear_arith)
        requires
            1 <= rate,
            1 <= secs,
    ;
    binary64::law_whole_numbers_are_computed_exactly(rate, secs);
    binary64::law_whole_numbers_are_computed_exactly(secs, 0);
    binary64::law_whole_is_exact(secs);
    binary64::law_whole_is_exact(rate);
    binary64::law_whole_is_exact(0);
    assert(seconds_since(c.now, then) == binary64::sum(
        binary64::whole(secs),
        binary64::whole(0),
    ));
    binary64::lemma_nearest_grows(3 * binary64::one(), 10 * binary64::one(), 10, 53);
    binary64::law_whole_is_exact(1);
    assert(10 * binary64::one() == 1 * pow2(1074) * 10);
    lemma_one_of_ten();
    binary64::lemma_whole_grows(1, secs);
    assert(rate * binary64::one() >= 1024 * binary64::one()) by (nonlinear_arith)
        requires
            rate >= 1024,
    ;
}

proof fn lemma_one_of_ten()
    ensures
        binary64::nearest(10 * binary64::one(), 10) == binary64::one(),
{
    vstd::arithmetic::power2::lemma2_to64_rest();
    vstd::arithmetic::power2::lemma_pow2_strictly_increases(1074, 2098);
    assert(1 * pow2(1074) * 10 == 10 * binary64::one()) by (nonlinear_arith)
        requires
            binary64::one() == pow2(1074),
    ;
    binary64::law_nearest_keeps_what_fits(1, 1074, 10, 53);
}

/// Before 0.3 seconds have passed the speed stays, and so does the count; and a
/// receiving sendme's own speed is never replaced.
pub proof fn law_speed_is_not_counted_too_often(m: MetricsModel, c: ContextModel, then: nat, before: u64)
    requires
        m.sample == Some((then, before)),
        c.now < then || seconds_since(c.now, then) < binary64::nearest(3 * binary64::one(), 10) || (
        c.tool == SelectedTool::Sendme && c.view == AppView::Receive),
    ensures
        derived_speed(m, c) == m,
{
}

/// The items of a sender add up: an item that was not seen before adds what is done of
/// it, one that goes on adds what is new.
pub proof fn law_items_add_up(m: MetricsModel, index: u64, done: u64, total: u64)
    requires
        0 < index,
        done <= total,
        m.done_estimate + done <= u64::MAX,
        m.item_done.contains_key((index - 1) as u64) ==> m.item_done[(index - 1) as u64] <= done,
    ensures
        ({
            let a = after_item(m, index, done, total);
            let before = if m.item_done.contains_key((index - 1) as u64) {
                m.item_done[(index - 1) as u64]
            } else {
                0
            };
            &&& a.done_estimate == m.done_estimate + done - before
            &&& a.item_done[(index - 1) as u64] == done
            &&& forall|k: u64|
                k != index - 1 && m.item_done.contains_key(k) ==> a.item_done.contains_key(k)
                    && #[trigger] a.item_done[k] == m.item_done[k]
        }),
{
}

/// A stream that starts over adds the whole of the one before.
pub proof fn law_streams_add_up(m: MetricsModel, done: u64, total: u64)
    requires
        0 < total,
        done <= total,
        m.stream_total matches Some(t) ==> m.stream_base + t + total <= u64::MAX,
        m.stream_base + total <= u64::MAX,
    ensures
        ({
            let a = after_stream(m, done, total);
            &&& (m.stream_done matches Some(d) && m.stream_total matches Some(t) && done < d)
                ==> streamed(a) == m.stream_base + m.stream_total->0 + done
            &&& (m.stream_done matches Some(d) ==> d <= done) ==> streamed(a) == m.stream_base
                + done
        }),
{
}

} // verus!
