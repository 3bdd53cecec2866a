//! What the messages of a transfer leave behind, step by step.

use crate::binary64;
use crate::croc::BarModel;
use crate::facts;
use crate::facts::FactsModel;
use crate::metrics;
use crate::metrics::MetricsModel;
use crate::numerals::Real;
use crate::session;
use crate::session::{EffectModel, EnvironmentModel, Flow, SessionModel, Severity};
use crate::state::{AppView, ContextModel, SelectedTool, TransferPhase};
use crate::text;
use crate::transfer::MsgModel;
use vstd::prelude::*;

verus! {

// ── Peers ──

/// A peer of the combined mode that has finished leaves nothing of the transfer behind:
/// the next peer is waited for, with no amount known.
pub proof fn law_finished_peers_leave_nothing(s: SessionModel, env: EnvironmentModel)
    requires
        s.tool == SelectedTool::EazySendme,
        s.view == AppView::Send,
        !s.serve.one_shot,
        s.state is Running,
    ensures
        ({
            let (t, fx, flow) = session::on_message(s, MsgModel::PeerDisconnected, env);
            &&& flow == Flow::Continue
            &&& fx == seq![
                EffectModel::Toast {
                    message: "Peer finished downloading"@,
                    severity: Severity::Success,
                },
            ]
            &&& t.state is Running
            &&& t.metrics.phase == TransferPhase::EazyWaitingForPeer
            &&& t.metrics.progress == 0
            &&& t.metrics.preparing == 0
            &&& t.metrics.payload_start is None
            &&& t.metrics.done is None
            &&& t.metrics.total is None
            &&& !t.metrics.had_transfer
            &&& !t.serve.waiting_after_cycle
            &&& t.serve.active_transfers == 0
            &&& t.eazy == s.eazy
            &&& t.code == s.code
        }),
{
    reveal(session::on_peer_disconnected);
    let e = EffectModel::Toast {
        message: "Peer finished downloading"@,
        severity: Severity::Success,
    };
    assert(Seq::<EffectModel>::empty().push(e) =~= seq![e]);
}

/// Data that flows means one receiver where none was known, and no other number where one
/// was; a sender that is done with a cycle and knows of nobody ignores it.
pub proof fn law_flowing_data_means_a_receiver(s: SessionModel, env: EnvironmentModel)
    requires
        session::is_serving(s),
    ensures
        ({
            let t = session::on_message(s, MsgModel::SenderTransferActivity, env).0;
            &&& !session::is_late(s) && s.serve.active_transfers == 0
                ==> t.serve.active_transfers == 1
            &&& !session::is_late(s) && s.serve.active_transfers > 0 ==> t.serve.active_transfers
                == s.serve.active_transfers
            &&& s.serve.waiting_after_cycle && !s.serve.peer_connected ==> t == s
            &&& t.state == s.state && t.code == s.code && t.log == s.log
            &&& t.metrics.total == s.metrics.total && t.metrics.done == s.metrics.done
        }),
{
    reveal(session::on_activity);
}

/// What shows that data flows begins the payload of a sender, unless the last cycle is
/// over and nobody has come since.
pub proof fn law_counted_requests_begin_the_payload(s: SessionModel, f: FactsModel, k: u64, n: u64)
    requires
        s.view == AppView::Send,
    ensures
        ({
            let g = FactsModel { r_counter: Some((k, n)), ..f };
            let t = session::with_flow(s, g);
            if s.serve.waiting_after_cycle && !s.serve.peer_connected {
                t == s
            } else {
                &&& t.metrics.phase == TransferPhase::Transferring
                &&& t.metrics.had_transfer
                &&& !t.serve.waiting_after_cycle
                &&& t.serve.last_activity == Some(s.now)
                &&& t.state == s.state
            }
        }),
        ({
            let g = FactsModel {
                r_counter: None,
                third_stage: true,
                downloading: true,
                ..f
            };
            !s.serve.waiting_after_cycle ==> session::with_flow(s, g).metrics.had_transfer
        }),
        ({
            let g = FactsModel { r_counter: None, uploading: false, downloading: false, ..f };
            session::with_flow(s, g) == s
        }),
{
}

// ── The handover ──

/// Receiving begins with the ticket: the time runs from then on, and the ticket is
/// remembered with the time of the day.
pub proof fn law_the_handover_begins_the_time(
    s: SessionModel,
    ticket: Seq<char>,
    env: EnvironmentModel,
)
    requires
        s.tool == SelectedTool::EazySendme,
        s.view == AppView::Receive,
        s.eazy.ticket is None,
        s.texts.received == Some(ticket),
        session::entry_at(s.cache, text::trim(s.receive_code), 0) is None,
        text::trim(s.receive_code).len() > 0,
    ensures
        ({
            let (t, fx, flow) = session::on_message(s, MsgModel::Completed, env);
            &&& flow == Flow::Handover
            &&& t.start_time == Some(s.now)
            &&& t.metrics.phase == TransferPhase::Preparing
            &&& t.cache.len() == s.cache.len() + 1
            &&& t.cache.last().timestamp == env.unix_secs
            &&& t.cache.last().code == text::trim(s.receive_code)
            &&& t.cache.last().ticket == t.eazy.ticket->0
            &&& fx.len() == 2 && fx[0] == EffectModel::Persist
            &&& t.log == s.log.push("Ticket received via Croc. Starting Sendme..."@)
        }),
{
    reveal(session::on_completed);
}

// ── The log ──

/// A line is always the last of the log. Nothing is lost before there are more than five
/// hundred lines; then the hundred oldest are.
pub proof fn law_the_log_keeps_what_is_new(s: SessionModel, line: Seq<char>)
    requires
        s.log.len() <= 500,
    ensures
        ({
            let t = session::with_bounded_log(s, line);
            &&& t.log.len() > 0 && t.log.last() == line
            &&& s.log.len() < 500 ==> t.log == s.log.push(line)
            &&& s.log.len() == 500 ==> t.log.len() == 401 && forall|i: int|
                0 <= i < 400 ==> #[trigger] t.log[i] == s.log[i + 100]
            &&& t == (SessionModel { log: t.log, ..s })
        }),
{
}

/// A line that only redraws how far a transfer is goes to no log; croc's lines are logged
/// once where they come twice in a row, those of the others each time.
pub proof fn law_redraws_are_not_logged(
    s: SessionModel,
    line: Seq<char>,
    lower: Seq<char>,
    f: FactsModel,
)
    requires
        s.log.len() < 500,
    ensures
        s.tool == SelectedTool::Croc && f.frame is Some ==> session::logged(
            s,
            line,
            lower,
            f,
            false,
        ) == s,
        s.tool == SelectedTool::Croc && "hashing "@.is_prefix_of(lower) && text::contains(
            line,
            "%"@,
        ) && text::contains(line, "|"@) ==> session::logged(s, line, lower, f, false) == s,
        s.tool == SelectedTool::Croc && f.frame is None && !text::contains(line, "|"@)
            ==> session::logged(s, line, lower, f, false).log == (if s.log.len() > 0
            && s.log.last() == line {
            s.log
        } else {
            s.log.push(line)
        }),
        s.tool != SelectedTool::Croc && (f.request_line || text::contains(
            lower,
            "downloading ..."@,
        ) || text::contains(lower, "uploading ..."@) || text::contains(lower, "writing... "@))
            ==> session::logged(s, line, lower, f, false) == s,
        s.tool != SelectedTool::Croc && "n "@.is_prefix_of(line) && text::contains(line, " r "@)
            ==> session::logged(s, line, lower, f, false) == s,
        session::logged(s, line, lower, f, true) == s,
{
}

/// While croc hands over a ticket its lines are logged with a mark, unless a text is taken
/// from them.
pub proof fn law_lines_of_the_handover_are_marked(s: SessionModel, line: Seq<char>)
    requires
        s.view == AppView::Send,
        s.log.len() < 500,
        crate::messages::text_in_line(line) is None,
    ensures
        ({
            let (t, fx) = session::on_share_message(s, MsgModel::Output(line));
            &&& t.log == s.log.push("[Croc] "@ + line)
            &&& t.state == s.state && t.code == s.code && t.metrics == s.metrics
            &&& fx.len() == 0
        }),
        ({
            let (t, fx) = session::on_share_message(s, MsgModel::Started);
            t == s && fx.len() == 0
        }),
{
}

// ── Ends ──

/// A send of croc's that ends without ever having had a code has failed.
pub proof fn law_sends_without_a_code_have_failed(s: SessionModel, env: EnvironmentModel)
    requires
        s.tool == SelectedTool::Croc,
        s.view == AppView::Send,
        s.code is None,
        !session::says_exists(
            text::lowercase("Croc send ended before starting. Check options and retry."@),
        ),
    ensures
        ({
            let (t, fx, flow) = session::on_message(s, MsgModel::Completed, env);
            &&& t.state == session::StateModel::Failed(
                "Croc send ended before starting. Check options and retry."@,
            )
            &&& t.end_time == Some(s.now)
            &&& fx == seq![EffectModel::CancelTransfer]
            &&& flow == Flow::Continue
        }),
{
    reveal(session::on_completed);
    reveal_strlit("Croc send ended before starting. Check options and retry.");
    reveal_strlit("Transfer cancelled");
    reveal_strlit("blobs-incomplete");
    reveal_strlit("conflict-detected");
    assert("Croc send ended before starting. Check options and retry."@.len() == 57);
    assert(Seq::<EffectModel>::empty().push(EffectModel::CancelTransfer) =~= seq![
        EffectModel::CancelTransfer,
    ]);
}

/// The marks of a line that sendme prints while it moves data are seen wherever they
/// stand in it.
pub proof fn law_marks_are_seen(line: Seq<char>, lower: Seq<char>)
    ensures
        ({
            let f = facts::facts(line, lower);
            &&& f.downloading == text::contains(lower, "downloading"@)
            &&& f.uploading == text::contains(lower, "uploading"@)
            &&& f.download == text::contains(lower, "download"@)
            &&& f.upload == text::contains(lower, "upload"@)
            &&& f.sending == text::contains(lower, "sending"@)
            &&& f.transferring == text::contains(lower, "transferring"@)
            &&& f.exporting == text::contains(lower, "exporting "@)
            &&& f.third_stage == text::contains(lower, "[3/4]"@)
            &&& f.fourth_stage == text::contains(lower, "[4/4]"@)
            &&& f.has_marks == (text::contains(line, " r "@) && text::contains(line, " # "@))
        }),
        session::says_receiving("[2/4] downloading"@),
        session::says_receiving("[3/4] downloading"@),
        session::says_receiving("[4/4] writing files to disk"@),
        session::says_receiving("[4/4] writing..."@),
        session::says_exporting("[local] blobs complete locally, exporting"@),
        session::says_exporting("[4/4] writing..."@),
{
    assert forall|w: Seq<char>| #[trigger] text::contains(w, w) by {
        assert(w.subrange(0, w.len() as int) =~= w);
        assert(text::stands_at(w, w, 0));
    }
}

// ── What lines tell of a transfer ──

/// The larger of a number that was known and one that is told.
pub open spec fn largest(known: Option<u64>, told: u64) -> Option<u64> {
    match known {
        Some(n) if n > told => Some(n),
        _ => Some(told),
    }
}

/// What a line announces of the whole is taken over where it belongs to the tool, unless
/// more is known: croc's summary for its bytes.
pub proof fn law_summaries_only_raise(m: MetricsModel, c: ContextModel, f: FactsModel, n: u64)
    requires
        f.croc_total == Some(n),
        f.imported is None,
    ensures
        metrics::with_hints(m, c, f, false).total == (if c.tool == SelectedTool::Croc {
            largest(m.total, n)
        } else {
            m.total
        }),
{
    reveal(metrics::with_hints);
}

/// What sendme imports raises what there is, in bytes and in files; for croc it says
/// nothing.
pub proof fn law_imports_only_raise(m: MetricsModel, c: ContextModel, f: FactsModel, n: u64)
    requires
        f.croc_total is None,
    ensures
        f.imported == Some(n) && c.tool == SelectedTool::Croc ==> metrics::with_hints(
            m,
            c,
            f,
            false,
        ).total == m.total,
        f.imported == Some(n) && c.tool == SelectedTool::Sendme ==> metrics::with_hints(
            m,
            c,
            f,
            false,
        ).total == largest(m.total, n),
        f.total_files == Some(n) && c.tool == SelectedTool::Sendme ==> metrics::with_hints(
            m,
            c,
            f,
            false,
        ).total_items == largest(m.total_items, n),
{
    reveal(metrics::with_hints);
}

/// How far the preparations are never goes back, and counts only while they go on.
pub proof fn law_preparations_only_grow(
    m: MetricsModel,
    c: ContextModel,
    f: FactsModel,
    k: u32,
    all: u32,
)
    requires
        0 < all,
        f.stage == Some((k, all)),
    ensures
        ({
            let t = metrics::with_hints(m, c, f, false);
            let part = metrics::single_quotient(k as u64, all as u64);
            &&& t.preparing >= m.preparing
            &&& m.phase == TransferPhase::Preparing ==> t.preparing >= part && (t.preparing == part
                || t.preparing == m.preparing)
            &&& m.phase != TransferPhase::Preparing ==> t.preparing == m.preparing
            &&& t.phase == m.phase
        }),
{
    reveal(metrics::with_hints);
}

/// The line that a tool draws its progress on is kept, cut down; croc's lines with a
/// counter of files are not.
pub proof fn law_progress_lines_are_kept(m: MetricsModel, c: ContextModel, f: FactsModel)
    ensures
        ({
            let t = metrics::with_hints(m, c, f, false);
            &&& f.cli_progress && c.tool == SelectedTool::Sendme ==> t.cli_line == Some(f.compact)
            &&& f.cli_progress && c.tool == SelectedTool::Croc && f.file_counter is None
                ==> t.cli_line == Some(f.compact)
            &&& c.tool == SelectedTool::Croc && f.file_counter is Some ==> t.cli_line == m.cli_line
            &&& c.tool == SelectedTool::Sendme && c.view == AppView::Receive && f.r_counter is Some
                ==> t.cli_line == Some(f.compact)
            &&& c.tool == SelectedTool::Sendme && c.view == AppView::Send && f.request_line
                ==> t.cli_line == Some(f.compact)
            &&& !f.cli_progress && !f.request_line && f.r_counter is None ==> t.cli_line
                == m.cli_line
        }),
{
    reveal(metrics::with_hints);
}

/// A speed that a line reports is taken over while the payload moves, from one kibibyte a
/// second on; a receiver takes it from lines about downloading alone. A size behind "in
/// total," counts for croc, while nothing is known.
pub proof fn law_reported_speeds_are_taken_over(
    m: MetricsModel,
    c: ContextModel,
    f: FactsModel,
    v: nat,
    n: u64,
)
    requires
        v < 0x20_0000_0000_0000,
    ensures
        ({
            let speed = Real::Number { negative: false, units: binary64::whole(v) };
            let t = metrics::with_rest(m, c, FactsModel { speed: Some(speed), ..f });
            if m.phase != TransferPhase::Transferring || v < 1024 || (c.tool
                == SelectedTool::Sendme && c.view == AppView::Receive && !f.downloading) {
                t.speed == m.speed
            } else {
                t.speed == Some(speed)
            }
        }),
        ({
            let t = metrics::with_rest(m, c, FactsModel { total_hint: Some(n), ..f });
            if c.tool == SelectedTool::Croc && m.total is None && m.phase
                == TransferPhase::Preparing {
                t.total == Some(n)
            } else {
                t.total == m.total
            }
        }),
        c.tool == SelectedTool::Sendme && c.view == AppView::Send ==> metrics::with_rest(
            m,
            c,
            f,
        ).had_transfer == (m.had_transfer || metrics::or_zero(m.done) > 0),
        c.view == AppView::Receive ==> metrics::with_rest(m, c, f).had_transfer == m.had_transfer,
{
    reveal(metrics::with_rest);
    binary64::law_whole_is_exact(v);
    let o = binary64::one();
    if v < 1024 {
        assert(v * o < 1024 * o) by (nonlinear_arith)
            requires
                v < 1024,
                o > 0,
        ;
    } else {
        assert(v * o >= 1024 * o) by (nonlinear_arith)
            requires
                v >= 1024,
        ;
    }
}

/// A sender's payload is complete where all bytes are estimated to be sent and the line
/// that says so is one of a finished stream.
pub proof fn law_complete_payloads_are_sent_whole(
    m: MetricsModel,
    c: ContextModel,
    d: u64,
    t: u64,
)
    requires
        m.total matches Some(total) && total > 0,
    ensures
        ({
            let total = m.total->0;
            let sent = if m.done_estimate > metrics::streamed(m) {
                m.done_estimate
            } else {
                metrics::streamed(m)
            };
            let a = metrics::after_estimates(m, c, Some((d, t)));
            &&& a.payload_complete == (sent >= total && t > 0 && d >= t)
            &&& sent > metrics::or_zero(m.done) && metrics::or_zero(m.done) < total ==> a.done
                == Some(
                if sent < total {
                    sent
                } else {
                    total
                },
            )
            &&& sent <= metrics::or_zero(m.done) ==> a.done == m.done
            &&& metrics::after_estimates(m, c, None).payload_complete == m.payload_complete
        }),
{
}

/// A sender of sendme's that has sent nothing goes on waiting until a line shows its third
/// or fourth stage, or a download of a peer that is there.
pub proof fn law_nothing_sent_is_still_waiting(m: MetricsModel, c: ContextModel, f: FactsModel, t: u64)
    requires
        c.tool == SelectedTool::Sendme,
        c.view == AppView::Send,
        m.phase == TransferPhase::WaitingForReceiver,
        f.payload == Some((0u64, t)),
        !f.exporting,
        f.download,
    ensures
        ({
            let begins = f.third_stage || f.fourth_stage || (f.downloading && c.peer_connected);
            let (a, more) = metrics::with_payload(m, c, f);
            &&& more == begins
            &&& !begins ==> a == m
            &&& begins ==> a.phase == TransferPhase::Transferring && (m.payload_start is None
                ==> a.payload_start == Some(c.now)) && (m.payload_start is Some ==> a.payload_start
                == m.payload_start)
        }),
{
    reveal(metrics::with_payload);
}

/// An item of another size under the number of one before it is another item: what was
/// there counts as sent, and the new part is added.
pub proof fn law_replaced_items_count_as_sent(
    m: MetricsModel,
    index: u64,
    done: u64,
    total: u64,
    before: u64,
    old_total: u64,
)
    requires
        index >= 1,
        done <= total,
        m.item_done.contains_key((index - 1) as u64) && m.item_done[(index - 1) as u64] == before,
        m.item_total.contains_key((index - 1) as u64) && m.item_total[(index - 1) as u64]
            == old_total,
        before <= old_total,
        before <= m.done_estimate,
        m.done_estimate + old_total + total <= u64::MAX,
    ensures
        ({
            let t = metrics::after_item(m, index, done, total);
            &&& done < before && total != old_total ==> t.done_estimate == m.done_estimate + (
            old_total - before) + done
            &&& done < before && total == old_total ==> t.done_estimate == m.done_estimate
            &&& done >= before ==> t.done_estimate == m.done_estimate + (done - before)
            &&& t.item_done[(index - 1) as u64] == done
            &&& t.item_total[(index - 1) as u64] == total
        }),
{
}

/// Lines about exporting say nothing of what is received.
pub proof fn law_exports_bring_no_amounts(m: MetricsModel, c: ContextModel, f: FactsModel)
    requires
        f.exporting,
    ensures
        metrics::with_payload(m, c, f) == (m, true),
{
    reveal(metrics::with_payload);
}

/// The counter of files on a bar is kept, and never beyond its end; a bar without one
/// leaves it as it was.
pub proof fn law_bars_count_files(m: MetricsModel, c: ContextModel, f: BarModel, k: u64, n: u64)
    requires
        0 < n,
    ensures
        ({
            let g = BarModel { file_index: Some(k), file_count: Some(n), ..f };
            let h = BarModel { file_index: None, file_count: None, ..f };
            let t = metrics::after_frame(m, c, g);
            &&& t.file_progress == Some(
                (
                    if k < n {
                        k
                    } else {
                        n
                    },
                    n,
                ),
            )
            &&& metrics::after_frame(m, c, h).file_progress == m.file_progress
            &&& t.bar_file == Some(f.file_name)
            &&& t.bar_done == f.done_bytes && t.bar_total == f.total_bytes
            &&& t.last_frame_at == Some(c.now)
            &&& t.phase == TransferPhase::Transferring
            &&& m.total is Some ==> t.total == m.total
            &&& m.total is None ==> t.total == Some(f.total_bytes)
        }),
{
    reveal(metrics::after_frame);
}

// ── Words ──

/// A receiver expects a text from a line that speaks of receiving and of a text, of a text
/// message, or of a message that was received, and from no other.
pub proof fn law_texts_are_expected_by_their_words(lower: Seq<char>)
    ensures
        text::contains(lower, "text message"@) ==> session::lets_expect(lower),
        text::contains(lower, "message received"@) ==> session::lets_expect(lower),
        text::contains(lower, "receiv"@) && text::contains(lower, "text"@)
            ==> session::lets_expect(lower),
        session::lets_expect(lower) && !text::contains(lower, "text message"@) && !text::contains(
            lower,
            "message received"@,
        ) ==> text::contains(lower, "receiv"@) && text::contains(lower, "text"@),
{
}

/// A peer that is there is known to be active from each of four words; none of them says
/// anything while nobody is there.
pub proof fn law_active_peers_are_known_by_words(s: SessionModel, lower: Seq<char>)
    requires
        s.view == AppView::Send,
        s.metrics.phase == TransferPhase::WaitingForReceiver,
        !session::says_connected(lower),
    ensures
        ({
            let t = session::with_peer(s, lower);
            let active = text::contains(lower, " r "@) || text::contains(lower, "sending"@)
                || text::contains(lower, "download"@) || text::contains(lower, "upload"@);
            if s.serve.peer_connected && active {
                &&& t.metrics.phase == TransferPhase::Transferring
                &&& t.metrics.had_transfer
                &&& t.serve.last_activity == Some(s.now)
            } else {
                t == s
            }
        }),
{
}

/// A message says that a file is there already by one of four words.
pub proof fn law_existing_files_are_known_by_words(lower: Seq<char>)
    ensures
        text::contains(lower, "already exists"@) ==> session::says_exists(lower),
        text::contains(lower, "file exists"@) ==> session::says_exists(lower),
        text::contains(lower, "os error 17"@) ==> session::says_exists(lower),
        text::contains(lower, "os error 183"@) ==> session::says_exists(lower),
        session::says_exists(lower) ==> text::contains(lower, "already exists"@) || text::contains(
            lower,
            "file exists"@,
        ) || text::contains(lower, "os error 17"@) || text::contains(lower, "os error 183"@),
{
}

} // verus!
