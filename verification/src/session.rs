//! A transfer as the user sees it: what every message of the tools does to it.

use crate::binary64;
use crate::facts;
use crate::facts::FactsModel;
use crate::messages;
use crate::metrics;
use crate::metrics::{begun, no_metrics, or_zero, MetricsModel};
use crate::numerals;
use crate::sendme;
use crate::state::{AppView, ContextModel, SelectedTool, TransferPhase};
use crate::text;
use crate::transfer::MsgModel;
use vstd::prelude::*;

verus! {

// ── The model ──

pub enum StateModel {
    Idle,
    Running,
    Completed,
    Failed(Seq<char>),
}

pub struct TextsModel {
    pub received: Option<Seq<char>>,
    /// A text has been announced and is expected.
    pub expected: bool,
    pub popup_open: bool,
}

pub struct ServeModel {
    /// The session ends with its first receiver.
    pub one_shot: bool,
    pub peer_connected: bool,
    pub waiting_after_cycle: bool,
    pub last_activity: Option<nat>,
    pub active_transfers: usize,
}

pub struct EazyModel {
    pub auto_retry: bool,
    pub retries: u8,
    pub next_retry: Option<nat>,
    /// When the look for blobs that are already here began.
    pub local_check: Option<nat>,
    pub ticket: Option<Seq<char>>,
}

/// The ticket that a code stands for, and when that was learnt.
pub struct EntryModel {
    pub code: Seq<char>,
    pub ticket: Seq<char>,
    pub timestamp: u64,
}

pub struct SessionModel {
    pub tool: SelectedTool,
    pub view: AppView,
    pub now: nat,
    pub state: StateModel,
    pub code: Option<Seq<char>>,
    pub log: Seq<Seq<char>>,
    pub start_time: Option<nat>,
    pub end_time: Option<nat>,
    pub route: Option<Seq<char>>,
    pub qr_popup_open: bool,
    pub receive_code: Seq<char>,
    pub custom_code: Seq<char>,
    pub cache: Seq<EntryModel>,
    pub metrics: MetricsModel,
    pub texts: TextsModel,
    pub serve: ServeModel,
    pub eazy: EazyModel,
}

#[derive(Clone, Copy, Debug, PartialEq, Eq, Structural)]
pub enum Severity {
    Success,
    Warning,
    Error,
}

pub enum EffectModel {
    /// The process or task of the transfer is cancelled.
    CancelTransfer,
    /// The croc process that hands over a ticket is cancelled.
    CancelShare,
    /// The settings are written.
    Persist,
    /// croc hands over a ticket, under a code where one is chosen.
    ShareTicket { ticket: Seq<char>, secret: Option<Seq<char>> },
    /// sendme receives what a ticket stands for.
    ReceiveTicket(Seq<char>),
    /// What a ticket has left on the disk is removed.
    CleanUp(Seq<char>),
    /// croc sends the chosen items, or a text.
    CrocSend { custom_code: Option<Seq<char>>, text: Option<Seq<char>> },
    /// sendme serves the chosen items.
    SendmeSend { one_shot: bool },
    /// croc receives what a code stands for, into the chosen directory or not.
    CrocReceive { code: Seq<char>, into_chosen: bool },
    /// The blobs of a ticket that are already here are looked at.
    CheckLocal(Seq<char>),
    Toast { message: Seq<char>, severity: Severity },
}

/// A state, and what is to be done on the way to it.
pub type Done = (SessionModel, Seq<EffectModel>);

/// What comes of a message beside the state.
#[derive(Clone, Copy, Debug, PartialEq, Eq, Structural)]
pub enum Flow {
    /// The next message is taken.
    Continue,
    /// The sending session is started anew.
    RestartServe,
    /// Another process has taken over; its messages are the next.
    Handover,
}

pub open spec fn serves(s: SessionModel) -> bool {
    s.tool == SelectedTool::Sendme || s.tool == SelectedTool::EazySendme
}

/// A sendme session of this side's own that runs.
pub open spec fn is_serving(s: SessionModel) -> bool {
    serves(s) && s.view == AppView::Send && s.state is Running
}

pub open spec fn with_log(s: SessionModel, line: Seq<char>) -> SessionModel {
    SessionModel { log: s.log.push(line), ..s }
}

/// A line is logged; a log of more than 500 lines loses its first 100.
pub open spec fn with_bounded_log(s: SessionModel, line: Seq<char>) -> SessionModel {
    let log = s.log.push(line);
    SessionModel {
        log: if log.len() > 500 {
            log.skip(100)
        } else {
            log
        },
        ..s
    }
}

// ── The cache of tickets ──

/// The position of a code in the cache.
pub open spec fn entry_at(cache: Seq<EntryModel>, code: Seq<char>, i: int) -> Option<int>
    decreases cache.len() - i,
{
    if i < 0 || i >= cache.len() {
        None
    } else if cache[i].code == code {
        Some(i)
    } else {
        entry_at(cache, code, i + 1)
    }
}

pub open spec fn ticket_for(cache: Seq<EntryModel>, code: Seq<char>) -> Option<Seq<char>> {
    match entry_at(cache, code, 0) {
        Some(i) => Some(cache[i].ticket),
        None => None,
    }
}

pub open spec fn without_code(cache: Seq<EntryModel>, code: Seq<char>) -> Seq<EntryModel> {
    match entry_at(cache, code, 0) {
        Some(i) => cache.remove(i),
        None => cache,
    }
}

pub open spec fn with_entry(cache: Seq<EntryModel>, e: EntryModel) -> Seq<EntryModel> {
    match entry_at(cache, e.code, 0) {
        Some(i) => cache.update(i, e),
        None => cache.push(e),
    }
}

/// The first `n` entries of a list, put into an empty cache one after the other: of
/// two with one code the later stays.
pub open spec fn collected(list: Seq<EntryModel>, n: nat) -> Seq<EntryModel>
    decreases n,
{
    if n == 0 || n > list.len() {
        Seq::empty()
    } else {
        with_entry(collected(list, (n - 1) as nat), list[n - 1])
    }
}

/// No code stands in the cache twice.
pub open spec fn codes_differ(cache: Seq<EntryModel>) -> bool {
    forall|i: int, j: int|
        0 <= i < j < cache.len() ==> (#[trigger] cache[i]).code != (#[trigger] cache[j]).code
}

/// The hash of the ticket at `i`, as the engine gives it.
pub open spec fn hash_at(hashes: Seq<Option<Seq<char>>>, i: int) -> Option<Seq<char>> {
    if 0 <= i < hashes.len() {
        hashes[i]
    } else {
        None
    }
}

/// The first `n` entries whose tickets have another hash.
pub open spec fn without_hash(
    cache: Seq<EntryModel>,
    hashes: Seq<Option<Seq<char>>>,
    hash: Seq<char>,
    n: nat,
) -> Seq<EntryModel>
    decreases n,
{
    if n == 0 || n > cache.len() {
        Seq::empty()
    } else {
        let kept = without_hash(cache, hashes, hash, (n - 1) as nat);
        if hash_at(hashes, n - 1) == Some(hash) {
            kept
        } else {
            kept.push(cache[n - 1])
        }
    }
}

/// The first ticket from `i` on that has the hash.
pub open spec fn ticket_with_hash(
    cache: Seq<EntryModel>,
    hashes: Seq<Option<Seq<char>>>,
    hash: Seq<char>,
    i: int,
) -> Option<Seq<char>>
    decreases cache.len() - i,
{
    if i < 0 || i >= cache.len() {
        None
    } else if hash_at(hashes, i) == Some(hash) {
        Some(cache[i].ticket)
    } else {
        ticket_with_hash(cache, hashes, hash, i + 1)
    }
}

/// All entries whose tickets have the hash go, and what the first of them has
/// left on the disk, where that is asked for.
pub open spec fn cache_cleaned(
    s: SessionModel,
    fx: Seq<EffectModel>,
    hashes: Seq<Option<Seq<char>>>,
    hash: Seq<char>,
    delete_blobs: bool,
) -> Done {
    let told = match ticket_with_hash(s.cache, hashes, hash, 0) {
        Some(t) if delete_blobs => fx.push(EffectModel::CleanUp(t)),
        _ => fx,
    };
    (
        SessionModel { cache: without_hash(s.cache, hashes, hash, s.cache.len()), ..s },
        told.push(EffectModel::Persist),
    )
}

// ── Failing ──

/// A message in lower case that says that something exists already.
pub open spec fn says_exists(lower: Seq<char>) -> bool {
    ||| text::contains(lower, "already exists"@)
    ||| text::contains(lower, "file exists"@)
    ||| text::contains(lower, "os error 17"@)
    ||| text::contains(lower, "os error 183"@)
}

pub open spec fn conflict_text() -> Seq<char> {
    "The file/folder you intended to download has the same name as another item at the destination. Rename that item and try a new transfer."@
}

/// The seconds before a retry: none for a sender, who only starts a process; a
/// receiver waits for the sender to import again, longer for more bytes.
pub open spec fn retry_wait(s: SessionModel) -> nat {
    if s.view == AppView::Send {
        0
    } else {
        let w = binary64::sum(
            binary64::whole(30),
            binary64::quotient(
                binary64::whole(or_zero(s.metrics.total) as nat),
                binary64::whole(104857600),
            ),
        );
        if w > binary64::whole(120) {
            binary64::whole(120)
        } else {
            w
        }
    }
}

pub open spec fn retry_text(e: Seq<char>, retries: u8, wait: nat) -> Seq<char> {
    let head = "Transfer failed ("@ + e + "). Auto-retrying "@ + numerals::decimal(retries as nat)
        + "/3 "@;
    if wait == 0 {
        head + "immediately..."@
    } else {
        head + "in "@ + numerals::decimal(binary64::truncated(wait) as nat) + "s..."@
    }
}

/// A failed transfer of the combined mode is tried again, at most three times.
pub open spec fn retries(s: SessionModel, e: Seq<char>) -> bool {
    s.tool == SelectedTool::EazySendme && s.eazy.auto_retry && s.eazy.retries < 3 && e
        != "Transfer cancelled"@
}

/// A transfer fails with the message `e`, whose lower-case form is `lower`.
pub open spec fn failed(s: SessionModel, fx: Seq<EffectModel>, e: Seq<char>, lower: Seq<char>) -> Done {
    let told = fx.push(EffectModel::CancelTransfer);
    let ended = SessionModel { end_time: Some(s.now), ..s };
    if e == "Transfer cancelled"@ && s.state is Failed {
        (s, told)
    } else if e == "blobs-incomplete"@ && s.tool == SelectedTool::EazySendme && s.view
        == AppView::Receive {
        let key = text::trim(s.receive_code);
        let known = key.len() > 0 && entry_at(s.cache, key, 0) is Some;
        (
            SessionModel {
                cache: if known {
                    without_code(s.cache, key)
                } else {
                    s.cache
                },
                log: s.log.push("Local blobs incomplete, starting full receive..."@),
                eazy: EazyModel { ticket: None, next_retry: Some(s.now), ..s.eazy },
                state: StateModel::Failed(e),
                ..ended
            },
            if known {
                told.push(EffectModel::Persist)
            } else {
                told
            },
        )
    } else if says_exists(lower) {
        (
            SessionModel {
                eazy: EazyModel { retries: 0, ..s.eazy },
                state: if s.tool == SelectedTool::Croc {
                    StateModel::Failed(conflict_text())
                } else {
                    s.state
                },
                ..ended
            },
            told,
        )
    } else if e == "conflict-detected"@ {
        (
            SessionModel {
                eazy: EazyModel { retries: 0, ..s.eazy },
                state: StateModel::Failed(conflict_text()),
                ..ended
            },
            told,
        )
    } else if retries(s, e) {
        let n = (s.eazy.retries + 1) as u8;
        let wait = retry_wait(s);
        let message = retry_text(e, n, wait);
        (
            SessionModel {
                eazy: EazyModel {
                    retries: n,
                    next_retry: Some(binary64::sum(s.now, wait)),
                    ..s.eazy
                },
                log: s.log.push(message),
                state: StateModel::Failed(message),
                ..ended
            },
            told,
        )
    } else {
        (
            SessionModel {
                eazy: EazyModel { retries: 0, next_retry: None, ..s.eazy },
                state: StateModel::Failed(e),
                ..ended
            },
            told,
        )
    }
}

/// As `failed`, with the lower-case form that the text library gives.
pub open spec fn failed_with(s: SessionModel, fx: Seq<EffectModel>, e: Seq<char>) -> Done {
    failed(s, fx, e, text::lowercase(e))
}

// ── Cycles of a sendme session ──

/// A cycle of a serving session is over: nothing of it is shown any more.
pub open spec fn waiting_anew(s: SessionModel) -> SessionModel {
    SessionModel {
        metrics: MetricsModel {
            phase: TransferPhase::WaitingForReceiver,
            payload_start: None,
            progress: 0,
            done: None,
            speed: None,
            had_transfer: false,
            total_items: None,
            done_estimate: 0,
            item_done: Map::empty(),
            item_total: Map::empty(),
            stream_base: 0,
            stream_done: None,
            stream_total: None,
            payload_complete: false,
            ..s.metrics
        },
        serve: ServeModel {
            peer_connected: false,
            waiting_after_cycle: true,
            last_activity: None,
            active_transfers: 0,
            ..s.serve
        },
        ..s
    }
}

/// A session for one receiver has served them.
pub open spec fn one_shot_completed(s: SessionModel, fx: Seq<EffectModel>) -> Done {
    (
        SessionModel {
            state: StateModel::Completed,
            end_time: Some(s.now),
            metrics: MetricsModel {
                progress: binary64::one(),
                preparing: binary64::one(),
                done: match s.metrics.total {
                    Some(t) if t > 0 => Some(t),
                    _ => s.metrics.done,
                },
                had_transfer: false,
                payload_complete: false,
                ..s.metrics
            },
            serve: ServeModel {
                peer_connected: false,
                waiting_after_cycle: false,
                last_activity: None,
                active_transfers: 0,
                ..s.serve
            },
            eazy: EazyModel { retries: 0, next_retry: None, ..s.eazy },
            ..s
        },
        fx.push(EffectModel::CancelTransfer),
    )
}

/// All that was to be sent has been.
pub open spec fn is_complete(m: MetricsModel) -> bool {
    m.payload_complete || (or_zero(m.total) > 0 && or_zero(m.done) >= or_zero(m.total))
}

/// The only receiver has gone: the transfer is complete, or has failed.
pub open spec fn receiver_gone(s: SessionModel, fx: Seq<EffectModel>, unstarted: Seq<char>, early: Seq<char>) -> Done {
    if !(or_zero(s.metrics.done) > 0 || s.metrics.had_transfer) {
        failed_with(s, fx, unstarted)
    } else if is_complete(s.metrics) {
        one_shot_completed(s, fx)
    } else {
        failed_with(s, fx, early)
    }
}

// ── Texts from croc ──

/// A line in lower case that lets a text be expected.
pub open spec fn lets_expect(lower: Seq<char>) -> bool {
    ||| (text::contains(lower, "receiv"@) && text::contains(lower, "text"@))
    ||| text::contains(lower, "text message"@)
    ||| text::contains(lower, "message received"@)
}

pub open spec fn with_text(s: SessionModel, t: Seq<char>) -> SessionModel {
    SessionModel {
        texts: TextsModel {
            received: Some(t),
            expected: false,
            popup_open: s.texts.popup_open || s.tool == SelectedTool::Croc,
        },
        ..s
    }
}

/// A line is looked at for a text that croc hands over: the state behind it, and
/// whether the line is part of one.
pub open spec fn text_looked_for(s: SessionModel, line: Seq<char>) -> (SessionModel, bool) {
    match messages::text_in_line(line) {
        Some(t) => (
            if s.texts.received == Some(t) {
                s
            } else {
                with_text(s, t)
            },
            true,
        ),
        None => if (s.tool == SelectedTool::Croc || s.tool == SelectedTool::EazySendme) && s.view
            == AppView::Receive {
            let expected = s.texts.expected || lets_expect(text::lowercase(line));
            let a = SessionModel { texts: TextsModel { expected, ..s.texts }, ..s };
            let t = messages::candidate(line);
            if expected && messages::is_payload(t, text::lowercase(t)) && s.texts.received
                != Some(t) {
                (with_text(a, t), true)
            } else if s.texts.received is None {
                match messages::text_in_log(s.log, s.log.len()) {
                    Some(found) => (with_text(a, found), true),
                    None => (a, false),
                }
            } else {
                (a, false)
            }
        } else {
            (s, false)
        },
    }
}

// ── Output ──

/// A line in lower case of a receive that moves or is written.
pub open spec fn says_receiving(lower: Seq<char>) -> bool {
    ||| text::contains(lower, "[2/4] downloading"@)
    ||| text::contains(lower, "[3/4] downloading"@)
    ||| says_writing(lower)
}

pub open spec fn says_writing(lower: Seq<char>) -> bool {
    text::contains(lower, "[4/4] writing files to disk"@) || text::contains(
        lower,
        "[4/4] writing..."@,
    )
}

pub open spec fn says_exporting(lower: Seq<char>) -> bool {
    text::contains(lower, "[local] blobs complete locally, exporting"@) || says_writing(lower)
}

/// A line in lower case about a connection to a peer.
pub open spec fn says_connected(lower: Seq<char>) -> bool {
    ||| text::contains(lower, "disco_in{endpoint="@)
    ||| text::contains(lower, "new direct addr for endpoint"@)
    ||| text::contains(lower, "new connection type"@)
    ||| text::contains(lower, "typ=direct"@)
    ||| text::contains(lower, "typ=mixed"@)
    ||| text::contains(lower, "connect{"@)
    ||| text::contains(lower, "add_endpoint_addr"@)
}

pub open spec fn says_active(lower: Seq<char>) -> bool {
    ||| text::contains(lower, " r "@)
    ||| text::contains(lower, "sending"@)
    ||| text::contains(lower, "download"@)
    ||| text::contains(lower, "upload"@)
}

/// The circumstances in which a line is read.
pub open spec fn context_of(s: SessionModel) -> ContextModel {
    ContextModel {
        tool: s.tool,
        view: s.view,
        ticket_known: s.eazy.ticket is Some,
        peer_connected: s.serve.peer_connected,
        now: s.now,
    }
}

/// croc's direction line names the way that the data takes; the first one counts.
pub open spec fn with_route(s: SessionModel, direction: Option<Seq<char>>) -> SessionModel {
    match direction {
        Some(label) if s.tool == SelectedTool::Croc && s.route is None => SessionModel {
            route: Some(label),
            log: s.log.push("Route: "@ + label),
            ..s
        },
        _ => s,
    }
}

/// What a line says of the phase, before its amounts are looked at.
pub open spec fn with_signals(s: SessionModel, lower: Seq<char>) -> SessionModel {
    let a = if s.tool == SelectedTool::Sendme && s.view == AppView::Receive && s.metrics.phase
        != TransferPhase::Transferring && says_receiving(lower) {
        SessionModel {
            metrics: MetricsModel { preparing: binary64::one(), ..begun(s.metrics, s.now) },
            ..s
        }
    } else {
        s
    };
    if says_exporting(lower) {
        SessionModel { eazy: EazyModel { local_check: None, ..a.eazy }, ..a }
    } else {
        a
    }
}

/// What a line of a sender says of the phase.
pub open spec fn with_sender_phase(s: SessionModel, lower: Seq<char>, direction: bool) -> SessionModel {
    if s.view == AppView::Send && s.state is Running {
        let waits = s.metrics.phase == TransferPhase::Preparing && ((serves(s) && text::contains(
            lower,
            "sendme receive "@,
        )) || (s.tool == SelectedTool::Croc && text::contains(
            lower,
            "code copied to clipboard"@,
        )));
        let phase = if waits {
            TransferPhase::WaitingForReceiver
        } else {
            s.metrics.phase
        };
        let m = MetricsModel { phase, ..s.metrics };
        SessionModel {
            metrics: if s.tool == SelectedTool::Croc && phase == TransferPhase::WaitingForReceiver
                && direction {
                MetricsModel { had_transfer: true, ..begun(m, s.now) }
            } else {
                m
            },
            ..s
        }
    } else {
        s
    }
}

/// A line that is shown as progress, and so not logged.
pub open spec fn is_shown_elsewhere(s: SessionModel, line: Seq<char>, lower: Seq<char>, f: FactsModel) -> bool {
    if s.tool == SelectedTool::Croc {
        f.frame is Some || ("hashing "@.is_prefix_of(lower) && text::contains(line, "%"@)
            && text::contains(line, "|"@))
    } else {
        ||| f.request_line
        ||| text::contains(lower, "downloading ..."@)
        ||| text::contains(lower, "uploading ..."@)
        ||| text::contains(lower, "writing... "@)
        ||| ("n "@.is_prefix_of(line) && text::contains(line, " r "@))
    }
}

/// A line goes to the log, unless it is shown elsewhere or croc repeats it.
pub open spec fn logged(s: SessionModel, line: Seq<char>, lower: Seq<char>, f: FactsModel, skip: bool) -> SessionModel {
    if !skip && !is_shown_elsewhere(s, line, lower, f) && (serves(s) || s.log.len() == 0
        || s.log.last() != line) {
        with_bounded_log(s, line)
    } else {
        s
    }
}

/// What a line of a sendme session says of its peer.
pub open spec fn with_peer(s: SessionModel, lower: Seq<char>) -> SessionModel {
    if says_connected(lower) {
        SessionModel {
            serve: ServeModel {
                peer_connected: true,
                waiting_after_cycle: false,
                last_activity: Some(s.now),
                ..s.serve
            },
            ..s
        }
    } else if s.serve.peer_connected && says_active(lower) {
        SessionModel {
            serve: ServeModel { last_activity: Some(s.now), ..s.serve },
            metrics: if s.view == AppView::Send && s.metrics.phase
                == TransferPhase::WaitingForReceiver {
                MetricsModel { had_transfer: true, ..begun(s.metrics, s.now) }
            } else {
                s.metrics
            },
            ..s
        }
    } else {
        s
    }
}

/// A line of a sender that shows that data flows.
pub open spec fn shows_flow(f: FactsModel) -> bool {
    f.r_counter is Some || ((f.third_stage || f.fourth_stage) && (f.uploading || f.downloading))
}

/// Data flows to a receiver. Between cycles that counts only once a peer is there.
pub open spec fn with_flow(s: SessionModel, f: FactsModel) -> SessionModel {
    if s.view == AppView::Send && shows_flow(f) && (!s.serve.waiting_after_cycle
        || s.serve.peer_connected) {
        SessionModel {
            serve: ServeModel {
                waiting_after_cycle: false,
                last_activity: Some(s.now),
                ..s.serve
            },
            metrics: if s.metrics.phase != TransferPhase::Transferring {
                MetricsModel { had_transfer: true, ..begun(s.metrics, s.now) }
            } else {
                MetricsModel { had_transfer: true, ..s.metrics }
            },
            ..s
        }
    } else {
        s
    }
}

/// A line of output is taken in. `lower` is it in lower case, `direction` the way
/// that it names where it is one of croc's direction lines.
#[verifier::opaque]
pub open spec fn on_output(
    s: SessionModel,
    line: Seq<char>,
    lower: Seq<char>,
    direction: Option<Seq<char>>,
) -> SessionModel {
    let f = facts::facts(line, lower);
    let a = with_signals(with_route(s, direction), lower);
    let b = if a.state is Running {
        SessionModel { metrics: metrics::after_line(
                a.metrics,
                context_of(a),
                f,
                direction is Some,
            ), ..a }
    } else {
        a
    };
    let (d, skip) = if b.tool != SelectedTool::Sendme && b.view == AppView::Receive {
        text_looked_for(b, line)
    } else {
        (b, false)
    };
    let e = logged(with_sender_phase(d, lower, direction is Some), line, lower, f, skip);
    if serves(e) {
        with_flow(with_peer(e, lower), f)
    } else {
        e
    }
}

// ── Other messages ──

/// A serving session between cycles, without a peer: late news of the old cycle.
pub open spec fn is_late(s: SessionModel) -> bool {
    s.serve.waiting_after_cycle && !s.serve.peer_connected
}

#[verifier::opaque]
pub open spec fn on_progress(s: SessionModel, p: nat) -> SessionModel {
    let a = if p > 0 {
        SessionModel { eazy: EazyModel { local_check: None, ..s.eazy }, ..s }
    } else {
        s
    };
    if is_serving(a) && !a.serve.one_shot && is_late(a) {
        a
    } else {
        let m = MetricsModel { progress: binary64::larger(a.metrics.progress, p), ..a.metrics };
        SessionModel {
            metrics: match m.total {
                Some(total) if m.phase == TransferPhase::Transferring && total > 0 => {
                    let by_part = binary64::truncated(
                        binary64::product(
                            binary64::at_most_one(p),
                            binary64::whole(total as nat),
                        ),
                    );
                    let next = crate::sender::less_of(
                        crate::sender::more_of(or_zero(m.done), by_part),
                        total,
                    );
                    metrics::derived_speed(
                        MetricsModel { done: Some(next), ..m },
                        context_of(a),
                    )
                },
                _ => m,
            },
            ..a
        }
    }
}

/// croc hands over the ticket of a sendme session, where croc is there.
pub open spec fn ticket_shared(s: SessionModel, fx: Seq<EffectModel>, ticket: Seq<char>, croc_there: bool) -> Done {
    if s.eazy.ticket is Some {
        (s, fx)
    } else {
        (
            SessionModel {
                metrics: MetricsModel { phase: TransferPhase::EazySharingTicket, ..s.metrics },
                eazy: EazyModel { ticket: Some(ticket), ..s.eazy },
                log: s.log.push("Ticket generated: "@ + ticket + ". Sharing via Croc..."@),
                ..s
            },
            if croc_there {
                fx.push(
                    EffectModel::ShareTicket {
                        ticket,
                        secret: if s.custom_code.len() > 0 {
                            Some(s.custom_code)
                        } else {
                            None
                        },
                    },
                )
            } else {
                fx
            },
        )
    }
}

#[verifier::opaque]
pub open spec fn on_code(s: SessionModel, fx: Seq<EffectModel>, code: Seq<char>, croc_there: bool) -> Done {
    let (a, told) = if messages::is_masked(code) && s.code is Some {
        (s, fx)
    } else if s.tool == SelectedTool::EazySendme && s.view == AppView::Send {
        ticket_shared(s, fx, code, croc_there)
    } else if s.tool == SelectedTool::EazySendme && s.view == AppView::Receive {
        (s, fx)
    } else {
        (SessionModel { code: Some(code), ..s }, fx)
    };
    if a.tool == SelectedTool::Sendme && a.view == AppView::Send && a.metrics.phase
        == TransferPhase::Preparing {
        (waiting_first(a), told)
    } else {
        (a, told)
    }
}

/// The first receiver is waited for.
pub open spec fn waiting_first(s: SessionModel) -> SessionModel {
    SessionModel {
        metrics: MetricsModel { phase: TransferPhase::WaitingForReceiver, ..s.metrics },
        serve: ServeModel { waiting_after_cycle: false, active_transfers: 0, ..s.serve },
        ..s
    }
}

#[verifier::opaque]
pub open spec fn on_waiting(s: SessionModel) -> SessionModel {
    if !is_serving(s) {
        s
    } else if !s.serve.one_shot && (s.metrics.had_transfer || s.serve.waiting_after_cycle) {
        waiting_anew(s)
    } else {
        waiting_first(s)
    }
}

#[verifier::opaque]
pub open spec fn on_activity(s: SessionModel) -> SessionModel {
    if !is_serving(s) || is_late(s) {
        s
    } else {
        SessionModel {
            serve: ServeModel {
                peer_connected: true,
                waiting_after_cycle: false,
                last_activity: Some(s.now),
                active_transfers: if s.serve.active_transfers == 0 {
                    1
                } else {
                    s.serve.active_transfers
                },
                ..s.serve
            },
            metrics: if s.metrics.phase != TransferPhase::Transferring {
                MetricsModel { had_transfer: true, ..begun(s.metrics, s.now) }
            } else {
                MetricsModel { had_transfer: true, ..s.metrics }
            },
            ..s
        }
    }
}

#[verifier::opaque]
pub open spec fn on_active(s: SessionModel, count: usize) -> SessionModel {
    if !is_serving(s) || s.serve.one_shot {
        s
    } else if count > 0 {
        SessionModel {
            serve: ServeModel {
                peer_connected: true,
                waiting_after_cycle: false,
                last_activity: Some(s.now),
                active_transfers: count,
                ..s.serve
            },
            metrics: if s.metrics.phase == TransferPhase::WaitingForReceiver {
                MetricsModel { had_transfer: true, ..begun(s.metrics, s.now) }
            } else {
                MetricsModel { had_transfer: true, ..s.metrics }
            },
            ..s
        }
    } else {
        SessionModel {
            serve: ServeModel { peer_connected: false, active_transfers: 0, ..s.serve },
            ..s
        }
    }
}

/// The combined mode has received a ticket by croc: sendme receives what it
/// stands for, and the code is kept with it.
pub open spec fn ticket_received(
    s: SessionModel,
    fx: Seq<EffectModel>,
    t: Seq<char>,
    unix_secs: u64,
) -> Done {
    let ticket = match sendme::ticket_in(t) {
        Some(n) => n,
        None => t,
    };
    let key = text::trim(s.receive_code);
    (
        SessionModel {
            log: s.log.push("Ticket received via Croc. Starting Sendme..."@),
            eazy: EazyModel { ticket: Some(ticket), ..s.eazy },
            cache: if key.len() > 0 {
                with_entry(s.cache, EntryModel { code: key, ticket, timestamp: unix_secs })
            } else {
                s.cache
            },
            metrics: MetricsModel { phase: TransferPhase::Preparing, ..s.metrics },
            start_time: Some(s.now),
            ..s
        },
        (if key.len() > 0 {
            fx.push(EffectModel::Persist)
        } else {
            fx
        }).push(EffectModel::ReceiveTicket(ticket)),
    )
}

/// The text that croc has handed over, or the ticket that the code stood for before.
pub open spec fn text_or_cached(s: SessionModel) -> Option<Seq<char>> {
    match s.texts.received {
        Some(t) => Some(t),
        None => ticket_for(s.cache, text::trim(s.receive_code)),
    }
}

/// What a receive has left on the disk is no longer needed.
pub open spec fn cleaned_up(s: SessionModel, fx: Seq<EffectModel>, hashes: Seq<Option<Seq<char>>>) -> Done {
    let key = text::trim(s.receive_code);
    let told = match s.code {
        Some(ticket) if s.tool == SelectedTool::Sendme && s.view == AppView::Receive => fx.push(
            EffectModel::CleanUp(ticket),
        ),
        _ => fx,
    };
    match entry_at(s.cache, key, 0) {
        None => (s, told),
        Some(i) => match hash_at(hashes, i) {
            Some(hash) => cache_cleaned(s, told, hashes, hash, true),
            None => (
                SessionModel { cache: without_code(s.cache, key), ..s },
                told.push(EffectModel::CleanUp(s.cache[i].ticket)).push(EffectModel::Persist),
            ),
        },
    }
}

pub open spec fn transfer_completed(s: SessionModel) -> SessionModel {
    SessionModel {
        state: StateModel::Completed,
        eazy: EazyModel { retries: 0, next_retry: None, ..s.eazy },
        metrics: MetricsModel {
            progress: binary64::one(),
            preparing: binary64::one(),
            done: match s.metrics.total {
                Some(t) => Some(t),
                None => s.metrics.done,
            },
            ..s.metrics
        },
        ..s
    }
}

#[verifier::opaque]
pub open spec fn on_completed(
    s: SessionModel,
    fx: Seq<EffectModel>,
    unix_secs: u64,
    hashes: Seq<Option<Seq<char>>>,
) -> (SessionModel, Seq<EffectModel>, Flow) {
    let a = SessionModel {
        eazy: EazyModel { local_check: None, ..s.eazy },
        end_time: Some(s.now),
        ..s
    };
    if a.tool == SelectedTool::Croc && a.view == AppView::Send && a.code is None {
        let (b, told) = failed_with(
            a,
            fx,
            "Croc send ended before starting. Check options and retry."@,
        );
        (b, told, Flow::Continue)
    } else if a.tool == SelectedTool::EazySendme && a.view == AppView::Receive && a.eazy.ticket
        is None {
        match text_or_cached(a) {
            Some(t) => {
                let b = SessionModel {
                    texts: TextsModel { received: Some(t), ..a.texts },
                    ..a
                };
                let (d, told) = ticket_received(b, fx, t, unix_secs);
                (d, told, Flow::Handover)
            },
            None => {
                let (b, told) = failed_with(a, fx, "Croc finished but no ticket found"@);
                (b, told, Flow::Continue)
            },
        }
    } else {
        let (b, told) = cleaned_up(transfer_completed(a), fx, hashes);
        (b, told, Flow::Continue)
    }
}

/// A peer of a session that goes on has gone.
pub open spec fn on_peer_finished(s: SessionModel, fx: Seq<EffectModel>) -> Done {
    let told = fx.push(
        EffectModel::Toast {
            message: "Peer finished downloading"@,
            severity: Severity::Success,
        },
    );
    let shared = s.tool == SelectedTool::EazySendme && s.metrics.phase
        == TransferPhase::EazySharingTicket;
    let a = if shared {
        SessionModel {
            metrics: MetricsModel { phase: TransferPhase::EazyWaitingForPeer, ..s.metrics },
            log: s.log.push("Ticket shared via Croc. Waiting for Sendme transfer..."@),
            ..s
        }
    } else {
        s
    };
    if a.tool == SelectedTool::Sendme && a.view == AppView::Send && !a.serve.one_shot {
        (waiting_anew(a), told)
    } else {
        (
            SessionModel {
                metrics: MetricsModel {
                    progress: 0,
                    phase: if a.tool == SelectedTool::EazySendme && a.view == AppView::Send {
                        TransferPhase::EazyWaitingForPeer
                    } else {
                        TransferPhase::Preparing
                    },
                    preparing: 0,
                    payload_start: None,
                    done: None,
                    total: None,
                    had_transfer: false,
                    ..a.metrics
                },
                serve: ServeModel {
                    waiting_after_cycle: false,
                    active_transfers: 0,
                    ..a.serve
                },
                ..a
            },
            told,
        )
    }
}

#[verifier::opaque]
pub open spec fn on_peer_disconnected(s: SessionModel, fx: Seq<EffectModel>) -> Done {
    if s.state is Completed {
        (s, fx)
    } else {
        let a = with_log(s, "Peer disconnected"@);
        if serves(a) && a.serve.one_shot {
            receiver_gone(
                a,
                fx,
                "Peer disconnected before transfer started"@,
                "Transfer was not completed (peer disconnected early)"@,
            )
        } else {
            on_peer_finished(a, fx)
        }
    }
}

/// A line in lower case that says that a relay's name was not found.
pub open spec fn says_dns_failure(lower: Seq<char>) -> bool {
    ||| text::contains(lower, "no such host"@)
    ||| text::contains(lower, "could not resolve"@)
    ||| text::contains(lower, "cannot resolve"@)
    ||| text::contains(lower, "temporary failure in name resolution"@)
    ||| text::contains(lower, "server misbehaving"@)
    ||| text::contains(lower, "dns error"@)
    ||| text::contains(lower, "dns lookup failed"@)
    ||| (text::contains(lower, "lookup"@) && text::contains(lower, "getcroc"@))
    ||| (text::contains(lower, "lookup"@) && text::contains(lower, "i/o timeout"@))
}

/// One of the last 50 lines of the log says so.
pub open spec fn log_says_dns_failure(log: Seq<Seq<char>>) -> bool {
    exists|i: int|
        0 <= i < log.len() && i >= log.len() - 50 && says_dns_failure(
            text::lowercase(#[trigger] log[i]),
        )
}

pub open spec fn dns_text() -> Seq<char> {
    "Couldn't reach the relay: DNS lookup failed. Check your DNS or VPN connection and retry (details in the log below)."@
}

pub open spec fn going(d: Done) -> (SessionModel, Seq<EffectModel>, Flow) {
    (d.0, d.1, Flow::Continue)
}

#[verifier::opaque]
pub open spec fn on_error(s: SessionModel, fx: Seq<EffectModel>, e: Seq<char>) -> (
    SessionModel,
    Seq<EffectModel>,
    Flow,
) {
    let a = SessionModel { eazy: EazyModel { local_check: None, ..s.eazy }, ..s };
    if a.state is Completed {
        (a, fx, Flow::Continue)
    } else if e == "Transfer cancelled"@ {
        going(failed_with(a, fx, e))
    } else if e == "Send session ended before transfer completed"@ && serves(a)
        && a.serve.one_shot && (a.metrics.had_transfer || or_zero(a.metrics.done) > 0) {
        going(
            receiver_gone(
                a,
                fx,
                "Send session ended before payload started"@,
                "Transfer was not completed (session ended early)"@,
            ),
        )
    } else if (e == "Send session ended before transfer completed"@ || e
        == "Sendme transfer failed on sender side"@) && serves(a) && !a.serve.one_shot {
        (a, fx, Flow::RestartServe)
    } else if a.tool != SelectedTool::Sendme && log_says_dns_failure(a.log) {
        going(failed_with(a, fx, dns_text()))
    } else {
        going(failed_with(a, fx, e))
    }
}

#[verifier::opaque]
pub open spec fn on_started(s: SessionModel) -> SessionModel {
    let receiving = s.tool == SelectedTool::Sendme && s.view == AppView::Receive;
    SessionModel {
        state: StateModel::Running,
        start_time: Some(s.now),
        end_time: None,
        route: None,
        metrics: MetricsModel {
            phase: if receiving {
                TransferPhase::Transferring
            } else {
                TransferPhase::Preparing
            },
            preparing: if receiving {
                binary64::one()
            } else {
                0
            },
            payload_start: if receiving {
                Some(s.now)
            } else {
                None
            },
            speed: None,
            done: None,
            had_transfer: false,
            ..s.metrics
        },
        serve: ServeModel { waiting_after_cycle: false, active_transfers: 0, ..s.serve },
        ..s
    }
}

/// What a message needs from outside.
pub struct EnvironmentModel {
    /// The way that the line names, where it is one of croc's direction lines.
    pub direction: Option<Seq<char>>,
    /// croc can be started.
    pub croc_there: bool,
    pub unix_secs: u64,
    /// The hashes of the tickets in the cache, in its order.
    pub hashes: Seq<Option<Seq<char>>>,
}

/// What a message does to a session.
pub open spec fn on_message(s: SessionModel, m: MsgModel, env: EnvironmentModel) -> (
    SessionModel,
    Seq<EffectModel>,
    Flow,
) {
    let fx = Seq::<EffectModel>::empty();
    match m {
        MsgModel::Output(line) => (
            on_output(s, line, text::lowercase(line), env.direction),
            fx,
            Flow::Continue,
        ),
        MsgModel::Progress(p) => (on_progress(s, p), fx, Flow::Continue),
        MsgModel::Code(code) => going(on_code(s, fx, code, env.croc_there)),
        MsgModel::WaitingForReceiver => (on_waiting(s), fx, Flow::Continue),
        MsgModel::SenderTransferActivity => (on_activity(s), fx, Flow::Continue),
        MsgModel::ActiveTransfers(n) => (on_active(s, n), fx, Flow::Continue),
        MsgModel::Completed => on_completed(s, fx, env.unix_secs, env.hashes),
        MsgModel::PeerDisconnected => going(on_peer_disconnected(s, fx)),
        MsgModel::Error(e) => on_error(s, fx, e),
        MsgModel::Started => (on_started(s), fx, Flow::Continue),
    }
}

/// The messages have ended without a last one.
pub open spec fn on_silence(s: SessionModel) -> Done {
    if s.state is Running {
        failed_with(
            s,
            Seq::empty(),
            "Transfer process ended unexpectedly. Please retry."@,
        )
    } else {
        (s, Seq::empty())
    }
}

/// What a message of the croc process that hands over a ticket does to a session.
pub open spec fn on_share_message(s: SessionModel, m: MsgModel) -> Done {
    let sharing = s.tool == SelectedTool::EazySendme && s.view == AppView::Send && s.metrics.phase
        == TransferPhase::EazySharingTicket;
    match m {
        MsgModel::Output(line) => {
            let (a, skip) = text_looked_for(s, line);
            (
                if skip {
                    a
                } else {
                    with_bounded_log(a, "[Croc] "@ + line)
                },
                Seq::empty(),
            )
        },
        MsgModel::Code(code) => {
            let a = SessionModel { code: Some(code), ..s };
            (
                if sharing {
                    share_over(a, "Croc code generated. Share this code with receiver."@)
                } else {
                    a
                },
                Seq::empty(),
            )
        },
        MsgModel::Error(e) => (
            s,
            seq![
                EffectModel::Toast { message: "Croc error: "@ + e, severity: Severity::Error },
            ],
        ),
        MsgModel::Completed => {
            let a = with_log(s, "Croc finished sharing ticket."@);
            (
                if sharing {
                    share_over(a, "Waiting for receiver to connect via Sendme..."@)
                } else {
                    a
                },
                Seq::empty(),
            )
        },
        _ => (s, Seq::empty()),
    }
}

/// The ticket is with croc: the peer is waited for.
pub open spec fn share_over(s: SessionModel, note: Seq<char>) -> SessionModel {
    SessionModel {
        metrics: MetricsModel { phase: TransferPhase::EazyWaitingForPeer, ..s.metrics },
        log: s.log.push(note),
        ..s
    }
}

/// How many messages are taken at once.
pub open spec fn quota(tool: SelectedTool) -> usize {
    if tool == SelectedTool::Croc {
        800
    } else {
        600
    }
}

/// A transfer is forgotten, and its processes are cancelled.
pub open spec fn was_reset(s: SessionModel) -> SessionModel {
    SessionModel {
        state: StateModel::Idle,
        code: None,
        log: Seq::empty(),
        start_time: None,
        end_time: None,
        route: None,
        qr_popup_open: false,
        metrics: no_metrics(),
        texts: TextsModel { received: None, expected: false, popup_open: false },
        serve: ServeModel {
            peer_connected: false,
            waiting_after_cycle: false,
            last_activity: None,
            active_transfers: 0,
            ..s.serve
        },
        eazy: EazyModel { local_check: None, ticket: None, ..s.eazy },
        ..s
    }
}

/// A transfer is cancelled by the user.
pub open spec fn was_cancelled(s: SessionModel) -> SessionModel {
    SessionModel {
        eazy: EazyModel { retries: 0, next_retry: None, ..s.eazy },
        end_time: Some(s.now),
        state: StateModel::Failed("Transfer cancelled"@),
        ..s
    }
}

} // verus!
