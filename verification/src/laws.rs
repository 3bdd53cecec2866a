//! What holds of a session whatever its tools report.

use crate::desk;
use crate::desk::{DeskModel, Outside};
use crate::messages;
use crate::metrics;
use crate::metrics::is_sound;
use crate::sendme;
use crate::session;
use crate::session::{
    EazyModel, EffectModel, EntryModel, EnvironmentModel, Flow, SessionModel,
};
use crate::settings;
use crate::settings::SettingsModel;
use crate::state::{AppView, SelectedTool, TransferPhase};
use crate::text;
use crate::transfer::MsgModel;
use crate::update;
use crate::update::{CrocUpdateApplyOutcome, CrocUpdateCheck, CrocUpdatePhase, UpdateModel};
use crate::workspace;
use crate::workspace::{PreferencesModel, WorkspaceModel};
use vstd::prelude::*;

verus! {

// ── Completion and failure ──

/// A completed transfer stays completed: a peer that leaves afterwards and errors
/// of processes that shut down change nothing of it.
pub proof fn law_completed_stays(s: SessionModel, m: MsgModel, env: EnvironmentModel)
    requires
        s.state is Completed,
        m is PeerDisconnected || m is Error,
    ensures
        session::on_message(s, m, env).0.state is Completed,
        session::on_message(s, m, env).0.metrics == s.metrics,
        session::on_message(s, m, env).0.log == s.log,
        session::on_message(s, m, env).1.len() == 0,
{
    reveal(session::on_peer_disconnected);
    reveal(session::on_error);
}

/// The message of a cancelled process does not take the place of a failure that
/// says more.
pub proof fn law_cancel_keeps_the_failure(s: SessionModel, env: EnvironmentModel)
    requires
        s.state is Failed,
    ensures
        session::on_message(s, MsgModel::Error("Transfer cancelled"@), env).0.state == s.state,
{
    reveal(session::on_error);
}

/// A transfer is retried at most three times.
pub open spec fn retries_bounded(s: SessionModel) -> bool {
    s.eazy.retries <= 3
}

/// A line of output leaves the choices, the retries and the cache as they are, and
/// the way of the data but where the line itself names it.
proof fn lemma_output_frame(
    s: SessionModel,
    line: Seq<char>,
    lower: Seq<char>,
    direction: Option<Seq<char>>,
)
    ensures
        ({
            let t = session::on_output(s, line, lower, direction);
            &&& t.state == s.state
            &&& t.cache == s.cache
            &&& t.route == session::with_route(s, direction).route
            &&& t.eazy.retries == s.eazy.retries
            &&& t.eazy.next_retry == s.eazy.next_retry
            &&& !session::says_exporting(lower) ==> t.eazy.local_check == s.eazy.local_check
            &&& session::says_exporting(lower) ==> t.eazy.local_check is None
        }),
{
    reveal(session::on_output);
    let f = crate::facts::facts(line, lower);
    let a = session::with_signals(session::with_route(s, direction), lower);
    assert(a.state == s.state && a.eazy.retries == s.eazy.retries && a.eazy.next_retry
        == s.eazy.next_retry);
    assert(!session::says_exporting(lower) ==> a.eazy == s.eazy);
    assert(a.route == session::with_route(s, direction).route && a.cache == s.cache);
    let b = if a.state is Running {
        SessionModel {
            metrics: metrics::after_line(
                a.metrics,
                session::context_of(a),
                f,
                direction is Some,
            ),
            ..a
        }
    } else {
        a
    };
    let (d, skip) = if b.tool != SelectedTool::Sendme && b.view == AppView::Receive {
        session::text_looked_for(b, line)
    } else {
        (b, false)
    };
    assert(d.eazy == a.eazy && d.state == a.state && d.route == a.route && d.cache
        == a.cache);
    let e = session::with_sender_phase(d, lower, direction is Some);
    assert(e.eazy == a.eazy && e.state == a.state && e.route == a.route && e.cache
        == a.cache);
    let g = session::logged(e, line, lower, f, skip);
    assert(g.eazy == a.eazy && g.state == a.state && g.route == a.route && g.cache
        == a.cache);
    let h = session::with_peer(g, lower);
    assert(h.eazy == a.eazy && h.state == a.state && h.route == a.route && h.cache
        == a.cache);
    let last = session::with_flow(h, f);
    assert(last.eazy == a.eazy && last.route == a.route && last.cache == a.cache);
}

/// The first way that a line names is the one that is kept.
pub proof fn lemma_route_of(
    s: SessionModel,
    line: Seq<char>,
    lower: Seq<char>,
    direction: Option<Seq<char>>,
)
    ensures
        session::on_output(s, line, lower, direction).route == session::with_route(
            s,
            direction,
        ).route,
{
    lemma_output_frame(s, line, lower, direction);
}

/// A line about exporting or writing ends the watch over what is already here.
pub proof fn lemma_exporting_ends_watch(
    s: SessionModel,
    line: Seq<char>,
    lower: Seq<char>,
    direction: Option<Seq<char>>,
)
    requires
        session::says_exporting(lower),
    ensures
        session::on_output(s, line, lower, direction).eazy.local_check is None,
{
    lemma_output_frame(s, line, lower, direction);
}

/// No message takes the count of retries beyond three.
pub proof fn law_retries_stay_bounded(s: SessionModel, m: MsgModel, env: EnvironmentModel)
    requires
        retries_bounded(s),
    ensures
        retries_bounded(session::on_message(s, m, env).0),
{
    match m {
        MsgModel::Output(line) => {
            lemma_output_frame(s, line, text::lowercase(line), env.direction);
        },
        MsgModel::Progress(p) => {
            reveal(session::on_progress);
        },
        MsgModel::Code(code) => {
            reveal(session::on_code);
        },
        MsgModel::WaitingForReceiver => {
            reveal(session::on_waiting);
        },
        MsgModel::SenderTransferActivity => {
            reveal(session::on_activity);
        },
        MsgModel::ActiveTransfers(n) => {
            reveal(session::on_active);
        },
        MsgModel::Completed => {
            reveal(session::on_completed);
        },
        MsgModel::PeerDisconnected => {
            reveal(session::on_peer_disconnected);
        },
        MsgModel::Error(e) => {
            reveal(session::on_error);
        },
        MsgModel::Started => {
            reveal(session::on_started);
        },
    }
}

/// Completing a transfer and cancelling it both begin the count anew.
pub proof fn law_success_and_cancel_clear_retries(s: SessionModel, fx: Seq<EffectModel>)
    ensures
        session::one_shot_completed(s, fx).0.eazy.retries == 0,
        session::transfer_completed(s).eazy.retries == 0,
        session::was_cancelled(s).eazy.retries == 0,
        session::was_cancelled(s).eazy.next_retry is None,
{
}

// ── Amounts ──

proof fn lemma_output_sound(
    s: SessionModel,
    line: Seq<char>,
    lower: Seq<char>,
    direction: Option<Seq<char>>,
)
    requires
        is_sound(s.metrics),
    ensures
        is_sound(session::on_output(s, line, lower, direction).metrics),
{
    reveal(session::on_output);
    let f = crate::facts::facts(line, lower);
    let a = session::with_signals(session::with_route(s, direction), lower);
    assert(is_sound(a.metrics));
    metrics::law_done_stays_within_total(
        a.metrics,
        session::context_of(a),
        f,
        direction is Some,
    );
    let b = if a.state is Running {
        SessionModel {
            metrics: metrics::after_line(
                a.metrics,
                session::context_of(a),
                f,
                direction is Some,
            ),
            ..a
        }
    } else {
        a
    };
    assert(is_sound(b.metrics));
    let (d, skip) = if b.tool != SelectedTool::Sendme && b.view == AppView::Receive {
        session::text_looked_for(b, line)
    } else {
        (b, false)
    };
    assert(d.metrics == b.metrics);
    let e = session::with_sender_phase(d, lower, direction is Some);
    assert(is_sound(e.metrics));
    let g = session::logged(e, line, lower, f, skip);
    assert(g.metrics == e.metrics);
    let h = session::with_peer(g, lower);
    assert(is_sound(h.metrics));
    assert(is_sound(session::with_flow(h, f).metrics));
}

/// Whatever a tool reports, nothing is done beyond the total.
pub proof fn law_done_never_exceeds_total(s: SessionModel, m: MsgModel, env: EnvironmentModel)
    requires
        is_sound(s.metrics),
    ensures
        is_sound(session::on_message(s, m, env).0.metrics),
{
    match m {
        MsgModel::Output(line) => {
            lemma_output_sound(s, line, text::lowercase(line), env.direction);
        },
        MsgModel::Progress(p) => {
            reveal(session::on_progress);
        },
        MsgModel::Code(code) => {
            reveal(session::on_code);
        },
        MsgModel::WaitingForReceiver => {
            reveal(session::on_waiting);
        },
        MsgModel::SenderTransferActivity => {
            reveal(session::on_activity);
        },
        MsgModel::ActiveTransfers(n) => {
            reveal(session::on_active);
        },
        MsgModel::Completed => {
            reveal(session::on_completed);
        },
        MsgModel::PeerDisconnected => {
            reveal(session::on_peer_disconnected);
        },
        MsgModel::Error(e) => {
            reveal(session::on_error);
        },
        MsgModel::Started => {
            reveal(session::on_started);
        },
    }
}

/// A completed transfer shows all of its bytes, where their number is known.
pub proof fn law_completed_shows_everything(s: SessionModel)
    requires
        s.metrics.total is Some,
    ensures
        session::transfer_completed(s).metrics.done == s.metrics.total,
{
}

// ── Serving one receiver after the other ──

/// Between two cycles, while no peer is there, progress and activity that the old
/// cycle still reports change nothing of what is shown.
pub proof fn law_late_news_are_ignored(s: SessionModel, m: MsgModel, env: EnvironmentModel)
    requires
        session::is_serving(s),
        !s.serve.one_shot,
        session::is_late(s),
        m is Progress || m is SenderTransferActivity,
    ensures
        session::on_message(s, m, env).0.metrics == s.metrics,
        session::on_message(s, m, env).0.serve == s.serve,
        session::on_message(s, m, env).0.state == s.state,
{
    reveal(session::on_progress);
    reveal(session::on_activity);
}

/// When a cycle is over, the session waits and nothing of the cycle is left.
pub proof fn law_waiting_clears_the_cycle(s: SessionModel, env: EnvironmentModel)
    requires
        session::is_serving(s),
        !s.serve.one_shot,
        s.metrics.had_transfer || s.serve.waiting_after_cycle,
    ensures
        ({
            let t = session::on_message(s, MsgModel::WaitingForReceiver, env).0;
            &&& t.metrics.phase == TransferPhase::WaitingForReceiver
            &&& t.metrics.progress == 0
            &&& t.metrics.done is None
            &&& t.metrics.speed is None
            &&& session::is_late(t)
        }),
{
    reveal(session::on_waiting);
}

// ── Codes, routes and texts ──

/// A code that croc hides behind stars never takes the place of another.
pub proof fn law_masked_code_never_replaces(s: SessionModel, code: Seq<char>, env: EnvironmentModel)
    requires
        s.code is Some,
        messages::is_masked(code),
    ensures
        session::on_message(s, MsgModel::Code(code), env).0.code == s.code,
{
    reveal(session::on_code);
}

/// The first way that croc names for the data stays.
pub proof fn law_first_route_wins(s: SessionModel, line: Seq<char>, env: EnvironmentModel)
    requires
        s.route is Some,
    ensures
        session::on_message(s, MsgModel::Output(line), env).0.route == s.route,
{
    lemma_output_frame(s, line, text::lowercase(line), env.direction);
}

/// Outside croc's own mode no line names a way: the leg that hands over a ticket
/// says nothing of the one that carries the data.
pub proof fn law_route_only_in_croc_mode(s: SessionModel, line: Seq<char>, env: EnvironmentModel)
    requires
        s.tool != SelectedTool::Croc,
    ensures
        session::on_message(s, MsgModel::Output(line), env).0.route == s.route,
{
    lemma_output_frame(s, line, text::lowercase(line), env.direction);
}

/// While blobs that are already here are being looked at, no line ends the watch
/// over that but one about exporting or writing them.
pub proof fn law_local_check_stays_armed(s: SessionModel, line: Seq<char>, env: EnvironmentModel)
    requires
        !session::says_exporting(text::lowercase(line)),
    ensures
        session::on_message(s, MsgModel::Output(line), env).0.eazy.local_check
            == s.eazy.local_check,
{
    lemma_output_frame(s, line, text::lowercase(line), env.direction);
}

/// Progress without anything done does not end the watch either; any other does.
pub proof fn law_progress_ends_local_check(s: SessionModel, p: nat, env: EnvironmentModel)
    ensures
        p == 0 ==> session::on_message(s, MsgModel::Progress(p), env).0.eazy.local_check
            == s.eazy.local_check,
        p > 0 ==> session::on_message(s, MsgModel::Progress(p), env).0.eazy.local_check is None,
{
    reveal(session::on_progress);
}

/// A log of at most 500 lines is one of at most 500 lines after the next line.
pub proof fn law_log_is_bounded(s: SessionModel, line: Seq<char>)
    requires
        s.log.len() <= 500,
    ensures
        session::with_bounded_log(s, line).log.len() <= 500,
        session::with_bounded_log(s, line).log.last() == line,
{
}

// ── The cache of tickets ──

proof fn lemma_entry_at(cache: Seq<EntryModel>, code: Seq<char>, i: int)
    requires
        0 <= i,
    ensures
        match session::entry_at(cache, code, i) {
            Some(k) => i <= k < cache.len() && cache[k].code == code,
            None => forall|j: int| i <= j < cache.len() ==> (#[trigger] cache[j]).code != code,
        },
    decreases cache.len() - i,
{
    if i < cache.len() && cache[i].code != code {
        lemma_entry_at(cache, code, i + 1);
    }
}

/// A code that stands in the cache once is found where it stands.
pub proof fn lemma_entry_is_at(cache: Seq<EntryModel>, code: Seq<char>, i: int)
    requires
        session::codes_differ(cache),
        0 <= i < cache.len(),
        cache[i].code == code,
    ensures
        session::entry_at(cache, code, 0) == Some(i),
{
    lemma_entry_at(cache, code, 0);
}

/// No code stands in the cache twice, however it is changed.
pub proof fn law_cache_codes_differ(cache: Seq<EntryModel>, e: EntryModel, code: Seq<char>)
    requires
        session::codes_differ(cache),
    ensures
        session::codes_differ(session::with_entry(cache, e)),
        session::codes_differ(session::without_code(cache, code)),
{
    lemma_entry_at(cache, e.code, 0);
    lemma_entry_at(cache, code, 0);
}

/// Entries with different codes are collected as they are.
pub proof fn lemma_collected(list: Seq<EntryModel>, n: nat)
    requires
        session::codes_differ(list),
        n <= list.len(),
    ensures
        session::collected(list, n) == list.take(n as int),
    decreases n,
{
    if n > 0 {
        lemma_collected(list, (n - 1) as nat);
        let before = list.take(n - 1);
        lemma_entry_at(before, list[n - 1].code, 0);
        match session::entry_at(before, list[n - 1].code, 0) {
            Some(k) => {
                assert(before[k] == list[k]);
            },
            None => {},
        }
        assert(list.take(n as int) =~= before.push(list[n - 1]));
    } else {
        assert(list.take(0) =~= Seq::empty());
    }
}

proof fn lemma_collected_differ(list: Seq<EntryModel>, n: nat)
    ensures
        session::codes_differ(session::collected(list, n)),
    decreases n,
{
    if 0 < n <= list.len() {
        lemma_collected_differ(list, (n - 1) as nat);
        law_cache_codes_differ(
            session::collected(list, (n - 1) as nat),
            list[n - 1],
            list[n - 1].code,
        );
    }
}

/// No code stands in the cache twice when the program starts, nor once the settings
/// are read, whatever was stored.
pub proof fn law_settings_are_read_with_different_codes(d: DeskModel, s: SettingsModel)
    ensures
        session::codes_differ(desk::first_session().cache),
        session::codes_differ(settings::desk_read(d, s).w.session.cache),
{
    lemma_collected_differ(s.cache, s.cache.len());
}

/// What is put into the cache is found there, and nothing else is lost.
pub proof fn law_cache_finds_what_was_put(cache: Seq<EntryModel>, e: EntryModel, other: Seq<char>)
    requires
        session::codes_differ(cache),
        other != e.code,
    ensures
        session::ticket_for(session::with_entry(cache, e), e.code) == Some(e.ticket),
        session::ticket_for(session::with_entry(cache, e), other) == session::ticket_for(
            cache,
            other,
        ),
{
    let after = session::with_entry(cache, e);
    law_cache_codes_differ(cache, e, other);
    lemma_entry_at(cache, e.code, 0);
    lemma_entry_at(after, e.code, 0);
    lemma_entry_at(cache, other, 0);
    lemma_entry_at(after, other, 0);
    assert(exists|j: int| 0 <= j < after.len() && (#[trigger] after[j]).code == e.code) by {
        match session::entry_at(cache, e.code, 0) {
            Some(i) => {
                assert(after[i].code == e.code);
            },
            None => {
                assert(after[cache.len() as int].code == e.code);
            },
        }
    }
    match session::entry_at(cache, other, 0) {
        Some(i) => {
            assert(after[i].code == other);
        },
        None => {},
    }
}

/// A code that is removed from the cache is no longer found there.
pub proof fn law_cache_forgets_what_was_removed(cache: Seq<EntryModel>, code: Seq<char>)
    requires
        session::codes_differ(cache),
    ensures
        session::ticket_for(session::without_code(cache, code), code) is None,
{
    let after = session::without_code(cache, code);
    lemma_entry_at(cache, code, 0);
    lemma_entry_at(after, code, 0);
    match session::entry_at(after, code, 0) {
        Some(k) => {
            let i = session::entry_at(cache, code, 0).unwrap();
            if k < i {
                assert(after[k] == cache[k]);
            } else {
                assert(after[k] == cache[k + 1]);
            }
        },
        None => {},
    }
}

/// When entries go by their hash, none with that hash is left.
pub proof fn law_cache_cleaned_by_hash(
    cache: Seq<EntryModel>,
    hashes: Seq<Option<Seq<char>>>,
    hash: Seq<char>,
    n: nat,
)
    requires
        n <= cache.len(),
    ensures
        forall|j: int|
            0 <= j < session::without_hash(cache, hashes, hash, n).len() ==> exists|i: int|
                0 <= i < n && #[trigger] cache[i] == #[trigger] session::without_hash(
                    cache,
                    hashes,
                    hash,
                    n,
                )[j] && session::hash_at(hashes, i) != Some(hash),
    decreases n,
{
    if n > 0 {
        law_cache_cleaned_by_hash(cache, hashes, hash, (n - 1) as nat);
        let kept = session::without_hash(cache, hashes, hash, (n - 1) as nat);
        let all = session::without_hash(cache, hashes, hash, n);
        assert forall|j: int| 0 <= j < all.len() implies exists|i: int|
            0 <= i < n && #[trigger] cache[i] == #[trigger] all[j] && session::hash_at(hashes, i)
                != Some(hash) by {
            if j < kept.len() {
                assert(all[j] == kept[j]);
                let i = choose|i: int|
                    0 <= i < n - 1 && #[trigger] cache[i] == kept[j] && session::hash_at(hashes, i)
                        != Some(hash);
                assert(cache[i] == all[j]);
            } else {
                assert(cache[n - 1] == all[j]);
            }
        }
    }
}

// ── Handing a ticket over ──

/// What croc hands over is what is received: the sender's ticket goes to croc under
/// the chosen code, and a receiver to whom croc has given that ticket, alone or in
/// the command for it, receives it and remembers it under the code.
pub proof fn law_ticket_survives_the_handover(
    sender: SessionModel,
    receiver: SessionModel,
    ticket: Seq<char>,
    env: EnvironmentModel,
)
    requires
        sender.tool == SelectedTool::EazySendme,
        sender.view == AppView::Send,
        sender.eazy.ticket is None,
        sender.custom_code.len() > 0,
        env.croc_there,
        receiver.tool == SelectedTool::EazySendme,
        receiver.view == AppView::Receive,
        receiver.eazy.ticket is None,
        session::codes_differ(receiver.cache),
        receiver.texts.received == Some(ticket) || receiver.texts.received == Some(
            "sendme receive "@ + ticket,
        ),
        sendme::is_ticket(ticket),
    ensures
        session::on_message(sender, MsgModel::Code(ticket), env).1 == seq![
            EffectModel::ShareTicket { ticket, secret: Some(sender.custom_code) },
        ],
        ({
            let (s, fx, flow) = session::on_message(receiver, MsgModel::Completed, env);
            &&& fx.len() > 0
            &&& fx.last() == EffectModel::ReceiveTicket(ticket)
            &&& flow == Flow::Handover
            &&& s.eazy.ticket == Some(ticket)
            &&& text::trim(receiver.receive_code).len() > 0 ==> session::ticket_for(
                s.cache,
                text::trim(receiver.receive_code),
            ) == Some(ticket)
        }),
{
    reveal(session::on_code);
    reveal(session::on_completed);
    sendme::law_tickets_are_found(ticket);
    assert(!messages::is_masked(ticket)) by {
        assert(sendme::is_ticket_char(ticket[0]) && sendme::is_ticket_char(ticket.last()));
        assert(text::trim(ticket) == ticket);
        assert(messages::is_word_char(ticket[0]));
    }
    let key = text::trim(receiver.receive_code);
    let e = EntryModel { code: key, ticket, timestamp: env.unix_secs };
    law_cache_finds_what_was_put(receiver.cache, e, key.push(' '));
}

// ── Starting ──

/// An effect that starts a process or task.
pub open spec fn starts_something(e: EffectModel) -> bool {
    e is CrocSend || e is SendmeSend || e is CrocReceive || e is ReceiveTicket || e is CheckLocal
        || e is ShareTicket
}

/// No transfer that needs croc is started while croc is being updated.
pub proof fn law_no_start_during_update(
    w: WorkspaceModel,
    auto: bool,
    items: nat,
    total: Option<u64>,
    croc_there: bool,
    disk_size: u64,
)
    requires
        w.preferences.updating,
        w.session.tool != SelectedTool::Sendme,
    ensures
        ({
            let (a, fx) = workspace::send_started(w, Seq::empty(), auto, items, total, croc_there);
            &&& a.session.state == w.session.state
            &&& forall|i: int| 0 <= i < fx.len() ==> !starts_something(#[trigger] fx[i])
        }),
        ({
            let (a, fx) = workspace::receive_started(
                w,
                Seq::empty(),
                auto,
                croc_there,
                disk_size,
            );
            &&& a.session.state == w.session.state
            &&& forall|i: int| 0 <= i < fx.len() ==> !starts_something(#[trigger] fx[i])
        }),
{
}

/// While a transfer runs that needs croc, nothing is done about croc's updates.
pub open spec fn kept_apart(u: UpdateModel, s: SessionModel) -> bool {
    s.state is Running && s.tool != SelectedTool::Sendme ==> u.phase == CrocUpdatePhase::Idle
}

/// Whatever comes of looks, updates and downloads, none of them overlaps a transfer
/// that needs croc.
pub proof fn law_updates_keep_apart(
    u: UpdateModel,
    s: SessionModel,
    found: Result<CrocUpdateCheck, String>,
    outcome: Result<CrocUpdateApplyOutcome, String>,
    version: Option<Seq<char>>,
    before: Option<Seq<char>>,
    detected: Option<Seq<char>>,
    managed: bool,
    croc_available: bool,
    croc_there: bool,
)
    requires
        update::one_at_a_time(u),
        kept_apart(u, s),
    ensures
        ({
            let running = s.state is Running;
            &&& kept_apart(
                update::check_considered(u, s.now, running, croc_available, croc_there).0,
                s,
            )
            &&& kept_apart(update::check_requested(u, running, croc_there).0, s)
            &&& u.check_pending ==> kept_apart(
                update::check_ended(u, found, s.now, running, managed).0,
                s,
            )
            &&& u.migration_pending ==> kept_apart(update::migration_ended(u, version).0, s)
            &&& u.apply_pending ==> kept_apart(
                update::apply_ended(u, outcome, before, detected, running, managed).0,
                s,
            )
        }),
{
}

/// No start of a transfer overlaps what is being done about croc's updates.
pub proof fn law_starts_keep_apart(
    u: UpdateModel,
    w: WorkspaceModel,
    fx: Seq<EffectModel>,
    auto: bool,
    items: nat,
    total: Option<u64>,
    croc_there: bool,
    disk_size: u64,
)
    requires
        kept_apart(u, w.session),
        w.preferences.updating == (u.phase != CrocUpdatePhase::Idle),
    ensures
        kept_apart(
            u,
            workspace::send_started(w, fx, auto, items, total, croc_there).0.session,
        ),
        kept_apart(
            u,
            workspace::receive_started(w, fx, auto, croc_there, disk_size).0.session,
        ),
{
}

/// A start that was refused leaves no transfer running, and one that runs has
/// been asked for.
pub proof fn law_running_means_started(
    w: WorkspaceModel,
    auto: bool,
    items: nat,
    total: Option<u64>,
    croc_there: bool,
)
    requires
        !(w.session.state is Running),
    ensures
        ({
            let (a, fx) = workspace::send_started(w, Seq::empty(), auto, items, total, croc_there);
            a.session.state is Running <==> fx.len() > 0 && starts_something(fx.last())
        }),
{
}

/// The combined mode always serves one receiver only: its tickets are used once.
pub proof fn law_eazy_serves_one_receiver(
    w: WorkspaceModel,
    auto: bool,
    items: nat,
    total: Option<u64>,
    croc_there: bool,
)
    requires
        w.session.tool == SelectedTool::EazySendme,
        !(w.session.state is Running),
        workspace::send_started(w, Seq::empty(), auto, items, total, croc_there).0.session.state
            is Running,
    ensures
        workspace::send_started(
            w,
            Seq::empty(),
            auto,
            items,
            total,
            croc_there,
        ).0.session.serve.one_shot,
{
}

/// Forgetting a transfer twice is forgetting it once.
pub proof fn law_reset_idempotent(s: SessionModel)
    ensures
        session::was_reset(session::was_reset(s)) == session::was_reset(s),
{
}

/// Forgetting a transfer leaves what the user has chosen and entered, and the
/// tickets that are known.
pub proof fn law_reset_keeps_choices(s: SessionModel)
    ensures
        ({
            let t = session::was_reset(s);
            &&& t.tool == s.tool
            &&& t.view == s.view
            &&& t.receive_code == s.receive_code
            &&& t.custom_code == s.custom_code
            &&& t.cache == s.cache
            &&& t.eazy.retries == s.eazy.retries
            &&& t.eazy.next_retry == s.eazy.next_retry
            &&& t.serve.one_shot == s.serve.one_shot
        }),
{
}

// ── Codes ──

/// A code of one's own may be as short as seven characters, in croc's mode and in
/// the combined mode.
pub proof fn law_seven_characters_suffice(
    w: WorkspaceModel,
    auto: bool,
    items: nat,
    total: Option<u64>,
)
    requires
        !workspace::is_blocked(w),
        items > 0,
        !w.preferences.text_mode,
    ensures
        w.session.tool == SelectedTool::Croc && w.preferences.use_custom_code && text::trim(
            w.preferences.croc_code,
        ).len() >= 7 ==> workspace::send_started(
            w,
            Seq::empty(),
            auto,
            items,
            total,
            true,
        ).0.session.state is Running,
        w.session.tool == SelectedTool::EazySendme && text::trim(w.session.custom_code).len() >= 7
            ==> workspace::send_started(
            w,
            Seq::empty(),
            auto,
            items,
            total,
            true,
        ).0.session.state is Running,
{
}

/// In the combined mode sending is offered exactly where a start is not refused:
/// what is offered runs once it is started, and of what is not offered, nothing is
/// started.
pub proof fn law_what_is_offered_is_started(
    w: WorkspaceModel,
    fx: Seq<EffectModel>,
    auto: bool,
    items: nat,
    total: Option<u64>,
)
    requires
        w.session.tool == SelectedTool::EazySendme,
        !workspace::is_blocked(w),
        items > 0,
    ensures
        desk::can_send(w.session) <==> workspace::send_started(
            w,
            fx,
            auto,
            items,
            total,
            true,
        ).0.session.state is Running,
{
}

/// All three lists of codes are as the program keeps them.
pub open spec fn lists_are_kept(p: PreferencesModel) -> bool {
    &&& settings::is_kept_list(p.croc_recent)
    &&& settings::is_kept_list(p.eazy_recent)
    &&& settings::is_kept_list(p.receive_recent)
}

proof fn lemma_remembered_is_kept(codes: Seq<Seq<char>>, s: Seq<char>)
    requires
        settings::is_kept_list(codes),
        text::trim(s).len() > 6,
    ensures
        settings::is_kept_list(workspace::remembered(codes, text::trim(s))),
{
    let code = text::trim(s);
    workspace::law_remembered_is_code_list(codes, code);
    text::law_trim_idempotent(s);
    workspace::lemma_without(codes, code);
    let all = workspace::remembered(codes, code);
    assert forall|i: int| 0 <= i < all.len() implies text::trim(#[trigger] all[i]) == all[i] by {
        if i > 0 {
            let rest = workspace::without(codes, code);
            assert(all[i] == rest[i - 1]);
            assert(codes.contains(rest[i - 1]));
            let k = choose|k: int| 0 <= k < codes.len() && codes[k] == rest[i - 1];
            assert(text::trim(codes[k]) == codes[k]);
        }
    }
}

/// Starting a transfer and trying it again keep every list of codes: at most five codes, all
/// different, each of more than six characters and without white space around it.
pub proof fn law_code_lists_are_kept(
    w: WorkspaceModel,
    fx: Seq<EffectModel>,
    auto: bool,
    items: nat,
    total: Option<u64>,
    croc_there: bool,
    disk_size: u64,
    unix_secs: u64,
)
    requires
        lists_are_kept(w.preferences),
    ensures
        lists_are_kept(
            workspace::send_started(w, fx, auto, items, total, croc_there).0.preferences,
        ),
        lists_are_kept(
            workspace::receive_started(w, fx, auto, croc_there, disk_size).0.preferences,
        ),
        lists_are_kept(
            workspace::send_retried(w, fx, auto, items, total, croc_there).0.preferences,
        ),
        lists_are_kept(
            workspace::receive_retried(
                w,
                fx,
                auto,
                croc_there,
                disk_size,
                unix_secs,
            ).0.preferences,
        ),
{
    let p = w.preferences;
    if text::trim(p.croc_code).len() > 6 {
        lemma_remembered_is_kept(p.croc_recent, p.croc_code);
    }
    if text::trim(w.session.custom_code).len() > 6 {
        lemma_remembered_is_kept(p.eazy_recent, w.session.custom_code);
    }
    if text::trim(w.session.receive_code).len() > 6 {
        lemma_remembered_is_kept(p.receive_recent, w.session.receive_code);
    }
}

proof fn lemma_without_hash_differs(
    cache: Seq<EntryModel>,
    hashes: Seq<Option<Seq<char>>>,
    hash: Seq<char>,
    n: nat,
)
    requires
        session::codes_differ(cache),
        n <= cache.len(),
    ensures
        session::codes_differ(session::without_hash(cache, hashes, hash, n)),
    decreases n,
{
    if n > 0 {
        let before = session::without_hash(cache, hashes, hash, (n - 1) as nat);
        let all = session::without_hash(cache, hashes, hash, n);
        lemma_without_hash_differs(cache, hashes, hash, (n - 1) as nat);
        law_cache_cleaned_by_hash(cache, hashes, hash, (n - 1) as nat);
        assert forall|i: int, j: int| 0 <= i < j < all.len() implies (#[trigger] all[i]).code != (
        #[trigger] all[j]).code by {
            if j < before.len() {
                assert(before[i].code != before[j].code);
            } else {
                assert(all[i] == before[i]);
                let k = choose|k: int|
                    0 <= k < n - 1 && #[trigger] cache[k] == before[i] && session::hash_at(
                        hashes,
                        k,
                    ) != Some(hash);
                assert(cache[k].code != cache[n - 1].code);
            }
        }
    }
}

proof fn lemma_failed_codes(s: SessionModel, fx: Seq<EffectModel>, e: Seq<char>, lower: Seq<char>)
    requires
        session::codes_differ(s.cache),
    ensures
        session::codes_differ(session::failed(s, fx, e, lower).0.cache),
{
    let key = text::trim(s.receive_code);
    law_cache_codes_differ(s.cache, EntryModel { code: key, ticket: key, timestamp: 0 }, key);
}

proof fn lemma_completed_codes(
    s: SessionModel,
    fx: Seq<EffectModel>,
    unix_secs: u64,
    hashes: Seq<Option<Seq<char>>>,
)
    requires
        session::codes_differ(s.cache),
    ensures
        session::codes_differ(session::on_completed(s, fx, unix_secs, hashes).0.cache),
{
    reveal(session::on_completed);
    let key = text::trim(s.receive_code);
    let a = SessionModel {
        eazy: EazyModel { local_check: None, ..s.eazy },
        end_time: Some(s.now),
        ..s
    };
    let croc = "Croc send ended before starting. Check options and retry."@;
    let none = "Croc finished but no ticket found"@;
    lemma_failed_codes(a, fx, croc, text::lowercase(croc));
    lemma_failed_codes(a, fx, none, text::lowercase(none));
    match session::text_or_cached(a) {
        Some(t) => {
            let ticket = match sendme::ticket_in(t) {
                Some(n) => n,
                None => t,
            };
            law_cache_codes_differ(
                s.cache,
                EntryModel { code: key, ticket, timestamp: unix_secs },
                key,
            );
        },
        None => {},
    }
    law_cache_codes_differ(s.cache, EntryModel { code: key, ticket: key, timestamp: 0 }, key);
    match session::entry_at(s.cache, key, 0) {
        Some(i) => match session::hash_at(hashes, i) {
            Some(hash) => {
                lemma_without_hash_differs(s.cache, hashes, hash, s.cache.len());
            },
            None => {},
        },
        None => {},
    }
}

/// However transfers are started, tried again and tidied up after, no code stands in
/// the cache twice.
pub proof fn law_starts_keep_codes_different(
    w: WorkspaceModel,
    fx: Seq<EffectModel>,
    auto: bool,
    items: nat,
    total: Option<u64>,
    croc_there: bool,
    disk_size: u64,
    unix_secs: u64,
    hashes: Seq<Option<Seq<char>>>,
    hash: Seq<char>,
    delete_blobs: bool,
)
    requires
        session::codes_differ(w.session.cache),
    ensures
        session::codes_differ(
            workspace::send_started(w, fx, auto, items, total, croc_there).0.session.cache,
        ),
        session::codes_differ(
            workspace::send_retried(w, fx, auto, items, total, croc_there).0.session.cache,
        ),
        session::codes_differ(
            workspace::receive_started(w, fx, auto, croc_there, disk_size).0.session.cache,
        ),
        session::codes_differ(
            workspace::receive_retried(
                w,
                fx,
                auto,
                croc_there,
                disk_size,
                unix_secs,
            ).0.session.cache,
        ),
        session::codes_differ(
            session::cache_cleaned(w.session, fx, hashes, hash, delete_blobs).0.cache,
        ),
        session::codes_differ(session::was_reset(w.session).cache),
{
    let key = text::trim(w.session.receive_code);
    lemma_without_hash_differs(w.session.cache, hashes, hash, w.session.cache.len());
    match w.session.eazy.ticket {
        Some(ticket) => {
            law_cache_codes_differ(
                w.session.cache,
                EntryModel { code: key, ticket, timestamp: unix_secs },
                key,
            );
        },
        None => {},
    }
}

/// Whatever a frame brings, no code stands in the cache twice.
pub proof fn law_frames_keep_codes_different(d: DeskModel, fx: Seq<EffectModel>, o: Outside)
    requires
        session::codes_differ(d.w.session.cache),
    ensures
        session::codes_differ(desk::frame_passed(d, fx, o).0.w.session.cache),
{
    let (a, told) = desk::local_check_watched(d, fx, o);
    let none: Seq<Option<Seq<char>>> = Seq::empty();
    let s = session::with_log(
        SessionModel {
            eazy: EazyModel { local_check: None, ..d.w.session.eazy },
            ..d.w.session
        },
        "[Local] Verification timed out after 10s. Retrying..."@,
    );
    law_starts_keep_codes_different(
        desk::with_session(d, s).w,
        fx,
        false,
        0,
        None,
        o.croc_there,
        o.disk_size,
        o.unix_secs,
        none,
        Seq::empty(),
        false,
    );
    let b = desk::with_session(
        a,
        SessionModel {
            eazy: EazyModel { next_retry: None, ..a.w.session.eazy },
            ..a.w.session
        },
    );
    law_starts_keep_codes_different(
        b.w,
        told,
        true,
        b.items.len(),
        desk::known_total(b.items),
        o.croc_there,
        o.disk_size,
        o.unix_secs,
        none,
        Seq::empty(),
        false,
    );
}

/// Whatever the process that hands over a ticket reports, and where a tool falls
/// silent, no code stands in the cache twice.
pub proof fn law_shares_keep_codes_different(s: SessionModel, m: MsgModel)
    requires
        session::codes_differ(s.cache),
    ensures
        session::codes_differ(session::on_share_message(s, m).0.cache),
        session::codes_differ(session::on_silence(s).0.cache),
{
    let silent = "Transfer process ended unexpectedly. Please retry."@;
    lemma_failed_codes(s, Seq::empty(), silent, text::lowercase(silent));
}

/// Whatever the tools report, no code stands in the cache twice.
pub proof fn law_messages_keep_codes_different(s: SessionModel, m: MsgModel, env: EnvironmentModel)
    requires
        session::codes_differ(s.cache),
    ensures
        session::codes_differ(session::on_message(s, m, env).0.cache),
{
    let fx = Seq::<EffectModel>::empty();
    match m {
        MsgModel::Output(line) => {
            lemma_output_frame(s, line, text::lowercase(line), env.direction);
        },
        MsgModel::Progress(p) => {
            reveal(session::on_progress);
        },
        MsgModel::Code(code) => {
            reveal(session::on_code);
        },
        MsgModel::WaitingForReceiver => {
            reveal(session::on_waiting);
        },
        MsgModel::SenderTransferActivity => {
            reveal(session::on_activity);
        },
        MsgModel::ActiveTransfers(n) => {
            reveal(session::on_active);
        },
        MsgModel::Completed => {
            lemma_completed_codes(s, fx, env.unix_secs, env.hashes);
        },
        MsgModel::PeerDisconnected => {
            reveal(session::on_peer_disconnected);
            let a = session::with_log(s, "Peer disconnected"@);
            let unstarted = "Peer disconnected before transfer started"@;
            let early = "Transfer was not completed (peer disconnected early)"@;
            lemma_failed_codes(a, fx, unstarted, text::lowercase(unstarted));
            lemma_failed_codes(a, fx, early, text::lowercase(early));
        },
        MsgModel::Error(e) => {
            reveal(session::on_error);
            let a = SessionModel { eazy: EazyModel { local_check: None, ..s.eazy }, ..s };
            let unstarted = "Send session ended before payload started"@;
            let early = "Transfer was not completed (session ended early)"@;
            lemma_failed_codes(a, fx, e, text::lowercase(e));
            lemma_failed_codes(a, fx, unstarted, text::lowercase(unstarted));
            lemma_failed_codes(a, fx, early, text::lowercase(early));
            lemma_failed_codes(a, fx, session::dns_text(), text::lowercase(session::dns_text()));
        },
        MsgModel::Started => {
            reveal(session::on_started);
        },
    }
}

} // verus!
