//! What the messages of a transfer come to, as its user is told it.

use crate::binary64;
use crate::binary64::whole;
use crate::messages;
use crate::metrics;
use crate::numerals;
use crate::sendme;
use crate::session;
use crate::session::{
    EazyModel, EffectModel, EntryModel, EnvironmentModel, Flow, SessionModel, Severity, StateModel,
};
use crate::state::{AppView, SelectedTool, TransferPhase};
use crate::text;
use crate::transfer::MsgModel;
use vstd::prelude::*;

verus! {

// ── Trying again ──

/// The bytes for which a receiver waits one second longer.
pub open spec fn bytes_per_second_of_wait() -> nat {
    100 * 1024 * 1024
}

proof fn lemma_wait_grows(s: SessionModel, t: SessionModel)
    requires
        s.view != AppView::Send,
        t.view != AppView::Send,
        metrics::or_zero(s.metrics.total) <= metrics::or_zero(t.metrics.total),
    ensures
        session::retry_wait(s) <= session::retry_wait(t),
{
    let a = metrics::or_zero(s.metrics.total) as nat;
    let b = metrics::or_zero(t.metrics.total) as nat;
    let c = whole(bytes_per_second_of_wait());
    binary64::lemma_whole_positive(bytes_per_second_of_wait());
    binary64::lemma_whole_grows(a, b);
    binary64::lemma_quotient_grows(whole(a), whole(b), c);
    binary64::lemma_sum_grows(
        binary64::quotient(whole(a), c),
        binary64::quotient(whole(b), c),
        whole(30),
    );
}

proof fn lemma_wait_at(s: SessionModel, n: nat)
    requires
        s.view != AppView::Send,
        n <= 1000,
        metrics::or_zero(s.metrics.total) == n * bytes_per_second_of_wait(),
    ensures
        session::retry_wait(s) == whole(
            if n <= 90 {
                30 + n
            } else {
                120
            },
        ),
{
    let c = bytes_per_second_of_wait();
    assert(n * c <= 1000 * c && 30 * n <= 30 * 1000) by (nonlinear_arith)
        requires
            n <= 1000,
    ;
    binary64::law_whole_numbers_are_computed_exactly(n, c);
    binary64::law_whole_numbers_are_computed_exactly(30, n);
    binary64::law_whole_is_exact(30 + n);
    binary64::law_whole_is_exact(120);
    assert(30 + n > 120 ==> (30 + n) * binary64::one() > 120 * binary64::one())
        by (nonlinear_arith)
        requires
            binary64::one() > 0,
    ;
    assert(30 + n <= 120 ==> (30 + n) * binary64::one() <= 120 * binary64::one())
        by (nonlinear_arith);
}

/// A retry of a receiver is due no sooner than in thirty seconds and no later than
/// in two minutes, whatever is to come, and also where that is not known. It is due
/// one second later for every 100 MiB.
pub proof fn law_receivers_wait_half_a_minute_to_two(s: SessionModel, n: nat)
    requires
        s.view != AppView::Send,
    ensures
        whole(30) <= session::retry_wait(s) <= whole(120),
        s.metrics.total is None ==> session::retry_wait(s) == whole(30),
        n <= 89 && n * bytes_per_second_of_wait() <= metrics::or_zero(s.metrics.total) <= (n + 1)
            * bytes_per_second_of_wait() ==> whole(30 + n) <= session::retry_wait(s) <= whole(
            31 + n,
        ),
        n <= 90 && metrics::or_zero(s.metrics.total) == n * bytes_per_second_of_wait()
            ==> session::retry_wait(s) == whole(30 + n),
        metrics::or_zero(s.metrics.total) >= 90 * bytes_per_second_of_wait()
            ==> session::retry_wait(s) == whole(120),
{
    let c = bytes_per_second_of_wait();
    let at = |k: nat| SessionModel {
        metrics: metrics::MetricsModel { total: Some((k * c) as u64), ..s.metrics },
        ..s
    };
    lemma_wait_at(at(0), 0);
    lemma_wait_grows(at(0), s);
    if n <= 90 {
        assert(n * c <= 90 * c) by (nonlinear_arith)
            requires
                n <= 90,
        ;
        lemma_wait_at(at(n), n);
        if metrics::or_zero(s.metrics.total) == n * c {
            lemma_wait_at(s, n);
        }
    }
    if n <= 89 && n * c <= metrics::or_zero(s.metrics.total) <= (n + 1) * c {
        assert((n + 1) * c <= 90 * c) by (nonlinear_arith)
            requires
                n <= 89,
        ;
        lemma_wait_at(at(n + 1), n + 1);
        lemma_wait_grows(at(n), s);
        lemma_wait_grows(s, at(n + 1));
    }
    if metrics::or_zero(s.metrics.total) >= 90 * c {
        lemma_wait_at(at(90), 90);
        lemma_wait_grows(at(90), s);
    }
    if s.metrics.total is None {
        lemma_wait_at(s, 0);
    }
}

/// An error that says no more than that a transfer was interrupted.
pub open spec fn is_plain_error(s: SessionModel, e: Seq<char>) -> bool {
    &&& e != "Transfer cancelled"@
    &&& e != "blobs-incomplete"@
    &&& e != "conflict-detected"@
    &&& e != "Send session ended before transfer completed"@
    &&& e != "Sendme transfer failed on sender side"@
    &&& !text::contains(text::lowercase(e), "exists"@)
    &&& !text::contains(text::lowercase(e), "os error"@)
    &&& forall|i: int|
        0 <= i < s.log.len() ==> !names_lookup(text::lowercase(#[trigger] s.log[i]))
}

/// A line that speaks of looking up a name.
pub open spec fn names_lookup(lower: Seq<char>) -> bool {
    ||| text::contains(lower, "host"@)
    ||| text::contains(lower, "resol"@)
    ||| text::contains(lower, "server"@)
    ||| text::contains(lower, "dns"@)
    ||| text::contains(lower, "lookup"@)
}

proof fn lemma_part(s: Seq<char>, whole: Seq<char>, part: Seq<char>, i: int)
    requires
        text::contains(s, whole),
        text::stands_at(whole, part, i),
    ensures
        text::contains(s, part),
{
    let k = choose|k: int| text::stands_at(s, whole, k);
    assert(s.subrange(k + i, k + i + part.len()) =~= s.subrange(k, k + whole.len()).subrange(
        i,
        i + part.len(),
    ));
    assert(text::stands_at(s, part, k + i));
}

proof fn lemma_no_lookup(lower: Seq<char>)
    requires
        !names_lookup(lower),
    ensures
        !session::says_dns_failure(lower),
{
    reveal_strlit("no such host");
    reveal_strlit("could not resolve");
    reveal_strlit("cannot resolve");
    reveal_strlit("temporary failure in name resolution");
    reveal_strlit("server misbehaving");
    reveal_strlit("dns error");
    reveal_strlit("dns lookup failed");
    reveal_strlit("host");
    reveal_strlit("resol");
    reveal_strlit("server");
    reveal_strlit("dns");
    assert("no such host"@.subrange(8, 12) =~= "host"@);
    assert("could not resolve"@.subrange(10, 15) =~= "resol"@);
    assert("cannot resolve"@.subrange(7, 12) =~= "resol"@);
    assert("temporary failure in name resolution"@.subrange(26, 31) =~= "resol"@);
    assert("server misbehaving"@.subrange(0, 6) =~= "server"@);
    assert("dns error"@.subrange(0, 3) =~= "dns"@);
    assert("dns lookup failed"@.subrange(0, 3) =~= "dns"@);
    if text::contains(lower, "no such host"@) {
        lemma_part(lower, "no such host"@, "host"@, 8);
    }
    if text::contains(lower, "could not resolve"@) {
        lemma_part(lower, "could not resolve"@, "resol"@, 10);
    }
    if text::contains(lower, "cannot resolve"@) {
        lemma_part(lower, "cannot resolve"@, "resol"@, 7);
    }
    if text::contains(lower, "temporary failure in name resolution"@) {
        lemma_part(lower, "temporary failure in name resolution"@, "resol"@, 26);
    }
    if text::contains(lower, "server misbehaving"@) {
        lemma_part(lower, "server misbehaving"@, "server"@, 0);
    }
    if text::contains(lower, "dns error"@) {
        lemma_part(lower, "dns error"@, "dns"@, 0);
    }
    if text::contains(lower, "dns lookup failed"@) {
        lemma_part(lower, "dns lookup failed"@, "dns"@, 0);
    }
}

proof fn lemma_no_conflict(lower: Seq<char>)
    requires
        !text::contains(lower, "exists"@),
        !text::contains(lower, "os error"@),
    ensures
        !session::says_exists(lower),
{
    reveal_strlit("already exists");
    reveal_strlit("file exists");
    reveal_strlit("os error 17");
    reveal_strlit("os error 183");
    reveal_strlit("exists");
    reveal_strlit("os error");
    assert("already exists"@.subrange(8, 14) =~= "exists"@);
    assert("file exists"@.subrange(5, 11) =~= "exists"@);
    assert("os error 17"@.subrange(0, 8) =~= "os error"@);
    assert("os error 183"@.subrange(0, 8) =~= "os error"@);
    if text::contains(lower, "already exists"@) {
        lemma_part(lower, "already exists"@, "exists"@, 8);
    }
    if text::contains(lower, "file exists"@) {
        lemma_part(lower, "file exists"@, "exists"@, 5);
    }
    if text::contains(lower, "os error 17"@) {
        lemma_part(lower, "os error 17"@, "os error"@, 0);
    }
    if text::contains(lower, "os error 183"@) {
        lemma_part(lower, "os error 183"@, "os error"@, 0);
    }
}

/// An interrupted transfer of the combined mode is tried again three times and no
/// more: a sender's at once, a receiver's after a wait of thirty seconds to two
/// minutes. The user reads the reason, the number of the retry and the wait. In the
/// other modes, and after the third retry, the failure stays, with its reason.
pub proof fn law_interrupted_transfers_are_retried(
    s: SessionModel,
    e: Seq<char>,
    env: EnvironmentModel,
    n: nat,
)
    requires
        !(s.state is Completed),
        is_plain_error(s, e),
    ensures
        ({
            let (t, fx, flow) = session::on_message(s, MsgModel::Error(e), env);
            &&& fx == seq![EffectModel::CancelTransfer]
            &&& flow == Flow::Continue
            &&& t.state is Failed
            &&& t.end_time == Some(s.now)
            &&& s.tool == SelectedTool::EazySendme && s.eazy.auto_retry && s.eazy.retries < 3 ==> {
                &&& t.eazy.retries == s.eazy.retries + 1
                &&& t.eazy.next_retry matches Some(due)
                &&& t.log.last() == t.state->Failed_0
                &&& s.view == AppView::Send ==> due == binary64::sum(s.now, 0) && t.state
                    == StateModel::Failed(
                    "Transfer failed ("@ + e + "). Auto-retrying "@ + numerals::decimal(
                        t.eazy.retries as nat,
                    ) + "/3 "@ + "immediately..."@,
                )
                &&& s.view != AppView::Send ==> binary64::sum(s.now, whole(30)) <= due
                    <= binary64::sum(s.now, whole(120))
                &&& s.view != AppView::Send && n <= 90 && metrics::or_zero(s.metrics.total) == n
                    * bytes_per_second_of_wait() ==> due == binary64::sum(s.now, whole(30 + n))
                    && t.state == StateModel::Failed(
                    "Transfer failed ("@ + e + "). Auto-retrying "@ + numerals::decimal(
                        t.eazy.retries as nat,
                    ) + "/3 "@ + "in "@ + numerals::decimal(30 + n) + "s..."@,
                )
            }
            &&& !(s.tool == SelectedTool::EazySendme && s.eazy.auto_retry && s.eazy.retries < 3)
                ==> t.state == StateModel::Failed(e) && t.eazy.retries == 0
                && t.eazy.next_retry is None
        }),
{
    reveal(session::on_error);
    lemma_no_conflict(text::lowercase(e));
    assert forall|i: int| 0 <= i < s.log.len() implies !session::says_dns_failure(
        text::lowercase(#[trigger] s.log[i]),
    ) by {
        lemma_no_lookup(text::lowercase(s.log[i]));
    }
    let a = SessionModel { eazy: EazyModel { local_check: None, ..s.eazy }, ..s };
    assert(Seq::<EffectModel>::empty().push(EffectModel::CancelTransfer) =~= seq![
        EffectModel::CancelTransfer,
    ]);
    if s.view != AppView::Send {
        law_receivers_wait_half_a_minute_to_two(a, n);
        let w = session::retry_wait(a);
        binary64::lemma_sum_grows(whole(30), w, s.now);
        binary64::lemma_sum_grows(w, whole(120), s.now);
        if n <= 90 {
            binary64::law_whole_is_exact(30 + n);
            binary64::law_whole_numbers_are_computed_exactly(30 + n, 1);
            assert((30 + n) * binary64::one() > 0) by (nonlinear_arith)
                requires
                    binary64::one() > 0,
            ;
        }
    }
}

// ── Texts and tickets ──

/// What a line does to the texts and to the log, and what it leaves as it is, where
/// it names no way.
#[verifier::spinoff_prover]
#[verifier::rlimit(60)]
proof fn lemma_line_in_receive(s: SessionModel, line: Seq<char>, lower: Seq<char>)
    requires
        s.view == AppView::Receive,
    ensures
        ({
            let t = session::on_output(s, line, lower, None);
            &&& t.tool == s.tool
            &&& t.view == s.view
            &&& t.now == s.now
            &&& t.state == s.state
            &&& t.cache == s.cache
            &&& t.receive_code == s.receive_code
            &&& t.code == s.code
            &&& t.eazy.ticket == s.eazy.ticket
            &&& s.tool != SelectedTool::Sendme ==> t.texts == session::text_looked_for(
                s,
                line,
            ).0.texts
            &&& s.tool == SelectedTool::Sendme ==> t.texts == s.texts
        }),
{
    reveal(session::on_output);
    let f = crate::facts::facts(line, lower);
    let a = session::with_signals(s, lower);
    assert(session::with_route(s, None) == s);
    assert(a.log == s.log && a.texts == s.texts && a.tool == s.tool && a.view == s.view);
    let b = if a.state is Running {
        SessionModel {
            metrics: metrics::after_line(a.metrics, session::context_of(a), f, false),
            ..a
        }
    } else {
        a
    };
    assert(b.log == s.log && b.texts == s.texts && b.tool == s.tool && b.view == s.view && b.cache
        == s.cache && b.eazy.ticket == s.eazy.ticket && b.state == s.state);
    let (d, skip) = if b.tool != SelectedTool::Sendme && b.view == AppView::Receive {
        session::text_looked_for(b, line)
    } else {
        (b, false)
    };
    assert(session::text_looked_for(b, line).0.texts == session::text_looked_for(s, line).0.texts);
    assert(d.cache == s.cache && d.eazy == b.eazy && d.state == b.state && d.tool == s.tool
        && d.view == s.view && d.code == b.code && d.receive_code == s.receive_code);
    let e = session::with_sender_phase(d, lower, false);
    assert(e == d);
    let g = session::logged(e, line, lower, f, skip);
    assert(g.texts == d.texts && g.cache == d.cache && g.eazy == d.eazy && g.state == d.state);
    let h = session::with_peer(g, lower);
    assert(h.texts == d.texts && h.cache == d.cache && h.eazy == d.eazy && h.state == d.state);
}

/// A line as croc prints it: no white space and no quote at its ends.
pub open spec fn is_bare_line(line: Seq<char>) -> bool {
    &&& line.len() > 0
    &&& !text::is_space(line[0]) && !text::is_space(line.last())
    &&& line[0] != '"' && line.last() != '"'
}

/// A line that has no words for a text before it: nothing with a colon.
pub open spec fn is_unmarked(line: Seq<char>) -> bool {
    &&& is_bare_line(line)
    &&& !text::lowercase(line).contains(':')
    &&& !text::contains(text::lowercase(line), "received text "@)
}

/// croc's line that a text is being received.
pub open spec fn announces(line: Seq<char>) -> bool {
    &&& is_unmarked(line)
    &&& text::contains(text::lowercase(line), "receiving"@)
    &&& text::contains(text::lowercase(line), "text"@)
}

/// A line that reads like a text and not like one of croc's own.
pub open spec fn reads_like_a_text(line: Seq<char>) -> bool {
    &&& is_unmarked(line)
    &&& text::bytes(line) <= 2000
    &&& messages::is_no_croc_line(text::lowercase(line))
    &&& !text::contains(text::lowercase(line), "b/s"@)
    &&& !text::contains(text::lowercase(line), "file"@)
}

proof fn lemma_bare(line: Seq<char>)
    requires
        is_bare_line(line),
    ensures
        text::trim(line) == line,
        messages::candidate(line) == line,
{
    text::lemma_trim_keeps(line);
    assert(!seq!['"'].contains(line[0]) && !seq!['"'].contains(line.last()));
}

/// A session that receives by croc's leg and has no text yet.
pub open spec fn awaits_text(s: SessionModel) -> bool {
    &&& s.tool == SelectedTool::Croc || s.tool == SelectedTool::EazySendme
    &&& s.view == AppView::Receive
    &&& s.texts.received is None
    &&& messages::text_in_log(s.log, s.log.len()) is None
}

/// The line behind the one that announces a text is that text, in croc's mode and in
/// the combined mode alike. In croc's mode it is shown at once.
pub proof fn law_the_announced_line_is_the_text(
    s: SessionModel,
    announcement: Seq<char>,
    line: Seq<char>,
    env: EnvironmentModel,
)
    requires
        awaits_text(s),
        announces(announcement),
        reads_like_a_text(line),
        env.direction is None,
    ensures
        ({
            let a = session::on_message(s, MsgModel::Output(announcement), env).0;
            let t = session::on_message(a, MsgModel::Output(line), env).0;
            &&& a.texts.received is None
            &&& t.texts.received == Some(line)
            &&& s.tool == SelectedTool::Croc ==> t.texts.popup_open
            &&& t.tool == s.tool
            &&& t.view == s.view
            &&& t.state == s.state
            &&& t.cache == s.cache
            &&& t.receive_code == s.receive_code
            &&& t.eazy.ticket == s.eazy.ticket
        }),
{
    let la = text::lowercase(announcement);
    let ll = text::lowercase(line);
    lemma_bare(announcement);
    lemma_bare(line);
    messages::law_plain_lines_carry_no_text(announcement, la);
    messages::law_plain_lines_carry_no_text(line, ll);
    messages::law_only_croc_lines_are_no_texts(announcement, la);
    messages::law_only_croc_lines_are_no_texts(line, ll);
    reveal_strlit("receiving");
    reveal_strlit("receiv");
    assert("receiving"@.subrange(0, 6) =~= "receiv"@);
    lemma_part(la, "receiving"@, "receiv"@, 0);
    assert(!messages::is_no_croc_line(la)) by {
        assert(messages::croc_words()[2] == "receiving"@);
    }
    lemma_line_in_receive(s, announcement, la);
    let a = session::on_message(s, MsgModel::Output(announcement), env).0;
    assert(a.texts.expected && a.texts.received is None);
    lemma_line_in_receive(a, line, ll);
}

/// What croc hands over is what is received: a receiver who has entered a code and
/// knows no ticket for it is told by croc that a text comes, then the ticket, then
/// that croc is done. The ticket is received, and remembered under the code.
pub proof fn law_the_handed_over_ticket_is_received(
    s: SessionModel,
    announcement: Seq<char>,
    ticket: Seq<char>,
    env: EnvironmentModel,
)
    requires
        awaits_text(s),
        s.tool == SelectedTool::EazySendme,
        s.eazy.ticket is None,
        session::codes_differ(s.cache),
        announces(announcement),
        sendme::is_ticket(ticket),
        reads_like_a_text(ticket),
        env.direction is None,
    ensures
        ({
            let a = session::on_message(s, MsgModel::Output(announcement), env).0;
            let b = session::on_message(a, MsgModel::Output(ticket), env).0;
            let (t, fx, flow) = session::on_message(b, MsgModel::Completed, env);
            &&& fx.len() > 0
            &&& fx.last() == EffectModel::ReceiveTicket(ticket)
            &&& flow == Flow::Handover
            &&& t.state == s.state
            &&& t.eazy.ticket == Some(ticket)
            &&& text::trim(s.receive_code).len() > 0 ==> session::ticket_for(
                t.cache,
                text::trim(s.receive_code),
            ) == Some(ticket)
        }),
{
    law_the_announced_line_is_the_text(s, announcement, ticket, env);
    let a = session::on_message(s, MsgModel::Output(announcement), env).0;
    let b = session::on_message(a, MsgModel::Output(ticket), env).0;
    reveal(session::on_completed);
    sendme::law_tickets_are_found(ticket);
    let key = text::trim(s.receive_code);
    let e = EntryModel { code: key, ticket, timestamp: env.unix_secs };
    crate::laws::law_cache_finds_what_was_put(b.cache, e, key.push(' '));
}

/// A raw ticket reads like a text, unless by chance a word of croc's own lines stands
/// in it.
pub proof fn law_tickets_read_like_texts(ticket: Seq<char>)
    requires
        sendme::is_ticket(ticket),
        ticket.len() <= 2000,
        text::lowercase(ticket) == ticket,
        messages::is_no_croc_line(ticket),
        !text::contains(ticket, "file"@),
    ensures
        reads_like_a_text(ticket),
{
    assert forall|i: int| 0 <= i < ticket.len() implies (#[trigger] ticket[i] as u32) < 128 by {
        assert(sendme::is_ticket_char(ticket[i]));
    }
    text::lemma_ascii_bytes(ticket);
    assert(sendme::is_ticket_char(ticket[0]) && sendme::is_ticket_char(ticket.last()));
    assert(!ticket.contains(':')) by {
        if ticket.contains(':') {
            let i = choose|i: int| 0 <= i < ticket.len() && ticket[i] == ':';
            assert(sendme::is_ticket_char(ticket[i]));
        }
    }
    reveal_strlit("received text ");
    reveal_strlit("b/s");
    if text::contains(ticket, "received text "@) {
        let k = choose|k: int| text::stands_at(ticket, "received text "@, k);
        assert(ticket.subrange(k, k + 14)[8] == ' ');
        assert(sendme::is_ticket_char(ticket[k + 8]));
    }
    if text::contains(ticket, "b/s"@) {
        let k = choose|k: int| text::stands_at(ticket, "b/s"@, k);
        assert(ticket.subrange(k, k + 3)[1] == '/');
        assert(sendme::is_ticket_char(ticket[k + 1]));
    }
}

/// A text that stands on the line that announces it is received as well.
pub proof fn law_a_text_on_its_line_is_received(
    s: SessionModel,
    line: Seq<char>,
    t: Seq<char>,
    env: EnvironmentModel,
)
    requires
        s.tool == SelectedTool::Croc || s.tool == SelectedTool::EazySendme,
        s.view == AppView::Receive,
        messages::text_in_line(line) == Some(t),
        env.direction is None,
    ensures
        session::on_message(s, MsgModel::Output(line), env).0.texts.received == Some(t),
        s.texts.received != Some(t) && s.tool == SelectedTool::Croc ==> session::on_message(
            s,
            MsgModel::Output(line),
            env,
        ).0.texts.popup_open,
{
    lemma_line_in_receive(s, line, text::lowercase(line));
}

// ── Beginning ──

/// A transfer that starts runs from now on, with nothing done. Only a sendme that
/// receives is at once at its payload; all others prepare first.
pub proof fn law_a_start_begins_with_nothing_done(s: SessionModel, env: EnvironmentModel)
    ensures
        ({
            let (t, fx, flow) = session::on_message(s, MsgModel::Started, env);
            let receiving = s.tool == SelectedTool::Sendme && s.view == AppView::Receive;
            &&& fx.len() == 0
            &&& flow == Flow::Continue
            &&& t.state is Running
            &&& t.start_time == Some(s.now)
            &&& t.end_time is None
            &&& t.route is None
            &&& t.metrics.done is None
            &&& t.metrics.speed is None
            &&& !t.metrics.had_transfer
            &&& t.metrics.total == s.metrics.total
            &&& receiving ==> t.metrics.phase == TransferPhase::Transferring
                && t.metrics.payload_start == Some(s.now) && t.metrics.preparing == binary64::one()
            &&& !receiving ==> t.metrics.phase == TransferPhase::Preparing
                && t.metrics.payload_start is None && t.metrics.preparing == 0
            &&& !session::is_late(t)
            &&& t.code == s.code
            &&& t.log == s.log
            &&& t.texts == s.texts
            &&& t.eazy == s.eazy
            &&& t.cache == s.cache
        }),
{
    reveal(session::on_started);
}

/// A code that a tool names is the one that is shown; in the combined mode it is the
/// sender's ticket, which goes to croc once, under the code of the user's own where
/// there is one, and is not shown itself.
pub proof fn law_named_codes_are_shown_or_shared(
    s: SessionModel,
    code: Seq<char>,
    env: EnvironmentModel,
)
    requires
        !messages::is_masked(code),
    ensures
        ({
            let (t, fx, flow) = session::on_message(s, MsgModel::Code(code), env);
            &&& flow == Flow::Continue
            &&& t.state == s.state
            &&& s.tool != SelectedTool::EazySendme ==> t.code == Some(code) && fx.len() == 0
            &&& s.tool == SelectedTool::EazySendme && s.view != AppView::Home ==> t.code == s.code
            &&& s.tool == SelectedTool::EazySendme && s.view == AppView::Send && s.eazy.ticket
                is None ==> {
                &&& t.eazy.ticket == Some(code)
                &&& t.metrics.phase == TransferPhase::EazySharingTicket
                &&& !env.croc_there ==> fx.len() == 0
                &&& env.croc_there ==> fx == seq![
                    EffectModel::ShareTicket {
                        ticket: code,
                        secret: if s.custom_code.len() == 0 {
                            None
                        } else {
                            Some(s.custom_code)
                        },
                    },
                ]
            }
            &&& s.tool == SelectedTool::EazySendme && (s.view == AppView::Receive || (s.view
                == AppView::Send && s.eazy.ticket is Some)) ==> t.eazy.ticket == s.eazy.ticket
                && fx.len() == 0
            &&& s.tool == SelectedTool::Sendme && s.view == AppView::Send && s.metrics.phase
                == TransferPhase::Preparing ==> t.metrics.phase
                == TransferPhase::WaitingForReceiver
        }),
{
    reveal(session::on_code);
    let fx = Seq::<EffectModel>::empty();
    let e = EffectModel::ShareTicket {
        ticket: code,
        secret: if s.custom_code.len() == 0 {
            None
        } else {
            Some(s.custom_code)
        },
    };
    assert(fx.push(e) =~= seq![e]);
}

// ── Ending ──

/// A message of the program's own that is not taken for one about a file that is
/// already there.
pub open spec fn names_no_conflict(e: Seq<char>) -> bool {
    !text::contains(text::lowercase(e), "exists"@) && !text::contains(
        text::lowercase(e),
        "os error"@,
    )
}

/// A transfer that its tool completes is complete: everything is done, nothing is
/// tried again, and what a sendme receive has left on the disk is cleaned up.
pub proof fn law_completion_completes(s: SessionModel, env: EnvironmentModel)
    requires
        !(s.tool == SelectedTool::Croc && s.view == AppView::Send && s.code is None),
        !(s.tool == SelectedTool::EazySendme && s.view == AppView::Receive && s.eazy.ticket
            is None),
    ensures
        ({
            let (t, fx, flow) = session::on_message(s, MsgModel::Completed, env);
            &&& flow == Flow::Continue
            &&& t.state is Completed
            &&& t.end_time == Some(s.now)
            &&& t.metrics.progress == binary64::one()
            &&& t.metrics.preparing == binary64::one()
            &&& s.metrics.total is Some ==> t.metrics.done == s.metrics.total
            &&& s.metrics.total is None ==> t.metrics.done == s.metrics.done
            &&& t.metrics.total == s.metrics.total
            &&& t.eazy.retries == 0
            &&& t.eazy.next_retry is None
            &&& t.code == s.code
            &&& t.texts == s.texts
            &&& t.log == s.log
            &&& s.tool == SelectedTool::Sendme && s.view == AppView::Receive && s.code is Some
                ==> fx.len() > 0 && fx[0] == EffectModel::CleanUp(s.code->0)
        }),
{
    reveal(session::on_completed);
}

/// A ticket that was received under a code is forgotten with the transfer that it was
/// for, and its leftovers are cleaned up.
pub proof fn law_used_tickets_are_forgotten(s: SessionModel, env: EnvironmentModel, i: int)
    requires
        s.tool == SelectedTool::EazySendme,
        s.view == AppView::Receive,
        s.eazy.ticket is Some,
        session::codes_differ(s.cache),
        0 <= i < s.cache.len(),
        s.cache[i].code == text::trim(s.receive_code),
        env.hashes.len() <= i || env.hashes[i] is None,
    ensures
        ({
            let (t, fx, flow) = session::on_message(s, MsgModel::Completed, env);
            &&& session::ticket_for(t.cache, text::trim(s.receive_code)) is None
            &&& fx == seq![EffectModel::CleanUp(s.cache[i].ticket), EffectModel::Persist]
        }),
{
    reveal(session::on_completed);
    let key = text::trim(s.receive_code);
    crate::laws::law_cache_forgets_what_was_removed(s.cache, key);
    crate::laws::lemma_entry_is_at(s.cache, key, i);
    assert(Seq::<EffectModel>::empty().push(EffectModel::CleanUp(s.cache[i].ticket)).push(
        EffectModel::Persist,
    ) =~= seq![EffectModel::CleanUp(s.cache[i].ticket), EffectModel::Persist]);
}

/// Where croc hands over nothing, a ticket that the code stood for before is received
/// again; without one the receive fails.
pub proof fn law_known_tickets_are_received_again(s: SessionModel, env: EnvironmentModel)
    requires
        s.tool == SelectedTool::EazySendme,
        s.view == AppView::Receive,
        s.eazy.ticket is None,
        s.texts.received is None,
        names_no_conflict("Croc finished but no ticket found"@),
    ensures
        ({
            let (t, fx, flow) = session::on_message(s, MsgModel::Completed, env);
            match session::ticket_for(s.cache, text::trim(s.receive_code)) {
                Some(ticket) => {
                    &&& flow == Flow::Handover
                    &&& fx.len() > 0
                    &&& sendme::is_ticket(ticket) ==> fx.last() == EffectModel::ReceiveTicket(
                        ticket,
                    ) && t.eazy.ticket == Some(ticket)
                    &&& t.metrics.phase == TransferPhase::Preparing
                },
                None => flow == Flow::Continue && t.state is Failed && fx
                    == seq![EffectModel::CancelTransfer],
            }
        }),
{
    reveal(session::on_completed);
    match session::ticket_for(s.cache, text::trim(s.receive_code)) {
        Some(ticket) => {
            if sendme::is_ticket(ticket) {
                sendme::law_tickets_are_found(ticket);
            }
        },
        None => {
            reveal_strlit("Croc finished but no ticket found");
            lemma_own_message("Croc finished but no ticket found"@);
            assert(Seq::<EffectModel>::empty().push(EffectModel::CancelTransfer) =~= seq![
                EffectModel::CancelTransfer,
            ]);
        },
    }
}

proof fn lemma_own_message(e: Seq<char>)
    requires
        e.len() > 18,
        names_no_conflict(e),
    ensures
        e != "Transfer cancelled"@ && e != "blobs-incomplete"@ && e != "conflict-detected"@,
        !session::says_exists(text::lowercase(e)),
{
    reveal_strlit("Transfer cancelled");
    reveal_strlit("blobs-incomplete");
    reveal_strlit("conflict-detected");
    assert("Transfer cancelled"@.len() == 18);
    assert("blobs-incomplete"@.len() == 16);
    assert("conflict-detected"@.len() == 17);
    lemma_no_conflict(text::lowercase(e));
}

// ── Peers ──

/// The only receiver of a session has gone: where all bytes have been sent the transfer
/// is complete, where some are missing or none were sent it has failed, and the user is
/// told which. Sending for one receiver is over either way.
pub proof fn law_a_receiver_who_leaves_early_is_a_failure(s: SessionModel, env: EnvironmentModel)
    requires
        s.tool == SelectedTool::Sendme,
        s.serve.one_shot,
        !(s.state is Completed),
        s.metrics.total matches Some(total) && total > 0,
        names_no_conflict("Peer disconnected before transfer started"@),
        names_no_conflict("Transfer was not completed (peer disconnected early)"@),
    ensures
        ({
            let (t, fx, flow) = session::on_message(s, MsgModel::PeerDisconnected, env);
            let done = metrics::or_zero(s.metrics.done);
            &&& flow == Flow::Continue
            &&& fx == seq![EffectModel::CancelTransfer]
            &&& t.end_time == Some(s.now)
            &&& done > 0 && done >= s.metrics.total->0 ==> t.state is Completed && t.metrics.done
                == s.metrics.total && t.metrics.progress == binary64::one()
            &&& 0 < done < s.metrics.total->0 && !s.metrics.payload_complete ==> t.state
                == StateModel::Failed("Transfer was not completed (peer disconnected early)"@)
            &&& done == 0 && !s.metrics.had_transfer ==> t.state == StateModel::Failed(
                "Peer disconnected before transfer started"@,
            )
            &&& t.eazy.retries == 0
            &&& t.eazy.next_retry is None
        }),
{
    reveal(session::on_peer_disconnected);
    reveal_strlit("Peer disconnected before transfer started");
    reveal_strlit("Transfer was not completed (peer disconnected early)");
    lemma_own_message("Peer disconnected before transfer started"@);
    lemma_own_message("Transfer was not completed (peer disconnected early)"@);
    assert(Seq::<EffectModel>::empty().push(EffectModel::CancelTransfer) =~= seq![
        EffectModel::CancelTransfer,
    ]);
}

/// A receiver of a broadcast may go: the user is told that they have finished, the
/// session goes on, and waits for the next with nothing of the last.
pub proof fn law_a_broadcast_outlives_its_receivers(s: SessionModel, env: EnvironmentModel)
    requires
        s.tool == SelectedTool::Sendme,
        s.view == AppView::Send,
        !s.serve.one_shot,
        s.state is Running,
    ensures
        ({
            let (t, fx, flow) = session::on_message(s, MsgModel::PeerDisconnected, env);
            &&& flow == Flow::Continue
            &&& fx == seq![
                EffectModel::Toast {
                    message: "Peer finished downloading"@,
                    severity: Severity::Success,
                },
            ]
            &&& t.state is Running
            &&& t.code == s.code
            &&& t.metrics.phase == TransferPhase::WaitingForReceiver
            &&& t.metrics.done is None
            &&& t.metrics.progress == 0
            &&& t.metrics.total == s.metrics.total
            &&& t.log == s.log.push("Peer disconnected"@)
        }),
{
    reveal(session::on_peer_disconnected);
    let e = EffectModel::Toast {
        message: "Peer finished downloading"@,
        severity: Severity::Success,
    };
    assert(Seq::<EffectModel>::empty().push(e) =~= seq![e]);
}

/// A broadcast whose session breaks off is started anew; one for a single receiver is
/// not.
pub proof fn law_broken_broadcasts_are_started_anew(
    s: SessionModel,
    e: Seq<char>,
    env: EnvironmentModel,
)
    requires
        !(s.state is Completed),
        e == "Send session ended before transfer completed"@ || e
            == "Sendme transfer failed on sender side"@,
    ensures
        ({
            let (t, fx, flow) = session::on_message(s, MsgModel::Error(e), env);
            &&& flow == Flow::RestartServe <==> s.tool != SelectedTool::Croc && !s.serve.one_shot
            &&& flow == Flow::RestartServe ==> t.state == s.state && t.metrics == s.metrics && t.code
                == s.code && fx.len() == 0
        }),
{
    reveal(session::on_error);
    reveal_strlit("Transfer cancelled");
    reveal_strlit("Send session ended before transfer completed");
    reveal_strlit("Sendme transfer failed on sender side");
    assert("Transfer cancelled"@.len() != e.len());
}

/// A sender waits for a receiver from when its tool says so, and a receiver who is
/// there, or data that flows, begin the payload.
pub proof fn law_senders_wait_and_then_send(s: SessionModel, n: usize, env: EnvironmentModel)
    requires
        session::is_serving(s),
    ensures
        session::on_message(s, MsgModel::WaitingForReceiver, env).0.metrics.phase
            == TransferPhase::WaitingForReceiver,
        !session::is_late(s) ==> ({
            let t = session::on_message(s, MsgModel::SenderTransferActivity, env).0;
            &&& t.metrics.phase == TransferPhase::Transferring
            &&& t.metrics.had_transfer
            &&& t.serve.peer_connected
            &&& !t.serve.waiting_after_cycle
            &&& t.serve.last_activity == Some(s.now)
            &&& t.serve.active_transfers >= 1
            &&& s.metrics.phase != TransferPhase::Transferring ==> (s.metrics.payload_start is None
                ==> t.metrics.payload_start == Some(s.now))
        }),
        !s.serve.one_shot && n > 0 ==> ({
            let t = session::on_message(s, MsgModel::ActiveTransfers(n), env).0;
            &&& t.serve.active_transfers == n
            &&& t.serve.peer_connected
            &&& t.metrics.had_transfer
            &&& s.metrics.phase == TransferPhase::WaitingForReceiver ==> t.metrics.phase
                == TransferPhase::Transferring
        }),
        !s.serve.one_shot ==> ({
            let t = session::on_message(s, MsgModel::ActiveTransfers(0), env).0;
            &&& t.serve.active_transfers == 0
            &&& !t.serve.peer_connected
            &&& t.metrics == s.metrics
        }),
{
    reveal(session::on_waiting);
    reveal(session::on_activity);
    reveal(session::on_active);
}

/// A part that is reported as done is shown, unless more was shown before. While the
/// payload moves, the bytes go with it: none for nothing, all for everything.
pub proof fn law_reported_parts_are_shown(s: SessionModel, p: nat, env: EnvironmentModel)
    requires
        !(session::is_serving(s) && session::is_late(s)),
        s.metrics.phase == TransferPhase::Transferring,
        s.metrics.total matches Some(total) && 0 < total < 0x1f_ffff_ffff_ffff,
        p <= binary64::one(),
        s.metrics.done matches Some(d) ==> d <= s.metrics.total->0,
    ensures
        ({
            let t = session::on_message(s, MsgModel::Progress(p), env).0;
            &&& t.metrics.progress >= p
            &&& t.metrics.progress >= s.metrics.progress
            &&& t.metrics.progress == p || t.metrics.progress == s.metrics.progress
            &&& t.metrics.done matches Some(d)
            &&& metrics::or_zero(s.metrics.done) <= d <= s.metrics.total->0
            &&& p == 0 ==> d == metrics::or_zero(s.metrics.done)
            &&& p == binary64::one() ==> d == s.metrics.total->0
        }),
{
    reveal(session::on_progress);
    let total = s.metrics.total->0;
    binary64::law_whole_numbers_are_computed_exactly(1, total as nat);
    binary64::law_whole_numbers_are_computed_exactly(0, total as nat);
    binary64::law_whole_numbers_are_computed_exactly(total as nat, 1);
    binary64::law_whole_is_exact(1);
    binary64::law_whole_is_exact(0);
    assert(binary64::whole(1) == binary64::one());
    assert(binary64::whole(0) == 0);
    assert(1 * (total as nat) == total as nat);
    assert(0 * (total as nat) == 0);
}

// ── Failing ──

/// A transfer that the user cancels fails as cancelled, and is not tried again,
/// whether its processes say so or not.
pub proof fn law_cancelled_transfers_are_not_retried(s: SessionModel, env: EnvironmentModel)
    requires
        s.state is Running,
        names_no_conflict("Transfer cancelled"@),
    ensures
        ({
            let (t, fx, flow) = session::on_message(
                s,
                MsgModel::Error("Transfer cancelled"@),
                env,
            );
            &&& flow == Flow::Continue
            &&& t.state == StateModel::Failed("Transfer cancelled"@)
            &&& t.eazy.next_retry is None
            &&& t.eazy.retries == 0
            &&& t.end_time == Some(s.now)
            &&& fx == seq![EffectModel::CancelTransfer]
        }),
        session::was_cancelled(s).state == StateModel::Failed("Transfer cancelled"@),
        session::was_cancelled(s).end_time == Some(s.now),
        session::was_cancelled(s).log == s.log,
        session::was_cancelled(s).metrics == s.metrics,
{
    reveal(session::on_error);
    reveal_strlit("Transfer cancelled");
    reveal_strlit("blobs-incomplete");
    reveal_strlit("conflict-detected");
    assert("Transfer cancelled"@.len() == 18);
    assert("blobs-incomplete"@.len() == 16);
    assert("conflict-detected"@.len() == 17);
    lemma_no_conflict(text::lowercase("Transfer cancelled"@));
    assert(Seq::<EffectModel>::empty().push(EffectModel::CancelTransfer) =~= seq![
        EffectModel::CancelTransfer,
    ]);
}

/// Where something of the same name is already there, the user is told to rename it,
/// and nothing is tried again: it would fail again.
pub proof fn law_conflicts_are_explained_and_not_retried(s: SessionModel, env: EnvironmentModel)
    requires
        s.state is Running,
        names_no_conflict("conflict-detected"@),
        forall|i: int|
            0 <= i < s.log.len() ==> !names_lookup(text::lowercase(#[trigger] s.log[i])),
    ensures
        ({
            let (t, fx, flow) = session::on_message(s, MsgModel::Error("conflict-detected"@), env);
            &&& flow == Flow::Continue
            &&& t.state == StateModel::Failed(
                "The file/folder you intended to download has the same name as another item at the destination. Rename that item and try a new transfer."@,
            )
            &&& t.eazy.retries == 0
            &&& t.eazy.next_retry == s.eazy.next_retry
            &&& fx == seq![EffectModel::CancelTransfer]
        }),
{
    reveal(session::on_error);
    reveal_strlit("Transfer cancelled");
    reveal_strlit("blobs-incomplete");
    reveal_strlit("conflict-detected");
    reveal_strlit("Send session ended before transfer completed");
    reveal_strlit("Sendme transfer failed on sender side");
    assert("Transfer cancelled"@.len() == 18);
    assert("blobs-incomplete"@.len() == 16);
    assert("conflict-detected"@.len() == 17);
    assert("Send session ended before transfer completed"@.len() == 44);
    assert("Sendme transfer failed on sender side"@.len() == 37);
    lemma_no_conflict(text::lowercase("conflict-detected"@));
    assert forall|i: int| 0 <= i < s.log.len() implies !session::says_dns_failure(
        text::lowercase(#[trigger] s.log[i]),
    ) by {
        lemma_no_lookup(text::lowercase(s.log[i]));
    }
    assert(Seq::<EffectModel>::empty().push(EffectModel::CancelTransfer) =~= seq![
        EffectModel::CancelTransfer,
    ]);
}

/// croc's own message about a file that exists is explained in the same way.
pub proof fn law_existing_files_are_explained(s: SessionModel, e: Seq<char>, env: EnvironmentModel)
    requires
        s.state is Running,
        s.tool == SelectedTool::Croc,
        e != "Transfer cancelled"@,
        text::contains(text::lowercase(e), "already exists"@) || text::contains(
            text::lowercase(e),
            "file exists"@,
        ),
        forall|i: int|
            0 <= i < s.log.len() ==> !names_lookup(text::lowercase(#[trigger] s.log[i])),
    ensures
        session::on_message(s, MsgModel::Error(e), env).0.state == StateModel::Failed(
            "The file/folder you intended to download has the same name as another item at the destination. Rename that item and try a new transfer."@,
        ),
{
    reveal(session::on_error);
    assert forall|i: int| 0 <= i < s.log.len() implies !session::says_dns_failure(
        text::lowercase(#[trigger] s.log[i]),
    ) by {
        lemma_no_lookup(text::lowercase(s.log[i]));
    }
}

/// Where croc's relay was not found, the user is told that, and not the error that
/// comes of it. A line about it among the last fifty is enough.
pub proof fn law_unreachable_relays_are_explained(
    s: SessionModel,
    e: Seq<char>,
    env: EnvironmentModel,
    i: int,
)
    requires
        s.state is Running,
        s.tool == SelectedTool::Croc,
        e != "Transfer cancelled"@,
        0 <= i < s.log.len(),
        s.log.len() - i <= 50,
        text::contains(text::lowercase(s.log[i]), "no such host"@) || text::contains(
            text::lowercase(s.log[i]),
            "could not resolve"@,
        ) || text::contains(text::lowercase(s.log[i]), "temporary failure in name resolution"@)
            || text::contains(text::lowercase(s.log[i]), "server misbehaving"@) || text::contains(
            text::lowercase(s.log[i]),
            "cannot resolve"@,
        ) || text::contains(text::lowercase(s.log[i]), "dns error"@) || text::contains(
            text::lowercase(s.log[i]),
            "dns lookup failed"@,
        ),
        names_no_conflict(
            "Couldn't reach the relay: DNS lookup failed. Check your DNS or VPN connection and retry (details in the log below)."@,
        ),
    ensures
        session::on_message(s, MsgModel::Error(e), env).0.state == StateModel::Failed(
            "Couldn't reach the relay: DNS lookup failed. Check your DNS or VPN connection and retry (details in the log below)."@,
        ),
{
    reveal(session::on_error);
    reveal_strlit(
        "Couldn't reach the relay: DNS lookup failed. Check your DNS or VPN connection and retry (details in the log below).",
    );
    assert(session::says_dns_failure(text::lowercase(s.log[i])));
    assert(session::log_says_dns_failure(s.log));
    let a = SessionModel { eazy: EazyModel { local_check: None, ..s.eazy }, ..s };
    assert(session::log_says_dns_failure(a.log));
    lemma_own_message(
        "Couldn't reach the relay: DNS lookup failed. Check your DNS or VPN connection and retry (details in the log below)."@,
    );
}

/// Blobs that are not all here are fetched again at once, and the ticket that promised
/// them is forgotten.
pub proof fn law_missing_blobs_are_fetched_at_once(s: SessionModel, env: EnvironmentModel)
    requires
        s.state is Running,
        s.tool == SelectedTool::EazySendme,
        s.view == AppView::Receive,
        session::codes_differ(s.cache),
        forall|i: int|
            0 <= i < s.log.len() ==> !names_lookup(text::lowercase(#[trigger] s.log[i])),
    ensures
        ({
            let (t, fx, flow) = session::on_message(s, MsgModel::Error("blobs-incomplete"@), env);
            &&& flow == Flow::Continue
            &&& t.state is Failed
            &&& t.eazy.next_retry == Some(s.now)
            &&& t.eazy.ticket is None
            &&& t.eazy.retries == s.eazy.retries
            &&& text::trim(s.receive_code).len() > 0 ==> session::ticket_for(
                t.cache,
                text::trim(s.receive_code),
            ) is None
        }),
{
    reveal(session::on_error);
    reveal_strlit("Transfer cancelled");
    reveal_strlit("blobs-incomplete");
    reveal_strlit("Send session ended before transfer completed");
    reveal_strlit("Sendme transfer failed on sender side");
    assert("Transfer cancelled"@.len() == 18);
    assert("blobs-incomplete"@.len() == 16);
    assert("Send session ended before transfer completed"@.len() == 44);
    assert("Sendme transfer failed on sender side"@.len() == 37);
    assert forall|i: int| 0 <= i < s.log.len() implies !session::says_dns_failure(
        text::lowercase(#[trigger] s.log[i]),
    ) by {
        lemma_no_lookup(text::lowercase(s.log[i]));
    }
    crate::laws::law_cache_forgets_what_was_removed(s.cache, text::trim(s.receive_code));
}

/// A transfer whose tool falls silent has failed; one that is over stays as it is.
pub proof fn law_silence_is_a_failure(s: SessionModel)
    requires
        names_no_conflict("Transfer process ended unexpectedly. Please retry."@),
    ensures
        s.state is Running ==> session::on_silence(s).0.state is Failed && session::on_silence(s).1
            == seq![EffectModel::CancelTransfer],
        s.state is Running && s.tool != SelectedTool::EazySendme ==> session::on_silence(s).0.state
            == StateModel::Failed("Transfer process ended unexpectedly. Please retry."@),
        !(s.state is Running) ==> session::on_silence(s).0 == s && session::on_silence(s).1.len()
            == 0,
{
    reveal_strlit("Transfer process ended unexpectedly. Please retry.");
    lemma_own_message("Transfer process ended unexpectedly. Please retry."@);
    assert(Seq::<EffectModel>::empty().push(EffectModel::CancelTransfer) =~= seq![
        EffectModel::CancelTransfer,
    ]);
}

// ── Handing over a ticket ──

/// While croc hands over the ticket, its code is the one that is shown, and from then on
/// the peer is waited for; an error of croc's is shown, and does not end the session
/// that serves the data.
pub proof fn law_sharing_leads_to_waiting(s: SessionModel, code: Seq<char>, e: Seq<char>)
    requires
        s.tool == SelectedTool::EazySendme,
        s.view == AppView::Send,
        s.metrics.phase == TransferPhase::EazySharingTicket,
    ensures
        ({
            let (t, fx) = session::on_share_message(s, MsgModel::Code(code));
            &&& t.code == Some(code)
            &&& t.metrics.phase == TransferPhase::EazyWaitingForPeer
            &&& t.state == s.state
            &&& fx.len() == 0
        }),
        ({
            let (t, fx) = session::on_share_message(s, MsgModel::Completed);
            &&& t.metrics.phase == TransferPhase::EazyWaitingForPeer
            &&& t.state == s.state
            &&& t.code == s.code
            &&& fx.len() == 0
        }),
        ({
            let (t, fx) = session::on_share_message(s, MsgModel::Error(e));
            &&& t == s
            &&& fx == seq![
                EffectModel::Toast { message: "Croc error: "@ + e, severity: Severity::Error },
            ]
        }),
{
}

// ── Forgetting ──

/// A transfer that is forgotten leaves nothing of itself: neither state nor code, log,
/// text, amounts or times.
pub proof fn law_reset_forgets_everything(s: SessionModel)
    ensures
        ({
            let t = session::was_reset(s);
            &&& t.state is Idle
            &&& t.code is None
            &&& t.log.len() == 0
            &&& t.start_time is None
            &&& t.end_time is None
            &&& t.route is None
            &&& !t.qr_popup_open
            &&& t.texts.received is None
            &&& !t.texts.expected
            &&& !t.texts.popup_open
            &&& t.eazy.ticket is None
            &&& t.eazy.local_check is None
            &&& !t.serve.peer_connected
            &&& !t.serve.waiting_after_cycle
            &&& t.serve.last_activity is None
            &&& t.serve.active_transfers == 0
            &&& t.metrics.phase == TransferPhase::Preparing
            &&& t.metrics.progress == 0
            &&& t.metrics.preparing == 0
            &&& t.metrics.done is None
            &&& t.metrics.total is None
            &&& t.metrics.speed is None
            &&& t.metrics.sample is None
            &&& t.metrics.payload_start is None
            &&& t.metrics.cli_line is None
            &&& t.metrics.file_progress is None
            &&& t.metrics.bar_file is None
            &&& t.metrics.bar_done == 0
            &&& t.metrics.bar_total == 0
            &&& t.metrics.completed == 0
            &&& t.metrics.last_frame_at is None
            &&& t.metrics.total_items is None
            &&& t.metrics.done_estimate == 0
            &&& t.metrics.item_done == Map::<u64, u64>::empty()
            &&& t.metrics.item_total == Map::<u64, u64>::empty()
            &&& t.metrics.stream_base == 0
            &&& t.metrics.stream_done is None
            &&& t.metrics.stream_total is None
            &&& !t.metrics.payload_complete
            &&& !t.metrics.had_transfer
        }),
{
}

// ── Lines ──

/// What a line of a sendme session does to its log, its peer and its phase, in the steps
/// in which that happens.
#[verifier::spinoff_prover]
#[verifier::rlimit(60)]
proof fn lemma_line_of_sendme(s: SessionModel, line: Seq<char>, lower: Seq<char>)
    requires
        s.tool == SelectedTool::Sendme,
    ensures
        ({
            let t = session::on_output(s, line, lower, None);
            let f = crate::facts::facts(line, lower);
            &&& t.state == s.state
            &&& t.texts == s.texts
            &&& t.code == s.code
            &&& t.serve.peer_connected == (s.serve.peer_connected || session::says_connected(lower))
            &&& session::says_connected(lower) ==> t.serve.last_activity == Some(s.now)
            &&& session::is_shown_elsewhere(s, line, lower, f) ==> t.log == s.log
            &&& !session::is_shown_elsewhere(s, line, lower, f) ==> t.log
                == session::with_bounded_log(s, line).log
            &&& s.metrics.phase == TransferPhase::Transferring || (s.view == AppView::Receive
                && session::says_receiving(lower)) ==> (s.state is Running || s.view
                == AppView::Receive ==> t.metrics.phase == TransferPhase::Transferring)
        }),
{
    reveal(session::on_output);
    let f = crate::facts::facts(line, lower);
    assert(session::with_route(s, None) == s);
    let a = session::with_signals(s, lower);
    assert(a.log == s.log && a.serve == s.serve && a.tool == s.tool && a.view == s.view && a.state
        == s.state && a.texts == s.texts && a.code == s.code && a.now == s.now);
    let c = session::context_of(a);
    let b = if a.state is Running {
        SessionModel { metrics: metrics::after_line(a.metrics, c, f, false), ..a }
    } else {
        a
    };
    if a.metrics.phase == TransferPhase::Transferring {
        metrics::law_transferring_stays(a.metrics, c, f, false);
    }
    assert(a.metrics.phase == TransferPhase::Transferring ==> b.metrics.phase
        == TransferPhase::Transferring);
    let e = session::with_sender_phase(b, lower, false);
    assert(e.log == s.log && e.serve == s.serve && e.tool == s.tool && e.texts == s.texts && e.code
        == s.code && e.state == s.state && e.now == s.now);
    assert(b.metrics.phase == TransferPhase::Transferring ==> e.metrics.phase
        == TransferPhase::Transferring);
    let g = session::logged(e, line, lower, f, false);
    assert(g.serve == s.serve && g.metrics == e.metrics && g.now == s.now);
    let h = session::with_peer(g, lower);
    assert(h.log == g.log);
    let last = session::with_flow(h, f);
    assert(last.log == g.log);
    assert(last.serve.peer_connected == h.serve.peer_connected);
    assert(session::on_output(s, line, lower, None) == last);
}

/// A line of sendme's goes to the log, unless it only redraws how far the transfer is.
#[verifier::spinoff_prover]
pub proof fn law_lines_of_sendme_are_logged(s: SessionModel, line: Seq<char>, env: EnvironmentModel)
    requires
        s.tool == SelectedTool::Sendme,
        s.log.len() < 500,
        env.direction is None,
        !sendme::is_request_line(line),
        !text::contains(text::lowercase(line), "..."@),
        !"n "@.is_prefix_of(line),
    ensures
        session::on_message(s, MsgModel::Output(line), env).0.log == s.log.push(line),
{
    let lower = text::lowercase(line);
    lemma_no_redraw(lower);
    lemma_line_of_sendme(s, line, lower);
    let f = crate::facts::facts(line, lower);
    assert(!f.request_line);
    assert(!session::is_shown_elsewhere(s, line, lower, f));
}

proof fn lemma_no_redraw(lower: Seq<char>)
    requires
        !text::contains(lower, "..."@),
    ensures
        !text::contains(lower, "downloading ..."@) && !text::contains(lower, "uploading ..."@)
            && !text::contains(lower, "writing... "@),
{
    reveal_strlit("...");
    reveal_strlit("downloading ...");
    reveal_strlit("uploading ...");
    reveal_strlit("writing... ");
    assert("downloading ..."@.subrange(12, 15) =~= "..."@);
    assert("uploading ..."@.subrange(10, 13) =~= "..."@);
    assert("writing... "@.subrange(7, 10) =~= "..."@);
    if text::contains(lower, "downloading ..."@) {
        lemma_part(lower, "downloading ..."@, "..."@, 12);
    }
    if text::contains(lower, "uploading ..."@) {
        lemma_part(lower, "uploading ..."@, "..."@, 10);
    }
    if text::contains(lower, "writing... "@) {
        lemma_part(lower, "writing... "@, "..."@, 7);
    }
}

/// A line about a connection to a peer means that the peer is there.
pub proof fn law_connections_are_noticed(s: SessionModel, line: Seq<char>, env: EnvironmentModel)
    requires
        s.tool == SelectedTool::Sendme,
        env.direction is None,
        text::contains(text::lowercase(line), "disco_in{endpoint="@) || text::contains(
            text::lowercase(line),
            "new direct addr for endpoint"@,
        ) || text::contains(text::lowercase(line), "new connection type"@) || text::contains(
            text::lowercase(line),
            "typ=direct"@,
        ) || text::contains(text::lowercase(line), "typ=mixed"@) || text::contains(
            text::lowercase(line),
            "connect{"@,
        ) || text::contains(text::lowercase(line), "add_endpoint_addr"@),
    ensures
        session::on_message(s, MsgModel::Output(line), env).0.serve.peer_connected,
        session::on_message(s, MsgModel::Output(line), env).0.serve.last_activity == Some(s.now),
{
    lemma_line_of_sendme(s, line, text::lowercase(line));
}

/// A receiver's payload moves from when sendme says that it downloads or writes.
pub proof fn law_downloads_begin_the_payload(s: SessionModel, line: Seq<char>, env: EnvironmentModel)
    requires
        s.tool == SelectedTool::Sendme,
        s.view == AppView::Receive,
        env.direction is None,
        text::contains(text::lowercase(line), "[2/4] downloading"@) || text::contains(
            text::lowercase(line),
            "[3/4] downloading"@,
        ) || text::contains(text::lowercase(line), "[4/4] writing files to disk"@)
            || text::contains(text::lowercase(line), "[4/4] writing..."@),
    ensures
        session::on_message(s, MsgModel::Output(line), env).0.metrics.phase
            == TransferPhase::Transferring,
{
    lemma_line_of_sendme(s, line, text::lowercase(line));
}

/// The watch over what is already here ends when it is exported or written.
pub proof fn law_exports_end_the_watch(s: SessionModel, line: Seq<char>, env: EnvironmentModel)
    requires
        text::contains(text::lowercase(line), "[local] blobs complete locally, exporting"@)
            || text::contains(text::lowercase(line), "[4/4] writing files to disk"@)
            || text::contains(text::lowercase(line), "[4/4] writing..."@),
    ensures
        session::on_message(s, MsgModel::Output(line), env).0.eazy.local_check is None,
{
    crate::laws::lemma_exporting_ends_watch(s, line, text::lowercase(line), env.direction);
}

/// The way that croc names for its data is kept as it was named.
pub proof fn law_named_ways_are_kept(
    s: SessionModel,
    line: Seq<char>,
    label: Seq<char>,
    env: EnvironmentModel,
)
    requires
        s.tool == SelectedTool::Croc,
        s.route is None,
        env.direction == Some(label),
    ensures
        session::on_message(s, MsgModel::Output(line), env).0.route == Some(label),
{
    crate::laws::lemma_route_of(s, line, text::lowercase(line), env.direction);
}

/// A sender of sendme's or of the combined mode waits from when the command for the
/// receiver is printed, a sender of croc's from when its code can be handed on, unless
/// the line itself shows that data flows.
pub proof fn law_printed_commands_lead_to_waiting(s: SessionModel, lower: Seq<char>)
    requires
        s.view == AppView::Send,
        s.state is Running,
        s.metrics.phase == TransferPhase::Preparing,
    ensures
        s.tool != SelectedTool::Croc && text::contains(lower, "sendme receive "@)
            ==> session::with_sender_phase(s, lower, false).metrics.phase
            == TransferPhase::WaitingForReceiver,
        s.tool == SelectedTool::Croc && text::contains(lower, "code copied to clipboard"@)
            ==> session::with_sender_phase(s, lower, false).metrics.phase
            == TransferPhase::WaitingForReceiver,
        s.tool == SelectedTool::Croc && text::contains(lower, "code copied to clipboard"@)
            ==> session::with_sender_phase(s, lower, true).metrics.phase
            == TransferPhase::Transferring,
        !text::contains(lower, "sendme receive "@) && !text::contains(
            lower,
            "code copied to clipboard"@,
        ) ==> session::with_sender_phase(s, lower, false) == s,
{
}

} // verus!
