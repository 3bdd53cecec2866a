//! What sendme's events come to, on both sides.

use crate::binary64;
use crate::binary64::whole;
use crate::display;
use crate::numerals;
use crate::numerals::Real;
use crate::progress;
use crate::receiver;
use crate::receiver::{LocalEnd, ReceiveEnd};
use crate::sender;
use crate::sender::{EventModel, Next, RequestModel, SenderInput, SenderModel};
use crate::sendme;
use crate::text;
use crate::transfer::MsgModel;
use vstd::prelude::*;

verus! {

// ── Names and payloads ──

/// Every event is known by its name, and no other name is.
pub proof fn law_events_are_known_by_name(name: Seq<char>)
    ensures
        receiver::event_named("transfer-started"@) == Some(EventModel::TransferStarted),
        receiver::event_named("transfer-completed"@) == Some(EventModel::TransferCompleted),
        receiver::event_named("transfer-failed"@) == Some(EventModel::TransferFailed),
        receiver::event_named("receive-started"@) == Some(EventModel::ReceiveStarted),
        receiver::event_named("receive-completed"@) == Some(EventModel::ReceiveCompleted),
        receiver::event_named(name) is Some ==> name == "transfer-started"@ || name
            == "transfer-completed"@ || name == "transfer-failed"@ || name == "receive-started"@
            || name == "receive-completed"@,
{
    reveal_strlit("transfer-started");
    reveal_strlit("transfer-completed");
    reveal_strlit("transfer-failed");
    reveal_strlit("receive-started");
    reveal_strlit("receive-completed");
    assert("transfer-started"@.len() == 16);
    assert("transfer-completed"@.len() == 18);
    assert("transfer-failed"@.len() == 15);
    assert("receive-started"@.len() == 15);
    assert("receive-completed"@.len() == 17);
    assert("receive-started"@[0] != "transfer-failed"@[0]);
}

proof fn lemma_colon(a: nat, rest: Seq<char>)
    ensures
        receiver::first_part(numerals::decimal(a) + seq![':'] + rest) == (
            numerals::decimal(a),
            Some(rest),
        ),
        receiver::first_part(numerals::decimal(a)) == (
            numerals::decimal(a),
            None::<Seq<char>>,
        ),
        text::trim(numerals::decimal(a)) == numerals::decimal(a),
{
    reveal_strlit(":");
    assert(":"@ =~= seq![':']);
    let s = numerals::decimal(a);
    numerals::law_decimal_is_read_back(a);
    numerals::lemma_digits_have_no_marks(s);
    text::law_split_at_the_first(s, ':', rest);
    text::lemma_no_split(s, ':');
    assert(!text::is_space(s[0]) && !text::is_space(s[s.len() - 1]));
    text::lemma_trim_keeps(s);
}

/// Progress is read as it is written: what is done, what there is, and the speed in
/// thousandths, with colons between them. It is the sender's or the receiver's by its
/// name.
pub proof fn law_progress_is_read_as_written(done: u64, total: u64, speed: nat)
    requires
        speed * 1000 < 0x20_0000_0000_0000,
    ensures
        ({
            let payload = numerals::decimal(done as nat) + seq![':'] + (numerals::decimal(
                total as nat,
            ) + seq![':'] + numerals::decimal(speed * 1000));
            let v = Real::Number { negative: false, units: whole(speed) };
            &&& receiver::event_with("transfer-progress"@, payload) == Some(
                EventModel::TransferProgress { done, total, speed: v },
            )
            &&& receiver::event_with("receive-progress"@, payload) == Some(
                EventModel::ReceiveProgress { done, total, speed: v },
            )
        }),
{
    reveal_strlit("transfer-progress");
    reveal_strlit("receive-progress");
    assert("transfer-progress"@.len() == 17 && "receive-progress"@.len() == 16);
    let c = numerals::decimal(speed * 1000);
    lemma_colon(total as nat, c);
    lemma_colon(speed * 1000, c);
    lemma_colon(
        done as nat,
        numerals::decimal(total as nat) + seq![':'] + c,
    );
    numerals::law_decimal_is_read_back(done as nat);
    numerals::law_decimal_is_read_back(total as nat);
    numerals::law_decimal_is_read_back(speed * 1000);
    assert(text::is_digit(c[0]));
    assert(speed + 1000 < 0x20_0000_0000_0000);
    binary64::law_whole_numbers_are_computed_exactly(speed, 1000);
}

/// A count of connections and the progress of an export are read as they are written.
pub proof fn law_counts_are_read_as_written(n: usize, done: u64, total: u64)
    ensures
        receiver::event_with("active-connection-count"@, numerals::decimal(n as nat)) == Some(
            EventModel::ActiveConnectionCount(n),
        ),
        receiver::event_with(
            "receive-export-progress"@,
            numerals::decimal(done as nat) + seq![':'] + numerals::decimal(total as nat),
        ) == Some(EventModel::ReceiveExportProgress { done, total }),
        receiver::event_with("receive-export-started"@, Seq::empty()) == Some(
            EventModel::ReceiveExportStarted,
        ),
{
    reveal_strlit("transfer-progress");
    reveal_strlit("receive-progress");
    reveal_strlit("active-connection-count");
    reveal_strlit("receive-export-progress");
    reveal_strlit("receive-export-started");
    assert("transfer-progress"@.len() == 17 && "receive-progress"@.len() == 16);
    assert("active-connection-count"@.len() == 23);
    assert("receive-export-progress"@.len() == 23);
    assert("receive-export-started"@.len() == 22);
    assert("receive-export-progress"@[0] != "active-connection-count"@[0]);
    lemma_colon(n as nat, Seq::empty());
    lemma_colon(done as nat, numerals::decimal(total as nat));
    lemma_colon(total as nat, Seq::empty());
    numerals::law_decimal_is_read_back(n as nat);
    numerals::law_decimal_is_read_back(done as nat);
    numerals::law_decimal_is_read_back(total as nat);
}

// ── The receiver ──

pub open spec fn largest_of(a: u64, b: u64) -> u64 {
    if a < b {
        b
    } else {
        a
    }
}

proof fn lemma_counter_word(done: nat, total: nat)
    requires
        done <= u64::MAX,
        total <= u64::MAX,
    ensures
        ({
            let w = numerals::decimal(done) + seq!['/'] + numerals::decimal(total);
            &&& sendme::counter(w) == Some((done as u64, total as u64))
            &&& w.len() > 0
            &&& forall|i: int| 0 <= i < w.len() ==> !text::is_space(#[trigger] w[i])
        }),
{
    let a = numerals::decimal(done);
    let b = numerals::decimal(total);
    let w = a + seq!['/'] + b;
    reveal_strlit("/");
    assert("/"@ =~= seq!['/']);
    numerals::law_decimal_is_read_back(done);
    numerals::law_decimal_is_read_back(total);
    numerals::lemma_digits_have_no_marks(a);
    numerals::lemma_digits_have_no_marks(b);
    text::law_split_at_the_first(a, '/', b);
    assert(w[0] == a[0] && w.last() == b[b.len() - 1]);
    assert(text::is_digit(a[0]) && text::is_digit(b[b.len() - 1]));
    assert(!progress::fences().contains(w[0]) && !progress::fences().contains(w.last()));
    assert(progress::bare(w) == w);
    assert forall|i: int| 0 <= i < w.len() implies !text::is_space(#[trigger] w[i]) by {
        if i < a.len() {
            assert(w[i] == a[i]);
        } else if i > a.len() {
            assert(w[i] == b[i - a.len() - 1]);
        }
    }
}

/// The counter behind the word `r` is read wherever it stands on a line, with its two
/// numbers as they are written.
pub proof fn law_counters_are_read(pre: Seq<Seq<char>>, done: u64, total: u64, rest: Seq<Seq<char>>)
    requires
        forall|i: int| 0 <= i < pre.len() ==> #[trigger] pre[i] != "r"@,
    ensures
        sendme::r_counter_from(
            pre + seq![
                "r"@,
                numerals::decimal(done as nat) + seq!['/'] + numerals::decimal(total as nat),
            ] + rest,
            0,
        ) == Some((done, total)),
{
    let w = numerals::decimal(done as nat) + seq!['/'] + numerals::decimal(total as nat);
    let ws = pre + seq!["r"@, w] + rest;
    lemma_counter_word(done as nat, total as nat);
    lemma_counter_skips(ws, 0, pre.len() as int);
    assert(ws[pre.len() as int] == "r"@ && ws[pre.len() as int + 1] == w);
}

proof fn lemma_counter_skips(ws: Seq<Seq<char>>, k: int, to: int)
    requires
        0 <= k <= to,
        to + 1 < ws.len(),
        forall|i: int| k <= i < to ==> #[trigger] ws[i] != "r"@,
    ensures
        sendme::r_counter_from(ws, k) == sendme::r_counter_from(ws, to),
    decreases to - k,
{
    if k < to {
        lemma_counter_skips(ws, k + 1, to);
    }
}

/// The line with which a receiver's progress goes to the session is read there with the
/// bytes that were done, of a total that is never less and never nothing.
pub proof fn law_receivers_counters_are_read_back(done: u64, total: u64)
    ensures
        sendme::r_counter_from(text::words(receiver::counter_line(done, total)), 0) == Some(
            (done, largest_of(1, largest_of(total, done))),
        ),
{
    let t = largest_of(1, largest_of(total, done));
    let w = numerals::decimal(done as nat) + seq!['/'] + numerals::decimal(t as nat);
    lemma_counter_word(done as nat, t as nat);
    reveal_strlit("n native r ");
    reveal_strlit("/");
    reveal_strlit(" i 0 # recv");
    reveal_strlit("r");
    let n = seq!['n'];
    let native = seq!['n', 'a', 't', 'i', 'v', 'e'];
    let r = seq!['r'];
    let end = " i 0 # recv"@;
    let a = w + end;
    let b = seq![' '] + a;
    let c = r + b;
    let d = seq![' '] + c;
    let e = native + d;
    let f = seq![' '] + e;
    assert(receiver::shown_total(done, total) == t);
    assert(receiver::counter_line(done, total) =~= n + f);
    assert(text::is_space(' '));
    text::lemma_first_word(w, end);
    text::lemma_words_skip_space(' ', a);
    text::lemma_first_word(r, b);
    text::lemma_words_skip_space(' ', c);
    text::lemma_first_word(native, d);
    text::lemma_words_skip_space(' ', e);
    text::lemma_first_word(n, f);
    let ws = text::words(receiver::counter_line(done, total));
    let rest = text::words(end);
    assert("r"@ =~= r);
    assert(n != r && native != r) by {
        assert(n[0] != r[0]);
        assert(native[0] != r[0]);
    }
    assert(ws =~= seq![n, native] + seq!["r"@, w] + rest);
    law_counters_are_read(seq![n, native], done, t, rest);
}

/// A receiver's progress is passed on as a part, where there is anything to do, and as
/// the two lines about it; what has been received, and what is written, is said to be.
pub proof fn law_receives_are_reported(done: u64, total: u64, speed: Real)
    ensures
        ({
            let m = receiver::receive_messages(EventModel::ReceiveProgress { done, total, speed });
            &&& total > 0 ==> m.len() == 3 && m[0] == MsgModel::Progress(
                binary64::fraction(done as nat, total as nat),
            )
            &&& total == 0 ==> m.len() == 2
            &&& m.last() == MsgModel::Output(receiver::counter_line(done, total))
            &&& m[m.len() - 2] == MsgModel::Output(
                "[3/4] Downloading ... "@ + display::size_unit(done) + " / "@ + display::size_unit(
                    largest_of(1, largest_of(total, done)),
                ) + " "@ + display::speed_unit(speed),
            )
        }),
        receiver::receive_messages(EventModel::ReceiveStarted) == seq![
            MsgModel::Output("[2/4] Downloading..."@),
        ],
        receiver::receive_messages(EventModel::ReceiveCompleted) == seq![
            MsgModel::Progress(binary64::one()),
        ],
        receiver::receive_messages(EventModel::ReceiveExportStarted) == seq![
            MsgModel::Output("[4/4] Writing files to disk..."@),
        ],
        ({
            let m = receiver::receive_messages(EventModel::ReceiveExportProgress { done, total });
            &&& m.len() > 0
            &&& m[0] == MsgModel::Output(
                "[4/4] Writing... "@ + display::size_unit(done) + " / "@ + display::size_unit(
                    largest_of(1, largest_of(total, done)),
                ),
            )
            &&& total > 0 ==> m.len() == 2 && m[1] == MsgModel::Progress(
                binary64::fraction(done as nat, total as nat),
            )
        }),
        receiver::local_messages(EventModel::ReceiveStarted) == seq![
            MsgModel::Output("[local] Blobs complete locally, exporting..."@),
        ],
{
}

/// Only a receive that succeeded completes, with everything done; what went wrong with
/// any other is passed on. Blobs that are missing are said to be.
pub proof fn law_only_successful_receives_complete(end: ReceiveEnd, local: LocalEnd, lower: Seq<char>)
    ensures
        ({
            let m = receiver::receive_end_messages(end, lower);
            &&& m.len() > 0
            &&& m.last() is Completed <==> end is Done
            &&& end is Done ==> m.len() == 3 && m[1] == MsgModel::Progress(binary64::one()) && m[0]
                == MsgModel::Output(lower)
            &&& end matches ReceiveEnd::Failed(e) ==> m == seq![MsgModel::Error(e@)]
            &&& end matches ReceiveEnd::Lost(e) ==> m == seq![
                MsgModel::Error("Receive task ended unexpectedly: "@ + e@),
            ]
        }),
        ({
            let m = receiver::local_end_messages(local);
            &&& m.len() > 0
            &&& m.last() is Completed <==> local is Exported
            &&& local is Exported ==> m.len() == 2 && m[0] == MsgModel::Progress(binary64::one())
            &&& local is Incomplete ==> m == seq![MsgModel::Error("blobs-incomplete"@)]
            &&& local matches LocalEnd::Failed(e) ==> m == seq![MsgModel::Error(e@)]
            &&& local matches LocalEnd::Lost(e) ==> m == seq![
                MsgModel::Error("Local check task failed: "@ + e@),
            ]
        }),
{
}

// ── The sender ──

/// A session is announced with its ticket, with the command that receives it, and with
/// what it serves; then a receiver is waited for.
pub proof fn law_shares_are_announced(ticket: Seq<char>, kind: Seq<char>, size: u64)
    ensures
        ({
            let m = sender::share_announcement(ticket, kind, size);
            &&& m.len() > 0
            &&& m[0] == MsgModel::Code(ticket)
            &&& m.contains(MsgModel::Output("sendme receive "@ + ticket))
            &&& m.contains(
                MsgModel::Output("imported "@ + kind + " native, "@ + display::size_unit(size)),
            )
            &&& m.last() is WaitingForReceiver
        }),
        sendme::is_ticket(ticket) ==> sendme::ticket_in("sendme receive "@ + ticket) == Some(
            ticket,
        ),
{
    let m = sender::share_announcement(ticket, kind, size);
    assert(m[2] == MsgModel::Output("sendme receive "@ + ticket));
    assert(m[1] == MsgModel::Output(
        "imported "@ + kind + " native, "@ + display::size_unit(size),
    ));
    if sendme::is_ticket(ticket) {
        sendme::law_tickets_are_found(ticket);
    }
}

/// A transfer that completes is shown complete. A session for one receiver is then over,
/// a broadcast waits for the next.
pub proof fn law_completed_sends_end_or_go_on(s: SenderModel, now: u64)
    ensures
        ({
            let (t, m, next) = sender::on_event(s, EventModel::TransferCompleted, now);
            &&& m.contains(MsgModel::Progress(binary64::one()))
            &&& m.contains(MsgModel::Output("finished sending to client"@))
            &&& s.one_shot ==> m.last() is PeerDisconnected && next == Next::Stop
            &&& !s.one_shot ==> m.last() is WaitingForReceiver && next == Next::Continue
                && t.waiting && !t.had_transfer && t.max == 0 && t.requests.len() == 0
        }),
{
    let (t, m, next) = sender::on_event(s, EventModel::TransferCompleted, now);
    assert(m[m.len() - 3] == MsgModel::Progress(binary64::one()));
    assert(m[m.len() - 2] == MsgModel::Output("finished sending to client"@));
}

/// A transfer that breaks off ends a session for one receiver: with its receiver gone
/// where data had flowed, and else with an error. A broadcast waits for the next.
pub proof fn law_broken_sends_end_or_go_on(s: SenderModel, now: u64)
    ensures
        ({
            let (t, m, next) = sender::on_event(s, EventModel::TransferFailed, now);
            &&& s.one_shot ==> next == Next::Stop
            &&& s.one_shot && s.had_transfer ==> m == seq![MsgModel::PeerDisconnected]
            &&& s.one_shot && !s.had_transfer ==> m == seq![
                MsgModel::Error("Sendme transfer failed on sender side"@),
            ]
            &&& !s.one_shot && !s.waiting ==> next == Next::Continue && m.len() > 0 && m.last()
                is WaitingForReceiver && t.waiting
        }),
        ({
            let (t, m, next) = sender::sender_step(s, SenderInput::Disconnected, now);
            &&& s.one_shot ==> next == Next::Stop
            &&& s.one_shot && s.had_transfer ==> m == seq![MsgModel::PeerDisconnected]
            &&& s.one_shot && !s.had_transfer ==> m == seq![
                MsgModel::Error("Send session ended before transfer started"@),
            ]
            &&& !s.one_shot && !s.waiting ==> next == Next::Pause && m.len() > 0 && m.last()
                is WaitingForReceiver && t.waiting
        }),
        ({
            let (t, m, next) = sender::sender_step(s, SenderInput::Cancelled, now);
            m == seq![MsgModel::Error("Transfer cancelled"@)] && next == Next::Stop
        }),
        ({
            let (t, m, next) = sender::sender_step(s, SenderInput::Timeout, now);
            t == s && m.len() == 0 && next == Next::Continue
        }),
{
    let a = sender::on_event(s, EventModel::TransferFailed, now).1;
    let b = sender::sender_step(s, SenderInput::Disconnected, now).1;
    if s.one_shot {
        assert(a =~= seq![a[0]]);
        assert(b =~= seq![b[0]]);
    }
}

/// A sender's progress is passed on as the part of the total that was sent, as soon as
/// it is more than before; that data flows is said once.
pub proof fn law_sends_are_reported(s: SenderModel, done: u64, total: u64, speed: Real, now: u64)
    requires
        s.one_shot || !s.waiting,
        0 < total,
        done <= total,
    ensures
        ({
            let (t, m, next) = sender::on_event(
                s,
                EventModel::TransferProgress { done, total, speed },
                now,
            );
            let part = binary64::fraction(done as nat, total as nat);
            &&& next == Next::Continue
            &&& t.had_transfer
            &&& t.last_total == total
            &&& !s.activity ==> m.len() > 0 && m[0] is SenderTransferActivity
            &&& s.activity ==> forall|i: int|
                0 <= i < m.len() ==> !(#[trigger] m[i] is SenderTransferActivity)
            &&& part > s.max ==> m.contains(MsgModel::Progress(part)) && t.max == part
            &&& part <= s.max ==> t.max == s.max
        }),
{
    let (t, m, next) = sender::on_event(
        s,
        EventModel::TransferProgress { done, total, speed },
        now,
    );
    let part = binary64::fraction(done as nat, total as nat);
    if part > s.max {
        if s.activity {
            assert(m[0] == MsgModel::Progress(part));
        } else {
            assert(m[1] == MsgModel::Progress(part));
        }
    }
}

/// Every request has a line of its own: when it begins, with nothing sent of its total;
/// as it goes on; and when it is done, with all of it.
pub proof fn law_requests_have_their_lines(
    s: SenderModel,
    connection: u64,
    request: u64,
    hash: Seq<char>,
    total: u64,
    now: u64,
)
    requires
        s.one_shot || !s.waiting,
        0 < total,
        sender::request_at(s.requests, connection, request) is None,
    ensures
        ({
            let (t, m, next) = sender::on_event(
                s,
                EventModel::SenderRequestStarted { connection, request, hash, total },
                now,
            );
            let r = RequestModel { connection, request, hash, total, done: 0, started: now };
            &&& t.requests == s.requests.push(r)
            &&& m.len() > 0
            &&& m.last() == MsgModel::Output(display::request_line(hash, 0, 0, total))
        }),
{
}

/// A request that goes on keeps what was sent of it, at most its total, and shows it when
/// it is complete or when its last line is old enough.
pub proof fn law_requests_go_on(
    s: SenderModel,
    connection: u64,
    request: u64,
    done: u64,
    now: u64,
    i: int,
)
    requires
        s.one_shot || !s.waiting,
        s.activity,
        sender::request_at(s.requests, connection, request) == Some(i),
        0 <= i < s.requests.len(),
        s.requests[i].done <= done <= s.requests[i].total,
        s.requests[i].started <= now,
        s.last_request <= now,
    ensures
        ({
            let r = s.requests[i];
            let (t, m, next) = sender::on_event(
                s,
                EventModel::SenderRequestProgress { connection, request, done },
                now,
            );
            &&& t.requests == s.requests.update(i, RequestModel { done, ..r })
            &&& done == r.total || now - s.last_request >= 90_000_000 ==> m == seq![
                MsgModel::Output(
                    display::request_line(
                        r.hash,
                        ((now - r.started) / 1_000_000_000) as u64,
                        done,
                        r.total,
                    ),
                ),
            ]
            &&& 0 < done < r.total && now - s.last_request < 90_000_000 ==> m.len() == 0
        }),
{
    let (t, m, next) = sender::on_event(
        s,
        EventModel::SenderRequestProgress { connection, request, done },
        now,
    );
    if m.len() > 0 {
        assert(m =~= seq![m[0]]);
    }
}

/// Connections are passed on as they are counted; the first of them begins a cycle.
pub proof fn law_connections_are_passed_on(s: SenderModel, n: usize, now: u64)
    ensures
        ({
            let (t, m, next) = sender::on_event(s, EventModel::ActiveConnectionCount(n), now);
            &&& m.len() > 0
            &&& m[0] == MsgModel::ActiveTransfers(n)
            &&& next == Next::Continue
            &&& (s.one_shot || !s.waiting) && n > 0 ==> t.had_transfer
            &&& !s.one_shot && s.waiting && s.seen_zero && n > 0 ==> !t.waiting && t.had_transfer
            &&& !s.one_shot && s.waiting && n == 0 ==> t.seen_zero && t.waiting
        }),
{
}

/// A session that begins has sent nothing and reported nothing.
pub proof fn law_sessions_begin_fresh(one_shot: bool, now: u64)
    ensures
        ({
            let s = sender::fresh_sender(one_shot, now);
            &&& s.one_shot == one_shot
            &&& !s.had_transfer
            &&& !s.activity
            &&& !s.waiting
            &&& s.max == 0
            &&& s.requests.len() == 0
            &&& s.last_total == 0
        }),
{
}

/// Items are sent under the name of the largest of them, cut to twenty characters; that
/// there are more is said behind it.
pub proof fn law_items_are_named_after_the_largest(
    names: Seq<Option<Seq<char>>>,
    sizes: Seq<u64>,
    i: int,
)
    requires
        names.len() == sizes.len(),
        0 <= i < sizes.len(),
        names[i] is Some,
        forall|j: int| 0 <= j < sizes.len() && j != i ==> #[trigger] sizes[j] < sizes[i],
    ensures
        ({
            let name = names[i]->0;
            let root = sender::root_name(names, sizes);
            &&& name.len() <= 20 && names.len() == 1 ==> root == name + "_databeam"@
            &&& name.len() <= 20 && names.len() > 1 ==> root == name + "_and_more"@ + "_databeam"@
            &&& name.len() > 20 && names.len() == 1 ==> root == name.take(20) + "_databeam"@
            &&& name.len() > 20 && names.len() > 1 ==> root == name.take(20) + "_and_more"@
                + "_databeam"@
        }),
{
    lemma_largest(sizes, sizes.len(), i);
    let name = names[i]->0;
    assert(name + Seq::<char>::empty() =~= name);
    assert(name.len() > 20 ==> name.take(20) + Seq::<char>::empty() =~= name.take(20));
}

proof fn lemma_largest(sizes: Seq<u64>, n: nat, i: int)
    requires
        n <= sizes.len(),
        0 <= i < sizes.len(),
        forall|j: int| 0 <= j < sizes.len() && j != i ==> #[trigger] sizes[j] < sizes[i],
    ensures
        n > 0 ==> 0 <= sender::largest(sizes, n) < n,
        i < n ==> sender::largest(sizes, n) == i,
    decreases n,
{
    if n > 0 {
        lemma_largest(sizes, (n - 1) as nat, i);
        assert(sender::largest(sizes, 0) == 0);
        let k = sender::largest(sizes, (n - 1) as nat);
        if n > 1 {
            assert(0 <= k < n - 1);
            if i == n - 1 {
                assert(sizes[k] < sizes[i]);
            } else if i < n - 1 {
                assert(sizes[n - 1] < sizes[i]);
            }
        }
    }
}

// ── Pace ──

/// The time that has passed, none where the clock went back.
pub open spec fn passed(now: u64, earlier: u64) -> int {
    if now >= earlier {
        now - earlier
    } else {
        0
    }
}

/// How far an upload is goes to the log at most five times a second, where it has come
/// further or begins; the part that is done is told where it is larger than any before,
/// and never falls.
pub proof fn law_uploads_are_logged_five_times_a_second(
    s: SenderModel,
    done: u64,
    total: u64,
    speed: Real,
    now: u64,
)
    requires
        s.one_shot || !s.waiting,
        s.activity,
        0 < total,
        done <= total,
    ensures
        ({
            let (t, out, next) = sender::on_event(
                s,
                EventModel::TransferProgress { done, total, speed },
                now,
            );
            let part = binary64::fraction(done as nat, total as nat);
            let line = MsgModel::Output(
                "[3/4] Uploading ... "@ + display::size_unit(done) + " / "@ + display::size_unit(
                    total,
                ) + " "@ + display::speed_unit(speed),
            );
            let logged = (done == 0 || done > s.last_logged) && passed(now, s.last_progress)
                >= 200_000_000;
            &&& next == Next::Continue
            &&& t.max >= s.max
            &&& part > s.max ==> t.max == part && out.len() > 0 && out[0] == MsgModel::Progress(
                part,
            )
            &&& part <= s.max ==> t.max == s.max && (out.len() > 0 && out[0] is Progress ==> out[0]
                == MsgModel::Progress(s.max))
            &&& logged ==> out.len() > 0 && out.last() == line && t.last_logged == done
                && t.last_progress == now
            &&& !logged ==> t.last_logged == s.last_logged && t.last_progress == s.last_progress
                && (out.len() > 0 ==> out.last() is Progress) && out.len() <= 1
            &&& t.last_total == total
            &&& t.last_speed == speed
            &&& t.requests == s.requests
        }),
{
}

/// A request that is known never goes back and never beyond its end; it is shown when it
/// begins, when it is done, and otherwise when 90 milliseconds have passed.
pub proof fn law_requests_only_go_forward(
    s: SenderModel,
    i: int,
    done: u64,
    now: u64,
)
    requires
        s.one_shot || !s.waiting,
        s.activity,
        0 <= i < s.requests.len(),
        sender::request_at(s.requests, s.requests[i].connection, s.requests[i].request) == Some(i),
        s.requests[i].done <= s.requests[i].total,
    ensures
        ({
            let r = s.requests[i];
            let (t, out, next) = sender::on_event(
                s,
                EventModel::SenderRequestProgress {
                    connection: r.connection,
                    request: r.request,
                    done,
                },
                now,
            );
            let come = if done > r.total {
                r.total
            } else if done > r.done {
                done
            } else {
                r.done
            };
            let shown = come == 0 || come == r.total || passed(now, s.last_request) >= 90_000_000;
            &&& t.requests.len() == s.requests.len()
            &&& t.requests[i] == (RequestModel { done: come, ..r })
            &&& forall|j: int|
                0 <= j < s.requests.len() && j != i ==> #[trigger] t.requests[j] == s.requests[j]
            &&& shown ==> t.last_request == now && out == seq![
                MsgModel::Output(
                    display::request_line(
                        r.hash,
                        (passed(now, r.started) / 1_000_000_000) as u64,
                        come,
                        r.total,
                    ),
                ),
            ]
            &&& !shown ==> t.last_request == s.last_request && out.len() == 0
        }),
{
    let r = s.requests[i];
    let (t, out, next) = sender::on_event(
        s,
        EventModel::SenderRequestProgress { connection: r.connection, request: r.request, done },
        now,
    );
    if out.len() > 0 {
        assert(out =~= seq![out[0]]);
    }
}

/// A request that begins is at nothing; where one of the same name was there, that one is
/// shown as done first and forgotten.
pub proof fn law_begun_requests_are_at_nothing(
    s: SenderModel,
    connection: u64,
    request: u64,
    hash: Seq<char>,
    total: u64,
    now: u64,
)
    requires
        s.one_shot || !s.waiting,
        s.activity,
        0 < total,
    ensures
        ({
            let (t, out, next) = sender::on_event(
                s,
                EventModel::SenderRequestStarted { connection, request, hash, total },
                now,
            );
            let begun = RequestModel { connection, request, hash, total, done: 0, started: now };
            &&& t.requests.len() > 0 && t.requests.last() == begun
            &&& out.len() > 0 && out.last() == MsgModel::Output(
                display::request_line(hash, 0, 0, total),
            )
            &&& match sender::request_at(s.requests, connection, request) {
                None => out.len() == 1 && t.requests == s.requests.push(begun),
                Some(i) => {
                    &&& out.len() == 2
                    &&& out[0] == MsgModel::Output(
                        display::request_line(
                            s.requests[i].hash,
                            (passed(now, s.requests[i].started) / 1_000_000_000) as u64,
                            s.requests[i].total,
                            s.requests[i].total,
                        ),
                    )
                    &&& t.requests == s.requests.remove(i).push(begun)
                },
            }
        }),
{
}

/// Between two receivers nothing of the last is left: no part, no amount, no request.
pub proof fn law_cycles_begin_fresh(s: SenderModel, now: u64)
    requires
        !s.one_shot,
    ensures
        ({
            let (t, out, next) = sender::on_event(s, EventModel::TransferCompleted, now);
            &&& t.waiting && !t.seen_zero && !t.had_transfer && !t.activity
            &&& t.max == 0 && t.last_logged == 0 && t.last_total == 0
            &&& t.requests.len() == 0
            &&& !t.last_speed.above_zero()
            &&& !t.one_shot
        }),
        // A cycle begins with the first connection after there was none.
        s.waiting && !s.seen_zero ==> sender::on_event(
            s,
            EventModel::ActiveConnectionCount(1),
            now,
        ).0 == s,
        s.waiting ==> sender::on_event(s, EventModel::ActiveConnectionCount(0), now).0 == (
        SenderModel { seen_zero: true, ..s }),
        s.waiting && s.seen_zero ==> ({
            let t = sender::on_event(s, EventModel::ActiveConnectionCount(1), now).0;
            !t.waiting && !t.seen_zero && t.activity && t.had_transfer
        }),
{
}

/// Once a receive is over, only how far it had come is still told; a look for local data
/// tells of the export alone.
pub proof fn law_late_receives_tell_their_part(done: u64, total: u64, speed: Real)
    requires
        0 < total,
    ensures
        receiver::late_receive_messages(EventModel::ReceiveProgress { done, total, speed }) == seq![
            MsgModel::Progress(binary64::fraction(done as nat, total as nat)),
        ],
        receiver::late_receive_messages(EventModel::ReceiveStarted).len() == 0,
        receiver::late_receive_messages(EventModel::ReceiveCompleted).len() == 0,
        receiver::late_receive_messages(EventModel::ReceiveExportProgress { done, total }).len()
            == 0,
        receiver::local_messages(EventModel::ReceiveProgress { done, total, speed }).len() == 0,
        receiver::local_messages(EventModel::ReceiveExportStarted) == seq![
            MsgModel::Output("[4/4] Writing files to disk..."@),
        ],
        receiver::local_messages(EventModel::ReceiveCompleted) == seq![
            MsgModel::Progress(binary64::one()),
        ],
{
}

} // verus!
