//! The sending side of a sendme session: from the engine's events to the
//! messages of a transfer.

use crate::binary64;
use crate::binary64::Magnitude;
use crate::display;
use crate::numerals::{Reading, Real};
use crate::text;
use crate::transfer;
use crate::transfer::{msgs, owned, say, MsgModel, TransferMsg};
use vstd::prelude::*;
use vstd::slice::slice_subrange;

verus! {

// ── Events of the engine ──

pub struct RequestStarted {
    pub connection_id: u64,
    pub request_id: u64,
    pub hash_short: String,
    pub total_bytes: u64,
}

/// What the sendme engine reports.
pub enum NativeSendmeEvent {
    TransferStarted,
    TransferProgress { done: u64, total: u64, speed_bps: Reading },
    SenderRequestStarted(RequestStarted),
    SenderRequestProgress { connection_id: u64, request_id: u64, done_bytes: u64 },
    SenderRequestCompleted { connection_id: u64, request_id: u64 },
    TransferCompleted,
    TransferFailed,
    ActiveConnectionCount(usize),
    ReceiveStarted,
    ReceiveProgress { done: u64, total: u64, speed_bps: Reading },
    ReceiveExportStarted,
    ReceiveExportProgress { done: u64, total: u64 },
    ReceiveCompleted,
}

pub enum EventModel {
    TransferStarted,
    TransferProgress { done: u64, total: u64, speed: Real },
    SenderRequestStarted { connection: u64, request: u64, hash: Seq<char>, total: u64 },
    SenderRequestProgress { connection: u64, request: u64, done: u64 },
    SenderRequestCompleted { connection: u64, request: u64 },
    TransferCompleted,
    TransferFailed,
    ActiveConnectionCount(usize),
    ReceiveStarted,
    ReceiveProgress { done: u64, total: u64, speed: Real },
    ReceiveExportStarted,
    ReceiveExportProgress { done: u64, total: u64 },
    ReceiveCompleted,
}

impl View for NativeSendmeEvent {
    type V = EventModel;

    open spec fn view(&self) -> EventModel {
        match *self {
            NativeSendmeEvent::TransferStarted => EventModel::TransferStarted,
            NativeSendmeEvent::TransferProgress { done, total, speed_bps } => EventModel::TransferProgress {
                done,
                total,
                speed: speed_bps@,
            },
            NativeSendmeEvent::SenderRequestStarted(r) => EventModel::SenderRequestStarted {
                connection: r.connection_id,
                request: r.request_id,
                hash: r.hash_short@,
                total: r.total_bytes,
            },
            NativeSendmeEvent::SenderRequestProgress { connection_id, request_id, done_bytes } => EventModel::SenderRequestProgress {
                connection: connection_id,
                request: request_id,
                done: done_bytes,
            },
            NativeSendmeEvent::SenderRequestCompleted { connection_id, request_id } => EventModel::SenderRequestCompleted {
                connection: connection_id,
                request: request_id,
            },
            NativeSendmeEvent::TransferCompleted => EventModel::TransferCompleted,
            NativeSendmeEvent::TransferFailed => EventModel::TransferFailed,
            NativeSendmeEvent::ActiveConnectionCount(n) => EventModel::ActiveConnectionCount(n),
            NativeSendmeEvent::ReceiveStarted => EventModel::ReceiveStarted,
            NativeSendmeEvent::ReceiveProgress { done, total, speed_bps } => EventModel::ReceiveProgress {
                done,
                total,
                speed: speed_bps@,
            },
            NativeSendmeEvent::ReceiveExportStarted => EventModel::ReceiveExportStarted,
            NativeSendmeEvent::ReceiveExportProgress { done, total } => EventModel::ReceiveExportProgress {
                done,
                total,
            },
            NativeSendmeEvent::ReceiveCompleted => EventModel::ReceiveCompleted,
        }
    }
}

/// What the sending loop has to react to.
pub enum SenderInput {
    Cancelled,
    Event(NativeSendmeEvent),
    Timeout,
    Disconnected,
}

/// What the sending loop does next.
#[derive(Clone, Copy, Debug, PartialEq, Eq, Structural)]
pub enum Next {
    Continue,
    /// Continue, after a short sleep.
    Pause,
    Stop,
}

// ── The model ──

/// One request of a receiver that is being served.
pub struct RequestModel {
    pub connection: u64,
    pub request: u64,
    pub hash: Seq<char>,
    pub total: u64,
    pub done: u64,
    /// When it began, in nanoseconds of the session.
    pub started: u64,
}

pub struct SenderModel {
    pub one_shot: bool,
    pub had_transfer: bool,
    /// The activity of this cycle has been reported.
    pub activity: bool,
    pub last_progress: u64,
    pub last_request: u64,
    /// The largest part done that this cycle has reached.
    pub max: nat,
    pub last_logged: u64,
    pub last_total: u64,
    pub last_speed: Real,
    /// A cycle is over, and its connections have not all gone yet or no new
    /// one has come.
    pub waiting: bool,
    pub seen_zero: bool,
    pub requests: Seq<RequestModel>,
}

/// A state and the messages up to it.
pub type Told = (SenderModel, Seq<MsgModel>);

pub open spec fn since(now: u64, earlier: u64) -> u64 {
    if now >= earlier {
        (now - earlier) as u64
    } else {
        0
    }
}

pub open spec fn at_least_one(n: u64) -> u64 {
    if n == 0 {
        1
    } else {
        n
    }
}

pub open spec fn less_of(a: u64, b: u64) -> u64 {
    if a <= b {
        a
    } else {
        b
    }
}

pub open spec fn more_of(a: u64, b: u64) -> u64 {
    if a >= b {
        a
    } else {
        b
    }
}

/// Events of a cycle that is over are ignored.
pub open spec fn is_stale(s: SenderModel) -> bool {
    !s.one_shot && s.waiting
}

/// A transfer is under way: its activity is reported once.
pub open spec fn active(s: SenderModel, out: Seq<MsgModel>) -> Told {
    (
        SenderModel { had_transfer: true, activity: true, ..s },
        if s.activity {
            out
        } else {
            out.push(MsgModel::SenderTransferActivity)
        },
    )
}

pub open spec fn upload_line(done: u64, total: u64, speed: Real) -> Seq<char> {
    "[3/4] Uploading ... "@ + display::size_unit(done) + " / "@ + display::size_unit(total) + " "@
        + display::speed_unit(speed)
}

/// 0.999 in single precision.
pub open spec fn almost_one() -> nat {
    binary64::nearest_single(999 * binary64::one(), 1000)
}

pub open spec fn on_started(s: SenderModel, out: Seq<MsgModel>) -> Told {
    let (t, told) = active(s, out);
    (
        t,
        if s.activity {
            told
        } else {
            told.push(MsgModel::Progress(0))
        },
    )
}

pub open spec fn on_progress(
    s: SenderModel,
    out: Seq<MsgModel>,
    done: u64,
    total: u64,
    speed: Real,
    now: u64,
) -> Told {
    let (t, told) = active(s, out);
    let whole = at_least_one(total);
    let part = less_of(done, whole);
    let p = binary64::fraction(part as nat, whole as nat);
    let shown = p > t.max || p >= almost_one();
    let max = if shown {
        binary64::larger(t.max, p)
    } else {
        t.max
    };
    let told = if shown {
        told.push(MsgModel::Progress(max))
    } else {
        told
    };
    let logged = (part > t.last_logged || part == 0) && since(now, t.last_progress) >= 200_000_000;
    let told = if logged {
        told.push(MsgModel::Output(upload_line(part, whole, speed)))
    } else {
        told
    };
    (
        SenderModel {
            max,
            last_total: whole,
            last_speed: speed,
            last_logged: if logged {
                part
            } else {
                t.last_logged
            },
            last_progress: if logged {
                now
            } else {
                t.last_progress
            },
            ..t
        },
        told,
    )
}

/// The position of a request among those that are being served.
pub open spec fn request_at(rs: Seq<RequestModel>, connection: u64, request: u64) -> Option<int>
    decreases rs.len(),
{
    if rs.len() == 0 {
        None
    } else if rs[0].connection == connection && rs[0].request == request {
        Some(0)
    } else {
        match request_at(rs.skip(1), connection, request) {
            Some(i) => Some(i + 1),
            None => None,
        }
    }
}

pub open spec fn line_of(r: RequestModel, done: u64, now: u64) -> MsgModel {
    MsgModel::Output(
        display::request_line(r.hash, since(now, r.started) / 1_000_000_000, done, r.total),
    )
}

pub open spec fn on_request_started(
    s: SenderModel,
    out: Seq<MsgModel>,
    connection: u64,
    request: u64,
    hash: Seq<char>,
    total: u64,
    now: u64,
) -> Told {
    let (t, told) = active(s, out);
    let fresh = RequestModel {
        connection,
        request,
        hash,
        total: at_least_one(total),
        done: 0,
        started: now,
    };
    let (left, told) = match request_at(t.requests, connection, request) {
        Some(i) => (
            t.requests.remove(i),
            told.push(line_of(t.requests[i], t.requests[i].total, now)),
        ),
        None => (t.requests, told),
    };
    (SenderModel { requests: left.push(fresh), ..t }, told.push(line_of(fresh, 0, now)))
}

pub open spec fn on_request_progress(
    s: SenderModel,
    out: Seq<MsgModel>,
    connection: u64,
    request: u64,
    done: u64,
    now: u64,
) -> Told {
    let (t, told) = active(s, out);
    let (rs, i) = match request_at(t.requests, connection, request) {
        Some(i) => (t.requests, i),
        None => (
            t.requests.push(
                RequestModel {
                    connection,
                    request,
                    hash: "?"@,
                    total: at_least_one(done),
                    done: 0,
                    started: now,
                },
            ),
            t.requests.len() as int,
        ),
    };
    let r = rs[i];
    let next = more_of(r.done, less_of(done, r.total));
    let shown = next == r.total || next == 0 || since(now, t.last_request) >= 90_000_000;
    (
        SenderModel {
            requests: rs.update(i, RequestModel { done: next, ..r }),
            last_request: if shown {
                now
            } else {
                t.last_request
            },
            ..t
        },
        if shown {
            told.push(line_of(r, next, now))
        } else {
            told
        },
    )
}

pub open spec fn on_request_completed(
    s: SenderModel,
    out: Seq<MsgModel>,
    connection: u64,
    request: u64,
    now: u64,
) -> Told {
    match request_at(s.requests, connection, request) {
        Some(i) => (
            SenderModel { requests: s.requests.remove(i), ..s },
            out.push(line_of(s.requests[i], s.requests[i].total, now)),
        ),
        None => (s, out),
    }
}

pub open spec fn on_connections(s: SenderModel, out: Seq<MsgModel>, count: usize) -> Told {
    let told = out.push(MsgModel::ActiveTransfers(count));
    if is_stale(s) {
        if count == 0 {
            (SenderModel { seen_zero: true, ..s }, told)
        } else if s.seen_zero {
            active(SenderModel { waiting: false, seen_zero: false, ..s }, told)
        } else {
            (s, told)
        }
    } else if count > 0 {
        active(s, told)
    } else {
        (s, told)
    }
}

/// The state between two cycles.
pub open spec fn between_cycles(s: SenderModel) -> SenderModel {
    SenderModel {
        waiting: true,
        seen_zero: false,
        had_transfer: false,
        activity: false,
        max: 0,
        last_logged: 0,
        last_total: 0,
        last_speed: Real::Number { negative: false, units: 0 },
        requests: Seq::empty(),
        ..s
    }
}

pub open spec fn on_completed(s: SenderModel, out: Seq<MsgModel>) -> (SenderModel, Seq<MsgModel>, Next) {
    let told = if s.last_total > 0 {
        out.push(MsgModel::Output(upload_line(s.last_total, s.last_total, s.last_speed)))
    } else {
        out
    };
    let told = told.push(MsgModel::Progress(binary64::one())).push(
        MsgModel::Output("finished sending to client"@),
    );
    if s.one_shot {
        (s, told.push(MsgModel::PeerDisconnected), Next::Stop)
    } else {
        (between_cycles(s), told.push(MsgModel::WaitingForReceiver), Next::Continue)
    }
}

/// A cycle broke off: a session for one receiver ends, another waits for the next.
pub open spec fn on_broken(
    s: SenderModel,
    out: Seq<MsgModel>,
    error: Seq<char>,
    note: Seq<char>,
    next: Next,
) -> (SenderModel, Seq<MsgModel>, Next) {
    if s.one_shot {
        (
            s,
            out.push(
                if s.had_transfer {
                    MsgModel::PeerDisconnected
                } else {
                    MsgModel::Error(error)
                },
            ),
            Next::Stop,
        )
    } else if s.waiting {
        (s, out, Next::Continue)
    } else {
        (
            between_cycles(s),
            out.push(MsgModel::Output(note)).push(MsgModel::WaitingForReceiver),
            next,
        )
    }
}

pub open spec fn going_on(t: Told) -> (SenderModel, Seq<MsgModel>, Next) {
    (t.0, t.1, Next::Continue)
}

/// What the sending loop makes of an event.
pub open spec fn on_event(s: SenderModel, e: EventModel, now: u64) -> (SenderModel, Seq<MsgModel>, Next) {
    let out = Seq::<MsgModel>::empty();
    match e {
        EventModel::TransferStarted => if is_stale(s) {
            (s, out, Next::Continue)
        } else {
            going_on(on_started(s, out))
        },
        EventModel::TransferProgress { done, total, speed } => if is_stale(s) {
            (s, out, Next::Continue)
        } else {
            going_on(on_progress(s, out, done, total, speed, now))
        },
        EventModel::SenderRequestStarted { connection, request, hash, total } => if is_stale(s) {
            (s, out, Next::Continue)
        } else {
            going_on(on_request_started(s, out, connection, request, hash, total, now))
        },
        EventModel::SenderRequestProgress { connection, request, done } => if is_stale(s) {
            (s, out, Next::Continue)
        } else {
            going_on(on_request_progress(s, out, connection, request, done, now))
        },
        EventModel::SenderRequestCompleted { connection, request } => if is_stale(s) {
            (s, out, Next::Continue)
        } else {
            going_on(on_request_completed(s, out, connection, request, now))
        },
        EventModel::ActiveConnectionCount(n) => going_on(on_connections(s, out, n)),
        EventModel::TransferCompleted => on_completed(s, out),
        EventModel::TransferFailed => on_broken(
            s,
            out,
            "Sendme transfer failed on sender side"@,
            "sender cycle ended unexpectedly; waiting for receiver"@,
            Next::Continue,
        ),
        _ => (s, out, Next::Continue),
    }
}

/// What the sending loop makes of an input.
pub open spec fn sender_step(s: SenderModel, input: SenderInput, now: u64) -> (
    SenderModel,
    Seq<MsgModel>,
    Next,
) {
    match input {
        SenderInput::Cancelled => (
            s,
            seq![MsgModel::Error("Transfer cancelled"@)],
            Next::Stop,
        ),
        SenderInput::Event(e) => on_event(s, e@, now),
        SenderInput::Timeout => (s, Seq::empty(), Next::Continue),
        SenderInput::Disconnected => on_broken(
            s,
            Seq::empty(),
            "Send session ended before transfer started"@,
            "sender event stream ended; waiting for receiver"@,
            Next::Pause,
        ),
    }
}

// ── The loop's state ──

pub struct SenderRequestRenderState {
    pub connection_id: u64,
    pub request_id: u64,
    pub hash_short: String,
    pub total_bytes: u64,
    pub done_bytes: u64,
    pub started_at: u64,
}

impl View for SenderRequestRenderState {
    type V = RequestModel;

    open spec fn view(&self) -> RequestModel {
        RequestModel {
            connection: self.connection_id,
            request: self.request_id,
            hash: self.hash_short@,
            total: self.total_bytes,
            done: self.done_bytes,
            started: self.started_at,
        }
    }
}

pub open spec fn request_views(v: Seq<SenderRequestRenderState>) -> Seq<RequestModel> {
    v.map_values(|r: SenderRequestRenderState| r@)
}

/// The state of a sending loop.
pub struct Sender {
    one_shot: bool,
    had_transfer: bool,
    activity: bool,
    last_progress: u64,
    last_request: u64,
    max: Magnitude,
    last_logged: u64,
    last_total: u64,
    last_speed: Reading,
    waiting: bool,
    seen_zero: bool,
    requests: Vec<SenderRequestRenderState>,
}

impl View for Sender {
    type V = SenderModel;

    closed spec fn view(&self) -> SenderModel {
        SenderModel {
            one_shot: self.one_shot,
            had_transfer: self.had_transfer,
            activity: self.activity,
            last_progress: self.last_progress,
            last_request: self.last_request,
            max: self.max@,
            last_logged: self.last_logged,
            last_total: self.last_total,
            last_speed: self.last_speed@,
            waiting: self.waiting,
            seen_zero: self.seen_zero,
            requests: request_views(self.requests@),
        }
    }
}

/// The state in which a session begins.
pub open spec fn fresh_sender(one_shot: bool, now: u64) -> SenderModel {
    SenderModel {
        one_shot,
        had_transfer: false,
        activity: false,
        last_progress: now,
        last_request: now,
        max: 0,
        last_logged: 0,
        last_total: 0,
        last_speed: Real::Number { negative: false, units: 0 },
        waiting: false,
        seen_zero: false,
        requests: Seq::empty(),
    }
}

fn elapsed(now: u64, earlier: u64) -> (r: u64)
    ensures
        r == since(now, earlier),
{
    if now >= earlier {
        now - earlier
    } else {
        0
    }
}

fn upload_text(done: u64, total: u64, speed: &Reading) -> (r: String)
    ensures
        r@ == upload_line(done, total, speed@),
{
    let mut out = text::chars_of("[3/4] Uploading ... ");
    display::push_size_unit(&mut out, done);
    text::push_text(&mut out, " / ");
    display::push_size_unit(&mut out, total);
    text::push_text(&mut out, " ");
    display::push_speed_unit(&mut out, speed);
    assert(out@ =~= upload_line(done, total, speed@));
    text::string_of(out.as_slice())
}

fn request_text(r: &SenderRequestRenderState, done: u64, now: u64) -> (m: TransferMsg)
    ensures
        m@ == line_of(r@, done, now),
{
    TransferMsg::Output(
        display::format_sender_request_line(
            r.hash_short.as_str(),
            elapsed(now, r.started_at) / 1_000_000_000,
            done,
            r.total_bytes,
        ),
    )
}

impl Sender {
    pub fn new(one_shot: bool, now: u64) -> (r: Sender)
        ensures
            r@ == fresh_sender(one_shot, now),
    {
        let r = Sender {
            one_shot,
            had_transfer: false,
            activity: false,
            last_progress: now,
            last_request: now,
            max: Magnitude::zero(),
            last_logged: 0,
            last_total: 0,
            last_speed: Reading::Number { negative: false, size: Magnitude::zero() },
            waiting: false,
            seen_zero: false,
            requests: Vec::new(),
        };
        assert(request_views(r.requests@) =~= Seq::empty());
        r
    }

    fn become_active(&mut self, out: &mut Vec<TransferMsg>)
        ensures
            (final(self)@, msgs(final(out)@)) == active(old(self)@, msgs(old(out)@)),
    {
        self.had_transfer = true;
        if !self.activity {
            say(out, TransferMsg::SenderTransferActivity);
            self.activity = true;
        }
    }

    fn rest(&mut self)
        ensures
            final(self)@ == between_cycles(old(self)@),
    {
        self.waiting = true;
        self.seen_zero = false;
        self.had_transfer = false;
        self.activity = false;
        self.max = Magnitude::zero();
        self.last_logged = 0;
        self.last_total = 0;
        self.last_speed = Reading::Number { negative: false, size: Magnitude::zero() };
        self.requests = Vec::new();
        assert(request_views(self.requests@) =~= Seq::empty());
    }

    fn progressed(&mut self, out: &mut Vec<TransferMsg>, done: u64, total: u64, speed: Reading, now: u64)
        ensures
            (final(self)@, msgs(final(out)@)) == on_progress(
                old(self)@,
                msgs(old(out)@),
                done,
                total,
                speed@,
                now,
            ),
    {
        self.become_active(out);
        let whole: u64 = if total == 0 {
            1
        } else {
            total
        };
        let part: u64 = if done <= whole {
            done
        } else {
            whole
        };
        self.last_total = whole;
        self.last_speed = speed;
        let p = Magnitude::fraction_of(part, whole);
        let near = Magnitude::single_ratio(999, 1000);
        if !self.max.reaches(&p) || p.reaches(&near) {
            self.max = self.max.max(&p);
            say(out, TransferMsg::Progress(self.max));
        }
        if (part > self.last_logged || part == 0) && elapsed(now, self.last_progress)
            >= 200_000_000 {
            say(out, TransferMsg::Output(upload_text(part, whole, &speed)));
            self.last_logged = part;
            self.last_progress = now;
        }
    }

    fn position(&self, connection: u64, request: u64) -> (r: Option<usize>)
        ensures
            match r {
                Some(i) => request_at(self@.requests, connection, request) == Some(i as int) && i
                    < self@.requests.len(),
                None => request_at(self@.requests, connection, request) is None,
            },
    {
        let ghost all = self@.requests;
        let mut i: usize = 0;
        assert(all.skip(0) =~= all);
        while i < self.requests.len()
            invariant
                i <= self.requests.len(),
                all == request_views(self.requests@),
                all == self@.requests,
                request_at(all, connection, request) == (match request_at(
                    all.skip(i as int),
                    connection,
                    request,
                ) {
                    Some(k) => Some(k + i),
                    None => None,
                }),
            decreases self.requests.len() - i,
        {
            let ghost here = all.skip(i as int);
            assert(here[0] == self.requests@[i as int]@);
            if self.requests[i].connection_id == connection && self.requests[i].request_id
                == request {
                return Some(i);
            }
            assert(here.skip(1) =~= all.skip(i + 1));
            i += 1;
        }
        None
    }

    fn request_started(&mut self, out: &mut Vec<TransferMsg>, r: RequestStarted, now: u64)
        ensures
            (final(self)@, msgs(final(out)@)) == on_request_started(
                old(self)@,
                msgs(old(out)@),
                r.connection_id,
                r.request_id,
                r.hash_short@,
                r.total_bytes,
                now,
            ),
    {
        self.become_active(out);
        let ghost before = self.requests@;
        match self.position(r.connection_id, r.request_id) {
            Some(i) => {
                let old_one = self.requests.remove(i);
                proof {
                    assert(request_views(self.requests@) =~= request_views(before).remove(
                        i as int,
                    ));
                }
                let done: u64 = old_one.total_bytes;
                say(out, request_text(&old_one, done, now));
            },
            None => {},
        }
        let ghost left = self.requests@;
        let state = SenderRequestRenderState {
            connection_id: r.connection_id,
            request_id: r.request_id,
            hash_short: r.hash_short,
            total_bytes: if r.total_bytes == 0 {
                1
            } else {
                r.total_bytes
            },
            done_bytes: 0,
            started_at: now,
        };
        say(out, request_text(&state, 0, now));
        self.requests.push(state);
        assert(request_views(self.requests@) =~= request_views(left).push(state@));
    }

    fn request_progressed(
        &mut self,
        out: &mut Vec<TransferMsg>,
        connection: u64,
        request: u64,
        done: u64,
        now: u64,
    )
        ensures
            (final(self)@, msgs(final(out)@)) == on_request_progress(
                old(self)@,
                msgs(old(out)@),
                connection,
                request,
                done,
                now,
            ),
    {
        self.become_active(out);
        let ghost before = self.requests@;
        let at: usize = match self.position(connection, request) {
            Some(i) => i,
            None => {
                let fresh = SenderRequestRenderState {
                    connection_id: connection,
                    request_id: request,
                    hash_short: owned("?"),
                    total_bytes: if done == 0 {
                        1
                    } else {
                        done
                    },
                    done_bytes: 0,
                    started_at: now,
                };
                self.requests.push(fresh);
                assert(request_views(self.requests@) =~= request_views(before).push(fresh@));
                self.requests.len() - 1
            },
        };
        let ghost rs = request_views(self.requests@);
        assert(rs[at as int] == self.requests@[at as int]@);
        let total: u64 = self.requests[at].total_bytes;
        let old_done: u64 = self.requests[at].done_bytes;
        let capped: u64 = if done <= total {
            done
        } else {
            total
        };
        let next: u64 = if old_done >= capped {
            old_done
        } else {
            capped
        };
        let shown: bool = next == total || next == 0 || elapsed(now, self.last_request)
            >= 90_000_000;
        if shown {
            say(out, request_text(&self.requests[at], next, now));
            self.last_request = now;
        }
        let mut state = self.requests.remove(at);
        state.done_bytes = next;
        let ghost updated = state@;
        self.requests.insert(at, state);
        assert(request_views(self.requests@) =~= rs.update(at as int, updated));
    }

    fn request_completed(&mut self, out: &mut Vec<TransferMsg>, connection: u64, request: u64, now: u64)
        ensures
            (final(self)@, msgs(final(out)@)) == on_request_completed(
                old(self)@,
                msgs(old(out)@),
                connection,
                request,
                now,
            ),
    {
        let ghost before = self.requests@;
        match self.position(connection, request) {
            Some(i) => {
                let state = self.requests.remove(i);
                assert(request_views(self.requests@) =~= request_views(before).remove(i as int));
                let done: u64 = state.total_bytes;
                say(out, request_text(&state, done, now));
            },
            None => {},
        }
    }

    fn connections(&mut self, out: &mut Vec<TransferMsg>, count: usize)
        ensures
            (final(self)@, msgs(final(out)@)) == on_connections(
                old(self)@,
                msgs(old(out)@),
                count,
            ),
    {
        say(out, TransferMsg::ActiveTransfers(count));
        if !self.one_shot && self.waiting {
            if count == 0 {
                self.seen_zero = true;
            } else if self.seen_zero {
                self.waiting = false;
                self.seen_zero = false;
                self.become_active(out);
            }
        } else if count > 0 {
            self.become_active(out);
        }
    }

    fn completed(&mut self, out: &mut Vec<TransferMsg>) -> (r: Next)
        ensures
            (final(self)@, msgs(final(out)@), r) == on_completed(old(self)@, msgs(old(out)@)),
    {
        if self.last_total > 0 {
            say(
                out,
                TransferMsg::Output(
                    upload_text(self.last_total, self.last_total, &self.last_speed),
                ),
            );
        }
        say(out, TransferMsg::Progress(Magnitude::unit()));
        say(out, TransferMsg::Output(owned("finished sending to client")));
        if self.one_shot {
            say(out, TransferMsg::PeerDisconnected);
            Next::Stop
        } else {
            say(out, TransferMsg::WaitingForReceiver);
            self.rest();
            Next::Continue
        }
    }

    fn broken(&mut self, out: &mut Vec<TransferMsg>, error: &str, note: &str, next: Next) -> (r: Next)
        ensures
            (final(self)@, msgs(final(out)@), r) == on_broken(
                old(self)@,
                msgs(old(out)@),
                error@,
                note@,
                next,
            ),
    {
        if self.one_shot {
            if self.had_transfer {
                say(out, TransferMsg::PeerDisconnected);
            } else {
                say(out, TransferMsg::Error(owned(error)));
            }
            Next::Stop
        } else if self.waiting {
            Next::Continue
        } else {
            say(out, TransferMsg::Output(owned(note)));
            say(out, TransferMsg::WaitingForReceiver);
            self.rest();
            next
        }
    }

    /// Takes one input of the sending loop: the messages it gives rise to, and
    /// what the loop does next. `now` is the session's time in nanoseconds.
    pub fn step(&mut self, input: SenderInput, now: u64) -> (r: (Vec<TransferMsg>, Next))
        ensures
            (final(self)@, msgs(r.0@), r.1) == sender_step(old(self)@, input, now),
    {
        let mut out: Vec<TransferMsg> = Vec::new();
        assert(msgs(out@) =~= Seq::empty());
        let stale: bool = !self.one_shot && self.waiting;
        let next = match input {
            SenderInput::Cancelled => {
                say(&mut out, TransferMsg::Error(owned("Transfer cancelled")));
                assert(msgs(out@) =~= seq![MsgModel::Error("Transfer cancelled"@)]);
                Next::Stop
            },
            SenderInput::Timeout => Next::Continue,
            SenderInput::Disconnected => self.broken(
                &mut out,
                "Send session ended before transfer started",
                "sender event stream ended; waiting for receiver",
                Next::Pause,
            ),
            SenderInput::Event(e) => match e {
                NativeSendmeEvent::TransferStarted => {
                    if !stale {
                        let first: bool = !self.activity;
                        self.become_active(&mut out);
                        if first {
                            say(&mut out, TransferMsg::Progress(Magnitude::zero()));
                        }
                    }
                    Next::Continue
                },
                NativeSendmeEvent::TransferProgress { done, total, speed_bps } => {
                    if !stale {
                        self.progressed(&mut out, done, total, speed_bps, now);
                    }
                    Next::Continue
                },
                NativeSendmeEvent::SenderRequestStarted(r) => {
                    if !stale {
                        self.request_started(&mut out, r, now);
                    }
                    Next::Continue
                },
                NativeSendmeEvent::SenderRequestProgress { connection_id, request_id, done_bytes } => {
                    if !stale {
                        self.request_progressed(
                            &mut out,
                            connection_id,
                            request_id,
                            done_bytes,
                            now,
                        );
                    }
                    Next::Continue
                },
                NativeSendmeEvent::SenderRequestCompleted { connection_id, request_id } => {
                    if !stale {
                        self.request_completed(&mut out, connection_id, request_id, now);
                    }
                    Next::Continue
                },
                NativeSendmeEvent::ActiveConnectionCount(count) => {
                    self.connections(&mut out, count);
                    Next::Continue
                },
                NativeSendmeEvent::TransferCompleted => self.completed(&mut out),
                NativeSendmeEvent::TransferFailed => self.broken(
                    &mut out,
                    "Sendme transfer failed on sender side",
                    "sender cycle ended unexpectedly; waiting for receiver",
                    Next::Continue,
                ),
                _ => Next::Continue,
            },
        };
        (out, next)
    }
}

// ── Laws ──

/// A session that serves one receiver after the other ends only when it is cancelled.
pub proof fn law_broadcast_ends_only_by_cancel(s: SenderModel, input: SenderInput, now: u64)
    requires
        !s.one_shot,
        sender_step(s, input, now).2 == Next::Stop,
    ensures
        input is Cancelled,
{
}

/// Between two cycles nothing that the old one still reports begins a new one:
/// the state stays between cycles until the connections have gone and one has come.
pub proof fn law_stale_events_are_ignored(s: SenderModel, input: SenderInput, now: u64)
    requires
        is_stale(s),
        !(input matches SenderInput::Event(e) && e is ActiveConnectionCount),
        !(input matches SenderInput::Event(e) && e is TransferCompleted),
        !(input is Cancelled),
    ensures
        sender_step(s, input, now).0 == s,
        sender_step(s, input, now).1.len() == 0,
        sender_step(s, input, now).2 == Next::Continue,
{
}

/// A cycle begins anew only when, after all connections had gone, one has come.
pub proof fn law_new_cycle_needs_a_new_connection(s: SenderModel, input: SenderInput, now: u64)
    requires
        is_stale(s),
        !is_stale(sender_step(s, input, now).0),
    ensures
        s.seen_zero,
        input matches SenderInput::Event(e) && e@ matches EventModel::ActiveConnectionCount(n) && n
            > 0,
{
}

/// The part done that is reported never falls within a cycle, and is never more than one.
pub proof fn law_reported_progress_grows(s: SenderModel, e: EventModel, now: u64)
    requires
        s.max <= binary64::one(),
        !(e is TransferCompleted),
        !(e is TransferFailed),
    ensures
        on_event(s, e, now).0.max >= s.max,
        on_event(s, e, now).0.max <= binary64::one(),
        forall|i: int|
            0 <= i < on_event(s, e, now).1.len() && #[trigger] on_event(s, e, now).1[i]
                is Progress && on_event(s, e, now).1[i]->Progress_0 > 0 ==> on_event(
                s,
                e,
                now,
            ).1[i]->Progress_0 == on_event(s, e, now).0.max,
{
}

/// A request that completes is shown complete: whatever had been reported of it,
/// its last line shows all of its bytes.
pub proof fn law_completed_request_shows_its_total(
    s: SenderModel,
    connection: u64,
    request: u64,
    now: u64,
)
    requires
        !is_stale(s),
        request_at(s.requests, connection, request) is Some,
    ensures
        ({
            let i = request_at(s.requests, connection, request).unwrap();
            let r = on_event(
                s,
                EventModel::SenderRequestCompleted { connection, request },
                now,
            );
            &&& r.1 == seq![line_of(s.requests[i], s.requests[i].total, now)]
            &&& r.0.requests == s.requests.remove(i)
        }),
{
    let i = request_at(s.requests, connection, request).unwrap();
    let r = on_event(s, EventModel::SenderRequestCompleted { connection, request }, now);
    assert(r.1 =~= seq![line_of(s.requests[i], s.requests[i].total, now)]);
}

// ── Around the loop ──

/// The message with which a session begins, once it is known what its payload is
/// called; where that cannot be said, the message with which it ends.
pub fn begin_share(root_name: &Result<String, String>) -> (r: TransferMsg)
    ensures
        r@ == (match *root_name {
            Ok(_) => MsgModel::Started,
            Err(e) => MsgModel::Error("Failed to prepare payload: "@ + e@),
        }),
{
    match root_name {
        Ok(_) => TransferMsg::Started,
        Err(e) => TransferMsg::Error(text::join2("Failed to prepare payload: ", e.as_str())),
    }
}

/// The messages with which a session announces itself.
pub open spec fn share_announcement(ticket: Seq<char>, kind: Seq<char>, size: u64) -> Seq<MsgModel> {
    seq![
        MsgModel::Code(ticket),
        MsgModel::Output("imported "@ + kind + " native, "@ + display::size_unit(size)),
        MsgModel::Output("sendme receive "@ + ticket),
        MsgModel::WaitingForReceiver,
    ]
}

/// The messages with which a session announces itself.
pub fn announce_share(ticket: &str, kind: &str, size: u64) -> (r: Vec<TransferMsg>)
    ensures
        msgs(r@) == share_announcement(ticket@, kind@, size),
{
    let mut imported = text::chars_of("imported ");
    text::push_text(&mut imported, kind);
    text::push_text(&mut imported, " native, ");
    display::push_size_unit(&mut imported, size);
    let mut command = text::chars_of("sendme receive ");
    text::push_text(&mut command, ticket);
    let mut out: Vec<TransferMsg> = Vec::new();
    assert(msgs(out@) =~= Seq::empty());
    say(&mut out, TransferMsg::Code(owned(ticket)));
    say(&mut out, TransferMsg::Output(text::string_of(imported.as_slice())));
    say(&mut out, TransferMsg::Output(text::string_of(command.as_slice())));
    say(&mut out, TransferMsg::WaitingForReceiver);
    assert(msgs(out@) =~= share_announcement(ticket@, kind@, size));
    out
}

/// The position of the first item that is larger than all before it, and larger
/// than zero; the first item where all are empty.
pub open spec fn largest(sizes: Seq<u64>, n: nat) -> int
    decreases n,
{
    if n == 0 {
        0
    } else {
        let i = largest(sizes, (n - 1) as nat);
        let top = if 0 <= i < n - 1 {
            sizes[i]
        } else {
            0
        };
        if sizes[n - 1] > top {
            n - 1
        } else {
            i
        }
    }
}

/// The name under which items are sent: the largest one's, cut to twenty
/// characters, with marks behind it.
pub open spec fn root_name(names: Seq<Option<Seq<char>>>, sizes: Seq<u64>) -> Seq<char> {
    let base = match names[largest(sizes, sizes.len())] {
        Some(n) => n,
        None => "files"@,
    };
    let head = if base.len() <= 20 {
        base
    } else {
        base.take(20)
    };
    let more = if names.len() > 1 {
        "_and_more"@
    } else {
        Seq::empty()
    };
    head + more + "_databeam"@
}

pub open spec fn name_views(v: Seq<Option<String>>) -> Seq<Option<Seq<char>>> {
    v.map_values(|n: Option<String>| crate::sendme::string_view(n))
}

/// The name under which items are sent. Each item has the name of its file,
/// where that is text, and its size.
pub fn derive_payload_root_name(names: &Vec<Option<String>>, sizes: &Vec<u64>) -> (r: Result<
    String,
    String,
>)
    requires
        names@.len() == sizes@.len(),
    ensures
        match r {
            Ok(s) => names@.len() > 0 && s@ == root_name(name_views(names@), sizes@),
            Err(e) => names@.len() == 0 && e@ == "No paths provided"@,
        },
{
    if names.len() == 0 {
        return Err(owned("No paths provided"));
    }
    let mut best: usize = 0;
    let mut top: u64 = 0;
    let mut i: usize = 0;
    while i < sizes.len()
        invariant
            i <= sizes.len(),
            best == largest(sizes@, i as nat),
            i == 0 ==> best == 0,
            i > 0 ==> best < i,
            top == (if i > 0 {
                if sizes@[best as int] > 0 { sizes@[best as int] } else { 0 }
            } else {
                0
            }),
        decreases sizes.len() - i,
    {
        if sizes[i] > top {
            top = sizes[i];
            best = i;
        }
        i += 1;
    }
    let base = match &names[best] {
        Some(n) => text::chars_of(n.as_str()),
        None => text::chars_of("files"),
    };
    let b = base.as_slice();
    let head = if b.len() <= 20 {
        b
    } else {
        slice_subrange(b, 0, 20)
    };
    let mut out: Vec<char> = Vec::new();
    text::push_slice(&mut out, head);
    if names.len() > 1 {
        text::push_text(&mut out, "_and_more");
    }
    text::push_text(&mut out, "_databeam");
    proof {
        let nv = name_views(names@);
        assert(nv[best as int] == crate::sendme::string_view(names@[best as int]));
        assert(out@ =~= root_name(nv, sizes@));
    }
    Ok(text::string_of(out.as_slice()))
}

/// A directory that a sending session keeps its blobs in.
pub open spec fn is_send_dir(name: Seq<char>) -> bool {
    ".sendme-send-"@.is_prefix_of(name)
}

/// Something that a session leaves behind in the directory for temporary files.
pub open spec fn is_session_artifact(name: Seq<char>) -> bool {
    is_send_dir(name) || "databeam_sendme_"@.is_prefix_of(name) || "databeam_sendme_recv_"@.is_prefix_of(
        name,
    )
}

/// Whether a directory of that name is one of a sending session, to be removed.
pub fn is_sendme_send_dir(name: &str) -> (r: bool)
    ensures
        r == is_send_dir(name@),
{
    let chars = text::chars_of(name);
    text::starts_with(chars.as_slice(), ".sendme-send-")
}

/// Whether a file or directory of that name is left behind by a session.
pub fn is_sendme_temp_artifact(name: &str) -> (r: bool)
    ensures
        r == is_session_artifact(name@),
{
    let chars = text::chars_of(name);
    text::starts_with(chars.as_slice(), ".sendme-send-") || text::starts_with(
        chars.as_slice(),
        "databeam_sendme_",
    ) || text::starts_with(chars.as_slice(), "databeam_sendme_recv_")
}

} // verus!
