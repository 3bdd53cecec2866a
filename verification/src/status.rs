//! What the user reads of a transfer: while it runs, and when it is over.

use crate::binary64;
use crate::binary64::Magnitude;
use crate::display;
use crate::engine::{Session, TransferState};
use crate::metrics;
use crate::numerals;
use crate::panels;
use crate::panels::{CrocPanelData, PanelModel};
use crate::sendme;
use crate::session::{SessionModel, StateModel};
use crate::state::{AppView, SelectedTool, TransferPhase};
use crate::text;
use crate::transfer::owned;
use vstd::prelude::*;

verus! {

// ── Texts ──

/// Spaces before a text, up to a width.
pub open spec fn right_aligned(s: Seq<char>, width: nat) -> Seq<char> {
    if s.len() >= width {
        s
    } else {
        Seq::new((width - s.len()) as nat, |i: int| ' ') + s
    }
}

/// Minutes and seconds: `3:07`.
pub open spec fn minutes(secs: u64) -> Seq<char> {
    numerals::decimal((secs / 60) as nat) + ":"@ + numerals::two_digits((secs % 60) as nat)
}

/// The whole seconds from one time to another; none where the other is earlier.
pub open spec fn whole_seconds(from: nat, to: nat) -> u64 {
    if to >= from {
        binary64::truncated(metrics::seconds_since(to, from))
    } else {
        0
    }
}

/// Which of four frames the spinner shows: three a second.
pub open spec fn spinner_frame(now: nat) -> u64 {
    binary64::truncated(binary64::product(now, binary64::whole(3))) % 4
}

// ── A transfer that runs ──

/// Sendme serves whoever comes.
pub open spec fn broadcasts(s: SessionModel) -> bool {
    s.tool == SelectedTool::Sendme && s.view == AppView::Send && !s.serve.one_shot
}

/// 0.999 in single precision.
pub open spec fn nearly_one() -> nat {
    binary64::nearest_single(999 * binary64::one(), 1000)
}

pub open spec fn phase_text(s: SessionModel) -> Seq<char> {
    match s.metrics.phase {
        TransferPhase::Preparing => "Preparing\u{2026}"@,
        TransferPhase::WaitingForReceiver => if broadcasts(s) {
            "Broadcast mode: waiting for receivers..."@
        } else {
            "Waiting for receiver..."@
        },
        TransferPhase::Transferring => if s.view == AppView::Receive {
            if panels::shown_progress(s) >= nearly_one() {
                "Building and verifying content\u{2026}"@
            } else {
                "Downloading\u{2026}"@
            }
        } else if broadcasts(s) {
            "Broadcast mode active..."@
        } else {
            "Uploading on sender..."@
        },
        TransferPhase::EazySharingTicket => "Sharing ticket via Croc\u{2026}"@,
        TransferPhase::EazyWaitingForPeer => "Waiting for peer (Sendme)\u{2026}"@,
    }
}

/// The same in a word, for the bar at the bottom; a percentage once more than a
/// hundredth is done.
pub open spec fn phase_word(s: SessionModel) -> Option<Seq<char>> {
    match s.metrics.phase {
        TransferPhase::Preparing => Some("preparing"@),
        TransferPhase::WaitingForReceiver => Some("waiting"@),
        TransferPhase::Transferring => if panels::shown_progress(s) > binary64::nearest_single(
            binary64::one(),
            100,
        ) {
            Some(
                numerals::decimal(
                    binary64::scaled_round(binary64::percent_of(panels::shown_progress(s)), 1) as nat,
                ) + "%"@,
            )
        } else {
            None
        },
        TransferPhase::EazySharingTicket => Some("sharing ticket"@),
        TransferPhase::EazyWaitingForPeer => Some("waiting for peer"@),
    }
}

/// The bytes that are done: as counted, or by the files that croc has counted.
pub open spec fn shown_done(s: SessionModel) -> u64 {
    let total = metrics::or_zero(s.metrics.total);
    match s.metrics.done {
        Some(d) => d,
        None => if s.tool == SelectedTool::Croc && s.metrics.file_progress is Some && total > 0 {
            binary64::truncated(
                binary64::product(panels::shown_progress(s), binary64::whole(total as nat)),
            )
        } else {
            0
        },
    }
}

pub enum BodyModel {
    /// Bytes move: a panel says how many.
    Panel(PanelModel),
    /// Nothing moves yet.
    Pulse { label: Seq<char>, total: Option<Seq<char>> },
    Broadcast { line: Seq<char>, count: Seq<char>, payload: Option<Seq<char>> },
}

pub open spec fn waiting_label(phase: TransferPhase) -> Seq<char> {
    match phase {
        TransferPhase::EazySharingTicket => "Sharing ticket via Croc..."@,
        TransferPhase::EazyWaitingForPeer => "Waiting for peer (Sendme)..."@,
        TransferPhase::WaitingForReceiver => "Waiting for receiver..."@,
        _ => "Preparing ..."@,
    }
}

pub open spec fn broadcast_line(s: SessionModel) -> Seq<char> {
    if s.metrics.phase == TransferPhase::Preparing {
        "Preparing broadcast session..."@
    } else if s.metrics.phase == TransferPhase::Transferring && s.serve.active_transfers > 0 {
        "Broadcast mode active"@
    } else {
        "Broadcast mode waiting for receivers..."@
    }
}

pub open spec fn body(s: SessionModel) -> BodyModel {
    let total = metrics::or_zero(s.metrics.total);
    if broadcasts(s) {
        BodyModel::Broadcast {
            line: broadcast_line(s),
            count: numerals::decimal(s.serve.active_transfers as nat) + (
            if s.serve.active_transfers == 1 {
                " transfer in progress"@
            } else {
                " transfers in progress"@
            }),
            payload: if total > 0 {
                Some("Payload: "@ + display::file_size(total))
            } else {
                None
            },
        }
    } else if s.metrics.phase == TransferPhase::Transferring {
        BodyModel::Panel(
            if s.tool == SelectedTool::Croc {
                panels::croc_panel(s, panels::shown_progress(s), shown_done(s), total)
            } else {
                panels::sendme_panel(s, panels::shown_progress(s), shown_done(s), total)
            },
        )
    } else {
        BodyModel::Pulse {
            label: waiting_label(s.metrics.phase),
            total: if total > 0 {
                Some("Total: "@ + right_aligned(display::file_size(total), 9))
            } else {
                None
            },
        }
    }
}

/// The way that croc's data takes.
pub open spec fn shown_route(s: SessionModel) -> Option<Seq<char>> {
    if s.tool == SelectedTool::Croc {
        s.route
    } else {
        None
    }
}

// ── A transfer that is over ──

/// How long it took: from when bytes began to move, or else from its start.
pub open spec fn duration(s: SessionModel) -> Option<u64> {
    match panels::begin_time(s) {
        Some(start) => Some(
            whole_seconds(
                start,
                match s.end_time {
                    Some(end) => end,
                    None => s.now,
                },
            ),
        ),
        None => None,
    }
}

pub open spec fn minutes_of(secs: Option<u64>) -> Option<Seq<char>> {
    match secs {
        Some(n) => Some(minutes(n)),
        None => None,
    }
}

pub open spec fn data_line(view: AppView, done: u64, total: u64) -> Seq<char> {
    (if view == AppView::Send {
        "Uploaded (sender): "@
    } else {
        "Downloaded: "@
    }) + right_aligned(display::file_size(done), 9) + " / "@ + right_aligned(
        display::file_size(total),
        9,
    )
}

/// `done` over `total` as a percentage in double precision, at most a hundred.
pub open spec fn percent_done(done: u64, total: u64) -> nat {
    let p = binary64::product(
        binary64::quotient(binary64::whole(done as nat), binary64::whole(total as nat)),
        binary64::whole(100),
    );
    if p >= binary64::whole(100) {
        binary64::whole(100)
    } else {
        p
    }
}

pub open spec fn progress_line(view: AppView, done: u64, total: u64) -> Seq<char> {
    (if view == AppView::Send {
        "Upload progress (sender): "@
    } else {
        "Download progress: "@
    }) + right_aligned(numerals::fixed(percent_done(done, total), 1), 5) + "%"@
}

/// The average over the transfer, or else the last speed that was seen.
pub open spec fn final_speed(s: SessionModel) -> Option<u64> {
    match panels::average_speed(s) {
        Some(v) => Some(binary64::truncated(v)),
        None => match s.metrics.speed {
            Some(v) => Some(v.to_u64()),
            None => None,
        },
    }
}

pub open spec fn speed_line(view: AppView, speed: u64) -> Seq<char> {
    (if view == AppView::Send {
        "Avg upload speed: "@
    } else {
        "Avg download speed: "@
    }) + right_aligned(display::file_size(speed), 9) + "/s"@
}

pub enum StatusModel {
    Idle,
    Running {
        spinner: u64,
        text: Seq<char>,
        clock: Option<Seq<char>>,
        route: Option<Seq<char>>,
        body: BodyModel,
    },
    Completed {
        clock: Option<Seq<char>>,
        data: Option<Seq<char>>,
        progress: Option<Seq<char>>,
        speed: Option<Seq<char>>,
        elapsed: Option<Seq<char>>,
        route: Option<Seq<char>>,
    },
    Failed { message: Seq<char>, clock: Option<Seq<char>> },
}

pub open spec fn status(s: SessionModel) -> StatusModel {
    let done = metrics::or_zero(s.metrics.done);
    let total = metrics::or_zero(s.metrics.total);
    match s.state {
        StateModel::Idle => StatusModel::Idle,
        StateModel::Running => StatusModel::Running {
            spinner: spinner_frame(s.now),
            text: phase_text(s),
            clock: match s.start_time {
                Some(start) => Some(minutes(whole_seconds(start, s.now))),
                None => None,
            },
            route: shown_route(s),
            body: body(s),
        },
        StateModel::Completed => StatusModel::Completed {
            clock: minutes_of(duration(s)),
            data: if total > 0 {
                Some(data_line(s.view, done, total))
            } else {
                None
            },
            progress: if total > 0 {
                Some(progress_line(s.view, done, total))
            } else {
                None
            },
            speed: match final_speed(s) {
                Some(v) => Some(speed_line(s.view, v)),
                None => None,
            },
            elapsed: match duration(s) {
                Some(n) => Some("Elapsed: "@ + minutes(n)),
                None => None,
            },
            route: shown_route(s),
        },
        StateModel::Failed(e) => StatusModel::Failed {
            message: e,
            clock: minutes_of(duration(s)),
        },
    }
}

/// The code or the ticket is shown: not to a receiver of sendme, who has typed
/// it, and for croc's sender only once the code counts.
pub open spec fn shows_code(s: SessionModel) -> bool {
    &&& s.code is Some
    &&& !(s.tool == SelectedTool::Sendme && s.view == AppView::Receive)
    &&& !(s.tool == SelectedTool::Croc && s.view == AppView::Send && s.metrics.phase
        == TransferPhase::Preparing)
}

pub open spec fn code_label(tool: SelectedTool) -> Seq<char> {
    match tool {
        SelectedTool::Croc => "Share this code:"@,
        SelectedTool::Sendme => "Share this ticket:"@,
        SelectedTool::EazySendme => "EazySendme ticket:"@,
    }
}

// ── Laws ──

/// A code is never shown before there is one, nor to a receiver of sendme.
pub proof fn law_code_is_not_shown_to_its_receiver(s: SessionModel)
    ensures
        s.code is None ==> !shows_code(s),
        s.tool == SelectedTool::Sendme && s.view == AppView::Receive ==> !shows_code(s),
{
}

/// A way is shown for croc alone.
pub proof fn law_routes_are_shown_for_croc(s: SessionModel)
    ensures
        s.tool != SelectedTool::Croc ==> shown_route(s) is None,
{
}

/// The percentage that is shown is never more than a hundred.
pub proof fn law_percent_done_is_at_most_a_hundred(done: u64, total: u64)
    ensures
        percent_done(done, total) <= binary64::whole(100),
{
}

// ── The views ──

pub enum Body {
    Panel(CrocPanelData),
    Pulse { label: String, total: Option<String> },
    Broadcast { line: String, count: String, payload: Option<String> },
}

impl View for Body {
    type V = BodyModel;

    open spec fn view(&self) -> BodyModel {
        match *self {
            Body::Panel(p) => BodyModel::Panel(p@),
            Body::Pulse { label, total } => BodyModel::Pulse {
                label: label@,
                total: sendme::string_view(total),
            },
            Body::Broadcast { line, count, payload } => BodyModel::Broadcast {
                line: line@,
                count: count@,
                payload: sendme::string_view(payload),
            },
        }
    }
}

pub enum Status {
    Idle,
    Running {
        spinner: u64,
        text: String,
        clock: Option<String>,
        route: Option<String>,
        body: Body,
    },
    Completed {
        clock: Option<String>,
        data: Option<String>,
        progress: Option<String>,
        speed: Option<String>,
        elapsed: Option<String>,
        route: Option<String>,
    },
    Failed { message: String, clock: Option<String> },
}

impl View for Status {
    type V = StatusModel;

    open spec fn view(&self) -> StatusModel {
        match *self {
            Status::Idle => StatusModel::Idle,
            Status::Running { spinner, text, clock, route, body } => StatusModel::Running {
                spinner,
                text: text@,
                clock: sendme::string_view(clock),
                route: sendme::string_view(route),
                body: body@,
            },
            Status::Completed { clock, data, progress, speed, elapsed, route } => StatusModel::Completed {
                clock: sendme::string_view(clock),
                data: sendme::string_view(data),
                progress: sendme::string_view(progress),
                speed: sendme::string_view(speed),
                elapsed: sendme::string_view(elapsed),
                route: sendme::string_view(route),
            },
            Status::Failed { message, clock } => StatusModel::Failed {
                message: message@,
                clock: sendme::string_view(clock),
            },
        }
    }
}

fn push_right_aligned(out: &mut Vec<char>, s: &Vec<char>, width: usize)
    ensures
        final(out)@ == old(out)@ + right_aligned(s@, width as nat),
{
    let ghost before = out@;
    let mut n: usize = s.len();
    while n < width
        invariant
            s.len() <= n,
            n <= width || n == s.len(),
            out@ == before + Seq::new((n - s.len()) as nat, |i: int| ' '),
        decreases width - n,
    {
        out.push(' ');
        n += 1;
        assert(out@ =~= before + Seq::new((n - s.len()) as nat, |i: int| ' '));
    }
    text::push_slice(out, s.as_slice());
    assert(out@ =~= before + right_aligned(s@, width as nat));
}

fn push_size_aligned(out: &mut Vec<char>, bytes: u64)
    ensures
        final(out)@ == old(out)@ + right_aligned(display::file_size(bytes), 9),
{
    let mut size: Vec<char> = Vec::new();
    display::push_file_size(&mut size, bytes);
    assert(size@ =~= display::file_size(bytes));
    push_right_aligned(out, &size, 9);
}

fn push_minutes(out: &mut Vec<char>, secs: u64)
    ensures
        final(out)@ == old(out)@ + minutes(secs),
{
    let ghost before = out@;
    numerals::push_decimal(out, secs / 60);
    text::push_text(out, ":");
    numerals::push_two_digits(out, secs % 60);
    assert(out@ =~= before + minutes(secs));
}

fn minutes_text(secs: u64) -> (r: String)
    ensures
        r@ == minutes(secs),
{
    let mut out: Vec<char> = Vec::new();
    push_minutes(&mut out, secs);
    assert(out@ =~= minutes(secs));
    text::string_of(out.as_slice())
}

fn seconds_between(from: &Magnitude, to: &Magnitude) -> (r: u64)
    ensures
        r == whole_seconds(from@, to@),
{
    match to.minus(from) {
        Some(d) => d.truncate(),
        None => 0,
    }
}

fn copied(s: &Option<String>) -> (r: Option<String>)
    ensures
        sendme::string_view(r) == sendme::string_view(*s),
{
    match s {
        Some(s) => Some(owned(s.as_str())),
        None => None,
    }
}

/// A label and a value that may be missing.
fn sized(label: &str, bytes: u64) -> (r: String)
    ensures
        r@ == label@ + right_aligned(display::file_size(bytes), 9),
{
    let mut out = text::chars_of(label);
    push_size_aligned(&mut out, bytes);
    text::string_of(out.as_slice())
}

fn data_text(view: AppView, done: u64, total: u64) -> (r: String)
    ensures
        r@ == data_line(view, done, total),
{
    let mut out = text::chars_of(
        if view == AppView::Send {
            "Uploaded (sender): "
        } else {
            "Downloaded: "
        },
    );
    push_size_aligned(&mut out, done);
    text::push_text(&mut out, " / ");
    push_size_aligned(&mut out, total);
    text::string_of(out.as_slice())
}

fn progress_text(view: AppView, done: u64, total: u64) -> (r: String)
    requires
        total > 0,
    ensures
        r@ == progress_line(view, done, total),
{
    let mut out = text::chars_of(
        if view == AppView::Send {
            "Upload progress (sender): "
        } else {
            "Download progress: "
        },
    );
    proof {
        binary64::lemma_whole_positive(total as nat);
    }
    let hundred = Magnitude::from_u64(100);
    let p = Magnitude::from_u64(done).over(&Magnitude::from_u64(total)).times(&hundred);
    let shown = if p.reaches(&hundred) {
        hundred
    } else {
        p
    };
    let mut number: Vec<char> = Vec::new();
    numerals::push_tenths(&mut number, &shown);
    assert(number@ =~= numerals::fixed(percent_done(done, total), 1));
    push_right_aligned(&mut out, &number, 5);
    text::push_text(&mut out, "%");
    text::string_of(out.as_slice())
}

fn speed_text(view: AppView, speed: u64) -> (r: String)
    ensures
        r@ == speed_line(view, speed),
{
    let mut out = text::chars_of(
        if view == AppView::Send {
            "Avg upload speed: "
        } else {
            "Avg download speed: "
        },
    );
    push_size_aligned(&mut out, speed);
    text::push_text(&mut out, "/s");
    text::string_of(out.as_slice())
}

/// Which of four frames the spinner shows.
pub fn spinner(now: &Magnitude) -> (r: u64)
    ensures
        r == spinner_frame(now@),
        r < 4,
{
    now.times(&Magnitude::from_u64(3)).truncate() % 4
}

impl Session {
    fn broadcasting(&self) -> (r: bool)
        ensures
            r == broadcasts(self@),
    {
        self.tool == SelectedTool::Sendme && self.view == AppView::Send && !self.serve.one_shot
    }

    fn total_or_zero(&self) -> (r: u64)
        ensures
            r == metrics::or_zero(self@.metrics.total),
    {
        match self.metrics.total {
            Some(t) => t,
            None => 0,
        }
    }

    fn phase_line(&self) -> (r: String)
        ensures
            r@ == phase_text(self@),
    {
        match self.metrics.phase {
            TransferPhase::Preparing => owned("Preparing\u{2026}"),
            TransferPhase::WaitingForReceiver => if self.broadcasting() {
                owned("Broadcast mode: waiting for receivers...")
            } else {
                owned("Waiting for receiver...")
            },
            TransferPhase::Transferring => if self.view == AppView::Receive {
                if self.effective_progress().reaches(&Magnitude::single_ratio(999, 1000)) {
                    owned("Building and verifying content\u{2026}")
                } else {
                    owned("Downloading\u{2026}")
                }
            } else if self.broadcasting() {
                owned("Broadcast mode active...")
            } else {
                owned("Uploading on sender...")
            },
            TransferPhase::EazySharingTicket => owned("Sharing ticket via Croc\u{2026}"),
            TransferPhase::EazyWaitingForPeer => owned("Waiting for peer (Sendme)\u{2026}"),
        }
    }

    /// The state of a running transfer in a word, or the percentage that is done.
    pub fn status_word(&self) -> (r: Option<String>)
        ensures
            sendme::string_view(r) == phase_word(self@),
    {
        match self.metrics.phase {
            TransferPhase::Preparing => Some(owned("preparing")),
            TransferPhase::WaitingForReceiver => Some(owned("waiting")),
            TransferPhase::Transferring => {
                let p = self.effective_progress();
                if Magnitude::single_ratio(1, 100).reaches(&p) {
                    None
                } else {
                    let mut out: Vec<char> = Vec::new();
                    numerals::push_decimal(&mut out, p.percent().round_scaled(1));
                    text::push_text(&mut out, "%");
                    assert(out@ =~= phase_word(self@)->0);
                    Some(text::string_of(out.as_slice()))
                }
            },
            TransferPhase::EazySharingTicket => Some(owned("sharing ticket")),
            TransferPhase::EazyWaitingForPeer => Some(owned("waiting for peer")),
        }
    }

    /// How long the transfer has been running.
    pub fn running_clock(&self) -> (r: Option<String>)
        ensures
            sendme::string_view(r) == (match self@.start_time {
                Some(start) => Some(minutes(whole_seconds(start, self@.now))),
                None => None,
            }),
    {
        match &self.start_time {
            Some(start) => Some(minutes_text(seconds_between(start, &self.now))),
            None => None,
        }
    }

    fn done_shown(&self) -> (r: u64)
        ensures
            r == shown_done(self@),
    {
        let total = self.total_or_zero();
        match self.metrics.done {
            Some(d) => d,
            None => if self.tool == SelectedTool::Croc && self.metrics.file_progress.is_some()
                && total > 0 {
                self.effective_progress().times(&Magnitude::from_u64(total)).truncate()
            } else {
                0
            },
        }
    }

    fn body(&self) -> (r: Body)
        ensures
            r@ == body(self@),
    {
        let total = self.total_or_zero();
        if self.broadcasting() {
            let active = self.serve.active_transfers;
            let line = if self.metrics.phase == TransferPhase::Preparing {
                owned("Preparing broadcast session...")
            } else if self.metrics.phase == TransferPhase::Transferring && active > 0 {
                owned("Broadcast mode active")
            } else {
                owned("Broadcast mode waiting for receivers...")
            };
            let mut count: Vec<char> = Vec::new();
            numerals::push_decimal(&mut count, active as u64);
            if active == 1 {
                text::push_text(&mut count, " transfer in progress");
            } else {
                text::push_text(&mut count, " transfers in progress");
            }
            let payload = if total > 0 {
                let mut out = text::chars_of("Payload: ");
                display::push_file_size(&mut out, total);
                Some(text::string_of(out.as_slice()))
            } else {
                None
            };
            assert(count@ =~= body(self@)->count);
            Body::Broadcast { line, count: text::string_of(count.as_slice()), payload }
        } else if self.metrics.phase == TransferPhase::Transferring {
            let p = self.effective_progress();
            if self.tool == SelectedTool::Croc {
                Body::Panel(self.build_croc_panel_data(&p, self.done_shown(), total))
            } else {
                Body::Panel(self.build_sendme_panel_data(&p, self.done_shown(), total))
            }
        } else {
            let label = match self.metrics.phase {
                TransferPhase::EazySharingTicket => owned("Sharing ticket via Croc..."),
                TransferPhase::EazyWaitingForPeer => owned("Waiting for peer (Sendme)..."),
                TransferPhase::WaitingForReceiver => owned("Waiting for receiver..."),
                _ => owned("Preparing ..."),
            };
            Body::Pulse {
                label,
                total: if total > 0 {
                    Some(sized("Total: ", total))
                } else {
                    None
                },
            }
        }
    }

    fn route_shown(&self) -> (r: Option<String>)
        ensures
            sendme::string_view(r) == shown_route(self@),
    {
        if self.tool == SelectedTool::Croc {
            copied(&self.route)
        } else {
            None
        }
    }

    fn seconds_taken(&self) -> (r: Option<u64>)
        ensures
            r == duration(self@),
    {
        let start = match self.metrics.payload_start {
            Some(t) => Some(t),
            None => self.start_time,
        };
        match &start {
            Some(start) => match &self.end_time {
                Some(end) => Some(seconds_between(start, end)),
                None => Some(seconds_between(start, &self.now)),
            },
            None => None,
        }
    }

    fn speed_at_last(&self) -> (r: Option<u64>)
        ensures
            r == final_speed(self@),
    {
        match self.average_transfer_speed_bps() {
            Some(v) => Some(v.truncate()),
            None => match &self.metrics.speed {
                Some(v) => Some(v.to_u64()),
                None => None,
            },
        }
    }

    /// What the user reads of the transfer.
    pub fn transfer_status(&self) -> (r: Status)
        ensures
            r@ == status(self@),
    {
        match &self.state {
            TransferState::Idle => Status::Idle,
            TransferState::Running => Status::Running {
                spinner: spinner(&self.now),
                text: self.phase_line(),
                clock: self.running_clock(),
                route: self.route_shown(),
                body: self.body(),
            },
            TransferState::Completed => {
                let done: u64 = match self.metrics.done {
                    Some(d) => d,
                    None => 0,
                };
                let total = self.total_or_zero();
                let secs = self.seconds_taken();
                let (data, progress) = if total > 0 {
                    (
                        Some(data_text(self.view, done, total)),
                        Some(progress_text(self.view, done, total)),
                    )
                } else {
                    (None, None)
                };
                let (clock, elapsed) = match secs {
                    Some(n) => {
                        let mut out = text::chars_of("Elapsed: ");
                        push_minutes(&mut out, n);
                        (Some(minutes_text(n)), Some(text::string_of(out.as_slice())))
                    },
                    None => (None, None),
                };
                Status::Completed {
                    clock,
                    data,
                    progress,
                    speed: match self.speed_at_last() {
                        Some(v) => Some(speed_text(self.view, v)),
                        None => None,
                    },
                    elapsed,
                    route: self.route_shown(),
                }
            },
            TransferState::Failed(e) => Status::Failed {
                message: owned(e.as_str()),
                clock: match self.seconds_taken() {
                    Some(n) => Some(minutes_text(n)),
                    None => None,
                },
            },
        }
    }

    /// The label and the code to share, where there is one to show.
    pub fn shared_code(&self) -> (r: Option<(String, String)>)
        ensures
            match r {
                Some((label, code)) => shows_code(self@) && label@ == code_label(self@.tool)
                    && self@.code == Some(code@),
                None => !shows_code(self@),
            },
    {
        match &self.code {
            Some(code) => {
                if (self.tool == SelectedTool::Sendme && self.view == AppView::Receive) || (
                self.tool == SelectedTool::Croc && self.view == AppView::Send
                    && self.metrics.phase == TransferPhase::Preparing) {
                    None
                } else {
                    let label = match self.tool {
                        SelectedTool::Croc => owned("Share this code:"),
                        SelectedTool::Sendme => owned("Share this ticket:"),
                        SelectedTool::EazySendme => owned("EazySendme ticket:"),
                    };
                    Some((label, owned(code.as_str())))
                }
            },
            None => None,
        }
    }
}

} // verus!
