//! How far a transfer is: its progress, its speed, and the time that is left.

use crate::binary64;
use crate::binary64::Magnitude;
use crate::display;
use crate::engine::Session;
use crate::metrics;
use crate::numerals;
use crate::numerals::{Reading, Real};
use crate::sendme;
use crate::session::SessionModel;
use crate::state::{AppView, SelectedTool, TransferPhase};
use crate::text;
use crate::transfer::owned;
use vstd::prelude::*;

verus! {

/// The part that is shown as done, in single precision. Before bytes move it is
/// nothing. Where croc counts files, the count is what is shown; else what is
/// known of the bytes can only add to it.
pub open spec fn shown_progress(s: SessionModel) -> nat {
    let m = s.metrics;
    match m.phase {
        TransferPhase::Transferring => {
            let p = binary64::at_most_one(m.progress);
            if s.tool == SelectedTool::Croc && m.file_progress is Some {
                p
            } else {
                match (m.done, m.total) {
                    (Some(done), Some(total)) if total > 0 => binary64::larger(
                        p,
                        binary64::fraction(done as nat, total as nat),
                    ),
                    _ => p,
                }
            }
        },
        _ => 0,
    }
}

/// A percentage with one decimal: `42.5%`.
pub open spec fn percent_label(progress: nat) -> Seq<char> {
    numerals::fixed(binary64::percent_of(progress), 1) + "%"@
}

pub struct PanelModel {
    pub title: Seq<char>,
    pub transferred: Seq<char>,
    pub progress: nat,
    pub percent: Seq<char>,
    pub detail: Option<Seq<char>>,
    pub rate: Seq<char>,
    pub eta: Seq<char>,
}

/// No bar has come for more than four seconds: croc checks what it has written.
pub open spec fn is_finalizing(s: SessionModel) -> bool {
    s.metrics.last_frame_at matches Some(t) && s.now >= t && metrics::seconds_since(s.now, t)
        > binary64::whole(4)
}

pub open spec fn verb(view: AppView) -> Seq<char> {
    if view == AppView::Send {
        "Sending"@
    } else {
        "Receiving"@
    }
}

pub open spec fn transferred_text(done: u64, total: u64) -> Seq<char> {
    if total > 0 {
        display::file_size(done) + " / "@ + display::file_size(total)
    } else {
        display::file_size(done)
    }
}

/// The speed where there is one above zero.
pub open spec fn moving_speed(speed: Option<Real>) -> Option<Real> {
    match speed {
        Some(v) if v.above_zero() => Some(v),
        _ => None,
    }
}

pub open spec fn rate_text(speed: Option<Real>) -> Seq<char> {
    match moving_speed(speed) {
        Some(v) => display::file_size(v.to_u64_rounded()) + "/s"@,
        None => "--"@,
    }
}

/// The time that the rest takes at this speed.
pub open spec fn time_left(rest: u64, speed: Real) -> Real {
    match speed {
        Real::Nan => Real::Nan,
        Real::Number { negative, units } => Real::Number {
            negative,
            units: binary64::quotient(binary64::whole(rest as nat), units),
        },
    }
}

pub open spec fn eta_text(done: u64, total: u64, speed: Option<Real>) -> Seq<char> {
    if total > done {
        match moving_speed(speed) {
            Some(v) => display::eta(time_left((total - done) as u64, v)),
            None => "--"@,
        }
    } else if total > 0 {
        "0s"@
    } else {
        "--"@
    }
}

/// The live rate and the time that is left; nothing is said of either while croc
/// checks what it has written.
pub open spec fn rate_and_eta(s: SessionModel, done: u64, total: u64, finalizing: bool) -> (
    Seq<char>,
    Seq<char>,
) {
    if finalizing {
        ("--"@, "--"@)
    } else {
        (rate_text(s.metrics.speed), eta_text(done, total, s.metrics.speed))
    }
}

pub open spec fn current_file(s: SessionModel) -> Seq<char> {
    match s.metrics.bar_file {
        Some(f) => f,
        None => Seq::empty(),
    }
}

pub open spec fn croc_title(s: SessionModel) -> Seq<char> {
    if is_finalizing(s) {
        "Finalizing\u{2026} (verifying files)"@
    } else if current_file(s).len() == 0 {
        verb(s.view) + "\u{2026}"@
    } else {
        verb(s.view) + " "@ + current_file(s)
    }
}

pub open spec fn croc_detail(s: SessionModel) -> Option<Seq<char>> {
    match s.metrics.file_progress {
        Some((done, total)) if total > 0 => Some(
            numerals::decimal(done as nat) + "/"@ + numerals::decimal(total as nat) + " "@
                + current_file(s),
        ),
        _ => if current_file(s).len() > 0 {
            Some(current_file(s))
        } else {
            None
        },
    }
}

/// What is shown of a croc transfer.
pub open spec fn croc_panel(s: SessionModel, progress: nat, done: u64, total: u64) -> PanelModel {
    let (rate, eta) = rate_and_eta(s, done, total, is_finalizing(s));
    PanelModel {
        title: croc_title(s),
        transferred: transferred_text(done, total),
        progress,
        percent: percent_label(progress),
        detail: croc_detail(s),
        rate,
        eta,
    }
}

/// What is shown of a sendme transfer.
pub open spec fn sendme_panel(s: SessionModel, progress: nat, done: u64, total: u64) -> PanelModel {
    let (rate, eta) = rate_and_eta(s, done, total, false);
    PanelModel {
        title: verb(s.view) + "\u{2026}"@,
        transferred: transferred_text(done, total),
        progress,
        percent: percent_label(progress),
        detail: match s.metrics.total_items {
            Some(n) => Some(numerals::decimal(n as nat) + " files"@),
            None => None,
        },
        rate,
        eta,
    }
}

/// When bytes began to move, or else when the transfer began.
pub open spec fn begin_time(s: SessionModel) -> Option<nat> {
    match s.metrics.payload_start {
        Some(t) => Some(t),
        None => s.start_time,
    }
}

/// The bytes over the time in which they moved.
pub open spec fn average_speed(s: SessionModel) -> Option<nat> {
    match (begin_time(s), s.end_time) {
        (Some(start), Some(end)) => {
            let done = metrics::or_zero(s.metrics.done);
            if end <= start || done == 0 {
                None
            } else {
                Some(
                    binary64::quotient(
                        binary64::whole(done as nat),
                        metrics::seconds_since(end, start),
                    ),
                )
            }
        },
        _ => None,
    }
}

// ── Laws ──

/// What is shown as done is between nothing and everything.
pub proof fn law_shown_progress_is_a_part(s: SessionModel)
    ensures
        shown_progress(s) <= binary64::one(),
{
}

/// While bytes move and croc counts no files, what is shown as done never falls
/// behind the bytes, nor behind the progress that was reported.
pub proof fn law_shown_progress_follows_the_bytes(s: SessionModel, done: u64, total: u64)
    requires
        s.metrics.phase == TransferPhase::Transferring,
        s.metrics.done == Some(done),
        s.metrics.total == Some(total),
        total > 0,
        s.tool != SelectedTool::Croc || s.metrics.file_progress is None,
    ensures
        shown_progress(s) >= binary64::fraction(done as nat, total as nat),
        shown_progress(s) >= binary64::at_most_one(s.metrics.progress),
{
}

// ── The panels ──

pub struct CrocPanelData {
    pub title: String,
    pub transferred_label: String,
    pub progress: Magnitude,
    pub percent_label: String,
    pub detail_left: Option<String>,
    pub rate_value: String,
    pub eta_value: String,
}

impl View for CrocPanelData {
    type V = PanelModel;

    open spec fn view(&self) -> PanelModel {
        PanelModel {
            title: self.title@,
            transferred: self.transferred_label@,
            progress: self.progress@,
            percent: self.percent_label@,
            detail: sendme::string_view(self.detail_left),
            rate: self.rate_value@,
            eta: self.eta_value@,
        }
    }
}

/// A percentage with one decimal.
pub fn format_percent(progress: &Magnitude) -> (r: String)
    ensures
        r@ == percent_label(progress@),
{
    let mut out: Vec<char> = Vec::new();
    numerals::push_tenths(&mut out, &progress.percent());
    text::push_text(&mut out, "%");
    assert(out@ =~= percent_label(progress@));
    text::string_of(out.as_slice())
}

fn push_verb(out: &mut Vec<char>, view: AppView)
    ensures
        final(out)@ == old(out)@ + verb(view),
{
    if view == AppView::Send {
        text::push_text(out, "Sending");
    } else {
        text::push_text(out, "Receiving");
    }
}

fn transferred(done: u64, total: u64) -> (r: String)
    ensures
        r@ == transferred_text(done, total),
{
    let mut out: Vec<char> = Vec::new();
    display::push_file_size(&mut out, done);
    if total > 0 {
        text::push_text(&mut out, " / ");
        display::push_file_size(&mut out, total);
    }
    assert(out@ =~= transferred_text(done, total));
    text::string_of(out.as_slice())
}

fn moving(speed: &Option<Reading>) -> (r: Option<Reading>)
    ensures
        numerals::reading_view(r) == moving_speed(numerals::reading_view(*speed)),
{
    match speed {
        Some(v) => if v.is_above_zero() {
            Some(*v)
        } else {
            None
        },
        None => None,
    }
}

impl Session {
    /// The part that is shown as done.
    pub fn effective_progress(&self) -> (r: Magnitude)
        ensures
            r@ == shown_progress(self@),
    {
        match self.metrics.phase {
            TransferPhase::Transferring => {
                let p = self.metrics.progress.capped();
                if self.tool == SelectedTool::Croc && self.metrics.file_progress.is_some() {
                    return p;
                }
                match (self.metrics.done, self.metrics.total) {
                    (Some(done), Some(total)) => {
                        if total > 0 {
                            p.max(&Magnitude::fraction_of(done, total))
                        } else {
                            p
                        }
                    },
                    _ => p,
                }
            },
            _ => Magnitude::zero(),
        }
    }

    fn finalizing(&self) -> (r: bool)
        ensures
            r == is_finalizing(self@),
    {
        match self.metrics.last_frame_at {
            Some(t) => match self.now.minus(&t) {
                Some(d) => !Magnitude::from_u64(4).reaches(&d),
                None => false,
            },
            None => false,
        }
    }

    /// The live rate and the time that is left.
    pub fn panel_rate_eta(&self, done: u64, total: u64, finalizing: bool) -> (r: (String, String))
        ensures
            (r.0@, r.1@) == rate_and_eta(self@, done, total, finalizing),
    {
        if finalizing {
            return (owned("--"), owned("--"));
        }
        let speed = moving(&self.metrics.speed);
        let rate = match &speed {
            Some(v) => {
                let mut out: Vec<char> = Vec::new();
                display::push_file_size(&mut out, v.to_u64_rounded());
                text::push_text(&mut out, "/s");
                assert(out@ =~= rate_text(self@.metrics.speed));
                text::string_of(out.as_slice())
            },
            None => owned("--"),
        };
        let eta = if total > done {
            match &speed {
                Some(v) => {
                    let left = match v {
                        Reading::Nan => Reading::Nan,
                        Reading::Number { negative, size } => Reading::Number {
                            negative: *negative,
                            size: Magnitude::from_u64(total - done).over(size),
                        },
                    };
                    display::format_eta_compact(&left)
                },
                None => owned("--"),
            }
        } else if total > 0 {
            owned("0s")
        } else {
            owned("--")
        };
        (rate, eta)
    }

    fn bar_file_name(&self) -> (r: String)
        ensures
            r@ == current_file(self@),
    {
        match &self.metrics.bar_file {
            Some(f) => owned(f.as_str()),
            None => {
                let none: Vec<char> = Vec::new();
                let r = text::string_of(none.as_slice());
                assert(r@ =~= Seq::empty());
                r
            },
        }
    }

    /// What is shown of a croc transfer.
    pub fn build_croc_panel_data(&self, progress: &Magnitude, done: u64, total: u64) -> (r:
        CrocPanelData)
        ensures
            r@ == croc_panel(self@, progress@, done, total),
    {
        let finalizing = self.finalizing();
        let file = self.bar_file_name();
        let named = text::chars_of(file.as_str()).len() > 0;
        let title = if finalizing {
            owned("Finalizing\u{2026} (verifying files)")
        } else {
            let mut out: Vec<char> = Vec::new();
            push_verb(&mut out, self.view);
            if named {
                text::push_text(&mut out, " ");
                text::push_text(&mut out, file.as_str());
            } else {
                text::push_text(&mut out, "\u{2026}");
            }
            assert(out@ =~= croc_title(self@));
            text::string_of(out.as_slice())
        };
        let by_name = if named {
            Some(owned(file.as_str()))
        } else {
            None
        };
        let detail_left = match self.metrics.file_progress {
            Some((files, all)) => {
                if all > 0 {
                    let mut out: Vec<char> = Vec::new();
                    numerals::push_decimal(&mut out, files);
                    text::push_text(&mut out, "/");
                    numerals::push_decimal(&mut out, all);
                    text::push_text(&mut out, " ");
                    text::push_text(&mut out, file.as_str());
                    assert(out@ =~= croc_detail(self@)->0);
                    Some(text::string_of(out.as_slice()))
                } else {
                    by_name
                }
            },
            None => by_name,
        };
        let (rate_value, eta_value) = self.panel_rate_eta(done, total, finalizing);
        CrocPanelData {
            title,
            transferred_label: transferred(done, total),
            progress: *progress,
            percent_label: format_percent(progress),
            detail_left,
            rate_value,
            eta_value,
        }
    }

    /// What is shown of a sendme transfer.
    pub fn build_sendme_panel_data(&self, progress: &Magnitude, done: u64, total: u64) -> (r:
        CrocPanelData)
        ensures
            r@ == sendme_panel(self@, progress@, done, total),
    {
        let mut title: Vec<char> = Vec::new();
        push_verb(&mut title, self.view);
        text::push_text(&mut title, "\u{2026}");
        assert(title@ =~= verb(self.view) + "\u{2026}"@);
        let detail_left = match self.metrics.total_items {
            Some(n) => {
                let mut out: Vec<char> = Vec::new();
                numerals::push_decimal(&mut out, n);
                text::push_text(&mut out, " files");
                assert(out@ =~= numerals::decimal(n as nat) + " files"@);
                Some(text::string_of(out.as_slice()))
            },
            None => None,
        };
        let (rate_value, eta_value) = self.panel_rate_eta(done, total, false);
        CrocPanelData {
            title: text::string_of(title.as_slice()),
            transferred_label: transferred(done, total),
            progress: *progress,
            percent_label: format_percent(progress),
            detail_left,
            rate_value,
            eta_value,
        }
    }

    /// The average speed over the time in which bytes moved.
    pub fn average_transfer_speed_bps(&self) -> (r: Option<Magnitude>)
        ensures
            metrics::time_view(r) == average_speed(self@),
    {
        let start = match self.metrics.payload_start {
            Some(t) => Some(t),
            None => self.start_time,
        };
        match (start, self.end_time) {
            (Some(start), Some(end)) => {
                let done: u64 = match self.metrics.done {
                    Some(d) => d,
                    None => 0,
                };
                if start.reaches(&end) || done == 0 {
                    return None;
                }
                match end.minus(&start) {
                    Some(secs) => {
                        proof {
                            binary64::lemma_nearest_positive((end@ - start@) as nat, 1, 53);
                        }
                        Some(Magnitude::from_u64(done).over(&secs))
                    },
                    None => None,
                }
            },
            _ => None,
        }
    }
}

} // verus!
