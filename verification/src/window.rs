//! The window: its size, the notes that it shows, and when it wakes up.

use crate::binary64;
use crate::binary64::Magnitude;
use crate::engine::{Session, TransferState};
use crate::metrics;
use crate::numerals::{Reading, Real};
use crate::session::SessionModel;
use vstd::prelude::*;

verus! {

// ── Size ──

pub struct SizeModel {
    pub width: Real,
    pub height: Real,
}

#[derive(Clone, Copy)]
pub struct Size {
    pub width: Reading,
    pub height: Reading,
}

impl View for Size {
    type V = SizeModel;

    open spec fn view(&self) -> SizeModel {
        SizeModel { width: self.width@, height: self.height@ }
    }
}

/// The number is at least `n`; what is no number is not.
pub open spec fn at_least(r: Real, n: nat) -> bool {
    !(r is Nan) && !r.below(n)
}

/// A window of this size cannot be used, and no user can have made it so small.
pub open spec fn is_too_small(s: SizeModel) -> bool {
    s.width.below(460) || s.height.below(400)
}

/// A size that is worth remembering.
pub open spec fn is_healthy(s: SizeModel) -> bool {
    at_least(s.width, 460) && at_least(s.height, 400)
}

/// The size that a window is given when it is restored, where the one that it has
/// cannot be used.
pub open spec fn forced_size(current: SizeModel, last_good: SizeModel) -> Option<SizeModel> {
    if is_too_small(current) {
        Some(last_good)
    } else {
        None
    }
}

pub open spec fn size_view(s: Option<Size>) -> Option<SizeModel> {
    match s {
        Some(s) => Some(s@),
        None => None,
    }
}

/// A size that users can choose is never overridden.
pub proof fn law_healthy_sizes_are_kept(current: SizeModel, last_good: SizeModel)
    requires
        is_healthy(current),
    ensures
        forced_size(current, last_good) is None,
{
}

/// The size that a window is given when it is restored.
pub fn restore_size_override(current: &Size, last_good: &Size) -> (r: Option<Size>)
    ensures
        size_view(r) == forced_size(current@, last_good@),
{
    if current.width.is_below(460) || current.height.is_below(400) {
        Some(*last_good)
    } else {
        None
    }
}

pub open spec fn default_size() -> SizeModel {
    SizeModel {
        width: Real::Number { negative: false, units: binary64::whole(620) },
        height: Real::Number { negative: false, units: binary64::whole(820) },
    }
}

pub struct WindowModel {
    pub last_good: SizeModel,
    /// The first frame has been looked at.
    pub launched: bool,
}

/// What is known of the window's size.
pub struct WindowState {
    pub last_good: Size,
    pub launched: bool,
}

impl View for WindowState {
    type V = WindowModel;

    open spec fn view(&self) -> WindowModel {
        WindowModel { last_good: self.last_good@, launched: self.launched }
    }
}

/// A frame of some size: a size that can be used is remembered.
pub open spec fn frame_seen(w: WindowModel, current: SizeModel) -> WindowModel {
    WindowModel {
        launched: true,
        last_good: if is_healthy(current) {
            current
        } else {
            w.last_good
        },
    }
}

/// The size that is remembered can always be used.
pub proof fn law_remembered_size_is_healthy(w: WindowModel, current: SizeModel)
    requires
        is_healthy(w.last_good),
    ensures
        is_healthy(frame_seen(w, current).last_good),
{
}

fn healthy(s: &Size) -> (r: bool)
    ensures
        r == is_healthy(s@),
{
    let numbers = match (&s.width, &s.height) {
        (Reading::Number { .. }, Reading::Number { .. }) => true,
        _ => false,
    };
    numbers && !s.width.is_below(460) && !s.height.is_below(400)
}

fn standard() -> (r: Size)
    ensures
        r@ == default_size(),
{
    Size {
        width: Reading::Number { negative: false, size: Magnitude::from_u64(620) },
        height: Reading::Number { negative: false, size: Magnitude::from_u64(820) },
    }
}

impl WindowState {
    pub fn new() -> (r: WindowState)
        ensures
            r@ == (WindowModel { last_good: default_size(), launched: false }),
    {
        WindowState { last_good: standard(), launched: false }
    }

    /// Looks at a frame. The first may call for another size.
    pub fn on_frame(&mut self, current: &Size) -> (r: Option<Size>)
        ensures
            final(self)@ == frame_seen(old(self)@, current@),
            size_view(r) == (if old(self)@.launched {
                None
            } else {
                forced_size(current@, default_size())
            }),
    {
        let forced = if self.launched {
            None
        } else {
            restore_size_override(current, &standard())
        };
        self.launched = true;
        if healthy(current) {
            self.last_good = *current;
        }
        forced
    }
}

// ── Waking up ──

/// How long a hidden window may sleep: until the next retry, an hour at most.
pub open spec fn sleep(now: nat, next_retry: Option<nat>) -> Option<nat> {
    match next_retry {
        None => None,
        Some(t) => Some(
            if t < now {
                0
            } else if metrics::seconds_since(t, now) >= binary64::whole(3600) {
                binary64::whole(3600)
            } else {
                metrics::seconds_since(t, now)
            },
        ),
    }
}

/// How long a hidden window may sleep.
pub fn wake_after(now: &Magnitude, next_retry: &Option<Magnitude>) -> (r: Option<Magnitude>)
    ensures
        metrics::time_view(r) == sleep(now@, metrics::time_view(*next_retry)),
{
    match next_retry {
        None => None,
        Some(t) => match t.minus(now) {
            None => Some(Magnitude::zero()),
            Some(d) => {
                let hour = Magnitude::from_u64(3600);
                if d.reaches(&hour) {
                    Some(hour)
                } else {
                    Some(d)
                }
            },
        },
    }
}

/// When the next frame is drawn.
#[derive(Clone, Copy, Debug, PartialEq, Eq, Structural)]
pub enum Redraw {
    /// At once.
    Now,
    /// A tenth of a second later.
    Soon,
    /// When something happens.
    Idle,
}

/// The next frame comes at once while a retry counts down, and where a look for
/// local data was given up: nothing may flash while another begins. It comes soon
/// while a transfer runs.
pub open spec fn redraw(s: SessionModel, gave_up: bool) -> Redraw {
    if gave_up || (s.state is Failed && s.eazy.next_retry is Some) {
        Redraw::Now
    } else if s.state is Running || s.eazy.next_retry is Some {
        Redraw::Soon
    } else {
        Redraw::Idle
    }
}

/// When the next frame is drawn.
pub fn next_frame(session: &Session, gave_up: bool) -> (r: Redraw)
    ensures
        r == redraw(session@, gave_up),
{
    let failed = match session.state {
        TransferState::Failed(_) => true,
        _ => false,
    };
    let retrying = session.eazy.next_retry.is_some();
    if gave_up || (failed && retrying) {
        Redraw::Now
    } else if session.is_running() || retrying {
        Redraw::Soon
    } else {
        Redraw::Idle
    }
}

// ── Notes ──

/// How opaque a note is that was shown at `start`: fully for two seconds, then
/// fading for one; none once it is over.
pub open spec fn opacity(now: nat, start: nat) -> Option<u8> {
    if now < start {
        Some(255)
    } else {
        let e = metrics::seconds_since(now, start);
        if e > binary64::whole(3) {
            None
        } else if e > binary64::whole(2) {
            let left = binary64::nearest((binary64::whole(3) - e) as nat, 1);
            let a = binary64::truncated(binary64::product(left, binary64::whole(255)));
            Some(
                if a > 255 {
                    255
                } else {
                    a as u8
                },
            )
        } else {
            Some(255)
        }
    }
}

/// How opaque a note is.
pub fn toast_alpha(now: &Magnitude, start: &Magnitude) -> (r: Option<u8>)
    ensures
        r == opacity(now@, start@),
{
    match now.minus(start) {
        None => Some(255),
        Some(e) => {
            let three = Magnitude::from_u64(3);
            match three.minus(&e) {
                None => None,
                Some(left) => {
                    if Magnitude::from_u64(2).reaches(&e) {
                        Some(255)
                    } else {
                        let a: u64 = left.times(&Magnitude::from_u64(255)).truncate();
                        if a > 255 {
                            Some(255)
                        } else {
                            Some(a as u8)
                        }
                    }
                },
            }
        },
    }
}

} // verus!
