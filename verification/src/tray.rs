//! The icon in the system tray: what its events mean, and when it is there.

use crate::messages;
use crate::text;
use crate::transfer::owned;
use vstd::prelude::*;

verus! {

/// The name of the menu entry that shows the window.
pub const TRAY_SHOW_ID: &'static str = "databeam_show";

/// The name of the menu entry that ends the program.
pub const TRAY_QUIT_ID: &'static str = "databeam_quit";

#[derive(Clone, Copy, Debug, PartialEq, Eq, Structural)]
pub enum MouseButton {
    Left,
    Right,
    Middle,
}

#[derive(Clone, Copy, Debug, PartialEq, Eq, Structural)]
pub enum MouseButtonState {
    Up,
    Down,
}

/// What happens to the icon.
#[derive(Clone, Copy, Debug, PartialEq, Eq, Structural)]
pub enum IconEvent {
    Click { button: MouseButton, button_state: MouseButtonState },
    DoubleClick { button: MouseButton },
    Enter,
    Move,
    Leave,
    Unknown,
}

/// What happens to the icon or in its menu.
pub enum TrayRawEvent {
    Icon(IconEvent),
    /// The entry with this name was chosen.
    Menu(String),
}

pub enum RawModel {
    Icon(IconEvent),
    Menu(Seq<char>),
}

impl View for TrayRawEvent {
    type V = RawModel;

    open spec fn view(&self) -> RawModel {
        match *self {
            TrayRawEvent::Icon(e) => RawModel::Icon(e),
            TrayRawEvent::Menu(id) => RawModel::Menu(id@),
        }
    }
}

pub open spec fn raw_events(v: Seq<TrayRawEvent>) -> Seq<RawModel> {
    v.map_values(|e: TrayRawEvent| e@)
}

pub open spec fn event_kind(e: RawModel) -> Seq<char> {
    match e {
        RawModel::Icon(IconEvent::Click { .. }) => "icon-click"@,
        RawModel::Icon(IconEvent::DoubleClick { .. }) => "icon-double-click"@,
        RawModel::Icon(IconEvent::Enter) => "icon-enter"@,
        RawModel::Icon(IconEvent::Move) => "icon-move"@,
        RawModel::Icon(IconEvent::Leave) => "icon-leave"@,
        RawModel::Icon(IconEvent::Unknown) => "icon-unknown"@,
        RawModel::Menu(_) => "menu"@,
    }
}

impl TrayRawEvent {
    /// A short name for the log.
    pub fn kind(&self) -> (r: &'static str)
        ensures
            r@ == event_kind(self@),
    {
        match self {
            TrayRawEvent::Icon(event) => match event {
                IconEvent::Click { .. } => "icon-click",
                IconEvent::DoubleClick { .. } => "icon-double-click",
                IconEvent::Enter => "icon-enter",
                IconEvent::Move => "icon-move",
                IconEvent::Leave => "icon-leave",
                IconEvent::Unknown => "icon-unknown",
            },
            TrayRawEvent::Menu(_) => "menu",
        }
    }
}

/// What the program does on an event.
#[derive(Clone, Copy, Debug, PartialEq, Eq, Structural)]
pub enum TrayAction {
    Show,
    Quit,
}

/// The window is shown on a click or a double click with the left button.
pub open spec fn shows(e: IconEvent) -> bool {
    match e {
        IconEvent::Click { button, .. } => button == MouseButton::Left,
        IconEvent::DoubleClick { button } => button == MouseButton::Left,
        _ => false,
    }
}

/// Whether an event of the icon shows the window.
pub fn map_icon_event(event: &IconEvent) -> (r: bool)
    ensures
        r == shows(*event),
{
    match event {
        IconEvent::Click { button, .. } => *button == MouseButton::Left,
        IconEvent::DoubleClick { button } => *button == MouseButton::Left,
        _ => false,
    }
}

pub open spec fn menu_action(show_id: Seq<char>, quit_id: Seq<char>, id: Seq<char>) -> Option<TrayAction> {
    if id == show_id {
        Some(TrayAction::Show)
    } else if id == quit_id {
        Some(TrayAction::Quit)
    } else {
        None
    }
}

/// What an entry of the menu does.
pub fn map_menu_id(show_id: &str, quit_id: &str, id: &str) -> (r: Option<TrayAction>)
    ensures
        r == menu_action(show_id@, quit_id@, id@),
{
    if text::same_str(id, show_id) {
        Some(TrayAction::Show)
    } else if text::same_str(id, quit_id) {
        Some(TrayAction::Quit)
    } else {
        None
    }
}

// ── The icon ──

/// What is known of the icon that was made last: the names of its menu entries, and
/// the window that it belongs to.
pub struct ForwardModel {
    pub show_id: Seq<char>,
    pub quit_id: Seq<char>,
    pub hwnd: Option<isize>,
}

pub struct TrayModel {
    /// Kept when the icon is taken away: another is made for the same window.
    pub forward: Option<ForwardModel>,
    /// An icon is there.
    pub icon: bool,
    pub debug: bool,
}

/// There has been no icon, and there is no log.
pub open spec fn first_tray() -> TrayModel {
    TrayModel { forward: None, icon: false, debug: false }
}

/// An icon for a window is there, in place of any other.
pub open spec fn installed(t: TrayModel, hwnd: Option<isize>) -> TrayModel {
    TrayModel {
        forward: Some(ForwardModel { show_id: TRAY_SHOW_ID@, quit_id: TRAY_QUIT_ID@, hwnd }),
        icon: true,
        ..t
    }
}

/// The icon has been taken away.
pub open spec fn removed(t: TrayModel) -> TrayModel {
    TrayModel { icon: false, ..t }
}

/// The window of the icon that was made last.
pub open spec fn known_hwnd(t: TrayModel) -> Option<isize> {
    match t.forward {
        Some(f) => f.hwnd,
        None => None,
    }
}

/// Closing the window hides it: the switch for living in the tray is on, and an
/// icon is there to bring the window back.
pub open spec fn close_hides(t: TrayModel, minimize: bool) -> bool {
    minimize && t.icon
}

/// An icon is there from when it is made until it is taken away, however often
/// that happens. The window is known beyond that, and closing it hides it only
/// while the icon is there.
pub proof fn law_icon_comes_and_goes(t: TrayModel, hwnd: Option<isize>, again: Option<isize>)
    ensures
        !first_tray().icon,
        installed(t, hwnd).icon,
        !removed(installed(t, hwnd)).icon,
        installed(removed(installed(t, hwnd)), again).icon,
        known_hwnd(removed(installed(t, hwnd))) == hwnd,
        known_hwnd(installed(removed(installed(t, hwnd)), again)) == again,
        forall|minimize: bool| !close_hides(removed(t), minimize),
{
}

pub open spec fn tray_action(t: TrayModel, e: RawModel) -> Option<TrayAction> {
    match e {
        RawModel::Icon(e) => if shows(e) {
            Some(TrayAction::Show)
        } else {
            None
        },
        RawModel::Menu(id) => match t.forward {
            Some(f) => menu_action(f.show_id, f.quit_id, id),
            None => None,
        },
    }
}

/// The actions of the first `n` events, in order.
pub open spec fn tray_actions(t: TrayModel, events: Seq<RawModel>, n: nat) -> Seq<TrayAction>
    decreases n,
{
    if n == 0 || n > events.len() {
        Seq::empty()
    } else {
        let before = tray_actions(t, events, (n - 1) as nat);
        match tray_action(t, events[n - 1]) {
            Some(a) => before.push(a),
            None => before,
        }
    }
}

/// What is done for an action, in order.
pub enum TrayEffect {
    /// A line for the log.
    Log(String),
    /// The window with this handle is shown by the system.
    ShowWindow(isize),
    /// The window is made visible, restored and given the focus.
    Restore,
    /// Everything that was started is ended, and the program with it.
    HardQuit,
}

pub enum TrayEffectModel {
    Log(Seq<char>),
    ShowWindow(isize),
    Restore,
    HardQuit,
}

impl View for TrayEffect {
    type V = TrayEffectModel;

    open spec fn view(&self) -> TrayEffectModel {
        match *self {
            TrayEffect::Log(s) => TrayEffectModel::Log(s@),
            TrayEffect::ShowWindow(h) => TrayEffectModel::ShowWindow(h),
            TrayEffect::Restore => TrayEffectModel::Restore,
            TrayEffect::HardQuit => TrayEffectModel::HardQuit,
        }
    }
}

pub open spec fn tray_effects(v: Seq<TrayEffect>) -> Seq<TrayEffectModel> {
    v.map_values(|e: TrayEffect| e@)
}

/// What the handler of an icon does by itself, without the window's help. Before
/// the first icon it does nothing. The system's own call comes first: it wakes a
/// window that is hidden.
pub open spec fn applied(t: TrayModel, action: TrayAction) -> Seq<TrayEffectModel> {
    match t.forward {
        None => Seq::empty(),
        Some(f) => match action {
            TrayAction::Show => {
                let log = seq![TrayEffectModel::Log("tray action applied: Show"@)];
                match f.hwnd {
                    Some(h) => log.push(TrayEffectModel::ShowWindow(h)).push(
                        TrayEffectModel::Restore,
                    ),
                    None => log.push(TrayEffectModel::Restore),
                }
            },
            TrayAction::Quit => seq![
                TrayEffectModel::Log("tray action applied: Quit"@),
                TrayEffectModel::HardQuit,
            ],
        },
    }
}

/// Events that come in streams are not logged one by one.
pub open spec fn is_noisy(e: RawModel) -> bool {
    e == RawModel::Icon(IconEvent::Move) || e == RawModel::Icon(IconEvent::Enter)
}

/// The lines for the log when an event is passed on.
pub open spec fn forward_lines(e: RawModel, delivered: bool) -> Seq<Seq<char>> {
    let said = if delivered {
        "tray forward delivered: true"@
    } else {
        "tray forward delivered: false"@
    };
    if is_noisy(e) {
        if delivered {
            Seq::empty()
        } else {
            seq![said]
        }
    } else {
        seq!["tray event forwarded: "@ + event_kind(e), said]
    }
}

/// Before the first icon, no menu entry and no action has an effect.
pub proof fn law_no_effect_before_the_first_icon(t: TrayModel, id: Seq<char>, action: TrayAction)
    requires
        t.forward is None,
    ensures
        tray_action(t, RawModel::Menu(id)) is None,
        applied(t, action).len() == 0,
{
}

pub struct TrayForward {
    pub show_id: String,
    pub quit_id: String,
    pub hwnd: Option<isize>,
}

/// The state of the tray.
pub struct Tray {
    pub forward: Option<TrayForward>,
    pub icon: bool,
    pub debug: bool,
}

impl View for Tray {
    type V = TrayModel;

    open spec fn view(&self) -> TrayModel {
        TrayModel {
            forward: match self.forward {
                Some(f) => Some(
                    ForwardModel { show_id: f.show_id@, quit_id: f.quit_id@, hwnd: f.hwnd },
                ),
                None => None,
            },
            icon: self.icon,
            debug: self.debug,
        }
    }
}

fn said(out: &mut Vec<TrayEffect>, line: &str)
    ensures
        tray_effects(final(out)@) == tray_effects(old(out)@).push(TrayEffectModel::Log(line@)),
{
    let e = TrayEffect::Log(owned(line));
    let ghost model = e@;
    out.push(e);
    assert(tray_effects(out@) =~= tray_effects(old(out)@).push(model));
}

fn done(out: &mut Vec<TrayEffect>, e: TrayEffect)
    ensures
        tray_effects(final(out)@) == tray_effects(old(out)@).push(e@),
{
    let ghost model = e@;
    out.push(e);
    assert(tray_effects(out@) =~= tray_effects(old(out)@).push(model));
}

impl Tray {
    /// No icon, no log.
    pub fn new() -> (r: Tray)
        ensures
            r@ == first_tray(),
    {
        Tray { forward: None, icon: false, debug: false }
    }

    /// An icon is there. It replaces the one before.
    pub fn install(&mut self, hwnd: Option<isize>)
        ensures
            final(self)@ == installed(old(self)@, hwnd),
    {
        self.forward = Some(
            TrayForward { show_id: owned(TRAY_SHOW_ID), quit_id: owned(TRAY_QUIT_ID), hwnd },
        );
        self.icon = true;
    }

    /// The icon is taken away. Its window stays known.
    pub fn remove(&mut self)
        ensures
            final(self)@ == removed(old(self)@),
    {
        self.icon = false;
    }

    /// The window of the icon that was made last.
    pub fn tray_hwnd(&self) -> (r: Option<isize>)
        ensures
            r == known_hwnd(self@),
    {
        match &self.forward {
            Some(f) => f.hwnd,
            None => None,
        }
    }

    /// Whether an icon is there.
    pub fn is_active(&self) -> (r: bool)
        ensures
            r == self@.icon,
    {
        self.icon
    }

    /// Whether closing the window hides it, given the switch for living in the tray.
    pub fn hides_on_close(&self, minimize: bool) -> (r: bool)
        ensures
            r == close_hides(self@, minimize),
    {
        minimize && self.icon
    }

    /// Turns the log on or off.
    pub fn set_debug_enabled(&mut self, enabled: bool)
        ensures
            final(self)@ == (TrayModel { debug: enabled, ..old(self)@ }),
    {
        self.debug = enabled;
    }

    /// What the handler of the icon does for an action.
    pub fn apply_from_handler(&self, action: TrayAction) -> (r: Vec<TrayEffect>)
        ensures
            tray_effects(r@) == applied(self@, action),
    {
        let mut out: Vec<TrayEffect> = Vec::new();
        assert(tray_effects(out@) =~= Seq::empty());
        match &self.forward {
            None => {},
            Some(f) => match action {
                TrayAction::Show => {
                    said(&mut out, "tray action applied: Show");
                    match f.hwnd {
                        Some(h) => {
                            done(&mut out, TrayEffect::ShowWindow(h));
                        },
                        None => {},
                    }
                    done(&mut out, TrayEffect::Restore);
                },
                TrayAction::Quit => {
                    said(&mut out, "tray action applied: Quit");
                    done(&mut out, TrayEffect::HardQuit);
                },
            },
        }
        assert(tray_effects(out@) =~= applied(self@, action));
        out
    }

    /// What an event means.
    pub fn action(&self, event: &TrayRawEvent) -> (r: Option<TrayAction>)
        ensures
            r == tray_action(self@, event@),
    {
        match event {
            TrayRawEvent::Icon(e) => if map_icon_event(e) {
                Some(TrayAction::Show)
            } else {
                None
            },
            TrayRawEvent::Menu(id) => match &self.forward {
                Some(f) => map_menu_id(f.show_id.as_str(), f.quit_id.as_str(), id.as_str()),
                None => None,
            },
        }
    }

    /// What several events mean, in order.
    pub fn drain_actions_global(&self, events: &Vec<TrayRawEvent>) -> (r: Vec<TrayAction>)
        ensures
            r@ == tray_actions(self@, raw_events(events@), events@.len()),
    {
        let ghost all = raw_events(events@);
        let mut out: Vec<TrayAction> = Vec::new();
        let mut i: usize = 0;
        while i < events.len()
            invariant
                i <= events.len(),
                all == raw_events(events@),
                out@ == tray_actions(self@, all, i as nat),
            decreases events.len() - i,
        {
            assert(all[i as int] == events@[i as int]@);
            match self.action(&events[i]) {
                Some(a) => {
                    out.push(a);
                },
                None => {},
            }
            i += 1;
        }
        out
    }
}

/// The lines for the log when an event is passed on.
pub fn forward_raw(event: &TrayRawEvent, delivered: bool) -> (r: Vec<String>)
    ensures
        messages::lines_view(r@) == forward_lines(event@, delivered),
{
    let noisy = match event {
        TrayRawEvent::Icon(IconEvent::Move) => true,
        TrayRawEvent::Icon(IconEvent::Enter) => true,
        _ => false,
    };
    let mut out: Vec<String> = Vec::new();
    if !noisy {
        let mut line = text::chars_of("tray event forwarded: ");
        text::push_text(&mut line, event.kind());
        out.push(text::string_of(line.as_slice()));
    }
    if !noisy || !delivered {
        out.push(
            owned(
                if delivered {
                    "tray forward delivered: true"
                } else {
                    "tray forward delivered: false"
                },
            ),
        );
    }
    assert(messages::lines_view(out@) =~= forward_lines(event@, delivered));
    out
}

/// The text beside the icon: on a Mac an icon stands alone.
pub fn tray_title_text(os: &str) -> (r: Option<&'static str>)
    ensures
        match r {
            Some(t) => os@ != "macos"@ && t@ == "DataBeam"@,
            None => os@ == "macos"@,
        },
{
    if text::same_str(os, "macos") {
        None
    } else {
        Some("DataBeam")
    }
}

/// The window to restore: the one that was known at the start, or else the one
/// that the icon knows.
pub fn pick_restore_hwnd(startup: Option<isize>, cached: Option<isize>) -> (r: Option<isize>)
    ensures
        r == (match startup {
            Some(h) => Some(h),
            None => cached,
        }),
{
    match startup {
        Some(h) => Some(h),
        None => cached,
    }
}

// ── The switch ──

/// What a turn of the switch asks for.
#[derive(Clone, Copy, Debug, PartialEq, Eq, Structural)]
pub enum Toggle {
    /// The switch stands as before.
    Nothing,
    /// An icon is made.
    Create,
    /// The icon is taken away.
    Remove,
    /// The icon stays as it is; the choice is kept.
    Keep,
}

/// Turns the switch for living in the tray. The choice is kept whenever it changes.
pub fn set_minimize_to_tray(minimize: &mut bool, enabled: bool, icon_there: bool) -> (r: Toggle)
    ensures
        *final(minimize) == enabled,
        r == (if *old(minimize) == enabled {
            Toggle::Nothing
        } else if !enabled {
            Toggle::Remove
        } else if icon_there {
            Toggle::Keep
        } else {
            Toggle::Create
        }),
{
    if *minimize == enabled {
        return Toggle::Nothing;
    }
    *minimize = enabled;
    if !enabled {
        Toggle::Remove
    } else if icon_there {
        Toggle::Keep
    } else {
        Toggle::Create
    }
}

} // verus!
