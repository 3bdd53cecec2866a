//! The desk: what is laid out for sending, and what the user does with it.
//!
//! Items are known by the number of their path: equal paths have one number.

use crate::binary64;
use crate::binary64::Magnitude;
use crate::display;
use crate::engine::{
    ask, effects, is_blank, trimmed, Eazy, EazyCacheEntry, Effect, Serve, Session, Texts,
    TransferState,
};
use crate::messages;
use crate::metrics;
use crate::metrics::Metrics;
use crate::numerals;
use crate::sendme;
use crate::session;
use crate::session::{
    EazyModel, EffectModel, ServeModel, SessionModel, Severity, StateModel, TextsModel,
};
use crate::state::{AppView, SelectedTool};
use crate::text;
use crate::transfer::owned;
use crate::workspace;
use crate::workspace::{Preferences, PreferencesModel, Workspace, WorkspaceModel};
use vstd::prelude::*;

verus! {

// ── Items ──

/// A file or a folder to send.
#[derive(Clone, Copy, Debug)]
pub struct SendItem {
    /// The number of its path.
    pub path: u64,
    pub size: Option<u64>,
    pub is_dir: bool,
}

impl SendItem {
    /// A file has the size that the system gives, or none at all; the size of
    /// anything else is not known at once.
    pub fn new(path: u64, is_dir: bool, is_file: bool, len: Option<u64>) -> (r: SendItem)
        ensures
            r == (SendItem {
                path,
                is_dir,
                size: if is_file {
                    Some(metrics::or_zero(len))
                } else {
                    None
                },
            }),
    {
        let size = if is_file {
            match len {
                Some(n) => Some(n),
                None => Some(0),
            }
        } else {
            None
        };
        SendItem { path, size, is_dir }
    }
}

pub open spec fn has_path(items: Seq<SendItem>, path: u64) -> bool {
    exists|i: int| 0 <= i < items.len() && #[trigger] items[i].path == path
}

/// No path is laid out twice.
pub open spec fn are_distinct(items: Seq<SendItem>) -> bool {
    forall|i: int, j: int|
        0 <= i < j < items.len() ==> #[trigger] items[i].path != #[trigger] items[j].path
}

/// The bytes of all items whose size is known.
pub open spec fn known_bytes(items: Seq<SendItem>) -> nat
    decreases items.len(),
{
    if items.len() == 0 {
        0
    } else {
        known_bytes(items.drop_last()) + (match items.last().size {
            Some(n) => n as nat,
            None => 0,
        })
    }
}

pub open spec fn all_known(items: Seq<SendItem>) -> bool {
    forall|i: int| 0 <= i < items.len() ==> (#[trigger] items[i]).size is Some
}

/// The bytes of everything, where all of them are known.
pub open spec fn known_total(items: Seq<SendItem>) -> Option<u64> {
    if items.len() == 0 || !all_known(items) {
        None
    } else {
        Some(known_bytes(items) as u64)
    }
}

/// The first item with a path gets a size.
pub open spec fn with_size(items: Seq<SendItem>, path: u64, size: u64) -> Seq<SendItem>
    decreases items.len(),
{
    if items.len() == 0 {
        items
    } else if items[0].path == path {
        seq![SendItem { size: Some(size), ..items[0] }] + items.skip(1)
    } else {
        seq![items[0]] + with_size(items.skip(1), path, size)
    }
}

// ── The desk ──

pub struct PickerModel {
    /// A dialogue is open.
    pub in_flight: bool,
    /// Until when the next one waits.
    pub block_until: nat,
}

pub struct DeskModel {
    pub w: WorkspaceModel,
    pub items: Seq<SendItem>,
    pub picker: PickerModel,
}

pub type Moved = (DeskModel, Seq<EffectModel>);

pub open spec fn idle_picker() -> PickerModel {
    PickerModel { in_flight: false, block_until: 0 }
}

/// The transfer is put away, and an open dialogue with it.
pub open spec fn put_away(d: DeskModel, fx: Seq<EffectModel>) -> Moved {
    (
        DeskModel { w: workspace::reset_in(d.w), picker: idle_picker(), ..d },
        workspace::after_reset(fx),
    )
}

pub open spec fn with_session(d: DeskModel, s: SessionModel) -> DeskModel {
    DeskModel { w: WorkspaceModel { session: s, ..d.w }, ..d }
}

pub open spec fn with_preferences(d: DeskModel, p: PreferencesModel) -> DeskModel {
    DeskModel { w: WorkspaceModel { preferences: p, ..d.w }, ..d }
}

/// croc sends a text in place of files.
pub open spec fn sends_text(d: DeskModel) -> bool {
    d.w.session.tool == SelectedTool::Croc && d.w.preferences.text_mode
}

/// An item is laid out, unless it is there or a text is sent. A transfer that is
/// over makes room for it.
pub open spec fn item_added(d: DeskModel, fx: Seq<EffectModel>, item: SendItem) -> Moved {
    if sends_text(d) {
        (
            d,
            fx.push(
                EffectModel::Toast {
                    message: "Disable Croc text mode to add files/folders"@,
                    severity: Severity::Warning,
                },
            ),
        )
    } else if has_path(d.items, item.path) {
        (d, fx)
    } else {
        let (a, told) = match d.w.session.state {
            StateModel::Idle => (d, fx),
            StateModel::Running => (d, fx),
            _ => put_away(d, fx),
        };
        (DeskModel { items: a.items.push(item), ..a }, told)
    }
}

/// A folder that is laid out is measured in the background.
pub open spec fn is_measured(d: DeskModel, item: SendItem) -> bool {
    !sends_text(d) && !has_path(d.items, item.path) && item.is_dir && item.size is None
}

/// The first `n` of several items are laid out.
pub open spec fn items_added(d: DeskModel, fx: Seq<EffectModel>, new: Seq<SendItem>, n: nat) -> Moved
    decreases n,
{
    if n == 0 || n > new.len() {
        (d, fx)
    } else {
        let (a, told) = items_added(d, fx, new, (n - 1) as nat);
        item_added(a, told, new[n - 1])
    }
}

/// The paths of the folders among them that are measured.
pub open spec fn measured(d: DeskModel, fx: Seq<EffectModel>, new: Seq<SendItem>, n: nat) -> Seq<u64>
    decreases n,
{
    if n == 0 || n > new.len() {
        Seq::empty()
    } else {
        let before = measured(d, fx, new, (n - 1) as nat);
        if is_measured(items_added(d, fx, new, (n - 1) as nat).0, new[n - 1]) {
            before.push(new[n - 1].path)
        } else {
            before
        }
    }
}

/// How many items there are, as a text: `1 item`, `2 items`.
pub open spec fn count_text(n: nat) -> Seq<char> {
    numerals::decimal(n) + (if n == 1 {
        " item"@
    } else {
        " items"@
    })
}

/// Items are dropped on the window: they are laid out for sending. Nothing is
/// taken while a transfer runs.
pub open spec fn items_dropped(d: DeskModel, fx: Seq<EffectModel>, new: Seq<SendItem>) -> Moved {
    if d.w.session.state is Running || new.len() == 0 {
        (d, fx)
    } else {
        let a = with_session(d, SessionModel { view: AppView::Send, ..d.w.session });
        let (b, told) = items_added(a, fx, new, new.len());
        (
            b,
            told.push(
                EffectModel::Toast {
                    message: count_text(b.items.len()) + " ready"@,
                    severity: Severity::Success,
                },
            ),
        )
    }
}

/// Everything is taken away; a transfer that has begun is put away with it.
pub open spec fn cleared(d: DeskModel, fx: Seq<EffectModel>) -> Moved {
    let (a, told) = if d.w.session.state is Idle {
        (d, fx)
    } else {
        put_away(d, fx)
    };
    (DeskModel { items: Seq::empty(), ..a }, told)
}

pub open spec fn item_removed(d: DeskModel, fx: Seq<EffectModel>, i: nat) -> Moved {
    let (a, told) = if d.w.session.state is Idle {
        (d, fx)
    } else {
        put_away(d, fx)
    };
    (DeskModel { items: a.items.remove(i as int), ..a }, told)
}

/// Another tool is chosen: everything begins anew.
pub open spec fn tool_switched(d: DeskModel, fx: Seq<EffectModel>, tool: SelectedTool) -> Moved {
    if d.w.session.tool == tool {
        (d, fx)
    } else {
        let a = DeskModel {
            items: Seq::empty(),
            ..with_session(
                d,
                SessionModel { tool, receive_code: Seq::empty(), ..d.w.session },
            )
        };
        put_away(a, fx.push(EffectModel::Persist))
    }
}

/// Another page is chosen: everything begins anew. A running transfer keeps its
/// page.
pub open spec fn view_switched(d: DeskModel, fx: Seq<EffectModel>, view: AppView) -> Moved {
    if d.w.session.view == view || d.w.session.state is Running {
        (d, fx)
    } else {
        put_away(
            DeskModel {
                items: Seq::empty(),
                ..with_session(
                    d,
                    SessionModel { view, receive_code: Seq::empty(), ..d.w.session },
                )
            },
            fx,
        )
    }
}

/// sendme is to serve whoever comes.
pub open spec fn broadcast_chosen(d: DeskModel, fx: Seq<EffectModel>, available: bool) -> Moved {
    if !available {
        (d, fx)
    } else {
        let (a, told) = tool_switched(d, fx, SelectedTool::Sendme);
        (
            with_session(
                a,
                SessionModel {
                    serve: ServeModel { one_shot: false, ..a.w.session.serve },
                    view: AppView::Send,
                    ..a.w.session
                },
            ),
            told,
        )
    }
}

/// croc is to send a text.
pub open spec fn text_chosen(d: DeskModel, fx: Seq<EffectModel>, available: bool) -> Moved {
    if !available {
        (d, fx)
    } else {
        let (a, told) = tool_switched(d, fx, SelectedTool::Croc);
        let b = with_preferences(a, PreferencesModel { text_mode: true, ..a.w.preferences });
        (with_session(b, SessionModel { view: AppView::Send, ..b.w.session }), told)
    }
}

/// Text mode is chosen on the page: not while files are laid out.
pub open spec fn text_mode_chosen(d: DeskModel, fx: Seq<EffectModel>) -> Moved {
    if d.items.len() == 0 {
        (with_preferences(d, PreferencesModel { text_mode: true, ..d.w.preferences }), fx)
    } else {
        (
            d,
            fx.push(
                EffectModel::Toast {
                    message: "Clear files/folders first to switch to text mode"@,
                    severity: Severity::Warning,
                },
            ),
        )
    }
}

/// A start that goes so far as to put the last transfer away.
pub open spec fn send_begins(d: DeskModel) -> bool {
    !workspace::is_blocked(d.w) && (if sends_text(d) {
        d.items.len() == 0
    } else {
        d.items.len() > 0
    })
}

pub open spec fn receive_begins(d: DeskModel) -> bool {
    !workspace::is_blocked(d.w) && text::trim(d.w.session.receive_code).len() > 0
}

pub open spec fn desk_send_started(d: DeskModel, fx: Seq<EffectModel>, auto: bool, croc_there: bool) -> Moved {
    let (w, told) = workspace::send_started(
        d.w,
        fx,
        auto,
        d.items.len(),
        known_total(d.items),
        croc_there,
    );
    (
        DeskModel {
            w,
            picker: if send_begins(d) {
                idle_picker()
            } else {
                d.picker
            },
            ..d
        },
        told,
    )
}

pub open spec fn desk_receive_started(
    d: DeskModel,
    fx: Seq<EffectModel>,
    auto: bool,
    croc_there: bool,
    disk_size: u64,
) -> Moved {
    let (w, told) = workspace::receive_started(d.w, fx, auto, croc_there, disk_size);
    (
        DeskModel {
            w,
            picker: if receive_begins(d) {
                idle_picker()
            } else {
                d.picker
            },
            ..d
        },
        told,
    )
}

pub open spec fn desk_send_retried(d: DeskModel, fx: Seq<EffectModel>, auto: bool, croc_there: bool) -> Moved {
    let (w, told) = workspace::send_retried(
        d.w,
        fx,
        auto,
        d.items.len(),
        known_total(d.items),
        croc_there,
    );
    (DeskModel { w, picker: idle_picker(), ..d }, told)
}

pub open spec fn desk_receive_retried(
    d: DeskModel,
    fx: Seq<EffectModel>,
    auto: bool,
    croc_there: bool,
    disk_size: u64,
    unix_secs: u64,
) -> Moved {
    let (w, told) = workspace::receive_retried(d.w, fx, auto, croc_there, disk_size, unix_secs);
    (DeskModel { w, picker: idle_picker(), ..d }, told)
}

// ── What a frame brings ──

/// What a frame needs from outside.
#[derive(Clone, Copy)]
pub struct Outside {
    pub croc_there: bool,
    /// The bytes that are on the disk for the ticket of the entered code.
    pub disk_size: u64,
    pub unix_secs: u64,
}

/// The look for local data has been going on for ten seconds.
pub open spec fn local_check_is_over(s: SessionModel) -> bool {
    &&& s.tool == SelectedTool::EazySendme
    &&& s.view == AppView::Receive
    &&& s.state is Running
    &&& s.eazy.local_check matches Some(t) && s.now >= t && metrics::seconds_since(s.now, t)
        >= binary64::whole(10)
}

/// A look for local data that takes too long is given up, and receiving tried again.
pub open spec fn local_check_watched(d: DeskModel, fx: Seq<EffectModel>, o: Outside) -> Moved {
    if local_check_is_over(d.w.session) {
        let s = session::with_log(
            SessionModel {
                eazy: EazyModel { local_check: None, ..d.w.session.eazy },
                ..d.w.session
            },
            "[Local] Verification timed out after 10s. Retrying..."@,
        );
        desk_receive_retried(
            with_session(d, s),
            fx,
            false,
            o.croc_there,
            o.disk_size,
            o.unix_secs,
        )
    } else {
        (d, fx)
    }
}

/// A retry is due.
pub open spec fn retry_is_due(s: SessionModel) -> bool {
    s.state is Failed && (s.eazy.next_retry matches Some(t) && s.now >= t)
}

/// A transfer that has failed is tried again when it is time to.
pub open spec fn retry_watched(d: DeskModel, fx: Seq<EffectModel>, o: Outside) -> Moved {
    if retry_is_due(d.w.session) {
        let a = with_session(
            d,
            SessionModel {
                eazy: EazyModel { next_retry: None, ..d.w.session.eazy },
                ..d.w.session
            },
        );
        if d.w.session.view == AppView::Send {
            desk_send_retried(a, fx, true, o.croc_there)
        } else {
            desk_receive_retried(a, fx, true, o.croc_there, o.disk_size, o.unix_secs)
        }
    } else {
        (d, fx)
    }
}

pub open spec fn frame_passed(d: DeskModel, fx: Seq<EffectModel>, o: Outside) -> Moved {
    let (a, told) = local_check_watched(d, fx, o);
    retry_watched(a, told, o)
}

// ── Codes ──

#[derive(Clone, Copy, Debug, PartialEq, Eq, Structural)]
pub enum CodeList {
    Croc,
    Eazy,
    Receive,
}

pub open spec fn codes(d: DeskModel, list: CodeList) -> Seq<Seq<char>> {
    match list {
        CodeList::Croc => d.w.preferences.croc_recent,
        CodeList::Eazy => d.w.preferences.eazy_recent,
        CodeList::Receive => d.w.preferences.receive_recent,
    }
}

/// A code is put where codes of its kind are entered.
pub open spec fn code_entered(d: DeskModel, list: CodeList, code: Seq<char>) -> DeskModel {
    match list {
        CodeList::Croc => with_preferences(
            d,
            PreferencesModel { croc_code: code, ..d.w.preferences },
        ),
        CodeList::Eazy => with_session(d, SessionModel { custom_code: code, ..d.w.session }),
        CodeList::Receive => with_session(d, SessionModel { receive_code: code, ..d.w.session }),
    }
}

/// The code that was used `i` codes ago is entered, where there is one.
pub open spec fn code_picked(d: DeskModel, list: CodeList, i: nat) -> DeskModel {
    if i < codes(d, list).len() {
        code_entered(d, list, codes(d, list)[i as int])
    } else {
        d
    }
}

pub open spec fn codes_forgotten(d: DeskModel, fx: Seq<EffectModel>, list: CodeList) -> Moved {
    let p = d.w.preferences;
    (
        with_preferences(
            d,
            match list {
                CodeList::Croc => PreferencesModel { croc_recent: Seq::empty(), ..p },
                CodeList::Eazy => PreferencesModel { eazy_recent: Seq::empty(), ..p },
                CodeList::Receive => PreferencesModel { receive_recent: Seq::empty(), ..p },
            },
        ),
        fx.push(EffectModel::Persist),
    )
}

/// A code of one's own is chosen, or not. The latest is entered where none is.
pub open spec fn custom_code_chosen(d: DeskModel, custom: bool) -> DeskModel {
    let a = with_preferences(
        d,
        PreferencesModel { use_custom_code: custom, ..d.w.preferences },
    );
    if custom && !d.w.preferences.use_custom_code && text::trim(d.w.preferences.croc_code).len()
        == 0 {
        code_picked(a, CodeList::Croc, 0)
    } else {
        a
    }
}

/// A code that has been begun and is too short.
pub open spec fn is_short_code(code: Seq<char>) -> bool {
    0 < text::trim(code).len() <= 6
}

// ── Texts ──

/// The line over the items. What is not measured yet is said to be so.
pub open spec fn items_line(items: Seq<SendItem>) -> Seq<char> {
    let total = known_bytes(items) as u64;
    count_text(items.len()) + " \u{2014} "@ + (if all_known(items) {
        display::file_size(total)
    } else if total > 0 {
        display::file_size(total) + " (estimating\u{2026})"@
    } else {
        "estimating\u{2026}"@
    })
}

pub open spec fn size_label(item: SendItem) -> Seq<char> {
    match item.size {
        Some(n) => display::file_size(n),
        None => if item.is_dir {
            "\u{2026}"@
        } else {
            "0 B"@
        },
    }
}

pub open spec fn several(n: nat) -> Seq<char> {
    if n > 1 {
        " "@ + numerals::decimal(n) + " items"@
    } else {
        Seq::empty()
    }
}

pub open spec fn send_label(d: DeskModel) -> Seq<char> {
    match d.w.session.tool {
        SelectedTool::Croc => if sends_text(d) {
            "\u{1F40A} Send Text"@
        } else {
            "\u{1F40A} Send"@ + several(d.items.len())
        },
        SelectedTool::Sendme => "\u{1F4E1} Send"@ + several(d.items.len()),
        SelectedTool::EazySendme => "\u{26A1} EazySend"@ + several(d.items.len()),
    }
}

/// Sending can be started: the combined mode needs a code of seven characters.
pub open spec fn can_send(s: SessionModel) -> bool {
    s.tool != SelectedTool::EazySendme || text::trim(s.custom_code).len() >= 7
}

/// A dialogue can be opened.
pub open spec fn picker_is_ready(p: PickerModel, now: nat) -> bool {
    !p.in_flight && now >= p.block_until
}

/// A dialogue is opened, unless one is.
pub open spec fn picker_launched(p: PickerModel, now: nat) -> PickerModel {
    if p.in_flight {
        p
    } else {
        PickerModel {
            in_flight: true,
            block_until: binary64::sum(now, binary64::nearest(15 * binary64::one(), 100)),
        }
    }
}

/// A dialogue was closed.
pub open spec fn picker_closed(now: nat) -> PickerModel {
    PickerModel {
        in_flight: false,
        block_until: binary64::sum(now, binary64::nearest(20 * binary64::one(), 100)),
    }
}

/// The ticket whose data may be on the disk: the one that is in use where its code
/// is the one that is entered, else the one that was kept.
pub open spec fn ticket_in_question(s: SessionModel) -> Option<Seq<char>> {
    let key = text::trim(s.receive_code);
    if key.len() == 0 {
        None
    } else if s.eazy.ticket is Some && (s.code matches Some(c) && text::trim(c) == key) {
        s.eazy.ticket
    } else {
        session::ticket_for(s.cache, key)
    }
}

/// What is said of local data for the entered code, and whether there is some.
pub open spec fn cache_hint(s: SessionModel, disk_size: u64) -> (bool, Seq<char>) {
    if text::trim(s.receive_code).len() == 0 {
        (false, "No code entered"@)
    } else if ticket_in_question(s) is None {
        (false, "No local cache for this code"@)
    } else if disk_size > 0 {
        (true, "Local blob cache found - retry will verify and export if complete"@)
    } else {
        (false, "Cached ticket found - no local blob data yet"@)
    }
}

// ── Laws ──

/// Laying an item out keeps all paths different.
pub proof fn law_items_stay_distinct(d: DeskModel, fx: Seq<EffectModel>, item: SendItem)
    requires
        are_distinct(d.items),
    ensures
        are_distinct(item_added(d, fx, item).0.items),
{
    let b = item_added(d, fx, item).0.items;
    assert forall|i: int, j: int| 0 <= i < j < b.len() implies #[trigger] b[i].path
        != #[trigger] b[j].path by {
        if j < d.items.len() {
            assert(d.items[i].path != d.items[j].path);
        } else {
            assert(b[i] == d.items[i]);
        }
    }
}

/// Dropping items keeps all paths different, whatever is dropped.
pub proof fn law_dropped_items_are_distinct(d: DeskModel, fx: Seq<EffectModel>, new: Seq<SendItem>)
    requires
        are_distinct(d.items),
    ensures
        are_distinct(items_dropped(d, fx, new).0.items),
{
    let a = with_session(d, SessionModel { view: AppView::Send, ..d.w.session });
    lemma_added_distinct(a, fx, new, new.len());
}

proof fn lemma_added_distinct(d: DeskModel, fx: Seq<EffectModel>, new: Seq<SendItem>, n: nat)
    requires
        are_distinct(d.items),
    ensures
        are_distinct(items_added(d, fx, new, n).0.items),
    decreases n,
{
    if n > 0 && n <= new.len() {
        lemma_added_distinct(d, fx, new, (n - 1) as nat);
        let (a, told) = items_added(d, fx, new, (n - 1) as nat);
        law_items_stay_distinct(a, told, new[n - 1]);
    }
}

/// Taking an item away keeps all paths different.
pub proof fn law_removal_keeps_items_distinct(d: DeskModel, fx: Seq<EffectModel>, i: nat)
    requires
        are_distinct(d.items),
        i < d.items.len(),
    ensures
        are_distinct(item_removed(d, fx, i).0.items),
        item_removed(d, fx, i).0.items.len() == d.items.len() - 1,
{
    let b = item_removed(d, fx, i).0.items;
    assert forall|j: int, k: int| 0 <= j < k < b.len() implies #[trigger] b[j].path
        != #[trigger] b[k].path by {
        let x = if j < i {
            j
        } else {
            j + 1
        };
        let y = if k < i {
            k
        } else {
            k + 1
        };
        assert(b[j] == d.items[x]);
        assert(b[k] == d.items[y]);
        assert(d.items[x].path != d.items[y].path);
    }
}

/// A size that comes in changes no path, and no number of items.
pub proof fn law_sizes_keep_paths(items: Seq<SendItem>, path: u64, size: u64)
    ensures
        with_size(items, path, size).len() == items.len(),
        forall|i: int|
            0 <= i < items.len() ==> #[trigger] with_size(items, path, size)[i].path
                == items[i].path,
        !has_path(items, path) ==> with_size(items, path, size) == items,
    decreases items.len(),
{
    if items.len() > 0 {
        if items[0].path != path {
            let rest = items.skip(1);
            law_sizes_keep_paths(rest, path, size);
            assert forall|i: int| 0 <= i < items.len() implies #[trigger] with_size(
                items,
                path,
                size,
            )[i].path == items[i].path by {
                if i > 0 {
                    assert(with_size(rest, path, size)[i - 1].path == rest[i - 1].path);
                }
            }
            if !has_path(items, path) {
                assert(!has_path(rest, path)) by {
                    if has_path(rest, path) {
                        let k = choose|k: int| 0 <= k < rest.len() && #[trigger] rest[k].path
                            == path;
                        assert(items[k + 1].path == path);
                    }
                }
                assert(with_size(items, path, size) =~= items);
            }
        } else {
            assert(has_path(items, path));
        }
    }
}

/// A running transfer keeps its page and its items: nothing can be dropped on it,
/// and no other page be chosen.
pub proof fn law_running_transfer_is_left_alone(
    d: DeskModel,
    fx: Seq<EffectModel>,
    new: Seq<SendItem>,
    view: AppView,
)
    requires
        d.w.session.state is Running,
    ensures
        items_dropped(d, fx, new) == (d, fx),
        view_switched(d, fx, view) == (d, fx),
{
}

/// Choosing another tool leaves nothing of what was laid out or entered.
pub proof fn law_tools_begin_anew(d: DeskModel, fx: Seq<EffectModel>, tool: SelectedTool)
    requires
        d.w.session.tool != tool,
    ensures
        tool_switched(d, fx, tool).0.w.session.tool == tool,
        tool_switched(d, fx, tool).0.items.len() == 0,
        tool_switched(d, fx, tool).0.w.session.receive_code.len() == 0,
        tool_switched(d, fx, tool).0.w.session.state is Idle,
{
}

/// A retry is taken once: afterwards none is due.
pub proof fn law_retries_are_taken_once(d: DeskModel, fx: Seq<EffectModel>, o: Outside)
    requires
        retry_is_due(d.w.session),
        !workspace::is_blocked(d.w),
    ensures
        !retry_is_due(retry_watched(d, fx, o).0.w.session),
{
}

/// The frame comes at which `now` is the time.
pub open spec fn at_time(d: DeskModel, now: nat) -> DeskModel {
    with_session(d, SessionModel { now, ..d.w.session })
}

/// A retry of the combined mode that falls due while croc is being updated is not
/// lost: the failure stays, nothing is started, and the retry falls due again five
/// seconds later.
pub proof fn law_blocked_retries_come_due_again(
    d: DeskModel,
    fx: Seq<EffectModel>,
    o: Outside,
    now: nat,
)
    requires
        retry_is_due(d.w.session),
        d.w.session.tool == SelectedTool::EazySendme,
        d.w.preferences.updating,
    ensures
        ({
            let after = retry_watched(d, fx, o).0;
            let next = binary64::sum(d.w.session.now, binary64::whole(5));
            &&& after.w.session.state == d.w.session.state
            &&& after.w.session.eazy.next_retry == Some(next)
            &&& after.w.session.eazy.retries == d.w.session.eazy.retries
            &&& after.items == d.items
            &&& retry_is_due(at_time(after, now).w.session) <==> now >= next
        }),
{
}

// ── The state ──

pub struct Picker {
    pub in_flight: bool,
    pub block_until: Magnitude,
}

impl View for Picker {
    type V = PickerModel;

    open spec fn view(&self) -> PickerModel {
        PickerModel { in_flight: self.in_flight, block_until: self.block_until@ }
    }
}

pub struct Desk {
    pub workspace: Workspace,
    pub items: Vec<SendItem>,
    pub picker: Picker,
}

impl View for Desk {
    type V = DeskModel;

    open spec fn view(&self) -> DeskModel {
        DeskModel { w: self.workspace@, items: self.items@, picker: self.picker@ }
    }
}

/// A session before anything was done.
pub open spec fn first_session() -> SessionModel {
    SessionModel {
        tool: SelectedTool::Sendme,
        view: AppView::Home,
        now: 0,
        state: StateModel::Idle,
        code: None,
        log: Seq::empty(),
        start_time: None,
        end_time: None,
        route: None,
        qr_popup_open: false,
        receive_code: Seq::empty(),
        custom_code: Seq::empty(),
        cache: Seq::empty(),
        metrics: metrics::no_metrics(),
        texts: TextsModel { received: None, expected: false, popup_open: false },
        serve: ServeModel {
            one_shot: true,
            peer_connected: false,
            waiting_after_cycle: false,
            last_activity: None,
            active_transfers: 0,
        },
        eazy: EazyModel {
            auto_retry: true,
            retries: 0,
            next_retry: None,
            local_check: None,
            ticket: None,
        },
    }
}

pub open spec fn first_preferences() -> PreferencesModel {
    PreferencesModel {
        use_custom_code: false,
        croc_code: Seq::empty(),
        text_mode: false,
        text_value: Seq::empty(),
        croc_recent: Seq::empty(),
        eazy_recent: Seq::empty(),
        receive_recent: Seq::empty(),
        updating: false,
    }
}

fn no_text() -> (r: String)
    ensures
        r@ == Seq::<char>::empty(),
{
    let none: Vec<char> = Vec::new();
    let r = text::string_of(none.as_slice());
    assert(r@ =~= Seq::empty());
    r
}

fn toast(fx: &mut Vec<Effect>, message: String, severity: Severity)
    ensures
        effects(final(fx)@) == effects(old(fx)@).push(
            EffectModel::Toast { message: message@, severity },
        ),
{
    ask(fx, Effect::Toast { message, severity });
}

fn push_count(out: &mut Vec<char>, n: usize)
    ensures
        final(out)@ == old(out)@ + count_text(n as nat),
{
    let ghost before = out@;
    numerals::push_decimal(out, n as u64);
    if n == 1 {
        text::push_text(out, " item");
    } else {
        text::push_text(out, " items");
    }
    assert(out@ =~= before + count_text(n as nat));
}

/// A code that has been begun and is too short.
pub fn is_code_too_short(code: &str) -> (r: bool)
    ensures
        r == is_short_code(code@),
{
    let chars = text::chars_of(code);
    let n = text::trim_chars(chars.as_slice()).len();
    0 < n && n <= 6
}

/// The size of an item as a text.
pub fn item_size_label(item: &SendItem) -> (r: String)
    ensures
        r@ == size_label(*item),
{
    match item.size {
        Some(n) => display::format_file_size(n),
        None => if item.is_dir {
            owned("\u{2026}")
        } else {
            owned("0 B")
        },
    }
}

impl Desk {
    /// A desk on which nothing lies.
    pub fn new() -> (r: Desk)
        ensures
            r@ == (DeskModel {
                w: WorkspaceModel { session: first_session(), preferences: first_preferences() },
                items: Seq::empty(),
                picker: idle_picker(),
            }),
    {
        let log: Vec<String> = Vec::new();
        let cache: Vec<EazyCacheEntry> = Vec::new();
        let session = Session {
            tool: SelectedTool::Sendme,
            view: AppView::Home,
            now: Magnitude::zero(),
            state: TransferState::Idle,
            code: None,
            log,
            start_time: None,
            end_time: None,
            route: None,
            qr_popup_open: false,
            receive_code: no_text(),
            custom_code: no_text(),
            cache,
            metrics: Metrics::new(),
            texts: Texts { received: None, expected: false, popup_open: false },
            serve: Serve {
                one_shot: true,
                peer_connected: false,
                waiting_after_cycle: false,
                last_activity: None,
                active_transfers: 0,
            },
            eazy: Eazy {
                auto_retry: true,
                retries: 0,
                next_retry: None,
                local_check: None,
                ticket: None,
            },
        };
        proof {
            assert(session@.log =~= Seq::empty());
            assert(session@.cache =~= Seq::empty());
            assert(session@ == first_session());
        }
        let preferences = Preferences {
            use_custom_code: false,
            croc_code: no_text(),
            text_mode: false,
            text_value: no_text(),
            croc_recent: Vec::new(),
            eazy_recent: Vec::new(),
            receive_recent: Vec::new(),
            updating: false,
        };
        proof {
            assert(preferences@.croc_recent =~= Seq::empty());
            assert(preferences@.eazy_recent =~= Seq::empty());
            assert(preferences@.receive_recent =~= Seq::empty());
        }
        Desk {
            workspace: Workspace { session, preferences },
            items: Vec::new(),
            picker: Picker { in_flight: false, block_until: Magnitude::zero() },
        }
    }

    fn is_idle(&self) -> (r: bool)
        ensures
            r == (self@.w.session.state is Idle),
    {
        match self.workspace.session.state {
            TransferState::Idle => true,
            _ => false,
        }
    }

    fn texting(&self) -> (r: bool)
        ensures
            r == sends_text(self@),
    {
        self.workspace.session.tool == SelectedTool::Croc && self.workspace.preferences.text_mode
    }

    fn close_picker(&mut self)
        ensures
            final(self)@ == (DeskModel { picker: idle_picker(), ..old(self)@ }),
    {
        self.picker.in_flight = false;
        self.picker.block_until = Magnitude::zero();
    }

    /// Puts the transfer away.
    pub fn reset(&mut self, fx: &mut Vec<Effect>)
        ensures
            (final(self)@, effects(final(fx)@)) == put_away(old(self)@, effects(old(fx)@)),
    {
        self.workspace.session.reset_transfer(fx);
        self.close_picker();
    }

    fn has(&self, path: u64) -> (r: bool)
        ensures
            r == has_path(self@.items, path),
    {
        let mut i: usize = 0;
        while i < self.items.len()
            invariant
                i <= self.items.len(),
                forall|j: int| 0 <= j < i ==> #[trigger] self.items@[j].path != path,
            decreases self.items.len() - i,
        {
            if self.items[i].path == path {
                assert(self@.items[i as int].path == path);
                return true;
            }
            i += 1;
        }
        false
    }

    /// Lays an item out. Says whether it is a folder to be measured.
    pub fn add_path(&mut self, fx: &mut Vec<Effect>, item: SendItem) -> (r: bool)
        ensures
            (final(self)@, effects(final(fx)@)) == item_added(old(self)@, effects(old(fx)@), item),
            r == is_measured(old(self)@, item),
    {
        if self.texting() {
            toast(
                fx,
                owned("Disable Croc text mode to add files/folders"),
                Severity::Warning,
            );
            return false;
        }
        if self.has(item.path) {
            return false;
        }
        match self.workspace.session.state {
            TransferState::Idle => {},
            TransferState::Running => {},
            _ => {
                self.reset(fx);
            },
        }
        self.items.push(item);
        item.is_dir && item.size.is_none()
    }

    /// Takes in items that were dropped on the window. Gives the folders among
    /// them that are to be measured.
    pub fn drop_items(&mut self, fx: &mut Vec<Effect>, new: &Vec<SendItem>) -> (r: Vec<u64>)
        ensures
            (final(self)@, effects(final(fx)@)) == items_dropped(
                old(self)@,
                effects(old(fx)@),
                new@,
            ),
            r@ == (if old(self)@.w.session.state is Running {
                Seq::empty()
            } else {
                measured(
                    with_session(
                        old(self)@,
                        SessionModel { view: AppView::Send, ..old(self)@.w.session },
                    ),
                    effects(old(fx)@),
                    new@,
                    new@.len(),
                )
            }),
    {
        let mut dirs: Vec<u64> = Vec::new();
        if self.workspace.session.is_running() || new.len() == 0 {
            return dirs;
        }
        self.workspace.session.view = AppView::Send;
        let ghost a = self@;
        let ghost before = effects(fx@);
        let mut i: usize = 0;
        while i < new.len()
            invariant
                i <= new.len(),
                (self@, effects(fx@)) == items_added(a, before, new@, i as nat),
                dirs@ == measured(a, before, new@, i as nat),
            decreases new.len() - i,
        {
            let measure = self.add_path(fx, new[i]);
            if measure {
                dirs.push(new[i].path);
            }
            i += 1;
        }
        let mut out: Vec<char> = Vec::new();
        push_count(&mut out, self.items.len());
        text::push_text(&mut out, " ready");
        assert(out@ =~= count_text(self@.items.len()) + " ready"@);
        toast(fx, text::string_of(out.as_slice()), Severity::Success);
        dirs
    }

    /// Takes in the size of a folder.
    pub fn set_size(&mut self, path: u64, size: u64)
        ensures
            final(self)@ == (DeskModel {
                items: with_size(old(self)@.items, path, size),
                ..old(self)@
            }),
    {
        let mut i: usize = 0;
        let ghost all = self.items@;
        assert(all.skip(0) =~= all);
        assert(all.take(0) + with_size(all, path, size) =~= with_size(all, path, size));
        while i < self.items.len()
            invariant
                i <= self.items.len(),
                *self == *old(self),
                all == self.items@,
                with_size(all, path, size) == all.take(i as int) + with_size(
                    all.skip(i as int),
                    path,
                    size,
                ),
            decreases self.items.len() - i,
        {
            assert(all.skip(i as int)[0] == all[i as int]);
            assert(all.skip(i as int).skip(1) =~= all.skip(i + 1));
            if self.items[i].path == path {
                let item = self.items[i];
                self.items.set(i, SendItem { size: Some(size), ..item });
                assert(self.items@ =~= with_size(all, path, size));
                return;
            }
            assert(all.take(i as int) + (seq![all[i as int]] + with_size(
                all.skip(i + 1),
                path,
                size,
            )) =~= all.take(i + 1) + with_size(all.skip(i + 1), path, size));
            i += 1;
        }
        assert(all.skip(i as int) =~= Seq::empty());
        assert(with_size(all, path, size) =~= all);
    }

    /// Whether the sizes that are known add up to what can be counted.
    pub fn total_fits(&self) -> (r: bool)
        ensures
            r == (known_bytes(self@.items) <= u64::MAX),
    {
        let mut total: u64 = 0;
        let mut i: usize = 0;
        assert(self.items@.take(0) =~= Seq::empty());
        while i < self.items.len()
            invariant
                i <= self.items.len(),
                total == known_bytes(self.items@.take(i as int)),
            decreases self.items.len() - i,
        {
            assert(self.items@.take(i + 1).drop_last() =~= self.items@.take(i as int));
            let n: u64 = match self.items[i].size {
                Some(n) => n,
                None => 0,
            };
            match total.checked_add(n) {
                Some(t) => {
                    total = t;
                },
                None => {
                    proof {
                        lemma_known_bytes(self.items@, i + 1);
                    }
                    return false;
                },
            }
            i += 1;
        }
        assert(self.items@.take(i as int) =~= self.items@);
        true
    }

    /// The bytes of all items whose size is known.
    pub fn total_size(&self) -> (r: u64)
        requires
            known_bytes(self@.items) <= u64::MAX,
        ensures
            r == known_bytes(self@.items),
    {
        let mut total: u64 = 0;
        let mut i: usize = 0;
        assert(self.items@.take(0) =~= Seq::empty());
        while i < self.items.len()
            invariant
                i <= self.items.len(),
                known_bytes(self.items@) <= u64::MAX,
                total == known_bytes(self.items@.take(i as int)),
            decreases self.items.len() - i,
        {
            assert(self.items@.take(i + 1).drop_last() =~= self.items@.take(i as int));
            proof {
                lemma_known_bytes(self.items@, i + 1);
            }
            match self.items[i].size {
                Some(n) => {
                    total += n;
                },
                None => {},
            }
            i += 1;
        }
        assert(self.items@.take(i as int) =~= self.items@);
        total
    }

    /// Whether every size is known.
    pub fn total_size_complete(&self) -> (r: bool)
        ensures
            r == all_known(self@.items),
    {
        let mut i: usize = 0;
        while i < self.items.len()
            invariant
                i <= self.items.len(),
                forall|j: int| 0 <= j < i ==> (#[trigger] self.items@[j]).size is Some,
            decreases self.items.len() - i,
        {
            if self.items[i].size.is_none() {
                assert(!(self@.items[i as int].size is Some));
                return false;
            }
            i += 1;
        }
        true
    }

    /// The bytes of everything, where all of them are known.
    pub fn known_total_size(&self) -> (r: Option<u64>)
        requires
            known_bytes(self@.items) <= u64::MAX,
        ensures
            r == known_total(self@.items),
    {
        if self.items.len() == 0 || !self.total_size_complete() {
            None
        } else {
            Some(self.total_size())
        }
    }

    /// The paths of all items, in order.
    pub fn send_paths(&self) -> (r: Vec<u64>)
        ensures
            r@ == self@.items.map_values(|i: SendItem| i.path),
    {
        let ghost all = self.items@.map_values(|i: SendItem| i.path);
        let mut out: Vec<u64> = Vec::new();
        let mut i: usize = 0;
        while i < self.items.len()
            invariant
                i <= self.items.len(),
                all == self.items@.map_values(|i: SendItem| i.path),
                out@ == all.take(i as int),
            decreases self.items.len() - i,
        {
            out.push(self.items[i].path);
            i += 1;
            assert(out@ =~= all.take(i as int));
        }
        assert(all.take(i as int) =~= all);
        out
    }

    fn drop_all(&mut self)
        ensures
            final(self)@ == (DeskModel { items: Seq::empty(), ..old(self)@ }),
    {
        self.items = Vec::new();
        assert(self.items@ =~= Seq::empty());
    }

    /// Takes everything away.
    pub fn clear_items(&mut self, fx: &mut Vec<Effect>)
        ensures
            (final(self)@, effects(final(fx)@)) == cleared(old(self)@, effects(old(fx)@)),
    {
        if !self.is_idle() {
            self.reset(fx);
        }
        self.drop_all();
    }

    /// Takes an item away.
    pub fn remove_item(&mut self, fx: &mut Vec<Effect>, i: usize)
        requires
            i < old(self)@.items.len(),
        ensures
            (final(self)@, effects(final(fx)@)) == item_removed(
                old(self)@,
                effects(old(fx)@),
                i as nat,
            ),
    {
        if !self.is_idle() {
            self.reset(fx);
        }
        self.items.remove(i);
    }

    /// Chooses a tool.
    pub fn switch_tool(&mut self, fx: &mut Vec<Effect>, tool: SelectedTool)
        ensures
            (final(self)@, effects(final(fx)@)) == tool_switched(
                old(self)@,
                effects(old(fx)@),
                tool,
            ),
    {
        if self.workspace.session.tool == tool {
            return;
        }
        self.workspace.session.tool = tool;
        ask(fx, Effect::Persist);
        self.drop_all();
        self.workspace.session.receive_code = no_text();
        self.reset(fx);
    }

    /// Chooses a page.
    pub fn switch_view(&mut self, fx: &mut Vec<Effect>, view: AppView)
        ensures
            (final(self)@, effects(final(fx)@)) == view_switched(
                old(self)@,
                effects(old(fx)@),
                view,
            ),
    {
        if self.workspace.session.view == view || self.workspace.session.is_running() {
            return;
        }
        self.workspace.session.view = view;
        self.drop_all();
        self.workspace.session.receive_code = no_text();
        self.reset(fx);
    }

    /// Lets sendme serve whoever comes.
    pub fn choose_broadcast(&mut self, fx: &mut Vec<Effect>, available: bool)
        ensures
            (final(self)@, effects(final(fx)@)) == broadcast_chosen(
                old(self)@,
                effects(old(fx)@),
                available,
            ),
    {
        if available {
            self.switch_tool(fx, SelectedTool::Sendme);
            self.workspace.session.serve.one_shot = false;
            self.workspace.session.view = AppView::Send;
        }
    }

    /// Lets croc send a text.
    pub fn choose_send_text(&mut self, fx: &mut Vec<Effect>, available: bool)
        ensures
            (final(self)@, effects(final(fx)@)) == text_chosen(
                old(self)@,
                effects(old(fx)@),
                available,
            ),
    {
        if available {
            self.switch_tool(fx, SelectedTool::Croc);
            self.workspace.preferences.text_mode = true;
            self.workspace.session.view = AppView::Send;
        }
    }

    /// Chooses text mode, unless files are laid out.
    pub fn choose_text_mode(&mut self, fx: &mut Vec<Effect>)
        ensures
            (final(self)@, effects(final(fx)@)) == text_mode_chosen(
                old(self)@,
                effects(old(fx)@),
            ),
    {
        if self.items.len() == 0 {
            self.workspace.preferences.text_mode = true;
        } else {
            toast(
                fx,
                owned("Clear files/folders first to switch to text mode"),
                Severity::Warning,
            );
        }
    }

    fn is_blocked(&self) -> (r: bool)
        ensures
            r == workspace::is_blocked(self@.w),
    {
        self.workspace.session.tool != SelectedTool::Sendme && self.workspace.preferences.updating
    }

    /// Starts sending what is laid out.
    pub fn start_send(&mut self, fx: &mut Vec<Effect>, auto: bool, croc_there: bool)
        requires
            known_bytes(old(self)@.items) <= u64::MAX,
        ensures
            (final(self)@, effects(final(fx)@)) == desk_send_started(
                old(self)@,
                effects(old(fx)@),
                auto,
                croc_there,
            ),
    {
        let begins = !self.is_blocked() && (if self.texting() {
            self.items.len() == 0
        } else {
            self.items.len() > 0
        });
        let total = self.known_total_size();
        let n = self.items.len();
        self.workspace.start_send(fx, auto, n, total, croc_there);
        if begins {
            self.close_picker();
        }
    }

    /// Starts receiving under the entered code.
    pub fn start_receive(
        &mut self,
        fx: &mut Vec<Effect>,
        auto: bool,
        croc_there: bool,
        disk_size: u64,
    )
        ensures
            (final(self)@, effects(final(fx)@)) == desk_receive_started(
                old(self)@,
                effects(old(fx)@),
                auto,
                croc_there,
                disk_size,
            ),
    {
        let key = trimmed(self.workspace.session.receive_code.as_str());
        let begins = !self.is_blocked() && !is_blank(key.as_str());
        self.workspace.start_receive(fx, auto, croc_there, disk_size);
        if begins {
            self.close_picker();
        }
    }

    /// Tries sending again.
    pub fn retry_send(&mut self, fx: &mut Vec<Effect>, auto: bool, croc_there: bool)
        requires
            known_bytes(old(self)@.items) <= u64::MAX,
        ensures
            (final(self)@, effects(final(fx)@)) == desk_send_retried(
                old(self)@,
                effects(old(fx)@),
                auto,
                croc_there,
            ),
    {
        let total = self.known_total_size();
        let n = self.items.len();
        self.workspace.retry_send(fx, auto, n, total, croc_there);
        self.close_picker();
    }

    /// Tries receiving again.
    pub fn retry_receive(
        &mut self,
        fx: &mut Vec<Effect>,
        auto: bool,
        croc_there: bool,
        disk_size: u64,
        unix_secs: u64,
    )
        ensures
            (final(self)@, effects(final(fx)@)) == desk_receive_retried(
                old(self)@,
                effects(old(fx)@),
                auto,
                croc_there,
                disk_size,
                unix_secs,
            ),
    {
        self.workspace.retry_receive(fx, auto, croc_there, disk_size, unix_secs);
        self.close_picker();
    }

    fn watch_local_check(&mut self, fx: &mut Vec<Effect>, o: &Outside) -> (over: bool)
        ensures
            over == local_check_is_over(old(self)@.w.session),
            (final(self)@, effects(final(fx)@)) == local_check_watched(
                old(self)@,
                effects(old(fx)@),
                *o,
            ),
    {
        let s = &self.workspace.session;
        let over = s.tool == SelectedTool::EazySendme && s.view == AppView::Receive
            && s.is_running() && (match s.eazy.local_check {
            Some(t) => match s.now.minus(&t) {
                Some(d) => d.reaches(&Magnitude::from_u64(10)),
                None => false,
            },
            None => false,
        });
        if over {
            self.workspace.session.eazy.local_check = None;
            self.workspace.session.push_log(
                owned("[Local] Verification timed out after 10s. Retrying..."),
            );
            self.retry_receive(fx, false, o.croc_there, o.disk_size, o.unix_secs);
        }
        over
    }

    fn watch_retry(&mut self, fx: &mut Vec<Effect>, o: &Outside)
        requires
            known_bytes(old(self)@.items) <= u64::MAX,
        ensures
            (final(self)@, effects(final(fx)@)) == retry_watched(
                old(self)@,
                effects(old(fx)@),
                *o,
            ),
    {
        let failed = match self.workspace.session.state {
            TransferState::Failed(_) => true,
            _ => false,
        };
        let due = failed && (match self.workspace.session.eazy.next_retry {
            Some(t) => self.workspace.session.now.reaches(&t),
            None => false,
        });
        if due {
            self.workspace.session.eazy.next_retry = None;
            if self.workspace.session.view == AppView::Send {
                self.retry_send(fx, true, o.croc_there);
            } else {
                self.retry_receive(fx, true, o.croc_there, o.disk_size, o.unix_secs);
            }
        }
    }

    /// Lets a frame pass: what has taken too long is given up, and what is due is
    /// tried again. Says whether a look for local data was given up.
    pub fn on_frame(&mut self, fx: &mut Vec<Effect>, o: &Outside) -> (gave_up: bool)
        requires
            known_bytes(old(self)@.items) <= u64::MAX,
        ensures
            (final(self)@, effects(final(fx)@)) == frame_passed(
                old(self)@,
                effects(old(fx)@),
                *o,
            ),
            gave_up == local_check_is_over(old(self)@.w.session),
    {
        let gave_up = self.watch_local_check(fx, o);
        self.watch_retry(fx, o);
        gave_up
    }

    /// Enters the code that was used `i` codes ago.
    pub fn pick_code(&mut self, list: CodeList, i: usize)
        ensures
            final(self)@ == code_picked(old(self)@, list, i as nat),
    {
        match list {
            CodeList::Croc => {
                if i < self.workspace.preferences.croc_recent.len() {
                    let code = owned(self.workspace.preferences.croc_recent[i].as_str());
                    self.workspace.preferences.croc_code = code;
                }
            },
            CodeList::Eazy => {
                if i < self.workspace.preferences.eazy_recent.len() {
                    let code = owned(self.workspace.preferences.eazy_recent[i].as_str());
                    self.workspace.session.custom_code = code;
                }
            },
            CodeList::Receive => {
                if i < self.workspace.preferences.receive_recent.len() {
                    let code = owned(self.workspace.preferences.receive_recent[i].as_str());
                    self.workspace.session.receive_code = code;
                }
            },
        }
    }

    /// Forgets the codes of a list.
    pub fn forget_codes(&mut self, fx: &mut Vec<Effect>, list: CodeList)
        ensures
            (final(self)@, effects(final(fx)@)) == codes_forgotten(
                old(self)@,
                effects(old(fx)@),
                list,
            ),
    {
        let none: Vec<String> = Vec::new();
        assert(messages::lines_view(none@) =~= Seq::empty());
        match list {
            CodeList::Croc => {
                self.workspace.preferences.croc_recent = none;
            },
            CodeList::Eazy => {
                self.workspace.preferences.eazy_recent = none;
            },
            CodeList::Receive => {
                self.workspace.preferences.receive_recent = none;
            },
        }
        ask(fx, Effect::Persist);
    }

    /// Chooses a code of one's own, or none.
    pub fn choose_custom_code(&mut self, custom: bool)
        ensures
            final(self)@ == custom_code_chosen(old(self)@, custom),
    {
        let before = self.workspace.preferences.use_custom_code;
        self.workspace.preferences.use_custom_code = custom;
        let entered = trimmed(self.workspace.preferences.croc_code.as_str());
        if custom && !before && is_blank(entered.as_str()) {
            self.pick_code(CodeList::Croc, 0);
        }
    }

    /// The line over the items.
    pub fn items_label(&self) -> (r: String)
        requires
            known_bytes(self@.items) <= u64::MAX,
        ensures
            r@ == items_line(self@.items),
    {
        let total = self.total_size();
        let mut out: Vec<char> = Vec::new();
        push_count(&mut out, self.items.len());
        text::push_text(&mut out, " \u{2014} ");
        if self.total_size_complete() {
            display::push_file_size(&mut out, total);
        } else if total > 0 {
            display::push_file_size(&mut out, total);
            text::push_text(&mut out, " (estimating\u{2026})");
        } else {
            text::push_text(&mut out, "estimating\u{2026}");
        }
        assert(out@ =~= items_line(self@.items));
        text::string_of(out.as_slice())
    }

    /// What stands on the button that starts sending.
    pub fn send_button(&self) -> (r: String)
        ensures
            r@ == send_label(self@),
    {
        let mut out = match self.workspace.session.tool {
            SelectedTool::Croc => if self.texting() {
                return owned("\u{1F40A} Send Text");
            } else {
                text::chars_of("\u{1F40A} Send")
            },
            SelectedTool::Sendme => text::chars_of("\u{1F4E1} Send"),
            SelectedTool::EazySendme => text::chars_of("\u{26A1} EazySend"),
        };
        let ghost head = out@;
        let n = self.items.len();
        if n > 1 {
            text::push_text(&mut out, " ");
            numerals::push_decimal(&mut out, n as u64);
            text::push_text(&mut out, " items");
        }
        assert(out@ =~= head + several(self@.items.len()));
        text::string_of(out.as_slice())
    }

    /// Whether sending can be started.
    pub fn can_start_send(&self) -> (r: bool)
        ensures
            r == can_send(self@.w.session),
    {
        let code = text::chars_of(self.workspace.session.custom_code.as_str());
        self.workspace.session.tool != SelectedTool::EazySendme || text::trim_chars(
            code.as_slice(),
        ).len() >= 7
    }

    /// Whether a dialogue can be opened.
    pub fn picker_ready(&self) -> (r: bool)
        ensures
            r == picker_is_ready(self@.picker, self@.w.session.now),
    {
        !self.picker.in_flight && self.workspace.session.now.reaches(&self.picker.block_until)
    }

    /// Opens a dialogue, unless one is open. Says whether it did.
    pub fn launch_picker(&mut self) -> (r: bool)
        ensures
            final(self)@ == (DeskModel {
                picker: picker_launched(old(self)@.picker, old(self)@.w.session.now),
                ..old(self)@
            }),
            r == !old(self)@.picker.in_flight,
    {
        if self.picker.in_flight {
            return false;
        }
        self.picker.in_flight = true;
        self.picker.block_until = self.workspace.session.now.plus(&Magnitude::ratio(15, 100));
        true
    }

    /// A dialogue was closed.
    pub fn on_picker_closed(&mut self)
        ensures
            final(self)@ == (DeskModel {
                picker: picker_closed(old(self)@.w.session.now),
                ..old(self)@
            }),
    {
        self.picker.in_flight = false;
        self.picker.block_until = self.workspace.session.now.plus(&Magnitude::ratio(20, 100));
    }

    /// The ticket whose data may be on the disk.
    pub fn ticket_to_check(&self) -> (r: Option<String>)
        ensures
            sendme::string_view(r) == ticket_in_question(self@.w.session),
    {
        let s = &self.workspace.session;
        let key = trimmed(s.receive_code.as_str());
        if is_blank(key.as_str()) {
            return None;
        }
        let active = match &s.code {
            Some(c) => text::same_str(trimmed(c.as_str()).as_str(), key.as_str()),
            None => false,
        };
        if active {
            match &s.eazy.ticket {
                Some(t) => {
                    return Some(owned(t.as_str()));
                },
                None => {},
            }
        }
        self.workspace.cached_ticket()
    }

    /// What is said of local data for the entered code, of which `disk_size` bytes
    /// are on the disk, and whether there is some.
    pub fn local_cache_hint(&self, disk_size: u64) -> (r: (bool, String))
        ensures
            (r.0, r.1@) == cache_hint(self@.w.session, disk_size),
    {
        let key = trimmed(self.workspace.session.receive_code.as_str());
        if is_blank(key.as_str()) {
            return (false, owned("No code entered"));
        }
        match self.ticket_to_check() {
            None => (false, owned("No local cache for this code")),
            Some(_) => if disk_size > 0 {
                (
                    true,
                    owned("Local blob cache found - retry will verify and export if complete"),
                )
            } else {
                (false, owned("Cached ticket found - no local blob data yet"))
            },
        }
    }
}

proof fn lemma_known_bytes(items: Seq<SendItem>, i: int)
    requires
        0 <= i <= items.len(),
    ensures
        known_bytes(items.take(i)) <= known_bytes(items),
    decreases items.len() - i,
{
    if i < items.len() {
        lemma_known_bytes(items, i + 1);
        assert(items.take(i + 1).drop_last() =~= items.take(i));
    } else {
        assert(items.take(i) =~= items);
    }
}

} // verus!
