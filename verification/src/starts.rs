//! What comes of a start, of a retry, and of what is laid out for them.

use crate::binary64;
use crate::binary64::whole;
use crate::desk;
use crate::desk::{DeskModel, Outside, SendItem};
use crate::laws;
use crate::numerals;
use crate::session;
use crate::session::{EffectModel, EntryModel, SessionModel, Severity};
use crate::state::{AppView, SelectedTool, TransferPhase};
use crate::text;
use crate::workspace;
use crate::workspace::{PreferencesModel, WorkspaceModel};
use vstd::prelude::*;

verus! {

/// No process is started, and no transfer runs that did not run before.
pub open spec fn nothing_started(before: WorkspaceModel, after: workspace::Started) -> bool {
    &&& !(before.session.state is Running) ==> !(after.0.session.state is Running)
    &&& after.1.len() > 0 ==> !laws::starts_something(after.1.last())
}

/// The user is told `message` last of all.
pub open spec fn tells(after: workspace::Started, message: Seq<char>, severity: Severity) -> bool {
    after.1.len() > 0 && after.1.last() == EffectModel::Toast { message, severity }
}

/// A transfer has begun: it runs from now on, and `what` was asked for last of all.
pub open spec fn has_begun(before: WorkspaceModel, after: workspace::Started, what: EffectModel) -> bool {
    &&& after.0.session.state is Running
    &&& after.0.session.start_time == Some(before.session.now)
    &&& after.0.session.tool == before.session.tool
    &&& after.0.session.view == before.session.view
    &&& after.1.len() > 0
    &&& after.1.last() == what
}

// ── Sending ──

/// croc sends what is laid out, under the user's own code where one is chosen, without
/// the white space around it. That code is shown, kept as the latest and stored. What
/// is to be sent is known from the start.
pub proof fn law_croc_sends_the_items(
    w: WorkspaceModel,
    fx: Seq<EffectModel>,
    auto: bool,
    items: nat,
    total: Option<u64>,
)
    requires
        w.session.tool == SelectedTool::Croc,
        !w.preferences.updating,
        !w.preferences.text_mode,
        items > 0,
        w.preferences.use_custom_code ==> text::trim(w.preferences.croc_code).len() >= 7,
    ensures
        ({
            let code = text::trim(w.preferences.croc_code);
            let after = workspace::send_started(w, fx, auto, items, total, true);
            &&& after.0.session.metrics.total == total
            &&& !w.preferences.use_custom_code ==> has_begun(
                w,
                after,
                EffectModel::CrocSend { custom_code: None, text: None },
            ) && after.0.session.code is None && after.0.preferences == w.preferences
            &&& w.preferences.use_custom_code ==> has_begun(
                w,
                after,
                EffectModel::CrocSend { custom_code: Some(code), text: None },
            ) && after.0.session.code == Some(code) && after.0.preferences.croc_recent.len() > 0
                && after.0.preferences.croc_recent[0] == code && after.1.contains(
                EffectModel::Persist,
            )
        }),
{
    let code = text::trim(w.preferences.croc_code);
    let told = workspace::after_reset(fx).push(EffectModel::Persist);
    let after = workspace::send_started(w, fx, auto, items, total, true);
    if w.preferences.use_custom_code {
        assert(after.1[told.len() - 1] == EffectModel::Persist);
    }
}

/// croc sends the text that was entered, without the white space around it, where no
/// items are laid out.
pub proof fn law_croc_sends_the_text(w: WorkspaceModel, fx: Seq<EffectModel>, auto: bool)
    requires
        w.session.tool == SelectedTool::Croc,
        !w.preferences.updating,
        w.preferences.text_mode,
        !w.preferences.use_custom_code,
    ensures
        ({
            let t = text::trim(w.preferences.text_value);
            let after = workspace::send_started(w, fx, auto, 0, None, true);
            &&& t.len() > 0 ==> has_begun(
                w,
                after,
                EffectModel::CrocSend { custom_code: None, text: Some(t) },
            )
            &&& t.len() == 0 ==> nothing_started(w, after) && tells(
                after,
                "Enter text to send in text mode"@,
                Severity::Warning,
            )
        }),
{
}

/// sendme serves what is laid out, for one receiver or for whoever comes, as was chosen.
/// The combined mode serves one receiver, whatever was chosen, and keeps its code as the
/// latest.
pub proof fn law_sendme_serves_the_items(
    w: WorkspaceModel,
    fx: Seq<EffectModel>,
    auto: bool,
    items: nat,
    total: Option<u64>,
    croc_there: bool,
)
    requires
        items > 0,
        w.session.tool == SelectedTool::Sendme || (w.session.tool == SelectedTool::EazySendme
            && !w.preferences.updating && text::trim(w.session.custom_code).len() >= 7),
    ensures
        ({
            let after = workspace::send_started(w, fx, auto, items, total, croc_there);
            let once = w.session.tool == SelectedTool::EazySendme || w.session.serve.one_shot;
            &&& has_begun(w, after, EffectModel::SendmeSend { one_shot: once })
            &&& after.0.session.serve.one_shot == once
            &&& after.0.session.metrics.total == total
            &&& after.0.session.metrics.phase == TransferPhase::Preparing
            &&& w.session.tool == SelectedTool::EazySendme ==> after.0.preferences.eazy_recent.len()
                > 0 && after.0.preferences.eazy_recent[0] == text::trim(w.session.custom_code)
                && after.0.session.custom_code == w.session.custom_code
        }),
{
}

/// What cannot be sent is refused, and the user is told why: nothing laid out, a text
/// beside items, a code that is missing or too short, croc that is not there.
pub proof fn law_what_cannot_be_sent_is_refused(
    w: WorkspaceModel,
    fx: Seq<EffectModel>,
    auto: bool,
    items: nat,
    total: Option<u64>,
    croc_there: bool,
)
    requires
        !w.preferences.updating,
    ensures
        ({
            let after = workspace::send_started(w, fx, auto, items, total, croc_there);
            let croc = w.session.tool == SelectedTool::Croc;
            let texting = croc && w.preferences.text_mode;
            let code = text::trim(w.preferences.croc_code);
            &&& items == 0 && !texting ==> nothing_started(w, after) && tells(
                after,
                "Add files first"@,
                Severity::Warning,
            ) && after.0.session.state == w.session.state
            &&& items > 0 && texting ==> nothing_started(w, after) && tells(
                after,
                "Croc text mode cannot send files/folders at the same time"@,
                Severity::Warning,
            ) && after.0.session.state == w.session.state
            &&& croc && (texting <==> items == 0) && !croc_there ==> nothing_started(w, after)
                && tells(after, "Croc not found"@, Severity::Error)
            &&& croc && (texting <==> items == 0) && croc_there && w.preferences.use_custom_code
                && code.len() == 0 ==> nothing_started(w, after) && tells(
                after,
                "Enter a custom code or switch to random code"@,
                Severity::Warning,
            )
            &&& croc && (texting <==> items == 0) && croc_there && w.preferences.use_custom_code
                && 0 < code.len() < 7 ==> nothing_started(w, after) && tells(
                after,
                "Croc code should be more than 6 characters"@,
                Severity::Warning,
            )
            &&& w.session.tool == SelectedTool::EazySendme && items > 0 && text::trim(
                w.session.custom_code,
            ).len() < 7 ==> nothing_started(w, after) && tells(
                after,
                "Code must be at least 7 characters"@,
                Severity::Warning,
            )
        }),
{
}

// ── Receiving ──

/// What was entered is received, without the white space around it: croc receives its
/// code into the chosen folder, sendme its ticket. In the combined mode croc receives
/// the ticket first, unless one is known for the code: then what is already here is
/// looked at, from now on.
pub proof fn law_what_was_entered_is_received(
    w: WorkspaceModel,
    fx: Seq<EffectModel>,
    auto: bool,
    disk_size: u64,
)
    requires
        w.session.tool != SelectedTool::Sendme ==> !w.preferences.updating,
        text::trim(w.session.receive_code).len() > 0,
    ensures
        ({
            let key = text::trim(w.session.receive_code);
            let after = workspace::receive_started(w, fx, auto, true, disk_size);
            &&& after.0.session.code == Some(key)
            &&& after.0.session.receive_code == w.session.receive_code
            &&& after.0.session.cache == w.session.cache
            &&& w.session.tool == SelectedTool::Croc ==> has_begun(
                w,
                after,
                EffectModel::CrocReceive { code: key, into_chosen: true },
            )
            &&& w.session.tool == SelectedTool::Sendme ==> has_begun(
                w,
                after,
                EffectModel::ReceiveTicket(key),
            )
            &&& w.session.tool == SelectedTool::EazySendme ==> match session::ticket_for(
                w.session.cache,
                key,
            ) {
                None => has_begun(
                    w,
                    after,
                    EffectModel::CrocReceive { code: key, into_chosen: false },
                ) && after.0.session.eazy.ticket is None,
                Some(ticket) => has_begun(w, after, EffectModel::CheckLocal(ticket))
                    && after.0.session.eazy.ticket == Some(ticket)
                    && after.0.session.eazy.local_check == Some(w.session.now)
                    && after.0.session.metrics.phase == TransferPhase::Transferring,
            }
            &&& w.session.tool != SelectedTool::Sendme && key.len() >= 7
                ==> after.0.preferences.receive_recent.len() > 0
                && after.0.preferences.receive_recent[0] == key
            &&& w.session.tool == SelectedTool::Sendme || key.len() < 7
                ==> after.0.preferences.receive_recent == w.preferences.receive_recent
        }),
{
}

/// What cannot be received is refused, and the user is told why.
pub proof fn law_what_cannot_be_received_is_refused(
    w: WorkspaceModel,
    fx: Seq<EffectModel>,
    auto: bool,
    croc_there: bool,
    disk_size: u64,
)
    requires
        !w.preferences.updating,
    ensures
        ({
            let after = workspace::receive_started(w, fx, auto, croc_there, disk_size);
            let key = text::trim(w.session.receive_code);
            &&& key.len() == 0 ==> nothing_started(w, after) && tells(
                after,
                "Enter a code or ticket"@,
                Severity::Warning,
            ) && after.0.session.state == w.session.state
            &&& key.len() > 0 && !croc_there && w.session.tool != SelectedTool::Sendme
                ==> nothing_started(w, after) && tells(after, "Croc not found"@, Severity::Error)
        }),
{
}

/// While croc is being updated, what needs croc waits: a start of the user's is refused
/// with a word about it, a retry of the combined mode comes five seconds later.
pub proof fn law_updates_put_starts_off(
    w: WorkspaceModel,
    fx: Seq<EffectModel>,
    auto: bool,
    items: nat,
    total: Option<u64>,
    croc_there: bool,
    disk_size: u64,
)
    requires
        w.preferences.updating,
        w.session.tool != SelectedTool::Sendme,
    ensures
        ({
            let sent = workspace::send_started(w, fx, auto, items, total, croc_there);
            let received = workspace::receive_started(w, fx, auto, croc_there, disk_size);
            &&& sent == received
            &&& sent.0.session.state == w.session.state
            &&& sent.0.preferences == w.preferences
            &&& !auto ==> sent.0 == w && tells(
                sent,
                "croc is updating itself, try again in a moment"@,
                Severity::Warning,
            )
            &&& auto && w.session.tool == SelectedTool::EazySendme ==> sent.1 == fx
                && sent.0.session.eazy.next_retry == Some(
                binary64::sum(w.session.now, whole(5)),
            ) && sent.0.session.eazy.retries == w.session.eazy.retries
        }),
{
}

// ── Trying again ──

/// What was running is put away before anything else is started: its processes are
/// cancelled, and nothing of it is left.
pub proof fn law_starts_put_the_last_transfer_away(
    w: WorkspaceModel,
    fx: Seq<EffectModel>,
    auto: bool,
    items: nat,
    total: Option<u64>,
    disk_size: u64,
)
    requires
        !workspace::is_blocked(w),
    ensures
        ({
            let after = workspace::send_started(w, fx, auto, items, total, true);
            after.0.session.state is Running && items > 0 && w.session.tool == SelectedTool::Sendme
                ==> {
                &&& after.1.len() >= fx.len() + 2
                &&& after.1[fx.len() as int] == EffectModel::CancelTransfer
                &&& after.1[fx.len() as int + 1] == EffectModel::CancelShare
                &&& after.0.session.log.len() == 0
                &&& after.0.session.metrics.done is None
                &&& after.0.session.texts.received is None
            }
        }),
        ({
            let after = workspace::receive_started(w, fx, auto, true, disk_size);
            text::trim(w.session.receive_code).len() > 0 ==> {
                &&& after.1.len() >= fx.len() + 2
                &&& after.1[fx.len() as int] == EffectModel::CancelTransfer
                &&& after.1[fx.len() as int + 1] == EffectModel::CancelShare
                &&& after.0.session.metrics.done is None
                &&& after.0.session.texts.received is None
            }
        }),
{
}

/// A start of the user's counts retries from nothing, a retry goes on counting.
pub proof fn law_only_the_user_begins_the_count_anew(
    w: WorkspaceModel,
    fx: Seq<EffectModel>,
    auto: bool,
    items: nat,
    total: Option<u64>,
    croc_there: bool,
    disk_size: u64,
)
    requires
        !workspace::is_blocked(w),
    ensures
        ({
            let sent = workspace::send_started(w, fx, auto, items, total, croc_there).0.session;
            let got = workspace::receive_started(w, fx, auto, croc_there, disk_size).0.session;
            &&& sent.eazy.retries == (if auto {
                w.session.eazy.retries
            } else {
                0
            })
            &&& got.eazy.retries == (if auto {
                w.session.eazy.retries
            } else {
                0
            })
            &&& !auto ==> sent.eazy.next_retry is None && got.eazy.next_retry is None
        }),
{
}

/// A receive of the combined mode that is tried again goes on with the ticket that it
/// had: the ticket is kept under the code, and what is already here is looked at.
pub proof fn law_retries_go_on_with_the_ticket(
    w: WorkspaceModel,
    fx: Seq<EffectModel>,
    auto: bool,
    disk_size: u64,
    unix_secs: u64,
    ticket: Seq<char>,
)
    requires
        w.session.tool == SelectedTool::EazySendme,
        w.session.view == AppView::Receive,
        w.session.eazy.ticket == Some(ticket),
        text::trim(w.session.receive_code).len() > 0,
        !w.preferences.updating,
        session::codes_differ(w.session.cache),
    ensures
        ({
            let after = workspace::receive_retried(w, fx, auto, true, disk_size, unix_secs);
            &&& has_begun(w, after, EffectModel::CheckLocal(ticket))
            &&& session::ticket_for(after.0.session.cache, text::trim(w.session.receive_code))
                == Some(ticket)
        }),
{
    let key = text::trim(w.session.receive_code);
    let e = EntryModel { code: key, ticket, timestamp: unix_secs };
    laws::law_cache_finds_what_was_put(w.session.cache, e, key.push(' '));
}

/// A retry is due exactly from its time on, and only after a failure. It starts what
/// had failed: sending what is laid out, or receiving the code that was entered.
pub proof fn law_due_retries_start_what_failed(d: DeskModel, fx: Seq<EffectModel>, o: Outside, due: nat)
    requires
        d.w.session.tool == SelectedTool::EazySendme,
        d.w.session.state is Failed,
        d.w.session.eazy.next_retry == Some(due),
        d.w.session.eazy.ticket is None,
        !d.w.preferences.updating,
        o.croc_there,
    ensures
        ({
            let (t, told) = desk::frame_passed(d, fx, o);
            &&& d.w.session.now < due ==> t == d && told == fx
            &&& d.w.session.now >= due && d.w.session.view == AppView::Send && d.items.len() > 0
                && text::trim(d.w.session.custom_code).len() >= 7 ==> t.w.session.state is Running
                && told.len() > 0 && told.last() == EffectModel::SendmeSend { one_shot: true }
                && t.items == d.items && t.w.session.eazy.retries == d.w.session.eazy.retries
            &&& d.w.session.now >= due && d.w.session.view == AppView::Receive && text::trim(
                d.w.session.receive_code,
            ).len() > 0 && session::ticket_for(
                d.w.session.cache,
                text::trim(d.w.session.receive_code),
            ) is None ==> t.w.session.state is Running && told.len() > 0 && told.last()
                == EffectModel::CrocReceive {
                code: text::trim(d.w.session.receive_code),
                into_chosen: false,
            } && t.w.session.eazy.retries == d.w.session.eazy.retries
        }),
{
}

/// A look at what is already here is given up after ten seconds and no sooner, and the
/// receive is tried again.
pub proof fn law_local_looks_last_ten_seconds(d: DeskModel, fx: Seq<EffectModel>, o: Outside, begun: nat, secs: nat)
    requires
        d.w.session.tool == SelectedTool::EazySendme,
        d.w.session.view == AppView::Receive,
        d.w.session.state is Running,
        d.w.session.eazy.local_check == Some(begun),
        d.w.session.now == begun + whole(secs),
        secs < 1000000,
    ensures
        secs < 10 ==> desk::frame_passed(d, fx, o) == (d, fx),
        secs >= 10 ==> desk::local_check_is_over(d.w.session),
        secs >= 10 && !d.w.preferences.updating && o.croc_there && text::trim(
            d.w.session.receive_code,
        ).len() > 0 ==> ({
            let (t, told) = desk::local_check_watched(d, fx, o);
            t.w.session.state is Running && told.len() > 0 && laws::starts_something(told.last())
                && t.w.session.start_time == Some(d.w.session.now)
        }),
{
    binary64::law_whole_numbers_are_computed_exactly(secs, 0);
    binary64::law_whole_is_exact(secs);
    binary64::law_whole_is_exact(10);
    binary64::law_whole_is_exact(0);
    assert(crate::metrics::seconds_since(d.w.session.now, begun) == binary64::sum(
        whole(secs),
        whole(0),
    ));
    assert(secs < 10 ==> secs * binary64::one() < 10 * binary64::one()) by (nonlinear_arith)
        requires
            binary64::one() > 0,
    ;
    assert(secs >= 10 ==> secs * binary64::one() >= 10 * binary64::one()) by (nonlinear_arith);
}

// ── Codes that were used ──

/// A code that is used stands first; the others keep their order behind it, each once,
/// and the oldest goes where there are more than five.
pub proof fn law_used_codes_come_first(codes: Seq<Seq<char>>, code: Seq<char>, i: int)
    requires
        workspace::is_code_list(codes),
    ensures
        workspace::remembered(codes, code).len() > 0,
        workspace::remembered(codes, code)[0] == code,
        !codes.contains(code) && codes.len() < 5 ==> workspace::remembered(codes, code) == seq![
            code,
        ] + codes,
        !codes.contains(code) && codes.len() == 5 ==> workspace::remembered(codes, code) == seq![
            code,
        ] + codes.drop_last(),
        0 <= i < codes.len() && codes[i] == code ==> workspace::remembered(codes, code) == seq![
            code,
        ] + codes.remove(i),
{
    if !codes.contains(code) {
        lemma_without_none(codes, code);
        if codes.len() == 5 {
            assert((seq![code] + codes).take(5) =~= seq![code] + codes.drop_last());
        }
    }
    if 0 <= i < codes.len() && codes[i] == code {
        lemma_without_one(codes, code, i);
    }
}

proof fn lemma_without_none(codes: Seq<Seq<char>>, code: Seq<char>)
    requires
        !codes.contains(code),
    ensures
        workspace::without(codes, code) == codes,
    decreases codes.len(),
{
    if codes.len() > 0 {
        assert(codes.last() == codes[codes.len() - 1]);
        assert(!codes.drop_last().contains(code)) by {
            if codes.drop_last().contains(code) {
                let k = choose|k: int| 0 <= k < codes.len() - 1 && codes.drop_last()[k] == code;
                assert(codes[k] == code);
            }
        }
        lemma_without_none(codes.drop_last(), code);
        assert(codes.drop_last().push(codes.last()) =~= codes);
    }
}

proof fn lemma_without_one(codes: Seq<Seq<char>>, code: Seq<char>, i: int)
    requires
        0 <= i < codes.len(),
        codes[i] == code,
        forall|j: int, k: int| 0 <= j < k < codes.len() ==> #[trigger] codes[j] != #[trigger] codes[k],
    ensures
        workspace::without(codes, code) == codes.remove(i),
    decreases codes.len(),
{
    let d = codes.drop_last();
    if i == codes.len() - 1 {
        assert(!d.contains(code)) by {
            if d.contains(code) {
                let k = choose|k: int| 0 <= k < d.len() && d[k] == code;
                assert(codes[k] != codes[i]);
            }
        }
        lemma_without_none(d, code);
        assert(codes.remove(i) =~= d);
    } else {
        assert(codes.last() != code) by {
            assert(codes[i] != codes[codes.len() - 1]);
        }
        assert forall|j: int, k: int| 0 <= j < k < d.len() implies #[trigger] d[j]
            != #[trigger] d[k] by {
            assert(codes[j] != codes[k]);
        }
        lemma_without_one(d, code, i);
        assert(codes.remove(i) =~= d.remove(i).push(codes.last()));
    }
}

// ── What is laid out ──

/// An item that is not there yet is laid out behind the others; one that is there stays
/// as it is. A transfer that is over makes room, one that runs goes on. While a text is
/// to be sent nothing is laid out.
pub proof fn law_items_are_laid_out_once(d: DeskModel, fx: Seq<EffectModel>, item: SendItem)
    ensures
        ({
            let (t, told) = desk::item_added(d, fx, item);
            let texting = d.w.session.tool == SelectedTool::Croc && d.w.preferences.text_mode;
            let there = exists|i: int| 0 <= i < d.items.len() && #[trigger] d.items[i].path
                == item.path;
            &&& texting ==> t == d && told == fx.push(
                EffectModel::Toast {
                    message: "Disable Croc text mode to add files/folders"@,
                    severity: Severity::Warning,
                },
            )
            &&& !texting && there ==> t == d && told == fx
            &&& !texting && !there ==> t.items == d.items.push(item)
            &&& !texting && !there && (d.w.session.state is Idle || d.w.session.state is Running)
                ==> t.w == d.w && told == fx
            &&& !texting && !there && (d.w.session.state is Completed || d.w.session.state
                is Failed) ==> t.w.session.state is Idle && told.contains(
                EffectModel::CancelTransfer,
            )
        }),
{
    let (t, told) = desk::item_added(d, fx, item);
    let texting = d.w.session.tool == SelectedTool::Croc && d.w.preferences.text_mode;
    if !texting && !desk::has_path(d.items, item.path) && (d.w.session.state is Completed
        || d.w.session.state is Failed) {
        assert(told[fx.len() as int] == EffectModel::CancelTransfer);
    }
}

/// Items that are dropped on an idle window are laid out for sending, and the user is
/// told how many there are now.
pub proof fn law_dropped_items_are_laid_out(d: DeskModel, fx: Seq<EffectModel>, new: Seq<SendItem>, k: int)
    requires
        !(d.w.session.state is Running),
        !(d.w.session.tool == SelectedTool::Croc && d.w.preferences.text_mode),
        0 <= k < new.len(),
    ensures
        ({
            let (t, told) = desk::items_dropped(d, fx, new);
            &&& t.w.session.view == AppView::Send
            &&& desk::has_path(t.items, new[k].path)
            &&& forall|i: int| 0 <= i < d.items.len() ==> t.items[i] == #[trigger] d.items[i]
            &&& told.len() > 0
            &&& told.last() == EffectModel::Toast {
                message: numerals::decimal(t.items.len()) + (if t.items.len() == 1 {
                    " item"@
                } else {
                    " items"@
                }) + " ready"@,
                severity: Severity::Success,
            }
        }),
{
    let a = desk::with_session(d, SessionModel { view: AppView::Send, ..d.w.session });
    lemma_added(a, fx, new, new.len(), k);
}

proof fn lemma_added(d: DeskModel, fx: Seq<EffectModel>, new: Seq<SendItem>, n: nat, k: int)
    requires
        !(d.w.session.tool == SelectedTool::Croc && d.w.preferences.text_mode),
        n <= new.len(),
    ensures
        ({
            let t = desk::items_added(d, fx, new, n).0;
            &&& t.w.session.view == d.w.session.view
            &&& t.w.session.tool == d.w.session.tool
            &&& t.w.preferences == d.w.preferences
            &&& 0 <= k < n ==> desk::has_path(t.items, new[k].path)
            &&& d.items.len() <= t.items.len()
            &&& forall|i: int| 0 <= i < d.items.len() ==> t.items[i] == #[trigger] d.items[i]
        }),
    decreases n,
{
    if n > 0 {
        lemma_added(d, fx, new, (n - 1) as nat, k);
        let (a, told) = desk::items_added(d, fx, new, (n - 1) as nat);
        let t = desk::item_added(a, told, new[n - 1]).0;
        if 0 <= k < n - 1 {
            let i = choose|i: int| 0 <= i < a.items.len() && #[trigger] a.items[i].path
                == new[k].path;
            assert(t.items[i].path == new[k].path);
        } else if k == n - 1 {
            if !desk::has_path(a.items, new[k].path) {
                assert(t.items[a.items.len() as int].path == new[k].path);
            }
        }
        assert forall|i: int| 0 <= i < d.items.len() implies t.items[i] == #[trigger] d.items[i] by {
            assert(a.items[i] == d.items[i]);
        }
    }
}

/// A size that comes in is that of the item with its path, and of no other.
pub proof fn law_sizes_find_their_items(items: Seq<SendItem>, path: u64, size: u64, i: int)
    requires
        desk::are_distinct(items),
        0 <= i < items.len(),
    ensures
        desk::with_size(items, path, size).len() == items.len(),
        items[i].path == path ==> desk::with_size(items, path, size)[i] == (SendItem {
            size: Some(size),
            ..items[i]
        }),
        items[i].path != path ==> desk::with_size(items, path, size)[i] == items[i],
    decreases items.len(),
{
    desk::law_sizes_keep_paths(items, path, size);
    let rest = items.skip(1);
    if items[0].path != path {
        if i > 0 {
            assert forall|j: int, k: int| 0 <= j < k < rest.len() implies #[trigger] rest[j].path
                != #[trigger] rest[k].path by {
                assert(items[j + 1].path != items[k + 1].path);
            }
            law_sizes_find_their_items(rest, path, size, i - 1);
            assert(items[i] == rest[i - 1]);
        }
    } else if i > 0 {
        assert(items[0].path != items[i].path);
        assert(items[i] == rest[i - 1]);
    }
}

/// The size of everything is known exactly where every size is, and is their sum: it
/// grows by the size of each further item.
pub proof fn law_totals_are_sums(items: Seq<SendItem>, item: SendItem)
    ensures
        desk::known_bytes(Seq::empty()) == 0,
        desk::known_bytes(items.push(item)) == desk::known_bytes(items) + (match item.size {
            Some(n) => n as nat,
            None => 0,
        }),
        desk::known_total(items) is Some <==> items.len() > 0 && forall|i: int|
            0 <= i < items.len() ==> (#[trigger] items[i]).size is Some,
        desk::known_total(items) matches Some(t) ==> t == desk::known_bytes(items) as u64,
{
    assert(items.push(item).drop_last() =~= items);
}

/// Whatever was laid out, clearing leaves nothing, and what is taken away leaves the
/// others in their order. A transfer that had begun is put away.
pub proof fn law_what_is_taken_away_is_gone(d: DeskModel, fx: Seq<EffectModel>, i: nat)
    requires
        i < d.items.len(),
    ensures
        desk::cleared(d, fx).0.items.len() == 0,
        desk::cleared(d, fx).0.w.session.state is Idle,
        desk::item_removed(d, fx, i).0.items == d.items.take(i as int) + d.items.skip(i as int + 1),
        desk::item_removed(d, fx, i).0.w.session.state is Idle,
        d.w.session.state is Idle ==> desk::cleared(d, fx).0.w == d.w && desk::item_removed(
            d,
            fx,
            i,
        ).0.w == d.w,
{
    assert(d.items.remove(i as int) =~= d.items.take(i as int) + d.items.skip(i as int + 1));
}

// ── Choices ──

/// The card for a broadcast leads to sendme's page for sending, for whoever comes; the
/// one for a text to croc's, with the text in place of items. Neither does anything
/// where its tool is missing.
pub proof fn law_cards_lead_where_they_say(d: DeskModel, fx: Seq<EffectModel>)
    ensures
        ({
            let t = desk::broadcast_chosen(d, fx, true).0.w;
            &&& t.session.tool == SelectedTool::Sendme
            &&& t.session.view == AppView::Send
            &&& !t.session.serve.one_shot
        }),
        ({
            let t = desk::text_chosen(d, fx, true).0.w;
            &&& t.session.tool == SelectedTool::Croc
            &&& t.session.view == AppView::Send
            &&& t.preferences.text_mode
        }),
        desk::broadcast_chosen(d, fx, false) == (d, fx),
        desk::text_chosen(d, fx, false) == (d, fx),
{
}

/// Another page begins with nothing laid out and nothing entered.
pub proof fn law_pages_begin_anew(d: DeskModel, fx: Seq<EffectModel>, view: AppView)
    requires
        d.w.session.view != view,
        !(d.w.session.state is Running),
    ensures
        ({
            let (t, told) = desk::view_switched(d, fx, view);
            &&& t.w.session.view == view
            &&& t.items.len() == 0
            &&& t.w.session.receive_code.len() == 0
            &&& t.w.session.state is Idle
            &&& t.w.session.tool == d.w.session.tool
            &&& t.w.preferences == d.w.preferences
        }),
        desk::view_switched(d, fx, d.w.session.view) == (d, fx),
        desk::tool_switched(d, fx, d.w.session.tool) == (d, fx),
{
}

/// A text can take the place of items only where none are laid out.
pub proof fn law_texts_and_items_exclude_each_other(d: DeskModel, fx: Seq<EffectModel>)
    ensures
        d.items.len() == 0 ==> desk::text_mode_chosen(d, fx).0.w.preferences.text_mode
            && desk::text_mode_chosen(d, fx).1 == fx,
        d.items.len() > 0 ==> desk::text_mode_chosen(d, fx).0 == d && desk::text_mode_chosen(
            d,
            fx,
        ).1 == fx.push(
            EffectModel::Toast {
                message: "Clear files/folders first to switch to text mode"@,
                severity: Severity::Warning,
            },
        ),
{
}

/// A code that is picked from a list is entered where codes of that list are entered,
/// and nowhere else; forgetting a list forgets that list alone.
pub proof fn law_picked_codes_are_entered(d: DeskModel, fx: Seq<EffectModel>, i: nat)
    ensures
        i < d.w.preferences.croc_recent.len() ==> desk::code_picked(d, desk::CodeList::Croc, i).w
            == (WorkspaceModel {
            preferences: PreferencesModel {
                croc_code: d.w.preferences.croc_recent[i as int],
                ..d.w.preferences
            },
            ..d.w
        }),
        i < d.w.preferences.eazy_recent.len() ==> desk::code_picked(d, desk::CodeList::Eazy, i).w
            == (WorkspaceModel {
            session: SessionModel {
                custom_code: d.w.preferences.eazy_recent[i as int],
                ..d.w.session
            },
            ..d.w
        }),
        i < d.w.preferences.receive_recent.len() ==> desk::code_picked(
            d,
            desk::CodeList::Receive,
            i,
        ).w == (WorkspaceModel {
            session: SessionModel {
                receive_code: d.w.preferences.receive_recent[i as int],
                ..d.w.session
            },
            ..d.w
        }),
        desk::codes_forgotten(d, fx, desk::CodeList::Croc).0.w.preferences == (PreferencesModel {
            croc_recent: Seq::empty(),
            ..d.w.preferences
        }),
        desk::codes_forgotten(d, fx, desk::CodeList::Eazy).0.w.preferences == (PreferencesModel {
            eazy_recent: Seq::empty(),
            ..d.w.preferences
        }),
        desk::codes_forgotten(d, fx, desk::CodeList::Receive).0.w.preferences == (
        PreferencesModel { receive_recent: Seq::empty(), ..d.w.preferences }),
        desk::codes_forgotten(d, fx, desk::CodeList::Croc).1 == fx.push(EffectModel::Persist),
{
}

/// A code of one's own may be chosen; where none is entered yet, the latest is.
pub proof fn law_the_latest_code_is_offered(d: DeskModel)
    ensures
        desk::custom_code_chosen(d, true).w.preferences.use_custom_code,
        !desk::custom_code_chosen(d, false).w.preferences.use_custom_code,
        desk::custom_code_chosen(d, false).w.preferences.croc_code == d.w.preferences.croc_code,
        text::trim(d.w.preferences.croc_code).len() > 0 ==> desk::custom_code_chosen(
            d,
            true,
        ).w.preferences.croc_code == d.w.preferences.croc_code,
        text::trim(d.w.preferences.croc_code).len() == 0 && !d.w.preferences.use_custom_code
            && d.w.preferences.croc_recent.len() > 0 ==> desk::custom_code_chosen(
            d,
            true,
        ).w.preferences.croc_code == d.w.preferences.croc_recent[0],
{
}

/// A code is too short from its first character to its sixth, white space aside.
pub proof fn law_six_characters_are_too_few(code: Seq<char>)
    ensures
        desk::is_short_code(code) <==> 1 <= text::trim(code).len() < 7,
{
}

/// Data that may already be here is that of the ticket in use, where its code is the one
/// that is entered, and else that of the ticket that was kept for the code.
pub proof fn law_local_data_belongs_to_the_code(s: SessionModel, disk_size: u64)
    ensures
        text::trim(s.receive_code).len() == 0 ==> desk::ticket_in_question(s) is None
            && desk::cache_hint(s, disk_size) == (false, "No code entered"@),
        text::trim(s.receive_code).len() > 0 && s.eazy.ticket is Some && s.code == Some(
            text::trim(s.receive_code),
        ) ==> desk::ticket_in_question(s) == s.eazy.ticket,
        text::trim(s.receive_code).len() > 0 && s.eazy.ticket is None ==> desk::ticket_in_question(
            s,
        ) == session::ticket_for(s.cache, text::trim(s.receive_code)),
        text::trim(s.receive_code).len() > 0 && desk::ticket_in_question(s) is None
            ==> desk::cache_hint(s, disk_size) == (false, "No local cache for this code"@),
        text::trim(s.receive_code).len() > 0 && desk::ticket_in_question(s) is Some ==> desk::cache_hint(
            s,
            disk_size,
        ) == (if disk_size == 0 {
            (false, "Cached ticket found - no local blob data yet"@)
        } else {
            (true, "Local blob cache found - retry will verify and export if complete"@)
        }),
{
    text::law_trim_idempotent(s.receive_code);
}

} // verus!
