//! Starting transfers: what the user has prepared, and whether it can begin.

use crate::binary64;
use crate::binary64::Magnitude;
use crate::engine::{ask, effects, is_blank, trimmed, Effect, Session, TransferState};
use crate::messages::lines_view;
use crate::metrics::MetricsModel;
use crate::numerals;
use crate::session;
use crate::session::{
    EazyModel, EffectModel, EntryModel, ServeModel, SessionModel, Severity, StateModel,
};
use crate::state::{AppView, SelectedTool, TransferPhase};
use crate::text;
use crate::transfer::owned;
use vstd::prelude::*;

verus! {

// ── Codes that were used before ──

/// `codes` without `code`.
pub open spec fn without(codes: Seq<Seq<char>>, code: Seq<char>) -> Seq<Seq<char>>
    decreases codes.len(),
{
    if codes.len() == 0 {
        codes
    } else {
        let kept = without(codes.drop_last(), code);
        if codes.last() == code {
            kept
        } else {
            kept.push(codes.last())
        }
    }
}

pub open spec fn at_most_five(codes: Seq<Seq<char>>) -> Seq<Seq<char>> {
    if codes.len() > 5 {
        codes.take(5)
    } else {
        codes
    }
}

/// A code is used: it comes first, once, and at most five are kept.
pub open spec fn remembered(codes: Seq<Seq<char>>, code: Seq<char>) -> Seq<Seq<char>> {
    at_most_five(seq![code] + without(codes, code))
}

/// A list of codes as it is kept: at most five, all different, each of more than
/// six characters.
pub open spec fn is_code_list(codes: Seq<Seq<char>>) -> bool {
    &&& codes.len() <= 5
    &&& forall|i: int, j: int| 0 <= i < j < codes.len() ==> #[trigger] codes[i] != #[trigger] codes[j]
    &&& forall|i: int| 0 <= i < codes.len() ==> (#[trigger] codes[i]).len() > 6
}

/// The list that stored codes are read into: trimmed, each once, the first five
/// of more than six characters.
pub open spec fn deduplicated(codes: Seq<Seq<char>>, n: nat) -> Seq<Seq<char>>
    decreases n,
{
    if n == 0 || n > codes.len() {
        Seq::empty()
    } else {
        let kept = deduplicated(codes, (n - 1) as nat);
        let clean = text::trim(codes[n - 1]);
        if clean.len() <= 6 || kept.contains(clean) || kept.len() >= 5 {
            kept
        } else {
            kept.push(clean)
        }
    }
}

pub proof fn lemma_without(codes: Seq<Seq<char>>, code: Seq<char>)
    ensures
        without(codes, code).len() <= codes.len(),
        forall|i: int|
            0 <= i < without(codes, code).len() ==> #[trigger] without(codes, code)[i] != code,
        forall|i: int|
            0 <= i < without(codes, code).len() ==> codes.contains(
                #[trigger] without(codes, code)[i],
            ),
        (forall|i: int, j: int|
            0 <= i < j < codes.len() ==> #[trigger] codes[i] != #[trigger] codes[j]) ==> (forall|
            i: int,
            j: int,
        |
            0 <= i < j < without(codes, code).len() ==> #[trigger] without(codes, code)[i]
                != #[trigger] without(codes, code)[j]),
    decreases codes.len(),
{
    if codes.len() > 0 {
        let front = codes.drop_last();
        lemma_without(front, code);
        let kept = without(front, code);
        assert forall|i: int| 0 <= i < kept.len() implies codes.contains(#[trigger] kept[i]) by {
            assert(front.contains(kept[i]));
            let k = choose|k: int| 0 <= k < front.len() && front[k] == kept[i];
            assert(codes[k] == kept[i]);
        }
        assert(codes.contains(codes.last()));
        if forall|i: int, j: int|
            0 <= i < j < codes.len() ==> #[trigger] codes[i] != #[trigger] codes[j] {
            assert forall|i: int, j: int| 0 <= i < j < front.len() implies #[trigger] front[i]
                != #[trigger] front[j] by {
                assert(codes[i] != codes[j]);
            }
            assert forall|i: int| 0 <= i < kept.len() implies #[trigger] kept[i]
                != codes.last() by {
                assert(front.contains(kept[i]));
                let k = choose|k: int| 0 <= k < front.len() && front[k] == kept[i];
                assert(codes[k] != codes[codes.len() - 1]);
            }
        }
    }
}

/// Using a code keeps the list one of codes, with that code first.
pub proof fn law_remembered_is_code_list(codes: Seq<Seq<char>>, code: Seq<char>)
    requires
        is_code_list(codes),
        code.len() > 6,
    ensures
        is_code_list(remembered(codes, code)),
        remembered(codes, code)[0] == code,
{
    lemma_without(codes, code);
    let all = seq![code] + without(codes, code);
    assert forall|i: int| 0 <= i < all.len() implies (#[trigger] all[i]).len() > 6 by {
        if i > 0 {
            assert(codes.contains(without(codes, code)[i - 1]));
        }
    }
    assert forall|i: int, j: int| 0 <= i < j < all.len() implies #[trigger] all[i]
        != #[trigger] all[j] by {
        if i > 0 {
            assert(without(codes, code)[i - 1] != without(codes, code)[j - 1]);
        }
    }
}

/// Whatever was stored, what is read is a list of codes.
pub proof fn law_deduplicated_is_code_list(codes: Seq<Seq<char>>, n: nat)
    ensures
        is_code_list(deduplicated(codes, n)),
    decreases n,
{
    if n > 0 && n <= codes.len() {
        law_deduplicated_is_code_list(codes, (n - 1) as nat);
        let kept = deduplicated(codes, (n - 1) as nat);
        let clean = text::trim(codes[n - 1]);
        if !(clean.len() <= 6 || kept.contains(clean) || kept.len() >= 5) {
            let all = kept.push(clean);
            assert forall|i: int, j: int| 0 <= i < j < all.len() implies #[trigger] all[i]
                != #[trigger] all[j] by {
                if j == kept.len() {
                    assert(kept[i] != clean);
                }
            }
        }
    }
}

/// Keeps the first five different codes of more than six characters.
pub fn dedup_codes(codes: &Vec<String>) -> (r: Vec<String>)
    ensures
        lines_view(r@) == deduplicated(lines_view(codes@), codes@.len()),
        is_code_list(lines_view(r@)),
{
    let ghost all = lines_view(codes@);
    let mut out: Vec<String> = Vec::new();
    let mut i: usize = 0;
    assert(lines_view(out@) =~= Seq::empty());
    while i < codes.len()
        invariant
            i <= codes.len(),
            all == lines_view(codes@),
            lines_view(out@) == deduplicated(all, i as nat),
        decreases codes.len() - i,
    {
        let clean = trimmed(codes[i].as_str());
        assert(all[i as int] == codes@[i as int]@);
        if text::chars_of(clean.as_str()).len() > 6 && !lists(&out, clean.as_str()) && out.len()
            < 5 {
            let ghost had = out@;
            out.push(clean);
            assert(lines_view(out@) =~= lines_view(had).push(clean@));
        }
        i += 1;
    }
    proof {
        law_deduplicated_is_code_list(all, codes@.len());
    }
    out
}

fn lists(codes: &Vec<String>, code: &str) -> (r: bool)
    ensures
        r == lines_view(codes@).contains(code@),
{
    let ghost all = lines_view(codes@);
    let mut i: usize = 0;
    while i < codes.len()
        invariant
            i <= codes.len(),
            all == lines_view(codes@),
            forall|j: int| 0 <= j < i ==> #[trigger] all[j] != code@,
        decreases codes.len() - i,
    {
        assert(all[i as int] == codes@[i as int]@);
        if text::same_str(codes[i].as_str(), code) {
            return true;
        }
        i += 1;
    }
    false
}

/// Puts a code first in a list of codes.
pub fn remember(codes: &mut Vec<String>, code: &str)
    ensures
        lines_view(final(codes)@) == remembered(lines_view(old(codes)@), code@),
{
    let ghost all = lines_view(codes@);
    let mut kept: Vec<String> = Vec::new();
    let mut i: usize = 0;
    assert(lines_view(kept@) =~= Seq::empty());
    assert(all.take(0) =~= Seq::empty());
    while i < codes.len()
        invariant
            i <= codes.len(),
            *codes == *old(codes),
            all == lines_view(codes@),
            lines_view(kept@) == without(all.take(i as int), code@),
        decreases codes.len() - i,
    {
        assert(all[i as int] == codes@[i as int]@);
        assert(all.take(i + 1).drop_last() =~= all.take(i as int));
        if !text::same_str(codes[i].as_str(), code) {
            let ghost had = kept@;
            let copy = owned(codes[i].as_str());
            let ghost c = copy@;
            kept.push(copy);
            assert(lines_view(kept@) =~= lines_view(had).push(c));
        }
        i += 1;
    }
    assert(all.take(all.len() as int) =~= all);
    let ghost rest = lines_view(kept@);
    kept.insert(0, owned(code));
    assert(lines_view(kept@) =~= seq![code@] + rest);
    if kept.len() > 5 {
        let ghost full = kept@;
        kept.truncate(5);
        assert(lines_view(kept@) =~= lines_view(full).take(5));
    }
    *codes = kept;
}

// ── What is prepared ──

pub struct PreferencesModel {
    pub use_custom_code: bool,
    pub croc_code: Seq<char>,
    pub text_mode: bool,
    pub text_value: Seq<char>,
    pub croc_recent: Seq<Seq<char>>,
    pub eazy_recent: Seq<Seq<char>>,
    pub receive_recent: Seq<Seq<char>>,
    /// croc is being updated: its binary may be replaced at any moment.
    pub updating: bool,
}

pub struct WorkspaceModel {
    pub session: SessionModel,
    pub preferences: PreferencesModel,
}

pub type Started = (WorkspaceModel, Seq<EffectModel>);

pub open spec fn warned(w: WorkspaceModel, fx: Seq<EffectModel>, t: Seq<char>) -> Started {
    (w, fx.push(EffectModel::Toast { message: t, severity: Severity::Warning }))
}

/// A transfer that needs croc waits while croc is being updated.
pub open spec fn is_blocked(w: WorkspaceModel) -> bool {
    w.session.tool != SelectedTool::Sendme && w.preferences.updating
}

/// A blocked start: a retry of the combined mode is put off by five seconds, the
/// user is asked to try again.
pub open spec fn blocked(w: WorkspaceModel, fx: Seq<EffectModel>, auto: bool) -> Started {
    if auto && w.session.tool == SelectedTool::EazySendme {
        (
            WorkspaceModel {
                session: SessionModel {
                    eazy: EazyModel {
                        next_retry: Some(binary64::sum(w.session.now, binary64::whole(5))),
                        ..w.session.eazy
                    },
                    ..w.session
                },
                ..w
            },
            fx,
        )
    } else if !auto {
        warned(w, fx, "croc is updating itself, try again in a moment"@)
    } else {
        (w, fx)
    }
}

/// A start by the user begins the count of retries anew.
pub open spec fn counted_anew(w: WorkspaceModel, auto: bool) -> WorkspaceModel {
    if auto {
        w
    } else {
        WorkspaceModel {
            session: SessionModel {
                eazy: EazyModel { retries: 0, next_retry: None, ..w.session.eazy },
                ..w.session
            },
            ..w
        }
    }
}

pub open spec fn reset_in(w: WorkspaceModel) -> WorkspaceModel {
    WorkspaceModel { session: session::was_reset(w.session), ..w }
}

pub open spec fn after_reset(fx: Seq<EffectModel>) -> Seq<EffectModel> {
    fx.push(EffectModel::CancelTransfer).push(EffectModel::CancelShare)
}

/// A transfer runs.
pub open spec fn runs(w: WorkspaceModel) -> WorkspaceModel {
    WorkspaceModel {
        session: SessionModel {
            state: StateModel::Running,
            start_time: Some(w.session.now),
            ..w.session
        },
        ..w
    }
}

pub open spec fn runs_with_total(w: WorkspaceModel, total: Option<u64>) -> WorkspaceModel {
    let a = runs(w);
    WorkspaceModel {
        session: SessionModel {
            metrics: MetricsModel { total, ..a.session.metrics },
            ..a.session
        },
        ..a
    }
}

/// croc is started to send, under a code where one is chosen.
pub open spec fn croc_send_started(
    w: WorkspaceModel,
    fx: Seq<EffectModel>,
    total: Option<u64>,
    croc_there: bool,
) -> Started {
    let p = w.preferences;
    let code = text::trim(p.croc_code);
    let t = text::trim(p.text_value);
    if !croc_there {
        (w, fx.push(EffectModel::Toast { message: "Croc not found"@, severity: Severity::Error }))
    } else if p.use_custom_code && code.len() == 0 {
        warned(w, fx, "Enter a custom code or switch to random code"@)
    } else if p.use_custom_code && code.len() <= 6 {
        warned(w, fx, "Croc code should be more than 6 characters"@)
    } else {
        let (a, told) = if p.use_custom_code {
            (
                WorkspaceModel {
                    session: SessionModel { code: Some(code), ..w.session },
                    preferences: PreferencesModel {
                        croc_recent: remembered(p.croc_recent, code),
                        ..p
                    },
                },
                fx.push(EffectModel::Persist),
            )
        } else {
            (w, fx)
        };
        if p.text_mode && t.len() == 0 {
            warned(a, told, "Enter text to send in text mode"@)
        } else {
            (
                runs_with_total(a, total),
                told.push(
                    EffectModel::CrocSend {
                        custom_code: if p.use_custom_code {
                            Some(code)
                        } else {
                            None
                        },
                        text: if p.text_mode {
                            Some(t)
                        } else {
                            None
                        },
                    },
                ),
            )
        }
    }
}

/// The combined mode is started to send: sendme serves one receiver, and croc
/// will hand over its ticket.
pub open spec fn eazy_send_started(w: WorkspaceModel, fx: Seq<EffectModel>, total: Option<u64>) -> Started {
    let code = text::trim(w.session.custom_code);
    if code.len() < 7 {
        warned(w, fx, "Code must be at least 7 characters"@)
    } else {
        let a = WorkspaceModel {
            session: SessionModel {
                serve: ServeModel { one_shot: true, ..w.session.serve },
                metrics: MetricsModel { phase: TransferPhase::Preparing, ..w.session.metrics },
                ..w.session
            },
            preferences: PreferencesModel {
                eazy_recent: remembered(w.preferences.eazy_recent, code),
                ..w.preferences
            },
        };
        (
            runs_with_total(a, total),
            fx.push(EffectModel::Persist).push(EffectModel::SendmeSend { one_shot: true }),
        )
    }
}

/// Sending is started. `items` items are chosen, of `total` bytes where all of
/// them are known.
pub open spec fn send_started(
    w: WorkspaceModel,
    fx: Seq<EffectModel>,
    auto: bool,
    items: nat,
    total: Option<u64>,
    croc_there: bool,
) -> Started {
    if is_blocked(w) {
        blocked(w, fx, auto)
    } else {
        let a = counted_anew(w, auto);
        let texting = a.session.tool == SelectedTool::Croc && a.preferences.text_mode;
        if texting && items > 0 {
            warned(a, fx, "Croc text mode cannot send files/folders at the same time"@)
        } else if !texting && items == 0 {
            warned(a, fx, "Add files first"@)
        } else {
            let b = reset_in(a);
            let told = after_reset(fx);
            match b.session.tool {
                SelectedTool::Croc => croc_send_started(b, told, total, croc_there),
                SelectedTool::Sendme => (
                    runs_with_total(b, total),
                    told.push(EffectModel::SendmeSend { one_shot: b.session.serve.one_shot }),
                ),
                SelectedTool::EazySendme => eazy_send_started(b, told, total),
            }
        }
    }
}

/// The line that tells of a ticket that a code stood for before.
pub open spec fn local_note(disk_size: u64) -> Seq<char> {
    if disk_size > 0 {
        "[Local] Found cached blobs ("@ + numerals::decimal(disk_size as nat)
            + " bytes). Verifying local completeness..."@
    } else {
        "[Local] Cached ticket found. Verifying local completeness..."@
    }
}

/// The combined mode is started to receive: with the ticket that the code stood
/// for before, or by croc.
pub open spec fn eazy_receive_started(w: WorkspaceModel, fx: Seq<EffectModel>, disk_size: u64) -> Started {
    let key = text::trim(w.session.receive_code);
    match session::ticket_for(w.session.cache, key) {
        Some(ticket) => {
            let a = WorkspaceModel {
                session: SessionModel {
                    log: w.session.log.push(local_note(disk_size)),
                    eazy: EazyModel {
                        ticket: Some(ticket),
                        local_check: Some(w.session.now),
                        ..w.session.eazy
                    },
                    metrics: MetricsModel {
                        phase: TransferPhase::Transferring,
                        ..w.session.metrics
                    },
                    ..w.session
                },
                ..w
            };
            (runs(a), fx.push(EffectModel::CheckLocal(ticket)))
        },
        None => (
            runs(w),
            fx.push(EffectModel::CrocReceive { code: key, into_chosen: false }),
        ),
    }
}

/// A code is kept among those received with, where it is long enough.
pub open spec fn receive_code_kept(w: WorkspaceModel, fx: Seq<EffectModel>) -> Started {
    let key = text::trim(w.session.receive_code);
    if w.session.tool != SelectedTool::Sendme && key.len() > 6 {
        (
            WorkspaceModel {
                preferences: PreferencesModel {
                    receive_recent: remembered(w.preferences.receive_recent, key),
                    ..w.preferences
                },
                ..w
            },
            fx.push(EffectModel::Persist),
        )
    } else {
        (w, fx)
    }
}

/// Receiving is started. `disk_size` bytes of the ticket that the code stood for
/// before are on the disk.
pub open spec fn receive_started(
    w: WorkspaceModel,
    fx: Seq<EffectModel>,
    auto: bool,
    croc_there: bool,
    disk_size: u64,
) -> Started {
    if is_blocked(w) {
        blocked(w, fx, auto)
    } else {
        let a = counted_anew(w, auto);
        let key = text::trim(a.session.receive_code);
        if key.len() == 0 {
            warned(a, fx, "Enter a code or ticket"@)
        } else {
            let b = reset_in(a);
            let d = WorkspaceModel {
                session: SessionModel { code: Some(key), ..b.session },
                ..b
            };
            let (e, told) = receive_code_kept(d, after_reset(fx));
            if e.session.tool != SelectedTool::Sendme && !croc_there {
                (
                    e,
                    told.push(
                        EffectModel::Toast { message: "Croc not found"@, severity: Severity::Error },
                    ),
                )
            } else {
                match e.session.tool {
                    SelectedTool::Croc => (
                        runs(e),
                        told.push(EffectModel::CrocReceive { code: key, into_chosen: true }),
                    ),
                    SelectedTool::Sendme => (
                        runs(e),
                        told.push(EffectModel::ReceiveTicket(key)),
                    ),
                    SelectedTool::EazySendme => eazy_receive_started(e, told, disk_size),
                }
            }
        }
    }
}

/// A retry that comes by itself in the combined mode, while croc is being updated:
/// it is put off.
pub open spec fn is_put_off(w: WorkspaceModel, auto: bool) -> bool {
    auto && w.session.tool == SelectedTool::EazySendme && w.preferences.updating
}

/// A transfer is forgotten before it is tried again. Where the retry is put off, a
/// failure is kept: it is what the next retry goes by.
pub open spec fn reset_to_retry(w: WorkspaceModel, auto: bool) -> WorkspaceModel {
    let a = reset_in(w);
    if is_put_off(w, auto) && w.session.state is Failed {
        WorkspaceModel { session: SessionModel { state: w.session.state, ..a.session }, ..a }
    } else {
        a
    }
}

/// Sending is tried again.
pub open spec fn send_retried(
    w: WorkspaceModel,
    fx: Seq<EffectModel>,
    auto: bool,
    items: nat,
    total: Option<u64>,
    croc_there: bool,
) -> Started {
    send_started(reset_to_retry(w, auto), after_reset(fx), auto, items, total, croc_there)
}

/// The ticket of the combined mode is kept with its code.
pub open spec fn ticket_kept(w: WorkspaceModel, fx: Seq<EffectModel>, unix_secs: u64) -> Started {
    let key = text::trim(w.session.receive_code);
    match w.session.eazy.ticket {
        Some(ticket) if w.session.tool == SelectedTool::EazySendme && w.session.view
            == AppView::Receive && key.len() > 0 && session::ticket_for(w.session.cache, key)
            != Some(ticket) => (
            WorkspaceModel {
                session: SessionModel {
                    cache: session::with_entry(
                        w.session.cache,
                        EntryModel { code: key, ticket, timestamp: unix_secs },
                    ),
                    ..w.session
                },
                ..w
            },
            fx.push(EffectModel::Persist),
        ),
        _ => (w, fx),
    }
}

/// Receiving is tried again.
pub open spec fn receive_retried(
    w: WorkspaceModel,
    fx: Seq<EffectModel>,
    auto: bool,
    croc_there: bool,
    disk_size: u64,
    unix_secs: u64,
) -> Started {
    let (a, told) = ticket_kept(w, fx, unix_secs);
    receive_started(reset_to_retry(a, auto), after_reset(told), auto, croc_there, disk_size)
}

// ── The state ──

pub struct Preferences {
    pub use_custom_code: bool,
    pub croc_code: String,
    pub text_mode: bool,
    pub text_value: String,
    pub croc_recent: Vec<String>,
    pub eazy_recent: Vec<String>,
    pub receive_recent: Vec<String>,
    pub updating: bool,
}

impl View for Preferences {
    type V = PreferencesModel;

    open spec fn view(&self) -> PreferencesModel {
        PreferencesModel {
            use_custom_code: self.use_custom_code,
            croc_code: self.croc_code@,
            text_mode: self.text_mode,
            text_value: self.text_value@,
            croc_recent: lines_view(self.croc_recent@),
            eazy_recent: lines_view(self.eazy_recent@),
            receive_recent: lines_view(self.receive_recent@),
            updating: self.updating,
        }
    }
}

/// A session and what is prepared for it.
pub struct Workspace {
    pub session: Session,
    pub preferences: Preferences,
}

impl View for Workspace {
    type V = WorkspaceModel;

    open spec fn view(&self) -> WorkspaceModel {
        WorkspaceModel { session: self.session@, preferences: self.preferences@ }
    }
}

fn length(s: &str) -> (r: usize)
    ensures
        r == s@.len(),
{
    text::chars_of(s).len()
}

fn warn(fx: &mut Vec<Effect>, t: &str)
    ensures
        effects(final(fx)@) == effects(old(fx)@).push(
            EffectModel::Toast { message: t@, severity: Severity::Warning },
        ),
{
    ask(fx, Effect::Toast { message: owned(t), severity: Severity::Warning });
}

impl Workspace {
    fn hold_back(&mut self, fx: &mut Vec<Effect>, auto: bool)
        ensures
            (final(self)@, effects(final(fx)@)) == blocked(old(self)@, effects(old(fx)@), auto),
    {
        if auto && self.session.tool == SelectedTool::EazySendme {
            self.session.eazy.next_retry = Some(self.session.now.plus(&Magnitude::from_u64(5)));
        } else if !auto {
            warn(fx, "croc is updating itself, try again in a moment");
        }
    }

    fn count_anew(&mut self, auto: bool)
        ensures
            final(self)@ == counted_anew(old(self)@, auto),
    {
        if !auto {
            self.session.eazy.retries = 0;
            self.session.eazy.next_retry = None;
        }
    }

    fn run(&mut self)
        ensures
            final(self)@ == runs(old(self)@),
    {
        self.session.state = TransferState::Running;
        self.session.start_time = Some(self.session.now);
    }

    fn run_with_total(&mut self, total: Option<u64>)
        ensures
            final(self)@ == runs_with_total(old(self)@, total),
    {
        self.run();
        self.session.metrics.total = total;
    }

    fn start_croc_send(&mut self, fx: &mut Vec<Effect>, total: Option<u64>, croc_there: bool)
        ensures
            (final(self)@, effects(final(fx)@)) == croc_send_started(
                old(self)@,
                effects(old(fx)@),
                total,
                croc_there,
            ),
    {
        if !croc_there {
            ask(
                fx,
                Effect::Toast { message: owned("Croc not found"), severity: Severity::Error },
            );
            return;
        }
        let custom: bool = self.preferences.use_custom_code;
        let code = trimmed(self.preferences.croc_code.as_str());
        if custom {
            if is_blank(code.as_str()) {
                warn(fx, "Enter a custom code or switch to random code");
                return;
            }
            if length(code.as_str()) <= 6 {
                warn(fx, "Croc code should be more than 6 characters");
                return;
            }
            self.session.code = Some(owned(code.as_str()));
            remember(&mut self.preferences.croc_recent, code.as_str());
            ask(fx, Effect::Persist);
        }
        let t = trimmed(self.preferences.text_value.as_str());
        if self.preferences.text_mode && is_blank(t.as_str()) {
            warn(fx, "Enter text to send in text mode");
            return;
        }
        let custom_code = if custom {
            Some(code)
        } else {
            None
        };
        let text = if self.preferences.text_mode {
            Some(t)
        } else {
            None
        };
        ask(fx, Effect::CrocSend { custom_code, text });
        self.run_with_total(total);
    }

    fn start_eazy_send(&mut self, fx: &mut Vec<Effect>, total: Option<u64>)
        ensures
            (final(self)@, effects(final(fx)@)) == eazy_send_started(
                old(self)@,
                effects(old(fx)@),
                total,
            ),
    {
        let code = trimmed(self.session.custom_code.as_str());
        if length(code.as_str()) < 7 {
            warn(fx, "Code must be at least 7 characters");
            return;
        }
        remember(&mut self.preferences.eazy_recent, code.as_str());
        ask(fx, Effect::Persist);
        self.session.serve.one_shot = true;
        self.session.metrics.phase = TransferPhase::Preparing;
        ask(fx, Effect::SendmeSend { one_shot: true });
        self.run_with_total(total);
    }

    /// Starts sending. `items` items are chosen, of `total` bytes where all of
    /// them are known.
    pub fn start_send(
        &mut self,
        fx: &mut Vec<Effect>,
        auto: bool,
        items: usize,
        total: Option<u64>,
        croc_there: bool,
    )
        ensures
            (final(self)@, effects(final(fx)@)) == send_started(
                old(self)@,
                effects(old(fx)@),
                auto,
                items as nat,
                total,
                croc_there,
            ),
    {
        if self.session.tool != SelectedTool::Sendme && self.preferences.updating {
            self.hold_back(fx, auto);
            return;
        }
        self.count_anew(auto);
        let texting: bool = self.session.tool == SelectedTool::Croc && self.preferences.text_mode;
        if texting && items > 0 {
            warn(fx, "Croc text mode cannot send files/folders at the same time");
            return;
        }
        if !texting && items == 0 {
            warn(fx, "Add files first");
            return;
        }
        self.session.reset_transfer(fx);
        match self.session.tool {
            SelectedTool::Croc => {
                self.start_croc_send(fx, total, croc_there);
            },
            SelectedTool::Sendme => {
                ask(fx, Effect::SendmeSend { one_shot: self.session.serve.one_shot });
                self.run_with_total(total);
            },
            SelectedTool::EazySendme => {
                self.start_eazy_send(fx, total);
            },
        }
    }

    /// The ticket that the entered code stood for before.
    pub fn cached_ticket(&self) -> (r: Option<String>)
        ensures
            crate::sendme::string_view(r) == session::ticket_for(
                self@.session.cache,
                text::trim(self@.session.receive_code),
            ),
    {
        let key = trimmed(self.session.receive_code.as_str());
        match self.session.find_entry(key.as_str()) {
            Some(i) => {
                assert(self.session@.cache[i as int] == self.session.cache@[i as int]@);
                Some(owned(self.session.cache[i].ticket.as_str()))
            },
            None => None,
        }
    }

    fn start_eazy_receive(&mut self, fx: &mut Vec<Effect>, disk_size: u64)
        ensures
            (final(self)@, effects(final(fx)@)) == eazy_receive_started(
                old(self)@,
                effects(old(fx)@),
                disk_size,
            ),
    {
        match self.cached_ticket() {
            Some(ticket) => {
                let note = if disk_size > 0 {
                    let mut out = text::chars_of("[Local] Found cached blobs (");
                    numerals::push_decimal(&mut out, disk_size);
                    text::push_text(&mut out, " bytes). Verifying local completeness...");
                    assert(out@ =~= local_note(disk_size));
                    text::string_of(out.as_slice())
                } else {
                    owned("[Local] Cached ticket found. Verifying local completeness...")
                };
                self.session.push_log(note);
                self.session.eazy.ticket = Some(owned(ticket.as_str()));
                ask(fx, Effect::CheckLocal(ticket));
                self.session.eazy.local_check = Some(self.session.now);
                self.session.metrics.phase = TransferPhase::Transferring;
                self.run();
            },
            None => {
                let code = trimmed(self.session.receive_code.as_str());
                ask(fx, Effect::CrocReceive { code, into_chosen: false });
                self.run();
            },
        }
    }

    fn keep_receive_code(&mut self, fx: &mut Vec<Effect>)
        ensures
            (final(self)@, effects(final(fx)@)) == receive_code_kept(
                old(self)@,
                effects(old(fx)@),
            ),
    {
        let key = trimmed(self.session.receive_code.as_str());
        if self.session.tool != SelectedTool::Sendme && length(key.as_str()) > 6 {
            remember(&mut self.preferences.receive_recent, key.as_str());
            ask(fx, Effect::Persist);
        }
    }

    /// Starts receiving. `disk_size` bytes of the ticket that the code stood for
    /// before are on the disk.
    pub fn start_receive(
        &mut self,
        fx: &mut Vec<Effect>,
        auto: bool,
        croc_there: bool,
        disk_size: u64,
    )
        ensures
            (final(self)@, effects(final(fx)@)) == receive_started(
                old(self)@,
                effects(old(fx)@),
                auto,
                croc_there,
                disk_size,
            ),
    {
        if self.session.tool != SelectedTool::Sendme && self.preferences.updating {
            self.hold_back(fx, auto);
            return;
        }
        self.count_anew(auto);
        let key = trimmed(self.session.receive_code.as_str());
        if is_blank(key.as_str()) {
            warn(fx, "Enter a code or ticket");
            return;
        }
        self.session.reset_transfer(fx);
        self.session.code = Some(owned(key.as_str()));
        self.keep_receive_code(fx);
        if self.session.tool != SelectedTool::Sendme && !croc_there {
            ask(
                fx,
                Effect::Toast { message: owned("Croc not found"), severity: Severity::Error },
            );
            return;
        }
        match self.session.tool {
            SelectedTool::Croc => {
                ask(fx, Effect::CrocReceive { code: key, into_chosen: true });
                self.run();
            },
            SelectedTool::Sendme => {
                ask(fx, Effect::ReceiveTicket(key));
                self.run();
            },
            SelectedTool::EazySendme => {
                self.start_eazy_receive(fx, disk_size);
            },
        }
    }

    fn reset_to_retry(&mut self, fx: &mut Vec<Effect>, auto: bool)
        ensures
            final(self)@ == reset_to_retry(old(self)@, auto),
            effects(final(fx)@) == after_reset(effects(old(fx)@)),
    {
        let failure = match &self.session.state {
            TransferState::Failed(e) => if auto && self.session.tool == SelectedTool::EazySendme
                && self.preferences.updating {
                Some(owned(e.as_str()))
            } else {
                None
            },
            _ => None,
        };
        self.session.reset_transfer(fx);
        match failure {
            Some(e) => {
                self.session.state = TransferState::Failed(e);
            },
            None => {},
        }
    }

    /// Tries sending again.
    pub fn retry_send(
        &mut self,
        fx: &mut Vec<Effect>,
        auto: bool,
        items: usize,
        total: Option<u64>,
        croc_there: bool,
    )
        ensures
            (final(self)@, effects(final(fx)@)) == send_retried(
                old(self)@,
                effects(old(fx)@),
                auto,
                items as nat,
                total,
                croc_there,
            ),
    {
        self.reset_to_retry(fx, auto);
        self.start_send(fx, auto, items, total, croc_there);
    }

    fn keep_ticket(&mut self, fx: &mut Vec<Effect>, unix_secs: u64)
        ensures
            (final(self)@, effects(final(fx)@)) == ticket_kept(
                old(self)@,
                effects(old(fx)@),
                unix_secs,
            ),
    {
        if !(self.session.tool == SelectedTool::EazySendme && self.session.view
            == AppView::Receive) {
            return;
        }
        let key = trimmed(self.session.receive_code.as_str());
        let ticket = match &self.session.eazy.ticket {
            Some(t) => owned(t.as_str()),
            None => {
                return;
            },
        };
        if is_blank(key.as_str()) {
            return;
        }
        let same: bool = match self.cached_ticket() {
            Some(t) => text::same_str(t.as_str(), ticket.as_str()),
            None => false,
        };
        if !same {
            self.session.put_entry(key, ticket, unix_secs);
            ask(fx, Effect::Persist);
        }
    }

    /// Tries receiving again. The time goes with a ticket that is kept.
    pub fn retry_receive(
        &mut self,
        fx: &mut Vec<Effect>,
        auto: bool,
        croc_there: bool,
        disk_size: u64,
        unix_secs: u64,
    )
        ensures
            (final(self)@, effects(final(fx)@)) == receive_retried(
                old(self)@,
                effects(old(fx)@),
                auto,
                croc_there,
                disk_size,
                unix_secs,
            ),
    {
        self.keep_ticket(fx, unix_secs);
        self.reset_to_retry(fx, auto);
        self.start_receive(fx, auto, croc_there, disk_size);
    }
}

} // verus!
