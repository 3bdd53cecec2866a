//! croc's own updates: when they are looked for, and what comes of them.
//!
//! A look for an update, an update and a download of a newer binary run in the
//! background, at most one of them at a time. No look and no download begins while
//! a transfer runs, and no transfer that needs croc begins while one of them is
//! under way. An update begins as soon as a look has found it: a transfer that runs
//! then is one that does not need croc.

use crate::binary64;
use crate::binary64::Magnitude;
use crate::metrics::{seconds_since, time_view};
use crate::sendme::string_view;
use crate::session::Severity;
use crate::text;
use crate::transfer::owned;
use vstd::prelude::*;
use vstd::slice::slice_subrange;

verus! {

#[derive(Clone, Copy, Debug, PartialEq, Eq, Structural)]
pub enum CrocUpdatePhase {
    Idle,
    Checking,
    Updating,
}

/// What `croc update --check` has found.
pub enum CrocUpdateCheck {
    Available { current: String, latest: String },
    UpToDate,
    /// croc belongs to a package manager, and is left alone.
    NotWritable,
    /// croc is too old to update itself.
    Unsupported,
    Unknown { raw: String },
}

/// What `croc update` has done.
pub struct CrocUpdateApplyOutcome {
    pub updated: bool,
    pub already_up_to_date: bool,
    pub not_writable: bool,
    pub needs_redownload: bool,
    pub new_version: Option<String>,
}

pub struct UpdateModel {
    pub phase: CrocUpdatePhase,
    pub check_pending: bool,
    pub apply_pending: bool,
    pub migration_pending: bool,
    pub last_check_at: Option<nat>,
    pub startup_check_done: bool,
}

pub enum UpdateEffectModel {
    Log(Seq<char>),
    Toast { message: Seq<char>, severity: Severity },
    StartCheck,
    StartApply,
    /// The latest binary is downloaded anew.
    StartMigration,
    /// The version that is shown is read again.
    Refresh,
}

/// A state, and what is to be done on the way to it.
pub type Updated = (UpdateModel, Seq<UpdateEffectModel>);

/// Exactly one thing is under way, unless the phase is idle: then none is.
pub open spec fn one_at_a_time(u: UpdateModel) -> bool {
    match u.phase {
        CrocUpdatePhase::Idle => !u.check_pending && !u.apply_pending && !u.migration_pending,
        CrocUpdatePhase::Checking => u.check_pending && !u.apply_pending && !u.migration_pending,
        CrocUpdatePhase::Updating => !u.check_pending && (u.apply_pending != u.migration_pending),
    }
}

/// A look for an update begins, unless something is under way or croc is needed.
pub open spec fn check_started(u: UpdateModel, fx: Seq<UpdateEffectModel>, running: bool, croc_there: bool) -> Updated {
    if u.phase != CrocUpdatePhase::Idle || running || !croc_there {
        (u, fx)
    } else {
        (
            UpdateModel { phase: CrocUpdatePhase::Checking, check_pending: true, ..u },
            fx.push(UpdateEffectModel::StartCheck),
        )
    }
}

/// The user asks for a look.
pub open spec fn check_requested(u: UpdateModel, running: bool, croc_there: bool) -> Updated {
    let (a, fx) = check_started(
        UpdateModel { startup_check_done: true, ..u },
        Seq::empty(),
        running,
        croc_there,
    );
    if a.phase == CrocUpdatePhase::Idle {
        (
            a,
            fx.push(
                UpdateEffectModel::Toast {
                    message: "croc is busy or unavailable"@,
                    severity: Severity::Warning,
                },
            ),
        )
    } else {
        (a, fx)
    }
}

/// Six hours have passed since the last look.
pub open spec fn is_due(u: UpdateModel, now: nat) -> bool {
    u.last_check_at matches Some(t) && now >= t && seconds_since(now, t) >= binary64::whole(21600)
}

/// A look for an update is due when the program has started, and every six hours.
pub open spec fn check_considered(
    u: UpdateModel,
    now: nat,
    running: bool,
    croc_available: bool,
    croc_there: bool,
) -> Updated {
    let fx = Seq::<UpdateEffectModel>::empty();
    if u.phase != CrocUpdatePhase::Idle || u.check_pending || u.apply_pending || u.migration_pending
        || running || !croc_available {
        (u, fx)
    } else if !u.startup_check_done {
        check_started(UpdateModel { startup_check_done: true, ..u }, fx, running, croc_there)
    } else if is_due(u, now) {
        check_started(u, fx, running, croc_there)
    } else {
        (u, fx)
    }
}

/// A binary that is too old is replaced by the latest, where it is this program's own.
pub open spec fn migration_started(u: UpdateModel, fx: Seq<UpdateEffectModel>, running: bool, managed: bool) -> Updated {
    if u.phase != CrocUpdatePhase::Idle || running {
        (u, fx)
    } else if !managed {
        (
            u,
            fx.push(
                UpdateEffectModel::Log(
                    "croc is system-managed and predates self-update; leaving it alone"@,
                ),
            ),
        )
    } else {
        (
            UpdateModel { phase: CrocUpdatePhase::Updating, migration_pending: true, ..u },
            fx.push(UpdateEffectModel::StartMigration),
        )
    }
}

pub open spec fn available_text(current: Seq<char>, latest: Seq<char>) -> Seq<char> {
    "croc update available ("@ + current + " \u{2192} "@ + latest + "), updating\u{2026}"@
}

pub open spec fn head(s: Seq<char>, n: nat) -> Seq<char> {
    if s.len() <= n {
        s
    } else {
        s.take(n as int)
    }
}

/// A look for an update has ended.
pub open spec fn check_ended(
    u: UpdateModel,
    found: Result<CrocUpdateCheck, String>,
    now: nat,
    running: bool,
    managed: bool,
) -> Updated {
    let fx = Seq::<UpdateEffectModel>::empty();
    let a = UpdateModel {
        check_pending: false,
        last_check_at: Some(now),
        phase: CrocUpdatePhase::Idle,
        ..u
    };
    match found {
        Ok(CrocUpdateCheck::Available { current, latest }) => (
            UpdateModel { phase: CrocUpdatePhase::Updating, apply_pending: true, ..a },
            fx.push(UpdateEffectModel::Log(available_text(current@, latest@))).push(
                UpdateEffectModel::Toast {
                    message: available_text(current@, latest@),
                    severity: Severity::Warning,
                },
            ).push(UpdateEffectModel::StartApply),
        ),
        Ok(CrocUpdateCheck::UpToDate) => (a, fx.push(UpdateEffectModel::Refresh)),
        Ok(CrocUpdateCheck::NotWritable) => (a, fx.push(UpdateEffectModel::Refresh)),
        Ok(CrocUpdateCheck::Unsupported) => migration_started(a, fx, running, managed),
        Ok(CrocUpdateCheck::Unknown { raw }) => (
            a,
            fx.push(
                UpdateEffectModel::Log(
                    "croc update check returned unrecognized output: "@ + head(raw@, 120),
                ),
            ),
        ),
        Err(e) => (a, fx.push(UpdateEffectModel::Log("croc update check failed: "@ + e@))),
    }
}

/// The download of a newer binary has ended, with the version that is there now.
pub open spec fn migration_ended(u: UpdateModel, version: Option<Seq<char>>) -> Updated {
    let a = UpdateModel { migration_pending: false, phase: CrocUpdatePhase::Idle, ..u };
    match version {
        Some(v) => (
            a,
            seq![
                UpdateEffectModel::Log("croc migrated to latest ("@ + v + ")"@),
                UpdateEffectModel::Toast {
                    message: "croc updated ("@ + v + ")"@,
                    severity: Severity::Success,
                },
            ],
        ),
        None => (a, seq![UpdateEffectModel::Log("croc migration download failed"@)]),
    }
}

/// What is said of an update that was done.
pub open spec fn updated_text(before: Option<Seq<char>>, after: Option<Seq<char>>) -> Seq<char> {
    match (before, after) {
        (Some(b), Some(a)) if b != a => "croc updated ("@ + b + " \u{2192} "@ + a + ")"@,
        (_, Some(a)) => "croc updated ("@ + a + ")"@,
        _ => "croc updated"@,
    }
}

/// An update has ended. `before` is the version that there was, `detected` the
/// one that the binary reports now.
pub open spec fn apply_ended(
    u: UpdateModel,
    outcome: Result<CrocUpdateApplyOutcome, String>,
    before: Option<Seq<char>>,
    detected: Option<Seq<char>>,
    running: bool,
    managed: bool,
) -> Updated {
    let fx = Seq::<UpdateEffectModel>::empty();
    let a = UpdateModel { apply_pending: false, phase: CrocUpdatePhase::Idle, ..u };
    match outcome {
        Ok(o) => if o.updated {
            let after = match string_view(o.new_version) {
                Some(v) => Some(v),
                None => detected,
            };
            (
                a,
                fx.push(UpdateEffectModel::Refresh).push(
                    UpdateEffectModel::Log(updated_text(before, after)),
                ).push(
                    UpdateEffectModel::Toast {
                        message: updated_text(before, after),
                        severity: Severity::Success,
                    },
                ),
            )
        } else if o.already_up_to_date || o.not_writable || !o.needs_redownload {
            (a, fx.push(UpdateEffectModel::Refresh))
        } else if managed {
            migration_started(
                a,
                fx.push(
                    UpdateEffectModel::Log(
                        "croc self-update refused by platform, migrating via re-download\u{2026}"@,
                    ),
                ),
                running,
                managed,
            )
        } else {
            (
                a,
                fx.push(
                    UpdateEffectModel::Log(
                        "croc self-update refused; leaving system binary alone"@,
                    ),
                ).push(UpdateEffectModel::Refresh),
            )
        },
        Err(e) => (
            a,
            fx.push(UpdateEffectModel::Log("croc update failed: "@ + e@)).push(
                UpdateEffectModel::Toast {
                    message: "croc update failed: "@ + e@,
                    severity: Severity::Warning,
                },
            ),
        ),
    }
}

// ── Laws ──

/// However a look, an update or a download ends, at most one thing is under way.
pub proof fn law_one_phase_at_a_time(
    u: UpdateModel,
    found: Result<CrocUpdateCheck, String>,
    outcome: Result<CrocUpdateApplyOutcome, String>,
    version: Option<Seq<char>>,
    before: Option<Seq<char>>,
    detected: Option<Seq<char>>,
    now: nat,
    running: bool,
    managed: bool,
    croc_available: bool,
    croc_there: bool,
)
    requires
        one_at_a_time(u),
    ensures
        one_at_a_time(check_considered(u, now, running, croc_available, croc_there).0),
        one_at_a_time(check_started(u, Seq::empty(), running, croc_there).0),
        one_at_a_time(check_requested(u, running, croc_there).0),
        u.check_pending ==> one_at_a_time(check_ended(u, found, now, running, managed).0),
        u.migration_pending ==> one_at_a_time(migration_ended(u, version).0),
        u.apply_pending ==> one_at_a_time(
            apply_ended(u, outcome, before, detected, running, managed).0,
        ),
{
}

/// While a transfer runs, no look for an update begins, and no download.
pub proof fn law_no_look_and_no_download_during_a_transfer(
    u: UpdateModel,
    found: Result<CrocUpdateCheck, String>,
    outcome: Result<CrocUpdateApplyOutcome, String>,
    before: Option<Seq<char>>,
    detected: Option<Seq<char>>,
    now: nat,
    managed: bool,
    croc_available: bool,
    croc_there: bool,
)
    ensures
        check_considered(u, now, true, croc_available, croc_there) == (
            u,
            Seq::<UpdateEffectModel>::empty(),
        ),
        check_started(u, Seq::empty(), true, croc_there) == (u, Seq::<UpdateEffectModel>::empty()),
        forall|i: int|
            0 <= i < check_requested(u, true, croc_there).1.len() ==> !(
            #[trigger] check_requested(u, true, croc_there).1[i] is StartCheck),
        forall|i: int|
            0 <= i < check_ended(u, found, now, true, managed).1.len() ==> !(
            #[trigger] check_ended(u, found, now, true, managed).1[i] is StartMigration),
        forall|i: int|
            0 <= i < apply_ended(u, outcome, before, detected, true, managed).1.len() ==> !(
            #[trigger] apply_ended(u, outcome, before, detected, true, managed).1[i]
                is StartMigration),
{
}

/// A binary that is not this program's own is never fetched anew; it may only
/// update itself.
pub proof fn law_foreign_binaries_are_left_alone(
    u: UpdateModel,
    found: Result<CrocUpdateCheck, String>,
    outcome: Result<CrocUpdateApplyOutcome, String>,
    before: Option<Seq<char>>,
    detected: Option<Seq<char>>,
    now: nat,
    running: bool,
)
    ensures
        forall|i: int|
            0 <= i < check_ended(u, found, now, running, false).1.len() ==> !(
            #[trigger] check_ended(u, found, now, running, false).1[i] is StartMigration),
        forall|i: int|
            0 <= i < apply_ended(u, outcome, before, detected, running, false).1.len() ==> !(
            #[trigger] apply_ended(u, outcome, before, detected, running, false).1[i]
                is StartMigration),
{
}

// ── The state ──

pub enum UpdateEffect {
    Log(String),
    Toast { message: String, severity: Severity },
    StartCheck,
    StartApply,
    StartMigration,
    Refresh,
}

impl View for UpdateEffect {
    type V = UpdateEffectModel;

    open spec fn view(&self) -> UpdateEffectModel {
        match *self {
            UpdateEffect::Log(s) => UpdateEffectModel::Log(s@),
            UpdateEffect::Toast { message, severity } => UpdateEffectModel::Toast {
                message: message@,
                severity,
            },
            UpdateEffect::StartCheck => UpdateEffectModel::StartCheck,
            UpdateEffect::StartApply => UpdateEffectModel::StartApply,
            UpdateEffect::StartMigration => UpdateEffectModel::StartMigration,
            UpdateEffect::Refresh => UpdateEffectModel::Refresh,
        }
    }
}

pub open spec fn update_effects(v: Seq<UpdateEffect>) -> Seq<UpdateEffectModel> {
    v.map_values(|e: UpdateEffect| e@)
}

fn tell(fx: &mut Vec<UpdateEffect>, e: UpdateEffect)
    ensures
        update_effects(final(fx)@) == update_effects(old(fx)@).push(e@),
{
    fx.push(e);
    assert(update_effects(fx@) =~= update_effects(old(fx)@).push(e@));
}

/// Where croc's updates stand.
pub struct CrocUpdate {
    phase: CrocUpdatePhase,
    check_pending: bool,
    apply_pending: bool,
    migration_pending: bool,
    last_check_at: Option<Magnitude>,
    startup_check_done: bool,
}

impl View for CrocUpdate {
    type V = UpdateModel;

    closed spec fn view(&self) -> UpdateModel {
        UpdateModel {
            phase: self.phase,
            check_pending: self.check_pending,
            apply_pending: self.apply_pending,
            migration_pending: self.migration_pending,
            last_check_at: time_view(self.last_check_at),
            startup_check_done: self.startup_check_done,
        }
    }
}

fn available_message(current: &str, latest: &str) -> (r: String)
    ensures
        r@ == available_text(current@, latest@),
{
    let mut out = text::chars_of("croc update available (");
    text::push_text(&mut out, current);
    text::push_text(&mut out, " \u{2192} ");
    text::push_text(&mut out, latest);
    text::push_text(&mut out, "), updating\u{2026}");
    assert(out@ =~= available_text(current@, latest@));
    text::string_of(out.as_slice())
}

fn updated_message(before: &Option<String>, after: &Option<String>) -> (r: String)
    ensures
        r@ == updated_text(string_view(*before), string_view(*after)),
{
    match after {
        Some(a) => {
            match before {
                Some(b) => {
                    if !text::same_str(b.as_str(), a.as_str()) {
                        let mut out = text::chars_of("croc updated (");
                        text::push_text(&mut out, b.as_str());
                        text::push_text(&mut out, " \u{2192} ");
                        text::push_text(&mut out, a.as_str());
                        text::push_text(&mut out, ")");
                        return text::string_of(out.as_slice());
                    }
                },
                None => {},
            }
            text::join3("croc updated (", a.as_str(), ")")
        },
        None => owned("croc updated"),
    }
}

impl CrocUpdate {
    pub fn new() -> (r: CrocUpdate)
        ensures
            r@ == (UpdateModel {
                phase: CrocUpdatePhase::Idle,
                check_pending: false,
                apply_pending: false,
                migration_pending: false,
                last_check_at: None,
                startup_check_done: false,
            }),
            one_at_a_time(r@),
    {
        CrocUpdate {
            phase: CrocUpdatePhase::Idle,
            check_pending: false,
            apply_pending: false,
            migration_pending: false,
            last_check_at: None,
            startup_check_done: false,
        }
    }

    pub fn phase(&self) -> (r: CrocUpdatePhase)
        ensures
            r == self@.phase,
    {
        self.phase
    }

    /// A line about what is under way.
    pub fn croc_update_status_line(&self) -> (r: Option<String>)
        ensures
            match self@.phase {
                CrocUpdatePhase::Checking => r matches Some(s) && s@
                    == "croc: checking for updates\u{2026}"@,
                CrocUpdatePhase::Updating => r matches Some(s) && s@ == "croc: updating\u{2026}"@,
                CrocUpdatePhase::Idle => r is None,
            },
    {
        match self.phase {
            CrocUpdatePhase::Checking => Some(owned("croc: checking for updates\u{2026}")),
            CrocUpdatePhase::Updating => Some(owned("croc: updating\u{2026}")),
            CrocUpdatePhase::Idle => None,
        }
    }

    fn begin_check(&mut self, fx: &mut Vec<UpdateEffect>, running: bool, croc_there: bool)
        ensures
            (final(self)@, update_effects(final(fx)@)) == check_started(
                old(self)@,
                update_effects(old(fx)@),
                running,
                croc_there,
            ),
    {
        if self.phase != CrocUpdatePhase::Idle || running || !croc_there {
            return;
        }
        self.check_pending = true;
        self.phase = CrocUpdatePhase::Checking;
        tell(fx, UpdateEffect::StartCheck);
    }

    /// Looks for an update, unless something is under way or croc is needed.
    pub fn start_croc_update_check(&mut self, running: bool, croc_there: bool) -> (r: Vec<
        UpdateEffect,
    >)
        ensures
            (final(self)@, update_effects(r@)) == check_started(
                old(self)@,
                Seq::empty(),
                running,
                croc_there,
            ),
    {
        let mut fx: Vec<UpdateEffect> = Vec::new();
        assert(update_effects(fx@) =~= Seq::empty());
        self.begin_check(&mut fx, running, croc_there);
        fx
    }

    /// Looks for an update on the user's wish, and says so where it cannot.
    pub fn check_on_request(&mut self, running: bool, croc_there: bool) -> (r: Vec<UpdateEffect>)
        ensures
            (final(self)@, update_effects(r@)) == check_requested(old(self)@, running, croc_there),
    {
        let mut fx: Vec<UpdateEffect> = Vec::new();
        assert(update_effects(fx@) =~= Seq::empty());
        self.startup_check_done = true;
        self.begin_check(&mut fx, running, croc_there);
        if self.phase == CrocUpdatePhase::Idle {
            tell(
                &mut fx,
                UpdateEffect::Toast {
                    message: owned("croc is busy or unavailable"),
                    severity: Severity::Warning,
                },
            );
        }
        fx
    }

    /// Looks for an update where it is time to.
    pub fn maybe_trigger_croc_update_check(
        &mut self,
        now: &Magnitude,
        running: bool,
        croc_available: bool,
        croc_there: bool,
    ) -> (r: Vec<UpdateEffect>)
        ensures
            (final(self)@, update_effects(r@)) == check_considered(
                old(self)@,
                now@,
                running,
                croc_available,
                croc_there,
            ),
    {
        let mut fx: Vec<UpdateEffect> = Vec::new();
        assert(update_effects(fx@) =~= Seq::empty());
        if self.phase != CrocUpdatePhase::Idle || self.check_pending || self.apply_pending
            || self.migration_pending || running || !croc_available {
            return fx;
        }
        if !self.startup_check_done {
            self.startup_check_done = true;
            self.begin_check(&mut fx, running, croc_there);
            return fx;
        }
        let due: bool = match self.last_check_at {
            Some(t) => match now.minus(&t) {
                Some(d) => d.reaches(&Magnitude::from_u64(21600)),
                None => false,
            },
            None => false,
        };
        if due {
            self.begin_check(&mut fx, running, croc_there);
        }
        fx
    }

    fn begin_migration(&mut self, fx: &mut Vec<UpdateEffect>, running: bool, managed: bool)
        ensures
            (final(self)@, update_effects(final(fx)@)) == migration_started(
                old(self)@,
                update_effects(old(fx)@),
                running,
                managed,
            ),
    {
        if self.phase != CrocUpdatePhase::Idle || running {
            return;
        }
        if !managed {
            tell(
                fx,
                UpdateEffect::Log(
                    owned("croc is system-managed and predates self-update; leaving it alone"),
                ),
            );
            return;
        }
        self.phase = CrocUpdatePhase::Updating;
        self.migration_pending = true;
        tell(fx, UpdateEffect::StartMigration);
    }

    /// Takes in what a look for an update has found.
    pub fn on_check(
        &mut self,
        found: Result<CrocUpdateCheck, String>,
        now: &Magnitude,
        running: bool,
        managed: bool,
    ) -> (r: Vec<UpdateEffect>)
        ensures
            (final(self)@, update_effects(r@)) == check_ended(
                old(self)@,
                found,
                now@,
                running,
                managed,
            ),
    {
        let mut fx: Vec<UpdateEffect> = Vec::new();
        assert(update_effects(fx@) =~= Seq::empty());
        self.check_pending = false;
        self.last_check_at = Some(*now);
        self.phase = CrocUpdatePhase::Idle;
        match found {
            Ok(CrocUpdateCheck::Available { current, latest }) => {
                tell(
                    &mut fx,
                    UpdateEffect::Log(available_message(current.as_str(), latest.as_str())),
                );
                tell(
                    &mut fx,
                    UpdateEffect::Toast {
                        message: available_message(current.as_str(), latest.as_str()),
                        severity: Severity::Warning,
                    },
                );
                self.apply_pending = true;
                self.phase = CrocUpdatePhase::Updating;
                tell(&mut fx, UpdateEffect::StartApply);
            },
            Ok(CrocUpdateCheck::UpToDate) => {
                tell(&mut fx, UpdateEffect::Refresh);
            },
            Ok(CrocUpdateCheck::NotWritable) => {
                tell(&mut fx, UpdateEffect::Refresh);
            },
            Ok(CrocUpdateCheck::Unsupported) => {
                self.begin_migration(&mut fx, running, managed);
            },
            Ok(CrocUpdateCheck::Unknown { raw }) => {
                let chars = text::chars_of(raw.as_str());
                let s = chars.as_slice();
                let snippet = if s.len() <= 120 {
                    s
                } else {
                    slice_subrange(s, 0, 120)
                };
                assert(snippet@ =~= head(raw@, 120));
                let mut line = text::chars_of("croc update check returned unrecognized output: ");
                text::push_slice(&mut line, snippet);
                tell(&mut fx, UpdateEffect::Log(text::string_of(line.as_slice())));
            },
            Err(e) => {
                tell(&mut fx, UpdateEffect::Log(text::join2("croc update check failed: ", e.as_str())));
            },
        }
        fx
    }

    /// A look for an update was lost.
    pub fn on_check_lost(&mut self)
        ensures
            final(self)@ == (UpdateModel {
                check_pending: false,
                phase: CrocUpdatePhase::Idle,
                ..old(self)@
            }),
    {
        self.check_pending = false;
        self.phase = CrocUpdatePhase::Idle;
    }

    /// Takes in the end of a download, with the version that is there now.
    pub fn on_migration(&mut self, version: Option<String>) -> (r: Vec<UpdateEffect>)
        ensures
            (final(self)@, update_effects(r@)) == migration_ended(
                old(self)@,
                string_view(version),
            ),
    {
        let mut fx: Vec<UpdateEffect> = Vec::new();
        assert(update_effects(fx@) =~= Seq::empty());
        self.migration_pending = false;
        self.phase = CrocUpdatePhase::Idle;
        match version {
            Some(v) => {
                tell(
                    &mut fx,
                    UpdateEffect::Log(text::join3("croc migrated to latest (", v.as_str(), ")")),
                );
                tell(
                    &mut fx,
                    UpdateEffect::Toast {
                        message: text::join3("croc updated (", v.as_str(), ")"),
                        severity: Severity::Success,
                    },
                );
            },
            None => {
                tell(&mut fx, UpdateEffect::Log(owned("croc migration download failed")));
            },
        }
        assert(update_effects(fx@) =~= migration_ended(old(self)@, string_view(version)).1);
        fx
    }

    /// A download was lost.
    pub fn on_migration_lost(&mut self)
        ensures
            final(self)@ == (UpdateModel {
                migration_pending: false,
                phase: CrocUpdatePhase::Idle,
                ..old(self)@
            }),
    {
        self.migration_pending = false;
        self.phase = CrocUpdatePhase::Idle;
    }

    /// Takes in what an update has done. `before` is the version that there was,
    /// `detected` the one that the binary reports now.
    pub fn on_apply(
        &mut self,
        outcome: Result<CrocUpdateApplyOutcome, String>,
        before: Option<String>,
        detected: Option<String>,
        running: bool,
        managed: bool,
    ) -> (r: Vec<UpdateEffect>)
        ensures
            (final(self)@, update_effects(r@)) == apply_ended(
                old(self)@,
                outcome,
                string_view(before),
                string_view(detected),
                running,
                managed,
            ),
    {
        let mut fx: Vec<UpdateEffect> = Vec::new();
        assert(update_effects(fx@) =~= Seq::empty());
        self.apply_pending = false;
        self.phase = CrocUpdatePhase::Idle;
        match outcome {
            Ok(o) => {
                if o.updated {
                    let after = match o.new_version {
                        Some(v) => Some(v),
                        None => detected,
                    };
                    tell(&mut fx, UpdateEffect::Refresh);
                    tell(&mut fx, UpdateEffect::Log(updated_message(&before, &after)));
                    tell(
                        &mut fx,
                        UpdateEffect::Toast {
                            message: updated_message(&before, &after),
                            severity: Severity::Success,
                        },
                    );
                } else if o.already_up_to_date || o.not_writable || !o.needs_redownload {
                    tell(&mut fx, UpdateEffect::Refresh);
                } else if managed {
                    tell(
                        &mut fx,
                        UpdateEffect::Log(
                            owned(
                                "croc self-update refused by platform, migrating via re-download\u{2026}",
                            ),
                        ),
                    );
                    self.begin_migration(&mut fx, running, managed);
                } else {
                    tell(
                        &mut fx,
                        UpdateEffect::Log(
                            owned("croc self-update refused; leaving system binary alone"),
                        ),
                    );
                    tell(&mut fx, UpdateEffect::Refresh);
                }
            },
            Err(e) => {
                tell(&mut fx, UpdateEffect::Log(text::join2("croc update failed: ", e.as_str())));
                tell(
                    &mut fx,
                    UpdateEffect::Toast {
                        message: text::join2("croc update failed: ", e.as_str()),
                        severity: Severity::Warning,
                    },
                );
            },
        }
        fx
    }

    /// An update was lost.
    pub fn on_apply_lost(&mut self)
        ensures
            final(self)@ == (UpdateModel {
                apply_pending: false,
                phase: CrocUpdatePhase::Idle,
                ..old(self)@
            }),
    {
        self.apply_pending = false;
        self.phase = CrocUpdatePhase::Idle;
    }
}

} // verus!
