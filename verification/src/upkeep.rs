//! What keeps the program going: croc's updates, the tools, what is stored, and what is
//! left behind.

use crate::binary64;
use crate::binary64::whole;
use crate::cleanup;
use crate::cleanup::ScanModel;
use crate::desk::DeskModel;
use crate::home;
use crate::metrics;
use crate::pictures;
use crate::session::{EntryModel, Severity};
use crate::settings;
use crate::settings::{BlobDir, ChoicesModel, SendmeBlobDirMode, SettingsModel};
use crate::state::SelectedTool;
use crate::text;
use crate::tools;
use crate::tools::{StatusModel, Tool};
use crate::update;
use crate::update::{
    CrocUpdateApplyOutcome, CrocUpdateCheck, CrocUpdatePhase, UpdateEffectModel, UpdateModel,
};
use vstd::prelude::*;

verus! {

// ── croc's updates ──

/// A look for an update begins when the program has started, and again six hours after
/// the last: then and not before. Nothing is begun while anything is under way, while a
/// transfer runs, or where croc is not there.
pub proof fn law_updates_are_looked_for_every_six_hours(
    u: UpdateModel,
    now: nat,
    running: bool,
    available: bool,
    there: bool,
    last: nat,
    secs: nat,
)
    requires
        update::one_at_a_time(u),
        u.last_check_at == Some(last),
        now == last + whole(secs),
        secs < 0x10_0000_0000_0000,
    ensures
        ({
            let (t, fx) = update::check_considered(u, now, running, available, there);
            let may = u.phase == CrocUpdatePhase::Idle && !running && available && there;
            let due = !u.startup_check_done || secs >= 6 * 60 * 60;
            &&& may && due ==> fx == seq![UpdateEffectModel::StartCheck] && t.phase
                == CrocUpdatePhase::Checking && t.check_pending && t.startup_check_done
            &&& !(may && due) ==> fx.len() == 0 && t.phase == u.phase && t.check_pending
                == u.check_pending
            &&& t.last_check_at == u.last_check_at
        }),
{
    binary64::law_whole_numbers_are_computed_exactly(secs, 0);
    binary64::law_whole_is_exact(secs);
    binary64::law_whole_is_exact(21600);
    binary64::law_whole_is_exact(0);
    assert(metrics::seconds_since(now, last) == binary64::sum(whole(secs), whole(0)));
    assert(secs >= 21600 ==> secs * binary64::one() >= 21600 * binary64::one())
        by (nonlinear_arith);
    assert(secs < 21600 ==> secs * binary64::one() < 21600 * binary64::one()) by (nonlinear_arith)
        requires
            binary64::one() > 0,
    ;
    assert(Seq::<UpdateEffectModel>::empty().push(UpdateEffectModel::StartCheck) =~= seq![
        UpdateEffectModel::StartCheck,
    ]);
}

/// The first look comes as soon as the program has started and croc is there.
pub proof fn law_the_first_look_comes_at_the_start(u: UpdateModel, now: nat)
    requires
        update::one_at_a_time(u),
        u.phase == CrocUpdatePhase::Idle,
    ensures
        !u.startup_check_done ==> update::check_considered(u, now, false, true, true).1 == seq![
            UpdateEffectModel::StartCheck,
        ],
        u.startup_check_done && u.last_check_at is None ==> update::check_considered(
            u,
            now,
            false,
            true,
            true,
        ).1.len() == 0,
{
    assert(Seq::<UpdateEffectModel>::empty().push(UpdateEffectModel::StartCheck) =~= seq![
        UpdateEffectModel::StartCheck,
    ]);
}

/// A look that the user asks for begins at once, where nothing stands in its way; where
/// nothing can be begun, the user is told so.
pub proof fn law_requested_looks_begin_or_are_refused(u: UpdateModel, running: bool, there: bool)
    requires
        update::one_at_a_time(u),
        u.phase == CrocUpdatePhase::Idle,
    ensures
        ({
            let (t, fx) = update::check_requested(u, running, there);
            &&& !running && there ==> fx == seq![UpdateEffectModel::StartCheck] && t.phase
                == CrocUpdatePhase::Checking
            &&& running || !there ==> t.phase == CrocUpdatePhase::Idle && fx == seq![
                UpdateEffectModel::Toast {
                    message: "croc is busy or unavailable"@,
                    severity: Severity::Warning,
                },
            ]
        }),
{
    let (t, fx) = update::check_requested(u, running, there);
    assert(fx =~= seq![fx[0]]);
}

/// An update that was found is applied at once, and the user reads from which version
/// to which. Where there is none, nothing is begun. When the look ended is remembered
/// either way.
pub proof fn law_found_updates_are_applied(
    u: UpdateModel,
    found: Result<CrocUpdateCheck, String>,
    now: nat,
    running: bool,
    managed: bool,
)
    requires
        u.check_pending,
        update::one_at_a_time(u),
    ensures
        ({
            let (t, fx) = update::check_ended(u, found, now, running, managed);
            &&& t.last_check_at == Some(now)
            &&& !t.check_pending
            &&& (found matches Ok(CrocUpdateCheck::Available { current, latest }) ==> {
                &&& t.phase == CrocUpdatePhase::Updating
                &&& t.apply_pending
                &&& fx.len() > 0
                &&& fx.last() is StartApply
                &&& fx.contains(
                    UpdateEffectModel::Toast {
                        message: "croc update available ("@ + current@ + " \u{2192} "@ + latest@
                            + "), updating\u{2026}"@,
                        severity: Severity::Warning,
                    },
                )
            })
            &&& (found matches Ok(CrocUpdateCheck::UpToDate) ==> t.phase == CrocUpdatePhase::Idle
                && fx == seq![UpdateEffectModel::Refresh])
            &&& (found matches Ok(CrocUpdateCheck::Unsupported) && managed && !running ==> t.phase
                == CrocUpdatePhase::Updating && t.migration_pending && fx == seq![
                UpdateEffectModel::StartMigration,
            ])
            &&& (found is Err ==> t.phase == CrocUpdatePhase::Idle && !t.apply_pending
                && !t.migration_pending)
        }),
{
    let (t, fx) = update::check_ended(u, found, now, running, managed);
    if let Ok(CrocUpdateCheck::Available { current, latest }) = found {
        assert(fx[1] == UpdateEffectModel::Toast {
            message: "croc update available ("@ + current@ + " \u{2192} "@ + latest@
                + "), updating\u{2026}"@,
            severity: Severity::Warning,
        });
    }
    if let Ok(CrocUpdateCheck::UpToDate) = found {
        assert(fx =~= seq![UpdateEffectModel::Refresh]);
    }
    if let Ok(CrocUpdateCheck::Unsupported) = found {
        if managed && !running {
            assert(fx =~= seq![UpdateEffectModel::StartMigration]);
        }
    }
}

/// An update that was applied is reported, with the version before and the one after
/// where they differ; one that failed is reported with its reason. Then nothing is under
/// way, unless the binary has to be fetched anew.
pub proof fn law_applied_updates_are_reported(
    u: UpdateModel,
    outcome: Result<CrocUpdateApplyOutcome, String>,
    before: Seq<char>,
    after: Seq<char>,
    running: bool,
    managed: bool,
)
    requires
        u.apply_pending,
        update::one_at_a_time(u),
    ensures
        ({
            let (t, fx) = update::apply_ended(
                u,
                outcome,
                Some(before),
                Some(after),
                running,
                managed,
            );
            &&& !t.apply_pending
            &&& (outcome matches Ok(o) && o.updated && o.new_version is None && before != after ==> {
                &&& t.phase == CrocUpdatePhase::Idle
                &&& fx.contains(UpdateEffectModel::Refresh)
                &&& fx.len() > 0
                &&& fx.last() == UpdateEffectModel::Toast {
                    message: "croc updated ("@ + before + " \u{2192} "@ + after + ")"@,
                    severity: Severity::Success,
                }
            })
            &&& (outcome matches Ok(o) && o.updated && o.new_version is None && before == after ==> fx.len()
                > 0 && fx.last() == UpdateEffectModel::Toast {
                message: "croc updated ("@ + after + ")"@,
                severity: Severity::Success,
            })
            &&& (outcome matches Err(e) ==> t.phase == CrocUpdatePhase::Idle && fx.len() > 0
                && fx.last() == UpdateEffectModel::Toast {
                message: "croc update failed: "@ + e@,
                severity: Severity::Warning,
            })
            &&& (outcome matches Ok(o) && !o.updated && !o.already_up_to_date && !o.not_writable
                && o.needs_redownload && managed && !running ==> t.phase
                == CrocUpdatePhase::Updating && fx.len() > 0 && fx.last() is StartMigration)
        }),
{
    let (t, fx) = update::apply_ended(u, outcome, Some(before), Some(after), running, managed);
    if let Ok(o) = outcome {
        if o.updated {
            assert(fx[0] == UpdateEffectModel::Refresh);
        }
    }
}

/// A binary that was fetched anew is reported with its version; one that was not is not.
pub proof fn law_fetched_binaries_are_reported(u: UpdateModel, version: Option<Seq<char>>)
    ensures
        ({
            let (t, fx) = update::migration_ended(u, version);
            &&& t.phase == CrocUpdatePhase::Idle
            &&& !t.migration_pending
            &&& (version matches Some(v) ==> fx.len() > 0 && fx.last()
                == UpdateEffectModel::Toast {
                message: "croc updated ("@ + v + ")"@,
                severity: Severity::Success,
            })
            &&& version is None ==> forall|i: int|
                0 <= i < fx.len() ==> !(#[trigger] fx[i] is Toast)
        }),
{
}

// ── The tools ──

/// The asset at `i` is the first that is meant for `marker`.
pub open spec fn is_first_for(names: Seq<Seq<char>>, prefix: Seq<char>, marker: Seq<char>, i: int) -> bool {
    &&& 0 <= i < names.len()
    &&& is_for(names[i], prefix, marker)
    &&& forall|j: int| 0 <= j < i ==> !is_for(#[trigger] names[j], prefix, marker)
}

/// An asset that is meant for a platform by its mark, and can be opened.
pub open spec fn is_for(name: Seq<char>, prefix: Seq<char>, marker: Seq<char>) -> bool {
    &&& prefix.is_prefix_of(name)
    &&& exists|k: int| text::stands_at(name, marker, k)
    &&& ".tar.gz"@.is_suffix_of(name) || ".zip"@.is_suffix_of(name)
}

proof fn lemma_first_asset(
    names: Seq<Seq<char>>,
    prefix: Seq<char>,
    marker: Seq<char>,
    from: nat,
    i: int,
)
    requires
        from <= i,
        is_first_for(names, prefix, marker, i),
    ensures
        tools::asset_from(names, prefix, marker, from) == Some(i as nat),
    decreases i - from,
{
    assert(tools::fits(names[i], prefix, marker));
    if from < i {
        assert(!is_for(names[from as int], prefix, marker));
        lemma_first_asset(names, prefix, marker, from + 1, i);
    }
}

proof fn lemma_no_asset(names: Seq<Seq<char>>, prefix: Seq<char>, marker: Seq<char>, from: nat)
    requires
        forall|j: int| 0 <= j < names.len() ==> !is_for(#[trigger] names[j], prefix, marker),
    ensures
        tools::asset_from(names, prefix, marker, from) is None,
    decreases names.len() - from,
{
    if from < names.len() {
        assert(!is_for(names[from as int], prefix, marker));
        lemma_no_asset(names, prefix, marker, from + 1);
    }
}

/// A platform and the mark that croc's and sendme's assets for it bear.
pub open spec fn marks() -> Seq<(Seq<char>, Seq<char>, Seq<char>, Option<Seq<char>>)> {
    seq![
        ("linux"@, "x86_64"@, "Linux-64bit"@, Some("-linux-x86_64"@)),
        ("linux"@, "aarch64"@, "Linux-ARM64"@, Some("-linux-aarch64"@)),
        ("linux"@, "arm"@, "Linux-ARM"@, None),
        ("macos"@, "x86_64"@, "macOS-64bit"@, Some("-darwin-x86_64"@)),
        ("macos"@, "aarch64"@, "macOS-ARM64"@, Some("-darwin-aarch64"@)),
        ("windows"@, "x86_64"@, "Windows-64bit"@, Some("-windows-x86_64"@)),
        ("windows"@, "aarch64"@, "Windows-ARM64"@, Some("-windows-aarch64"@)),
        ("windows"@, "arm"@, "Windows-ARM"@, None),
    ]
}

/// On every platform the first asset with the platform's own mark is the one that is
/// fetched.
pub proof fn law_assets_are_for_the_platform(names: Seq<Seq<char>>, k: int, i: int)
    requires
        0 <= k < 8,
    ensures
        ({
            let (os, arch, croc, sendme) = marks()[k];
            &&& is_first_for(names, "croc_"@, croc, i) ==> tools::release_asset(
                Tool::Croc,
                names,
                os,
                arch,
            ) == Some(i as nat)
            &&& (sendme matches Some(mark) && is_first_for(names, "sendme-"@, mark, i))
                ==> tools::release_asset(Tool::Sendme, names, os, arch) == Some(i as nat)
            &&& sendme is None ==> tools::release_asset(Tool::Sendme, names, os, arch) is None
        }),
{
    let (os, arch, croc, sendme) = marks()[k];
    lemma_platforms_differ();
    if is_first_for(names, "croc_"@, croc, i) {
        lemma_first_asset(names, "croc_"@, croc, 0, i);
    }
    match sendme {
        Some(mark) => {
            if is_first_for(names, "sendme-"@, mark, i) {
                lemma_first_asset(names, "sendme-"@, mark, 0, i);
            }
        },
        None => {},
    }
    assert(marks()[0] == ("linux"@, "x86_64"@, "Linux-64bit"@, Some("-linux-x86_64"@)));
    assert(marks()[1] == ("linux"@, "aarch64"@, "Linux-ARM64"@, Some("-linux-aarch64"@)));
    assert(marks()[2] == ("linux"@, "arm"@, "Linux-ARM"@, None::<Seq<char>>));
    assert(marks()[3] == ("macos"@, "x86_64"@, "macOS-64bit"@, Some("-darwin-x86_64"@)));
    assert(marks()[4] == ("macos"@, "aarch64"@, "macOS-ARM64"@, Some("-darwin-aarch64"@)));
    assert(marks()[5] == ("windows"@, "x86_64"@, "Windows-64bit"@, Some("-windows-x86_64"@)));
    assert(marks()[6] == ("windows"@, "aarch64"@, "Windows-ARM64"@, Some("-windows-aarch64"@)));
    assert(marks()[7] == ("windows"@, "arm"@, "Windows-ARM"@, None::<Seq<char>>));
}

/// Where a release has nothing for an ARM machine, what runs there all the same is
/// fetched; where nothing runs there, nothing is.
pub proof fn law_assets_that_run_are_second_best(names: Seq<Seq<char>>, i: int)
    ensures
        (forall|j: int|
            0 <= j < names.len() ==> !is_for(#[trigger] names[j], "croc_"@, "macOS-ARM64"@))
            && is_first_for(names, "croc_"@, "macOS-64bit"@, i) ==> tools::release_asset(
            Tool::Croc,
            names,
            "macos"@,
            "aarch64"@,
        ) == Some(i as nat),
        (forall|j: int|
            0 <= j < names.len() ==> !is_for(#[trigger] names[j], "croc_"@, "Windows-ARM64"@))
            && is_first_for(names, "croc_"@, "Windows-64bit"@, i) ==> tools::release_asset(
            Tool::Croc,
            names,
            "windows"@,
            "aarch64"@,
        ) == Some(i as nat),
        (forall|j: int|
            0 <= j < names.len() ==> !is_for(
                #[trigger] names[j],
                "sendme-"@,
                "-windows-aarch64"@,
            )) && is_first_for(names, "sendme-"@, "-windows-x86_64"@, i) ==> tools::release_asset(
            Tool::Sendme,
            names,
            "windows"@,
            "aarch64"@,
        ) == Some(i as nat),
        (forall|j: int|
            0 <= j < names.len() ==> !is_for(#[trigger] names[j], "croc_"@, "Linux-64bit"@))
            ==> tools::release_asset(Tool::Croc, names, "linux"@, "x86_64"@) is None,
{
    lemma_platforms_differ();
    if (forall|j: int|
        0 <= j < names.len() ==> !is_for(#[trigger] names[j], "croc_"@, "macOS-ARM64"@))
        && is_first_for(names, "croc_"@, "macOS-64bit"@, i) {
        lemma_no_asset(names, "croc_"@, "macOS-ARM64"@, 0);
        lemma_first_asset(names, "croc_"@, "macOS-64bit"@, 0, i);
        lemma_second(names, "croc_"@, "macOS-ARM64"@, "macOS-64bit"@);
    }
    if (forall|j: int|
        0 <= j < names.len() ==> !is_for(#[trigger] names[j], "croc_"@, "Windows-ARM64"@))
        && is_first_for(names, "croc_"@, "Windows-64bit"@, i) {
        lemma_no_asset(names, "croc_"@, "Windows-ARM64"@, 0);
        lemma_first_asset(names, "croc_"@, "Windows-64bit"@, 0, i);
        lemma_second(names, "croc_"@, "Windows-ARM64"@, "Windows-64bit"@);
    }
    if (forall|j: int|
        0 <= j < names.len() ==> !is_for(#[trigger] names[j], "sendme-"@, "-windows-aarch64"@))
        && is_first_for(names, "sendme-"@, "-windows-x86_64"@, i) {
        lemma_no_asset(names, "sendme-"@, "-windows-aarch64"@, 0);
        lemma_first_asset(names, "sendme-"@, "-windows-x86_64"@, 0, i);
        lemma_second(names, "sendme-"@, "-windows-aarch64"@, "-windows-x86_64"@);
    }
    if forall|j: int|
        0 <= j < names.len() ==> !is_for(#[trigger] names[j], "croc_"@, "Linux-64bit"@) {
        lemma_no_asset(names, "croc_"@, "Linux-64bit"@, 0);
        assert(tools::asset_by_markers(names, "croc_"@, seq!["Linux-64bit"@], 1) is None);
    }
}

proof fn lemma_second(names: Seq<Seq<char>>, prefix: Seq<char>, a: Seq<char>, b: Seq<char>)
    requires
        tools::asset_from(names, prefix, a, 0) is None,
    ensures
        tools::asset_by_markers(names, prefix, seq![a, b], 0) == tools::asset_from(
            names,
            prefix,
            b,
            0,
        ),
{
    reveal_with_fuel(tools::asset_by_markers, 3);
}

proof fn lemma_platforms_differ()
    ensures
        "linux"@ != "macos"@ && "linux"@ != "windows"@ && "macos"@ != "windows"@,
        "x86_64"@ != "aarch64"@ && "x86_64"@ != "arm"@ && "aarch64"@ != "arm"@,
{
    reveal_strlit("linux");
    reveal_strlit("macos");
    reveal_strlit("windows");
    reveal_strlit("x86_64");
    reveal_strlit("aarch64");
    reveal_strlit("arm");
    assert("linux"@[0] != "macos"@[0]);
    assert("windows"@.len() == 7 && "linux"@.len() == 5 && "macos"@.len() == 5);
    assert("x86_64"@.len() == 6 && "aarch64"@.len() == 7 && "arm"@.len() == 3);
}

/// A binary is called as its tool is, with the ending that Windows asks for.
pub proof fn law_binaries_are_named_after_their_tool()
    ensures
        tools::binary_name(Tool::Croc, false) == "croc"@,
        tools::binary_name(Tool::Croc, true) == "croc"@ + ".exe"@,
        tools::binary_name(Tool::Sendme, false) == "sendme"@,
        tools::binary_name(Tool::Sendme, true) == "sendme"@ + ".exe"@,
        tools::repo(Tool::Croc) == "schollz/croc"@,
        tools::repo(Tool::Sendme) == "n0-computer/sendme"@,
{
}

/// A text that is quoted has each of its quotes twice, and is otherwise as it was.
pub proof fn law_only_quotes_are_doubled(a: Seq<char>, b: Seq<char>, c: char)
    ensures
        tools::quoted(a + b) == tools::quoted(a) + tools::quoted(b),
        c != '\'' ==> tools::quoted(seq![c]) == seq![c],
        tools::quoted(seq!['\'']) == seq!['\'', '\''],
        tools::quoted(Seq::empty()) == Seq::<char>::empty(),
    decreases b.len(),
{
    assert(tools::quoted(Seq::<char>::empty()) =~= Seq::empty());
    assert(seq![c].drop_last() =~= Seq::empty());
    assert(seq!['\''].drop_last() =~= Seq::empty());
    assert(Seq::<char>::empty().push(c) =~= seq![c]);
    assert(Seq::<char>::empty().push('\'').push('\'') =~= seq!['\'', '\'']);
    if b.len() > 0 {
        assert((a + b).last() == b.last());
        assert((a + b).drop_last() =~= a + b.drop_last());
        law_only_quotes_are_doubled(a, b.drop_last(), c);
        let x = tools::quoted(a);
        let y = tools::quoted(b.drop_last());
        assert((x + y).push('\'').push('\'') =~= x + y.push('\'').push('\''));
        assert((x + y).push(b.last()) =~= x + y.push(b.last()));
    } else {
        assert(a + b =~= a);
        assert(tools::quoted(a) + tools::quoted(b) =~= tools::quoted(a));
    }
}

/// The version of a package is the one that its section gives, whatever other sections
/// give.
pub proof fn law_the_package_gives_its_version(
    pre: Seq<Seq<char>>,
    between: Seq<Seq<char>>,
    v: Seq<char>,
    rest: Seq<Seq<char>>,
)
    requires
        forall|i: int|
            0 <= i < pre.len() ==> !(tools::manifest_line(#[trigger] pre[i])
                is Section),
        forall|i: int| 0 <= i < between.len() ==> tools::manifest_line(#[trigger] between[i]) is Other,
        v.len() > 0,
        !v.contains('"'),
    ensures
        tools::version_from(
            pre + seq!["[package]"@] + between + seq!["version = \""@ + v + "\""@] + rest,
            0,
            false,
        ) == Some(v),
{
    let line = "version = \""@ + v + "\""@;
    let lines = pre + seq!["[package]"@] + between + seq![line] + rest;
    lemma_version_line(v);
    lemma_package_line();
    lemma_version_skips(lines, 0, pre.len(), false);
    assert(lines[pre.len() as int] == "[package]"@);
    lemma_version_skips_others(lines, pre.len() + 1, pre.len() + 1 + between.len());
    assert(lines[pre.len() as int + 1 + between.len()] == line);
}

proof fn lemma_version_skips(lines: Seq<Seq<char>>, i: nat, to: nat, inside: bool)
    requires
        i <= to <= lines.len(),
        !inside,
        forall|j: int|
            i <= j < to ==> !(tools::manifest_line(#[trigger] lines[j]) is Section),
    ensures
        tools::version_from(lines, i, inside) == tools::version_from(lines, to, inside),
    decreases to - i,
{
    if i < to {
        assert(!(tools::manifest_line(lines[i as int]) is Section));
        lemma_version_skips(lines, i + 1, to, inside);
    }
}

proof fn lemma_version_skips_others(lines: Seq<Seq<char>>, i: nat, to: nat)
    requires
        i <= to <= lines.len(),
        forall|j: int| i <= j < to ==> tools::manifest_line(#[trigger] lines[j]) is Other,
    ensures
        tools::version_from(lines, i, true) == tools::version_from(lines, to, true),
    decreases to - i,
{
    if i < to {
        assert(tools::manifest_line(lines[i as int]) is Other);
        lemma_version_skips_others(lines, i + 1, to);
    }
}

proof fn lemma_package_line()
    ensures
        tools::manifest_line("[package]"@) == (tools::ManifestLine::Section { package: true }),
{
    reveal_strlit("[package]");
    reveal_strlit("[");
    text::lemma_trim_keeps("[package]"@);
    assert("[package]"@.take(1) =~= "["@);
}

proof fn lemma_version_line(v: Seq<char>)
    requires
        v.len() > 0,
        !v.contains('"'),
    ensures
        tools::manifest_line("version = \""@ + v + "\""@) == tools::ManifestLine::Version(v),
{
    reveal_strlit("version = \"");
    reveal_strlit("version");
    reveal_strlit("\"");
    reveal_strlit("[");
    reveal_strlit("#");
    reveal_strlit("=");
    let line = "version = \""@ + v + "\""@;
    let key = "version"@ + seq![' '];
    let value = seq![' '] + (seq!['"'] + v + seq!['"']);
    assert(line[0] == 'v' && line.last() == '"');
    text::lemma_trim_keeps(line);
    assert(!"["@.is_prefix_of(line)) by {
        assert("["@[0] != line[0]);
    }
    assert(!"#"@.is_prefix_of(line)) by {
        assert("#"@[0] != line[0]);
    }
    assert(line =~= key + seq!['='] + value);
    assert("="@ =~= seq!['=']);
    assert(!key.contains('='));
    text::law_split_at_the_first(key, '=', value);
    let quoted = seq!['"'] + v + seq!['"'];
    text::lemma_trim_drops_first(value);
    assert(value.skip(1) =~= quoted);
    text::lemma_trim_keeps(quoted);
    text::lemma_trim_drops_last(key);
    assert(key.drop_last() =~= "version"@);
    text::lemma_trim_keeps("version"@);
    lemma_unquoted(v);
}

proof fn lemma_unquoted(v: Seq<char>)
    requires
        v.len() > 0,
        !v.contains('"'),
    ensures
        text::trim_of(seq!['"'] + v + seq!['"'], seq!['"']) == v,
{
    let q = seq!['"'];
    let s = q + v + q;
    assert(q.contains('"')) by {
        assert(q[0] == '"');
    }
    assert(s.skip(1) =~= v + q);
    assert(!q.contains(v[0])) by {
        assert(v.contains(v[0]));
    }
    assert(!q.contains(v.last())) by {
        assert(v.contains(v.last()));
    }
    assert((v + q)[0] == v[0]);
    assert(text::trim_start_of(v + q, q) == v + q);
    assert(text::trim_start_of(s, q) == v + q);
    assert((v + q).last() == '"');
    assert((v + q).drop_last() =~= v);
    assert(text::trim_end_of(v, q) == v);
}

/// What a binary prints of its version is taken, from its output first, and behind it
/// stands where the binary comes from. The program's own binary comes before the
/// system's.
pub proof fn law_versions_are_what_was_printed(out: Seq<char>, err: Seq<char>, origin: Seq<char>)
    ensures
        text::trim(out).len() > 0 ==> tools::version_label(out, err, origin) == Some(
            text::trim(out) + origin,
        ),
        text::trim(out).len() == 0 && text::trim(err).len() > 0 ==> tools::version_label(
            out,
            err,
            origin,
        ) == Some(text::trim(err) + origin),
        text::trim(out).len() == 0 && text::trim(err).len() == 0 ==> tools::version_label(
            out,
            err,
            origin,
        ) is None,
{
}

/// The program's own binary comes before the system's; where there is neither, the tool
/// is missing. sendme is always there.
pub proof fn law_own_binaries_come_first(
    tool: Tool,
    managed: Option<tools::Probe>,
    system: Option<tools::Probe>,
    version: Option<Seq<char>>,
)
    ensures
        (managed matches Some(p) ==> tools::detected(tool, managed, system).path == Some(p.path@)
            && tools::detected(tool, managed, system).available),
        managed is None ==> (system matches Some(p) ==> tools::detected(
            tool,
            managed,
            system,
        ).path == Some(p.path@) && tools::detected(tool, managed, system).available),
        managed is None && system is None ==> !tools::detected(tool, managed, system).available
            && tools::detected(tool, managed, system).path is None,
        tools::detected(tool, managed, system).tool == tool,
        tools::native_sendme(version).available,
        tools::native_sendme(version).tool == Tool::Sendme,
        tools::native_sendme(version).version == Some(
            match version {
                Some(v) => "sendme "@ + v + " (native)"@,
                None => "sendme (native)"@,
            },
        ),
{
}

/// The program starts in the combined mode where both tools are there, and with what was
/// chosen only where none is.
pub proof fn law_the_combined_mode_comes_first(v: Seq<StatusModel>, chosen: SelectedTool)
    ensures
        tools::is_available(v, Tool::Croc) && tools::is_available(v, Tool::Sendme)
            ==> tools::first_choice(v, chosen) == SelectedTool::EazySendme,
        !tools::is_available(v, Tool::Croc) && tools::is_available(v, Tool::Sendme)
            ==> tools::first_choice(v, chosen) == SelectedTool::Sendme,
        tools::is_available(v, Tool::Croc) && !tools::is_available(v, Tool::Sendme)
            ==> tools::first_choice(v, chosen) == SelectedTool::Croc,
        !tools::is_available(v, Tool::Croc) && !tools::is_available(v, Tool::Sendme)
            ==> tools::first_choice(v, chosen) == chosen,
{
}

// ── The first page ──

/// Every card is there exactly where what it offers is, and says so: the combined mode
/// needs both tools.
pub proof fn law_cards_offer_what_is_there(v: Seq<StatusModel>, selected: SelectedTool, s: StatusModel)
    ensures
        home::cards(v, selected, false).len() == 1,
        home::cards(v, selected, true).len() >= 1,
        home::cards(v, selected, true)[0] == home::cards(v, selected, false)[0],
        home::cards(v, selected, false)[0].tool == SelectedTool::EazySendme,
        home::cards(v, selected, false)[0].available <==> home::is_there(v, Tool::Croc)
            && home::is_there(v, Tool::Sendme),
        home::cards(v, selected, false)[0].status == (if home::is_there(v, Tool::Croc)
            && home::is_there(v, Tool::Sendme) {
            "ok"@
        } else {
            "missing"@
        }),
        home::tool_card(s, selected).available == s.available,
        home::tool_card(s, selected).tool == (match s.tool {
            Tool::Croc => SelectedTool::Croc,
            Tool::Sendme => SelectedTool::Sendme,
        }),
        !s.available ==> home::tool_card(s, selected).status == "missing"@,
        s.available && s.version is Some ==> home::tool_card(s, selected).status == s.version->0,
        s.available && s.version is None ==> home::tool_card(s, selected).status == "ok"@,
{
}

/// A line that speaks of an error is shown as one, whatever else it says; then come
/// warnings, and then successes.
pub proof fn law_errors_are_seen_first(lower: Seq<char>)
    ensures
        text::contains(lower, "error"@) || text::contains(lower, "fail"@) ==> home::tone_of(lower)
            == home::Tone::Error,
        !text::contains(lower, "error"@) && !text::contains(lower, "fail"@) && text::contains(
            lower,
            "warn"@,
        ) ==> home::tone_of(lower) == home::Tone::Warning,
        !text::contains(lower, "error"@) && !text::contains(lower, "fail"@) && !text::contains(
            lower,
            "warn"@,
        ) ==> (home::tone_of(lower) == home::Tone::Success <==> text::contains(lower, "100%"@)
            || text::contains(lower, "complete"@) || text::contains(lower, "done"@)),
{
}

// ── What is stored ──

/// What is stored holds every list, directory and choice as it is; every one of them is
/// taken from where it was stored.
pub proof fn law_everything_is_stored(d: DeskModel, c: ChoicesModel, s: SettingsModel)
    ensures
        ({
            let t = settings::stored(d, c);
            &&& t.croc_recent_codes == d.w.preferences.croc_recent
            &&& t.eazysendme_recent_codes == d.w.preferences.eazy_recent
            &&& t.croc_receive_recent_codes == d.w.preferences.receive_recent
            &&& t.croc_custom_code == d.w.preferences.croc_code
            &&& t.croc_use_custom_code == d.w.preferences.use_custom_code
            &&& t.eazysendme_custom_code == d.w.session.custom_code
            &&& t.sendme_one_shot == d.w.session.serve.one_shot
            &&& t.cache == d.w.session.cache
            &&& t.receive_output_dir == c.receive_dir
            &&& t.sendme_blob_dir_mode == c.blob_mode
            &&& t.sendme_blob_custom_dir == c.blob_dir
            &&& t.minimize_to_tray == c.minimize_to_tray
            &&& t.tray_debug_log == c.tray_debug_log
        }),
        ({
            let t = settings::desk_read(d, s).w;
            &&& t.preferences.croc_code == s.croc_custom_code
            &&& t.preferences.use_custom_code == s.croc_use_custom_code
            &&& t.session.custom_code == s.eazysendme_custom_code
            &&& t.session.serve.one_shot == s.sendme_one_shot
            &&& t.session.eazy.auto_retry
            &&& settings::desk_read(d, s).items == d.items
        }),
        ({
            let t = settings::choices_read(s);
            &&& t.blob_mode == s.sendme_blob_dir_mode
            &&& t.minimize_to_tray == s.minimize_to_tray
            &&& t.tray_debug_log == s.tray_debug_log
            &&& (s.receive_output_dir matches Some(p) && p.len() > 0) ==> t.receive_dir
                == s.receive_output_dir
            &&& (s.receive_output_dir matches Some(p) && p.len() == 0) ==> t.receive_dir is None
            &&& (s.sendme_blob_custom_dir matches Some(p) && p.len() > 0) ==> t.blob_dir
                == s.sendme_blob_custom_dir
        }),
{
}

/// sendme's temporary data goes where it was told to; to a folder of one's own only once
/// one is chosen. What is shown is where it goes.
pub proof fn law_data_goes_where_it_was_told_to(
    c: ChoicesModel,
    temp: Seq<char>,
    downloads: Seq<char>,
)
    ensures
        c.blob_mode == SendmeBlobDirMode::SystemTemp ==> settings::blob_dir(c) == BlobDir::System
            && settings::blob_summary(c, temp, Some(downloads)) == temp,
        c.blob_mode == SendmeBlobDirMode::DownloadDir ==> settings::blob_dir(c)
            == BlobDir::Downloads && settings::blob_summary(c, temp, Some(downloads)) == downloads,
        c.blob_mode == SendmeBlobDirMode::Custom && c.blob_dir is Some && c.blob_dir->0.len() > 0
            ==> settings::blob_dir(c) == BlobDir::Chosen && settings::blob_summary(
            c,
            temp,
            Some(downloads),
        ) == c.blob_dir->0,
        c.blob_mode == SendmeBlobDirMode::Custom && c.blob_dir is None ==> settings::blob_dir(c)
            == BlobDir::System && settings::blob_summary(c, temp, Some(downloads))
            == "Choose a folder"@,
{
}

// ── What is left behind ──

/// A ticket is old when it is more than a week old, and never where its age is not
/// known.
pub proof fn law_tickets_are_kept_for_a_week(e: EntryModel, unix_secs: u64)
    ensures
        cleanup::is_old(e, unix_secs) <==> e.timestamp != 0 && unix_secs - e.timestamp > 7 * 24 * 60
            * 60,
{
}

/// The hash of every old ticket is named, and of no other.
pub proof fn law_old_tickets_are_named(
    cache: Seq<EntryModel>,
    hashes: Seq<Option<Seq<char>>>,
    unix_secs: u64,
    n: nat,
    h: Seq<char>,
)
    requires
        n <= cache.len(),
        cache.len() == hashes.len(),
    ensures
        cleanup::old_hashes(cache, hashes, unix_secs, n).contains(h) <==> exists|i: int|
            0 <= i < n && #[trigger] hashes[i] == Some(h) && cache[i].timestamp != 0 && unix_secs
                - cache[i].timestamp > 604800,
    decreases n,
{
    let all = cleanup::old_hashes(cache, hashes, unix_secs, n);
    if n > 0 {
        law_old_tickets_are_named(cache, hashes, unix_secs, (n - 1) as nat, h);
        let before = cleanup::old_hashes(cache, hashes, unix_secs, (n - 1) as nat);
        if all.contains(h) {
            let k = choose|k: int| 0 <= k < all.len() && all[k] == h;
            if k < before.len() {
                assert(before[k] == h);
                assert(before.contains(h));
                let i = choose|i: int|
                    0 <= i < n - 1 && #[trigger] hashes[i] == Some(h) && cache[i].timestamp != 0
                        && unix_secs - cache[i].timestamp > 604800;
                assert(hashes[i] == Some(h));
            } else {
                assert(hashes[n - 1] == Some(h));
            }
        }
        if exists|i: int|
            0 <= i < n && #[trigger] hashes[i] == Some(h) && cache[i].timestamp != 0 && unix_secs
                - cache[i].timestamp > 604800 {
            let i = choose|i: int|
                0 <= i < n && #[trigger] hashes[i] == Some(h) && cache[i].timestamp != 0
                    && unix_secs - cache[i].timestamp > 604800;
            if i < n - 1 {
                assert(before.contains(h));
                let k = choose|k: int| 0 <= k < before.len() && before[k] == h;
                assert(all[k] == h);
            } else if !before.contains(h) {
                assert(all[before.len() as int] == h);
            } else {
                let k = choose|k: int| 0 <= k < before.len() && before[k] == h;
                assert(all[k] == h);
            }
        }
    }
}

/// What is offered for deletion is a folder in which sendme received, of more than a
/// mebibyte, whose ticket is not known any more: each once, and all of them counted.
pub proof fn law_only_unknown_downloads_are_offered(
    s: ScanModel,
    path: u64,
    hash: Seq<char>,
    is_dir: bool,
    size: u64,
    cached: Seq<Option<Seq<char>>>,
)
    requires
        s.bytes + size <= u64::MAX,
    ensures
        ({
            let t = cleanup::looked_at(s, path, ".sendme-recv-"@ + hash, is_dir, size, cached);
            let offered = is_dir && size > 1024 * 1024 && !cached.contains(Some(hash))
                && !s.targets.contains(path);
            &&& offered ==> t.targets == s.targets.push(path) && t.bytes == s.bytes + size
            &&& !offered ==> t == s
        }),
{
    reveal_strlit(".sendme-recv-");
    let name = ".sendme-recv-"@ + hash;
    assert(name.take(".sendme-recv-"@.len() as int) =~= ".sendme-recv-"@);
    assert(name.skip(".sendme-recv-"@.len() as int) =~= hash);
}

/// Folders of other names are left alone.
pub proof fn law_other_folders_are_left_alone(
    s: ScanModel,
    path: u64,
    name: Seq<char>,
    is_dir: bool,
    size: u64,
    cached: Seq<Option<Seq<char>>>,
)
    requires
        !".sendme-recv-"@.is_prefix_of(name),
    ensures
        cleanup::looked_at(s, path, name, is_dir, size, cached) == s,
{
}

// ── Pictures ──

/// A square is drawn as it was encoded: a module is drawn exactly where it is dark, in
/// its column and its row.
pub proof fn law_dark_modules_are_drawn(side: nat, dark: Seq<bool>, n: nat, x: nat, y: nat)
    requires
        x < side,
        n <= dark.len(),
    ensures
        pictures::dark_positions(side, dark, n).contains((x, y)) <==> y * side + x < n && dark[(y
            * side + x) as int],
    decreases n,
{
    let all = pictures::dark_positions(side, dark, n);
    if n > 0 {
        law_dark_modules_are_drawn(side, dark, (n - 1) as nat, x, y);
        let before = pictures::dark_positions(side, dark, (n - 1) as nat);
        let m = (n - 1) as nat;
        let at = (m % side, m / side);
        vstd::arithmetic::div_mod::lemma_fundamental_div_mod(m as int, side as int);
        assert(side * (m / side) == (m / side) * side) by (nonlinear_arith);
        if y * side + x == m {
            vstd::arithmetic::div_mod::lemma_fundamental_div_mod_converse(
                m as int,
                side as int,
                y as int,
                x as int,
            );
            assert(at == (x, y));
        }
        if at == (x, y) {
            assert(y * side + x == m);
        }
        if all.contains((x, y)) {
            let k = choose|k: int| 0 <= k < all.len() && all[k] == (x, y);
            if k < before.len() {
                assert(before[k] == (x, y));
                assert(before.contains((x, y)));
            }
        }
        if y * side + x < n && dark[(y * side + x) as int] {
            if y * side + x < m {
                assert(before.contains((x, y)));
                let k = choose|k: int| 0 <= k < before.len() && before[k] == (x, y);
                assert(all[k] == (x, y));
            } else {
                assert(all[before.len() as int] == (x, y));
            }
        }
    }
}

} // verus!
