//! What is kept from one run of the program to the next.

use crate::desk::{with_session, Desk, DeskModel};
use crate::engine;
use crate::engine::EazyCacheEntry;
use crate::laws;
use crate::messages;
use crate::sendme;
use crate::session;
use crate::session::{EazyModel, EntryModel, ServeModel, SessionModel};
use crate::text;
use crate::transfer::owned;
use crate::workspace;
use crate::workspace::{PreferencesModel, WorkspaceModel};
use vstd::prelude::*;

verus! {

/// Where sendme keeps its temporary data.
#[derive(Clone, Copy, Debug, PartialEq, Eq, Structural)]
pub enum SendmeBlobDirMode {
    SystemTemp,
    DownloadDir,
    Custom,
}

/// A choice that stands unless it was changed.
pub fn default_true() -> (r: bool)
    ensures
        r,
{
    true
}

/// sendme stops after one transfer, unless it is told otherwise.
pub fn default_sendme_one_shot() -> (r: bool)
    ensures
        r,
{
    true
}

pub struct SettingsModel {
    pub croc_recent_codes: Seq<Seq<char>>,
    pub eazysendme_recent_codes: Seq<Seq<char>>,
    pub croc_receive_recent_codes: Seq<Seq<char>>,
    pub receive_output_dir: Option<Seq<char>>,
    pub sendme_blob_dir_mode: SendmeBlobDirMode,
    pub sendme_blob_custom_dir: Option<Seq<char>>,
    pub sendme_one_shot: bool,
    pub eazysendme_custom_code: Seq<char>,
    pub eazysendme_auto_retry: bool,
    pub croc_custom_code: Seq<char>,
    pub croc_use_custom_code: bool,
    pub minimize_to_tray: bool,
    pub tray_debug_log: bool,
    pub cache: Seq<EntryModel>,
}

/// The settings as they are stored.
pub struct UserSettings {
    pub croc_recent_codes: Vec<String>,
    pub eazysendme_recent_codes: Vec<String>,
    pub croc_receive_recent_codes: Vec<String>,
    pub receive_output_dir: Option<String>,
    pub sendme_blob_dir_mode: SendmeBlobDirMode,
    pub sendme_blob_custom_dir: Option<String>,
    pub sendme_one_shot: bool,
    pub eazysendme_custom_code: String,
    pub eazysendme_auto_retry: bool,
    pub croc_custom_code: String,
    pub croc_use_custom_code: bool,
    pub minimize_to_tray: bool,
    pub tray_debug_log: bool,
    pub cache: Vec<EazyCacheEntry>,
}

impl View for UserSettings {
    type V = SettingsModel;

    open spec fn view(&self) -> SettingsModel {
        SettingsModel {
            croc_recent_codes: messages::lines_view(self.croc_recent_codes@),
            eazysendme_recent_codes: messages::lines_view(self.eazysendme_recent_codes@),
            croc_receive_recent_codes: messages::lines_view(self.croc_receive_recent_codes@),
            receive_output_dir: sendme::string_view(self.receive_output_dir),
            sendme_blob_dir_mode: self.sendme_blob_dir_mode,
            sendme_blob_custom_dir: sendme::string_view(self.sendme_blob_custom_dir),
            sendme_one_shot: self.sendme_one_shot,
            eazysendme_custom_code: self.eazysendme_custom_code@,
            eazysendme_auto_retry: self.eazysendme_auto_retry,
            croc_custom_code: self.croc_custom_code@,
            croc_use_custom_code: self.croc_use_custom_code,
            minimize_to_tray: self.minimize_to_tray,
            tray_debug_log: self.tray_debug_log,
            cache: engine::entries(self.cache@),
        }
    }
}

/// Choices that are kept and belong to no transfer.
pub struct ChoicesModel {
    pub receive_dir: Option<Seq<char>>,
    pub blob_mode: SendmeBlobDirMode,
    pub blob_dir: Option<Seq<char>>,
    pub minimize_to_tray: bool,
    pub tray_debug_log: bool,
}

pub struct Choices {
    pub receive_dir: Option<String>,
    pub blob_mode: SendmeBlobDirMode,
    pub blob_dir: Option<String>,
    pub minimize_to_tray: bool,
    pub tray_debug_log: bool,
}

impl View for Choices {
    type V = ChoicesModel;

    open spec fn view(&self) -> ChoicesModel {
        ChoicesModel {
            receive_dir: sendme::string_view(self.receive_dir),
            blob_mode: self.blob_mode,
            blob_dir: sendme::string_view(self.blob_dir),
            minimize_to_tray: self.minimize_to_tray,
            tray_debug_log: self.tray_debug_log,
        }
    }
}

/// A directory that was stored, unless its name is empty.
pub open spec fn some_dir(d: Option<Seq<char>>) -> Option<Seq<char>> {
    match d {
        Some(p) if p.len() > 0 => Some(p),
        _ => None,
    }
}

pub open spec fn codes_read(codes: Seq<Seq<char>>) -> Seq<Seq<char>> {
    workspace::deduplicated(codes, codes.len())
}

/// The desk with what was stored. Failures are retried by themselves whenever the
/// program starts, whatever was stored of that.
pub open spec fn desk_read(d: DeskModel, s: SettingsModel) -> DeskModel {
    DeskModel {
        w: WorkspaceModel {
            session: SessionModel {
                custom_code: s.eazysendme_custom_code,
                cache: session::collected(s.cache, s.cache.len()),
                serve: ServeModel { one_shot: s.sendme_one_shot, ..d.w.session.serve },
                eazy: EazyModel { auto_retry: true, ..d.w.session.eazy },
                ..d.w.session
            },
            preferences: PreferencesModel {
                croc_recent: codes_read(s.croc_recent_codes),
                eazy_recent: codes_read(s.eazysendme_recent_codes),
                receive_recent: codes_read(s.croc_receive_recent_codes),
                croc_code: s.croc_custom_code,
                use_custom_code: s.croc_use_custom_code,
                ..d.w.preferences
            },
        },
        ..d
    }
}

pub open spec fn choices_read(s: SettingsModel) -> ChoicesModel {
    ChoicesModel {
        receive_dir: some_dir(s.receive_output_dir),
        blob_mode: s.sendme_blob_dir_mode,
        blob_dir: some_dir(s.sendme_blob_custom_dir),
        minimize_to_tray: s.minimize_to_tray,
        tray_debug_log: s.tray_debug_log,
    }
}

/// What is stored.
pub open spec fn stored(d: DeskModel, c: ChoicesModel) -> SettingsModel {
    let p = d.w.preferences;
    let s = d.w.session;
    SettingsModel {
        croc_recent_codes: p.croc_recent,
        eazysendme_recent_codes: p.eazy_recent,
        croc_receive_recent_codes: p.receive_recent,
        receive_output_dir: c.receive_dir,
        sendme_blob_dir_mode: c.blob_mode,
        sendme_blob_custom_dir: c.blob_dir,
        sendme_one_shot: s.serve.one_shot,
        eazysendme_custom_code: s.custom_code,
        eazysendme_auto_retry: s.eazy.auto_retry,
        croc_custom_code: p.croc_code,
        croc_use_custom_code: p.use_custom_code,
        minimize_to_tray: c.minimize_to_tray,
        tray_debug_log: c.tray_debug_log,
        cache: s.cache,
    }
}

/// A list of codes as the program keeps it: each without white space around it.
pub open spec fn is_kept_list(codes: Seq<Seq<char>>) -> bool {
    workspace::is_code_list(codes) && forall|i: int|
        0 <= i < codes.len() ==> text::trim(#[trigger] codes[i]) == codes[i]
}

proof fn lemma_codes_read(codes: Seq<Seq<char>>, n: nat)
    requires
        is_kept_list(codes),
        n <= codes.len(),
    ensures
        workspace::deduplicated(codes, n) == codes.take(n as int),
    decreases n,
{
    if n > 0 {
        lemma_codes_read(codes, (n - 1) as nat);
        let kept = codes.take(n - 1);
        let c = codes[n - 1];
        assert(!kept.contains(c)) by {
            if kept.contains(c) {
                let i = choose|i: int| 0 <= i < kept.len() && kept[i] == c;
                assert(codes[i] != codes[n - 1]);
            }
        }
        assert(text::trim(c) == c);
        assert(codes.take(n as int) =~= kept.push(c));
    } else {
        assert(codes.take(0) =~= Seq::empty());
    }
}

/// What was stored is read back: the codes, the directories and every choice, but
/// for the retries, which begin turned on.
pub proof fn law_stored_settings_are_read_back(d: DeskModel, c: ChoicesModel)
    requires
        is_kept_list(d.w.preferences.croc_recent),
        is_kept_list(d.w.preferences.eazy_recent),
        is_kept_list(d.w.preferences.receive_recent),
        session::codes_differ(d.w.session.cache),
        c.receive_dir matches Some(p) ==> p.len() > 0,
        c.blob_dir matches Some(p) ==> p.len() > 0,
    ensures
        desk_read(d, stored(d, c)) == with_session(
            d,
            SessionModel {
                eazy: EazyModel { auto_retry: true, ..d.w.session.eazy },
                ..d.w.session
            },
        ),
        choices_read(stored(d, c)) == c,
{
    let p = d.w.preferences;
    let cache = d.w.session.cache;
    laws::lemma_collected(cache, cache.len());
    assert(cache.take(cache.len() as int) =~= cache);
    lemma_codes_read(p.croc_recent, p.croc_recent.len());
    lemma_codes_read(p.eazy_recent, p.eazy_recent.len());
    lemma_codes_read(p.receive_recent, p.receive_recent.len());
    assert(p.croc_recent.take(p.croc_recent.len() as int) =~= p.croc_recent);
    assert(p.eazy_recent.take(p.eazy_recent.len() as int) =~= p.eazy_recent);
    assert(p.receive_recent.take(p.receive_recent.len() as int) =~= p.receive_recent);
}

fn dir(d: Option<String>) -> (r: Option<String>)
    ensures
        sendme::string_view(r) == some_dir(sendme::string_view(d)),
{
    match d {
        Some(p) => if engine::is_blank(p.as_str()) {
            None
        } else {
            Some(p)
        },
        None => None,
    }
}

fn copied(v: &Vec<String>) -> (r: Vec<String>)
    ensures
        messages::lines_view(r@) == messages::lines_view(v@),
{
    let ghost all = messages::lines_view(v@);
    let mut out: Vec<String> = Vec::new();
    let mut i: usize = 0;
    assert(messages::lines_view(out@) =~= all.take(0));
    while i < v.len()
        invariant
            i <= v.len(),
            all == messages::lines_view(v@),
            messages::lines_view(out@) == all.take(i as int),
        decreases v.len() - i,
    {
        let ghost had = out@;
        let s = owned(v[i].as_str());
        let ghost model = s@;
        out.push(s);
        assert(messages::lines_view(out@) =~= messages::lines_view(had).push(model));
        assert(all.take(i + 1) =~= all.take(i as int).push(all[i as int]));
        i += 1;
    }
    assert(all.take(i as int) =~= all);
    out
}

fn copied_entries(v: &Vec<EazyCacheEntry>) -> (r: Vec<EazyCacheEntry>)
    ensures
        engine::entries(r@) == engine::entries(v@),
{
    let ghost all = engine::entries(v@);
    let mut out: Vec<EazyCacheEntry> = Vec::new();
    let mut i: usize = 0;
    assert(engine::entries(out@) =~= all.take(0));
    while i < v.len()
        invariant
            i <= v.len(),
            all == engine::entries(v@),
            engine::entries(out@) == all.take(i as int),
        decreases v.len() - i,
    {
        let ghost had = out@;
        let e = EazyCacheEntry {
            code: owned(v[i].code.as_str()),
            ticket: owned(v[i].ticket.as_str()),
            timestamp: v[i].timestamp,
        };
        let ghost model = e@;
        out.push(e);
        assert(engine::entries(out@) =~= engine::entries(had).push(model));
        assert(all.take(i + 1) =~= all.take(i as int).push(all[i as int]));
        i += 1;
    }
    assert(all.take(i as int) =~= all);
    out
}

fn some(s: &Option<String>) -> (r: Option<String>)
    ensures
        sendme::string_view(r) == sendme::string_view(*s),
{
    match s {
        Some(s) => Some(owned(s.as_str())),
        None => None,
    }
}

impl Desk {
    /// Takes in what was stored.
    pub fn load_user_settings(&mut self, settings: UserSettings) -> (r: Choices)
        ensures
            final(self)@ == desk_read(old(self)@, settings@),
            r@ == choices_read(settings@),
    {
        self.workspace.preferences.croc_recent = workspace::dedup_codes(
            &settings.croc_recent_codes,
        );
        self.workspace.preferences.eazy_recent = workspace::dedup_codes(
            &settings.eazysendme_recent_codes,
        );
        self.workspace.preferences.receive_recent = workspace::dedup_codes(
            &settings.croc_receive_recent_codes,
        );
        self.workspace.session.serve.one_shot = settings.sendme_one_shot;
        self.workspace.session.custom_code = settings.eazysendme_custom_code;
        self.workspace.session.eazy.auto_retry = true;
        self.workspace.preferences.croc_code = settings.croc_custom_code;
        self.workspace.preferences.use_custom_code = settings.croc_use_custom_code;
        self.workspace.session.collect_entries(settings.cache);
        Choices {
            receive_dir: dir(settings.receive_output_dir),
            blob_mode: settings.sendme_blob_dir_mode,
            blob_dir: dir(settings.sendme_blob_custom_dir),
            minimize_to_tray: settings.minimize_to_tray,
            tray_debug_log: settings.tray_debug_log,
        }
    }

    /// What is stored.
    pub fn user_settings(&self, c: &Choices) -> (r: UserSettings)
        ensures
            r@ == stored(self@, c@),
    {
        let p = &self.workspace.preferences;
        let s = &self.workspace.session;
        UserSettings {
            croc_recent_codes: copied(&p.croc_recent),
            eazysendme_recent_codes: copied(&p.eazy_recent),
            croc_receive_recent_codes: copied(&p.receive_recent),
            receive_output_dir: some(&c.receive_dir),
            sendme_blob_dir_mode: c.blob_mode,
            sendme_blob_custom_dir: some(&c.blob_dir),
            sendme_one_shot: s.serve.one_shot,
            eazysendme_custom_code: owned(s.custom_code.as_str()),
            eazysendme_auto_retry: s.eazy.auto_retry,
            croc_custom_code: owned(p.croc_code.as_str()),
            croc_use_custom_code: p.use_custom_code,
            minimize_to_tray: c.minimize_to_tray,
            tray_debug_log: c.tray_debug_log,
            cache: copied_entries(&s.cache),
        }
    }
}

// ── Directories ──

/// Where sendme's temporary data goes.
#[derive(Clone, Copy, Debug, PartialEq, Eq, Structural)]
pub enum BlobDir {
    System,
    Downloads,
    Chosen,
}

/// A directory of one's own counts once one is chosen.
pub open spec fn blob_dir(c: ChoicesModel) -> BlobDir {
    match c.blob_mode {
        SendmeBlobDirMode::SystemTemp => BlobDir::System,
        SendmeBlobDirMode::DownloadDir => BlobDir::Downloads,
        SendmeBlobDirMode::Custom => if some_dir(c.blob_dir) is Some {
            BlobDir::Chosen
        } else {
            BlobDir::System
        },
    }
}

pub open spec fn blob_summary(c: ChoicesModel, temp: Seq<char>, downloads: Option<Seq<char>>) -> Seq<char> {
    match c.blob_mode {
        SendmeBlobDirMode::SystemTemp => temp,
        SendmeBlobDirMode::DownloadDir => match downloads {
            Some(d) => d,
            None => "Same as download folder"@,
        },
        SendmeBlobDirMode::Custom => match c.blob_dir {
            Some(d) => d,
            None => "Choose a folder"@,
        },
    }
}

impl Choices {
    /// What holds before anything was chosen.
    pub fn new() -> (r: Choices)
        ensures
            r@ == (ChoicesModel {
                receive_dir: None,
                blob_mode: SendmeBlobDirMode::SystemTemp,
                blob_dir: None,
                minimize_to_tray: true,
                tray_debug_log: false,
            }),
    {
        Choices {
            receive_dir: None,
            blob_mode: SendmeBlobDirMode::SystemTemp,
            blob_dir: None,
            minimize_to_tray: true,
            tray_debug_log: false,
        }
    }

    /// Where sendme's temporary data goes.
    pub fn effective_sendme_blob_dir(&self) -> (r: BlobDir)
        ensures
            r == blob_dir(self@),
    {
        match self.blob_mode {
            SendmeBlobDirMode::SystemTemp => BlobDir::System,
            SendmeBlobDirMode::DownloadDir => BlobDir::Downloads,
            SendmeBlobDirMode::Custom => match &self.blob_dir {
                Some(d) => if engine::is_blank(d.as_str()) {
                    BlobDir::System
                } else {
                    BlobDir::Chosen
                },
                None => BlobDir::System,
            },
        }
    }

    /// What is shown of that directory.
    pub fn sendme_blob_dir_summary(&self, temp: &str, downloads: &Option<String>) -> (r: String)
        ensures
            r@ == blob_summary(self@, temp@, sendme::string_view(*downloads)),
    {
        match self.blob_mode {
            SendmeBlobDirMode::SystemTemp => owned(temp),
            SendmeBlobDirMode::DownloadDir => match downloads {
                Some(d) => owned(d.as_str()),
                None => owned("Same as download folder"),
            },
            SendmeBlobDirMode::Custom => match &self.blob_dir {
                Some(d) => owned(d.as_str()),
                None => owned("Choose a folder"),
            },
        }
    }

    /// A directory of one's own is chosen.
    pub fn choose_blob_dir(&mut self, d: String)
        ensures
            final(self)@ == (ChoicesModel {
                blob_mode: SendmeBlobDirMode::Custom,
                blob_dir: Some(d@),
                ..old(self)@
            }),
    {
        self.blob_dir = Some(d);
        self.blob_mode = SendmeBlobDirMode::Custom;
    }

    /// The directory of one's own is given up.
    pub fn clear_blob_dir(&mut self)
        ensures
            final(self)@ == (ChoicesModel {
                blob_mode: SendmeBlobDirMode::SystemTemp,
                blob_dir: None,
                ..old(self)@
            }),
    {
        self.blob_dir = None;
        self.blob_mode = SendmeBlobDirMode::SystemTemp;
    }
}

} // verus!
