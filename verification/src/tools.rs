//! The tools behind the program: where they are found, and where they come from.

use crate::reader;
use crate::sendme;
use crate::state::SelectedTool;
use crate::text;
use crate::transfer::owned;
use vstd::prelude::*;

verus! {

#[derive(Clone, Copy, Debug, PartialEq, Eq, Structural)]
pub enum Tool {
    Croc,
    Sendme,
}

pub open spec fn tool_name(tool: Tool) -> Seq<char> {
    match tool {
        Tool::Croc => "croc"@,
        Tool::Sendme => "sendme"@,
    }
}

impl Tool {
    pub fn name(&self) -> (r: &str)
        ensures
            r@ == tool_name(*self),
    {
        match self {
            Tool::Croc => "croc",
            Tool::Sendme => "sendme",
        }
    }
}

/// What is known of a tool.
pub struct ToolStatus {
    pub tool: Tool,
    pub available: bool,
    pub path: Option<String>,
    pub version: Option<String>,
}

pub struct StatusModel {
    pub tool: Tool,
    pub available: bool,
    pub path: Option<Seq<char>>,
    pub version: Option<Seq<char>>,
}

impl View for ToolStatus {
    type V = StatusModel;

    open spec fn view(&self) -> StatusModel {
        StatusModel {
            tool: self.tool,
            available: self.available,
            path: sendme::string_view(self.path),
            version: sendme::string_view(self.version),
        }
    }
}

pub open spec fn statuses(v: Seq<ToolStatus>) -> Seq<StatusModel> {
    v.map_values(|s: ToolStatus| s@)
}

// ── The version of the linked library ──

/// A line of a manifest: where it stands, and the version that it gives.
pub enum ManifestLine {
    Section { package: bool },
    Version(Seq<char>),
    Other,
}

pub open spec fn manifest_line(line: Seq<char>) -> ManifestLine {
    let t = text::trim(line);
    if "["@.is_prefix_of(t) {
        ManifestLine::Section { package: t == "[package]"@ }
    } else if t.len() == 0 || "#"@.is_prefix_of(t) {
        ManifestLine::Other
    } else {
        match text::split_once(t, "="@) {
            Some((key, value)) => {
                let version = text::trim_of(text::trim(value), seq!['"']);
                if text::trim(key) == "version"@ && version.len() > 0 {
                    ManifestLine::Version(version)
                } else {
                    ManifestLine::Other
                }
            },
            None => ManifestLine::Other,
        }
    }
}

/// The first version that the `[package]` section of a manifest gives, from line
/// `i` on.
pub open spec fn version_from(lines: Seq<Seq<char>>, i: nat, in_package: bool) -> Option<Seq<char>>
    decreases lines.len() - i,
{
    if i >= lines.len() {
        None
    } else {
        match manifest_line(lines[i as int]) {
            ManifestLine::Section { package } => version_from(lines, i + 1, package),
            ManifestLine::Version(v) => if in_package {
                Some(v)
            } else {
                version_from(lines, i + 1, in_package)
            },
            ManifestLine::Other => version_from(lines, i + 1, in_package),
        }
    }
}

pub open spec fn manifest_version(manifest: Seq<char>) -> Option<Seq<char>> {
    version_from(text::lines(manifest), 0, false)
}

/// The version that a manifest gives for its package.
pub fn native_sendme_version(manifest: &str) -> (r: Option<String>)
    ensures
        sendme::string_view(r) == manifest_version(manifest@),
{
    let chars = text::chars_of(manifest);
    let lines = text::split_lines(chars.as_slice());
    let ghost all = text::lines(manifest@);
    let mut in_package = false;
    let mut i: usize = 0;
    while i < lines.len()
        invariant
            i <= lines.len(),
            lines@.len() == all.len(),
            all == text::lines(manifest@),
            forall|j: int| 0 <= j < lines@.len() ==> (#[trigger] lines@[j])@ == all[j],
            manifest_version(manifest@) == version_from(all, i as nat, in_package),
        decreases lines.len() - i,
    {
        let t = text::trim_chars(lines[i]);
        assert(lines@[i as int]@ == all[i as int]);
        let ghost line = manifest_line(all[i as int]);
        if text::starts_with(t, "[") {
            in_package = text::is(t, "[package]");
        } else if in_package && t.len() > 0 && !text::starts_with(t, "#") {
            match text::split_once_at(t, "=") {
                Some((key, value)) => {
                    let quotes: [char; 1] = ['"'];
                    let version = text::trim_chars_of(text::trim_chars(value), &quotes);
                    assert(quotes@ =~= seq!['"']);
                    if text::is(text::trim_chars(key), "version") && version.len() > 0 {
                        return Some(text::string_of(version));
                    }
                },
                None => {},
            }
        }
        i += 1;
    }
    None
}

pub open spec fn native_version(version: Option<Seq<char>>) -> Seq<char> {
    match version {
        Some(v) => "sendme "@ + v + " (native)"@,
        None => "sendme (native)"@,
    }
}

/// sendme is part of the program, so it is always there.
pub open spec fn native_sendme(version: Option<Seq<char>>) -> StatusModel {
    StatusModel {
        tool: Tool::Sendme,
        available: true,
        path: None,
        version: Some(native_version(version)),
    }
}

/// What is known of sendme, whose manifest is given.
pub fn detect_native_sendme(manifest: &str) -> (r: ToolStatus)
    ensures
        r@ == native_sendme(manifest_version(manifest@)),
{
    let version = match native_sendme_version(manifest) {
        Some(v) => {
            let mut out = text::chars_of("sendme ");
            text::push_text(&mut out, v.as_str());
            text::push_text(&mut out, " (native)");
            text::string_of(out.as_slice())
        },
        None => owned("sendme (native)"),
    };
    ToolStatus { tool: Tool::Sendme, available: true, path: None, version: Some(version) }
}

// ── Where binaries are kept ──

pub open spec fn binary_name(tool: Tool, windows: bool) -> Seq<char> {
    if windows {
        tool_name(tool) + ".exe"@
    } else {
        tool_name(tool)
    }
}

/// The name of the binary that the program keeps for a tool.
pub fn managed_binary_name(tool: &Tool, windows: bool) -> (r: String)
    ensures
        r@ == binary_name(*tool, windows),
{
    let mut out = text::chars_of(tool.name());
    if windows {
        text::push_text(&mut out, ".exe");
    }
    text::string_of(out.as_slice())
}

/// The directories down to that binary, below the cache directory; the last is
/// the binary itself.
pub fn managed_binary_path(tool: &Tool, windows: bool) -> (r: Vec<String>)
    ensures
        r@.len() == 3,
        r@[0]@ == "databeam"@,
        r@[1]@ == "bin"@,
        r@[2]@ == binary_name(*tool, windows),
{
    let mut out: Vec<String> = Vec::new();
    out.push(owned("databeam"));
    out.push(owned("bin"));
    out.push(managed_binary_name(tool, windows));
    out
}

// ── Releases ──

pub struct GitHubAsset {
    pub name: String,
    pub browser_download_url: String,
}

pub struct GitHubRelease {
    pub tag_name: String,
    pub assets: Vec<GitHubAsset>,
}

pub open spec fn repo(tool: Tool) -> Seq<char> {
    match tool {
        Tool::Croc => "schollz/croc"@,
        Tool::Sendme => "n0-computer/sendme"@,
    }
}

pub fn github_repo(tool: &Tool) -> (r: &'static str)
    ensures
        r@ == repo(*tool),
{
    match tool {
        Tool::Croc => "schollz/croc",
        Tool::Sendme => "n0-computer/sendme",
    }
}

/// Where the latest release of a tool is described.
pub fn latest_release_url(tool: &Tool) -> (r: String)
    ensures
        r@ == "https://api.github.com/repos/"@ + repo(*tool) + "/releases/latest"@,
{
    let mut out = text::chars_of("https://api.github.com/repos/");
    text::push_text(&mut out, github_repo(tool));
    text::push_text(&mut out, "/releases/latest");
    text::string_of(out.as_slice())
}

/// An asset that fits: by its beginning, by a mark of the platform, and by the
/// way in which it is packed.
pub open spec fn fits(name: Seq<char>, prefix: Seq<char>, marker: Seq<char>) -> bool {
    prefix.is_prefix_of(name) && text::contains(name, marker) && (".tar.gz"@.is_suffix_of(name)
        || ".zip"@.is_suffix_of(name))
}

pub open spec fn asset_names(assets: Seq<GitHubAsset>) -> Seq<Seq<char>> {
    assets.map_values(|a: GitHubAsset| a.name@)
}

/// The first asset from `i` on that fits a mark.
pub open spec fn asset_from(names: Seq<Seq<char>>, prefix: Seq<char>, marker: Seq<char>, i: nat) -> Option<nat>
    decreases names.len() - i,
{
    if i >= names.len() {
        None
    } else if fits(names[i as int], prefix, marker) {
        Some(i)
    } else {
        asset_from(names, prefix, marker, i + 1)
    }
}

/// The first asset that fits the first mark for which there is one, from mark `k` on.
pub open spec fn asset_by_markers(
    names: Seq<Seq<char>>,
    prefix: Seq<char>,
    markers: Seq<Seq<char>>,
    k: nat,
) -> Option<nat>
    decreases markers.len() - k,
{
    if k >= markers.len() {
        None
    } else {
        match asset_from(names, prefix, markers[k as int], 0) {
            Some(i) => Some(i),
            None => asset_by_markers(names, prefix, markers, k + 1),
        }
    }
}

pub open spec fn marker_views(v: Seq<&str>) -> Seq<Seq<char>> {
    v.map_values(|m: &str| m@)
}

fn first_asset(release: &GitHubRelease, prefix: &str, marker: &str) -> (r: Option<usize>)
    ensures
        match r {
            Some(i) => i < release.assets@.len() && asset_from(
                asset_names(release.assets@),
                prefix@,
                marker@,
                0,
            ) == Some(i as nat),
            None => asset_from(asset_names(release.assets@), prefix@, marker@, 0) is None,
        },
{
    let ghost names = asset_names(release.assets@);
    let mut i: usize = 0;
    while i < release.assets.len()
        invariant
            i <= release.assets@.len(),
            names == asset_names(release.assets@),
            asset_from(names, prefix@, marker@, 0) == asset_from(
                names,
                prefix@,
                marker@,
                i as nat,
            ),
        decreases release.assets@.len() - i,
    {
        let chars = text::chars_of(release.assets[i].name.as_str());
        let name = chars.as_slice();
        assert(names[i as int] == name@);
        if text::starts_with(name, prefix) && text::contains_str(name, marker) && (text::ends_with(
            name,
            ".tar.gz",
        ) || text::ends_with(name, ".zip")) {
            return Some(i);
        }
        i += 1;
    }
    None
}

/// The first asset that fits the first mark for which there is one.
pub fn find_asset_by_markers<'a>(release: &'a GitHubRelease, prefix: &str, markers: &[&str]) -> (r:
    Option<&'a GitHubAsset>)
    ensures
        match asset_by_markers(
            asset_names(release.assets@),
            prefix@,
            marker_views(markers@),
            0,
        ) {
            Some(i) => r == Some(&release.assets@[i as int]),
            None => r is None,
        },
{
    let ghost names = asset_names(release.assets@);
    let ghost all = marker_views(markers@);
    let mut k: usize = 0;
    while k < markers.len()
        invariant
            k <= markers@.len(),
            names == asset_names(release.assets@),
            all == marker_views(markers@),
            asset_by_markers(names, prefix@, all, 0) == asset_by_markers(
                names,
                prefix@,
                all,
                k as nat,
            ),
        decreases markers@.len() - k,
    {
        assert(all[k as int] == markers@[k as int]@);
        match first_asset(release, prefix, markers[k]) {
            Some(i) => {
                return Some(&release.assets[i]);
            },
            None => {},
        }
        k += 1;
    }
    None
}

/// The marks of sendme's assets for a platform, the best first.
pub open spec fn sendme_markers(os: Seq<char>, arch: Seq<char>) -> Option<Seq<Seq<char>>> {
    if os == "macos"@ && arch == "aarch64"@ {
        Some(seq!["-darwin-aarch64"@])
    } else if os == "macos"@ && arch == "x86_64"@ {
        Some(seq!["-darwin-x86_64"@])
    } else if os == "linux"@ && arch == "aarch64"@ {
        Some(seq!["-linux-aarch64"@])
    } else if os == "linux"@ && arch == "x86_64"@ {
        Some(seq!["-linux-x86_64"@])
    } else if os == "windows"@ && arch == "x86_64"@ {
        Some(seq!["-windows-x86_64"@])
    } else if os == "windows"@ && arch == "aarch64"@ {
        Some(seq!["-windows-aarch64"@, "-windows-x86_64"@])
    } else {
        None
    }
}

/// The marks of croc's assets for a platform, the best first.
pub open spec fn croc_markers(os: Seq<char>, arch: Seq<char>) -> Option<Seq<Seq<char>>> {
    if os == "macos"@ && arch == "aarch64"@ {
        Some(seq!["macOS-ARM64"@, "macOS-64bit"@])
    } else if os == "macos"@ && arch == "x86_64"@ {
        Some(seq!["macOS-64bit"@])
    } else if os == "linux"@ && arch == "aarch64"@ {
        Some(seq!["Linux-ARM64"@])
    } else if os == "linux"@ && arch == "x86_64"@ {
        Some(seq!["Linux-64bit"@])
    } else if os == "linux"@ && arch == "arm"@ {
        Some(seq!["Linux-ARM"@])
    } else if os == "windows"@ && arch == "aarch64"@ {
        Some(seq!["Windows-ARM64"@, "Windows-64bit"@])
    } else if os == "windows"@ && arch == "x86_64"@ {
        Some(seq!["Windows-64bit"@])
    } else if os == "windows"@ && arch == "arm"@ {
        Some(seq!["Windows-ARM"@, "Windows-64bit"@])
    } else {
        None
    }
}

pub open spec fn found_markers(r: Option<Vec<&'static str>>) -> Option<Seq<Seq<char>>> {
    match r {
        Some(v) => Some(marker_views(v@)),
        None => None,
    }
}

fn one(a: &'static str) -> (r: Option<Vec<&'static str>>)
    ensures
        found_markers(r) == Some(seq![a@]),
{
    let mut v: Vec<&'static str> = Vec::new();
    v.push(a);
    assert(marker_views(v@) =~= seq![a@]);
    Some(v)
}

fn two(a: &'static str, b: &'static str) -> (r: Option<Vec<&'static str>>)
    ensures
        found_markers(r) == Some(seq![a@, b@]),
{
    let mut v: Vec<&'static str> = Vec::new();
    v.push(a);
    v.push(b);
    assert(marker_views(v@) =~= seq![a@, b@]);
    Some(v)
}

/// The marks of sendme's assets for a platform.
pub fn sendme_asset_markers(os: &str, arch: &str) -> (r: Option<Vec<&'static str>>)
    ensures
        found_markers(r) == sendme_markers(os@, arch@),
{
    let macos = text::same_str(os, "macos");
    let linux = text::same_str(os, "linux");
    let windows = text::same_str(os, "windows");
    let aarch64 = text::same_str(arch, "aarch64");
    let x86_64 = text::same_str(arch, "x86_64");
    if macos && aarch64 {
        one("-darwin-aarch64")
    } else if macos && x86_64 {
        one("-darwin-x86_64")
    } else if linux && aarch64 {
        one("-linux-aarch64")
    } else if linux && x86_64 {
        one("-linux-x86_64")
    } else if windows && x86_64 {
        one("-windows-x86_64")
    } else if windows && aarch64 {
        two("-windows-aarch64", "-windows-x86_64")
    } else {
        None
    }
}

/// The marks of croc's assets for a platform.
pub fn croc_asset_markers(os: &str, arch: &str) -> (r: Option<Vec<&'static str>>)
    ensures
        found_markers(r) == croc_markers(os@, arch@),
{
    let macos = text::same_str(os, "macos");
    let linux = text::same_str(os, "linux");
    let windows = text::same_str(os, "windows");
    let aarch64 = text::same_str(arch, "aarch64");
    let x86_64 = text::same_str(arch, "x86_64");
    let arm = text::same_str(arch, "arm");
    if macos && aarch64 {
        two("macOS-ARM64", "macOS-64bit")
    } else if macos && x86_64 {
        one("macOS-64bit")
    } else if linux && aarch64 {
        one("Linux-ARM64")
    } else if linux && x86_64 {
        one("Linux-64bit")
    } else if linux && arm {
        one("Linux-ARM")
    } else if windows && aarch64 {
        two("Windows-ARM64", "Windows-64bit")
    } else if windows && x86_64 {
        one("Windows-64bit")
    } else if windows && arm {
        two("Windows-ARM", "Windows-64bit")
    } else {
        None
    }
}

/// The asset of a release for a tool on a platform.
pub open spec fn release_asset(
    tool: Tool,
    names: Seq<Seq<char>>,
    os: Seq<char>,
    arch: Seq<char>,
) -> Option<nat> {
    let (prefix, markers) = match tool {
        Tool::Sendme => ("sendme-"@, sendme_markers(os, arch)),
        Tool::Croc => ("croc_"@, croc_markers(os, arch)),
    };
    match markers {
        Some(m) => asset_by_markers(names, prefix, m, 0),
        None => None,
    }
}

/// The asset of a release for a tool on a platform.
pub fn find_release_asset<'a>(tool: &Tool, release: &'a GitHubRelease, os: &str, arch: &str) -> (r:
    Option<&'a GitHubAsset>)
    ensures
        match release_asset(*tool, asset_names(release.assets@), os@, arch@) {
            Some(i) => r == Some(&release.assets@[i as int]),
            None => r is None,
        },
{
    match tool {
        Tool::Sendme => match sendme_asset_markers(os, arch) {
            Some(m) => find_asset_by_markers(release, "sendme-", m.as_slice()),
            None => None,
        },
        Tool::Croc => match croc_asset_markers(os, arch) {
            Some(m) => find_asset_by_markers(release, "croc_", m.as_slice()),
            None => None,
        },
    }
}

proof fn lemma_asset_from(names: Seq<Seq<char>>, prefix: Seq<char>, marker: Seq<char>, i: nat)
    ensures
        asset_from(names, prefix, marker, i) matches Some(k) ==> k < names.len() && fits(
            names[k as int],
            prefix,
            marker,
        ),
    decreases names.len() - i,
{
    if i < names.len() && !fits(names[i as int], prefix, marker) {
        lemma_asset_from(names, prefix, marker, i + 1);
    }
}

proof fn lemma_asset_by_markers(
    names: Seq<Seq<char>>,
    prefix: Seq<char>,
    markers: Seq<Seq<char>>,
    k: nat,
)
    ensures
        asset_by_markers(names, prefix, markers, k) matches Some(i) ==> i < names.len() && exists|
            j: int,
        |
            0 <= j < markers.len() && #[trigger] fits(names[i as int], prefix, markers[j]),
    decreases markers.len() - k,
{
    if k < markers.len() {
        lemma_asset_from(names, prefix, markers[k as int], 0);
        lemma_asset_by_markers(names, prefix, markers, k + 1);
    }
}

/// An asset that is chosen is one of the release's, and is packed in a way that
/// can be opened.
pub proof fn law_chosen_assets_can_be_opened(
    tool: Tool,
    names: Seq<Seq<char>>,
    os: Seq<char>,
    arch: Seq<char>,
    i: nat,
)
    requires
        release_asset(tool, names, os, arch) == Some(i),
    ensures
        i < names.len(),
        ".tar.gz"@.is_suffix_of(names[i as int]) || ".zip"@.is_suffix_of(names[i as int]),
{
    let (prefix, markers) = match tool {
        Tool::Sendme => ("sendme-"@, sendme_markers(os, arch)),
        Tool::Croc => ("croc_"@, croc_markers(os, arch)),
    };
    lemma_asset_by_markers(names, prefix, markers->0, 0);
}

// ── Downloads ──

/// The arguments with which curl fetches a page.
pub fn curl_arguments(url: &str) -> (r: Vec<String>)
    ensures
        r@.len() == 4,
        r@[0]@ == "-fsSL"@,
        r@[1]@ == "-A"@,
        r@[2]@ == "databeam"@,
        r@[3]@ == url@,
{
    let mut out: Vec<String> = Vec::new();
    out.push(owned("-fsSL"));
    out.push(owned("-A"));
    out.push(owned("databeam"));
    out.push(owned(url));
    out
}

/// A text with each single quote doubled, as it stands between such quotes.
pub open spec fn quoted(s: Seq<char>) -> Seq<char>
    decreases s.len(),
{
    if s.len() == 0 {
        s
    } else if s.last() == '\'' {
        quoted(s.drop_last()).push('\'').push('\'')
    } else {
        quoted(s.drop_last()).push(s.last())
    }
}

fn push_quoted(out: &mut Vec<char>, s: &str)
    ensures
        final(out)@ == old(out)@ + quoted(s@),
{
    let chars = text::chars_of(s);
    let ghost before = out@;
    let mut i: usize = 0;
    assert(chars@.take(0) =~= Seq::empty());
    assert(out@ =~= before + quoted(chars@.take(0)));
    while i < chars.len()
        invariant
            i <= chars.len(),
            out@ == before + quoted(chars@.take(i as int)),
        decreases chars.len() - i,
    {
        assert(chars@.take(i + 1).drop_last() =~= chars@.take(i as int));
        if chars[i] == '\'' {
            out.push('\'');
        }
        out.push(chars[i]);
        assert(out@ =~= before + quoted(chars@.take(i + 1)));
        i += 1;
    }
    assert(chars@.take(i as int) =~= s@);
}

/// A text with each single quote doubled.
pub fn escape_ps_single_quote(value: &str) -> (r: String)
    ensures
        r@ == quoted(value@),
{
    let mut out: Vec<char> = Vec::new();
    push_quoted(&mut out, value);
    assert(out@ =~= quoted(value@));
    text::string_of(out.as_slice())
}

/// The script with which PowerShell fetches a page into a file.
pub fn powershell_script(app_version: &str, url: &str, file: &str) -> (r: String)
    ensures
        r@
            == "$ProgressPreference='SilentlyContinue'; Invoke-WebRequest -UseBasicParsing -Headers @{'User-Agent'='Mozilla/5.0 (Windows NT 10.0; Win64; x64) DataBeam/"@
            + app_version@
            + "'; 'Accept'='application/vnd.github+json, application/octet-stream'} -Uri '"@
            + quoted(url@) + "' -OutFile '"@ + quoted(file@) + "'"@,
{
    let mut out = text::chars_of(
        "$ProgressPreference='SilentlyContinue'; Invoke-WebRequest -UseBasicParsing -Headers @{'User-Agent'='Mozilla/5.0 (Windows NT 10.0; Win64; x64) DataBeam/",
    );
    text::push_text(&mut out, app_version);
    text::push_text(
        &mut out,
        "'; 'Accept'='application/vnd.github+json, application/octet-stream'} -Uri '",
    );
    push_quoted(&mut out, url);
    text::push_text(&mut out, "' -OutFile '");
    push_quoted(&mut out, file);
    text::push_text(&mut out, "'");
    text::string_of(out.as_slice())
}

// ── Detection ──

/// The binary that the program keeps goes before everything else; sendme needs
/// none.
pub fn init_bundled_binaries(extracted: Option<String>, installed: Option<String>) -> (r: (
    Option<String>,
    Option<String>,
))
    ensures
        sendme::string_view(r.0) == (match extracted {
            Some(p) => Some(p@),
            None => sendme::string_view(installed),
        }),
        r.1 is None,
{
    let croc = match extracted {
        Some(p) => Some(p),
        None => installed,
    };
    (croc, None)
}

/// A binary that was found, and what it printed when asked for its version.
pub struct Probe {
    pub path: String,
    pub output: Option<(Vec<u8>, Vec<u8>)>,
}

/// What a binary says of its version: on its output, or else on its error output.
pub open spec fn version_said(out: Seq<char>, err: Seq<char>) -> Option<Seq<char>> {
    let said = if text::trim(out).len() == 0 {
        text::trim(err)
    } else {
        text::trim(out)
    };
    if said.len() == 0 {
        None
    } else {
        Some(said)
    }
}

pub open spec fn version_label(out: Seq<char>, err: Seq<char>, origin: Seq<char>) -> Option<Seq<char>> {
    match version_said(out, err) {
        Some(v) => Some(v + origin),
        None => None,
    }
}

/// A version with where the binary came from, out of what the binary printed.
pub fn version_label_of(out: &str, err: &str, origin: &str) -> (r: Option<String>)
    ensures
        sendme::string_view(r) == version_label(out@, err@, origin@),
{
    let out_chars = text::chars_of(out);
    let err_chars = text::chars_of(err);
    let first = text::trim_chars(out_chars.as_slice());
    let said = if first.len() == 0 {
        text::trim_chars(err_chars.as_slice())
    } else {
        first
    };
    if said.len() == 0 {
        return None;
    }
    let mut label: Vec<char> = Vec::new();
    text::push_slice(&mut label, said);
    text::push_text(&mut label, origin);
    assert(label@ =~= said@ + origin@);
    Some(text::string_of(label.as_slice()))
}

pub open spec fn probed(tool: Tool, p: Probe, origin: Seq<char>) -> StatusModel {
    StatusModel {
        tool,
        available: true,
        path: Some(p.path@),
        version: match p.output {
            Some((out, err)) => version_label(reader::lossy(out@), reader::lossy(err@), origin),
            None => None,
        },
    }
}

/// What is known of a tool: by the binary that the program keeps, or else by the
/// one that the system has.
pub open spec fn detected(tool: Tool, managed: Option<Probe>, system: Option<Probe>) -> StatusModel {
    match (managed, system) {
        (Some(p), _) => probed(tool, p, " (managed)"@),
        (None, Some(p)) => probed(tool, p, " (system)"@),
        (None, None) => StatusModel { tool, available: false, path: None, version: None },
    }
}

fn status_of(tool: Tool, p: Probe, origin: &str) -> (r: ToolStatus)
    ensures
        r@ == probed(tool, p, origin@),
{
    let version = match &p.output {
        Some((out, err)) => {
            let out_text = reader::from_utf8_lossy(out.as_slice());
            let err_text = reader::from_utf8_lossy(err.as_slice());
            version_label_of(out_text.as_str(), err_text.as_str(), origin)
        },
        None => None,
    };
    ToolStatus { tool, available: true, path: Some(p.path), version }
}

/// What is known of a tool.
pub fn detect_tool_with_bundled(tool: Tool, managed: Option<Probe>, system: Option<Probe>) -> (r:
    ToolStatus)
    ensures
        r@ == detected(tool, managed, system),
{
    match managed {
        Some(p) => status_of(tool, p, " (managed)"),
        None => match system {
            Some(p) => status_of(tool, p, " (system)"),
            None => ToolStatus { tool, available: false, path: None, version: None },
        },
    }
}

/// What is known of both tools.
pub fn detect_all_tools(managed: Option<Probe>, system: Option<Probe>, manifest: &str) -> (r: Vec<
    ToolStatus,
>)
    ensures
        statuses(r@) == seq![
            detected(Tool::Croc, managed, system),
            native_sendme(manifest_version(manifest@)),
        ],
{
    let ghost m = managed;
    let ghost s = system;
    let mut out: Vec<ToolStatus> = Vec::new();
    out.push(detect_tool_with_bundled(Tool::Croc, managed, system));
    out.push(detect_native_sendme(manifest));
    assert(statuses(out@) =~= seq![
        detected(Tool::Croc, m, s),
        native_sendme(manifest_version(manifest@)),
    ]);
    out
}

/// The first status of a tool that is there, from `i` on.
pub open spec fn available_from(v: Seq<StatusModel>, tool: Tool, i: nat) -> Option<StatusModel>
    decreases v.len() - i,
{
    if i >= v.len() {
        None
    } else if v[i as int].tool == tool && v[i as int].available {
        Some(v[i as int])
    } else {
        available_from(v, tool, i + 1)
    }
}

pub open spec fn is_available(v: Seq<StatusModel>, tool: Tool) -> bool {
    available_from(v, tool, 0) is Some
}

fn find_available(tool: &Tool, all: &[ToolStatus]) -> (r: Option<usize>)
    ensures
        match r {
            Some(i) => i < all@.len() && available_from(statuses(all@), *tool, 0) == Some(
                all@[i as int]@,
            ),
            None => available_from(statuses(all@), *tool, 0) is None,
        },
{
    let ghost v = statuses(all@);
    let mut i: usize = 0;
    while i < all.len()
        invariant
            i <= all@.len(),
            v == statuses(all@),
            available_from(v, *tool, 0) == available_from(v, *tool, i as nat),
        decreases all@.len() - i,
    {
        assert(v[i as int] == all@[i as int]@);
        if all[i].tool == *tool && all[i].available {
            return Some(i);
        }
        i += 1;
    }
    None
}

/// Where the binary of a tool is, where the tool is there and has one.
pub fn resolve_tool_path(tool: &Tool, statuses: &[ToolStatus]) -> (r: Option<String>)
    ensures
        sendme::string_view(r) == (match available_from(self::statuses(statuses@), *tool, 0) {
            Some(s) => s.path,
            None => None,
        }),
{
    match find_available(tool, statuses) {
        Some(i) => match &statuses[i].path {
            Some(p) => Some(owned(p.as_str())),
            None => None,
        },
        None => None,
    }
}

/// Whether a tool is there.
pub fn has_tool(tool: &Tool, statuses: &[ToolStatus]) -> (r: bool)
    ensures
        r == is_available(self::statuses(statuses@), *tool),
{
    find_available(tool, statuses).is_some()
}

/// What the program starts with: the combined mode where both tools are there,
/// else the one that is, else what was chosen.
pub open spec fn first_choice(v: Seq<StatusModel>, chosen: SelectedTool) -> SelectedTool {
    let croc = is_available(v, Tool::Croc);
    if is_available(v, Tool::Sendme) {
        if croc {
            SelectedTool::EazySendme
        } else {
            SelectedTool::Sendme
        }
    } else if croc {
        SelectedTool::Croc
    } else {
        chosen
    }
}

/// What the program starts with.
pub fn initial_tool(statuses: &[ToolStatus], chosen: SelectedTool) -> (r: SelectedTool)
    ensures
        r == first_choice(self::statuses(statuses@), chosen),
{
    let croc = has_tool(&Tool::Croc, statuses);
    if has_tool(&Tool::Sendme, statuses) {
        if croc {
            SelectedTool::EazySendme
        } else {
            SelectedTool::Sendme
        }
    } else if croc {
        SelectedTool::Croc
    } else {
        chosen
    }
}

/// The program starts with a tool that is there, where one is: the combined mode
/// only where both are.
pub proof fn law_first_choice_is_available(v: Seq<StatusModel>, chosen: SelectedTool)
    requires
        is_available(v, Tool::Croc) || is_available(v, Tool::Sendme),
    ensures
        match first_choice(v, chosen) {
            SelectedTool::Croc => is_available(v, Tool::Croc),
            SelectedTool::Sendme => is_available(v, Tool::Sendme),
            SelectedTool::EazySendme => is_available(v, Tool::Croc) && is_available(
                v,
                Tool::Sendme,
            ),
        },
{
}

} // verus!
