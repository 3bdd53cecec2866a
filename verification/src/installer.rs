//! Getting a tool: from the latest release to the binary.

use crate::archive;
use crate::reader;
use crate::text;
use crate::tools;
use crate::tools::{GitHubRelease, Tool};
use crate::transfer::owned;
use vstd::prelude::*;

verus! {

/// What is to be fetched.
pub struct Download {
    pub asset: String,
    pub url: String,
}

/// What is said where a step fails: the tool, the step, and why.
pub open spec fn failure(tool: Tool, step: Seq<char>, why: Seq<char>) -> Seq<char> {
    tools::tool_name(tool) + step + why
}

fn failed(tool: &Tool, step: &str, why: &str) -> (r: String)
    ensures
        r@ == failure(*tool, step@, why@),
{
    let mut out = text::chars_of(tool.name());
    text::push_text(&mut out, step);
    text::push_text(&mut out, why);
    text::string_of(out.as_slice())
}

pub open spec fn no_asset(tool: Tool, os: Seq<char>, arch: Seq<char>, tag: Seq<char>) -> Seq<char> {
    tools::tool_name(tool) + " has no release asset for "@ + os + "-"@ + arch + " in "@ + tag
}

/// The asset to fetch from the latest release, once that is known.
pub fn choose_download(
    tool: &Tool,
    release: Result<GitHubRelease, String>,
    os: &str,
    arch: &str,
) -> (r: Result<Download, String>)
    ensures
        match release {
            Err(e) => r matches Err(m) && m@ == failure(
                *tool,
                " latest-release lookup failed: "@,
                e@,
            ),
            Ok(release) => match tools::release_asset(
                *tool,
                tools::asset_names(release.assets@),
                os@,
                arch@,
            ) {
                Some(i) => r matches Ok(d) && d.asset@ == release.assets@[i as int].name@
                    && d.url@ == release.assets@[i as int].browser_download_url@,
                None => r matches Err(m) && m@ == no_asset(*tool, os@, arch@, release.tag_name@),
            },
        },
{
    match release {
        Err(e) => Err(failed(tool, " latest-release lookup failed: ", e.as_str())),
        Ok(release) => match tools::find_release_asset(tool, &release, os, arch) {
            Some(asset) => Ok(
                Download {
                    asset: owned(asset.name.as_str()),
                    url: owned(asset.browser_download_url.as_str()),
                },
            ),
            None => {
                let mut out = text::chars_of(tool.name());
                text::push_text(&mut out, " has no release asset for ");
                text::push_text(&mut out, os);
                text::push_text(&mut out, "-");
                text::push_text(&mut out, arch);
                text::push_text(&mut out, " in ");
                text::push_text(&mut out, release.tag_name.as_str());
                Err(text::string_of(out.as_slice()))
            },
        },
    }
}

/// What curl has fetched: its output, or what it says of its failure.
pub fn curl_outcome(success: bool, stdout: Vec<u8>, stderr: &[u8]) -> (r: Result<Vec<u8>, String>)
    ensures
        if success {
            r == Ok::<Vec<u8>, String>(stdout)
        } else {
            r matches Err(m) && m@ == "curl download failed: "@ + reader::lossy(stderr@)
        },
{
    if success {
        Ok(stdout)
    } else {
        let said = reader::from_utf8_lossy(stderr);
        let mut out = text::chars_of("curl download failed: ");
        text::push_text(&mut out, said.as_str());
        Err(text::string_of(out.as_slice()))
    }
}

/// What comes of a download that was unpacked.
pub open spec fn is_unpacked(
    tool: Tool,
    asset: Seq<char>,
    bytes: Seq<u8>,
    windows: bool,
    o: Result<Seq<u8>, Seq<char>>,
) -> bool {
    let expected = tools::binary_name(tool, windows);
    if ".tar.gz"@.is_suffix_of(asset) {
        archive::is_tar_outcome(bytes, expected, windows, o)
    } else if ".zip"@.is_suffix_of(asset) {
        archive::is_zip_outcome(bytes, expected, windows, o)
    } else {
        o == Err::<Seq<u8>, Seq<char>>("Unsupported archive format: "@ + asset)
    }
}

/// The binary in what was fetched.
pub fn unpack_download(
    tool: &Tool,
    asset: &str,
    fetched: Result<Vec<u8>, String>,
    windows: bool,
) -> (r: Result<Vec<u8>, String>)
    ensures
        match fetched {
            Err(e) => r matches Err(m) && m@ == failure(*tool, " download failed: "@, e@),
            Ok(bytes) => match r {
                Ok(binary) => is_unpacked(
                    *tool,
                    asset@,
                    bytes@,
                    windows,
                    Ok::<Seq<u8>, Seq<char>>(binary@),
                ),
                Err(m) => exists|why: Seq<char>|
                    #![trigger failure(*tool, " extraction failed: "@, why)]
                    m@ == failure(*tool, " extraction failed: "@, why) && is_unpacked(
                        *tool,
                        asset@,
                        bytes@,
                        windows,
                        Err::<Seq<u8>, Seq<char>>(why),
                    ),
            },
        },
{
    match fetched {
        Err(e) => Err(failed(tool, " download failed: ", e.as_str())),
        Ok(bytes) => {
            let name = tools::managed_binary_name(tool, windows);
            match archive::extract_binary(asset, bytes.as_slice(), name.as_str(), windows) {
                Ok(binary) => Ok(binary),
                Err(e) => Err(failed(tool, " extraction failed: ", e.as_str())),
            }
        },
    }
}

/// A binary that was installed before is used as it is, where it holds anything.
pub fn is_installed(present_len: Option<u64>) -> (r: bool)
    ensures
        r == (present_len matches Some(n) && n > 0),
{
    match present_len {
        Some(n) => n > 0,
        None => false,
    }
}

} // verus!
