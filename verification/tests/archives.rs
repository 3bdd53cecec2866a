use databeam::archive::{
    extract_binary, extract_binary_from_tar_gz, extract_binary_from_zip, extract_bundled_binary,
    find_binary, Bundled, Listed,
};
use databeam::installer::{choose_download, curl_outcome, is_installed, unpack_download};
use databeam::pictures::{dark_modules, decode_icon, qr_blocks};
use databeam::tools::{
    croc_asset_markers, curl_arguments, detect_all_tools, detect_tool_with_bundled,
    escape_ps_single_quote, find_release_asset, init_bundled_binaries, initial_tool,
    latest_release_url, managed_binary_name, managed_binary_path, native_sendme_version,
    powershell_script, resolve_tool_path, sendme_asset_markers, GitHubAsset, GitHubRelease, Probe,
    Tool,
};
use databeam::state::SelectedTool;
use std::io::Write;

fn gz(data: &[u8]) -> Vec<u8> {
    let mut e = flate2::write::GzEncoder::new(Vec::new(), flate2::Compression::default());
    e.write_all(data).unwrap();
    e.finish().unwrap()
}

fn tar_gz(files: &[(&str, &[u8])]) -> Vec<u8> {
    let mut b = tar::Builder::new(Vec::new());
    let mut dir = tar::Header::new_gnu();
    dir.set_entry_type(tar::EntryType::Directory);
    dir.set_size(0);
    dir.set_cksum();
    b.append_data(&mut dir, "croc/", &[][..]).unwrap();
    for (name, data) in files {
        let mut h = tar::Header::new_gnu();
        h.set_size(data.len() as u64);
        h.set_mode(0o755);
        h.set_cksum();
        b.append_data(&mut h, name, *data).unwrap();
    }
    gz(&b.into_inner().unwrap())
}

fn zipped(files: &[(&str, &[u8])]) -> Vec<u8> {
    let mut w = zip::ZipWriter::new(std::io::Cursor::new(Vec::new()));
    w.add_directory("croc/", zip::write::SimpleFileOptions::default()).unwrap();
    for (name, data) in files {
        w.start_file(*name, zip::write::SimpleFileOptions::default()).unwrap();
        w.write_all(data).unwrap();
    }
    w.finish().unwrap().into_inner()
}

#[test]
fn binary_is_found_in_tar_archives() {
    let bytes = tar_gz(&[
        ("README.md", b"read"),
        ("croc_v10/CROC", b"binary"),
        ("other/croc", b"second"),
    ]);
    assert_eq!(extract_binary_from_tar_gz(&bytes, "croc", false).unwrap(), b"binary");
    assert_eq!(
        extract_binary_from_tar_gz(&bytes, "sendme", false).unwrap_err(),
        "Archive did not contain expected binary 'sendme'"
    );
    assert!(extract_binary_from_tar_gz(b"no archive", "croc", false).is_err());
    assert_eq!(extract_binary("croc_x.tar.gz", &bytes, "readme.md", false).unwrap(), b"read");
}

#[test]
fn binary_is_found_under_unusual_paths() {
    let bytes = tar_gz(&[("dir/./\u{e4}\u{20ac}", b"other"), ("\u{fc}ber/./croc", b"binary")]);
    assert_eq!(extract_binary_from_tar_gz(&bytes, "croc", false).unwrap(), b"binary");
    assert_eq!(extract_binary_from_tar_gz(&bytes, "\u{e4}\u{20ac}", false).unwrap(), b"other");
    let bytes = zipped(&[("/..", b"none"), ("/bin/\u{e4}/croc", b"rooted")]);
    assert_eq!(extract_binary_from_zip(&bytes, "croc", false).unwrap(), b"rooted");
    // On Windows a backslash parts a path, too.
    let odd = zipped(&[("bin\\croc", b"one"), ("c:croc", b"two")]);
    assert_eq!(extract_binary_from_zip(&odd, "croc", true).unwrap(), b"one");
    assert_eq!(extract_binary_from_zip(&odd, "bin\\croc", false).unwrap(), b"one");
    assert_eq!(extract_binary_from_zip(&odd, "c:croc", false).unwrap(), b"two");
    // Behind two dots there is no name: it counts as empty.
    assert_eq!(extract_binary_from_zip(&bytes, "", false).unwrap(), b"none");
}

#[test]
fn binary_is_found_in_zip_archives() {
    let bytes = zipped(&[("LICENSE", b"free"), ("bin/croc.exe", b"windows binary")]);
    assert_eq!(extract_binary_from_zip(&bytes, "croc.exe", false).unwrap(), b"windows binary");
    assert_eq!(
        extract_binary_from_zip(&bytes, "croc", false).unwrap_err(),
        "Archive did not contain expected binary 'croc'"
    );
    assert!(extract_binary_from_zip(b"no archive", "croc", false).is_err());
    assert_eq!(extract_binary("a.zip", &bytes, "license", false).unwrap(), b"free");
    assert_eq!(
        extract_binary("a.rar", &bytes, "license", false).unwrap_err(),
        "Unsupported archive format: a.rar"
    );
}

#[test]
fn first_match_ends_the_search() {
    let list = vec![
        Listed::Skipped,
        Listed::Named("readme".to_string()),
        Listed::Named("Croc".to_string()),
        Listed::Broken("late".to_string()),
    ];
    assert_eq!(find_binary(&list, "croc"), Ok(2));
    assert_eq!(find_binary(&list, "other"), Err("late".to_string()));
}

#[test]
fn carried_binaries_are_written_once() {
    assert!(matches!(extract_bundled_binary(&[], None), Bundled::Nothing));
    let data = gz(b"carried");
    assert!(matches!(extract_bundled_binary(&data, Some(7)), Bundled::Present));
    assert!(matches!(extract_bundled_binary(&data, Some(0)), Bundled::Write(v) if v == b"carried"));
    assert!(matches!(extract_bundled_binary(&data, None), Bundled::Write(v) if v == b"carried"));
    assert!(matches!(extract_bundled_binary(b"broken", None), Bundled::Nothing));
}

fn release() -> GitHubRelease {
    let names = [
        "croc_v10_checksums.txt",
        "croc_v10_Linux-64bit.tar.gz",
        "croc_v10_macOS-64bit.tar.gz",
        "croc_v10_Windows-64bit.zip",
        "sendme-v0.1-windows-x86_64.zip",
    ];
    GitHubRelease {
        tag_name: "v10".to_string(),
        assets: names
            .iter()
            .map(|n| GitHubAsset {
                name: n.to_string(),
                browser_download_url: format!("https://example.org/{}", n),
            })
            .collect(),
    }
}

#[test]
fn assets_are_chosen_by_platform() {
    let r = release();
    let name = |tool: Tool, os: &str, arch: &str| {
        find_release_asset(&tool, &r, os, arch).map(|a| a.name.clone())
    };
    assert_eq!(name(Tool::Croc, "linux", "x86_64").unwrap(), "croc_v10_Linux-64bit.tar.gz");
    assert_eq!(name(Tool::Croc, "macos", "aarch64").unwrap(), "croc_v10_macOS-64bit.tar.gz");
    assert_eq!(name(Tool::Croc, "windows", "arm").unwrap(), "croc_v10_Windows-64bit.zip");
    assert_eq!(name(Tool::Sendme, "windows", "aarch64").unwrap(), "sendme-v0.1-windows-x86_64.zip");
    assert_eq!(name(Tool::Croc, "linux", "aarch64"), None);
    assert_eq!(name(Tool::Croc, "plan9", "x86_64"), None);
    assert_eq!(sendme_asset_markers("linux", "arm"), None);
    assert_eq!(croc_asset_markers("linux", "arm"), Some(vec!["Linux-ARM"]));
}

#[test]
fn downloads_are_unpacked() {
    let d = choose_download(&Tool::Croc, Ok(release()), "linux", "x86_64").ok().unwrap();
    assert_eq!(d.asset, "croc_v10_Linux-64bit.tar.gz");
    assert_eq!(d.url, "https://example.org/croc_v10_Linux-64bit.tar.gz");
    assert_eq!(
        choose_download(&Tool::Croc, Err("offline".to_string()), "linux", "x86_64").err().unwrap(),
        "croc latest-release lookup failed: offline"
    );
    assert_eq!(
        choose_download(&Tool::Sendme, Ok(release()), "linux", "x86_64").err().unwrap(),
        "sendme has no release asset for linux-x86_64 in v10"
    );
    let bytes = tar_gz(&[("croc", b"binary")]);
    assert_eq!(unpack_download(&Tool::Croc, &d.asset, Ok(bytes), false).unwrap(), b"binary");
    assert_eq!(
        unpack_download(&Tool::Croc, &d.asset, Err("cut".to_string()), false).unwrap_err(),
        "croc download failed: cut"
    );
    assert_eq!(
        unpack_download(&Tool::Croc, "x.7z", Ok(Vec::new()), false).unwrap_err(),
        "croc extraction failed: Unsupported archive format: x.7z"
    );
    assert_eq!(curl_outcome(true, vec![1, 2], b"").unwrap(), vec![1, 2]);
    assert_eq!(curl_outcome(false, vec![1, 2], b"no \xff way").unwrap_err(), "curl download failed: no \u{fffd} way");
    assert!(is_installed(Some(3)));
    assert!(!is_installed(Some(0)));
    assert!(!is_installed(None));
}

#[test]
fn tools_are_detected() {
    let manifest = "[package]\nname = \"sendme\"\n# version = \"9\"\nversion = \"0.27.0\"\n[dependencies]\nversion = \"1\"\n";
    assert_eq!(native_sendme_version(manifest).as_deref(), Some("0.27.0"));
    assert_eq!(native_sendme_version("[dependencies]\nversion = \"1\"\n"), None);
    assert_eq!(native_sendme_version("[package]\r\nversion = \"\"\r\n"), None);

    let probe = |path: &str, out: &[u8], err: &[u8]| Probe {
        path: path.to_string(),
        output: Some((out.to_vec(), err.to_vec())),
    };
    let all = detect_all_tools(
        Some(probe("/cache/croc", b" croc version 10 \n", b"")),
        Some(probe("/usr/bin/croc", b"other", b"")),
        manifest,
    );
    assert_eq!(all.len(), 2);
    assert_eq!(all[0].version.as_deref(), Some("croc version 10 (managed)"));
    assert_eq!(all[1].version.as_deref(), Some("sendme 0.27.0 (native)"));
    assert_eq!(resolve_tool_path(&Tool::Croc, &all).as_deref(), Some("/cache/croc"));
    assert_eq!(resolve_tool_path(&Tool::Sendme, &all), None);
    assert_eq!(initial_tool(&all, SelectedTool::Croc), SelectedTool::EazySendme);

    let system = detect_tool_with_bundled(Tool::Croc, None, Some(probe("/usr/bin/croc", b"", b"v9")));
    assert_eq!(system.version.as_deref(), Some("v9 (system)"));
    let silent = detect_tool_with_bundled(Tool::Croc, None, Some(probe("/usr/bin/croc", b" ", b"")));
    assert_eq!(silent.version, None);
    assert!(silent.available);
    let none = detect_all_tools(None, None, "");
    assert!(!none[0].available);
    assert_eq!(none[1].version.as_deref(), Some("sendme (native)"));
    assert_eq!(initial_tool(&none, SelectedTool::Croc), SelectedTool::Sendme);
    assert_eq!(Tool::Croc.name(), "croc");
}

#[test]
fn places_and_addresses() {
    assert_eq!(managed_binary_name(&Tool::Croc, true), "croc.exe");
    assert_eq!(managed_binary_path(&Tool::Croc, false), vec!["databeam", "bin", "croc"]);
    assert_eq!(latest_release_url(&Tool::Croc), "https://api.github.com/repos/schollz/croc/releases/latest");
    assert_eq!(curl_arguments("u"), vec!["-fsSL", "-A", "databeam", "u"]);
    assert_eq!(escape_ps_single_quote("it's"), "it''s");
    let script = powershell_script("1.0", "http://a/b'c", "C:\\t");
    assert!(script.contains("DataBeam/1.0'"));
    assert!(script.contains("-Uri 'http://a/b''c' -OutFile 'C:\\t'"));
    assert_eq!(
        init_bundled_binaries(None, Some("x".to_string())),
        (Some("x".to_string()), None)
    );
    assert_eq!(
        init_bundled_binaries(Some("e".to_string()), Some("x".to_string())),
        (Some("e".to_string()), None)
    );
}

#[test]
fn codes_become_squares() {
    let q = qr_blocks("1234-ocean-monkey").expect("fits");
    let code = qrcode::QrCode::new(b"1234-ocean-monkey").unwrap();
    assert_eq!(q.side, code.width());
    for y in 0..q.side {
        for x in 0..q.side {
            let dark = code[(x, y)] == qrcode::types::Color::Dark;
            assert_eq!(q.dark.contains(&(x, y)), dark);
        }
    }
    assert!(qr_blocks(&"x".repeat(10_000)).is_none());
    assert_eq!(dark_modules(2, &vec![true, false, false, true]), vec![(0, 0), (1, 1)]);
    assert_eq!(dark_modules(0, &Vec::new()), Vec::new());
}

#[test]
fn icons_are_decoded() {
    let mut png = Vec::new();
    let picture = image::RgbaImage::from_fn(3, 2, |x, y| image::Rgba([x as u8, y as u8, 7, 255]));
    picture
        .write_to(&mut std::io::Cursor::new(&mut png), image::ImageFormat::Png)
        .unwrap();
    let icon = decode_icon(&png).expect("a picture");
    assert_eq!((icon.width, icon.height), (3, 2));
    assert_eq!(icon.rgba, picture.into_raw());
    assert!(decode_icon(b"not a picture").is_none());
}
