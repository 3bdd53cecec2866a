use databeam::binary64::{decode, Magnitude};
use databeam::cleanup::CleanupScan;
use databeam::desk::{is_code_too_short, item_size_label, CodeList, Desk, Outside, SendItem};
use databeam::drops::{
    counted_paths, drop_candidates, looks_like_file_drop_payload, looks_like_file_drop_payload_in,
    parse_file_drop_payload, path_from_file_uri, percent_decode_uri_component,
};
use databeam::engine::{EazyCacheEntry, Effect, TransferState};
use databeam::home::{
    code_budget, code_field_texts, drag_text, engine_cards, log_start, log_tone, qr_popup_texts,
    receive_button, tool_badge, Tone,
};
use databeam::numerals::Reading;
use databeam::sender::is_sendme_send_dir;
use databeam::session::Severity;
use databeam::settings::{
    default_sendme_one_shot, default_true, BlobDir, Choices, SendmeBlobDirMode, UserSettings,
};
use databeam::state::{AppView, SelectedTool, TransferPhase};
use databeam::status::{Body, Status};
use databeam::tools::{Tool, ToolStatus};
use databeam::tray::{set_minimize_to_tray, Toggle, Tray};
use databeam::update::{
    CrocUpdate, CrocUpdateApplyOutcome, CrocUpdateCheck, CrocUpdatePhase, UpdateEffect,
};
use databeam::window::{next_frame, toast_alpha, wake_after, Redraw, Size, WindowState};
use databeam::workspace::{dedup_codes, remember};

fn time(secs: f64) -> Magnitude {
    decode(secs.to_bits()).expect("a number").1
}

fn number(m: &Magnitude) -> f64 {
    f64::from_bits(m.to_bits())
}

fn file(path: u64, size: u64) -> SendItem {
    SendItem::new(path, false, true, Some(size))
}

fn folder(path: u64) -> SendItem {
    SendItem::new(path, true, false, None)
}

fn toasts(fx: &[Effect]) -> Vec<String> {
    fx.iter()
        .filter_map(|e| match e {
            Effect::Toast { message, .. } => Some(message.clone()),
            _ => None,
        })
        .collect()
}

#[test]
fn items_are_laid_out_once() {
    let mut d = Desk::new();
    let mut fx = Vec::new();
    assert!(!d.add_path(&mut fx, file(1, 2048)));
    assert!(d.add_path(&mut fx, folder(2)));
    assert!(!d.add_path(&mut fx, folder(2)));
    assert_eq!(d.items.len(), 2);
    assert_eq!(d.items_label(), "2 items \u{2014} 2.0 KB (estimating\u{2026})");
    assert_eq!(d.known_total_size(), None);
    d.set_size(2, 1024);
    d.set_size(9, 5);
    assert_eq!(d.known_total_size(), Some(3072));
    assert_eq!(d.items_label(), "2 items \u{2014} 3.0 KB");
    assert_eq!(d.send_paths(), vec![1, 2]);
    assert_eq!(item_size_label(&folder(7)), "\u{2026}");
    assert_eq!(item_size_label(&SendItem::new(7, false, false, None)), "0 B");
    d.remove_item(&mut fx, 0);
    assert_eq!(d.send_paths(), vec![2]);
    assert!(d.total_fits());
    d.add_path(&mut fx, file(3, u64::MAX));
    assert!(!d.total_fits());
    d.clear_items(&mut fx);
    assert!(d.items.is_empty());
    assert_eq!(SendItem::new(1, false, true, None).size, Some(0));
}

#[test]
fn dropped_items_are_taken_unless_a_transfer_runs() {
    let mut d = Desk::new();
    let mut fx = Vec::new();
    let dirs = d.drop_items(&mut fx, &vec![file(1, 1), folder(2), file(1, 1)]);
    assert_eq!(dirs, vec![2]);
    assert_eq!(d.workspace.session.view, AppView::Send);
    assert_eq!(toasts(&fx), vec!["2 items ready"]);
    d.workspace.session.state = TransferState::Running;
    let mut fx = Vec::new();
    d.drop_items(&mut fx, &vec![file(3, 1)]);
    assert_eq!(d.items.len(), 2);
    assert!(fx.is_empty());
    d.switch_view(&mut fx, AppView::Receive);
    assert_eq!(d.workspace.session.view, AppView::Send);
}

#[test]
fn text_mode_and_files_exclude_each_other() {
    let mut d = Desk::new();
    let mut fx = Vec::new();
    d.choose_send_text(&mut fx, true);
    assert_eq!(d.workspace.session.tool, SelectedTool::Croc);
    d.add_path(&mut fx, file(1, 1));
    assert!(d.items.is_empty());
    assert_eq!(toasts(&fx), vec!["Disable Croc text mode to add files/folders"]);
    assert_eq!(d.send_button(), "\u{1F40A} Send Text");
    d.workspace.preferences.text_mode = false;
    d.add_path(&mut fx, file(1, 1));
    d.choose_text_mode(&mut fx);
    assert!(!d.workspace.preferences.text_mode);
    d.add_path(&mut fx, file(2, 1));
    assert_eq!(d.send_button(), "\u{1F40A} Send 2 items");
    assert_eq!(drag_text(SelectedTool::Croc, true), "TEXT MODE SELECTED");
}

#[test]
fn tools_begin_anew() {
    let mut d = Desk::new();
    let mut fx = Vec::new();
    d.add_path(&mut fx, file(1, 1));
    d.workspace.session.receive_code = "code".to_string();
    d.switch_tool(&mut fx, SelectedTool::Croc);
    assert!(d.items.is_empty());
    assert_eq!(d.workspace.session.receive_code, "");
    assert!(matches!(fx[0], Effect::Persist));
    d.choose_broadcast(&mut fx, true);
    assert_eq!(d.workspace.session.tool, SelectedTool::Sendme);
    assert!(!d.workspace.session.serve.one_shot);
}

#[test]
fn starts_are_refused_with_a_reason() {
    let mut d = Desk::new();
    let mut fx = Vec::new();
    d.start_send(&mut fx, false, true);
    assert_eq!(toasts(&fx), vec!["Add files first"]);
    d.switch_tool(&mut Vec::new(), SelectedTool::EazySendme);
    d.add_path(&mut Vec::new(), file(1, 1));
    d.workspace.session.custom_code = "123456".to_string();
    assert!(!d.can_start_send());
    let mut fx = Vec::new();
    d.start_send(&mut fx, false, true);
    assert_eq!(toasts(&fx), vec!["Code must be at least 7 characters"]);
    d.workspace.session.custom_code = "1234567".to_string();
    assert!(d.can_start_send());
    // Characters count, not bytes, and no blanks around them.
    for short in ["\u{e4}\u{f6}\u{fc}\u{df}", "  123456  "] {
        d.workspace.session.custom_code = short.to_string();
        assert!(!d.can_start_send());
        let mut fx = Vec::new();
        d.start_send(&mut fx, false, true);
        assert_eq!(toasts(&fx), vec!["Code must be at least 7 characters"]);
    }
    d.workspace.session.custom_code = " \u{e4}\u{f6}\u{fc}4567 ".to_string();
    assert!(d.can_start_send());
    d.workspace.session.custom_code = "1234567".to_string();
    d.workspace.preferences.updating = true;
    let mut fx = Vec::new();
    d.start_send(&mut fx, false, true);
    assert_eq!(toasts(&fx), vec!["croc is updating itself, try again in a moment"]);
    d.workspace.preferences.updating = false;
    let mut fx = Vec::new();
    d.start_send(&mut fx, false, true);
    assert!(matches!(fx.last(), Some(Effect::SendmeSend { one_shot: true })));
    assert!(matches!(d.workspace.session.state, TransferState::Running));
    assert_eq!(d.workspace.preferences.eazy_recent, vec!["1234567"]);
    assert_eq!(d.workspace.session.metrics.total, Some(1));
}

#[test]
fn croc_codes_are_checked() {
    let mut d = Desk::new();
    d.switch_tool(&mut Vec::new(), SelectedTool::Croc);
    d.add_path(&mut Vec::new(), file(1, 1));
    d.workspace.preferences.use_custom_code = true;
    let mut fx = Vec::new();
    d.start_send(&mut fx, false, true);
    assert_eq!(toasts(&fx), vec!["Enter a custom code or switch to random code"]);
    d.workspace.preferences.croc_code = " 123456 ".to_string();
    let mut fx = Vec::new();
    d.start_send(&mut fx, false, true);
    assert_eq!(toasts(&fx), vec!["Croc code should be more than 6 characters"]);
    let mut fx = Vec::new();
    d.start_send(&mut fx, false, false);
    assert_eq!(toasts(&fx), vec!["Croc not found"]);
    d.workspace.preferences.croc_code = " 1234567 ".to_string();
    let mut fx = Vec::new();
    d.start_send(&mut fx, false, true);
    assert!(matches!(fx.last(), Some(Effect::CrocSend { custom_code: Some(c), text: None }) if c == "1234567"));
    assert!(is_code_too_short(" 12 "));
    assert!(!is_code_too_short("  "));
}

#[test]
fn receives_start_under_their_code() {
    let mut d = Desk::new();
    d.switch_tool(&mut Vec::new(), SelectedTool::EazySendme);
    d.workspace.session.view = AppView::Receive;
    let mut fx = Vec::new();
    d.start_receive(&mut fx, false, true, 0);
    assert_eq!(toasts(&fx), vec!["Enter a code or ticket"]);
    d.workspace.session.receive_code = " 1234-code ".to_string();
    d.workspace.session.cache.push(EazyCacheEntry {
        code: "1234-code".to_string(),
        ticket: "blobt".to_string(),
        timestamp: 1,
    });
    assert_eq!(d.ticket_to_check().as_deref(), Some("blobt"));
    assert_eq!(d.local_cache_hint(0), (false, "Cached ticket found - no local blob data yet".to_string()));
    let mut fx = Vec::new();
    d.start_receive(&mut fx, false, true, 77);
    assert!(matches!(fx.last(), Some(Effect::CheckLocal(t)) if t == "blobt"));
    assert!(d.workspace.session.log[0].contains("77 bytes"));
    // Ten seconds later the look is given up.
    d.workspace.session.now = time(10.0);
    let mut fx = Vec::new();
    let gave_up = d.on_frame(&mut fx, &Outside { croc_there: true, disk_size: 0, unix_secs: 5 });
    assert!(gave_up);
    assert_eq!(next_frame(&d.workspace.session, gave_up), Redraw::Now);
    assert_eq!(next_frame(&d.workspace.session, false), Redraw::Soon);
    assert!(fx.iter().any(|e| matches!(e, Effect::CheckLocal(_))));
    assert!(matches!(d.workspace.session.state, TransferState::Running));
    d.workspace.session.cache.clear();
    d.workspace.session.eazy.ticket = None;
    assert_eq!(d.local_cache_hint(3).1, "No local cache for this code");
    d.workspace.session.receive_code = " ".to_string();
    assert_eq!(d.local_cache_hint(3).1, "No code entered");
}

#[test]
fn failures_are_retried_when_due() {
    let mut d = Desk::new();
    d.switch_tool(&mut Vec::new(), SelectedTool::EazySendme);
    d.workspace.session.view = AppView::Receive;
    d.workspace.session.receive_code = "1234-code".to_string();
    d.workspace.session.state = TransferState::Failed("lost".to_string());
    d.workspace.session.eazy.next_retry = Some(time(5.0));
    let outside = Outside { croc_there: true, disk_size: 0, unix_secs: 5 };
    let mut fx = Vec::new();
    d.workspace.session.now = time(4.9);
    assert!(!d.on_frame(&mut fx, &outside));
    assert!(fx.is_empty());
    assert_eq!(next_frame(&d.workspace.session, false), Redraw::Now);
    assert_eq!(next_frame(&Desk::new().workspace.session, false), Redraw::Idle);
    d.workspace.session.now = time(5.0);
    d.on_frame(&mut fx, &outside);
    assert!(matches!(fx.last(), Some(Effect::CrocReceive { code, into_chosen: false }) if code == "1234-code"));
    assert!(d.workspace.session.eazy.next_retry.is_none());
}

#[test]
fn blocked_retries_come_due_again() {
    let mut d = Desk::new();
    d.switch_tool(&mut Vec::new(), SelectedTool::EazySendme);
    d.workspace.session.view = AppView::Receive;
    d.workspace.session.receive_code = "1234-code".to_string();
    d.workspace.session.state = TransferState::Failed("lost".to_string());
    d.workspace.session.eazy.next_retry = Some(time(5.0));
    d.workspace.preferences.updating = true;
    let outside = Outside { croc_there: true, disk_size: 0, unix_secs: 5 };
    let mut fx = Vec::new();
    d.workspace.session.now = time(6.0);
    d.on_frame(&mut fx, &outside);
    assert!(matches!(&d.workspace.session.state, TransferState::Failed(e) if e == "lost"));
    assert_eq!(d.workspace.session.eazy.next_retry.as_ref().map(number), Some(11.0));
    assert!(!fx.iter().any(|e| matches!(e, Effect::CrocReceive { .. } | Effect::Toast { .. })));
    // Once croc is ready, the retry begins.
    d.workspace.preferences.updating = false;
    let mut fx = Vec::new();
    d.workspace.session.now = time(10.9);
    d.on_frame(&mut fx, &outside);
    assert!(fx.is_empty());
    d.workspace.session.now = time(11.0);
    d.on_frame(&mut fx, &outside);
    assert!(matches!(fx.last(), Some(Effect::CrocReceive { code, .. }) if code == "1234-code"));
    assert!(matches!(d.workspace.session.state, TransferState::Running));
    // A retry that the user asks for is refused, and nothing is kept of the failure.
    d.workspace.session.state = TransferState::Failed("lost".to_string());
    d.workspace.preferences.updating = true;
    let mut fx = Vec::new();
    d.retry_receive(&mut fx, false, true, 0, 5);
    assert_eq!(toasts(&fx), vec!["croc is updating itself, try again in a moment"]);
    assert!(matches!(d.workspace.session.state, TransferState::Idle));
}

#[test]
fn stored_codes_stand_once() {
    let entry = |code: &str, ticket: &str| EazyCacheEntry {
        code: code.to_string(),
        ticket: ticket.to_string(),
        timestamp: 1,
    };
    let mut d = Desk::new();
    let mut stored = d.user_settings(&Choices::new());
    stored.cache = vec![entry("a", "first"), entry("b", "other"), entry("a", "last")];
    d.load_user_settings(stored);
    let cache = &d.workspace.session.cache;
    assert_eq!(cache.len(), 2);
    assert_eq!((cache[0].code.as_str(), cache[0].ticket.as_str()), ("a", "last"));
    assert_eq!((cache[1].code.as_str(), cache[1].ticket.as_str()), ("b", "other"));
}

#[test]
fn codes_are_remembered() {
    let mut codes: Vec<String> = Vec::new();
    for c in ["aaaaaaa", "bbbbbbb", "aaaaaaa", "ccccccc", "ddddddd", "eeeeeee", "fffffff"] {
        remember(&mut codes, c);
    }
    assert_eq!(codes, vec!["fffffff", "eeeeeee", "ddddddd", "ccccccc", "aaaaaaa"]);
    let stored: Vec<String> = ["short", " aaaaaaa ", "aaaaaaa", "bbbbbbb"].iter().map(|s| s.to_string()).collect();
    assert_eq!(dedup_codes(&stored), vec!["aaaaaaa", "bbbbbbb"]);
    let mut d = Desk::new();
    d.workspace.preferences.croc_recent = codes;
    d.choose_custom_code(true);
    assert_eq!(d.workspace.preferences.croc_code, "fffffff");
    d.pick_code(CodeList::Croc, 2);
    assert_eq!(d.workspace.preferences.croc_code, "ddddddd");
    d.pick_code(CodeList::Croc, 9);
    assert_eq!(d.workspace.preferences.croc_code, "ddddddd");
    let mut fx = Vec::new();
    d.forget_codes(&mut fx, CodeList::Croc);
    assert!(d.workspace.preferences.croc_recent.is_empty());
}

#[test]
fn pickers_open_one_at_a_time() {
    let mut d = Desk::new();
    assert!(d.picker_ready());
    assert!(d.launch_picker());
    assert!(!d.launch_picker());
    assert_eq!(number(&d.picker.block_until), 0.15);
    d.workspace.session.now = time(2.0);
    d.on_picker_closed();
    assert!(!d.picker_ready());
    assert_eq!(number(&d.picker.block_until), 2.2);
    d.workspace.session.now = time(2.3);
    assert!(d.picker_ready());
}

fn settings() -> UserSettings {
    UserSettings {
        croc_recent_codes: vec![" aaaaaaa".to_string(), "x".to_string()],
        eazysendme_recent_codes: Vec::new(),
        croc_receive_recent_codes: Vec::new(),
        receive_output_dir: Some(String::new()),
        sendme_blob_dir_mode: SendmeBlobDirMode::Custom,
        sendme_blob_custom_dir: Some("/blobs".to_string()),
        sendme_one_shot: false,
        eazysendme_custom_code: "1234567".to_string(),
        eazysendme_auto_retry: false,
        croc_custom_code: "7654321".to_string(),
        croc_use_custom_code: true,
        minimize_to_tray: false,
        tray_debug_log: true,
        cache: vec![EazyCacheEntry { code: "c".to_string(), ticket: "t".to_string(), timestamp: 3 }],
    }
}

#[test]
fn settings_are_read_back() {
    let mut d = Desk::new();
    let mut c = d.load_user_settings(settings());
    assert_eq!(d.workspace.preferences.croc_recent, vec!["aaaaaaa"]);
    assert!(d.workspace.session.eazy.auto_retry);
    assert_eq!(c.receive_dir, None);
    assert_eq!(c.effective_sendme_blob_dir(), BlobDir::Chosen);
    assert_eq!(c.sendme_blob_dir_summary("/tmp", &None), "/blobs");
    let stored = d.user_settings(&c);
    assert_eq!(stored.croc_recent_codes, vec!["aaaaaaa"]);
    assert!(!stored.minimize_to_tray);
    assert!(stored.tray_debug_log);
    assert_eq!(stored.cache.len(), 1);
    let mut again = Desk::new();
    let c2 = again.load_user_settings(stored);
    assert_eq!(again.workspace.preferences.croc_code, "7654321");
    assert_eq!(again.workspace.session.cache[0].ticket, "t");
    assert_eq!(c2.blob_dir.as_deref(), Some("/blobs"));
    c.clear_blob_dir();
    assert_eq!(c.effective_sendme_blob_dir(), BlobDir::System);
    c.choose_blob_dir("/x".to_string());
    assert_eq!(c.blob_mode, SendmeBlobDirMode::Custom);
    assert!(default_true());
    assert!(default_sendme_one_shot());
    assert!(Choices::new().minimize_to_tray);
}

#[test]
fn leftovers_are_found() {
    let mut d = Desk::new();
    for (code, ticket, timestamp) in [("a", "t1", 1), ("b", "t2", 0), ("c", "t1", 2), ("d", "t3", 900_000)] {
        d.workspace.session.cache.push(EazyCacheEntry {
            code: code.to_string(),
            ticket: ticket.to_string(),
            timestamp,
        });
    }
    let hashes: Vec<Option<String>> = ["h1", "h2", "h1", "h3"].iter().map(|h| Some(h.to_string())).collect();
    assert_eq!(d.workspace.session.expired(&hashes, 604_803), vec!["h1"]);
    assert!(d.workspace.session.expired(&hashes, 604_801).is_empty());
    let mut scan = CleanupScan::new();
    scan.look_at(1, ".sendme-recv-h1", true, 2_000_000, &hashes);
    scan.look_at(2, ".sendme-recv-zz", true, 1_048_576, &hashes);
    scan.look_at(3, ".sendme-recv-zz", false, 2_000_000, &hashes);
    scan.look_at(4, "other", true, 2_000_000, &hashes);
    assert!(!scan.found_some());
    scan.look_at(5, ".sendme-recv-zz", true, 2_097_152, &hashes);
    scan.look_at(5, ".sendme-recv-zz", true, 2_097_152, &hashes);
    assert_eq!(scan.targets, vec![5]);
    assert_eq!(scan.summary(), "Found 1 folder(s) using 2.00 MiB.");
}

#[test]
fn dropped_texts_name_files() {
    assert!(looks_like_file_drop_payload("file:///tmp/a", false));
    assert!(!looks_like_file_drop_payload("just text", false));
    assert!(!looks_like_file_drop_payload("two\nlines", false));
    assert!(looks_like_file_drop_payload("COPY\nname", false));
    assert!(!looks_like_file_drop_payload("  ", false));
    assert!(looks_like_file_drop_payload_in("a\nb", &vec![false, true]));
    assert_eq!(percent_decode_uri_component("a%20b%2"), "a b%2");
    assert_eq!(percent_decode_uri_component("%e2%82%AC%zz"), "\u{20ac}%zz");
    assert_eq!(percent_decode_uri_component("%ff"), "\u{fffd}");
    assert_eq!(path_from_file_uri("file:///tmp/a%20b#x", false).as_deref(), Some("/tmp/a b"));
    assert_eq!(path_from_file_uri("file://localhost/tmp/a?q", false).as_deref(), Some("/tmp/a"));
    assert_eq!(path_from_file_uri("file://host/tmp/a", false).as_deref(), Some("/tmp/a"));
    assert_eq!(path_from_file_uri("file://host", false), None);
    assert_eq!(path_from_file_uri("http://x", false), None);
    assert_eq!(path_from_file_uri("file:///C:/a%20b", true).as_deref(), Some("C:/a b"));
    assert_eq!(path_from_file_uri("file://localhost/C:/a", true).as_deref(), Some("C:/a"));
    assert_eq!(path_from_file_uri("file:///", true), None);
    let text = "copy\n# comment\nfile:///tmp/a\r\n\"/tmp/b\"\nrelative\n";
    let c = drop_candidates(text, false);
    assert_eq!(c.len(), 3);
    assert!(c[0].from_uri);
    assert_eq!(c[1].path, "/tmp/b");
    assert_eq!(counted_paths(&c, &vec![false, true, false]), vec!["/tmp/a", "/tmp/b"]);
    assert_eq!(parse_file_drop_payload("file:///tmp/a\nrelative", false), vec!["/tmp/a"]);
    // A path that begins with a slash is absolute, but for Windows.
    assert_eq!(parse_file_drop_payload("/tmp/b\nc:\\b", false), vec!["/tmp/b"]);
    assert!(looks_like_file_drop_payload("x\n/tmp/b", false));
    assert!(!looks_like_file_drop_payload("x\nc:\\b", false));
    // There, one that begins with a drive is; of shares the system decides.
    assert_eq!(parse_file_drop_payload("/tmp/b\nc:\\b\nD:/x\nc:x\nrelative", true), vec!["c:\\b", "D:/x"]);
    assert!(looks_like_file_drop_payload("x\nc:\\b", true));
    assert!(!looks_like_file_drop_payload("x\n/tmp/b", true));
    assert_eq!(parse_file_drop_payload("\\\\server\\share\nrelative", true).len(), 1);
    let absolute = std::path::Path::new("//server/share").is_absolute();
    assert_eq!(parse_file_drop_payload("//server/share", true).len(), absolute as usize);
    assert_eq!(looks_like_file_drop_payload("x\n//server/share", true), absolute);
    // White space around a payload changes nothing.
    let wide = " \r\n\t/tmp/b\r\nfile:///tmp/c \n\n ";
    assert_eq!(parse_file_drop_payload(wide, false), vec!["/tmp/b", "/tmp/c"]);
    assert_eq!(parse_file_drop_payload(wide.trim(), false), vec!["/tmp/b", "/tmp/c"]);
    assert!(!looks_like_file_drop_payload("\n/tmp/b\n", false));
}

// ── Updates of croc ──

fn kinds(fx: &[UpdateEffect]) -> Vec<&'static str> {
    fx.iter()
        .map(|e| match e {
            UpdateEffect::Log(_) => "log",
            UpdateEffect::Toast { .. } => "toast",
            UpdateEffect::StartCheck => "check",
            UpdateEffect::StartApply => "apply",
            UpdateEffect::StartMigration => "migrate",
            UpdateEffect::Refresh => "refresh",
        })
        .collect()
}

fn outcome(updated: bool, needs_redownload: bool) -> CrocUpdateApplyOutcome {
    CrocUpdateApplyOutcome {
        updated,
        already_up_to_date: false,
        not_writable: false,
        needs_redownload,
        new_version: None,
    }
}

#[test]
fn croc_is_updated_in_steps() {
    let mut u = CrocUpdate::new();
    assert!(kinds(&u.maybe_trigger_croc_update_check(&time(0.0), true, true, true)).is_empty());
    assert_eq!(kinds(&u.maybe_trigger_croc_update_check(&time(0.0), false, true, true)), vec!["check"]);
    assert_eq!(u.croc_update_status_line().as_deref(), Some("croc: checking for updates\u{2026}"));
    assert!(kinds(&u.start_croc_update_check(false, true)).is_empty());
    let found = CrocUpdateCheck::Available { current: "1".to_string(), latest: "2".to_string() };
    let fx = u.on_check(Ok(found), &time(1.0), false, true);
    assert_eq!(kinds(&fx), vec!["log", "toast", "apply"]);
    assert!(matches!(&fx[0], UpdateEffect::Log(s) if s == "croc update available (1 \u{2192} 2), updating\u{2026}"));
    assert_eq!(u.phase(), CrocUpdatePhase::Updating);
    let fx = u.on_apply(Ok(outcome(true, false)), Some("1".to_string()), Some("2".to_string()), false, true);
    assert_eq!(kinds(&fx), vec!["refresh", "log", "toast"]);
    assert!(matches!(&fx[1], UpdateEffect::Log(s) if s == "croc updated (1 \u{2192} 2)"));
    assert_eq!(u.phase(), CrocUpdatePhase::Idle);
    assert!(u.croc_update_status_line().is_none());
    assert!(u.maybe_trigger_croc_update_check(&time(21600.9), false, true, true).is_empty());
    assert_eq!(kinds(&u.maybe_trigger_croc_update_check(&time(21601.0), false, true, true)), vec!["check"]);
    u.on_check_lost();
    assert_eq!(u.phase(), CrocUpdatePhase::Idle);
}

#[test]
fn foreign_crocs_are_left_alone() {
    let mut u = CrocUpdate::new();
    u.start_croc_update_check(false, true);
    assert_eq!(kinds(&u.on_check(Ok(CrocUpdateCheck::Unsupported), &time(1.0), false, false)), vec!["log"]);
    u.start_croc_update_check(false, true);
    assert_eq!(kinds(&u.on_check(Ok(CrocUpdateCheck::Unsupported), &time(1.0), false, true)), vec!["migrate"]);
    let fx = u.on_migration(Some("v3".to_string()));
    assert!(matches!(&fx[1], UpdateEffect::Toast { message, severity: Severity::Success } if message == "croc updated (v3)"));
    u.start_croc_update_check(false, true);
    let fx = u.on_check(Ok(CrocUpdateCheck::Unknown { raw: "x".repeat(200) }), &time(1.0), false, true);
    assert!(matches!(&fx[0], UpdateEffect::Log(s) if s.len() == 48 + 120));
    u.start_croc_update_check(false, true);
    let fx = u.on_check(Err("offline".to_string()), &time(1.0), false, true);
    assert!(matches!(&fx[0], UpdateEffect::Log(s) if s == "croc update check failed: offline"));
    u.start_croc_update_check(false, true);
    assert_eq!(kinds(&u.on_check(Ok(CrocUpdateCheck::NotWritable), &time(1.0), false, true)), vec!["refresh"]);
    assert_eq!(kinds(&u.on_apply(Ok(outcome(false, true)), None, None, false, true)), vec!["log", "migrate"]);
    assert_eq!(kinds(&u.on_migration(None)), vec!["log"]);
    assert_eq!(kinds(&u.on_apply(Ok(outcome(false, true)), None, None, false, false)), vec!["log", "refresh"]);
    assert_eq!(kinds(&u.on_apply(Err("no".to_string()), None, None, false, true)), vec!["log", "toast"]);
    assert_eq!(kinds(&u.check_on_request(true, true)), vec!["toast"]);
    u.on_apply_lost();
    u.on_migration_lost();
    assert_eq!(u.phase(), CrocUpdatePhase::Idle);
}

// ── What is shown ──

#[test]
fn running_transfers_are_described() {
    let mut d = Desk::new();
    let s = &mut d.workspace.session;
    s.state = TransferState::Running;
    s.view = AppView::Receive;
    s.start_time = Some(time(1.0));
    s.now = time(68.5);
    assert_eq!(s.running_clock().as_deref(), Some("1:07"));
    assert_eq!(s.status_word().as_deref(), Some("preparing"));
    s.metrics.total = Some(1536);
    match s.transfer_status() {
        Status::Running { text, clock, body: Body::Pulse { label, total }, .. } => {
            assert_eq!(text, "Preparing\u{2026}");
            assert_eq!(clock.as_deref(), Some("1:07"));
            assert_eq!(label, "Preparing ...");
            assert_eq!(total.as_deref(), Some("Total:    1.5 KB"));
        }
        _ => panic!("running"),
    }
    s.metrics.phase = TransferPhase::Transferring;
    s.metrics.done = Some(768);
    assert_eq!(s.status_word().as_deref(), Some("50%"));
    match s.transfer_status() {
        Status::Running { text, body: Body::Panel(p), .. } => {
            assert_eq!(text, "Downloading\u{2026}");
            assert_eq!(p.transferred_label, "768 B / 1.5 KB");
            assert_eq!(p.percent_label, "50.0%");
        }
        _ => panic!("running"),
    }
    s.view = AppView::Send;
    s.serve.one_shot = false;
    s.serve.active_transfers = 1;
    match s.transfer_status() {
        Status::Running { text, body: Body::Broadcast { line, count, payload }, .. } => {
            assert_eq!(text, "Broadcast mode active...");
            assert_eq!(line, "Broadcast mode active");
            assert_eq!(count, "1 transfer in progress");
            assert_eq!(payload.as_deref(), Some("Payload: 1.5 KB"));
        }
        _ => panic!("running"),
    }
}

#[test]
fn finished_transfers_are_described() {
    let mut d = Desk::new();
    let s = &mut d.workspace.session;
    s.state = TransferState::Completed;
    s.tool = SelectedTool::Croc;
    s.route = Some("Direct".to_string());
    s.view = AppView::Send;
    s.metrics.total = Some(2048);
    s.metrics.done = Some(1024);
    s.start_time = Some(time(0.0));
    s.metrics.payload_start = Some(time(10.0));
    s.end_time = Some(time(75.0));
    match s.transfer_status() {
        Status::Completed { clock, data, progress, speed, elapsed, route } => {
            assert_eq!(clock.as_deref(), Some("1:05"));
            assert_eq!(data.as_deref(), Some("Uploaded (sender):    1.0 KB /    2.0 KB"));
            assert_eq!(progress.as_deref(), Some("Upload progress (sender):  50.0%"));
            assert_eq!(speed.as_deref(), Some("Avg upload speed:      15 B/s"));
            assert_eq!(elapsed.as_deref(), Some("Elapsed: 1:05"));
            assert_eq!(route.as_deref(), Some("Direct"));
        }
        _ => panic!("completed"),
    }
    s.state = TransferState::Failed("lost".to_string());
    assert!(matches!(s.transfer_status(), Status::Failed { message, .. } if message == "lost"));
    s.code = Some("1234-x".to_string());
    assert_eq!(s.shared_code(), None);
    s.metrics.phase = TransferPhase::WaitingForReceiver;
    assert_eq!(s.shared_code(), Some(("Share this code:".to_string(), "1234-x".to_string())));
    s.tool = SelectedTool::Sendme;
    s.view = AppView::Receive;
    assert_eq!(s.shared_code(), None);
    s.state = TransferState::Idle;
    assert!(matches!(s.transfer_status(), Status::Idle));
}

#[test]
fn cards_show_what_is_there() {
    let v = vec![
        ToolStatus { tool: Tool::Croc, available: false, path: None, version: None },
        ToolStatus { tool: Tool::Sendme, available: true, path: None, version: Some("sendme 1".to_string()) },
    ];
    let cards = engine_cards(&v, SelectedTool::Sendme, true);
    assert_eq!(cards.len(), 3);
    assert_eq!(cards[0].status, "missing");
    assert_eq!(cards[1].status, "sendme 1");
    assert!(cards[1].selected);
    assert!(!cards[2].selected);
    assert_eq!(engine_cards(&v, SelectedTool::Sendme, false).len(), 1);
    assert_eq!(log_tone("Transfer FAILED"), Tone::Error);
    assert_eq!(log_tone("100% there"), Tone::Success);
    assert_eq!(log_tone("warning"), Tone::Warning);
    assert_eq!(log_tone("hello"), Tone::Plain);
    assert_eq!(log_start(250), 50);
    assert_eq!(log_start(3), 0);
    assert_eq!(code_budget(120), 20);
    assert_eq!(code_budget(400), 50);
    assert_eq!(code_budget(4000), 72);
}

#[test]
fn windows_and_notes() {
    let size = |w: f64, h: f64| Size {
        width: Reading::from_bits(w.to_bits()),
        height: Reading::from_bits(h.to_bits()),
    };
    let mut w = WindowState::new();
    assert!(w.on_frame(&size(100.0, 100.0)).is_some());
    assert!(w.on_frame(&size(100.0, 100.0)).is_none());
    w.on_frame(&size(700.0, 500.0));
    w.on_frame(&size(f64::NAN, 500.0));
    assert!(matches!(&w.last_good.width, Reading::Number { size, .. } if number(size) == 700.0));
    assert_eq!(toast_alpha(&time(1.0), &time(0.0)), Some(255));
    assert_eq!(toast_alpha(&time(2.5), &time(0.0)), Some(127));
    assert_eq!(toast_alpha(&time(3.1), &time(0.0)), None);
    assert_eq!(wake_after(&time(5.0), &Some(time(7.5))).map(|m| number(&m)), Some(2.5));
    assert_eq!(wake_after(&time(5.0), &Some(time(99999.0))).map(|m| number(&m)), Some(3600.0));
    assert_eq!(wake_after(&time(5.0), &Some(time(1.0))).map(|m| number(&m)), Some(0.0));
    assert!(wake_after(&time(5.0), &None).is_none());
    let mut on = true;
    assert_eq!(set_minimize_to_tray(&mut on, true, false), Toggle::Nothing);
    assert_eq!(set_minimize_to_tray(&mut on, false, true), Toggle::Remove);
    assert!(!on);
    assert_eq!(set_minimize_to_tray(&mut on, true, false), Toggle::Create);
    assert!(on);
}

#[test]
fn tray_toggle_setter_drives_init_drop_and_persist() {
    let desk = Desk::new();
    let mut choices = Choices::new();
    assert!(choices.minimize_to_tray);

    // OFF: flips the choice, which is then kept (no icon was ever created).
    let mut tray = Tray::new();
    assert_eq!(set_minimize_to_tray(&mut choices.minimize_to_tray, false, false), Toggle::Remove);
    tray.remove();
    assert!(!choices.minimize_to_tray);
    assert!(!tray.is_active());
    assert!(!desk.user_settings(&choices).minimize_to_tray);

    // ON: flips back and asks for an icon.
    assert_eq!(set_minimize_to_tray(&mut choices.minimize_to_tray, true, false), Toggle::Create);
    assert!(choices.minimize_to_tray);

    // Same value: nothing is done, still on.
    assert_eq!(set_minimize_to_tray(&mut choices.minimize_to_tray, true, false), Toggle::Nothing);
    assert!(choices.minimize_to_tray);
    assert!(desk.user_settings(&choices).minimize_to_tray);
}

#[test]
fn cleanup_removes_only_sendme_send_dirs() {
    assert!(is_sendme_send_dir(".sendme-send-a"));
    assert!(is_sendme_send_dir(".sendme-send-b"));
    assert!(!is_sendme_send_dir("keep-dir"));
    assert!(!is_sendme_send_dir(".sendme-recv-a"));
}

#[test]
fn words_for_a_tool() {
    assert_eq!(qr_popup_texts(SelectedTool::Croc), ("Croc QR", "Scan or copy this code"));
    assert_eq!(qr_popup_texts(SelectedTool::Sendme).0, "Sendme QR");
    assert_eq!(code_field_texts(SelectedTool::Sendme), ("Ticket", "paste ticket here"));
    assert_eq!(code_field_texts(SelectedTool::Croc).0, "Code Phrase");
    assert_eq!(tool_badge(SelectedTool::EazySendme), "\u{26A1} eazysendme");
    assert_eq!(receive_button(SelectedTool::Croc), "\u{1F40A} Receive");
}
