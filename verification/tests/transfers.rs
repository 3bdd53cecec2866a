use databeam::binary64::{decode, Magnitude};
use databeam::croc::{
    parse_croc_bar_frame, parse_croc_file_counter_progress, parse_croc_total_size_hint,
    parse_go_duration, parse_stage_progress,
};
use databeam::desk::Desk;
use databeam::display::format_eta_compact;
use databeam::engine::{is_relay_dns_failure_line, Environment, Session, TransferState};
use databeam::messages::{extract_croc_received_text, extract_croc_received_text_from_logs};
use databeam::numerals::Reading;
use databeam::progress::parse_payload_progress;
use databeam::sendme::{
    normalize_sendme_ticket, parse_sendme_imported_size_hint, parse_sendme_item_index,
    parse_sendme_total_files_hint,
};
use databeam::state::{AppView, SelectedTool, TransferPhase};
use databeam::transfer::TransferMsg;
use databeam::tray::pick_restore_hwnd;
use databeam::window::{restore_size_override, Size};

fn fresh() -> Session {
    Desk::new().workspace.session
}

fn time(secs: f64) -> Magnitude {
    decode(secs.to_bits()).expect("a number").1
}

fn part(progress: f32) -> Magnitude {
    time(progress as f64)
}

fn reading(value: f64) -> Reading {
    Reading::from_bits(value.to_bits())
}

fn seconds(m: &Magnitude) -> f64 {
    f64::from_bits(m.to_bits())
}

fn single(m: &Magnitude) -> f32 {
    seconds(m) as f32
}

fn double(r: &Reading) -> f64 {
    match r {
        Reading::Nan => f64::NAN,
        Reading::Number { negative: false, size } => seconds(size),
        Reading::Number { negative: true, size } => -seconds(size),
    }
}

fn poll(app: &mut Session, msg: TransferMsg) {
    let env = Environment {
        direction: None,
        croc_there: true,
        unix_secs: 0,
        hashes: Vec::new(),
    };
    app.on_message(msg, &env);
    app.on_silence();
}

fn size(s: [f32; 2]) -> Size {
    Size { width: reading(s[0] as f64), height: reading(s[1] as f64) }
}

fn forced(current: [f32; 2], last_good: [f32; 2]) -> Option<[f32; 2]> {
    restore_size_override(&size(current), &size(last_good))
        .map(|s| [double(&s.width) as f32, double(&s.height) as f32])
}

#[test]
fn stage_progress_parses_bracket_with_spinner() {
    let line = "[1/4]⠁ Connecting ... [00:00:00]";
    let (done, total) = parse_stage_progress(line).expect("stage progress");
    let p = done as f32 / total as f32;
    assert!((p - 0.25).abs() < f32::EPSILON);
}

#[test]
fn relay_dns_failure_line_matches_resolver_errors() {
    // Exact line shape reported against Quad9 DNS.
    assert!(is_relay_dns_failure_line(
        "relay connection failed: could not connect to 3.getcroc.com:9009: 3.getcroc.com:9009: comm.NewConnection failed: dial tcp: lookup 3.getcroc.com: i/o timeout"
    ));
    assert!(is_relay_dns_failure_line(
        "dial tcp: lookup 1.getcroc.com: no such host"
    ));
    assert!(is_relay_dns_failure_line(
        "temporary failure in name resolution"
    ));
    assert!(!is_relay_dns_failure_line(
        "peer error: refusing files"
    ));
    assert!(!is_relay_dns_failure_line(
        "Sending (->peer)"
    ));
    assert!(!is_relay_dns_failure_line(
        "Process exited with code: exit code: 1"
    ));
}

#[test]
fn payload_progress_parses_mib_ratio() {
    let line = "Downloading ... 8.98 MiB/19.02 MiB 35.34 MiB/s";
    let (done, total) = parse_payload_progress(line).expect("payload progress");
    assert!(done > 0);
    assert!(total > done);
}

#[test]
fn payload_progress_parses_spaced_ratio() {
    let line = "progress 11 MB / 22 MB speed 5 MB/s";
    let (done, total) = parse_payload_progress(line).expect("payload progress");
    assert_eq!(done * 2, total);
}

#[test]
fn payload_progress_parses_mixed_units() {
    let line = "Downloading ... [##>-----] 57.0 MB/6.3 GB 10.08 MiB/s";
    let (done, total) = parse_payload_progress(line).expect("payload progress");
    assert!(done > 50 * 1024 * 1024);
    assert!(total > 6_000_000_000);
    assert!(total > done);
}

#[test]
fn croc_file_counter_progress_parses() {
    let line = "f_99.bin  100% |████████████████████| (16/16 kB, 1.5 MB/s) 300/300";
    let (done, total) = parse_croc_file_counter_progress(line).expect("counter progress");
    assert_eq!(done, 300);
    assert_eq!(total, 300);
}

#[test]
fn croc_file_counter_progress_parses_small_totals() {
    let line = "tiny.bin 100% |████████████████████| (6/6 kB, 1.0 MB/s) 3/3";
    let (done, total) = parse_croc_file_counter_progress(line).expect("counter progress");
    assert_eq!(done, 3);
    assert_eq!(total, 3);
}

#[test]
fn croc_file_counter_progress_ignores_stage_ratio() {
    let line = "[1/4] Getting sizes... [00:00:00]";
    assert!(parse_croc_file_counter_progress(line).is_none());
}

#[test]
fn croc_total_size_hint_parses() {
    // croc's session header uses base-1024 units: 6.4 GB -> 6.4 * 1024^3
    let line = "Sending 57865 files (6.4 GB)";
    let total = parse_croc_total_size_hint(line).expect("croc total");
    assert!(total > 6_800_000_000u64, "unexpected total: {total}");
    assert!(total < 6_900_000_000u64, "unexpected total: {total}");
}

#[test]
fn croc_total_size_hint_uses_binary_units() {
    // Real capture: payload of 62,974,560 bytes printed as "60.1 MB".
    let line = "Receiving 4 files (60.1 MB)";
    let total = parse_croc_total_size_hint(line).expect("croc total");
    assert_eq!(total, 63_019_417);
}

#[test]
fn croc_total_size_hint_ignores_per_file_lines() {
    let line = "sending databeam_QWIXer/readme.txt (6.0 KB)";
    assert!(parse_croc_total_size_hint(line).is_none());
}

#[test]
fn croc_bar_frame_parses_mid_transfer() {
    let line =
        "\rscan641.pdf  56% |███████             | (56.2/600.7 MB, 4.46 MB/s) [1m3s:2m3s]";
    let frame = parse_croc_bar_frame(line).expect("frame");
    assert_eq!(frame.file_name, "scan641.pdf");
    assert_eq!(frame.done_bytes, 56_200_000);
    assert_eq!(frame.total_bytes, 600_700_000);
    assert_eq!(frame.speed_bps.as_ref().map(double), Some(4_460_000.0));
    assert_eq!(frame.eta_secs.as_ref().map(seconds), Some(123.0));
}

#[test]
fn croc_bar_frame_parses_single_digit_percent() {
    let line = "\rtiny.bin   9% |█                   | (16/16 kB, 1.5 MB/s) [0s:0s]";
    let frame = parse_croc_bar_frame(line).expect("frame");
    assert_eq!(frame.file_name, "tiny.bin");
    assert_eq!(frame.done_bytes, 16_000);
    assert_eq!(frame.total_bytes, 16_000);
    assert_eq!(frame.speed_bps.as_ref().map(double), Some(1_500_000.0));
    assert_eq!(frame.eta_secs.as_ref().map(seconds), Some(0.0));
}

#[test]
fn croc_bar_frame_final_frame_has_no_brackets() {
    let line = "\rf.bin 100% |████████████████████| (1500/1500 B, 1.0 MB/s)";
    let frame = parse_croc_bar_frame(line).expect("frame");
    assert_eq!(frame.done_bytes, 1500);
    assert_eq!(frame.total_bytes, 1500);
    assert_eq!(frame.speed_bps.as_ref().map(double), Some(1_000_000.0));
    assert_eq!(frame.eta_secs.as_ref().map(seconds), None);
}

#[test]
fn croc_bar_frame_parses_mixed_suffixes() {
    let line =
        "\rbig.iso  42% |████████            | (210 MB/5 GB, 12.5 MB/s) [4m10s:5m50s]";
    let frame = parse_croc_bar_frame(line).expect("frame");
    assert_eq!(frame.done_bytes, 210_000_000);
    assert_eq!(frame.total_bytes, 5_000_000_000);
    assert_eq!(frame.speed_bps.as_ref().map(double), Some(12_500_000.0));
    assert_eq!(frame.eta_secs.as_ref().map(seconds), Some(350.0));
}

#[test]
fn croc_bar_frame_without_speed_is_ok() {
    let line = "\rf.bin  10% |██                  | (60.07/600.7 MB)";
    let frame = parse_croc_bar_frame(line).expect("frame");
    assert_eq!(frame.done_bytes, 60_070_000);
    assert_eq!(frame.total_bytes, 600_700_000);
    assert_eq!(frame.speed_bps.as_ref().map(double), None);
    assert_eq!(frame.eta_secs.as_ref().map(seconds), None);
}

#[test]
fn croc_bar_frame_rejects_non_frames() {
    assert!(parse_croc_bar_frame("").is_none());
    assert!(parse_croc_bar_frame("[1/4] Getting sizes... [00:00:00]").is_none());
    assert!(parse_croc_bar_frame("Sending 2 files (6.4 GB)").is_none());
    assert!(
        parse_croc_bar_frame("n abc r 123/0 i 474 # hash [] 6.7 KiB/6.7 KiB").is_none(),
        "sendme lines must not match"
    );
    assert!(parse_croc_bar_frame("50% off sale |buy now| today").is_none());
}

#[test]
fn go_duration_parses_variants() {
    assert_eq!(parse_go_duration("45s").as_ref().map(seconds), Some(45.0));
    assert_eq!(parse_go_duration("2m3s").as_ref().map(seconds), Some(123.0));
    assert_eq!(parse_go_duration("1h4m5s").as_ref().map(seconds), Some(3845.0));
    assert_eq!(parse_go_duration("1m30.5s").as_ref().map(seconds), Some(90.5));
    assert_eq!(parse_go_duration("0s").as_ref().map(seconds), Some(0.0));
    assert_eq!(parse_go_duration("").as_ref().map(seconds), None);
    assert_eq!(parse_go_duration("00:00:00").as_ref().map(seconds), None);
    assert_eq!(parse_go_duration("abc").as_ref().map(seconds), None);
}

#[test]
fn eta_formatting_compacts() {
    assert_eq!(format_eta_compact(&reading(45.0)), "45s");
    assert_eq!(format_eta_compact(&reading(123.0)), "2m 3s");
    assert_eq!(format_eta_compact(&reading(3723.0)), "1h 2m");
    assert_eq!(format_eta_compact(&reading(0.0)), "--");
    assert_eq!(format_eta_compact(&reading(-1.0)), "--");
}

#[test]
fn sendme_panel_shows_eta_and_files() {
    let mut app = fresh();
    app.tool = SelectedTool::Sendme;
    app.view = AppView::Receive;
    app.metrics.speed = Some(reading(100_000.0));
    app.metrics.total_items = Some(5);
    let panel = app.build_sendme_panel_data(&part(0.5), 500_000, 1_500_000);
    assert_eq!(panel.title, "Receiving\u{2026}");
    assert_eq!(panel.detail_left.as_deref(), Some("5 files"));
    assert_eq!(panel.rate_value, "97.7 KB/s");
    assert_eq!(panel.eta_value, "10s");
}

#[test]
fn average_speed_uses_payload_window() {
    let mut app = fresh();
    app.metrics.payload_start = Some(time(10.0));
    app.end_time = Some(time(130.0));
    app.metrics.done = Some(600_700_000);
    let avg = seconds(&app.average_transfer_speed_bps().expect("avg speed"));
    assert!((avg - 600_700_000.0 / 120.0).abs() < 1.0);

    // Falls back to the session start when no payload timestamp exists.
    let mut app = fresh();
    app.start_time = Some(time(0.0));
    app.end_time = Some(time(10.0));
    app.metrics.done = Some(1000);
    assert!((seconds(&app.average_transfer_speed_bps().unwrap()) - 100.0).abs() < 1e-6);

    assert!(fresh().average_transfer_speed_bps().is_none());
}

#[test]
fn croc_frames_accumulate_across_files() {
    let mut app = fresh();
    app.tool = SelectedTool::Croc;
    app.view = AppView::Receive;
    app.state = TransferState::Running;
    app.metrics.phase = TransferPhase::Transferring;
    // Real total: 2 x 1536 B = 3072 B, printed base-1024 as "3.0 kB".
    app.update_transfer_metrics_from_log("Receiving 2 files (3.0 kB)", false);
    assert_eq!(app.metrics.total, Some(3072));

    app.now = time(1.0);
    app.update_transfer_metrics_from_log(
        "\ra.bin  50% |██████████          | (768/1536 B, 1.0 MB/s) [0s:2s]",
        false,
    );
    assert_eq!(app.metrics.completed, 0);
    assert_eq!(app.metrics.done, Some(768));
    assert!((single(&app.metrics.progress) - 0.25).abs() < 1e-4);

    app.now = time(2.0);
    app.update_transfer_metrics_from_log(
        "\ra.bin 100% |████████████████████| (1536/1536 B, 1.0 MB/s)",
        false,
    );

    app.now = time(3.0);
    app.update_transfer_metrics_from_log(
        "\rb.bin   5% |█                   | (75/1536 B, 900 kB/s) [0s:2s]",
        false,
    );
    assert_eq!(app.metrics.completed, 1536);
    assert_eq!(app.metrics.done, Some(1611));
    let expected = 1611.0f32 / 3072.0;
    assert!((single(&app.metrics.progress) - expected).abs() < 1e-4);
}

#[test]
fn croc_bar_frame_parses_trailing_file_counter() {
    let line = "\ra.txt 100% |████████████████████| (30/30 kB, 11 MB/s) 1/4";
    let frame = parse_croc_bar_frame(line).expect("frame");
    assert_eq!(frame.file_index, Some(1));
    assert_eq!(frame.file_count, Some(4));
    assert_eq!(frame.eta_secs.as_ref().map(seconds), None);
    assert_eq!(frame.done_bytes, 30_000);
    assert_eq!(frame.total_bytes, 30_000);
}

#[test]
fn croc_frames_fold_duplicate_filenames() {
    let mut app = fresh();
    app.tool = SelectedTool::Croc;
    app.view = AppView::Receive;
    app.state = TransferState::Running;
    app.metrics.phase = TransferPhase::Transferring;
    app.metrics.total = Some(90_000);

    app.now = time(1.0);
    app.update_transfer_metrics_from_log(
        "\rdup.txt   0% |                    | ( 0 B/15 kB) [0s:0s]",
        false,
    );
    app.now = time(2.0);
    app.update_transfer_metrics_from_log(
        "\rdup.txt 100% |████████████████████| (15/15 kB, 5.7 MB/s) 1/2",
        false,
    );
    assert_eq!(app.metrics.completed, 0);
    assert_eq!(app.metrics.file_progress, Some((1, 2)));

    // Second file with the SAME name: its blank 0% frame must trigger the fold.
    app.now = time(3.0);
    app.update_transfer_metrics_from_log(
        "\rdup.txt   0% |                    | ( 0 B/15 kB) [0s:0s]",
        false,
    );
    assert_eq!(app.metrics.completed, 15_000);

    app.now = time(4.0);
    app.update_transfer_metrics_from_log(
        "\rdup.txt 100% |████████████████████| (15/15 kB, 5.7 MB/s) 2/2",
        false,
    );
    assert_eq!(app.metrics.completed, 15_000);
    assert_eq!(app.metrics.done, Some(30_000));
    assert_eq!(app.metrics.file_progress, Some((2, 2)));
}

#[test]
fn croc_panel_shows_finalizing_after_frame_silence() {
    let mut app = fresh();
    app.tool = SelectedTool::Croc;
    app.view = AppView::Receive;
    app.metrics.bar_file = Some("big.bin".to_string());
    app.metrics.last_frame_at = Some(time(10.0));

    app.now = time(11.0);
    let panel = app.build_croc_panel_data(&part(0.5), 50, 100);
    assert!(!panel.title.contains("Finalizing"));

    app.now = time(20.0);
    let panel = app.build_croc_panel_data(&part(0.5), 50, 100);
    assert!(panel.title.contains("Finalizing"));
    assert_eq!(panel.eta_value, "--");
    assert_eq!(panel.rate_value, "--");
}

#[test]
fn sendme_imported_size_hint_parses() {
    let line = "imported directory /tmp/sample, 6.4 GiB, hash abcdef";
    let total = parse_sendme_imported_size_hint(line).expect("sendme imported size");
    assert!(total > 6 * 1024 * 1024 * 1024);
}

#[test]
fn sendme_total_files_hint_parses() {
    let line = "importing 500 files [00:00:00]";
    let total = parse_sendme_total_files_hint(line).expect("total files");
    assert_eq!(total, 500);
}

#[test]
fn sendme_item_index_parses() {
    let line = "n abc r 123/0 i 474 # hash [] 6.7 KiB/6.7 KiB";
    let idx = parse_sendme_item_index(line).expect("item index");
    assert_eq!(idx, 475);
}

#[test]
fn croc_waiting_ignores_per_file_progress_lines() {
    let mut app = fresh();
    app.tool = SelectedTool::Croc;
    app.view = AppView::Send;
    app.state = TransferState::Running;
    app.metrics.phase = TransferPhase::WaitingForReceiver;
    app.metrics.total = Some((6.4_f64 * 1024.0 * 1024.0 * 1024.0) as u64);

    app.update_transfer_metrics_from_log("file_download.py 2628/57865", false);

    assert_eq!(app.metrics.phase, TransferPhase::WaitingForReceiver);
    assert!(app.metrics.done.is_none());
    assert!(single(&app.metrics.progress) <= f32::EPSILON);
}

#[test]
fn croc_switches_to_transferring_on_peer_line_then_uses_file_counter_progress() {
    let mut app = fresh();
    app.tool = SelectedTool::Croc;
    app.view = AppView::Send;
    app.state = TransferState::Running;
    app.metrics.phase = TransferPhase::WaitingForReceiver;

    app.update_transfer_metrics_from_log("Sending 57865 files (6.4 GB)", false);
    assert_eq!(app.metrics.phase, TransferPhase::WaitingForReceiver);
    let total = app.metrics.total
        .expect("total bytes from summary line");
    assert_eq!(total, 6_871_947_673);

    app.update_transfer_metrics_from_log("Sending (->192.168.1.60:56052)", true);
    assert_eq!(app.metrics.phase, TransferPhase::Transferring);

    // Before any progressbar frame arrives, the file-counter model drives
    // overall progress.
    app.update_transfer_metrics_from_log("file_download.py 2628/57865", false);

    let p = single(&app.effective_progress());
    assert!(p > 0.04 && p < 0.05, "unexpected overall progress: {p}");
    let done = app.metrics.done.expect("derived done bytes");
    assert!(done > 200 * 1024 * 1024, "unexpected done bytes: {done}");
}

#[test]
fn croc_frame_progress_supersedes_file_counter_model() {
    let mut app = fresh();
    app.tool = SelectedTool::Croc;
    app.view = AppView::Send;
    app.state = TransferState::Running;
    app.metrics.phase = TransferPhase::Transferring;
    app.metrics.file_progress = Some((2628, 57865));
    app.metrics.total = Some(6_400_000_000);

    app.now = time(1.0);
    app.update_transfer_metrics_from_log(
        "\rfile_download.py  56% |███████             | (3.4/6.1 GB, 44.6 MB/s) [1m3s:1m13s]",
        false,
    );

    assert_eq!(app.metrics.bar_done, 3_400_000_000);
    assert_eq!(app.metrics.speed.as_ref().map(double), Some(44_600_000.0));
    let p = single(&app.effective_progress());
    let expected = 3_400_000_000f32 / 6_400_000_000.0;
    assert!((p - expected).abs() < 1e-4, "unexpected progress: {p}");
}

#[test]
fn sendme_waiting_ignores_zero_payload_lines_on_sender() {
    let mut app = fresh();
    app.tool = SelectedTool::Sendme;
    app.view = AppView::Send;
    app.state = TransferState::Running;
    app.metrics.phase = TransferPhase::WaitingForReceiver;
    app.metrics.total = Some((6.4_f64 * 1024.0 * 1024.0 * 1024.0) as u64);

    app.update_transfer_metrics_from_log("Downloading ... [----] 0 B/6.4 GB 0 B/s", false);

    assert_eq!(app.metrics.phase, TransferPhase::WaitingForReceiver);
    assert!(app.metrics.done.is_none());
    assert!(single(&app.metrics.progress) <= f32::EPSILON);
}

#[test]
fn sendme_waiting_switches_to_transferring_when_payload_bytes_appear() {
    let mut app = fresh();
    app.tool = SelectedTool::Sendme;
    app.view = AppView::Send;
    app.state = TransferState::Running;
    app.metrics.phase = TransferPhase::WaitingForReceiver;
    app.metrics.total = Some((6.4_f64 * 1024.0 * 1024.0 * 1024.0) as u64);

    app.update_transfer_metrics_from_log(
        "Downloading ... [##>------] 168.6 MB/6.4 GB 10.0 MB/s",
        false,
    );

    assert_eq!(app.metrics.phase, TransferPhase::Transferring);
    let done = app.metrics.done.expect("done bytes");
    assert!(done > 150 * 1024 * 1024);
}

#[test]
fn sendme_waiting_switches_to_transferring_on_downloading_stage_zero_bytes() {
    let mut app = fresh();
    app.tool = SelectedTool::Sendme;
    app.view = AppView::Send;
    app.state = TransferState::Running;
    app.metrics.phase = TransferPhase::WaitingForReceiver;
    app.metrics.total = Some((6.4_f64 * 1024.0 * 1024.0 * 1024.0) as u64);

    app.update_transfer_metrics_from_log(
        "[3/4] Downloading ... [------------------------] 0 B/6.4 GB 0 B/s",
        false,
    );

    assert_eq!(app.metrics.phase, TransferPhase::Transferring);
    assert_eq!(app.metrics.done.unwrap_or(0), 0);
}

#[test]
fn sendme_receive_ignores_non_downloading_payload_lines() {
    let mut app = fresh();
    app.tool = SelectedTool::Sendme;
    app.view = AppView::Receive;
    app.state = TransferState::Running;
    app.metrics.phase = TransferPhase::Transferring;
    app.metrics.total = Some((6.8_f64 * 1024.0 * 1024.0 * 1024.0) as u64);

    app.update_transfer_metrics_from_log(
        "n 99549f9de3 r 31724666896/0 i 0 # f706408fbb [] 15.66 KiB/15.66 KiB",
        false,
    );

    assert!(app.metrics.done.is_none());
    assert!(single(&app.metrics.progress) <= f32::EPSILON);
}

#[test]
fn sendme_receive_progress_is_monotonic() {
    let mut app = fresh();
    app.tool = SelectedTool::Sendme;
    app.view = AppView::Receive;
    app.state = TransferState::Running;
    app.metrics.phase = TransferPhase::Transferring;
    app.metrics.total = Some((6.85_f64 * 1024.0 * 1024.0 * 1024.0) as u64);

    app.update_transfer_metrics_from_log(
        "Downloading ... [00:05:49] [###########>--] 5.73 GiB/6.85 GiB 20.08 MiB/s",
        false,
    );
    let first_done = app.metrics.done.expect("first done");

    app.update_transfer_metrics_from_log(
        "Downloading ... [00:05:50] [##########>---] 4.60 GiB/6.85 GiB 12.00 MiB/s",
        false,
    );
    let second_done = app.metrics.done.expect("second done");

    assert!(second_done >= first_done);
}

#[test]
fn croc_text_marker_without_colon_parses() {
    let line = "received text hello from croc";
    let text = extract_croc_received_text(line).expect("text parsed");
    assert_eq!(text, "hello from croc");
}

#[test]
fn croc_text_fallback_from_log_sequence_parses() {
    let log = vec![
        "Connecting ...".to_string(),
        "Receiving 'text'".to_string(),
        "hello popup".to_string(),
    ];
    let text = extract_croc_received_text_from_logs(&log).expect("fallback text");
    assert_eq!(text, "hello popup");
}

#[test]
fn normalize_sendme_ticket_parses_raw_and_command() {
    let raw = "blobabc123def456ghi789jkl";
    assert_eq!(
        normalize_sendme_ticket(raw).as_deref(),
        Some("blobabc123def456ghi789jkl")
    );

    let command = "sendme receive blobabc123def456ghi789jkl";
    assert_eq!(
        normalize_sendme_ticket(command).as_deref(),
        Some("blobabc123def456ghi789jkl")
    );
}

#[test]
fn sendme_waiting_switches_to_transferring_on_n_line_output() {
    let mut app = fresh();
    app.tool = SelectedTool::Sendme;
    app.view = AppView::Send;
    app.state = TransferState::Running;
    app.metrics.phase = TransferPhase::WaitingForReceiver;
    app.code = Some("blobxyz".to_string());
    poll(&mut app, TransferMsg::Output(
        "n 99549f9de3 r 31724666896/0 i 0 # f706408fbb".to_string(),
    ));

    assert_eq!(app.metrics.phase, TransferPhase::Transferring);
}

#[test]
fn sendme_sender_activity_switches_to_transferring() {
    let mut app = fresh();
    app.tool = SelectedTool::Sendme;
    app.view = AppView::Send;
    app.state = TransferState::Running;
    app.serve.one_shot = true;
    app.metrics.phase = TransferPhase::WaitingForReceiver;
    poll(&mut app, TransferMsg::SenderTransferActivity);

    assert_eq!(app.metrics.phase, TransferPhase::Transferring);
    assert!(app.metrics.had_transfer);
}

#[test]
fn sendme_one_shot_incomplete_on_early_peer_disconnect() {
    let mut app = fresh();
    app.tool = SelectedTool::Sendme;
    app.view = AppView::Send;
    app.state = TransferState::Running;
    app.serve.one_shot = true;
    app.metrics.phase = TransferPhase::Transferring;
    app.metrics.had_transfer = true;
    app.metrics.total = Some(4096);
    app.metrics.done = Some(2048); // 50% — early disconnect
    app.metrics.progress = part(0.5);
    poll(&mut app, TransferMsg::PeerDisconnected);

    assert!(
        matches!(app.state, TransferState::Failed(_)),
        "expected Failed for 50% progress disconnect"
    );
}

#[test]
fn sendme_one_shot_completes_on_peer_disconnected_signal() {
    let mut app = fresh();
    app.tool = SelectedTool::Sendme;
    app.view = AppView::Send;
    app.state = TransferState::Running;
    app.serve.one_shot = true;
    app.metrics.phase = TransferPhase::Transferring;
    app.metrics.had_transfer = true;
    app.metrics.total = Some(4096);
    app.metrics.done = Some(4096); // 100% — normal completion
    app.metrics.progress = part(1.0);
    poll(&mut app, TransferMsg::PeerDisconnected);

    assert!(matches!(app.state, TransferState::Completed));
}

#[test]
fn eazy_local_check_watch_stays_armed_during_verification_silence() {
    let mut app = fresh();
    app.tool = SelectedTool::EazySendme;
    app.view = AppView::Receive;
    app.state = TransferState::Running;
    app.metrics.phase = TransferPhase::Transferring;
    app.eazy.local_check = Some(time(12.0));
    poll(&mut app, TransferMsg::Output(
        "[Local] still checking cached blobs".to_string(),
    ));

    assert_eq!(app.eazy.local_check.as_ref().map(seconds), Some(12.0));
}

#[test]
fn eazy_local_check_watch_clears_when_local_export_starts() {
    let mut app = fresh();
    app.tool = SelectedTool::EazySendme;
    app.view = AppView::Receive;
    app.state = TransferState::Running;
    app.metrics.phase = TransferPhase::Transferring;
    app.eazy.local_check = Some(time(12.0));
    poll(&mut app, TransferMsg::Output(
        "[local] Blobs complete locally, exporting...".to_string(),
    ));

    assert!(app.eazy.local_check.is_none());
}

#[test]
fn eazy_local_check_watch_clears_on_local_export_progress() {
    let mut app = fresh();
    app.tool = SelectedTool::EazySendme;
    app.view = AppView::Receive;
    app.state = TransferState::Running;
    app.metrics.phase = TransferPhase::Transferring;
    app.eazy.local_check = Some(time(12.0));
    poll(&mut app, TransferMsg::Progress(part(0.25)));

    assert!(app.eazy.local_check.is_none());
}

#[test]
fn pick_restore_hwnd_prefers_startup_capture() {
    // Startup capture always wins: it is taken unconditionally, while the
    // cached one only exists when a prior tray init ran. Toggle-time init
    // with no prior init used to pass None (silent dead restores).
    assert_eq!(pick_restore_hwnd(Some(123), Some(456)), Some(123));
    assert_eq!(pick_restore_hwnd(Some(123), None), Some(123));
    assert_eq!(pick_restore_hwnd(None, Some(456)), Some(456));
    assert_eq!(pick_restore_hwnd(None, None), None);
}

#[test]
fn restore_size_override_only_fires_below_minimum() {
    // Healthy sizes (default, user-resized, exactly minimum): untouched.
    assert_eq!(forced([620.0, 820.0], [800.0, 600.0]), None);
    assert_eq!(forced([800.0, 600.0], [800.0, 600.0]), None);
    assert_eq!(forced([460.0, 400.0], [620.0, 820.0]), None);
    // Shrunken restore states: forced to last good.
    assert_eq!(
        forced([160.0, 31.0], [620.0, 820.0]),
        Some([620.0, 820.0])
    );
    assert_eq!(
        forced([0.0, 0.0], [800.0, 600.0]),
        Some([800.0, 600.0])
    );
    assert_eq!(
        forced([620.0, 399.0], [620.0, 820.0]),
        Some([620.0, 820.0])
    );
}
