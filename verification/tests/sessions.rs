use databeam::binary64::{decode, Magnitude};
use databeam::desk::Desk;
use databeam::engine::{messages_per_frame, EazyCacheEntry, Effect, Environment, Session, TransferState};
use databeam::messages::{
    extract_croc_code, is_masked_croc_code, is_probable_croc_text_payload_line, parse_croc_output,
    strip_ansi, CrocLine,
};
use databeam::numerals::Reading;
use databeam::reader::LineSplitter;
use databeam::receiver::{
    decode_event, decode_event_with_payload, on_late_receive_event, on_local_end, on_local_event,
    on_receive_end, on_receive_event, parse_native_progress_payload, LocalEnd, ReceiveEnd,
};
use databeam::sender::{
    announce_share, begin_share, derive_payload_root_name, is_sendme_send_dir, is_sendme_temp_artifact,
    NativeSendmeEvent, Next, RequestStarted, Sender, SenderInput,
};
use databeam::session::{Flow, Severity};
use databeam::state::{AppView, SelectedTool, TransferPhase};
use databeam::transfer::{
    croc_end, croc_receive_command, croc_send_command, report_croc_line, Argument,
    CrocReceiveOptions, CrocSendOptions, ProcessEnd, TransferMsg,
};

fn time(secs: f64) -> Magnitude {
    decode(secs.to_bits()).expect("a number").1
}

fn number(m: &Magnitude) -> f64 {
    f64::from_bits(m.to_bits())
}

fn env() -> Environment {
    Environment { direction: None, croc_there: true, unix_secs: 1000, hashes: Vec::new() }
}

fn running(tool: SelectedTool, view: AppView) -> Session {
    let mut s = Desk::new().workspace.session;
    s.tool = tool;
    s.view = view;
    s.state = TransferState::Running;
    s
}

fn failure(s: &Session) -> &str {
    match &s.state {
        TransferState::Failed(e) => e,
        _ => panic!("not failed"),
    }
}

fn outputs(msgs: &[TransferMsg]) -> Vec<String> {
    msgs.iter()
        .filter_map(|m| match m {
            TransferMsg::Output(s) => Some(s.clone()),
            _ => None,
        })
        .collect()
}

#[test]
fn completed_transfers_stay_completed() {
    let mut s = running(SelectedTool::Sendme, AppView::Send);
    s.state = TransferState::Completed;
    let (fx, _) = s.on_message(TransferMsg::PeerDisconnected, &env());
    assert!(fx.is_empty());
    s.on_message(TransferMsg::Error("late".to_string()), &env());
    assert!(matches!(s.state, TransferState::Completed));
}

#[test]
fn cancelling_keeps_the_failure_that_says_more() {
    let mut s = running(SelectedTool::Croc, AppView::Send);
    s.on_message(TransferMsg::Error("disk full".to_string()), &env());
    assert_eq!(failure(&s), "disk full");
    s.on_message(TransferMsg::Error("Transfer cancelled".to_string()), &env());
    assert_eq!(failure(&s), "disk full");
}

#[test]
fn combined_mode_retries_three_times() {
    let mut s = running(SelectedTool::EazySendme, AppView::Receive);
    s.now = time(10.0);
    s.metrics.total = Some(1_048_576_000);
    for n in 1..=3 {
        s.state = TransferState::Running;
        s.on_message(TransferMsg::Error("lost".to_string()), &env());
        assert_eq!(
            failure(&s),
            format!("Transfer failed (lost). Auto-retrying {}/3 in 40s...", n)
        );
        assert_eq!(number(s.eazy.next_retry.as_ref().unwrap()), 50.0);
    }
    s.state = TransferState::Running;
    s.on_message(TransferMsg::Error("lost".to_string()), &env());
    assert_eq!(failure(&s), "lost");
    assert!(s.eazy.next_retry.is_none());
    assert_eq!(s.eazy.retries, 0);

    let mut s = running(SelectedTool::EazySendme, AppView::Send);
    s.on_message(TransferMsg::Error("lost".to_string()), &env());
    assert_eq!(failure(&s), "Transfer failed (lost). Auto-retrying 1/3 immediately...");
}

#[test]
fn conflicts_are_explained() {
    let explained = "The file/folder you intended to download has the same name as another item at the destination. Rename that item and try a new transfer.";
    let mut s = running(SelectedTool::Croc, AppView::Receive);
    s.on_message(TransferMsg::Error("File ALREADY exists".to_string()), &env());
    assert_eq!(failure(&s), explained);
    let mut s = running(SelectedTool::Sendme, AppView::Receive);
    s.on_message(TransferMsg::Error("conflict-detected".to_string()), &env());
    assert_eq!(failure(&s), explained);
    let mut s = running(SelectedTool::Sendme, AppView::Receive);
    s.on_message(TransferMsg::Error("os error 17".to_string()), &env());
    assert!(matches!(s.state, TransferState::Running));
}

#[test]
fn incomplete_local_data_leads_to_a_full_receive() {
    let mut s = running(SelectedTool::EazySendme, AppView::Receive);
    s.receive_code = " 1234-code ".to_string();
    s.cache.push(EazyCacheEntry {
        code: "1234-code".to_string(),
        ticket: "blobx".to_string(),
        timestamp: 5,
    });
    s.eazy.ticket = Some("blobx".to_string());
    let (fx, _) = s.on_message(TransferMsg::Error("blobs-incomplete".to_string()), &env());
    assert!(s.cache.is_empty());
    assert!(s.eazy.ticket.is_none());
    assert!(s.eazy.next_retry.is_some());
    assert!(fx.iter().any(|e| matches!(e, Effect::Persist)));
    assert_eq!(s.log.last().unwrap(), "Local blobs incomplete, starting full receive...");
}

#[test]
fn name_failures_are_headlined() {
    let mut s = running(SelectedTool::Croc, AppView::Send);
    s.on_message(
        TransferMsg::Output("dial tcp: lookup 1.getcroc.com: no such host".to_string()),
        &env(),
    );
    s.on_message(TransferMsg::Error("Process exited with code: 1".to_string()), &env());
    assert!(failure(&s).starts_with("Couldn't reach the relay: DNS lookup failed."));
}

#[test]
fn masked_codes_never_replace_known_ones() {
    assert!(is_masked_croc_code(" ****-**** "));
    assert!(!is_masked_croc_code("12**-ab"));
    let mut s = running(SelectedTool::Croc, AppView::Send);
    s.on_message(TransferMsg::Code("****".to_string()), &env());
    assert_eq!(s.code.as_deref(), Some("****"));
    s.on_message(TransferMsg::Code("1234-ocean".to_string()), &env());
    s.on_message(TransferMsg::Code("****".to_string()), &env());
    assert_eq!(s.code.as_deref(), Some("1234-ocean"));
}

#[test]
fn first_route_wins_in_croc_mode() {
    let mut s = running(SelectedTool::Croc, AppView::Send);
    let direct = Environment { direction: Some("Direct".to_string()), ..env() };
    let relay = Environment { direction: Some("Relay".to_string()), ..env() };
    s.on_message(TransferMsg::Output("Sending (->a)".to_string()), &direct);
    s.on_message(TransferMsg::Output("Sending (->b)".to_string()), &relay);
    assert_eq!(s.route.as_deref(), Some("Direct"));
    assert!(s.log.contains(&"Route: Direct".to_string()));
    let mut s = running(SelectedTool::EazySendme, AppView::Send);
    s.on_message(TransferMsg::Output("Sending (->a)".to_string()), &direct);
    assert_eq!(s.route, None);
}

#[test]
fn the_log_is_bounded() {
    let mut s = running(SelectedTool::Sendme, AppView::Send);
    for i in 0..501 {
        s.on_message(TransferMsg::Output(format!("line {}", i)), &env());
    }
    assert_eq!(s.log.len(), 401);
    assert_eq!(s.log[0], "line 100");
    assert_eq!(messages_per_frame(SelectedTool::Sendme), 600);
    assert_eq!(messages_per_frame(SelectedTool::Croc), 800);
}

#[test]
fn tickets_are_handed_over_by_croc() {
    let mut s = running(SelectedTool::EazySendme, AppView::Send);
    s.custom_code = "1234567".to_string();
    let (fx, flow) = s.on_message(TransferMsg::Code("blobticket".to_string()), &env());
    assert_eq!(flow, Flow::Continue);
    assert!(matches!(&fx[0], Effect::ShareTicket { ticket, secret }
        if ticket == "blobticket" && secret.as_deref() == Some("1234567")));
    assert_eq!(s.metrics.phase, TransferPhase::EazySharingTicket);
    s.on_share_message(TransferMsg::Code("1234567".to_string()));
    assert_eq!(s.code.as_deref(), Some("1234567"));
    assert_eq!(s.metrics.phase, TransferPhase::EazyWaitingForPeer);
    let fx = s.on_share_message(TransferMsg::Error("room full".to_string()));
    assert!(matches!(&fx[0], Effect::Toast { message, severity: Severity::Error }
        if message == "Croc error: room full"));
}

#[test]
fn received_tickets_are_used_and_kept() {
    let mut s = running(SelectedTool::EazySendme, AppView::Receive);
    s.receive_code = "1234-code".to_string();
    s.texts.received = Some("sendme receive blobabc123def456ghi789jkl".to_string());
    let (fx, flow) = s.on_message(TransferMsg::Completed, &env());
    assert_eq!(flow, Flow::Handover);
    assert!(fx.iter().any(|e| matches!(e, Effect::ReceiveTicket(t) if t == "blobabc123def456ghi789jkl")));
    assert_eq!(s.cache.len(), 1);
    assert_eq!(s.cache[0].timestamp, 1000);
    // The receive completes: what was kept is no longer needed.
    let e = Environment { hashes: vec![Some("h".to_string())], ..env() };
    let (fx, _) = s.on_message(TransferMsg::Completed, &e);
    assert!(matches!(s.state, TransferState::Completed));
    assert!(s.cache.is_empty());
    assert!(fx.iter().any(|e| matches!(e, Effect::CleanUp(t) if t == "blobabc123def456ghi789jkl")));

    let mut s = running(SelectedTool::EazySendme, AppView::Receive);
    s.on_message(TransferMsg::Completed, &env());
    assert!(failure(&s).contains("Croc finished but no ticket found"));
}

#[test]
fn serving_sessions_start_anew() {
    let mut s = running(SelectedTool::Sendme, AppView::Send);
    s.serve.one_shot = false;
    let (_, flow) = s.on_message(
        TransferMsg::Error("Send session ended before transfer completed".to_string()),
        &env(),
    );
    assert_eq!(flow, Flow::RestartServe);
    s.metrics.had_transfer = true;
    s.metrics.done = Some(7);
    s.on_message(TransferMsg::WaitingForReceiver, &env());
    assert_eq!(s.metrics.done, None);
    assert!(s.serve.waiting_after_cycle);
    // Late news of the old cycle change nothing.
    s.on_message(TransferMsg::Progress(time(0.5)), &env());
    assert!(s.metrics.progress.is_zero());
    s.on_message(TransferMsg::ActiveTransfers(2), &env());
    assert_eq!(s.serve.active_transfers, 2);
    assert_eq!(s.metrics.phase, TransferPhase::Transferring);
}

#[test]
fn silence_is_a_failure() {
    let mut s = running(SelectedTool::Croc, AppView::Send);
    s.on_silence();
    assert_eq!(failure(&s), "Transfer process ended unexpectedly. Please retry.");
    let mut fx = Vec::new();
    s.reset_transfer(&mut fx);
    assert!(matches!(s.state, TransferState::Idle));
    s.state = TransferState::Running;
    s.cancel_transfer(&mut fx);
    assert_eq!(failure(&s), "Transfer cancelled");
}

// ── The sending loop ──

const MS: u64 = 1_000_000;

#[test]
fn one_receiver_is_served() {
    let mut s = Sender::new(true, 0);
    let (m, n) = s.step(SenderInput::Event(NativeSendmeEvent::TransferStarted), 0);
    assert_eq!(n, Next::Continue);
    assert!(matches!(m[0], TransferMsg::SenderTransferActivity));
    assert!(matches!(&m[1], TransferMsg::Progress(p) if p.is_zero()));
    let speed = Reading::from_bits(1024f64.to_bits());
    let (m, _) = s.step(
        SenderInput::Event(NativeSendmeEvent::TransferProgress { done: 512, total: 1024, speed_bps: speed }),
        250 * MS,
    );
    assert!(matches!(&m[0], TransferMsg::Progress(p) if number(p) == 0.5));
    assert_eq!(outputs(&m), vec!["[3/4] Uploading ... 512 B / 1.00 KiB 1.00 KiB/s"]);
    // Less than what was reported before is not reported.
    let (m, _) = s.step(
        SenderInput::Event(NativeSendmeEvent::TransferProgress { done: 256, total: 1024, speed_bps: speed }),
        260 * MS,
    );
    assert!(m.is_empty());
    let (m, n) = s.step(SenderInput::Event(NativeSendmeEvent::TransferCompleted), 300 * MS);
    assert_eq!(n, Next::Stop);
    assert!(matches!(m.last(), Some(TransferMsg::PeerDisconnected)));
    assert!(outputs(&m).contains(&"finished sending to client".to_string()));
}

#[test]
fn broadcasts_go_on_until_cancelled() {
    let mut s = Sender::new(false, 0);
    s.step(SenderInput::Event(NativeSendmeEvent::TransferStarted), 0);
    let (m, n) = s.step(SenderInput::Event(NativeSendmeEvent::TransferCompleted), 1);
    assert_eq!(n, Next::Continue);
    assert!(matches!(m.last(), Some(TransferMsg::WaitingForReceiver)));
    // Events of the cycle that is over are ignored.
    let (m, _) = s.step(SenderInput::Event(NativeSendmeEvent::TransferStarted), 2);
    assert!(m.is_empty());
    // A connection counts only once all have gone.
    let (m, _) = s.step(SenderInput::Event(NativeSendmeEvent::ActiveConnectionCount(1)), 3);
    assert_eq!(m.len(), 1);
    s.step(SenderInput::Event(NativeSendmeEvent::ActiveConnectionCount(0)), 4);
    let (m, _) = s.step(SenderInput::Event(NativeSendmeEvent::ActiveConnectionCount(1)), 5);
    assert!(matches!(m[1], TransferMsg::SenderTransferActivity));
    let (_, n) = s.step(SenderInput::Disconnected, 6);
    assert_eq!(n, Next::Pause);
    let (_, n) = s.step(SenderInput::Timeout, 7);
    assert_eq!(n, Next::Continue);
    let (m, n) = s.step(SenderInput::Cancelled, 8);
    assert_eq!(n, Next::Stop);
    assert!(matches!(&m[0], TransferMsg::Error(e) if e == "Transfer cancelled"));
}

#[test]
fn requests_are_drawn_to_their_end() {
    let mut s = Sender::new(true, 0);
    let start = || {
        SenderInput::Event(NativeSendmeEvent::SenderRequestStarted(RequestStarted {
            connection_id: 1,
            request_id: 2,
            hash_short: "abc".to_string(),
            total_bytes: 2048,
        }))
    };
    let (m, _) = s.step(start(), 0);
    assert!(outputs(&m)[0].contains("abc"));
    let (m, _) = s.step(
        SenderInput::Event(NativeSendmeEvent::SenderRequestProgress {
            connection_id: 1,
            request_id: 2,
            done_bytes: 9999,
        }),
        MS,
    );
    assert!(outputs(&m)[0].contains("2.00 KiB"));
    let (m, _) = s.step(
        SenderInput::Event(NativeSendmeEvent::SenderRequestCompleted { connection_id: 1, request_id: 2 }),
        2 * MS,
    );
    assert_eq!(outputs(&m).len(), 1);
    let (m, _) = s.step(
        SenderInput::Event(NativeSendmeEvent::SenderRequestCompleted { connection_id: 1, request_id: 2 }),
        3 * MS,
    );
    assert!(m.is_empty());
    let mut failing = Sender::new(true, 0);
    let (m, n) = failing.step(SenderInput::Event(NativeSendmeEvent::TransferFailed), 0);
    assert_eq!(n, Next::Stop);
    assert!(matches!(&m[0], TransferMsg::Error(e) if e == "Sendme transfer failed on sender side"));
    let (m, _) = Sender::new(true, 0).step(SenderInput::Disconnected, 0);
    assert!(matches!(&m[0], TransferMsg::Error(e) if e == "Send session ended before transfer started"));
}

#[test]
fn shares_are_announced() {
    assert!(matches!(begin_share(&Ok("a".to_string())), TransferMsg::Started));
    assert!(matches!(
        begin_share(&Err("none".to_string())),
        TransferMsg::Error(e) if e == "Failed to prepare payload: none"
    ));
    let m = announce_share("blobxyz", "file", 1536);
    assert!(matches!(&m[0], TransferMsg::Code(c) if c == "blobxyz"));
    assert_eq!(outputs(&m), vec!["imported file native, 1.50 KiB", "sendme receive blobxyz"]);
    assert!(matches!(m[3], TransferMsg::WaitingForReceiver));
    let names = vec![Some("small.txt".to_string()), Some("a_name_longer_than_twenty.bin".to_string())];
    assert_eq!(
        derive_payload_root_name(&names, &vec![1, 2]).unwrap(),
        "a_name_longer_than_t_and_more_databeam"
    );
    assert_eq!(derive_payload_root_name(&vec![None], &vec![0]).unwrap(), "files_databeam");
    assert!(derive_payload_root_name(&Vec::new(), &Vec::new()).is_err());
    assert!(is_sendme_send_dir(".sendme-send-a"));
    assert!(!is_sendme_send_dir(".sendme-recv-a"));
    assert!(!is_sendme_send_dir("keep-dir"));
    assert!(is_sendme_temp_artifact(".sendme-send-b"));
}

// ── Receiving ──

#[test]
fn events_are_decoded() {
    assert!(matches!(decode_event("transfer-started"), Some(NativeSendmeEvent::TransferStarted)));
    assert!(decode_event("unheard").is_none());
    let (done, total, speed) = parse_native_progress_payload("10:20:2500").expect("payload");
    assert_eq!((done, total), (10, 20));
    assert!(matches!(speed, Reading::Number { negative: false, .. }));
    assert!(matches!(
        decode_event_with_payload("receive-export-progress", " 3 : 4 "),
        Some(NativeSendmeEvent::ReceiveExportProgress { done: 3, total: 4 })
    ));
    assert!(matches!(
        decode_event_with_payload("active-connection-count", "x"),
        Some(NativeSendmeEvent::ActiveConnectionCount(0))
    ));
    assert!(decode_event_with_payload("receive-export-progress", "3").is_none());
}

#[test]
fn receives_are_reported() {
    let m = on_receive_event(&NativeSendmeEvent::ReceiveExportProgress { done: 1, total: 4 });
    assert!(m.iter().any(|m| matches!(m, TransferMsg::Progress(p) if number(p) == 0.25)));
    let m = on_receive_event(&NativeSendmeEvent::ReceiveStarted);
    assert_eq!(outputs(&m), vec!["[2/4] Downloading..."]);
    let m = on_local_event(&NativeSendmeEvent::ReceiveStarted);
    assert_eq!(outputs(&m), vec!["[local] Blobs complete locally, exporting..."]);
    assert!(on_late_receive_event(&NativeSendmeEvent::TransferStarted).is_empty());
    let m = on_receive_end(ReceiveEnd::Done("All DONE".to_string()));
    assert_eq!(outputs(&m), vec!["all done"]);
    assert!(matches!(m.last(), Some(TransferMsg::Completed)));
    let m = on_receive_end(ReceiveEnd::Failed("x".to_string()));
    assert!(matches!(&m[0], TransferMsg::Error(e) if e == "x"));
    let m = on_receive_end(ReceiveEnd::Lost("x".to_string()));
    assert!(matches!(&m[0], TransferMsg::Error(e) if e == "Receive task ended unexpectedly: x"));
    let m = on_local_end(LocalEnd::Incomplete);
    assert!(matches!(&m[0], TransferMsg::Error(e) if e == "blobs-incomplete"));
    assert!(matches!(on_local_end(LocalEnd::Exported).last(), Some(TransferMsg::Completed)));
    let m = on_local_end(LocalEnd::Lost("x".to_string()));
    assert!(matches!(&m[0], TransferMsg::Error(e) if e == "Local check task failed: x"));
    let m = on_local_end(LocalEnd::Failed("y".to_string()));
    assert!(matches!(&m[0], TransferMsg::Error(e) if e == "y"));
}

// ── croc ──

fn split(bytes: &[u8]) -> Vec<String> {
    let mut s = LineSplitter::new();
    let mut out = Vec::new();
    for b in bytes {
        if let Some(line) = s.feed(*b) {
            out.push(line);
        }
    }
    if let Some(line) = s.finish() {
        out.push(line);
    }
    out
}

#[test]
fn output_is_cut_into_lines() {
    assert_eq!(split(b"one\r\n\rtwo\nthree"), vec!["one", "two", "three"]);
    assert_eq!(split(b"bad \xff byte\n"), vec!["bad \u{fffd} byte"]);
    // A question is handed on before its line ends.
    let lines = split(b"Overwrite 'a'? (y/N) ");
    assert_eq!(lines[0], "Overwrite");
    assert_eq!(lines.concat(), "Overwrite 'a'? (y/N) ");
}

#[test]
fn croc_lines_are_understood() {
    assert_eq!(strip_ansi("\u{1b}[1mbold\u{1b}[0m"), "bold");
    assert_eq!(extract_croc_code("Code is: 1234-ocean-monkey").as_deref(), Some("1234-ocean-monkey"));
    assert!(matches!(parse_croc_output("   "), CrocLine::Nothing));
    assert!(matches!(parse_croc_output("overwrite 'a'? (y/N)"), CrocLine::Conflict));
    match parse_croc_output("Code is: 1234-ocean-monkey") {
        CrocLine::Line { code, text } => {
            assert_eq!(code.as_deref(), Some("1234-ocean-monkey"));
            assert_eq!(text, "Code is: 1234-ocean-monkey");
        }
        _ => panic!("a line"),
    }
    let (m, cancel) = report_croc_line(CrocLine::Conflict);
    assert!(cancel);
    assert!(matches!(&m[0], TransferMsg::Error(e) if e == "conflict-detected"));
    assert!(is_probable_croc_text_payload_line("hello world"));
    assert!(!is_probable_croc_text_payload_line("Connecting to relay"));
}

#[test]
fn croc_is_called_with_its_secret_apart() {
    let c = croc_send_command(CrocSendOptions {
        paths: vec!["a".into(), "b".into()],
        custom_code: Some("1234567".to_string()),
        text_mode: false,
        text_value: None,
    });
    assert_eq!(c.secret.as_deref(), Some("1234567"));
    assert_eq!(c.arguments.len(), 4);
    assert!(matches!(&c.arguments[0], Argument::Text(t) if t == "--yes"));
    assert!(matches!(&c.arguments[2], Argument::Path(p) if p.to_str() == Some("a")));
    assert!(matches!(&c.arguments[3], Argument::Path(p) if p.to_str() == Some("b")));
    let c = croc_send_command(CrocSendOptions {
        paths: Vec::new(),
        custom_code: None,
        text_mode: true,
        text_value: Some("hi".to_string()),
    });
    assert!(matches!(&c.arguments[3], Argument::Text(t) if t == "hi"));
    let c = croc_receive_command(CrocReceiveOptions {
        code: "1234-x".to_string(),
        output_dir: Some("out".into()),
    });
    assert_eq!(c.secret.as_deref(), Some("1234-x"));
    assert_eq!(c.arguments.len(), 3);
    assert!(matches!(croc_end(false, ProcessEnd::Success), TransferMsg::Completed));
    assert!(matches!(croc_end(true, ProcessEnd::Success), TransferMsg::Error(e) if e == "Transfer cancelled"));
    assert!(matches!(croc_end(false, ProcessEnd::Exit("1".to_string())), TransferMsg::Error(e)
        if e == "Process exited with code: 1"));
    assert!(matches!(croc_end(false, ProcessEnd::WaitFailed("x".to_string())), TransferMsg::Error(e)
        if e == "Process error: x"));
}

#[test]
fn both_line_ends_cut_whole_lines() {
    let cut = |bytes: &[u8]| {
        let mut s = LineSplitter::new();
        let mut out: Vec<String> = bytes.iter().filter_map(|b| s.feed(*b)).collect();
        out.extend(s.finish());
        out
    };
    assert_eq!(cut(b"one\ntwo\r\n\rthree"), vec!["one", "two", "three"]);
    assert_eq!(cut(b"one\rtwo\n\r\nthree"), vec!["one", "two", "three"]);
}
