//! Everything that one line of a tool's output can tell.

use crate::croc;
use crate::croc::{BarModel, CrocBarFrame};
use crate::numerals;
use crate::numerals::{Reading, Real};
use crate::progress;
use crate::sendme;
use crate::text;
use vstd::prelude::*;

verus! {

pub struct FactsModel {
    pub frame: Option<BarModel>,
    pub r_counter: Option<(u64, u64)>,
    pub payload: Option<(u64, u64)>,
    pub request_line: bool,
    pub cli_progress: bool,
    pub compact: Seq<char>,
    pub stage: Option<(u32, u32)>,
    pub croc_total: Option<u64>,
    pub imported: Option<u64>,
    pub total_files: Option<u64>,
    pub item_index: Option<u64>,
    pub file_counter: Option<(u64, u64)>,
    pub total_hint: Option<u64>,
    pub speed: Option<Real>,
    /// The line is one about exporting.
    pub exporting: bool,
    /// The line has a request's marks.
    pub has_marks: bool,
    pub download: bool,
    pub upload: bool,
    pub sending: bool,
    pub transferring: bool,
    pub downloading: bool,
    pub uploading: bool,
    pub third_stage: bool,
    pub fourth_stage: bool,
}

/// What a line tells; `lower` is the line in lower case.
pub open spec fn facts(line: Seq<char>, lower: Seq<char>) -> FactsModel {
    FactsModel {
        frame: croc::bar_frame(line),
        r_counter: sendme::r_counter_from(text::words(line), 0),
        payload: progress::payload_progress(line),
        request_line: sendme::is_request_line(line),
        cli_progress: progress::cli_progress(line, lower),
        compact: progress::compact(line),
        stage: croc::stage_progress(line),
        croc_total: croc::summary_size(line, lower),
        imported: sendme::imported_size(line, lower),
        total_files: sendme::total_files(lower),
        item_index: sendme::item_index_from(text::words(line), 0),
        file_counter: croc::file_counter(line),
        total_hint: croc::total_size(line, lower),
        speed: progress::speed_hint(line),
        exporting: text::contains(lower, "exporting "@),
        has_marks: text::contains(line, " r "@) && text::contains(line, " # "@),
        download: text::contains(lower, "download"@),
        upload: text::contains(lower, "upload"@),
        sending: text::contains(lower, "sending"@),
        transferring: text::contains(lower, "transferring"@),
        downloading: text::contains(lower, "downloading"@),
        uploading: text::contains(lower, "uploading"@),
        third_stage: text::contains(lower, "[3/4]"@),
        fourth_stage: text::contains(lower, "[4/4]"@),
    }
}

pub struct LineFacts {
    pub frame: Option<CrocBarFrame>,
    pub r_counter: Option<(u64, u64)>,
    pub payload: Option<(u64, u64)>,
    pub request_line: bool,
    pub cli_progress: bool,
    pub compact: String,
    pub stage: Option<(u32, u32)>,
    pub croc_total: Option<u64>,
    pub imported: Option<u64>,
    pub total_files: Option<u64>,
    pub item_index: Option<u64>,
    pub file_counter: Option<(u64, u64)>,
    pub total_hint: Option<u64>,
    pub speed: Option<Reading>,
    pub exporting: bool,
    pub has_marks: bool,
    pub download: bool,
    pub upload: bool,
    pub sending: bool,
    pub transferring: bool,
    pub downloading: bool,
    pub uploading: bool,
    pub third_stage: bool,
    pub fourth_stage: bool,
}

pub open spec fn frame_view(f: Option<CrocBarFrame>) -> Option<BarModel> {
    match f {
        Some(x) => Some(x@),
        None => None,
    }
}

impl View for LineFacts {
    type V = FactsModel;

    open spec fn view(&self) -> FactsModel {
        FactsModel {
            frame: frame_view(self.frame),
            r_counter: self.r_counter,
            payload: self.payload,
            request_line: self.request_line,
            cli_progress: self.cli_progress,
            compact: self.compact@,
            stage: self.stage,
            croc_total: self.croc_total,
            imported: self.imported,
            total_files: self.total_files,
            item_index: self.item_index,
            file_counter: self.file_counter,
            total_hint: self.total_hint,
            speed: numerals::reading_view(self.speed),
            exporting: self.exporting,
            has_marks: self.has_marks,
            download: self.download,
            upload: self.upload,
            sending: self.sending,
            transferring: self.transferring,
            downloading: self.downloading,
            uploading: self.uploading,
            third_stage: self.third_stage,
            fourth_stage: self.fourth_stage,
        }
    }
}

/// Reads what a line tells, with the line in lower case given too.
pub fn read_facts_in(line: &str, lower: &str) -> (r: LineFacts)
    ensures
        r@ == facts(line@, lower@),
{
    let l = text::chars_of(line);
    let l = l.as_slice();
    let low = text::chars_of(lower);
    let low = low.as_slice();
    LineFacts {
        frame: croc::parse_croc_bar_frame(line),
        r_counter: sendme::parse_sendme_r_counter(line),
        payload: progress::read_payload_progress(l),
        request_line: sendme::is_sendme_sender_request_line(line),
        cli_progress: progress::is_cli_progress_line_in(l, low),
        compact: progress::compact_cli_progress_line(line),
        stage: croc::parse_stage_progress(line),
        croc_total: croc::parse_croc_total_size_hint_in(l, low),
        imported: sendme::parse_sendme_imported_size_hint_in(l, low),
        total_files: sendme::parse_sendme_total_files_hint_in(low),
        item_index: sendme::parse_sendme_item_index(line),
        file_counter: croc::parse_croc_file_counter_progress(line),
        total_hint: croc::parse_total_size_hint_in(l, low),
        speed: progress::parse_speed_hint(line),
        exporting: text::contains_str(low, "exporting "),
        has_marks: text::contains_str(l, " r ") && text::contains_str(l, " # "),
        download: text::contains_str(low, "download"),
        upload: text::contains_str(low, "upload"),
        sending: text::contains_str(low, "sending"),
        transferring: text::contains_str(low, "transferring"),
        downloading: text::contains_str(low, "downloading"),
        uploading: text::contains_str(low, "uploading"),
        third_stage: text::contains_str(low, "[3/4]"),
        fourth_stage: text::contains_str(low, "[4/4]"),
    }
}

} // verus!
