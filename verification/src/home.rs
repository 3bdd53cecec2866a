//! The first page, and what all pages share.

use crate::sendme;
use crate::state::SelectedTool;
use crate::text;
use crate::tools;
use crate::tools::{StatusModel, Tool, ToolStatus};
use crate::transfer::owned;
use vstd::prelude::*;

verus! {

// ── The tools to choose from ──

pub struct CardModel {
    pub tool: SelectedTool,
    pub name: Seq<char>,
    pub description: Seq<char>,
    pub available: bool,
    /// What stands at its end: the version, or that the tool is there, or that it
    /// is missing.
    pub status: Seq<char>,
    pub selected: bool,
}

pub struct Card {
    pub tool: SelectedTool,
    pub name: String,
    pub description: String,
    pub available: bool,
    pub status: String,
    pub selected: bool,
}

impl View for Card {
    type V = CardModel;

    open spec fn view(&self) -> CardModel {
        CardModel {
            tool: self.tool,
            name: self.name@,
            description: self.description@,
            available: self.available,
            status: self.status@,
            selected: self.selected,
        }
    }
}

pub open spec fn cards_view(v: Seq<Card>) -> Seq<CardModel> {
    v.map_values(|c: Card| c@)
}

pub open spec fn card_status(available: bool, version: Option<Seq<char>>) -> Seq<char> {
    if !available {
        "missing"@
    } else {
        match version {
            Some(v) => v,
            None => "ok"@,
        }
    }
}

/// The first status of a tool, from `i` on.
pub open spec fn status_from(v: Seq<StatusModel>, tool: Tool, i: nat) -> Option<StatusModel>
    decreases v.len() - i,
{
    if i >= v.len() {
        None
    } else if v[i as int].tool == tool {
        Some(v[i as int])
    } else {
        status_from(v, tool, i + 1)
    }
}

/// A tool is there, by the first status that is known of it.
pub open spec fn is_there(v: Seq<StatusModel>, tool: Tool) -> bool {
    status_from(v, tool, 0) matches Some(s) && s.available
}

/// The combined mode needs both tools.
pub open spec fn eazy_card(v: Seq<StatusModel>, selected: SelectedTool) -> CardModel {
    let available = is_there(v, Tool::Croc) && is_there(v, Tool::Sendme);
    CardModel {
        tool: SelectedTool::EazySendme,
        name: "EazySendme"@,
        description: "Sendme performance + Croc like short custom sharing code"@,
        available,
        status: card_status(available, None),
        selected: selected == SelectedTool::EazySendme,
    }
}

pub open spec fn tool_card(s: StatusModel, selected: SelectedTool) -> CardModel {
    match s.tool {
        Tool::Sendme => CardModel {
            tool: SelectedTool::Sendme,
            name: "Sendme"@,
            description: "Cutting-edge performance, reliability, and security"@,
            available: s.available,
            status: card_status(s.available, s.version),
            selected: selected == SelectedTool::Sendme,
        },
        Tool::Croc => CardModel {
            tool: SelectedTool::Croc,
            name: "Croc"@,
            description: "Convenience, ease of use, and 3rd-party mobile support"@,
            available: s.available,
            status: card_status(s.available, s.version),
            selected: selected == SelectedTool::Croc,
        },
    }
}

pub open spec fn with_tool_card(
    cards: Seq<CardModel>,
    v: Seq<StatusModel>,
    tool: Tool,
    selected: SelectedTool,
) -> Seq<CardModel> {
    match status_from(v, tool, 0) {
        Some(s) => cards.push(tool_card(s, selected)),
        None => cards,
    }
}

/// The cards on the first page: the combined mode, and the tools on their own
/// where they are unfolded.
pub open spec fn cards(v: Seq<StatusModel>, selected: SelectedTool, unfolded: bool) -> Seq<CardModel> {
    let first = seq![eazy_card(v, selected)];
    if unfolded {
        with_tool_card(
            with_tool_card(first, v, Tool::Sendme, selected),
            v,
            Tool::Croc,
            selected,
        )
    } else {
        first
    }
}

/// At most one card is marked, that of the tool that is selected.
pub proof fn law_one_card_is_selected(v: Seq<StatusModel>, selected: SelectedTool, unfolded: bool)
    ensures
        forall|i: int|
            0 <= i < cards(v, selected, unfolded).len() ==> (#[trigger] cards(
                v,
                selected,
                unfolded,
            )[i]).selected == (cards(v, selected, unfolded)[i].tool == selected),
{
}

fn find_status(v: &[ToolStatus], tool: Tool) -> (r: Option<usize>)
    ensures
        match r {
            Some(i) => i < v@.len() && status_from(tools::statuses(v@), tool, 0) == Some(
                v@[i as int]@,
            ),
            None => status_from(tools::statuses(v@), tool, 0) is None,
        },
{
    let ghost all = tools::statuses(v@);
    let mut i: usize = 0;
    while i < v.len()
        invariant
            i <= v@.len(),
            all == tools::statuses(v@),
            status_from(all, tool, 0) == status_from(all, tool, i as nat),
        decreases v@.len() - i,
    {
        assert(all[i as int] == v@[i as int]@);
        if v[i].tool == tool {
            return Some(i);
        }
        i += 1;
    }
    None
}

/// Whether a tool is there.
pub fn tool_is_there(v: &[ToolStatus], tool: Tool) -> (r: bool)
    ensures
        r == is_there(tools::statuses(v@), tool),
{
    match find_status(v, tool) {
        Some(i) => v[i].available,
        None => false,
    }
}

fn status_text(available: bool, version: &Option<String>) -> (r: String)
    ensures
        r@ == card_status(available, sendme::string_view(*version)),
{
    if !available {
        owned("missing")
    } else {
        match version {
            Some(v) => owned(v.as_str()),
            None => owned("ok"),
        }
    }
}

fn card_of(s: &ToolStatus, selected: SelectedTool) -> (r: Card)
    ensures
        r@ == tool_card(s@, selected),
{
    let status = status_text(s.available, &s.version);
    match s.tool {
        Tool::Sendme => Card {
            tool: SelectedTool::Sendme,
            name: owned("Sendme"),
            description: owned("Cutting-edge performance, reliability, and security"),
            available: s.available,
            status,
            selected: selected == SelectedTool::Sendme,
        },
        Tool::Croc => Card {
            tool: SelectedTool::Croc,
            name: owned("Croc"),
            description: owned("Convenience, ease of use, and 3rd-party mobile support"),
            available: s.available,
            status,
            selected: selected == SelectedTool::Croc,
        },
    }
}

fn push_card(out: &mut Vec<Card>, v: &[ToolStatus], tool: Tool, selected: SelectedTool)
    ensures
        cards_view(final(out)@) == with_tool_card(
            cards_view(old(out)@),
            tools::statuses(v@),
            tool,
            selected,
        ),
{
    match find_status(v, tool) {
        Some(i) => {
            let c = card_of(&v[i], selected);
            let ghost model = c@;
            out.push(c);
            assert(cards_view(out@) =~= cards_view(old(out)@).push(model));
        },
        None => {},
    }
}

/// The cards on the first page.
pub fn engine_cards(v: &[ToolStatus], selected: SelectedTool, unfolded: bool) -> (r: Vec<Card>)
    ensures
        cards_view(r@) == cards(tools::statuses(v@), selected, unfolded),
{
    let available = tool_is_there(v, Tool::Croc) && tool_is_there(v, Tool::Sendme);
    let mut out: Vec<Card> = Vec::new();
    out.push(
        Card {
            tool: SelectedTool::EazySendme,
            name: owned("EazySendme"),
            description: owned("Sendme performance + Croc like short custom sharing code"),
            available,
            status: status_text(available, &None),
            selected: selected == SelectedTool::EazySendme,
        },
    );
    assert(cards_view(out@) =~= seq![eazy_card(tools::statuses(v@), selected)]);
    if unfolded {
        push_card(&mut out, v, Tool::Sendme, selected);
        push_card(&mut out, v, Tool::Croc, selected);
    }
    out
}

// ── The log ──

/// How a line of the log is coloured.
#[derive(Clone, Copy, Debug, PartialEq, Eq, Structural)]
pub enum Tone {
    Error,
    Warning,
    Success,
    Plain,
}

/// The tone of a line, by words in its lower-case form.
pub open spec fn tone_of(lower: Seq<char>) -> Tone {
    if text::contains(lower, "error"@) || text::contains(lower, "fail"@) {
        Tone::Error
    } else if text::contains(lower, "warn"@) {
        Tone::Warning
    } else if text::contains(lower, "100%"@) || text::contains(lower, "complete"@)
        || text::contains(lower, "done"@) {
        Tone::Success
    } else {
        Tone::Plain
    }
}

/// The tone of a line, given its lower-case form.
pub fn log_tone_in(lower: &str) -> (r: Tone)
    ensures
        r == tone_of(lower@),
{
    let chars = text::chars_of(lower);
    let s = chars.as_slice();
    if text::contains_str(s, "error") || text::contains_str(s, "fail") {
        Tone::Error
    } else if text::contains_str(s, "warn") {
        Tone::Warning
    } else if text::contains_str(s, "100%") || text::contains_str(s, "complete")
        || text::contains_str(s, "done") {
        Tone::Success
    } else {
        Tone::Plain
    }
}

/// The tone of a line of the log.
pub fn log_tone(line: &str) -> (r: Tone)
    ensures
        r == tone_of(text::lowercase(line@)),
{
    let lower = line.to_lowercase();
    log_tone_in(lower.as_str())
}

/// The first line of the log that is drawn: at most the last two hundred are.
pub fn log_start(len: usize) -> (r: usize)
    ensures
        r == (if len > 200 {
            len - 200
        } else {
            0
        }),
{
    if len > 200 {
        len - 200
    } else {
        0
    }
}

/// How many characters of a code fit on a line of this many points.
pub fn code_budget(width: u64) -> (r: usize)
    ensures
        r == (if width / 8 < 20 {
            20
        } else if width / 8 > 72 {
            72
        } else {
            width / 8
        }),
{
    let n: u64 = width / 8;
    if n < 20 {
        20
    } else if n > 72 {
        72
    } else {
        n as usize
    }
}

/// What stands on the window while files hover over it.
pub fn drag_text(tool: SelectedTool, text_mode: bool) -> (r: &'static str)
    ensures
        r@ == (if tool == SelectedTool::Croc && text_mode {
            "TEXT MODE SELECTED"@
        } else {
            "Drop files/folders here"@
        }),
{
    if tool == SelectedTool::Croc && text_mode {
        "TEXT MODE SELECTED"
    } else {
        "Drop files/folders here"
    }
}

// ── Words for a tool ──

/// The title of the window with the code to scan, and what stands over the code.
pub fn qr_popup_texts(tool: SelectedTool) -> (r: (&'static str, &'static str))
    ensures
        match tool {
            SelectedTool::Croc => r.0@ == "Croc QR"@ && r.1@ == "Scan or copy this code"@,
            SelectedTool::Sendme => r.0@ == "Sendme QR"@ && r.1@ == "Scan or copy this ticket"@,
            SelectedTool::EazySendme => r.0@ == "EazySendme QR"@ && r.1@
                == "Scan or copy this ticket"@,
        },
{
    match tool {
        SelectedTool::Croc => ("Croc QR", "Scan or copy this code"),
        SelectedTool::Sendme => ("Sendme QR", "Scan or copy this ticket"),
        SelectedTool::EazySendme => ("EazySendme QR", "Scan or copy this ticket"),
    }
}

/// What is entered to receive, and an example of it.
pub fn code_field_texts(tool: SelectedTool) -> (r: (&'static str, &'static str))
    ensures
        if tool == SelectedTool::Sendme {
            r.0@ == "Ticket"@ && r.1@ == "paste ticket here"@
        } else {
            r.0@ == "Code Phrase"@ && r.1@ == "e.g. 1234-ocean-monkey"@
        },
{
    match tool {
        SelectedTool::Sendme => ("Ticket", "paste ticket here"),
        _ => ("Code Phrase", "e.g. 1234-ocean-monkey"),
    }
}

/// The name of a tool with its sign.
pub fn tool_badge(tool: SelectedTool) -> (r: &'static str)
    ensures
        r@ == (match tool {
            SelectedTool::Croc => "\u{1F40A} croc"@,
            SelectedTool::Sendme => "\u{1F4E1} sendme"@,
            SelectedTool::EazySendme => "\u{26A1} eazysendme"@,
        }),
{
    match tool {
        SelectedTool::Croc => "\u{1F40A} croc",
        SelectedTool::Sendme => "\u{1F4E1} sendme",
        SelectedTool::EazySendme => "\u{26A1} eazysendme",
    }
}

/// What stands on the button that starts receiving.
pub fn receive_button(tool: SelectedTool) -> (r: &'static str)
    ensures
        r@ == (match tool {
            SelectedTool::Croc => "\u{1F40A} Receive"@,
            SelectedTool::Sendme => "\u{1F4E1} Receive"@,
            SelectedTool::EazySendme => "\u{26A1} Receive"@,
        }),
{
    match tool {
        SelectedTool::Croc => "\u{1F40A} Receive",
        SelectedTool::Sendme => "\u{1F4E1} Receive",
        SelectedTool::EazySendme => "\u{26A1} Receive",
    }
}

} // verus!
