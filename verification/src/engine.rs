//! The session that runs: the state that the messages of the tools change.

use crate::binary64::Magnitude;
use crate::facts;
use crate::messages;
use crate::metrics::{time_view, Metrics};
use crate::numerals;
use crate::sendme;
use crate::sendme::string_view;
use crate::session;
use crate::session::{
    EazyModel, EffectModel, EntryModel, EnvironmentModel, Flow, ServeModel, SessionModel,
    Severity, StateModel, TextsModel,
};
use crate::state::{AppView, Context, SelectedTool, TransferPhase};
use crate::text;
use crate::transfer::{owned, TransferMsg};
use std::collections::HashMap;
use vstd::prelude::*;

verus! {

broadcast use vstd::std_specs::hash::group_hash_axioms;

pub enum TransferState {
    Idle,
    Running,
    Completed,
    Failed(String),
}

impl View for TransferState {
    type V = StateModel;

    open spec fn view(&self) -> StateModel {
        match *self {
            TransferState::Idle => StateModel::Idle,
            TransferState::Running => StateModel::Running,
            TransferState::Completed => StateModel::Completed,
            TransferState::Failed(e) => StateModel::Failed(e@),
        }
    }
}

pub struct Texts {
    pub received: Option<String>,
    pub expected: bool,
    pub popup_open: bool,
}

impl View for Texts {
    type V = TextsModel;

    open spec fn view(&self) -> TextsModel {
        TextsModel {
            received: string_view(self.received),
            expected: self.expected,
            popup_open: self.popup_open,
        }
    }
}

pub struct Serve {
    pub one_shot: bool,
    pub peer_connected: bool,
    pub waiting_after_cycle: bool,
    pub last_activity: Option<Magnitude>,
    pub active_transfers: usize,
}

impl View for Serve {
    type V = ServeModel;

    open spec fn view(&self) -> ServeModel {
        ServeModel {
            one_shot: self.one_shot,
            peer_connected: self.peer_connected,
            waiting_after_cycle: self.waiting_after_cycle,
            last_activity: time_view(self.last_activity),
            active_transfers: self.active_transfers,
        }
    }
}

pub struct Eazy {
    pub auto_retry: bool,
    pub retries: u8,
    pub next_retry: Option<Magnitude>,
    pub local_check: Option<Magnitude>,
    pub ticket: Option<String>,
}

impl View for Eazy {
    type V = EazyModel;

    open spec fn view(&self) -> EazyModel {
        EazyModel {
            auto_retry: self.auto_retry,
            retries: self.retries,
            next_retry: time_view(self.next_retry),
            local_check: time_view(self.local_check),
            ticket: string_view(self.ticket),
        }
    }
}

pub struct EazyCacheEntry {
    pub code: String,
    pub ticket: String,
    pub timestamp: u64,
}

impl View for EazyCacheEntry {
    type V = EntryModel;

    open spec fn view(&self) -> EntryModel {
        EntryModel { code: self.code@, ticket: self.ticket@, timestamp: self.timestamp }
    }
}

pub open spec fn entries(v: Seq<EazyCacheEntry>) -> Seq<EntryModel> {
    v.map_values(|e: EazyCacheEntry| e@)
}

pub enum Effect {
    CancelTransfer,
    CancelShare,
    Persist,
    ShareTicket { ticket: String, secret: Option<String> },
    ReceiveTicket(String),
    CleanUp(String),
    CrocSend { custom_code: Option<String>, text: Option<String> },
    SendmeSend { one_shot: bool },
    CrocReceive { code: String, into_chosen: bool },
    CheckLocal(String),
    Toast { message: String, severity: Severity },
}

impl View for Effect {
    type V = EffectModel;

    open spec fn view(&self) -> EffectModel {
        match *self {
            Effect::CancelTransfer => EffectModel::CancelTransfer,
            Effect::CancelShare => EffectModel::CancelShare,
            Effect::Persist => EffectModel::Persist,
            Effect::ShareTicket { ticket, secret } => EffectModel::ShareTicket {
                ticket: ticket@,
                secret: string_view(secret),
            },
            Effect::ReceiveTicket(t) => EffectModel::ReceiveTicket(t@),
            Effect::CleanUp(t) => EffectModel::CleanUp(t@),
            Effect::CrocSend { custom_code, text } => EffectModel::CrocSend {
                custom_code: string_view(custom_code),
                text: string_view(text),
            },
            Effect::SendmeSend { one_shot } => EffectModel::SendmeSend { one_shot },
            Effect::CrocReceive { code, into_chosen } => EffectModel::CrocReceive {
                code: code@,
                into_chosen,
            },
            Effect::CheckLocal(t) => EffectModel::CheckLocal(t@),
            Effect::Toast { message, severity } => EffectModel::Toast {
                message: message@,
                severity,
            },
        }
    }
}

pub open spec fn effects(v: Seq<Effect>) -> Seq<EffectModel> {
    v.map_values(|e: Effect| e@)
}

pub(crate) fn ask(fx: &mut Vec<Effect>, e: Effect)
    ensures
        effects(final(fx)@) == effects(old(fx)@).push(e@),
{
    fx.push(e);
    assert(effects(fx@) =~= effects(old(fx)@).push(e@));
}

/// What a message needs from outside.
pub struct Environment {
    pub direction: Option<String>,
    pub croc_there: bool,
    pub unix_secs: u64,
    pub hashes: Vec<Option<String>>,
}

pub open spec fn hash_views(v: Seq<Option<String>>) -> Seq<Option<Seq<char>>> {
    v.map_values(|h: Option<String>| string_view(h))
}

impl View for Environment {
    type V = EnvironmentModel;

    open spec fn view(&self) -> EnvironmentModel {
        EnvironmentModel {
            direction: string_view(self.direction),
            croc_there: self.croc_there,
            unix_secs: self.unix_secs,
            hashes: hash_views(self.hashes@),
        }
    }
}

/// A transfer and everything that is known of it.
pub struct Session {
    pub tool: SelectedTool,
    pub view: AppView,
    pub now: Magnitude,
    pub state: TransferState,
    pub code: Option<String>,
    pub log: Vec<String>,
    pub start_time: Option<Magnitude>,
    pub end_time: Option<Magnitude>,
    pub route: Option<String>,
    pub qr_popup_open: bool,
    pub receive_code: String,
    pub custom_code: String,
    pub cache: Vec<EazyCacheEntry>,
    pub metrics: Metrics,
    pub texts: Texts,
    pub serve: Serve,
    pub eazy: Eazy,
}

impl View for Session {
    type V = SessionModel;

    open spec fn view(&self) -> SessionModel {
        SessionModel {
            tool: self.tool,
            view: self.view,
            now: self.now@,
            state: self.state@,
            code: string_view(self.code),
            log: messages::lines_view(self.log@),
            start_time: time_view(self.start_time),
            end_time: time_view(self.end_time),
            route: string_view(self.route),
            qr_popup_open: self.qr_popup_open,
            receive_code: self.receive_code@,
            custom_code: self.custom_code@,
            cache: entries(self.cache@),
            metrics: self.metrics@,
            texts: self.texts@,
            serve: self.serve@,
            eazy: self.eazy@,
        }
    }
}

pub(crate) fn trimmed(s: &str) -> (r: String)
    ensures
        r@ == text::trim(s@),
{
    let chars = text::chars_of(s);
    text::string_of(text::trim_chars(chars.as_slice()))
}

pub(crate) fn is_blank(s: &str) -> (r: bool)
    ensures
        r == (s@.len() == 0),
{
    text::chars_of(s).len() == 0
}

fn says(lower: &[char], p: &str) -> (r: bool)
    ensures
        r == text::contains(lower@, p@),
{
    text::contains_str(lower, p)
}

impl Session {
    pub(crate) fn is_running(&self) -> (r: bool)
        ensures
            r == (self@.state is Running),
    {
        match self.state {
            TransferState::Running => true,
            _ => false,
        }
    }

    fn is_completed(&self) -> (r: bool)
        ensures
            r == (self@.state is Completed),
    {
        match self.state {
            TransferState::Completed => true,
            _ => false,
        }
    }

    fn serves(&self) -> (r: bool)
        ensures
            r == session::serves(self@),
    {
        self.tool == SelectedTool::Sendme || self.tool == SelectedTool::EazySendme
    }

    fn is_serving(&self) -> (r: bool)
        ensures
            r == session::is_serving(self@),
    {
        self.serves() && self.view == AppView::Send && self.is_running()
    }

    pub(crate) fn push_log(&mut self, line: String)
        ensures
            final(self)@ == session::with_log(old(self)@, line@),
    {
        let ghost before = self.log@;
        self.log.push(line);
        assert(messages::lines_view(self.log@) =~= messages::lines_view(before).push(line@));
    }

    fn push_bounded_log(&mut self, line: String)
        ensures
            final(self)@ == session::with_bounded_log(old(self)@, line@),
    {
        let ghost before = messages::lines_view(self.log@);
        self.push_log(line);
        if self.log.len() > 500 {
            let ghost full = self.log@;
            let rest = self.log.split_off(100);
            self.log = rest;
            assert(messages::lines_view(self.log@) =~= messages::lines_view(full).skip(100));
        }
    }

    fn context(&self) -> (r: Context)
        ensures
            r@ == session::context_of(self@),
    {
        Context {
            tool: self.tool,
            view: self.view,
            ticket_known: self.eazy.ticket.is_some(),
            peer_connected: self.serve.peer_connected,
            now: self.now,
        }
    }

    // ── The cache of tickets ──

    pub(crate) fn find_entry(&self, code: &str) -> (r: Option<usize>)
        ensures
            match r {
                Some(i) => session::entry_at(self@.cache, code@, 0) == Some(i as int) && i
                    < self.cache@.len(),
                None => session::entry_at(self@.cache, code@, 0) is None,
            },
    {
        let ghost all = self@.cache;
        let mut i: usize = 0;
        while i < self.cache.len()
            invariant
                i <= self.cache.len(),
                all == entries(self.cache@),
                all == self@.cache,
                session::entry_at(all, code@, 0) == session::entry_at(all, code@, i as int),
            decreases self.cache.len() - i,
        {
            assert(all[i as int] == self.cache@[i as int]@);
            if text::same_str(self.cache[i].code.as_str(), code) {
                return Some(i);
            }
            i += 1;
        }
        None
    }

    pub(crate) fn remove_entry(&mut self, i: usize)
        requires
            i < old(self).cache@.len(),
        ensures
            final(self)@ == (SessionModel {
                cache: old(self)@.cache.remove(i as int),
                ..old(self)@
            }),
    {
        let ghost before = self.cache@;
        self.cache.remove(i);
        assert(entries(self.cache@) =~= entries(before).remove(i as int));
    }

    pub(crate) fn put_entry(&mut self, code: String, ticket: String, timestamp: u64)
        ensures
            final(self)@ == (SessionModel {
                cache: session::with_entry(
                    old(self)@.cache,
                    EntryModel { code: code@, ticket: ticket@, timestamp },
                ),
                ..old(self)@
            }),
    {
        let ghost before = self.cache@;
        match self.find_entry(code.as_str()) {
            Some(i) => {
                let entry = EazyCacheEntry { code, ticket, timestamp };
                self.cache.remove(i);
                let ghost e = entry@;
                self.cache.insert(i, entry);
                assert(entries(self.cache@) =~= entries(before).update(i as int, e));
            },
            None => {
                let entry = EazyCacheEntry { code, ticket, timestamp };
                let ghost e = entry@;
                self.cache.push(entry);
                assert(entries(self.cache@) =~= entries(before).push(e));
            },
        }
    }

    /// Takes the entries of a list in place of those that are there.
    pub(crate) fn collect_entries(&mut self, list: Vec<EazyCacheEntry>)
        ensures
            final(self)@ == (SessionModel {
                cache: session::collected(entries(list@), list@.len()),
                ..old(self)@
            }),
    {
        let ghost all = entries(list@);
        self.cache = Vec::new();
        assert(self@.cache =~= Seq::empty());
        let mut i: usize = 0;
        while i < list.len()
            invariant
                i <= list.len(),
                all == entries(list@),
                self@ == (SessionModel {
                    cache: session::collected(all, i as nat),
                    ..old(self)@
                }),
            decreases list.len() - i,
        {
            assert(all[i as int] == list@[i as int]@);
            self.put_entry(
                owned(list[i].code.as_str()),
                owned(list[i].ticket.as_str()),
                list[i].timestamp,
            );
            i += 1;
        }
    }

    fn hash_is(hashes: &Vec<Option<String>>, i: usize, hash: &str) -> (r: bool)
        ensures
            r == (session::hash_at(hash_views(hashes@), i as int) == Some(hash@)),
    {
        if i < hashes.len() {
            assert(hash_views(hashes@)[i as int] == string_view(hashes@[i as int]));
            match &hashes[i] {
                Some(h) => text::same_str(h.as_str(), hash),
                None => false,
            }
        } else {
            false
        }
    }

    /// Removes all entries whose tickets have the hash, and asks for the removal
    /// of what the first of them has left on the disk.
    pub fn cleanup_eazy_cache_by_hash(
        &mut self,
        fx: &mut Vec<Effect>,
        hashes: &Vec<Option<String>>,
        hash: &str,
        delete_blobs: bool,
    )
        ensures
            (final(self)@, effects(final(fx)@)) == session::cache_cleaned(
                old(self)@,
                effects(old(fx)@),
                hash_views(hashes@),
                hash@,
                delete_blobs,
            ),
    {
        let ghost hv = hash_views(hashes@);
        let ghost all = self@.cache;
        let mut first: Option<String> = None;
        let mut k: usize = 0;
        while k < self.cache.len() && first.is_none()
            invariant
                k <= self.cache.len(),
                hv == hash_views(hashes@),
                all == entries(self.cache@),
                first is None ==> session::ticket_with_hash(all, hv, hash@, 0)
                    == session::ticket_with_hash(all, hv, hash@, k as int),
                first matches Some(t) ==> session::ticket_with_hash(all, hv, hash@, 0) == Some(t@),
            decreases self.cache.len() - k, (if first is None { 1int } else { 0 }),
        {
            assert(all[k as int] == self.cache@[k as int]@);
            if Self::hash_is(hashes, k, hash) {
                first = Some(owned(self.cache[k].ticket.as_str()));
            } else {
                k += 1;
            }
        }
        let mut kept: Vec<EazyCacheEntry> = Vec::new();
        let mut i: usize = 0;
        assert(entries(kept@) =~= Seq::empty());
        while i < self.cache.len()
            invariant
                i <= self.cache.len(),
                hv == hash_views(hashes@),
                all == entries(self.cache@),
                entries(kept@) == session::without_hash(all, hv, hash@, i as nat),
            decreases self.cache.len() - i,
        {
            assert(all[i as int] == self.cache@[i as int]@);
            if !Self::hash_is(hashes, i, hash) {
                let ghost had = kept@;
                let e = &self.cache[i];
                let copy = EazyCacheEntry {
                    code: owned(e.code.as_str()),
                    ticket: owned(e.ticket.as_str()),
                    timestamp: e.timestamp,
                };
                let ghost c = copy@;
                kept.push(copy);
                assert(entries(kept@) =~= entries(had).push(c));
            }
            i += 1;
        }
        self.cache = kept;
        if delete_blobs {
            match first {
                Some(t) => {
                    ask(fx, Effect::CleanUp(t));
                },
                None => {},
            }
        }
        ask(fx, Effect::Persist);
    }

    // ── Failing ──

    fn retry_seconds(&self) -> (r: Magnitude)
        ensures
            r@ == session::retry_wait(self@),
    {
        if self.view == AppView::Send {
            return Magnitude::zero();
        }
        let bytes: u64 = match self.metrics.total {
            Some(t) => t,
            None => 0,
        };
        proof {
            crate::binary64::lemma_whole_positive(104857600);
        }
        let w = Magnitude::from_u64(30).plus(
            &Magnitude::from_u64(bytes).over(&Magnitude::from_u64(104857600)),
        );
        let top = Magnitude::from_u64(120);
        if top.reaches(&w) {
            w
        } else {
            top
        }
    }

    fn retry_message(e: &str, retries: u8, wait: &Magnitude) -> (r: String)
        ensures
            r@ == session::retry_text(e@, retries, wait@),
    {
        let mut out = text::chars_of("Transfer failed (");
        text::push_text(&mut out, e);
        text::push_text(&mut out, "). Auto-retrying ");
        numerals::push_decimal(&mut out, retries as u64);
        text::push_text(&mut out, "/3 ");
        if wait.is_zero() {
            text::push_text(&mut out, "immediately...");
        } else {
            text::push_text(&mut out, "in ");
            numerals::push_decimal(&mut out, wait.truncate());
            text::push_text(&mut out, "s...");
        }
        assert(out@ =~= session::retry_text(e@, retries, wait@));
        text::string_of(out.as_slice())
    }

    fn conflict() -> (r: String)
        ensures
            r@ == session::conflict_text(),
    {
        owned(
            "The file/folder you intended to download has the same name as another item at the destination. Rename that item and try a new transfer.",
        )
    }

    /// Lets the transfer fail with a message whose lower-case form is given too.
    pub fn fail_transfer_in(&mut self, fx: &mut Vec<Effect>, e: String, lower: &str)
        ensures
            (final(self)@, effects(final(fx)@)) == session::failed(
                old(self)@,
                effects(old(fx)@),
                e@,
                lower@,
            ),
    {
        ask(fx, Effect::CancelTransfer);
        let cancelled: bool = text::same_str(e.as_str(), "Transfer cancelled");
        let low = text::chars_of(lower);
        let low = low.as_slice();
        if cancelled {
            match self.state {
                TransferState::Failed(_) => {
                    return;
                },
                _ => {},
            }
        }
        if text::same_str(e.as_str(), "blobs-incomplete") && self.tool == SelectedTool::EazySendme
            && self.view == AppView::Receive {
            self.eazy.ticket = None;
            let key = trimmed(self.receive_code.as_str());
            if !is_blank(key.as_str()) {
                match self.find_entry(key.as_str()) {
                    Some(i) => {
                        self.remove_entry(i);
                        ask(fx, Effect::Persist);
                    },
                    None => {},
                }
            }
            self.push_log(owned("Local blobs incomplete, starting full receive..."));
            self.eazy.next_retry = Some(self.now);
            self.state = TransferState::Failed(e);
            self.end_time = Some(self.now);
            return;
        }
        let exists: bool = says(low, "already exists") || says(low, "file exists") || says(
            low,
            "os error 17",
        ) || says(low, "os error 183");
        if exists {
            self.eazy.retries = 0;
            if self.tool == SelectedTool::Croc {
                self.state = TransferState::Failed(Self::conflict());
            }
            self.end_time = Some(self.now);
            return;
        }
        if text::same_str(e.as_str(), "conflict-detected") {
            self.eazy.retries = 0;
            self.state = TransferState::Failed(Self::conflict());
            self.end_time = Some(self.now);
            return;
        }
        if self.tool == SelectedTool::EazySendme && self.eazy.auto_retry && self.eazy.retries < 3
            && !cancelled {
            self.eazy.retries = self.eazy.retries + 1;
            let wait = self.retry_seconds();
            self.eazy.next_retry = Some(self.now.plus(&wait));
            let message = Self::retry_message(e.as_str(), self.eazy.retries, &wait);
            self.push_log(owned(message.as_str()));
            self.state = TransferState::Failed(message);
        } else {
            self.eazy.retries = 0;
            self.eazy.next_retry = None;
            self.state = TransferState::Failed(e);
        }
        self.end_time = Some(self.now);
    }

    /// Lets the transfer fail with a message.
    pub fn fail_transfer(&mut self, fx: &mut Vec<Effect>, e: String)
        ensures
            (final(self)@, effects(final(fx)@)) == session::failed_with(
                old(self)@,
                effects(old(fx)@),
                e@,
            ),
    {
        let lower = e.as_str().to_lowercase();
        self.fail_transfer_in(fx, e, lower.as_str());
    }
}

impl Session {
    // ── Cycles of a sendme session ──

    /// Begins to wait for the next receiver: nothing of the last cycle is shown.
    pub fn mark_sendme_sender_waiting(&mut self)
        ensures
            final(self)@ == session::waiting_anew(old(self)@),
    {
        self.metrics.phase = TransferPhase::WaitingForReceiver;
        self.metrics.payload_start = None;
        self.metrics.progress = Magnitude::zero();
        self.metrics.done = None;
        self.metrics.speed = None;
        self.metrics.had_transfer = false;
        self.metrics.total_items = None;
        self.metrics.done_estimate = 0;
        self.metrics.item_done = HashMap::new();
        self.metrics.item_total = HashMap::new();
        self.metrics.stream_base = 0;
        self.metrics.stream_done = None;
        self.metrics.stream_total = None;
        self.metrics.payload_complete = false;
        self.serve.peer_connected = false;
        self.serve.waiting_after_cycle = true;
        self.serve.last_activity = None;
        self.serve.active_transfers = 0;
    }

    fn wait_first(&mut self)
        ensures
            final(self)@ == session::waiting_first(old(self)@),
    {
        self.metrics.phase = TransferPhase::WaitingForReceiver;
        self.serve.waiting_after_cycle = false;
        self.serve.active_transfers = 0;
    }

    /// Completes a session for one receiver.
    pub fn mark_sendme_one_shot_completed(&mut self, fx: &mut Vec<Effect>)
        ensures
            (final(self)@, effects(final(fx)@)) == session::one_shot_completed(
                old(self)@,
                effects(old(fx)@),
            ),
    {
        self.state = TransferState::Completed;
        self.eazy.retries = 0;
        self.eazy.next_retry = None;
        self.metrics.progress = Magnitude::unit();
        self.metrics.preparing = Magnitude::unit();
        self.end_time = Some(self.now);
        match self.metrics.total {
            Some(t) => {
                if t > 0 {
                    self.metrics.done = Some(t);
                }
            },
            None => {},
        }
        self.serve.peer_connected = false;
        self.metrics.had_transfer = false;
        self.serve.waiting_after_cycle = false;
        self.serve.last_activity = None;
        self.serve.active_transfers = 0;
        self.metrics.payload_complete = false;
        ask(fx, Effect::CancelTransfer);
    }

    fn receiver_gone(&mut self, fx: &mut Vec<Effect>, unstarted: &str, early: &str)
        ensures
            (final(self)@, effects(final(fx)@)) == session::receiver_gone(
                old(self)@,
                effects(old(fx)@),
                unstarted@,
                early@,
            ),
    {
        let done: u64 = match self.metrics.done {
            Some(d) => d,
            None => 0,
        };
        let total: u64 = match self.metrics.total {
            Some(t) => t,
            None => 0,
        };
        if !(done > 0 || self.metrics.had_transfer) {
            self.fail_transfer(fx, owned(unstarted));
        } else if self.metrics.payload_complete || (total > 0 && done >= total) {
            self.mark_sendme_one_shot_completed(fx);
        } else {
            self.fail_transfer(fx, owned(early));
        }
    }

    // ── Texts from croc ──

    fn take_text(&mut self, t: String)
        ensures
            final(self)@ == session::with_text(old(self)@, t@),
    {
        self.texts.received = Some(t);
        if self.tool == SelectedTool::Croc {
            self.texts.popup_open = true;
        }
        self.texts.expected = false;
    }

    fn has_text(&self, t: &str) -> (r: bool)
        ensures
            r == (self@.texts.received == Some(t@)),
    {
        match &self.texts.received {
            Some(x) => text::same_str(x.as_str(), t),
            None => false,
        }
    }

    /// Looks at a line for a text that croc hands over, and tells whether the
    /// line is part of one.
    pub fn update_croc_received_text_from_log(&mut self, line: &str) -> (r: bool)
        ensures
            (final(self)@, r) == session::text_looked_for(old(self)@, line@),
    {
        match messages::extract_croc_received_text(line) {
            Some(t) => {
                if !self.has_text(t.as_str()) {
                    self.take_text(t);
                }
                return true;
            },
            None => {},
        }
        if !((self.tool == SelectedTool::Croc || self.tool == SelectedTool::EazySendme)
            && self.view == AppView::Receive) {
            return false;
        }
        let lower = line.to_lowercase();
        let lower = text::chars_of(lower.as_str());
        let low = lower.as_slice();
        if (says(low, "receiv") && says(low, "text")) || says(low, "text message") || says(
            low,
            "message received",
        ) {
            self.texts.expected = true;
        }
        let quote: [char; 1] = ['"'];
        assert(quote@ =~= seq!['"']);
        let chars = text::chars_of(line);
        let t = text::trim_chars_of(text::trim_chars(chars.as_slice()), quote.as_slice());
        let found = text::string_of(t);
        if self.texts.expected && messages::is_probable_croc_text_payload_line(line)
            && !self.has_text(found.as_str()) {
            self.take_text(found);
            return true;
        }
        if self.texts.received.is_none() {
            match messages::extract_croc_received_text_from_logs(&self.log) {
                Some(t) => {
                    self.take_text(t);
                    return true;
                },
                None => {},
            }
        }
        false
    }

    // ── Output ──

    fn take_route(&mut self, direction: &Option<String>)
        ensures
            final(self)@ == session::with_route(old(self)@, string_view(*direction)),
    {
        match direction {
            Some(label) => {
                if self.tool == SelectedTool::Croc && self.route.is_none() {
                    self.route = Some(owned(label.as_str()));
                    self.push_log(text::join2("Route: ", label.as_str()));
                }
            },
            None => {},
        }
    }

    fn take_signals(&mut self, low: &[char])
        ensures
            final(self)@ == session::with_signals(old(self)@, low@),
    {
        let writing: bool = says(low, "[4/4] writing files to disk") || says(
            low,
            "[4/4] writing...",
        );
        if self.tool == SelectedTool::Sendme && self.view == AppView::Receive && self.metrics.phase
            != TransferPhase::Transferring && (says(low, "[2/4] downloading") || says(
            low,
            "[3/4] downloading",
        ) || writing) {
            self.metrics.preparing = Magnitude::unit();
            self.metrics.begin(self.now);
        }
        if writing || says(low, "[local] blobs complete locally, exporting") {
            self.eazy.local_check = None;
        }
    }

    fn take_sender_phase(&mut self, low: &[char], direction: bool)
        ensures
            final(self)@ == session::with_sender_phase(old(self)@, low@, direction),
    {
        if !(self.view == AppView::Send && self.is_running()) {
            return;
        }
        if self.metrics.phase == TransferPhase::Preparing && ((self.serves() && says(
            low,
            "sendme receive ",
        )) || (self.tool == SelectedTool::Croc && says(low, "code copied to clipboard"))) {
            self.metrics.phase = TransferPhase::WaitingForReceiver;
        }
        if self.tool == SelectedTool::Croc && self.metrics.phase
            == TransferPhase::WaitingForReceiver && direction {
            self.metrics.had_transfer = true;
            self.metrics.begin(self.now);
        }
    }

    fn repeats(&self, line: &str) -> (r: bool)
        ensures
            r == (self@.log.len() > 0 && self@.log.last() == line@),
    {
        if self.log.len() == 0 {
            return false;
        }
        assert(self@.log.last() == self.log@.last()@);
        text::same_str(self.log[self.log.len() - 1].as_str(), line)
    }

    fn take_log_line(&mut self, line: &str, low: &[char], framed: bool, request: bool, skip: bool)
        ensures
            forall|f: crate::facts::FactsModel|
                f.frame is Some == framed && f.request_line == request ==> final(self)@
                    == #[trigger] session::logged(old(self)@, line@, low@, f, skip),
    {
        let chars = text::chars_of(line);
        let l = chars.as_slice();
        let elsewhere: bool = if self.tool == SelectedTool::Croc {
            framed || (text::starts_with(low, "hashing ") && says(l, "%") && says(l, "|"))
        } else {
            request || says(low, "downloading ...") || says(low, "uploading ...") || says(
                low,
                "writing... ",
            ) || (text::starts_with(l, "n ") && says(l, " r "))
        };
        if !skip && !elsewhere && (self.serves() || !self.repeats(line)) {
            self.push_bounded_log(owned(line));
        }
    }

    fn take_peer(&mut self, low: &[char])
        ensures
            final(self)@ == session::with_peer(old(self)@, low@),
    {
        if says(low, "disco_in{endpoint=") || says(low, "new direct addr for endpoint") || says(
            low,
            "new connection type",
        ) || says(low, "typ=direct") || says(low, "typ=mixed") || says(low, "connect{") || says(
            low,
            "add_endpoint_addr",
        ) {
            self.serve.peer_connected = true;
            self.serve.waiting_after_cycle = false;
            self.serve.last_activity = Some(self.now);
        } else if self.serve.peer_connected && (says(low, " r ") || says(low, "sending") || says(
            low,
            "download",
        ) || says(low, "upload")) {
            self.serve.last_activity = Some(self.now);
            if self.view == AppView::Send && self.metrics.phase
                == TransferPhase::WaitingForReceiver {
                self.metrics.had_transfer = true;
                self.metrics.begin(self.now);
            }
        }
    }

    fn take_flow(&mut self, flows: bool)
        ensures
            forall|f: crate::facts::FactsModel|
                session::shows_flow(f) == flows ==> final(self)@ == #[trigger] session::with_flow(
                    old(self)@,
                    f,
                ),
    {
        if self.view == AppView::Send && flows && (!self.serve.waiting_after_cycle
            || self.serve.peer_connected) {
            self.metrics.had_transfer = true;
            self.serve.waiting_after_cycle = false;
            self.serve.last_activity = Some(self.now);
            if self.metrics.phase != TransferPhase::Transferring {
                self.metrics.begin(self.now);
            }
        }
    }

    /// Takes in what a line of output tells of the progress. `direction` is whether
    /// it is one of croc's direction lines.
    pub fn update_transfer_metrics_from_log(&mut self, line: &str, direction: bool)
        ensures
            final(self)@ == (SessionModel {
                metrics: crate::metrics::after_line(
                    old(self)@.metrics,
                    session::context_of(old(self)@),
                    facts::facts(line@, text::lowercase(line@)),
                    direction,
                ),
                ..old(self)@
            }),
    {
        let lower = line.to_lowercase();
        let f = facts::read_facts_in(line, lower.as_str());
        let c = self.context();
        self.metrics.update(&c, f, direction);
    }

    /// Takes in a line of output, with its lower-case form given too.
    pub fn take_output_in(&mut self, line: &str, lower: &str, direction: &Option<String>)
        ensures
            final(self)@ == session::on_output(
                old(self)@,
                line@,
                lower@,
                string_view(*direction),
            ),
    {
        proof {
            reveal(session::on_output);
        }
        let f = facts::read_facts_in(line, lower);
        let ghost told = f@;
        let low = text::chars_of(lower);
        let low = low.as_slice();
        let framed: bool = f.frame.is_some();
        let request: bool = f.request_line;
        let flows: bool = f.r_counter.is_some() || ((f.third_stage || f.fourth_stage) && (
        f.uploading || f.downloading));
        let directed: bool = direction.is_some();
        self.take_route(direction);
        self.take_signals(low);
        if self.is_running() {
            let c = self.context();
            self.metrics.update(&c, f, directed);
        }
        let skip: bool = if self.tool != SelectedTool::Sendme && self.view == AppView::Receive {
            self.update_croc_received_text_from_log(line)
        } else {
            false
        };
        self.take_sender_phase(low, directed);
        self.take_log_line(line, low, framed, request, skip);
        if self.serves() {
            self.take_peer(low);
            self.take_flow(flows);
        }
    }

    // ── Other messages ──

    fn take_progress(&mut self, p: Magnitude)
        ensures
            final(self)@ == session::on_progress(old(self)@, p@),
    {
        proof {
            reveal(session::on_progress);
        }
        if !p.is_zero() {
            self.eazy.local_check = None;
        }
        if self.is_serving() && !self.serve.one_shot && self.serve.waiting_after_cycle
            && !self.serve.peer_connected {
            return;
        }
        let c = self.context();
        self.metrics.progress = self.metrics.progress.max(&p);
        if self.metrics.phase == TransferPhase::Transferring {
            match self.metrics.total {
                Some(total) => {
                    if total > 0 {
                        let by_part: u64 = p.capped().times(
                            &Magnitude::from_u64(total),
                        ).truncate();
                        let done: u64 = match self.metrics.done {
                            Some(d) => d,
                            None => 0,
                        };
                        let more: u64 = if done >= by_part {
                            done
                        } else {
                            by_part
                        };
                        let next: u64 = if more <= total {
                            more
                        } else {
                            total
                        };
                        self.metrics.done = Some(next);
                        self.metrics.update_derived_speed_from_done_bytes(&c);
                    }
                },
                None => {},
            }
        }
    }

    fn share_ticket(&mut self, fx: &mut Vec<Effect>, ticket: String, croc_there: bool)
        ensures
            (final(self)@, effects(final(fx)@)) == session::ticket_shared(
                old(self)@,
                effects(old(fx)@),
                ticket@,
                croc_there,
            ),
    {
        if self.eazy.ticket.is_some() {
            return;
        }
        self.metrics.phase = TransferPhase::EazySharingTicket;
        self.eazy.ticket = Some(owned(ticket.as_str()));
        let mut note = text::chars_of("Ticket generated: ");
        text::push_text(&mut note, ticket.as_str());
        text::push_text(&mut note, ". Sharing via Croc...");
        self.push_log(text::string_of(note.as_slice()));
        if croc_there {
            let secret = if is_blank(self.custom_code.as_str()) {
                None
            } else {
                Some(owned(self.custom_code.as_str()))
            };
            ask(fx, Effect::ShareTicket { ticket, secret });
        }
    }

    fn take_code(&mut self, fx: &mut Vec<Effect>, code: String, croc_there: bool)
        ensures
            (final(self)@, effects(final(fx)@)) == session::on_code(
                old(self)@,
                effects(old(fx)@),
                code@,
                croc_there,
            ),
    {
        proof {
            reveal(session::on_code);
        }
        if messages::is_masked_croc_code(code.as_str()) && self.code.is_some() {
        } else if self.tool == SelectedTool::EazySendme && self.view == AppView::Send {
            self.share_ticket(fx, code, croc_there);
        } else if self.tool == SelectedTool::EazySendme && self.view == AppView::Receive {
        } else {
            self.code = Some(code);
        }
        if self.tool == SelectedTool::Sendme && self.view == AppView::Send && self.metrics.phase
            == TransferPhase::Preparing {
            self.wait_first();
        }
    }

    fn take_waiting(&mut self)
        ensures
            final(self)@ == session::on_waiting(old(self)@),
    {
        proof {
            reveal(session::on_waiting);
        }
        if self.is_serving() {
            if !self.serve.one_shot && (self.metrics.had_transfer
                || self.serve.waiting_after_cycle) {
                self.mark_sendme_sender_waiting();
            } else {
                self.wait_first();
            }
        }
    }

    fn take_activity(&mut self)
        ensures
            final(self)@ == session::on_activity(old(self)@),
    {
        proof {
            reveal(session::on_activity);
        }
        if !self.is_serving() || (self.serve.waiting_after_cycle && !self.serve.peer_connected) {
            return;
        }
        self.serve.peer_connected = true;
        self.metrics.had_transfer = true;
        if self.serve.active_transfers == 0 {
            self.serve.active_transfers = 1;
        }
        self.serve.waiting_after_cycle = false;
        self.serve.last_activity = Some(self.now);
        if self.metrics.phase != TransferPhase::Transferring {
            self.metrics.begin(self.now);
        }
    }

    fn take_active(&mut self, count: usize)
        ensures
            final(self)@ == session::on_active(old(self)@, count),
    {
        proof {
            reveal(session::on_active);
        }
        if !self.is_serving() || self.serve.one_shot {
            return;
        }
        self.serve.active_transfers = count;
        if count > 0 {
            self.serve.peer_connected = true;
            self.metrics.had_transfer = true;
            self.serve.waiting_after_cycle = false;
            self.serve.last_activity = Some(self.now);
            if self.metrics.phase == TransferPhase::WaitingForReceiver {
                self.metrics.begin(self.now);
            }
        } else {
            self.serve.peer_connected = false;
        }
    }

    fn take_ticket(&mut self, fx: &mut Vec<Effect>, t: &str, unix_secs: u64)
        ensures
            (final(self)@, effects(final(fx)@)) == session::ticket_received(
                old(self)@,
                effects(old(fx)@),
                t@,
                unix_secs,
            ),
    {
        self.push_log(owned("Ticket received via Croc. Starting Sendme..."));
        let ticket = match sendme::normalize_sendme_ticket(t) {
            Some(n) => n,
            None => owned(t),
        };
        self.eazy.ticket = Some(owned(ticket.as_str()));
        let key = trimmed(self.receive_code.as_str());
        if !is_blank(key.as_str()) {
            self.put_entry(key, owned(ticket.as_str()), unix_secs);
            ask(fx, Effect::Persist);
        }
        ask(fx, Effect::ReceiveTicket(ticket));
        self.metrics.phase = TransferPhase::Preparing;
        self.start_time = Some(self.now);
    }

    fn clean_up(&mut self, fx: &mut Vec<Effect>, hashes: &Vec<Option<String>>)
        ensures
            (final(self)@, effects(final(fx)@)) == session::cleaned_up(
                old(self)@,
                effects(old(fx)@),
                hash_views(hashes@),
            ),
    {
        if self.tool == SelectedTool::Sendme && self.view == AppView::Receive {
            match &self.code {
                Some(ticket) => {
                    ask(fx, Effect::CleanUp(owned(ticket.as_str())));
                },
                None => {},
            }
        }
        let key = trimmed(self.receive_code.as_str());
        match self.find_entry(key.as_str()) {
            None => {},
            Some(i) => {
                let hash: Option<String> = if i < hashes.len() {
                    assert(hash_views(hashes@)[i as int] == string_view(hashes@[i as int]));
                    match &hashes[i] {
                        Some(h) => Some(owned(h.as_str())),
                        None => None,
                    }
                } else {
                    None
                };
                match hash {
                    Some(h) => {
                        self.cleanup_eazy_cache_by_hash(fx, hashes, h.as_str(), true);
                    },
                    None => {
                        assert(self@.cache[i as int] == self.cache@[i as int]@);
                        let ticket = owned(self.cache[i].ticket.as_str());
                        self.remove_entry(i);
                        ask(fx, Effect::CleanUp(ticket));
                        ask(fx, Effect::Persist);
                    },
                }
            },
        }
    }

    fn complete(&mut self)
        ensures
            final(self)@ == session::transfer_completed(old(self)@),
    {
        self.state = TransferState::Completed;
        self.eazy.retries = 0;
        self.eazy.next_retry = None;
        self.metrics.progress = Magnitude::unit();
        self.metrics.preparing = Magnitude::unit();
        if self.metrics.total.is_some() {
            self.metrics.done = self.metrics.total;
        }
    }

    fn take_completed(&mut self, fx: &mut Vec<Effect>, env: &Environment) -> (r: Flow)
        ensures
            (final(self)@, effects(final(fx)@), r) == session::on_completed(
                old(self)@,
                effects(old(fx)@),
                env.unix_secs,
                hash_views(env.hashes@),
            ),
    {
        proof {
            reveal(session::on_completed);
        }
        self.eazy.local_check = None;
        self.end_time = Some(self.now);
        if self.tool == SelectedTool::Croc && self.view == AppView::Send && self.code.is_none() {
            self.fail_transfer(
                fx,
                owned("Croc send ended before starting. Check options and retry."),
            );
            return Flow::Continue;
        }
        if self.tool == SelectedTool::EazySendme && self.view == AppView::Receive
            && self.eazy.ticket.is_none() {
            let found: Option<String> = match &self.texts.received {
                Some(t) => Some(owned(t.as_str())),
                None => {
                    let key = trimmed(self.receive_code.as_str());
                    match self.find_entry(key.as_str()) {
                        Some(i) => {
                            assert(self@.cache[i as int] == self.cache@[i as int]@);
                            Some(owned(self.cache[i].ticket.as_str()))
                        },
                        None => None,
                    }
                },
            };
            return match found {
                Some(t) => {
                    self.texts.received = Some(owned(t.as_str()));
                    self.take_ticket(fx, t.as_str(), env.unix_secs);
                    Flow::Handover
                },
                None => {
                    self.fail_transfer(fx, owned("Croc finished but no ticket found"));
                    Flow::Continue
                },
            };
        }
        self.complete();
        self.clean_up(fx, &env.hashes);
        Flow::Continue
    }

    fn peer_finished(&mut self, fx: &mut Vec<Effect>)
        ensures
            (final(self)@, effects(final(fx)@)) == session::on_peer_finished(
                old(self)@,
                effects(old(fx)@),
            ),
    {
        ask(
            fx,
            Effect::Toast {
                message: owned("Peer finished downloading"),
                severity: Severity::Success,
            },
        );
        if self.tool == SelectedTool::EazySendme && self.metrics.phase
            == TransferPhase::EazySharingTicket {
            self.metrics.phase = TransferPhase::EazyWaitingForPeer;
            self.push_log(owned("Ticket shared via Croc. Waiting for Sendme transfer..."));
        }
        if self.tool == SelectedTool::Sendme && self.view == AppView::Send && !self.serve.one_shot {
            self.mark_sendme_sender_waiting();
        } else {
            self.metrics.progress = Magnitude::zero();
            self.metrics.phase = if self.tool == SelectedTool::EazySendme && self.view
                == AppView::Send {
                TransferPhase::EazyWaitingForPeer
            } else {
                TransferPhase::Preparing
            };
            self.metrics.preparing = Magnitude::zero();
            self.metrics.payload_start = None;
            self.metrics.done = None;
            self.metrics.total = None;
            self.metrics.had_transfer = false;
            self.serve.waiting_after_cycle = false;
            self.serve.active_transfers = 0;
        }
    }

    fn peer_disconnected(&mut self, fx: &mut Vec<Effect>)
        ensures
            (final(self)@, effects(final(fx)@)) == session::on_peer_disconnected(
                old(self)@,
                effects(old(fx)@),
            ),
    {
        proof {
            reveal(session::on_peer_disconnected);
        }
        if self.is_completed() {
            return;
        }
        self.push_log(owned("Peer disconnected"));
        if self.serves() && self.serve.one_shot {
            self.receiver_gone(
                fx,
                "Peer disconnected before transfer started",
                "Transfer was not completed (peer disconnected early)",
            );
        } else {
            self.peer_finished(fx);
        }
    }

    fn log_has_dns_failure(&self) -> (r: bool)
        ensures
            r == session::log_says_dns_failure(self@.log),
    {
        let n: usize = self.log.len();
        let mut i: usize = if n > 50 {
            n - 50
        } else {
            0
        };
        let ghost all = self@.log;
        let ghost first = i as int;
        while i < n
            invariant
                first <= i <= n,
                n == self.log.len(),
                all == messages::lines_view(self.log@),
                all == self@.log,
                first == (if n > 50 {
                    n - 50
                } else {
                    0
                }),
                forall|j: int|
                    first <= j < i ==> !session::says_dns_failure(
                        text::lowercase(#[trigger] all[j]),
                    ),
            decreases n - i,
        {
            assert(all[i as int] == self.log@[i as int]@);
            if is_relay_dns_failure_line(self.log[i].as_str()) {
                assert(session::says_dns_failure(text::lowercase(all[i as int])));
                return true;
            }
            i += 1;
        }
        false
    }

    fn take_error(&mut self, fx: &mut Vec<Effect>, e: String) -> (r: Flow)
        ensures
            (final(self)@, effects(final(fx)@), r) == session::on_error(
                old(self)@,
                effects(old(fx)@),
                e@,
            ),
    {
        proof {
            reveal(session::on_error);
        }
        self.eazy.local_check = None;
        if self.is_completed() {
            return Flow::Continue;
        }
        let ended: bool = text::same_str(
            e.as_str(),
            "Send session ended before transfer completed",
        );
        let broken: bool = text::same_str(e.as_str(), "Sendme transfer failed on sender side");
        let done: u64 = match self.metrics.done {
            Some(d) => d,
            None => 0,
        };
        if text::same_str(e.as_str(), "Transfer cancelled") {
            self.fail_transfer(fx, e);
        } else if ended && self.serves() && self.serve.one_shot && (self.metrics.had_transfer
            || done > 0) {
            self.receiver_gone(
                fx,
                "Send session ended before payload started",
                "Transfer was not completed (session ended early)",
            );
        } else if (ended || broken) && self.serves() && !self.serve.one_shot {
            return Flow::RestartServe;
        } else if self.tool != SelectedTool::Sendme && self.log_has_dns_failure() {
            self.fail_transfer(
                fx,
                owned(
                    "Couldn't reach the relay: DNS lookup failed. Check your DNS or VPN connection and retry (details in the log below).",
                ),
            );
        } else {
            self.fail_transfer(fx, e);
        }
        Flow::Continue
    }

    fn take_started(&mut self)
        ensures
            final(self)@ == session::on_started(old(self)@),
    {
        proof {
            reveal(session::on_started);
        }
        let receiving: bool = self.tool == SelectedTool::Sendme && self.view == AppView::Receive;
        self.state = TransferState::Running;
        self.start_time = Some(self.now);
        if receiving {
            self.metrics.phase = TransferPhase::Transferring;
            self.metrics.preparing = Magnitude::unit();
            self.metrics.payload_start = Some(self.now);
        } else {
            self.metrics.phase = TransferPhase::Preparing;
            self.metrics.preparing = Magnitude::zero();
            self.metrics.payload_start = None;
        }
        self.end_time = None;
        self.route = None;
        self.metrics.speed = None;
        self.metrics.done = None;
        self.metrics.had_transfer = false;
        self.serve.waiting_after_cycle = false;
        self.serve.active_transfers = 0;
    }

    /// Takes in a message of the transfer's tool: what is to be done, and how it
    /// goes on.
    pub fn on_message(&mut self, msg: TransferMsg, env: &Environment) -> (r: (Vec<Effect>, Flow))
        ensures
            (final(self)@, effects(r.0@), r.1) == session::on_message(old(self)@, msg@, env@),
    {
        let mut fx: Vec<Effect> = Vec::new();
        assert(effects(fx@) =~= Seq::empty());
        let flow = match msg {
            TransferMsg::Output(line) => {
                let lower = line.as_str().to_lowercase();
                self.take_output_in(line.as_str(), lower.as_str(), &env.direction);
                Flow::Continue
            },
            TransferMsg::Progress(p) => {
                self.take_progress(p);
                Flow::Continue
            },
            TransferMsg::Code(code) => {
                self.take_code(&mut fx, code, env.croc_there);
                Flow::Continue
            },
            TransferMsg::WaitingForReceiver => {
                self.take_waiting();
                Flow::Continue
            },
            TransferMsg::SenderTransferActivity => {
                self.take_activity();
                Flow::Continue
            },
            TransferMsg::ActiveTransfers(n) => {
                self.take_active(n);
                Flow::Continue
            },
            TransferMsg::Completed => self.take_completed(&mut fx, env),
            TransferMsg::PeerDisconnected => {
                self.peer_disconnected(&mut fx);
                Flow::Continue
            },
            TransferMsg::Error(e) => self.take_error(&mut fx, e),
            TransferMsg::Started => {
                self.take_started();
                Flow::Continue
            },
        };
        (fx, flow)
    }

    /// The messages have ended without a last one.
    pub fn on_silence(&mut self) -> (r: Vec<Effect>)
        ensures
            (final(self)@, effects(r@)) == session::on_silence(old(self)@),
    {
        let mut fx: Vec<Effect> = Vec::new();
        assert(effects(fx@) =~= Seq::empty());
        if self.is_running() {
            self.fail_transfer(
                &mut fx,
                owned("Transfer process ended unexpectedly. Please retry."),
            );
        }
        fx
    }

    fn share_over(&mut self, note: &str)
        ensures
            final(self)@ == session::share_over(old(self)@, note@),
    {
        self.metrics.phase = TransferPhase::EazyWaitingForPeer;
        self.push_log(owned(note));
    }

    /// Takes in a message of the croc process that hands over a ticket.
    pub fn on_share_message(&mut self, msg: TransferMsg) -> (r: Vec<Effect>)
        ensures
            (final(self)@, effects(r@)) == session::on_share_message(old(self)@, msg@),
    {
        let mut fx: Vec<Effect> = Vec::new();
        assert(effects(fx@) =~= Seq::empty());
        let sharing: bool = self.tool == SelectedTool::EazySendme && self.view == AppView::Send
            && self.metrics.phase == TransferPhase::EazySharingTicket;
        match msg {
            TransferMsg::Output(line) => {
                if !self.update_croc_received_text_from_log(line.as_str()) {
                    self.push_bounded_log(text::join2("[Croc] ", line.as_str()));
                }
            },
            TransferMsg::Code(code) => {
                self.code = Some(code);
                if sharing {
                    self.share_over("Croc code generated. Share this code with receiver.");
                }
            },
            TransferMsg::Error(e) => {
                ask(
                    &mut fx,
                    Effect::Toast {
                        message: text::join2("Croc error: ", e.as_str()),
                        severity: Severity::Error,
                    },
                );
                assert(effects(fx@) =~= session::on_share_message(old(self)@, msg@).1);
            },
            TransferMsg::Completed => {
                self.push_log(owned("Croc finished sharing ticket."));
                if sharing {
                    self.share_over("Waiting for receiver to connect via Sendme...");
                }
            },
            _ => {},
        }
        fx
    }

    /// Forgets the transfer, and asks for its processes to be cancelled.
    pub fn reset_transfer(&mut self, fx: &mut Vec<Effect>)
        ensures
            final(self)@ == session::was_reset(old(self)@),
            effects(final(fx)@) == effects(old(fx)@).push(EffectModel::CancelTransfer).push(
                EffectModel::CancelShare,
            ),
    {
        ask(fx, Effect::CancelTransfer);
        ask(fx, Effect::CancelShare);
        self.state = TransferState::Idle;
        self.code = None;
        self.log = Vec::new();
        self.start_time = None;
        self.end_time = None;
        self.route = None;
        self.qr_popup_open = false;
        self.metrics = Metrics::new();
        self.texts = Texts { received: None, expected: false, popup_open: false };
        self.serve.peer_connected = false;
        self.serve.waiting_after_cycle = false;
        self.serve.last_activity = None;
        self.serve.active_transfers = 0;
        self.eazy.local_check = None;
        self.eazy.ticket = None;
        assert(messages::lines_view(self.log@) =~= Seq::empty());
    }

    /// Cancels the transfer on the user's wish.
    pub fn cancel_transfer(&mut self, fx: &mut Vec<Effect>)
        ensures
            final(self)@ == session::was_cancelled(old(self)@),
            effects(final(fx)@) == effects(old(fx)@).push(EffectModel::CancelTransfer),
    {
        ask(fx, Effect::CancelTransfer);
        self.eazy.retries = 0;
        self.eazy.next_retry = None;
        self.end_time = Some(self.now);
        self.state = TransferState::Failed(owned("Transfer cancelled"));
    }
}

/// Whether a line in lower case says that a relay's name was not found.
pub fn is_relay_dns_failure_line_in(low: &[char]) -> (r: bool)
    ensures
        r == session::says_dns_failure(low@),
{
    says(low, "no such host") || says(low, "could not resolve") || says(low, "cannot resolve")
        || says(low, "temporary failure in name resolution") || says(low, "server misbehaving")
        || says(low, "dns error") || says(low, "dns lookup failed") || (says(low, "lookup")
        && says(low, "getcroc")) || (says(low, "lookup") && says(low, "i/o timeout"))
}

/// Whether a line says that a relay's name was not found.
pub fn is_relay_dns_failure_line(line: &str) -> (r: bool)
    ensures
        r == session::says_dns_failure(text::lowercase(line@)),
{
    let lower = line.to_lowercase();
    let low = text::chars_of(lower.as_str());
    is_relay_dns_failure_line_in(low.as_slice())
}

/// How many messages are taken at once.
pub fn messages_per_frame(tool: SelectedTool) -> (r: usize)
    ensures
        r == session::quota(tool),
{
    if tool == SelectedTool::Croc {
        800
    } else {
        600
    }
}

} // verus!
