//! What the user has chosen, and how far a transfer is.

use crate::binary64::Magnitude;
use vstd::prelude::*;

verus! {

#[derive(Clone, Copy, Debug, PartialEq, Eq, Structural)]
pub enum AppView {
    Home,
    Send,
    Receive,
}

#[derive(Clone, Copy, Debug, PartialEq, Eq, Structural)]
pub enum SelectedTool {
    Croc,
    Sendme,
    EazySendme,
}

#[derive(Clone, Copy, Debug, PartialEq, Eq, Structural)]
pub enum TransferPhase {
    Preparing,
    WaitingForReceiver,
    Transferring,
    /// The ticket of a sendme session is being handed over by croc.
    EazySharingTicket,
    EazyWaitingForPeer,
}

/// The circumstances in which a line is read.
#[derive(Clone, Copy)]
pub struct Context {
    pub tool: SelectedTool,
    pub view: AppView,
    /// The ticket of the combined mode is known.
    pub ticket_known: bool,
    /// A peer of the sendme session is connected.
    pub peer_connected: bool,
    /// The time in seconds.
    pub now: Magnitude,
}

pub struct ContextModel {
    pub tool: SelectedTool,
    pub view: AppView,
    pub ticket_known: bool,
    pub peer_connected: bool,
    pub now: nat,
}

impl View for Context {
    type V = ContextModel;

    open spec fn view(&self) -> ContextModel {
        ContextModel {
            tool: self.tool,
            view: self.view,
            ticket_known: self.ticket_known,
            peer_connected: self.peer_connected,
            now: self.now@,
        }
    }
}

impl ContextModel {
    /// Lines are those of sendme: its own mode, or the combined mode once the
    /// ticket is there.
    pub open spec fn sendme_like(self) -> bool {
        self.tool == SelectedTool::Sendme || (self.tool == SelectedTool::EazySendme && (self.view
            == AppView::Send || (self.view == AppView::Receive && self.ticket_known)))
    }

    pub open spec fn croc(self) -> bool {
        self.tool == SelectedTool::Croc
    }
}

impl Context {
    pub fn is_sendme_like(&self) -> (r: bool)
        ensures
            r == self@.sendme_like(),
    {
        self.tool == SelectedTool::Sendme || (self.tool == SelectedTool::EazySendme && (self.view
            == AppView::Send || (self.view == AppView::Receive && self.ticket_known)))
    }
}

} // verus!
