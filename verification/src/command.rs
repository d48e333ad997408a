//! Commands sent from the presentation side to the serial worker.

use vstd::prelude::*;

verus! {

/// What a write command carries.
#[derive(Debug, PartialEq, Eq)]
pub enum CmdType {
    /// Toggle the data-terminal-ready line; carries the requested level.
    Dtr(bool),
    /// Toggle the request-to-send line; carries the requested level.
    Rts(bool),
    /// Raw text to send to the active device.
    Raw(String),
}

/// A command for the serial worker.
#[derive(Debug, PartialEq, Eq)]
pub enum PortCommand {
    /// Write to the active device.
    Write(CmdType),
    /// Make the named device the active one, opening it if needed.
    ChangePort(String),
}

/// A `CmdType` with its text as a sequence of characters.
pub enum CmdTypeView {
    Dtr(bool),
    Rts(bool),
    Raw(Seq<char>),
}

/// A `PortCommand` with its texts as sequences of characters.
pub enum PortCommandView {
    Write(CmdTypeView),
    ChangePort(Seq<char>),
}

impl View for CmdType {
    type V = CmdTypeView;

    open spec fn view(&self) -> CmdTypeView {
        match self {
            CmdType::Dtr(level) => CmdTypeView::Dtr(*level),
            CmdType::Rts(level) => CmdTypeView::Rts(*level),
            CmdType::Raw(text) => CmdTypeView::Raw(text@),
        }
    }
}

impl View for PortCommand {
    type V = PortCommandView;

    open spec fn view(&self) -> PortCommandView {
        match self {
            PortCommand::Write(what) => PortCommandView::Write(what@),
            PortCommand::ChangePort(name) => PortCommandView::ChangePort(name@),
        }
    }
}

} // verus!
