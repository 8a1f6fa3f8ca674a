//! What the runtime asks of the outside world.

use vstd::prelude::*;

use crate::app::supervisor::SessionIdentity;
use crate::terminal::process::{ProcessSpec, ProcessView, TerminalSize};
use crate::workbench::pane::PaneId;
use crate::workbench::persistence::LayoutIntent;

verus! {

/// How a backend can fail.
#[derive(Debug, Clone, Copy, PartialEq, Eq, Structural)]
pub enum BackendFault {
    Resize,
    Input,
    Mouse,
    Paste,
    Output,
    Exit,
}

impl BackendFault {
    /// What the user is told of a fault. An exit has no cause to tell.
    pub open spec fn message(self, error: Seq<char>) -> Seq<char> {
        match self {
            BackendFault::Resize => "backend resize error: "@ + error,
            BackendFault::Input => "backend input error: "@ + error,
            BackendFault::Mouse => "backend mouse error: "@ + error,
            BackendFault::Paste => "backend paste error: "@ + error,
            BackendFault::Output => "backend error: "@ + error,
            BackendFault::Exit => "backend exited"@,
        }
    }
}

/// One thing to do. Effects are carried out in the order in which they come.
/// One that names a session is dropped if that session is no longer running.
#[derive(Debug)]
pub enum Effect {
    /// Start a process and report how that went.
    Spawn { pane: PaneId, identity: SessionIdentity, process: ProcessSpec, size: TerminalSize },
    /// Write to a process; `fault` is what it is if that fails.
    Write { pane: PaneId, identity: SessionIdentity, bytes: Vec<u8>, fault: BackendFault },
    /// Tell a process the size of its terminal.
    Resize { pane: PaneId, identity: SessionIdentity, size: TerminalSize },
    /// End a process.
    Terminate { pane: PaneId, identity: SessionIdentity },
    /// Keep the layout for the next run.
    SaveLayout(LayoutIntent),
    /// Put text on the clipboard.
    CopyText(String),
    /// Read the clipboard and paste what it holds.
    ReadClipboard,
}

pub enum EffectView {
    Spawn { pane: PaneId, identity: SessionIdentity, process: ProcessView, size: TerminalSize },
    Write { pane: PaneId, identity: SessionIdentity, bytes: Seq<u8>, fault: BackendFault },
    Resize { pane: PaneId, identity: SessionIdentity, size: TerminalSize },
    Terminate { pane: PaneId, identity: SessionIdentity },
    SaveLayout(LayoutIntent),
    CopyText(Seq<char>),
    ReadClipboard,
}

impl View for Effect {
    type V = EffectView;

    open spec fn view(&self) -> EffectView {
        match self {
            Effect::Spawn { pane, identity, process, size } => EffectView::Spawn {
                pane: *pane,
                identity: *identity,
                process: process@,
                size: *size,
            },
            Effect::Write { pane, identity, bytes, fault } => EffectView::Write {
                pane: *pane,
                identity: *identity,
                bytes: bytes@,
                fault: *fault,
            },
            Effect::Resize { pane, identity, size } => EffectView::Resize {
                pane: *pane,
                identity: *identity,
                size: *size,
            },
            Effect::Terminate { pane, identity } => EffectView::Terminate {
                pane: *pane,
                identity: *identity,
            },
            Effect::SaveLayout(intent) => EffectView::SaveLayout(*intent),
            Effect::CopyText(text) => EffectView::CopyText(text@),
            Effect::ReadClipboard => EffectView::ReadClipboard,
        }
    }
}

pub open spec fn effect_views(effects: Seq<Effect>) -> Seq<EffectView> {
    effects.map_values(|effect: Effect| effect@)
}

/// The list of an effect, if there is one.
pub open spec fn one_or_none(effect: Option<EffectView>) -> Seq<EffectView> {
    match effect {
        Some(effect) => seq![effect],
        None => Seq::empty(),
    }
}

/// Adds an effect to a list, if there is one.
pub fn push_effect(effects: &mut Vec<Effect>, effect: Option<Effect>)
    ensures
        effect_views(final(effects)@) == effect_views(old(effects)@) + one_or_none(
            match effect {
                Some(effect) => Some(effect@),
                None => None,
            },
        ),
{
    let ghost before = effect_views(effects@);
    match effect {
        Some(effect) => {
            let ghost added = effect@;
            effects.push(effect);
            assert(effect_views(effects@) =~= before + seq![added]);
        },
        None => {
            assert(effect_views(effects@) =~= before + Seq::empty());
        },
    }
}

} // verus!
