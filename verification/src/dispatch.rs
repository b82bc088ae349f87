//! Action dispatch: turn one user action into the ordered workspace-model,
//! process-spawning and shutdown calls the surrounding program performs.

use vstd::prelude::*;
use vstd::string::StringExecFns;

use crate::config::Action;
use crate::state::{window_under, window_under_spec, HoloState, WindowEntry};

verus! {

/// One call against the workspace model, the shell, or the event loop.
/// The dispatcher emits these in order; the surrounding program performs
/// them in that order.
#[derive(PartialEq, Eq, Debug)]
pub enum Command {
    /// Stop the event loop after the current iteration.
    Quit,
    /// Ask this window's client to close it (asynchronous, not awaited).
    CloseWindow { window: u64 },
    /// Make workspace `id` the active one.
    ActivateWorkspace { id: u8 },
    /// Move the window to workspace `id`, re-flowing the tiled layout with
    /// the given gap size.
    MoveWindowToWorkspace { window: u64, id: u8, gaps: i32 },
    /// Run the command line through a detached shell.
    SpawnProcess { command: String },
}

/// Why a dispatch failed.
#[derive(Clone, Copy, PartialEq, Eq, Structural, Debug)]
pub enum DispatchError {
    /// The action exists in the configuration vocabulary but is not
    /// implemented; it fails loudly rather than silently doing nothing.
    Unimplemented,
}

/// The commands one action gives rise to, given the window under the
/// pointer (if any) and the configured gap size. Actions that target the
/// window under the pointer are no-ops when there is none; the move-then-
/// switch composition orders the move strictly before the switch.
pub open spec fn dispatch_spec(
    action: Action,
    under: Option<WindowEntry>,
    gaps: i32,
) -> Result<Seq<Command>, DispatchError> {
    match action {
        Action::Quit => Ok(seq![Command::Quit]),
        Action::Debug => Err(DispatchError::Unimplemented),
        Action::Close => match under {
            Some(w) => Ok(seq![Command::CloseWindow { window: w.id }]),
            None => Ok(Seq::empty()),
        },
        Action::Workspace(id) => Ok(seq![Command::ActivateWorkspace { id }]),
        Action::MoveWindowToWorkspace(id) => match under {
            Some(w) => Ok(seq![Command::MoveWindowToWorkspace { window: w.id, id, gaps }]),
            None => Ok(Seq::empty()),
        },
        Action::MoveWindowAndSwitchToWorkspace(id) => match under {
            Some(w) => Ok(
                seq![
                    Command::MoveWindowToWorkspace { window: w.id, id, gaps },
                    Command::ActivateWorkspace { id },
                ],
            ),
            None => Ok(seq![Command::ActivateWorkspace { id }]),
        },
        Action::ToggleWindowFloating => Err(DispatchError::Unimplemented),
        Action::Spawn(command) => Ok(seq![Command::SpawnProcess { command }]),
    }
}

impl HoloState {
    /// Execute one action: the result lists the collaborator calls to
    /// perform, in order. `windows` is the active workspace's window
    /// snapshot, topmost first; actions that target a window act on the one
    /// under the current pointer location. Unimplemented actions fail
    /// loudly with an error instead of silently doing nothing.
    pub fn handle_action(&self, action: Action, windows: &Vec<WindowEntry>) -> (r: Result<
        Vec<Command>,
        DispatchError,
    >)
        requires
            forall|i: int| 0 <= i < windows@.len() ==> (#[trigger] windows@[i]).rect.wf(),
        ensures
            ({
                let expected = dispatch_spec(
                    action,
                    window_under_spec(windows@, self.pointer_location),
                    self.config.gaps,
                );
                match expected {
                    Ok(cmds) => r matches Ok(v) && v@ == cmds,
                    Err(e) => r matches Err(e2) && e2 == e,
                }
            }),
    {
        let under = window_under(windows, self.pointer_location);
        match action {
            Action::Quit => {
                let mut v: Vec<Command> = Vec::new();
                v.push(Command::Quit);
                proof {
                    assert(v@ =~= seq![Command::Quit]);
                }
                Ok(v)
            },
            Action::Debug => Err(DispatchError::Unimplemented),
            Action::Close => {
                let mut v: Vec<Command> = Vec::new();
                match under {
                    Some(w) => {
                        v.push(Command::CloseWindow { window: w.id });
                        proof {
                            assert(v@ =~= seq![Command::CloseWindow { window: w.id }]);
                        }
                    },
                    None => {
                        proof {
                            assert(v@ =~= Seq::<Command>::empty());
                        }
                    },
                }
                Ok(v)
            },
            Action::Workspace(id) => {
                let mut v: Vec<Command> = Vec::new();
                v.push(Command::ActivateWorkspace { id });
                proof {
                    assert(v@ =~= seq![Command::ActivateWorkspace { id }]);
                }
                Ok(v)
            },
            Action::MoveWindowToWorkspace(id) => {
                let mut v: Vec<Command> = Vec::new();
                match under {
                    Some(w) => {
                        v.push(
                            Command::MoveWindowToWorkspace {
                                window: w.id,
                                id,
                                gaps: self.config.gaps,
                            },
                        );
                        proof {
                            assert(v@ =~= seq![
                                Command::MoveWindowToWorkspace {
                                    window: w.id,
                                    id,
                                    gaps: self.config.gaps,
                                },
                            ]);
                        }
                    },
                    None => {
                        proof {
                            assert(v@ =~= Seq::<Command>::empty());
                        }
                    },
                }
                Ok(v)
            },
            Action::MoveWindowAndSwitchToWorkspace(id) => {
                let mut v: Vec<Command> = Vec::new();
                match under {
                    Some(w) => {
                        v.push(
                            Command::MoveWindowToWorkspace {
                                window: w.id,
                                id,
                                gaps: self.config.gaps,
                            },
                        );
                        v.push(Command::ActivateWorkspace { id });
                        proof {
                            assert(v@ =~= seq![
                                Command::MoveWindowToWorkspace {
                                    window: w.id,
                                    id,
                                    gaps: self.config.gaps,
                                },
                                Command::ActivateWorkspace { id },
                            ]);
                        }
                    },
                    None => {
                        v.push(Command::ActivateWorkspace { id });
                        proof {
                            assert(v@ =~= seq![Command::ActivateWorkspace { id }]);
                        }
                    },
                }
                Ok(v)
            },
            Action::ToggleWindowFloating => Err(DispatchError::Unimplemented),
            Action::Spawn(command) => {
                let mut v: Vec<Command> = Vec::new();
                let ghost cmd = command;
                v.push(Command::SpawnProcess { command });
                proof {
                    assert(v@ =~= seq![Command::SpawnProcess { command: cmd }]);
                }
                Ok(v)
            },
        }
    }
}

/// Law: the composed action's commands are exactly those of the move
/// followed by those of the switch, so the move is performed strictly
/// before the workspace switch.
pub proof fn lemma_move_switch_composition(id: u8, under: Option<WindowEntry>, gaps: i32)
    ensures
        ({
            let composed = dispatch_spec(Action::MoveWindowAndSwitchToWorkspace(id), under, gaps);
            let move_part = dispatch_spec(Action::MoveWindowToWorkspace(id), under, gaps);
            let switch_part = dispatch_spec(Action::Workspace(id), under, gaps);
            &&& composed is Ok
            &&& move_part is Ok
            &&& switch_part is Ok
            &&& composed->Ok_0 == move_part->Ok_0 + switch_part->Ok_0
        }),
{
    let composed = dispatch_spec(Action::MoveWindowAndSwitchToWorkspace(id), under, gaps);
    let move_part = dispatch_spec(Action::MoveWindowToWorkspace(id), under, gaps);
    let switch_part = dispatch_spec(Action::Workspace(id), under, gaps);
    match under {
        Some(w) => {
            assert(composed->Ok_0 =~= move_part->Ok_0 + switch_part->Ok_0);
        },
        None => {
            assert(composed->Ok_0 =~= move_part->Ok_0 + switch_part->Ok_0);
        },
    }
}

/// The log line recorded when spawning a command fails: the underlying
/// error text followed by the failing command line, quoted.
pub fn spawn_failure_message(err: &str, command: &str) -> (msg: String)
    ensures
        msg@ == err@ + ": failed to spawn \""@ + command@ + "\""@,
{
    let mut msg = err.to_owned();
    msg.append(": failed to spawn \"");
    msg.append(command);
    msg.append("\"");
    msg
}

} // verus!
