//! An abstract view of the workspace collaborator's observable state, and
//! the laws relating dispatched command sequences to that state: the move
//! in a move-then-switch composition is observable strictly before the
//! switch, and activating the same workspace twice changes nothing the
//! second time.

use vstd::prelude::*;

use crate::config::Action;
use crate::dispatch::{dispatch_spec, Command};
use crate::state::WindowEntry;

verus! {

/// What of the workspace model this core's commands can change and the
/// surrounding system can observe: which workspace is active, and which
/// workspace each window sits in.
pub ghost struct WorkspacesView {
    pub active: u8,
    pub assignment: Map<u64, u8>,
}

/// How one command changes the observable workspace state. Commands that
/// only touch the outside world (quit, a close request, a spawn) leave it
/// as it is: a close is an asynchronous request whose completion is not
/// awaited, so nothing is observable at dispatch time.
pub open spec fn apply_command(v: WorkspacesView, c: Command) -> WorkspacesView {
    match c {
        Command::ActivateWorkspace { id } => WorkspacesView { active: id, ..v },
        Command::MoveWindowToWorkspace { window, id, gaps } => WorkspacesView {
            assignment: v.assignment.insert(window, id),
            ..v
        },
        _ => v,
    }
}

/// A command sequence applied in order, front first.
pub open spec fn apply_commands(v: WorkspacesView, s: Seq<Command>) -> WorkspacesView
    decreases s.len(),
{
    if s.len() == 0 {
        v
    } else {
        apply_commands(apply_command(v, s[0]), s.subrange(1, s.len() as int))
    }
}

/// Law: with a window under the pointer, the move-then-switch composition
/// performs the move strictly before the workspace switch is observable:
/// after its first command the window already sits in workspace `id` while
/// the active workspace is still the old one; only the second command
/// changes the active workspace.
pub proof fn lemma_move_before_switch(v: WorkspacesView, w: WindowEntry, id: u8, gaps: i32)
    ensures
        ({
            let r = dispatch_spec(Action::MoveWindowAndSwitchToWorkspace(id), Some(w), gaps);
            let cmds = r->Ok_0;
            let mid = apply_command(v, cmds[0]);
            &&& r is Ok
            &&& cmds.len() == 2
            &&& mid.assignment[w.id] == id
            &&& mid.active == v.active
            &&& apply_command(mid, cmds[1]).active == id
            &&& apply_command(mid, cmds[1]).assignment[w.id] == id
            &&& apply_commands(v, cmds) == apply_command(mid, cmds[1])
        }),
{
    let r = dispatch_spec(Action::MoveWindowAndSwitchToWorkspace(id), Some(w), gaps);
    let cmds = r->Ok_0;
    let mid = apply_command(v, cmds[0]);
    assert(cmds.subrange(1, 2) =~= seq![cmds[1]]);
    assert(seq![cmds[1]].subrange(1, 1) =~= Seq::<Command>::empty());
    assert(apply_commands(v, cmds) == apply_commands(mid, seq![cmds[1]]));
    assert(apply_commands(mid, seq![cmds[1]]) == apply_commands(
        apply_command(mid, cmds[1]),
        Seq::<Command>::empty(),
    ));
    assert(apply_commands(apply_command(mid, cmds[1]), Seq::<Command>::empty()) == apply_command(
        mid,
        cmds[1],
    ));
}

/// Law: activating a workspace is idempotent: dispatching `Workspace(id)`
/// twice in succession leaves the observable state exactly where one
/// dispatch leaves it, with no error and no further side effect.
pub proof fn lemma_workspace_idempotent(
    v: WorkspacesView,
    id: u8,
    under: Option<WindowEntry>,
    gaps: i32,
)
    ensures
        ({
            let r = dispatch_spec(Action::Workspace(id), under, gaps);
            let once = apply_commands(v, r->Ok_0);
            &&& r is Ok
            &&& once.active == id
            &&& apply_commands(once, r->Ok_0) == once
        }),
{
    let r = dispatch_spec(Action::Workspace(id), under, gaps);
    let cmds = r->Ok_0;
    assert(cmds.subrange(1, 1) =~= Seq::<Command>::empty());
    let once = apply_commands(v, cmds);
    assert(once == apply_commands(apply_command(v, cmds[0]), Seq::<Command>::empty()));
    assert(once == apply_command(v, cmds[0]));
    assert(apply_commands(once, cmds) == apply_commands(
        apply_command(once, cmds[0]),
        Seq::<Command>::empty(),
    ));
    assert(apply_commands(once, cmds) == apply_command(once, cmds[0]));
}

} // verus!
