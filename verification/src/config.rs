//! User configuration: the action vocabulary, keybindings, and the
//! first-match classification of a key event against the binding table.

use vstd::prelude::*;

verus! {

/// The modifier keys held during a key event. A binding matches only on an
/// exact set match, never on a subset.
#[derive(Clone, Copy, PartialEq, Eq, Structural, Debug)]
pub struct Modifiers {
    pub ctrl: bool,
    pub alt: bool,
    pub shift: bool,
    pub logo: bool,
}

/// A configured key combination: an exact modifier set plus a key symbol.
#[derive(Clone, Copy, PartialEq, Eq, Structural, Debug)]
pub struct Keybinding {
    pub modifiers: Modifiers,
    pub key: u32,
}

/// The closed set of user-invocable operations.
#[derive(PartialEq, Eq, Debug)]
pub enum Action {
    /// Terminate the compositor after the current event-loop iteration.
    Quit,
    /// Development placeholder; dispatching it fails loudly.
    Debug,
    /// Ask the client of the window under the pointer to close it.
    Close,
    /// Switch the active workspace.
    Workspace(u8),
    /// Move the window under the pointer to another workspace.
    MoveWindowToWorkspace(u8),
    /// Move the window under the pointer, then switch to that workspace.
    MoveWindowAndSwitchToWorkspace(u8),
    /// Development placeholder; dispatching it fails loudly.
    ToggleWindowFloating,
    /// Run a command line through a detached shell.
    Spawn(String),
}

impl Clone for Action {
    /// Actions are plain values; a clone is equal to the original.
    fn clone(&self) -> (r: Self)
        ensures
            r == *self,
    {
        match self {
            Action::Quit => Action::Quit,
            Action::Debug => Action::Debug,
            Action::Close => Action::Close,
            Action::Workspace(id) => Action::Workspace(*id),
            Action::MoveWindowToWorkspace(id) => Action::MoveWindowToWorkspace(*id),
            Action::MoveWindowAndSwitchToWorkspace(id) => Action::MoveWindowAndSwitchToWorkspace(
                *id,
            ),
            Action::ToggleWindowFloating => Action::ToggleWindowFloating,
            Action::Spawn(command) => Action::Spawn(command.clone()),
        }
    }
}

/// The configuration the router and dispatcher consult: the ordered
/// keybinding table (insertion order is the tie-break: first match wins)
/// and the gap size used when a tiled layout is re-flowed.
pub struct Config {
    pub keybindings: Vec<(Keybinding, Action)>,
    pub gaps: i32,
}

/// Whether a binding matches a press under the given modifier state and the
/// symbols the pressed key resolves to: the modifier sets are exactly equal
/// and the binding's symbol is among the key's resolved symbols.
pub open spec fn binding_matches(b: Keybinding, mods: Modifiers, syms: Seq<u32>) -> bool {
    b.modifiers == mods && syms.contains(b.key)
}

/// What the key filter decides for one key event.
#[derive(PartialEq, Eq, Debug)]
pub enum KeyDecision {
    /// Swallow the event and dispatch this action.
    Intercept(Action),
    /// Hand the raw event on to the focused client.
    Forward,
}

/// The filter decision for a key event: a release is always forwarded; a
/// press is intercepted by the first binding in table order that matches,
/// and forwarded when none does.
pub open spec fn classify_spec(
    t: Seq<(Keybinding, Action)>,
    pressed: bool,
    mods: Modifiers,
    syms: Seq<u32>,
) -> KeyDecision
    decreases t.len(),
{
    if !pressed || t.len() == 0 {
        KeyDecision::Forward
    } else if binding_matches(t[0].0, mods, syms) {
        KeyDecision::Intercept(t[0].1)
    } else {
        classify_spec(t.subrange(1, t.len() as int), pressed, mods, syms)
    }
}

fn contains_sym(syms: &Vec<u32>, key: u32) -> (b: bool)
    ensures
        b == syms@.contains(key),
{
    let mut i: usize = 0;
    while i < syms.len()
        invariant
            0 <= i <= syms@.len(),
            forall|k: int| 0 <= k < i ==> syms@[k] != key,
        decreases syms@.len() - i,
    {
        if syms[i] == key {
            return true;
        }
        i = i + 1;
    }
    false
}

/// Filter one key event through the binding table, first match winning.
pub fn classify_key(
    keybindings: &Vec<(Keybinding, Action)>,
    pressed: bool,
    modifiers: Modifiers,
    raw_syms: &Vec<u32>,
) -> (d: KeyDecision)
    ensures
        d == classify_spec(keybindings@, pressed, modifiers, raw_syms@),
{
    let ghost t = keybindings@;
    proof {
        assert(t.subrange(0, t.len() as int) =~= t);
    }
    let mut i: usize = 0;
    while i < keybindings.len()
        invariant
            0 <= i <= t.len(),
            keybindings@ == t,
            classify_spec(t, pressed, modifiers, raw_syms@) == classify_spec(
                t.subrange(i as int, t.len() as int),
                pressed,
                modifiers,
                raw_syms@,
            ),
        decreases t.len() - i,
    {
        let entry = &keybindings[i];
        proof {
            assert(t.subrange(i as int, t.len() as int)[0] == t[i as int]);
        }
        if pressed && entry.0.modifiers == modifiers && contains_sym(raw_syms, entry.0.key) {
            return KeyDecision::Intercept(entry.1.clone());
        }
        proof {
            assert(t.subrange(i as int, t.len() as int).subrange(
                1,
                t.subrange(i as int, t.len() as int).len() as int,
            ) =~= t.subrange(i + 1 as int, t.len() as int));
        }
        i = i + 1;
    }
    proof {
        assert(t.subrange(t.len() as int, t.len() as int).len() == 0);
    }
    KeyDecision::Forward
}

/// Law: a key event leads to at most one interception, and the intercepted
/// action is the one of the first matching binding in table order; a press
/// is forwarded exactly when no binding matches it.
pub proof fn lemma_first_match_wins(
    t: Seq<(Keybinding, Action)>,
    pressed: bool,
    mods: Modifiers,
    syms: Seq<u32>,
)
    ensures
        match classify_spec(t, pressed, mods, syms) {
            KeyDecision::Intercept(a) => {
                &&& pressed
                &&& exists|i: int|
                    {
                        &&& 0 <= i < t.len()
                        &&& binding_matches((#[trigger] t[i]).0, mods, syms)
                        &&& a == t[i].1
                        &&& forall|j: int|
                            0 <= j < i ==> !binding_matches((#[trigger] t[j]).0, mods, syms)
                    }
            },
            KeyDecision::Forward => !pressed || forall|i: int|
                0 <= i < t.len() ==> !binding_matches((#[trigger] t[i]).0, mods, syms),
        },
    decreases t.len(),
{
    if pressed && t.len() > 0 && !binding_matches(t[0].0, mods, syms) {
        let rest = t.subrange(1, t.len() as int);
        lemma_first_match_wins(rest, pressed, mods, syms);
        match classify_spec(t, pressed, mods, syms) {
            KeyDecision::Intercept(a) => {
                let i = choose|i: int|
                    {
                        &&& 0 <= i < rest.len()
                        &&& binding_matches((#[trigger] rest[i]).0, mods, syms)
                        &&& a == rest[i].1
                        &&& forall|j: int|
                            0 <= j < i ==> !binding_matches((#[trigger] rest[j]).0, mods, syms)
                    };
                assert(forall|j: int|
                    1 <= j < i + 1 ==> (#[trigger] t[j]) == rest[j - 1]);
                assert(binding_matches(t[i + 1].0, mods, syms) && a == t[i + 1].1);
            },
            KeyDecision::Forward => {
                assert(forall|i: int| 1 <= i < t.len() ==> (#[trigger] t[i]) == rest[i - 1]);
            },
        }
    }
}

} // verus!
