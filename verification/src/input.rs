//! The seat input router: one raw device event in, the ordered protocol
//! calls, focus changes and dispatched action out.

use vstd::prelude::*;

use crate::config::{binding_matches, classify_key, classify_spec, Action, KeyDecision};
use crate::geometry::{
    clamp_coords, clamp_spec, horizontal_row, in_union, lemma_clamp_in_union, total_width, Point,
    Rect,
};
use crate::state::{window_under, window_under_spec, HoloState, WindowEntry};

verus! {

/// What kind of device produced a scroll event. Finger sources require an
/// explicit stop marker so clients can end kinetic scrolling cleanly.
#[derive(Clone, Copy, PartialEq, Eq, Structural, Debug)]
pub enum AxisSource {
    Wheel,
    Finger,
    Continuous,
    WheelTilt,
}

/// What a device reported for one scroll axis: a continuous amount (in
/// scaled logical units), a discrete notch count, either, or neither.
#[derive(Clone, Copy, Debug)]
pub struct AxisInput {
    pub amount: Option<i64>,
    pub discrete: Option<i32>,
}

/// One raw input event, already reduced to plain values: key codes, button
/// codes, timestamps, and positions in the logical coordinate space.
#[derive(Clone, Copy, Debug)]
pub enum InputEvent {
    /// A keyboard key press or release.
    Keyboard { key_code: u32, pressed: bool, time: u32 },
    /// Device-relative pointer motion: reserved, ignored by this core.
    PointerMotion,
    /// Absolute pointer motion, as a candidate position in logical space.
    PointerMotionAbsolute { position: Point, time: u32 },
    /// A pointer button press or release.
    PointerButton { button: u32, pressed: bool, time: u32 },
    /// A scroll event, one report per axis.
    PointerAxis { time: u32, source: AxisSource, horizontal: AxisInput, vertical: AxisInput },
    /// Any other raw event kind: ignored (forward compatibility).
    Other,
}

/// The collaborator replies the router reads while handling one event: the
/// keyboard's current modifier state, the symbols the pressed key resolves
/// to, the active workspace's output rectangles (left to right) and its
/// windows (topmost first).
pub struct SeatEnv {
    pub modifiers: crate::config::Modifiers,
    pub raw_syms: Vec<u32>,
    pub outputs: Vec<Rect>,
    pub windows: Vec<WindowEntry>,
}

/// What one scroll frame carries for one axis.
#[derive(Clone, Copy, PartialEq, Debug)]
pub enum AxisEntry {
    /// Scroll by `amount`, with the discrete notch count when the device
    /// reported one.
    Scroll { amount: i64, discrete: Option<i32> },
    /// Explicit end-of-scroll marker (finger devices only).
    Stopped,
    /// Nothing reported for this axis.
    Untouched,
}

/// One normalized scroll frame, delivered to whatever surface holds
/// pointer focus.
#[derive(Clone, Copy, PartialEq, Debug)]
pub struct AxisFrame {
    pub time: u32,
    pub source: AxisSource,
    pub horizontal: AxisEntry,
    pub vertical: AxisEntry,
}

/// One protocol call, focus change or action dispatch the router asks the
/// surrounding program to perform; a routed event yields these in order.
#[derive(PartialEq, Debug)]
pub enum Effect {
    /// Forward the raw key event to the focused client.
    ForwardKey { key_code: u32, pressed: bool, serial: u64, time: u32 },
    /// Dispatch this bound action; the raw key event is swallowed.
    Dispatch(Action),
    /// Give keyboard focus to this window's root surface.
    SetKeyboardFocus { window: u64, serial: u64 },
    /// Deliver pointer motion at `location` to the window under the
    /// pointer (`under` names it, with its origin, when there is one).
    DeliverMotion { under: Option<(u64, Point)>, location: Point, serial: u64, time: u32 },
    /// Deliver a button event to the surface holding pointer focus.
    DeliverButton { button: u32, pressed: bool, serial: u64, time: u32 },
    /// Deliver a scroll frame to the surface holding pointer focus.
    DeliverAxis(AxisFrame),
}

/// The effective scroll amount for one axis: the continuous amount when
/// the device reports one, otherwise the discrete notch count scaled by a
/// fixed factor of three per notch.
pub open spec fn axis_amount(a: AxisInput) -> int {
    match a.amount {
        Some(v) => v as int,
        None => match a.discrete {
            Some(d) => d as int * 3,
            None => 0,
        },
    }
}

/// The frame entry for one axis: scroll by the effective amount when it is
/// non-zero; an explicit stop when it is zero on a finger source; nothing
/// otherwise.
pub open spec fn axis_entry_spec(a: AxisInput, source: AxisSource) -> AxisEntry {
    let amount = axis_amount(a);
    if amount != 0 {
        AxisEntry::Scroll { amount: amount as i64, discrete: a.discrete }
    } else if source == AxisSource::Finger {
        AxisEntry::Stopped
    } else {
        AxisEntry::Untouched
    }
}

/// The whole normalized frame for one scroll event.
pub open spec fn axis_frame_spec(
    time: u32,
    source: AxisSource,
    horizontal: AxisInput,
    vertical: AxisInput,
) -> AxisFrame {
    AxisFrame {
        time,
        source,
        horizontal: axis_entry_spec(horizontal, source),
        vertical: axis_entry_spec(vertical, source),
    }
}

fn axis_entry(a: AxisInput, source: AxisSource) -> (e: AxisEntry)
    requires
        a.amount is Some || a.discrete is Some,
    ensures
        e == axis_entry_spec(a, source),
{
    let amount: i64 = if let Some(v) = a.amount {
        v
    } else {
        (a.discrete.unwrap() as i64) * 3
    };
    if amount != 0 {
        AxisEntry::Scroll { amount, discrete: a.discrete }
    } else if source == AxisSource::Finger {
        AxisEntry::Stopped
    } else {
        AxisEntry::Untouched
    }
}

/// Normalize one scroll event into a directional frame. Each axis must
/// report a continuous amount or a discrete count; a device reporting
/// neither for an axis is a malformed event the router never hands in.
pub fn build_axis_frame(
    time: u32,
    source: AxisSource,
    horizontal: AxisInput,
    vertical: AxisInput,
) -> (f: AxisFrame)
    requires
        horizontal.amount is Some || horizontal.discrete is Some,
        vertical.amount is Some || vertical.discrete is Some,
    ensures
        f == axis_frame_spec(time, source, horizontal, vertical),
{
    AxisFrame {
        time,
        source,
        horizontal: axis_entry(horizontal, source),
        vertical: axis_entry(vertical, source),
    }
}

/// The session state after one event: a serial is drawn for keyboard,
/// absolute-motion and button events, and absolute motion stores the
/// clamped location as the new pointer location; nothing else changes.
pub open spec fn route_state(st: HoloState, event: InputEvent, env: SeatEnv) -> HoloState {
    match event {
        InputEvent::Keyboard { .. } => HoloState { serial: (st.serial + 1) as u64, ..st },
        InputEvent::PointerMotionAbsolute { position, .. } => HoloState {
            serial: (st.serial + 1) as u64,
            pointer_location: clamp_spec(position, env.outputs@),
            ..st
        },
        InputEvent::PointerButton { .. } => HoloState { serial: (st.serial + 1) as u64, ..st },
        _ => st,
    }
}

/// The effects one event gives rise to, in order.
pub open spec fn route_effects(st: HoloState, event: InputEvent, env: SeatEnv) -> Seq<Effect> {
    match event {
        InputEvent::Keyboard { key_code, pressed, time } => {
            let serial = (st.serial + 1) as u64;
            match classify_spec(
                st.config.keybindings@,
                pressed,
                env.modifiers,
                env.raw_syms@,
            ) {
                KeyDecision::Intercept(a) => seq![Effect::Dispatch(a)],
                KeyDecision::Forward => seq![
                    Effect::ForwardKey { key_code, pressed, serial, time },
                ],
            }
        },
        InputEvent::PointerMotion => Seq::empty(),
        InputEvent::PointerMotionAbsolute { position, time } => {
            let serial = (st.serial + 1) as u64;
            let location = clamp_spec(position, env.outputs@);
            match window_under_spec(env.windows@, location) {
                Some(w) => seq![
                    Effect::SetKeyboardFocus { window: w.id, serial },
                    Effect::DeliverMotion {
                        under: Some((w.id, Point { x: w.rect.x, y: w.rect.y })),
                        location,
                        serial,
                        time,
                    },
                ],
                None => seq![
                    Effect::DeliverMotion { under: None, location, serial, time },
                ],
            }
        },
        InputEvent::PointerButton { button, pressed, time } => {
            let serial = (st.serial + 1) as u64;
            seq![Effect::DeliverButton { button, pressed, serial, time }]
        },
        InputEvent::PointerAxis { time, source, horizontal, vertical } => seq![
            Effect::DeliverAxis(axis_frame_spec(time, source, horizontal, vertical)),
        ],
        InputEvent::Other => Seq::empty(),
    }
}

impl HoloState {
    /// Route one raw input event. The returned effects are the protocol
    /// calls, the focus change and the dispatched action the event gives
    /// rise to, in the order they must be performed. The keybinding table
    /// is never mutated, and serials only grow.
    pub fn process_input_event(&mut self, event: InputEvent, env: &SeatEnv) -> (effects: Vec<
        Effect,
    >)
        requires
            old(self).serial < u64::MAX,
            forall|i: int| 0 <= i < env.outputs@.len() ==> (#[trigger] env.outputs@[i]).wf(),
            total_width(env.outputs@) <= i64::MAX as int,
            forall|i: int|
                0 <= i < env.windows@.len() ==> (#[trigger] env.windows@[i]).rect.wf(),
            match event {
                InputEvent::PointerAxis { horizontal, vertical, .. } => (horizontal.amount is Some
                    || horizontal.discrete is Some) && (vertical.amount is Some
                    || vertical.discrete is Some),
                _ => true,
            },
        ensures
            *final(self) == route_state(*old(self), event, *env),
            effects@ == route_effects(*old(self), event, *env),
            final(self).config == old(self).config,
            old(self).serial <= final(self).serial,
    {
        match event {
            InputEvent::Keyboard { key_code, pressed, time } => {
                let serial = self.next_serial();
                let decision = classify_key(
                    &self.config.keybindings,
                    pressed,
                    env.modifiers,
                    &env.raw_syms,
                );
                let mut effects: Vec<Effect> = Vec::new();
                match decision {
                    KeyDecision::Intercept(action) => {
                        effects.push(Effect::Dispatch(action));
                    },
                    KeyDecision::Forward => {
                        effects.push(Effect::ForwardKey { key_code, pressed, serial, time });
                    },
                }
                proof {
                    assert(effects@ =~= route_effects(*old(self), event, *env));
                }
                effects
            },
            InputEvent::PointerMotion => Vec::new(),
            InputEvent::PointerMotionAbsolute { position, time } => {
                let serial = self.next_serial();
                let location = clamp_coords(position, &env.outputs);
                self.pointer_location = location;
                let under = window_under(&env.windows, location);
                let mut effects: Vec<Effect> = Vec::new();
                match under {
                    Some(w) => {
                        effects.push(Effect::SetKeyboardFocus { window: w.id, serial });
                        effects.push(
                            Effect::DeliverMotion {
                                under: Some((w.id, Point { x: w.rect.x, y: w.rect.y })),
                                location,
                                serial,
                                time,
                            },
                        );
                    },
                    None => {
                        effects.push(
                            Effect::DeliverMotion { under: None, location, serial, time },
                        );
                    },
                }
                proof {
                    assert(effects@ =~= route_effects(*old(self), event, *env));
                }
                effects
            },
            InputEvent::PointerButton { button, pressed, time } => {
                let serial = self.next_serial();
                let mut effects: Vec<Effect> = Vec::new();
                effects.push(Effect::DeliverButton { button, pressed, serial, time });
                proof {
                    assert(effects@ =~= route_effects(*old(self), event, *env));
                }
                effects
            },
            InputEvent::PointerAxis { time, source, horizontal, vertical } => {
                let frame = build_axis_frame(time, source, horizontal, vertical);
                let mut effects: Vec<Effect> = Vec::new();
                effects.push(Effect::DeliverAxis(frame));
                proof {
                    assert(effects@ =~= route_effects(*old(self), event, *env));
                }
                effects
            },
            InputEvent::Other => Vec::new(),
        }
    }
}

/// How many of the effects dispatch an action.
pub open spec fn dispatch_count(s: Seq<Effect>) -> int
    decreases s.len(),
{
    if s.len() == 0 {
        0
    } else {
        dispatch_count(s.drop_last()) + (if s.last() matches Effect::Dispatch(_) {
            1int
        } else {
            0int
        })
    }
}

proof fn lemma_dispatch_count_one(e: Effect)
    ensures
        dispatch_count(seq![e]) == (if e matches Effect::Dispatch(_) {
            1int
        } else {
            0int
        }),
{
    let s = seq![e];
    assert(s.drop_last() =~= Seq::<Effect>::empty());
    assert(dispatch_count(Seq::<Effect>::empty()) == 0);
    assert(s.last() == e);
    assert(dispatch_count(s) == dispatch_count(s.drop_last()) + (
    if s.last() matches Effect::Dispatch(_) {
        1int
    } else {
        0int
    }));
}

proof fn lemma_dispatch_count_two(e1: Effect, e2: Effect)
    ensures
        dispatch_count(seq![e1, e2]) == (if e1 matches Effect::Dispatch(_) {
            1int
        } else {
            0int
        }) + (if e2 matches Effect::Dispatch(_) {
            1int
        } else {
            0int
        }),
{
    assert(seq![e1, e2].drop_last() =~= seq![e1]);
    lemma_dispatch_count_one(e1);
}

/// Law: one routed event dispatches at most one action, whatever the
/// event, the binding table, and the workspace snapshot.
pub proof fn lemma_at_most_one_dispatch(st: HoloState, event: InputEvent, env: SeatEnv)
    ensures
        dispatch_count(route_effects(st, event, env)) <= 1,
{
    let effects = route_effects(st, event, env);
    match event {
        InputEvent::Keyboard { key_code, pressed, time } => {
            match classify_spec(
                st.config.keybindings@,
                pressed,
                env.modifiers,
                env.raw_syms@,
            ) {
                KeyDecision::Intercept(a) => {
                    lemma_dispatch_count_one(Effect::Dispatch(a));
                },
                KeyDecision::Forward => {
                    lemma_dispatch_count_one(
                        Effect::ForwardKey {
                            key_code,
                            pressed,
                            serial: (st.serial + 1) as u64,
                            time,
                        },
                    );
                },
            }
        },
        InputEvent::PointerMotion => {},
        InputEvent::PointerMotionAbsolute { position, time } => {
            let serial = (st.serial + 1) as u64;
            let location = clamp_spec(position, env.outputs@);
            match window_under_spec(env.windows@, location) {
                Some(w) => {
                    lemma_dispatch_count_two(
                        Effect::SetKeyboardFocus { window: w.id, serial },
                        Effect::DeliverMotion {
                            under: Some((w.id, Point { x: w.rect.x, y: w.rect.y })),
                            location,
                            serial,
                            time,
                        },
                    );
                },
                None => {
                    lemma_dispatch_count_one(
                        Effect::DeliverMotion { under: None, location, serial, time },
                    );
                },
            }
        },
        InputEvent::PointerButton { button, pressed, time } => {
            lemma_dispatch_count_one(
                Effect::DeliverButton { button, pressed, serial: (st.serial + 1) as u64, time },
            );
        },
        InputEvent::PointerAxis { time, source, horizontal, vertical } => {
            lemma_dispatch_count_one(
                Effect::DeliverAxis(axis_frame_spec(time, source, horizontal, vertical)),
            );
        },
        InputEvent::Other => {},
    }
}

/// Law: as long as at least one output exists and the outputs are tiled as
/// a horizontal row, the pointer location stored after an absolute motion
/// lies within the union of the output rectangles, wherever the candidate
/// position pointed.
pub proof fn lemma_pointer_stays_on_outputs(
    st: HoloState,
    position: Point,
    time: u32,
    env: SeatEnv,
)
    requires
        horizontal_row(env.outputs@),
        env.outputs@.len() > 0,
        total_width(env.outputs@) <= i64::MAX as int,
    ensures
        in_union(
            env.outputs@,
            route_state(
                st,
                InputEvent::PointerMotionAbsolute { position, time },
                env,
            ).pointer_location,
        ),
{
    lemma_clamp_in_union(position, env.outputs@);
}

/// Law: a key press matching no binding is forwarded unmodified to the
/// focused client and dispatches nothing.
pub proof fn lemma_unmatched_press_forwards(st: HoloState, key_code: u32, time: u32, env: SeatEnv)
    requires
        forall|i: int|
            0 <= i < st.config.keybindings@.len() ==> !binding_matches(
                (#[trigger] st.config.keybindings@[i]).0,
                env.modifiers,
                env.raw_syms@,
            ),
    ensures
        route_effects(st, InputEvent::Keyboard { key_code, pressed: true, time }, env) == seq![
            Effect::ForwardKey { key_code, pressed: true, serial: (st.serial + 1) as u64, time },
        ],
        dispatch_count(
            route_effects(st, InputEvent::Keyboard { key_code, pressed: true, time }, env),
        ) == 0,
{
    let t = st.config.keybindings@;
    crate::config::lemma_first_match_wins(t, true, env.modifiers, env.raw_syms@);
    match classify_spec(t, true, env.modifiers, env.raw_syms@) {
        KeyDecision::Intercept(a) => {
            assert(false);
        },
        KeyDecision::Forward => {},
    }
    lemma_dispatch_count_one(
        Effect::ForwardKey { key_code, pressed: true, serial: (st.serial + 1) as u64, time },
    );
}

/// Law: a key release is never intercepted for a binding: whatever the
/// table holds, it is forwarded to the focused client.
pub proof fn lemma_release_always_forwarded(st: HoloState, key_code: u32, time: u32, env: SeatEnv)
    ensures
        route_effects(st, InputEvent::Keyboard { key_code, pressed: false, time }, env) == seq![
            Effect::ForwardKey { key_code, pressed: false, serial: (st.serial + 1) as u64, time },
        ],
{
}

/// Law: a key press that does match dispatches exactly one action: the one
/// of the first matching binding in table order.
pub proof fn lemma_first_match_dispatch(st: HoloState, key_code: u32, time: u32, env: SeatEnv)
    requires
        exists|i: int|
            0 <= i < st.config.keybindings@.len() && binding_matches(
                (#[trigger] st.config.keybindings@[i]).0,
                env.modifiers,
                env.raw_syms@,
            ),
    ensures
        ({
            let t = st.config.keybindings@;
            let effects = route_effects(
                st,
                InputEvent::Keyboard { key_code, pressed: true, time },
                env,
            );
            &&& dispatch_count(effects) == 1
            &&& exists|i: int|
                {
                    &&& 0 <= i < t.len()
                    &&& binding_matches((#[trigger] t[i]).0, env.modifiers, env.raw_syms@)
                    &&& forall|j: int|
                        0 <= j < i ==> !binding_matches(
                            (#[trigger] t[j]).0,
                            env.modifiers,
                            env.raw_syms@,
                        )
                    &&& effects == seq![Effect::Dispatch(t[i].1)]
                }
        }),
{
    let t = st.config.keybindings@;
    let effects = route_effects(st, InputEvent::Keyboard { key_code, pressed: true, time }, env);
    crate::config::lemma_first_match_wins(t, true, env.modifiers, env.raw_syms@);
    match classify_spec(t, true, env.modifiers, env.raw_syms@) {
        KeyDecision::Intercept(a) => {
            let i = choose|i: int|
                {
                    &&& 0 <= i < t.len()
                    &&& binding_matches((#[trigger] t[i]).0, env.modifiers, env.raw_syms@)
                    &&& a == t[i].1
                    &&& forall|j: int|
                        0 <= j < i ==> !binding_matches(
                            (#[trigger] t[j]).0,
                            env.modifiers,
                            env.raw_syms@,
                        )
                };
            assert(effects == seq![Effect::Dispatch(t[i].1)]);
            lemma_dispatch_count_one(Effect::Dispatch(a));
        },
        KeyDecision::Forward => {
            let i = choose|i: int|
                0 <= i < t.len() && binding_matches(
                    (#[trigger] t[i]).0,
                    env.modifiers,
                    env.raw_syms@,
                );
            assert(false);
        },
    }
}

} // verus!
