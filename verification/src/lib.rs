//! Input-to-action routing core of a tiling Wayland-style compositor.
//!
//! The library turns raw input-device events into focus changes, pointer
//! protocol events for the focused surface, and user-configured high-level
//! actions (workspace switching, window movement, process spawning, quitting).
//! Protocol delivery, the event loop and process spawning themselves are left
//! to the surrounding program; the library computes every decision as a pure,
//! verified function from plain values to plain values.

pub mod config;
pub mod dispatch;
pub mod geometry;
pub mod input;
pub mod model;
pub mod state;

pub use config::{Action, Config, KeyDecision, Keybinding, Modifiers};
pub use dispatch::{spawn_failure_message, Command, DispatchError};
pub use geometry::{clamp_coords, Point, Rect};
pub use input::{build_axis_frame, AxisEntry, AxisFrame, AxisInput, AxisSource, Effect, InputEvent,
    SeatEnv};
pub use state::{ClientState, HoloState, WindowEntry};
