//! The compositor session state this core owns, and the window-under-point
//! query it makes against a snapshot of the active workspace's windows.

use vstd::prelude::*;

use crate::config::Config;
use crate::geometry::Point;
use crate::geometry::Rect;

verus! {

/// One window of the active workspace, as the workspace model reports it:
/// an identifier for its root surface and its rectangle in logical space.
#[derive(Clone, Copy, PartialEq, Eq, Structural, Debug)]
pub struct WindowEntry {
    pub id: u64,
    pub rect: Rect,
}

/// The first window, in the given stacking order (topmost first), whose
/// rectangle contains the point.
pub open spec fn window_under_spec(ws: Seq<WindowEntry>, p: Point) -> Option<WindowEntry>
    decreases ws.len(),
{
    if ws.len() == 0 {
        None
    } else if ws[0].rect.contains(p) {
        Some(ws[0])
    } else {
        window_under_spec(ws.subrange(1, ws.len() as int), p)
    }
}

/// Find the topmost window under a point.
pub fn window_under(windows: &Vec<WindowEntry>, p: Point) -> (r: Option<WindowEntry>)
    requires
        forall|i: int| 0 <= i < windows@.len() ==> (#[trigger] windows@[i]).rect.wf(),
    ensures
        r == window_under_spec(windows@, p),
{
    let ghost ws = windows@;
    proof {
        assert(ws.subrange(0, ws.len() as int) =~= ws);
    }
    let mut i: usize = 0;
    while i < windows.len()
        invariant
            0 <= i <= ws.len(),
            windows@ == ws,
            forall|k: int| 0 <= k < ws.len() ==> (#[trigger] ws[k]).rect.wf(),
            window_under_spec(ws, p) == window_under_spec(
                ws.subrange(i as int, ws.len() as int),
                p,
            ),
        decreases ws.len() - i,
    {
        let w = windows[i];
        proof {
            assert(ws.subrange(i as int, ws.len() as int)[0] == ws[i as int]);
        }
        if w.rect.x <= p.x && p.x <= w.rect.x + w.rect.w && w.rect.y <= p.y && p.y <= w.rect.y
            + w.rect.h {
            return Some(w);
        }
        proof {
            assert(ws.subrange(i as int, ws.len() as int).subrange(
                1,
                ws.subrange(i as int, ws.len() as int).len() as int,
            ) =~= ws.subrange(i + 1 as int, ws.len() as int));
        }
        i = i + 1;
    }
    proof {
        assert(ws.subrange(ws.len() as int, ws.len() as int).len() == 0);
    }
    None
}

/// Per-client bookkeeping attached to each protocol client connection.
/// This core keeps none, so the type is empty; the surrounding program
/// attaches its own copy to the clients it accepts.
#[derive(Clone, Copy, PartialEq, Eq, Structural, Debug)]
pub struct ClientState;

/// The session aggregate this core mutates: the user configuration, the
/// pointer location in logical coordinates, and the protocol serial
/// generator. The seat's keyboard and pointer handles, and the workspace
/// model itself, live with the surrounding program.
pub struct HoloState {
    pub config: Config,
    pub pointer_location: Point,
    pub serial: u64,
}

impl HoloState {
    /// A fresh session: pointer at the origin, serials numbered from zero.
    pub fn new(config: Config) -> (s: Self)
        ensures
            s.config == config,
            s.pointer_location == (Point { x: 0, y: 0 }),
            s.serial == 0,
    {
        HoloState { config, pointer_location: Point { x: 0, y: 0 }, serial: 0 }
    }

    /// Draw the next protocol serial: strictly increasing over the session.
    pub fn next_serial(&mut self) -> (n: u64)
        requires
            old(self).serial < u64::MAX,
        ensures
            final(self).serial == old(self).serial + 1,
            n == final(self).serial,
            old(self).serial < n,
            final(self).config == old(self).config,
            final(self).pointer_location == old(self).pointer_location,
    {
        self.serial = self.serial + 1;
        self.serial
    }

    /// The window whose root surface lies under the current pointer
    /// location, together with that window's origin in logical space; the
    /// caller descends into the window's surface tree from there.
    pub fn surface_under_pointer(&self, windows: &Vec<WindowEntry>) -> (r: Option<(u64, Point)>)
        requires
            forall|i: int| 0 <= i < windows@.len() ==> (#[trigger] windows@[i]).rect.wf(),
        ensures
            match window_under_spec(windows@, self.pointer_location) {
                Some(w) => r == Some((w.id, Point { x: w.rect.x, y: w.rect.y })),
                None => r is None,
            },
    {
        match window_under(windows, self.pointer_location) {
            Some(w) => Some((w.id, Point { x: w.rect.x, y: w.rect.y })),
            None => None,
        }
    }
}

} // verus!
