//! Render-loop decision logic: window sizing defaults, the frame-paced loop's
//! state machine, and the decimation of the sample window before painting.
//!
//! The platform layer runs the actual loop: it asks the window for events,
//! feeds them to the state machine here, and paints whatever the verified
//! decimation selects.

use vstd::prelude::*;

verus! {

/// Width of the window.
pub const DEFAULT_W: usize = 1280;

/// Height of the window.
pub const DEFAULT_H: usize = 720;

/// Only every `DECIMATION_FACTOR`-th sample is painted into the waveform
/// charts; painting every sample of a multi-second window each frame is too
/// expensive, and this reduction keeps the line visually smooth.
pub const DECIMATION_FACTOR: usize = 4;

/// The window dimensions to use: the preferred values where given, the
/// defaults otherwise. Returned as (height, width).
pub fn effective_dimensions(preferred_height: Option<usize>, preferred_width: Option<usize>) -> (dims: (
    usize,
    usize,
))
    ensures
        dims.0 == if preferred_height is Some {
            preferred_height->0
        } else {
            DEFAULT_H
        },
        dims.1 == if preferred_width is Some {
            preferred_width->0
        } else {
            DEFAULT_W
        },
{
    let h = match preferred_height {
        Some(h) => h,
        None => DEFAULT_H,
    };
    let w = match preferred_width {
        Some(w) => w,
        None => DEFAULT_W,
    };
    (h, w)
}

/// Every `factor`-th element of the decimated sequence, starting at the
/// first: positions 0, factor, 2 * factor, ...
pub open spec fn decimated(s: Seq<u32>, factor: int) -> Seq<u32>
    recommends
        factor >= 1,
{
    Seq::new(((s.len() + factor - 1) / factor) as nat, |i: int| s[factor * i])
}

/// Keeps every `factor`-th sample of the window, dropping the rest, so that
/// the painted polyline has one point per kept sample. The `i`-th kept
/// sample is the one at position `factor * i` of the window.
pub fn decimate(samples: &Vec<u32>, factor: usize) -> (kept: Vec<u32>)
    requires
        factor >= 1,
        samples@.len() + factor <= usize::MAX,
    ensures
        kept@ == decimated(samples@, factor as int),
        kept@.len() == (samples@.len() + factor - 1) / factor as int,
        forall|i: int| 0 <= i < kept@.len() ==> kept@[i] == samples@[factor * i],
{
    let n = samples.len();
    let count = (n + factor - 1) / factor;
    let mut kept: Vec<u32> = Vec::new();
    let mut i: usize = 0;
    while i < count
        invariant
            n == samples@.len(),
            factor >= 1,
            count == (n + factor - 1) / factor as int,
            i <= count,
            kept@.len() == i as nat,
            forall|j: int| 0 <= j < i ==> kept@[j] == samples@[factor * j],
        decreases count - i,
    {
        proof {
            vstd::arithmetic::div_mod::lemma_fundamental_div_mod(
                (n + factor - 1) as int,
                factor as int,
            );
            vstd::arithmetic::div_mod::lemma_mod_bound((n + factor - 1) as int, factor as int);
            assert(factor * (count as int) <= n + factor - 1);
            assert(factor * i < n) by (nonlinear_arith)
                requires
                    0 <= i < count,
                    factor >= 1,
                    factor * (count as int) <= n + factor - 1,
            ;
        }
        kept.push(samples[factor * i]);
        i = i + 1;
    }
    proof {
        assert(kept@ =~= decimated(samples@, factor as int));
    }
    kept
}

/// The lifecycle of the live window: created, running the frame loop,
/// winding down after a close request, and gone.
#[derive(Debug, Copy, Clone, PartialEq, Eq, Structural)]
pub enum WindowPhase {
    /// The window and charts are being built; the loop has not started.
    Setup,
    /// The frame loop repaints and watches for close requests.
    Running,
    /// A close was requested; the stream is paused before the loop returns.
    Stopping,
    /// The loop has returned and the window is gone.
    Terminated,
}

impl WindowPhase {
    /// One step of the window lifecycle. The loop leaves the running phase
    /// exactly when the window reports itself closed or the Escape key is
    /// down; no other phase ever returns to running.
    pub fn step(self, window_open: bool, escape_pressed: bool) -> (next: WindowPhase)
        ensures
            self is Setup ==> next is Running,
            self is Running && (!window_open || escape_pressed) ==> next is Stopping,
            self is Running && window_open && !escape_pressed ==> next is Running,
            self is Stopping ==> next is Terminated,
            self is Terminated ==> next is Terminated,
            next is Running <==> (self is Setup || (self is Running && window_open
                && !escape_pressed)),
    {
        match self {
            WindowPhase::Setup => WindowPhase::Running,
            WindowPhase::Running => {
                if !window_open || escape_pressed {
                    WindowPhase::Stopping
                } else {
                    WindowPhase::Running
                }
            },
            WindowPhase::Stopping => WindowPhase::Terminated,
            WindowPhase::Terminated => WindowPhase::Terminated,
        }
    }

    /// Whether the frame loop keeps going: only the running phase does.
    pub fn keep_rendering(self) -> (r: bool)
        ensures
            r == (self is Running),
    {
        matches!(self, WindowPhase::Running)
    }
}

} // verus!
