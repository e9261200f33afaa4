//! Capture-side decision logic: which stream configurations are accepted,
//! when a sampling-rate warning is due, which buffer size to request from the
//! audio backend, and how interleaved stereo frames are paired for the mono
//! downmix.
//!
//! The audio backend itself pushes 32-bit float buffers on a thread it owns;
//! the platform layer around this library turns each stereo frame pair into
//! one averaged mono sample and hands the raw sample bits to the store.

use crate::interleave;
use crate::store::slide;
use vstd::prelude::*;

verus! {

/// The number of samples the audio backend is asked to deliver per callback
/// on hosts that honour an explicit request: small, to keep latency low.
pub const TARGET_FRAMES_PER_CALLBACK: u32 = 128;

/// What the capture path reads from a stream configuration: the channel
/// count and the sampling rate in Hz.
#[derive(Debug, Copy, Clone, PartialEq, Eq, Structural)]
pub struct StreamSettings {
    pub channels: u16,
    pub sample_rate_hz: u32,
}

impl StreamSettings {
    /// Only mono and stereo input streams are supported; every other channel
    /// count is rejected at stream setup.
    pub fn channels_supported(&self) -> (ok: bool)
        ensures
            ok == (self.channels == 1 || self.channels == 2),
    {
        self.channels == 1 || self.channels == 2
    }

    /// A sampling rate outside the two tested rates (44100 and 48000 Hz) is
    /// accepted, but a warning is due before the stream starts.
    pub fn rate_needs_warning(&self) -> (warn: bool)
        ensures
            warn == (self.sample_rate_hz != 44100 && self.sample_rate_hz != 48000),
    {
        self.sample_rate_hz != 44100 && self.sample_rate_hz != 48000
    }
}

/// The buffer size to request when opening the input stream: the backend
/// default on ALSA (explicit sizes have been seen to fail there), and the
/// larger of the device minimum and the application target everywhere else.
pub fn buffer_size_request(alsa_host: bool, device_min: u32) -> (request: Option<u32>)
    ensures
        alsa_host ==> request is None,
        !alsa_host ==> request == Some(
            if device_min >= TARGET_FRAMES_PER_CALLBACK {
                device_min
            } else {
                TARGET_FRAMES_PER_CALLBACK
            },
        ),
{
    if alsa_host {
        None
    } else if device_min >= TARGET_FRAMES_PER_CALLBACK {
        Some(device_min)
    } else {
        Some(TARGET_FRAMES_PER_CALLBACK)
    }
}

/// The left/right frame pairs of an LR-interleaved sequence; a trailing
/// half frame is dropped.
pub open spec fn frame_pairs(s: Seq<u32>) -> Seq<(u32, u32)> {
    Seq::new((s.len() / 2) as nat, |i: int| (s[2 * i], s[2 * i + 1]))
}

/// The mono batch a stereo append produces: one sample per frame pair, each
/// the mix of the pair under the given per-frame downmix function.
pub open spec fn downmix(s: Seq<u32>, mix: spec_fn(u32, u32) -> u32) -> Seq<u32> {
    Seq::new((s.len() / 2) as nat, |i: int| mix(s[2 * i], s[2 * i + 1]))
}

/// Splits LR-interleaved stereo data into its frame pairs, one `(left,
/// right)` pair per frame, in delivery order.
pub fn stereo_frame_pairs(interleaved: &Vec<u32>) -> (pairs: Vec<(u32, u32)>)
    ensures
        pairs@ == frame_pairs(interleaved@),
{
    let mut pairs: Vec<(u32, u32)> = Vec::new();
    let n = interleaved.len();
    let frames = n / 2;
    let mut idx: usize = 0;
    while idx < frames
        invariant
            idx <= frames,
            n == interleaved@.len(),
            frames == interleaved@.len() as int / 2,
            pairs@ == frame_pairs(interleaved@).take(idx as int),
        decreases frames - idx,
    {
        proof {
            assert(2 * idx + 1 < n);
        }
        let pair = (interleaved[2 * idx], interleaved[2 * idx + 1]);
        pairs.push(pair);
        idx = idx + 1;
        proof {
            assert(pairs@ =~= frame_pairs(interleaved@).take(idx as int));
        }
    }
    proof {
        assert(frame_pairs(interleaved@).take(frames as int) =~= frame_pairs(interleaved@));
    }
    pairs
}

/// Stereo downmix: appending LR-interleaved frames through the stereo path
/// (pair the frames, mix each pair to one mono sample) slides the window
/// exactly as appending the per-frame mixes through the mono path would,
/// whatever the per-frame downmix function is.
pub proof fn lemma_stereo_downmix_equivalence(
    window: Seq<u32>,
    left: Seq<u32>,
    right: Seq<u32>,
    mix: spec_fn(u32, u32) -> u32,
)
    requires
        left.len() == right.len(),
    ensures
        downmix(interleave(left, right), mix) == Seq::new(
            left.len(),
            |i: int| mix(left[i], right[i]),
        ),
        slide(window, downmix(interleave(left, right), mix)) == slide(
            window,
            Seq::new(left.len(), |i: int| mix(left[i], right[i])),
        ),
{
    assert(downmix(interleave(left, right), mix) =~= Seq::new(
        left.len(),
        |i: int| mix(left[i], right[i]),
    ));
}

} // verus!
