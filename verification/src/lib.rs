//! Audio visualization toolkit for developers: a verified sliding-window
//! sample store for live capture, stereo channel helpers, capture and render
//! decision logic, pixel-buffer conversion, and static waveform rendering.

use vstd::prelude::*;

pub mod capture;
pub mod devices;
pub mod pixel_buf;
pub mod png_out;
pub mod render;
pub mod spectrum;
pub mod store;
pub mod waveform;

verus! {

/// The even-indexed elements of a sequence: positions 0, 2, 4, ...
pub open spec fn even_elems<T>(s: Seq<T>) -> Seq<T> {
    Seq::new(((s.len() + 1) / 2) as nat, |i: int| s[2 * i])
}

/// The odd-indexed elements of a sequence: positions 1, 3, 5, ...
pub open spec fn odd_elems<T>(s: Seq<T>) -> Seq<T> {
    Seq::new((s.len() / 2) as nat, |i: int| s[2 * i + 1])
}

/// Alternates two equally long sequences into one: l[0], r[0], l[1], r[1], ...
pub open spec fn interleave<T>(l: Seq<T>, r: Seq<T>) -> Seq<T>
    recommends
        l.len() == r.len(),
{
    Seq::new((2 * l.len()) as nat, |i: int| if i % 2 == 0 { l[i / 2] } else { r[i / 2] })
}

/// Splitting an interleaved sequence at the even/odd positions recovers the
/// two channels that were interleaved.
pub proof fn lemma_deinterleave_of_interleave<T>(l: Seq<T>, r: Seq<T>)
    requires
        l.len() == r.len(),
    ensures
        even_elems(interleave(l, r)) == l,
        odd_elems(interleave(l, r)) == r,
{
    assert(even_elems(interleave(l, r)) =~= l);
    assert(odd_elems(interleave(l, r)) =~= r);
}

/// Describes the interleavement of audio data if it is not mono but stereo.
#[derive(Debug, Copy, Clone)]
pub enum ChannelInterleavement {
    /// Stereo samples of one vector of audio data are alternating: left, right, left, right
    LRLR,
    /// Stereo samples of one vector of audio data are ordered like: left, left, ..., right, right
    /// In this case the length must be a multiple of 2.
    LLRR,
}

impl ChannelInterleavement {
    pub fn is_lrlr(&self) -> (r: bool)
        ensures
            r == (*self is LRLR),
    {
        matches!(self, Self::LRLR)
    }

    pub fn is_lllrr(&self) -> (r: bool)
        ensures
            r == (*self is LLRR),
    {
        matches!(self, Self::LLRR)
    }

    /// Transforms the interleaved data into two vectors.
    /// Returns a tuple. First/left value is left channel, second/right value is right channel.
    pub fn to_channel_data(&self, interleaved_data: &Vec<i16>) -> (channels: (Vec<i16>, Vec<i16>))
        ensures
            *self is LRLR ==> channels.0@ == even_elems(interleaved_data@)
                && channels.1@ == odd_elems(interleaved_data@),
            *self is LLRR ==> channels.0@ == interleaved_data@.take(
                interleaved_data@.len() as int / 2,
            ) && channels.1@ == interleaved_data@.skip(interleaved_data@.len() as int / 2),
    {
        let mut left_data: Vec<i16> = Vec::new();
        let mut right_data: Vec<i16> = Vec::new();

        if self.is_lrlr() {
            let mut idx: usize = 0;
            while idx < interleaved_data.len()
                invariant
                    idx <= interleaved_data@.len(),
                    left_data@ == even_elems(interleaved_data@.take(idx as int)),
                    right_data@ == odd_elems(interleaved_data@.take(idx as int)),
                decreases interleaved_data@.len() - idx,
            {
                let sample = interleaved_data[idx];
                if idx % 2 == 0 {
                    left_data.push(sample);
                } else {
                    right_data.push(sample);
                }
                idx = idx + 1;
                proof {
                    assert(left_data@ =~= even_elems(interleaved_data@.take(idx as int)));
                    assert(right_data@ =~= odd_elems(interleaved_data@.take(idx as int)));
                }
            }
            proof {
                assert(interleaved_data@.take(interleaved_data@.len() as int) =~= interleaved_data@);
            }
        } else {
            let n = interleaved_data.len();
            let half = n / 2;
            let mut idx: usize = 0;
            while idx < half
                invariant
                    idx <= half,
                    half == interleaved_data@.len() as int / 2,
                    half <= interleaved_data@.len(),
                    left_data@ == interleaved_data@.take(half as int).take(idx as int),
                    right_data@.len() == 0,
                decreases half - idx,
            {
                left_data.push(interleaved_data[idx]);
                idx = idx + 1;
                proof {
                    assert(left_data@ =~= interleaved_data@.take(half as int).take(idx as int));
                }
            }
            proof {
                assert(left_data@ =~= interleaved_data@.take(half as int));
            }
            let mut jdx: usize = half;
            while jdx < n
                invariant
                    half <= jdx <= n,
                    n == interleaved_data@.len(),
                    half == interleaved_data@.len() as int / 2,
                    left_data@ == interleaved_data@.take(half as int),
                    right_data@ == interleaved_data@.subrange(half as int, jdx as int),
                decreases n - jdx,
            {
                right_data.push(interleaved_data[jdx]);
                jdx = jdx + 1;
                proof {
                    assert(right_data@ =~= interleaved_data@.subrange(half as int, jdx as int));
                }
            }
            proof {
                assert(right_data@ =~= interleaved_data@.skip(half as int));
            }
        }

        (left_data, right_data)
    }
}

/// Describes the number of channels of an audio stream.
#[derive(Debug, Copy, Clone)]
pub enum Channels {
    Mono,
    Stereo(ChannelInterleavement),
}

impl Channels {
    pub fn is_mono(&self) -> (r: bool)
        ensures
            r == (*self is Mono),
    {
        matches!(self, Self::Mono)
    }

    pub fn is_stereo(&self) -> (r: bool)
        ensures
            r == (*self is Stereo),
    {
        matches!(self, Self::Stereo(_))
    }

    /// The interleavement of a stereo stream. Calling this on a mono stream
    /// is a programmer error, so mono inputs are excluded.
    pub fn stereo_interleavement(&self) -> (r: ChannelInterleavement)
        requires
            *self is Stereo,
        ensures
            r == self->Stereo_0,
    {
        match self {
            Self::Stereo(interleavement) => *interleavement,
            Self::Mono => unreached(),
        }
    }
}

} // verus!
