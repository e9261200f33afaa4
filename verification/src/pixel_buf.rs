//! The pixel framebuffer: one 32-bit word per pixel in BGRX layout. The
//! windowing layer blits the words, while the bitmap plotter works on a byte
//! view of the same pixels. Instead of aliasing one allocation under two
//! types, the buffer is converted value-by-value between the two views, and
//! the conversion is proved to be a lossless round trip.

use vstd::prelude::*;

verus! {

/// The four little-endian bytes of a 32-bit pixel word.
pub open spec fn word_bytes(w: u32) -> Seq<u8> {
    seq![
        (w & 0xff) as u8,
        ((w >> 8) & 0xff) as u8,
        ((w >> 16) & 0xff) as u8,
        ((w >> 24) & 0xff) as u8,
    ]
}

/// The byte view of a pixel-word sequence: each word contributes its four
/// little-endian bytes in order.
pub open spec fn bytes_of_words(words: Seq<u32>) -> Seq<u8> {
    Seq::new((4 * words.len()) as nat, |i: int| word_bytes(words[i / 4])[i % 4])
}

/// The 32-bit word assembled from four little-endian bytes.
pub open spec fn word_of_bytes(b0: u8, b1: u8, b2: u8, b3: u8) -> u32 {
    (b0 as u32) | ((b1 as u32) << 8) | ((b2 as u32) << 16) | ((b3 as u32) << 24)
}

/// Reassembling the little-endian bytes of a word gives the word back.
pub proof fn lemma_word_bytes_round_trip(w: u32)
    ensures
        word_of_bytes(
            (w & 0xff) as u8,
            ((w >> 8) & 0xff) as u8,
            ((w >> 16) & 0xff) as u8,
            ((w >> 24) & 0xff) as u8,
        ) == w,
{
    assert(((w & 0xff) as u8 as u32) | (((w >> 8) & 0xff) as u8 as u32) << 8 | (((w >> 16)
        & 0xff) as u8 as u32) << 16 | (((w >> 24) & 0xff) as u8 as u32) << 24 == w)
        by (bit_vector);
}

/// Abstraction that helps to access the pixel data both as 32-bit words and
/// as bytes. The words are the owned representation; the byte view is
/// produced and read back by explicit, verified conversion.
pub struct PixelBuf(pub Vec<u32>);

impl PixelBuf {
    /// A black (all-zero) framebuffer of `width * height` pixels.
    pub fn new(width: usize, height: usize) -> (buf: PixelBuf)
        requires
            width * height <= usize::MAX,
        ensures
            buf.0@ == Seq::new((width * height) as nat, |i: int| 0u32),
    {
        let mut words: Vec<u32> = Vec::new();
        let n = width * height;
        let mut idx: usize = 0;
        while idx < n
            invariant
                idx <= n,
                words@ == Seq::new(idx as nat, |i: int| 0u32),
            decreases n - idx,
        {
            words.push(0);
            idx = idx + 1;
            proof {
                assert(words@ =~= Seq::new(idx as nat, |i: int| 0u32));
            }
        }
        PixelBuf(words)
    }

    /// The byte view of the framebuffer: four little-endian bytes per pixel
    /// word, for the bitmap plotter.
    pub fn to_bytes(&self) -> (bytes: Vec<u8>)
        requires
            self.0@.len() * 4 <= usize::MAX,
        ensures
            bytes@ == bytes_of_words(self.0@),
    {
        let mut bytes: Vec<u8> = Vec::new();
        let n = self.0.len();
        let mut idx: usize = 0;
        while idx < n
            invariant
                idx <= n,
                n == self.0@.len(),
                n * 4 <= usize::MAX,
                bytes@ == bytes_of_words(self.0@.take(idx as int)),
            decreases n - idx,
        {
            let w = self.0[idx];
            proof {
                assert(w & 0xff < 256 && (w >> 8) & 0xff < 256 && (w >> 16) & 0xff < 256 && (w
                    >> 24) & 0xff < 256) by (bit_vector);
            }
            bytes.push((w & 0xff) as u8);
            bytes.push(((w >> 8) & 0xff) as u8);
            bytes.push(((w >> 16) & 0xff) as u8);
            bytes.push(((w >> 24) & 0xff) as u8);
            idx = idx + 1;
            proof {
                assert(bytes@ =~= bytes_of_words(self.0@.take(idx as int)));
            }
        }
        proof {
            assert(self.0@.take(n as int) =~= self.0@);
        }
        bytes
    }

    /// Stores a byte view back into the framebuffer words, reassembling four
    /// little-endian bytes per pixel. Reading back the view produced by
    /// `to_bytes` restores every pixel unchanged.
    pub fn store_bytes(&mut self, bytes: &Vec<u8>)
        requires
            bytes@.len() == old(self).0@.len() * 4,
        ensures
            final(self).0@.len() == old(self).0@.len(),
            final(self).0@ == words_of_bytes(bytes@),
            bytes@ == bytes_of_words(old(self).0@) ==> final(self).0@ == old(self).0@,
    {
        let n = self.0.len();
        let m = bytes.len();
        let mut words: Vec<u32> = Vec::new();
        let mut idx: usize = 0;
        while idx < n
            invariant
                idx <= n,
                n == old(self).0@.len(),
                m == bytes@.len(),
                bytes@.len() == n * 4,
                words@.len() == idx as nat,
                forall|i: int|
                    0 <= i < idx ==> words@[i] == word_of_bytes(
                        bytes@[4 * i],
                        bytes@[4 * i + 1],
                        bytes@[4 * i + 2],
                        bytes@[4 * i + 3],
                    ),
            decreases n - idx,
        {
            proof {
                assert(4 * idx + 3 < m);
            }
            let b0 = bytes[4 * idx];
            let b1 = bytes[4 * idx + 1];
            let b2 = bytes[4 * idx + 2];
            let b3 = bytes[4 * idx + 3];
            let w = (b0 as u32) | ((b1 as u32) << 8) | ((b2 as u32) << 16) | ((b3 as u32) << 24);
            proof {
                assert((b0 as u32) | ((b1 as u32) << 8) | ((b2 as u32) << 16) | ((b3 as u32) << 24)
                    == word_of_bytes(b0, b1, b2, b3));
            }
            words.push(w);
            idx = idx + 1;
        }
        self.0 = words;
        proof {
            assert(self.0@ =~= words_of_bytes(bytes@));
            if bytes@ == bytes_of_words(old(self).0@) {
                lemma_pixel_byte_round_trip(old(self).0@);
            }
        }
    }
}

/// The words reassembled from a byte view, four little-endian bytes each.
pub open spec fn words_of_bytes(bytes: Seq<u8>) -> Seq<u32> {
    Seq::new(
        (bytes.len() / 4) as nat,
        |i: int|
            word_of_bytes(bytes[4 * i], bytes[4 * i + 1], bytes[4 * i + 2], bytes[4 * i + 3]),
    )
}

/// Chart-frame round trip: turning the framebuffer into its byte view and
/// reassembling that view restores every pixel word unchanged.
pub proof fn lemma_pixel_byte_round_trip(words: Seq<u32>)
    ensures
        words_of_bytes(bytes_of_words(words)) == words,
{
    let bytes = bytes_of_words(words);
    assert forall|i: int| 0 <= i < words.len() implies words_of_bytes(bytes)[i] == words[i] by {
        lemma_bytes_of_words_index(words, i, 0);
        lemma_bytes_of_words_index(words, i, 1);
        lemma_bytes_of_words_index(words, i, 2);
        lemma_bytes_of_words_index(words, i, 3);
        lemma_word_bytes_round_trip(words[i]);
    }
    assert(words_of_bytes(bytes) =~= words);
}

/// Position `4 * i + k` of the byte view reads byte `k` of word `i`.
proof fn lemma_bytes_of_words_index(words: Seq<u32>, i: int, k: int)
    requires
        0 <= i < words.len(),
        0 <= k < 4,
    ensures
        bytes_of_words(words)[4 * i + k] == word_bytes(words[i])[k],
{
    assert((4 * i + k) / 4 == i);
    assert((4 * i + k) % 4 == k);
}

} // verus!
