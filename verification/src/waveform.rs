//! Static waveform visualization: renders audio samples into the most simple
//! waveform image — no axes, one black dot per sample on a white background —
//! and hands back the PNG bytes together with the file name each image is
//! meant for. Mono data gives one file; stereo data gives one file per
//! channel, with a "left_"/"right_" prefix on the file name.

use crate::even_elems;
use crate::odd_elems;
use crate::png_out::image_bytes;
use crate::png_out::png_rgb_encoding;
use crate::png_out::write_png_file_rgb_tuples;
use crate::Channels;
use vstd::prelude::*;
use vstd::string::StrSliceExecFns;
use vstd::string::StringExecFns;

verus! {

/// Width of the rendered waveform image in pixels.
pub const WAVEFORM_IMAGE_W: usize = 1500;

/// Height of the rendered waveform image in pixels.
pub const WAVEFORM_IMAGE_H: usize = 200;

/// The image column of the `i`-th of `n` samples: the samples are spread
/// evenly over the image width.
pub open spec fn sample_col(i: int, n: int) -> int {
    i * 1500 / n
}

/// The image row of a sample value: the vertical middle of the image, minus
/// the amplitude scaled so that the largest value spans half the height,
/// the whole difference rounded down. Rows grow downward, so positive
/// samples go up. The one value that would round past the bottom edge is
/// drawn on the bottom row.
pub open spec fn sample_row(s: int) -> int {
    let raw = if s >= 0 {
        (3276700 - 100 * s) / 32767
    } else {
        100 + (-s) * 100 / 32767
    };
    if raw == 200 {
        199
    } else {
        raw
    }
}

/// Whether one of the first `k` samples is drawn at row `r`, column `c`.
pub open spec fn marks_first(samples: Seq<i16>, k: int, r: int, c: int) -> bool {
    exists|i: int|
        0 <= i < k && sample_col(i, samples.len() as int) == c && sample_row(samples[i] as int)
            == r
}

/// The color of the waveform image at row `r`, column `c`: black where some
/// sample is drawn, white elsewhere.
pub open spec fn waveform_pixel(samples: Seq<i16>, r: int, c: int) -> (u8, u8, u8) {
    if marks_first(samples, samples.len() as int, r, c) {
        (0u8, 0u8, 0u8)
    } else {
        (255u8, 255u8, 255u8)
    }
}

/// The whole waveform image of a mono sample sequence, as rows of pixels.
pub open spec fn waveform_image(samples: Seq<i16>) -> Seq<Seq<(u8, u8, u8)>> {
    Seq::new(200, |r: int| Seq::new(1500, |c: int| waveform_pixel(samples, r, c)))
}

/// Every sample's row lies inside the image.
proof fn lemma_sample_row_in_range(s: int)
    requires
        i16::MIN <= s <= i16::MAX,
    ensures
        0 <= sample_row(s) < 200,
{
    if s >= 0 {
        assert(0 <= 3276700 - 100 * s <= 3276700) by (nonlinear_arith)
            requires
                0 <= s <= 32767,
        ;
        assert(0 <= (3276700 - 100 * s) / 32767 <= 100) by {
            vstd::arithmetic::div_mod::lemma_div_pos_is_pos(3276700 - 100 * s, 32767);
            vstd::arithmetic::div_mod::lemma_div_is_ordered(3276700 - 100 * s, 3276700int, 32767);
        }
    } else {
        assert(0 <= (-s) * 100 <= 3276800) by (nonlinear_arith)
            requires
                1 <= -s <= 32768,
        ;
        assert(0 <= (-s) * 100 / 32767 <= 100) by {
            vstd::arithmetic::div_mod::lemma_div_pos_is_pos((-s) * 100, 32767);
            vstd::arithmetic::div_mod::lemma_div_is_ordered((-s) * 100, 3276800int, 32767);
        }
    }
}

/// Every sample's column lies inside the image.
proof fn lemma_sample_col_in_range(i: int, n: int)
    requires
        0 <= i < n,
    ensures
        0 <= sample_col(i, n) < 1500,
{
    assert(i * 1500 < n * 1500) by (nonlinear_arith)
        requires
            0 <= i < n,
    ;
    vstd::arithmetic::div_mod::lemma_div_pos_is_pos(i * 1500, n);
    vstd::arithmetic::div_mod::lemma_multiply_divide_lt(i * 1500, n, 1500);
}

/// One all-white image row.
fn white_row() -> (row: Vec<(u8, u8, u8)>)
    ensures
        row@ == Seq::new(1500, |c: int| (255u8, 255u8, 255u8)),
{
    let mut row: Vec<(u8, u8, u8)> = Vec::new();
    let mut c: usize = 0;
    while c < 1500
        invariant
            c <= 1500,
            row@ == Seq::new(c as nat, |k: int| (255u8, 255u8, 255u8)),
        decreases 1500 - c,
    {
        row.push((255, 255, 255));
        c = c + 1;
        proof {
            assert(row@ =~= Seq::new(c as nat, |k: int| (255u8, 255u8, 255u8)));
        }
    }
    proof {
        assert(row@ =~= Seq::new(1500, |k: int| (255u8, 255u8, 255u8)));
    }
    row
}

/// Renders the waveform image of one mono sample sequence: every sample
/// paints the pixel at its row and column black.
fn render_waveform_image(samples: &Vec<i16>) -> (image: Vec<Vec<(u8, u8, u8)>>)
    requires
        samples@.len() * 1500 <= usize::MAX,
    ensures
        image@.len() == 200,
        forall|r: int| 0 <= r < 200 ==> (#[trigger] image@[r])@.len() == 1500,
        forall|r: int, c: int|
            0 <= r < 200 && 0 <= c < 1500 ==> image@[r]@[c] == waveform_pixel(samples@, r, c),
{
    let mut image: Vec<Vec<(u8, u8, u8)>> = Vec::new();
    let mut r: usize = 0;
    while r < 200
        invariant
            r <= 200,
            image@.len() == r as nat,
            forall|k: int| 0 <= k < r ==> (#[trigger] image@[k])@ == Seq::new(
                1500,
                |c: int| (255u8, 255u8, 255u8),
            ),
        decreases 200 - r,
    {
        image.push(white_row());
        r = r + 1;
    }
    let n = samples.len();
    let mut i: usize = 0;
    while i < n
        invariant
            i <= n,
            n == samples@.len(),
            n * 1500 <= usize::MAX,
            image@.len() == 200,
            forall|k: int| 0 <= k < 200 ==> (#[trigger] image@[k])@.len() == 1500,
            forall|rr: int, cc: int|
                0 <= rr < 200 && 0 <= cc < 1500 ==> image@[rr]@[cc] == (if marks_first(
                    samples@,
                    i as int,
                    rr,
                    cc,
                ) {
                    (0u8, 0u8, 0u8)
                } else {
                    (255u8, 255u8, 255u8)
                }),
        decreases n - i,
    {
        let ghost prev = image@;
        let s = samples[i];
        let v: i32 = s as i32;
        let raw: i32 = if v >= 0 {
            (3276700 - 100 * v) / 32767
        } else {
            100 + (-v) * 100 / 32767
        };
        proof {
            lemma_sample_row_in_range(s as int);
        }
        let y: usize = if raw == 200 {
            199
        } else {
            raw as usize
        };
        proof {
            lemma_sample_col_in_range(i as int, n as int);
            assert(i * 1500 <= n * 1500) by (nonlinear_arith)
                requires
                    0 <= i <= n,
            ;
        }
        let x: usize = i * 1500 / n;
        image[y][x] = (0, 0, 0);
        i = i + 1;
        proof {
            assert(y as int == sample_row(s as int));
            assert(x as int == sample_col(i as int - 1, n as int));
            assert(s == samples@[i as int - 1]);
            assert(image@[y as int]@[x as int] == (0u8, 0u8, 0u8));
            assert forall|rr: int, cc: int| 0 <= rr < 200 && 0 <= cc < 1500 implies image@[rr]@[cc]
                == (if marks_first(samples@, i as int, rr, cc) {
                (0u8, 0u8, 0u8)
            } else {
                (255u8, 255u8, 255u8)
            }) by {
                if rr == y as int && cc == x as int {
                    assert(marks_first(samples@, i as int, rr, cc));
                } else {
                    assert(image@[rr]@[cc] == prev[rr]@[cc]);
                    assert(prev[rr]@[cc] == (if marks_first(samples@, i as int - 1, rr, cc) {
                        (0u8, 0u8, 0u8)
                    } else {
                        (255u8, 255u8, 255u8)
                    }));
                    if marks_first(samples@, i as int, rr, cc) {
                        let w = choose|w: int|
                            0 <= w < i && sample_col(w, samples@.len() as int) == cc && sample_row(
                                samples@[w] as int,
                            ) == rr;
                        assert(w == i - 1 ==> rr == y as int && cc == x as int);
                        assert(0 <= w < i - 1);
                        assert(marks_first(samples@, i as int - 1, rr, cc));
                    } else {
                        assert(!marks_first(samples@, i as int - 1, rr, cc)) by {
                            if marks_first(samples@, i as int - 1, rr, cc) {
                                let w = choose|w: int|
                                    0 <= w < i - 1 && sample_col(w, samples@.len() as int) == cc
                                        && sample_row(samples@[w] as int) == rr;
                                assert(0 <= w < i && sample_col(w, samples@.len() as int) == cc
                                    && sample_row(samples@[w] as int) == rr);
                                assert(marks_first(samples@, i as int, rr, cc));
                            }
                        }
                    }
                }
            }
        }
    }
    proof {
        assert forall|rr: int, cc: int| 0 <= rr < 200 && 0 <= cc < 1500 implies image@[rr]@[cc]
            == waveform_pixel(samples@, rr, cc) by {
            assert(marks_first(samples@, n as int, rr, cc) == marks_first(
                samples@,
                samples@.len() as int,
                rr,
                cc,
            ));
        }
    }
    image
}

/// The PNG bytes of the waveform image of one mono sample sequence.
pub open spec fn waveform_png(samples: Seq<i16>) -> Seq<u8> {
    png_rgb_encoding(image_bytes(waveform_image(samples)), 1500, 200)
}

/// `directory`/`prefix``filename`, the path one rendered file is meant for.
pub open spec fn output_path(directory: Seq<char>, prefix: Seq<char>, filename: Seq<char>) -> Seq<
    char,
> {
    directory + seq!['/'] + prefix + filename
}

/// Joins a directory, a file-name prefix, and a file name into a path.
fn join_path(directory: &str, prefix: &str, filename: &str) -> (path: String)
    ensures
        path@ == output_path(directory@, prefix@, filename@),
{
    let mut path = directory.to_owned();
    path.append("/");
    path.append(prefix);
    path.append(filename);
    proof {
        reveal_strlit("/");
        assert("/"@ =~= seq!['/']);
        assert(path@ =~= output_path(directory@, prefix@, filename@));
    }
    path
}

/// Renders one mono channel into PNG bytes, paired with its output path.
fn render_channel(samples: &Vec<i16>, directory: &str, prefix: &str, filename: &str) -> (file: (
    String,
    Vec<u8>,
))
    requires
        samples@.len() * 1500 <= usize::MAX,
    ensures
        file.0@ == output_path(directory@, prefix@, filename@),
        file.1@ == waveform_png(samples@),
{
    let image = render_waveform_image(samples);
    proof {
        assert forall|r: int| 0 <= r < image@.len() implies (#[trigger] image@[r])@.len()
            == image@[0]@.len() by {}
        assert(image.deep_view() =~= waveform_image(samples@)) by {
            assert forall|r: int| 0 <= r < 200 implies image.deep_view()[r] =~= waveform_image(
                samples@,
            )[r] by {
                assert(image.deep_view()[r] == image@[r].deep_view());
            }
        }
    }
    let png = write_png_file_rgb_tuples(&image);
    let path = join_path(directory, prefix, filename);
    (path, png)
}

/// Visualizes audio as a waveform in PNG file bytes in the most simple way.
/// There are no axes. If the audio data is mono, it renders one file. If the
/// data is stereo, it renders two files (with "left_" and "right_" prefix on
/// the file name), one per channel. Each result pairs the path the file is
/// meant for with the file's bytes; stereo data must hold whole frames, so
/// its length must be even.
pub fn waveform_static_png_visualize(
    samples: &Vec<i16>,
    channels: Channels,
    directory: &str,
    filename: &str,
) -> (files: Vec<(String, Vec<u8>)>)
    requires
        samples@.len() * 1500 <= usize::MAX,
        channels is Stereo ==> samples@.len() % 2 == 0,
    ensures
        channels is Mono ==> files@.len() == 1 && files@[0].0@ == output_path(
            directory@,
            Seq::empty(),
            filename@,
        ) && files@[0].1@ == waveform_png(samples@),
        channels is Stereo && channels->Stereo_0 is LRLR ==> files@.len() == 2 && files@[0].0@
            == output_path(directory@, "left_"@, filename@) && files@[0].1@ == waveform_png(
            even_elems(samples@),
        ) && files@[1].0@ == output_path(directory@, "right_"@, filename@) && files@[1].1@
            == waveform_png(odd_elems(samples@)),
        channels is Stereo && channels->Stereo_0 is LLRR ==> files@.len() == 2 && files@[0].0@
            == output_path(directory@, "left_"@, filename@) && files@[0].1@ == waveform_png(
            samples@.take(samples@.len() as int / 2),
        ) && files@[1].0@ == output_path(directory@, "right_"@, filename@) && files@[1].1@
            == waveform_png(samples@.skip(samples@.len() as int / 2)),
{
    let mut files: Vec<(String, Vec<u8>)> = Vec::new();
    if channels.is_stereo() {
        let (left, right) = channels.stereo_interleavement().to_channel_data(samples);
        proof {
            assert(left@.len() <= samples@.len());
            assert(right@.len() <= samples@.len());
            assert(left@.len() * 1500 <= samples@.len() * 1500) by (nonlinear_arith)
                requires
                    left@.len() <= samples@.len(),
            ;
            assert(right@.len() * 1500 <= samples@.len() * 1500) by (nonlinear_arith)
                requires
                    right@.len() <= samples@.len(),
            ;
        }
        files.push(render_channel(&left, directory, "left_", filename));
        files.push(render_channel(&right, directory, "right_", filename));
    } else {
        files.push(render_channel(samples, directory, "", filename));
        proof {
            reveal_strlit("");
            assert(""@ =~= Seq::<char>::empty());
        }
    }
    files
}

} // verus!
