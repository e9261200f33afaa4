//! Static spectrum visualization: paints one vertical bar per frequency into
//! a fixed-size image, bottom-up, and renders the image to PNG bytes. The
//! platform layer scales the floating-point magnitudes to bar heights in
//! pixels and marks the highlighted frequencies; the painting itself is
//! verified here.
//!
//! Each bar is described as `(column, height in pixels, highlighted)`. A
//! highlighted bar is red and, when it is far enough from the left edge,
//! three pixels wide; other bars are black and one pixel wide. Bars are
//! painted in order, so where they overlap the later bar wins.

use crate::png_out::image_bytes;
use crate::png_out::png_rgb_encoding;
use crate::png_out::write_png_file_rgb_tuples;
use vstd::prelude::*;

verus! {

/// Width of the rendered spectrum image in pixels.
pub const SPECTRUM_IMAGE_W: usize = 5000;

/// Height of the rendered spectrum image in pixels.
pub const SPECTRUM_IMAGE_H: usize = 3000;

/// The color a bar paints with: red when highlighted, black otherwise.
pub open spec fn bar_color(highlighted: bool) -> (u8, u8, u8) {
    if highlighted {
        (255u8, 0u8, 0u8)
    } else {
        (0u8, 0u8, 0u8)
    }
}

/// Whether the bar covers the pixel at row `r`, column `c`: the bottom
/// `height` rows of the bar's column, widened two pixels to the left when
/// the bar is highlighted and not at the left edge.
pub open spec fn bar_covers(bar: (usize, usize, bool), r: int, c: int) -> bool {
    let x = bar.0 as int;
    let h = bar.1 as int;
    3000 - h <= r < 3000 && (c == x || (bar.2 && x > 2 && (c == x - 1 || c == x - 2)))
}

/// The pixel at row `r`, column `c` after the first `k` bars are painted
/// over a white background: the color of the last covering bar.
pub open spec fn spectrum_pixel_first(
    bars: Seq<(usize, usize, bool)>,
    k: int,
    r: int,
    c: int,
) -> (u8, u8, u8)
    decreases k,
{
    if k <= 0 {
        (255u8, 255u8, 255u8)
    } else if bar_covers(bars[k - 1], r, c) {
        bar_color(bars[k - 1].2)
    } else {
        spectrum_pixel_first(bars, k - 1, r, c)
    }
}

/// The pixel at row `r`, column `c` of the finished spectrum image.
pub open spec fn spectrum_pixel(bars: Seq<(usize, usize, bool)>, r: int, c: int) -> (u8, u8, u8) {
    spectrum_pixel_first(bars, bars.len() as int, r, c)
}

/// The whole spectrum image, as rows of pixels.
pub open spec fn spectrum_image(bars: Seq<(usize, usize, bool)>) -> Seq<Seq<(u8, u8, u8)>> {
    Seq::new(3000, |r: int| Seq::new(5000, |c: int| spectrum_pixel(bars, r, c)))
}

/// One all-white image row of the spectrum width.
fn white_row() -> (row: Vec<(u8, u8, u8)>)
    ensures
        row@ == Seq::new(5000, |c: int| (255u8, 255u8, 255u8)),
{
    let mut row: Vec<(u8, u8, u8)> = Vec::new();
    let mut c: usize = 0;
    while c < 5000
        invariant
            c <= 5000,
            row@ == Seq::new(c as nat, |k: int| (255u8, 255u8, 255u8)),
        decreases 5000 - c,
    {
        row.push((255, 255, 255));
        c = c + 1;
        proof {
            assert(row@ =~= Seq::new(c as nat, |k: int| (255u8, 255u8, 255u8)));
        }
    }
    proof {
        assert(row@ =~= Seq::new(5000, |k: int| (255u8, 255u8, 255u8)));
    }
    row
}

/// Every pixel of `img` equals the spectrum image after the first `k` bars.
spec fn matches_first_bars(img: Seq<Vec<(u8, u8, u8)>>, bars: Seq<(usize, usize, bool)>, k: int) -> bool {
    forall|rr: int, cc: int|
        0 <= rr < 3000 && 0 <= cc < 5000 ==> #[trigger] img[rr]@[cc] == spectrum_pixel_first(
            bars,
            k,
            rr,
            cc,
        )
}

/// Every pixel of `img` equals `base`, except that the bottom `j` rows of
/// the bar's columns carry the bar's color.
spec fn bar_painted_up_to(
    img: Seq<Vec<(u8, u8, u8)>>,
    base: Seq<Vec<(u8, u8, u8)>>,
    bar: (usize, usize, bool),
    j: int,
) -> bool {
    forall|rr: int, cc: int|
        0 <= rr < 3000 && 0 <= cc < 5000 ==> #[trigger] img[rr]@[cc] == (if bar_covers(bar, rr, cc)
            && rr >= 3000 - j {
            bar_color(bar.2)
        } else {
            base[rr]@[cc]
        })
}

/// Sets one pixel of the image.
fn set_pixel(image: &mut Vec<Vec<(u8, u8, u8)>>, r: usize, c: usize, color: (u8, u8, u8))
    requires
        r < old(image)@.len(),
        c < old(image)@[r as int]@.len(),
    ensures
        final(image)@.len() == old(image)@.len(),
        forall|k: int|
            0 <= k < old(image)@.len() && k != r ==> final(image)@[k] == old(image)@[k],
        final(image)@[r as int]@ == old(image)@[r as int]@.update(c as int, color),
{
    image[r][c] = color;
}

/// Paints the spectrum bars, in order, over a white background. Every bar
/// must fit the image: its column inside the width, its height at most the
/// image height.
fn render_spectrum_image(bars: &Vec<(usize, usize, bool)>) -> (image: Vec<Vec<(u8, u8, u8)>>)
    requires
        forall|i: int|
            0 <= i < bars@.len() ==> (#[trigger] bars@[i]).0 < 5000 && bars@[i].1 <= 3000,
    ensures
        image@.len() == 3000,
        forall|r: int| 0 <= r < 3000 ==> (#[trigger] image@[r])@.len() == 5000,
        forall|r: int, c: int|
            0 <= r < 3000 && 0 <= c < 5000 ==> image@[r]@[c] == spectrum_pixel(bars@, r, c),
{
    let mut image: Vec<Vec<(u8, u8, u8)>> = Vec::new();
    let mut r: usize = 0;
    while r < 3000
        invariant
            r <= 3000,
            image@.len() == r as nat,
            forall|k: int| 0 <= k < r ==> (#[trigger] image@[k])@ == Seq::new(
                5000,
                |c: int| (255u8, 255u8, 255u8),
            ),
        decreases 3000 - r,
    {
        image.push(white_row());
        r = r + 1;
    }
    let n = bars.len();
    let mut k: usize = 0;
    while k < n
        invariant
            k <= n,
            n == bars@.len(),
            forall|i: int|
                0 <= i < bars@.len() ==> (#[trigger] bars@[i]).0 < 5000 && bars@[i].1 <= 3000,
            image@.len() == 3000,
            forall|rr: int| 0 <= rr < 3000 ==> (#[trigger] image@[rr])@.len() == 5000,
            matches_first_bars(image@, bars@, k as int),
        decreases n - k,
    {
        let (x, h, highlighted) = (bars[k].0, bars[k].1, bars[k].2);
        let color: (u8, u8, u8) = if highlighted {
            (255, 0, 0)
        } else {
            (0, 0, 0)
        };
        let ghost bar = bars@[k as int];
        let ghost before = image@;
        let mut j: usize = 0;
        while j < h
            invariant
                j <= h,
                bar == bars@[k as int],
                x == bar.0,
                h == bar.1,
                highlighted == bar.2,
                x < 5000,
                h <= 3000,
                color == bar_color(bar.2),
                image@.len() == 3000,
                before.len() == 3000,
                forall|rr: int| 0 <= rr < 3000 ==> (#[trigger] image@[rr])@.len() == 5000,
                bar_painted_up_to(image@, before, bar, j as int),
            decreases h - j,
        {
            let ghost at_entry = image@;
            let row = 3000 - 1 - j;
            set_pixel(&mut image, row, x, color);
            if highlighted && x > 2 {
                set_pixel(&mut image, row, x - 1, color);
                set_pixel(&mut image, row, x - 2, color);
            }
            j = j + 1;
            proof {
                assert(bar_painted_up_to(at_entry, before, bar, j as int - 1));
                assert forall|rr: int, cc: int|
                    0 <= rr < 3000 && 0 <= cc < 5000 implies #[trigger] image@[rr]@[cc] == (
                if bar_covers(bar, rr, cc) && rr >= 3000 - j {
                    bar_color(bar.2)
                } else {
                    before[rr]@[cc]
                }) by {
                    assert(at_entry[rr]@[cc] == (if bar_covers(bar, rr, cc) && rr >= 3000 - (j - 1) {
                        bar_color(bar.2)
                    } else {
                        before[rr]@[cc]
                    }));
                    if rr == row as int {
                        if cc == x as int || (bar.2 && x > 2 && (cc == x as int - 1 || cc == x as int
                            - 2)) {
                            assert(image@[rr]@[cc] == color);
                            assert(bar_covers(bar, rr, cc));
                        } else {
                            assert(image@[rr]@[cc] == at_entry[rr]@[cc]);
                            assert(!bar_covers(bar, rr, cc));
                        }
                    } else {
                        assert(image@[rr] == at_entry[rr]);
                        assert((bar_covers(bar, rr, cc) && rr >= 3000 - j) == (bar_covers(
                            bar,
                            rr,
                            cc,
                        ) && rr >= 3000 - (j - 1)));
                    }
                }
                assert(bar_painted_up_to(image@, before, bar, j as int));
            }
        }
        k = k + 1;
        proof {
            assert forall|rr: int, cc: int|
                0 <= rr < 3000 && 0 <= cc < 5000 implies #[trigger] image@[rr]@[cc]
                == spectrum_pixel_first(bars@, k as int, rr, cc) by {
                assert(before[rr]@[cc] == spectrum_pixel_first(bars@, k as int - 1, rr, cc));
                assert(image@[rr]@[cc] == (if bar_covers(bar, rr, cc) && rr >= 3000 - bar.1 as int {
                    bar_color(bar.2)
                } else {
                    before[rr]@[cc]
                }));
                if bar_covers(bar, rr, cc) {
                    assert(rr >= 3000 - bar.1 as int);
                }
            }
            assert(matches_first_bars(image@, bars@, k as int));
        }
    }
    proof {
        assert forall|rr: int, cc: int| 0 <= rr < 3000 && 0 <= cc < 5000 implies image@[rr]@[cc]
            == spectrum_pixel(bars@, rr, cc) by {
            assert(image@[rr]@[cc] == spectrum_pixel_first(bars@, n as int, rr, cc));
        }
    }
    image
}

/// Renders the spectrum bars into the bytes of a PNG file.
pub fn spectrum_bars_png_render(bars: &Vec<(usize, usize, bool)>) -> (png: Vec<u8>)
    requires
        forall|i: int|
            0 <= i < bars@.len() ==> (#[trigger] bars@[i]).0 < 5000 && bars@[i].1 <= 3000,
    ensures
        png@ == png_rgb_encoding(image_bytes(spectrum_image(bars@)), 5000, 3000),
{
    let image = render_spectrum_image(bars);
    proof {
        assert forall|r: int| 0 <= r < image@.len() implies (#[trigger] image@[r])@.len()
            == image@[0]@.len() by {}
        assert(image.deep_view() =~= spectrum_image(bars@)) by {
            assert forall|r: int| 0 <= r < 3000 implies image.deep_view()[r] =~= spectrum_image(
                bars@,
            )[r] by {
                assert(image.deep_view()[r] == image@[r].deep_view());
            }
        }
    }
    write_png_file_rgb_tuples(&image)
}

} // verus!
