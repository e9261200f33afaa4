//! Rendering an RGB image, given row by row as pixel tuples, into the bytes
//! of a PNG file. The flattening of the rows into raw image bytes is
//! verified; the PNG encoding itself is the `png` crate's, named by an
//! uninterpreted function.

use vstd::prelude::*;

verus! {

/// The bytes of the 8-bit RGB PNG encoding of raw `width * height` pixel
/// data. The encoding is a function of the pixel bytes and the dimensions
/// alone.
pub uninterp spec fn png_rgb_encoding(rgb: Seq<u8>, width: u32, height: u32) -> Seq<u8>;

/// Relies on png::Encoder (8-bit RGB, default options): it writes the PNG
/// encoding of the raw pixel bytes, a deterministic function of pixel data
/// and dimensions, and accepts exactly `3 * width * height` data bytes.
#[verifier::external_body]
fn encode_png_rgb(rgb: &Vec<u8>, width: u32, height: u32) -> (out: Vec<u8>)
    requires
        width >= 1,
        height >= 1,
        rgb@.len() == 3 * width * height,
    ensures
        out@ == png_rgb_encoding(rgb@, width, height),
{
    let mut out: Vec<u8> = Vec::new();
    let mut encoder = png::Encoder::new(&mut out, width, height);
    encoder.set_color(png::ColorType::Rgb);
    encoder.set_depth(png::BitDepth::Eight);
    let mut writer = encoder.write_header().unwrap();
    writer.write_image_data(rgb).unwrap();
    writer.finish().unwrap();
    out
}

/// The three bytes of one RGB pixel.
pub open spec fn pixel_bytes(p: (u8, u8, u8)) -> Seq<u8> {
    seq![p.0, p.1, p.2]
}

/// The raw bytes of one image row: three bytes per pixel, left to right.
pub open spec fn row_bytes(row: Seq<(u8, u8, u8)>) -> Seq<u8>
    decreases row.len(),
{
    if row.len() == 0 {
        Seq::empty()
    } else {
        row_bytes(row.drop_last()) + pixel_bytes(row.last())
    }
}

/// The raw bytes of a whole image: its rows' bytes, top row first.
pub open spec fn image_bytes(image: Seq<Seq<(u8, u8, u8)>>) -> Seq<u8>
    decreases image.len(),
{
    if image.len() == 0 {
        Seq::empty()
    } else {
        image_bytes(image.drop_last()) + row_bytes(image.last())
    }
}

/// A row contributes three bytes per pixel.
pub proof fn lemma_row_bytes_len(row: Seq<(u8, u8, u8)>)
    ensures
        row_bytes(row).len() == 3 * row.len(),
    decreases row.len(),
{
    if row.len() > 0 {
        lemma_row_bytes_len(row.drop_last());
    }
}

/// An image of uniform row width contributes three bytes per pixel.
pub proof fn lemma_image_bytes_len(image: Seq<Seq<(u8, u8, u8)>>, width: nat)
    requires
        forall|r: int| 0 <= r < image.len() ==> (#[trigger] image[r]).len() == width,
    ensures
        image_bytes(image).len() == 3 * (image.len() as int) * (width as int),
    decreases image.len(),
{
    if image.len() > 0 {
        assert forall|r: int| 0 <= r < image.drop_last().len() implies (#[trigger] image.drop_last()[r]).len() == width by {
            assert(image.drop_last()[r] == image[r]);
        }
        lemma_image_bytes_len(image.drop_last(), width);
        lemma_row_bytes_len(image.last());
        assert(image.last().len() == width);
        assert(3 * (image.drop_last().len() as int) * (width as int) + 3 * (width as int) == 3 * (
        image.len() as int) * (width as int)) by (nonlinear_arith)
            requires
                image.drop_last().len() == image.len() - 1,
        ;
        assert(image_bytes(image).len() == 3 * (image.len() as int) * (width as int));
    } else {
        assert(image_bytes(image).len() == 0);
        assert(3 * (image.len() as int) * (width as int) == 0) by (nonlinear_arith)
            requires
                image.len() == 0,
        ;
    }
}

/// Renders an image, given as rows of RGB pixel tuples, into the bytes of a
/// PNG file. All rows must be equally wide, and the image cannot be empty.
pub fn write_png_file_rgb_tuples(rgb_image: &Vec<Vec<(u8, u8, u8)>>) -> (png: Vec<u8>)
    requires
        1 <= rgb_image@.len() <= u32::MAX,
        1 <= rgb_image@[0]@.len() <= u32::MAX,
        forall|r: int|
            0 <= r < rgb_image@.len() ==> (#[trigger] rgb_image@[r])@.len()
                == rgb_image@[0]@.len(),
        3 * rgb_image@.len() * rgb_image@[0]@.len() <= usize::MAX,
    ensures
        png@ == png_rgb_encoding(
            image_bytes(rgb_image.deep_view()),
            rgb_image@[0]@.len() as u32,
            rgb_image@.len() as u32,
        ),
{
    let height = rgb_image.len();
    let width = rgb_image[0].len();
    let ghost img = rgb_image.deep_view();
    proof {
        assert(img.len() == rgb_image@.len());
        assert forall|r: int| 0 <= r < img.len() implies (#[trigger] img[r]).len()
            == width as nat by {
            assert(img[r] == rgb_image@[r]@);
        }
    }
    let mut bytes: Vec<u8> = Vec::new();
    let mut r: usize = 0;
    while r < height
        invariant
            r <= height,
            height == img.len(),
            width == rgb_image@[0]@.len(),
            img == rgb_image.deep_view(),
            forall|k: int| 0 <= k < img.len() ==> (#[trigger] img[k]).len() == width as nat,
            forall|k: int|
                0 <= k < rgb_image@.len() ==> (#[trigger] rgb_image@[k])@.len() == width as nat,
            3 * height * width <= usize::MAX,
            bytes@ == image_bytes(img.take(r as int)),
        decreases height - r,
    {
        let row = &rgb_image[r];
        let mut c: usize = 0;
        let ghost row_view = img[r as int];
        proof {
            lemma_image_bytes_len(img.take(r as int), width as nat);
            assert(3 * img.take(r as int).len() * width as nat + 3 * width <= 3 * height * width)
                by (nonlinear_arith)
                requires
                    img.take(r as int).len() == r as int,
                    r < height,
            ;
        }
        while c < width
            invariant
                c <= width,
                width == row@.len(),
                row_view == row@,
                bytes@ == image_bytes(img.take(r as int)) + row_bytes(row_view.take(c as int)),
                bytes@.len() <= 3 * height * width - 3 * (width - c),
                3 * height * width <= usize::MAX,
            decreases width - c,
        {
            let p = row[c];
            proof {
                lemma_row_bytes_len(row_view.take(c as int));
            }
            bytes.push(p.0);
            bytes.push(p.1);
            bytes.push(p.2);
            c = c + 1;
            proof {
                assert(row_view.take(c as int).drop_last() =~= row_view.take(c as int - 1));
                assert(bytes@ =~= image_bytes(img.take(r as int)) + row_bytes(
                    row_view.take(c as int),
                ));
            }
        }
        r = r + 1;
        proof {
            assert(row_view.take(width as int) =~= row_view);
            assert(img.take(r as int).drop_last() =~= img.take(r as int - 1));
            assert(img.take(r as int).last() == row_view);
            assert(bytes@ =~= image_bytes(img.take(r as int)));
        }
    }
    proof {
        assert(img.take(height as int) =~= img);
        lemma_image_bytes_len(img, width as nat);
        assert(bytes@.len() == 3 * (width as int) * (height as int)) by (nonlinear_arith)
            requires
                bytes@.len() == 3 * (height as int) * (width as int),
        ;
    }
    encode_png_rgb(&bytes, width as u32, height as u32)
}

} // verus!
