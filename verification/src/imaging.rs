//! Operations on raw RGB images (three bytes per pixel, row by row).

use vstd::prelude::*;

verus! {

/// The raw RGB bytes of the `new_width` x `new_height` image that the `image`
/// crate's `imageops::resize` with `FilterType::Nearest` computes from the
/// `width` x `height` RGB image whose raw bytes are `rgb`.
pub uninterp spec fn resized_rgb_nearest(
    width: u32,
    height: u32,
    rgb: Seq<u8>,
    new_width: u32,
    new_height: u32,
) -> Seq<u8>;

/// Trusted: `image::imageops::resize` with `FilterType::Nearest` on the RGB
/// image built by `image::RgbImage::from_raw` from these bytes. The contract
/// claims that the result is the named resize of the arguments and that its
/// buffer holds exactly `new_width * new_height` RGB pixels, as the output
/// `ImageBuffer::new(new_width, new_height)` allocates. `from_raw` succeeds
/// because the buffer holds exactly `width * height` pixels.
#[verifier::external_body]
pub(crate) fn resize_rgb_nearest(
    width: u32,
    height: u32,
    rgb: Vec<u8>,
    new_width: u32,
    new_height: u32,
) -> (resized: Vec<u8>)
    requires
        rgb@.len() == 3 * (width as int) * (height as int),
        new_width > 0,
        new_height > 0,
        3 * (new_width as int) * (new_height as int) <= usize::MAX,
    ensures
        resized@ == resized_rgb_nearest(width, height, rgb@, new_width, new_height),
        resized@.len() == 3 * (new_width as int) * (new_height as int),
{
    let image = image::RgbImage::from_raw(width, height, rgb).unwrap();
    image::imageops::resize(&image, new_width, new_height, image::imageops::FilterType::Nearest).into_raw()
}

/// Side, in pixels, of the square images that models and datasets use.
pub const MODEL_IMAGE_SIDE: u32 = 64;

/// The image resized to 64x64 RGB pixels by nearest-neighbour sampling, the
/// size at which images are stored in datasets and fed to models.
pub fn resize_for_models(width: u32, height: u32, rgb: Vec<u8>) -> (resized: Vec<u8>)
    requires
        rgb@.len() == 3 * (width as int) * (height as int),
    ensures
        resized@ == resized_rgb_nearest(width, height, rgb@, MODEL_IMAGE_SIDE, MODEL_IMAGE_SIDE),
        resized@.len() == 12288,
{
    resize_rgb_nearest(width, height, rgb, MODEL_IMAGE_SIDE, MODEL_IMAGE_SIDE)
}

/// Whether the pixel `(r, g, b)` counts as white: its mean channel value,
/// rounded down, is above 200.
pub open spec fn is_bright(r: u8, g: u8, b: u8) -> bool {
    ((r as int) + (g as int) + (b as int)) / 3 > 200
}

/// Number of white pixels among the first `n` pixels of `rgb`.
pub open spec fn bright_pixels(rgb: Seq<u8>, n: nat) -> nat
    decreases n,
{
    if n == 0 {
        0
    } else {
        let i = 3 * (n - 1);
        bright_pixels(rgb, (n - 1) as nat) + if is_bright(rgb[i], rgb[i + 1], rgb[i + 2]) {
            1nat
        } else {
            0nat
        }
    }
}

/// Number of white pixels of an RGB image, and its number of pixels.
pub fn count_bright_pixels(rgb: &[u8]) -> (counts: (usize, usize))
    requires
        rgb@.len() % 3 == 0,
    ensures
        counts.1 == rgb@.len() / 3,
        counts.0 == bright_pixels(rgb@, counts.1 as nat),
        counts.0 <= counts.1,
{
    let total = rgb.len() / 3;
    let mut bright: usize = 0;
    let mut p: usize = 0;
    while p < total
        invariant
            total == rgb@.len() / 3,
            rgb@.len() % 3 == 0,
            p <= total,
            bright == bright_pixels(rgb@, p as nat),
            bright <= p,
        decreases total - p,
    {
        assert(3 * p + 2 < rgb.len()) by (nonlinear_arith)
            requires
                p < total,
                total == rgb.len() / 3,
        ;
        let i = 3 * p;
        let sum = rgb[i] as u32 + rgb[i + 1] as u32 + rgb[i + 2] as u32;
        if sum / 3 > 200 {
            bright = bright + 1;
        }
        p = p + 1;
    }
    (bright, total)
}

/// No pixel counted yet: no white pixel.
pub proof fn lemma_bright_pixels_none(rgb: Seq<u8>)
    ensures
        bright_pixels(rgb, 0) == 0,
{
}

/// Counting one more pixel `p` adds one exactly when the mean of its red,
/// green and blue channels `rgb[3p]`, `rgb[3p + 1]`, `rgb[3p + 2]`, rounded
/// down, is above 200.
pub proof fn lemma_bright_pixels_next(rgb: Seq<u8>, p: nat)
    requires
        3 * p + 2 < rgb.len(),
    ensures
        bright_pixels(rgb, p + 1) == bright_pixels(rgb, p) + if ((rgb[3 * p as int] as int) + (rgb[(3 * p + 1) as int]
            as int) + (rgb[(3 * p + 2) as int] as int)) / 3 > 200 {
            1int
        } else {
            0int
        },
{
}

/// A one-pixel image `(r, g, b)` holds one white pixel exactly when
/// `(r + g + b) / 3 > 200`.
pub proof fn lemma_bright_single_pixel(r: u8, g: u8, b: u8)
    ensures
        bright_pixels(seq![r, g, b], 1) == if ((r as int) + (g as int) + (b as int)) / 3 > 200 {
            1int
        } else {
            0int
        },
{
    assert(seq![r, g, b][0] == r);
    assert(seq![r, g, b][1] == g);
    assert(seq![r, g, b][2] == b);
    lemma_bright_pixels_next(seq![r, g, b], 0);
    assert(bright_pixels(seq![r, g, b], 0) == 0);
}

/// The count over the first `n` pixels reads only those pixels.
pub proof fn lemma_bright_pixels_prefix(a: Seq<u8>, b: Seq<u8>, n: nat)
    requires
        3 * n <= a.len(),
    ensures
        bright_pixels(a + b, n) == bright_pixels(a, n),
    decreases n,
{
    if n > 0 {
        lemma_bright_pixels_prefix(a, b, (n - 1) as nat);
        let i = 3 * (n - 1);
        assert((a + b)[i] == a[i]);
        assert((a + b)[i + 1] == a[i + 1]);
        assert((a + b)[i + 2] == a[i + 2]);
    }
}

/// The white pixels of two images laid one after the other are those of the
/// first plus those of the second.
pub proof fn lemma_bright_pixels_append(a: Seq<u8>, b: Seq<u8>, k: nat)
    requires
        a.len() % 3 == 0,
        3 * k <= b.len(),
    ensures
        bright_pixels(a + b, (a.len() / 3 + k) as nat) == bright_pixels(a, (a.len() / 3) as nat)
            + bright_pixels(b, k),
    decreases k,
{
    let na = (a.len() / 3) as nat;
    if k == 0 {
        lemma_bright_pixels_prefix(a, b, na);
    } else {
        lemma_bright_pixels_append(a, b, (k - 1) as nat);
        let i = 3 * (na + k - 1);
        let j = 3 * (k - 1);
        assert(i == a.len() + j);
        assert((a + b)[i] == b[j]);
        assert((a + b)[i + 1] == b[j + 1]);
        assert((a + b)[i + 2] == b[j + 2]);
        assert((na + k - 1) + 1 == na + k);
    }
}

} // verus!
