//! Per-output transform correction and pixel-format normalization.
//!
//! A compositor stores an output's buffer pre-rotation, in one of three
//! 32-bit wire pixel formats. This module rewrites such a raw buffer into a
//! canonical top-left-origin RGBA8 buffer, undoing the output's transform
//! (a rotation of 0/90/180/270 degrees, optionally mirrored) and reordering
//! the colour channels, with alpha forced to 255 for the opaque formats.

use vstd::arithmetic::div_mod::lemma_fundamental_div_mod;
use vstd::arithmetic::div_mod::lemma_mod_bound;
use vstd::arithmetic::div_mod::lemma_fundamental_div_mod_converse;
use vstd::prelude::*;

use crate::rectangle::Position;
use crate::rectangle::Size;

verus! {

/// The eight output transforms: a counter-clockwise rotation, optionally
/// combined with a horizontal mirror applied after the rotation.
#[derive(Debug, PartialEq, Eq, Structural, Copy, Clone)]
pub enum Transform {
    Normal,
    Rotated90,
    Rotated180,
    Rotated270,
    Flipped,
    Flipped90,
    Flipped180,
    Flipped270,
}

/// The three supported 32-bit wire pixel formats.
#[derive(Debug, PartialEq, Eq, Structural, Copy, Clone)]
pub enum PixelFormat {
    /// Bytes B, G, R, A in memory order.
    Argb8888,
    /// Bytes B, G, R, X in memory order; the X byte is ignored.
    Xrgb8888,
    /// Bytes R, G, B, X in memory order; the X byte is ignored.
    Xbgr8888,
}

/// Whether the transform swaps the buffer's width and height (the four
/// 90-degree-family variants do).
pub open spec fn swaps_axes(t: Transform) -> bool {
    match t {
        Transform::Rotated90 | Transform::Rotated270 | Transform::Flipped90
            | Transform::Flipped270 => true,
        _ => false,
    }
}

/// Whether the transform mirrors horizontally after rotating.
pub open spec fn is_flipped(t: Transform) -> bool {
    match t {
        Transform::Flipped | Transform::Flipped90 | Transform::Flipped180
            | Transform::Flipped270 => true,
        _ => false,
    }
}

/// Width of the corrected buffer for a raw buffer of `w` by `h` pixels.
pub open spec fn transformed_width(t: Transform, w: int, h: int) -> int {
    if swaps_axes(t) {
        h
    } else {
        w
    }
}

/// Height of the corrected buffer for a raw buffer of `w` by `h` pixels.
pub open spec fn transformed_height(t: Transform, w: int, h: int) -> int {
    if swaps_axes(t) {
        w
    } else {
        h
    }
}

/// The raw-buffer column that lands on corrected-buffer pixel `(xf, yf)`;
/// the inverse of the rotation-then-mirror applied by the transform.
pub open spec fn source_x(t: Transform, w: int, h: int, xf: int, yf: int) -> int {
    let xp = if is_flipped(t) {
        transformed_width(t, w, h) - 1 - xf
    } else {
        xf
    };
    match t {
        Transform::Normal | Transform::Flipped => xp,
        Transform::Rotated90 | Transform::Flipped90 => yf,
        Transform::Rotated180 | Transform::Flipped180 => w - 1 - xp,
        Transform::Rotated270 | Transform::Flipped270 => w - 1 - yf,
    }
}

/// The raw-buffer row that lands on corrected-buffer pixel `(xf, yf)`.
pub open spec fn source_y(t: Transform, w: int, h: int, xf: int, yf: int) -> int {
    let xp = if is_flipped(t) {
        transformed_width(t, w, h) - 1 - xf
    } else {
        xf
    };
    match t {
        Transform::Normal | Transform::Flipped => yf,
        Transform::Rotated90 | Transform::Flipped90 => h - 1 - xp,
        Transform::Rotated180 | Transform::Flipped180 => h - 1 - yf,
        Transform::Rotated270 | Transform::Flipped270 => xp,
    }
}

/// The RGBA8 bytes for one wire pixel `b0 b1 b2 b3` (memory order): the
/// channels reordered to R, G, B, with alpha passed through for
/// `Argb8888` and forced to 255 for the opaque formats.
pub open spec fn spec_normalized_pixel(fmt: PixelFormat, b0: u8, b1: u8, b2: u8, b3: u8) -> Seq<
    u8,
> {
    match fmt {
        PixelFormat::Argb8888 => seq![b2, b1, b0, b3],
        PixelFormat::Xbgr8888 => seq![b0, b1, b2, 255u8],
        PixelFormat::Xrgb8888 => seq![b2, b1, b0, 255u8],
    }
}

/// Byte `i` of the corrected buffer: the byte index is split into a pixel
/// and a channel, the pixel into corrected coordinates, and those mapped
/// back onto the raw buffer.
pub open spec fn spec_transformed_byte(
    t: Transform,
    fmt: PixelFormat,
    w: int,
    h: int,
    src: Seq<u8>,
    i: int,
) -> u8 {
    let tw = transformed_width(t, w, h);
    let p = i / 4;
    let k = i % 4;
    let xf = p % tw;
    let yf = p / tw;
    let sx = source_x(t, w, h, xf, yf);
    let sy = source_y(t, w, h, xf, yf);
    let base = 4 * (sy * w + sx);
    spec_normalized_pixel(fmt, src[base], src[base + 1], src[base + 2], src[base + 3])[k]
}

/// The whole corrected buffer for a raw `w` by `h` buffer `src`.
pub open spec fn spec_transformed_buffer(
    t: Transform,
    fmt: PixelFormat,
    w: int,
    h: int,
    src: Seq<u8>,
) -> Seq<u8> {
    Seq::new((w * h * 4) as nat, |i: int| spec_transformed_byte(t, fmt, w, h, src, i))
}

/// One output's raw capture, as handed over by the negotiation state
/// machine once its frame is ready.
pub struct OutputCapture {
    /// The transform the compositor applies to this output.
    pub transform: Transform,
    /// The raw buffer bytes, 4 bytes per pixel in `image_pixel_format`.
    pub image_data: Vec<u8>,
    /// The raw buffer's pixel dimensions (pre-rotation).
    pub image_data_size: Size,
    /// Top-left corner of the captured area in compositor space.
    pub image_logical_position: Position,
    /// Size of the captured area in compositor space.
    pub image_logical_size: Size,
    /// The wire format of `image_data`.
    pub image_pixel_format: PixelFormat,
}

/// `d = q*n + r` with `0 <= r < n` pins down division and remainder; the
/// grid variants below specialize it to pixel and channel indices.
pub(crate) proof fn lemma_grid_index(tw: int, xf: int, yf: int, k: int)
    requires
        0 < tw,
        0 <= xf < tw,
        0 <= yf,
        0 <= k < 4,
    ensures
        (4 * (yf * tw + xf) + k) / 4 == yf * tw + xf,
        (4 * (yf * tw + xf) + k) % 4 == k,
        (yf * tw + xf) % tw == xf,
        (yf * tw + xf) / tw == yf,
{
    let p = yf * tw + xf;
    lemma_fundamental_div_mod_converse(4 * p + k, 4, p, k);
    lemma_fundamental_div_mod_converse(p, tw, yf, xf);
}

/// Pixels of a `w` by `h` grid have byte indices below `w * h * 4`.
pub(crate) proof fn lemma_grid_bound(w: int, h: int, x: int, y: int)
    requires
        0 <= x < w,
        0 <= y < h,
    ensures
        0 <= 4 * (y * w + x),
        4 * (y * w + x) + 4 <= w * h * 4,
{
    assert(0 <= y * w + x && y * w + x + 1 <= w * h) by (nonlinear_arith)
        requires
            0 <= x < w,
            0 <= y < h,
    ;
}

impl OutputCapture {
    /// The raw buffer is coherent: positive dimensions, the byte length
    /// matching them, and a total size the machine can address.
    pub open spec fn data_well_formed(self) -> bool {
        &&& 0 < self.image_data_size.width
        &&& 0 < self.image_data_size.height
        &&& self.image_data_size.width * self.image_data_size.height * 4 <= usize::MAX
        &&& self.image_data@.len() == self.image_data_size.width * self.image_data_size.height
            * 4
    }

    /// Rewrites the raw buffer into a top-left-origin RGBA8 buffer,
    /// returning the corrected width and height (swapped for the
    /// 90-degree-family transforms) along with the new buffer.
    #[verifier::rlimit(80)]
    pub fn get_transform_corrected_buffer(self) -> (r: (usize, usize, Vec<u8>))
        requires
            self.data_well_formed(),
        ensures
            r.0 == transformed_width(
                self.transform,
                self.image_data_size.width as int,
                self.image_data_size.height as int,
            ),
            r.1 == transformed_height(
                self.transform,
                self.image_data_size.width as int,
                self.image_data_size.height as int,
            ),
            r.2@ == spec_transformed_buffer(
                self.transform,
                self.image_pixel_format,
                self.image_data_size.width as int,
                self.image_data_size.height as int,
                self.image_data@,
            ),
    {
        let transform = self.transform;
        let w = self.image_data_size.width as usize;
        let h = self.image_data_size.height as usize;
        let ghost wi = w as int;
        let ghost hi = h as int;
        let ghost src = self.image_data@;
        let ghost goal = spec_transformed_buffer(transform, self.image_pixel_format, wi, hi, src);

        let swaps = match transform {
            Transform::Rotated90 | Transform::Rotated270 | Transform::Flipped90
                | Transform::Flipped270 => true,
            _ => false,
        };
        let (tw, th) = if swaps {
            (h, w)
        } else {
            (w, h)
        };
        assert(tw * th == wi * hi) by (nonlinear_arith)
            requires
                tw == transformed_width(transform, wi, hi),
                th == transformed_height(transform, wi, hi),
                (tw == wi && th == hi) || (tw == hi && th == wi),
        ;

        let mut out: Vec<u8> = Vec::new();
        let mut yf: usize = 0;
        while yf < th
            invariant
                self.data_well_formed(),
                transform == self.transform,
                wi == self.image_data_size.width as int,
                hi == self.image_data_size.height as int,
                w == wi,
                h == hi,
                src == self.image_data@,
                goal == spec_transformed_buffer(
                    transform,
                    self.image_pixel_format,
                    wi,
                    hi,
                    src,
                ),
                tw == transformed_width(transform, wi, hi),
                th == transformed_height(transform, wi, hi),
                tw * th == wi * hi,
                0 <= yf <= th,
                out@.len() == yf * tw * 4,
                forall|j: int| 0 <= j < out@.len() ==> out@[j] == goal[j],
            decreases th - yf,
        {
            let mut xf: usize = 0;
            assert(yf * tw + tw <= th * tw) by (nonlinear_arith)
                requires
                    0 <= yf < th,
                    0 < tw,
            ;
            while xf < tw
                invariant
                    self.data_well_formed(),
                    transform == self.transform,
                    wi == self.image_data_size.width as int,
                    hi == self.image_data_size.height as int,
                    w == wi,
                    h == hi,
                    src == self.image_data@,
                    goal == spec_transformed_buffer(
                        transform,
                        self.image_pixel_format,
                        wi,
                        hi,
                        src,
                    ),
                    tw == transformed_width(transform, wi, hi),
                    th == transformed_height(transform, wi, hi),
                    tw * th == wi * hi,
                    0 <= yf < th,
                    yf * tw + tw <= th * tw,
                    0 <= xf <= tw,
                    out@.len() == (yf * tw + xf) * 4,
                    forall|j: int| 0 <= j < out@.len() ==> out@[j] == goal[j],
                decreases tw - xf,
            {
                let ghost xfi = xf as int;
                let ghost yfi = yf as int;
                let (sx, sy): (usize, usize) = match transform {
                    Transform::Normal => (xf, yf),
                    Transform::Flipped => (tw - 1 - xf, yf),
                    Transform::Rotated90 => (yf, h - 1 - xf),
                    Transform::Flipped90 => (yf, h - 1 - (tw - 1 - xf)),
                    Transform::Rotated180 => (w - 1 - xf, h - 1 - yf),
                    Transform::Flipped180 => (w - 1 - (tw - 1 - xf), h - 1 - yf),
                    Transform::Rotated270 => (w - 1 - yf, xf),
                    Transform::Flipped270 => (w - 1 - yf, tw - 1 - xf),
                };
                proof {
                    assert(sx == source_x(transform, wi, hi, xfi, yfi));
                    assert(sy == source_y(transform, wi, hi, xfi, yfi));
                    lemma_grid_bound(wi, hi, sx as int, sy as int);
                }
                let base = 4 * (sy * w + sx);
                let b0 = self.image_data[base];
                let b1 = self.image_data[base + 1];
                let b2 = self.image_data[base + 2];
                let b3 = self.image_data[base + 3];
                let (c0, c1, c2, c3): (u8, u8, u8, u8) = match self.image_pixel_format {
                    PixelFormat::Argb8888 => (b2, b1, b0, b3),
                    PixelFormat::Xbgr8888 => (b0, b1, b2, 255),
                    PixelFormat::Xrgb8888 => (b2, b1, b0, 255),
                };
                proof {
                    lemma_grid_index(tw as int, xfi, yfi, 0);
                    lemma_grid_index(tw as int, xfi, yfi, 1);
                    lemma_grid_index(tw as int, xfi, yfi, 2);
                    lemma_grid_index(tw as int, xfi, yfi, 3);
                    assert(yfi * tw + xfi + 1 <= th * tw) by (nonlinear_arith)
                        requires
                            0 <= xfi < tw,
                            yfi * tw + tw <= th * tw,
                    ;
                    let p = yfi * tw + xfi;
                    assert(goal[4 * p] == c0 && goal[4 * p + 1] == c1 && goal[4 * p + 2] == c2
                        && goal[4 * p + 3] == c3);
                }
                out.push(c0);
                out.push(c1);
                out.push(c2);
                out.push(c3);
                xf = xf + 1;
            }
            yf = yf + 1;
            assert(((yf - 1) * tw + tw) * 4 == yf * tw * 4) by (nonlinear_arith);
        }
        proof {
            assert(out@.len() == wi * hi * 4) by (nonlinear_arith)
                requires
                    out@.len() == yf * tw * 4,
                    yf == th,
                    tw * th == wi * hi,
            ;
            assert(out@ =~= goal);
        }
        (tw, th, out)
    }

    /// Reorders one wire pixel's bytes into RGBA8, forcing alpha to 255
    /// for the two opaque formats.
    pub fn transform_pixel(image_pixel_format: PixelFormat, pixel: &[u8]) -> (r: [u8; 4])
        requires
            pixel@.len() >= 4,
        ensures
            r@ == spec_normalized_pixel(
                image_pixel_format,
                pixel@[0],
                pixel@[1],
                pixel@[2],
                pixel@[3],
            ),
    {
        let r = match image_pixel_format {
            PixelFormat::Argb8888 => [pixel[2], pixel[1], pixel[0], pixel[3]],
            PixelFormat::Xbgr8888 => [pixel[0], pixel[1], pixel[2], 255],
            PixelFormat::Xrgb8888 => [pixel[2], pixel[1], pixel[0], 255],
        };
        proof {
            assert(r@ =~= spec_normalized_pixel(
                image_pixel_format,
                pixel@[0],
                pixel@[1],
                pixel@[2],
                pixel@[3],
            ));
        }
        r
    }
}


/// Every pixel's alpha byte (each fourth byte) is fully opaque.
pub open spec fn opaque_alpha(s: Seq<u8>) -> bool {
    forall|i: int| 0 <= i < s.len() && i % 4 == 3 ==> #[trigger] s[i] == 255
}

/// Splits a byte index of a `w` by `h` RGBA8 buffer into its pixel
/// coordinates and channel.
proof fn lemma_byte_split(w: int, h: int, i: int)
    requires
        0 < w,
        0 < h,
        0 <= i < w * h * 4,
    ensures
        ({
            let p = i / 4;
            let k = i % 4;
            let xf = p % w;
            let yf = p / w;
            &&& 0 <= k < 4
            &&& 0 <= xf < w
            &&& 0 <= yf < h
            &&& i == 4 * (yf * w + xf) + k
        }),
{
    let p = i / 4;
    let k = i % 4;
    lemma_fundamental_div_mod(i, 4);
    lemma_mod_bound(i, 4);
    let xf = p % w;
    let yf = p / w;
    lemma_fundamental_div_mod(p, w);
    lemma_mod_bound(p, w);
    assert(yf < h) by (nonlinear_arith)
        requires
            p == w * yf + xf,
            0 <= xf < w,
            p < w * h,
    ;
    assert(0 <= yf) by (nonlinear_arith)
        requires
            p == w * yf + xf,
            0 <= xf < w,
            0 <= p,
    ;
}

/// Applying the identity transform with the channel-passthrough format
/// leaves a fully opaque buffer unchanged in content and dimensions.
pub proof fn lemma_normal_transform_identity(w: int, h: int, src: Seq<u8>)
    requires
        0 < w,
        0 < h,
        src.len() == w * h * 4,
        opaque_alpha(src),
    ensures
        spec_transformed_buffer(Transform::Normal, PixelFormat::Xbgr8888, w, h, src) == src,
{
    let out = spec_transformed_buffer(Transform::Normal, PixelFormat::Xbgr8888, w, h, src);
    assert forall|i: int| 0 <= i < w * h * 4 implies out[i] == src[i] by {
        let p = i / 4;
        let k = i % 4;
        let xf = p % w;
        let yf = p / w;
        lemma_byte_split(w, h, i);
        lemma_grid_index(w, xf, yf, k);
    }
    assert(out =~= src);
}

/// Rotating a fully opaque buffer by 90 degrees and then rotating the
/// result by 270 degrees restores the original dimensions and content.
pub proof fn lemma_rotate_90_then_270_restores(w: int, h: int, src: Seq<u8>)
    requires
        0 < w,
        0 < h,
        src.len() == w * h * 4,
        opaque_alpha(src),
    ensures
        ({
            let once = spec_transformed_buffer(
                Transform::Rotated90,
                PixelFormat::Xbgr8888,
                w,
                h,
                src,
            );
            spec_transformed_buffer(Transform::Rotated270, PixelFormat::Xbgr8888, h, w, once)
                == src
        }),
{
    let once = spec_transformed_buffer(Transform::Rotated90, PixelFormat::Xbgr8888, w, h, src);
    let twice = spec_transformed_buffer(Transform::Rotated270, PixelFormat::Xbgr8888, h, w, once);
    assert(h * w == w * h) by (nonlinear_arith);
    assert forall|i: int| 0 <= i < w * h * 4 implies twice[i] == src[i] by {
        let p = i / 4;
        let k = i % 4;
        let xf = p % w;
        let yf = p / w;
        lemma_byte_split(w, h, i);
        lemma_grid_index(w, xf, yf, k);
        // The 270-degree step reads its pixel `(xf, yf)` from `once` at
        // pixel `(h - 1 - yf, xf)` in the `h` by `w` grid of `once`.
        let p1 = xf * h + (h - 1 - yf);
        assert(xf * h + h <= w * h) by (nonlinear_arith)
            requires
                0 <= xf < w,
                0 < h,
        ;
        lemma_grid_index(h, h - 1 - yf, xf, k);
        // The 90-degree step wrote that pixel of `once` from pixel
        // `(xf, yf)` of `src`.
        assert(once[4 * p1 + k] == spec_normalized_pixel(
            PixelFormat::Xbgr8888,
            src[4 * p],
            src[4 * p + 1],
            src[4 * p + 2],
            src[4 * p + 3],
        )[k]);
    }
    assert(twice =~= src);
}

/// Rotating a fully opaque buffer by 270 degrees and then rotating the
/// result by 90 degrees restores the original dimensions and content.
pub proof fn lemma_rotate_270_then_90_restores(w: int, h: int, src: Seq<u8>)
    requires
        0 < w,
        0 < h,
        src.len() == w * h * 4,
        opaque_alpha(src),
    ensures
        ({
            let once = spec_transformed_buffer(
                Transform::Rotated270,
                PixelFormat::Xbgr8888,
                w,
                h,
                src,
            );
            spec_transformed_buffer(Transform::Rotated90, PixelFormat::Xbgr8888, h, w, once)
                == src
        }),
{
    let once = spec_transformed_buffer(Transform::Rotated270, PixelFormat::Xbgr8888, w, h, src);
    let twice = spec_transformed_buffer(Transform::Rotated90, PixelFormat::Xbgr8888, h, w, once);
    assert(h * w == w * h) by (nonlinear_arith);
    assert forall|i: int| 0 <= i < w * h * 4 implies twice[i] == src[i] by {
        let p = i / 4;
        let k = i % 4;
        let xf = p % w;
        let yf = p / w;
        lemma_byte_split(w, h, i);
        lemma_grid_index(w, xf, yf, k);
        // The 90-degree step reads its pixel `(xf, yf)` from `once` at
        // pixel `(yf, w - 1 - xf)` in the `h` by `w` grid of `once`.
        let p1 = (w - 1 - xf) * h + yf;
        assert((w - 1 - xf) * h + h <= w * h) by (nonlinear_arith)
            requires
                0 <= xf < w,
                0 < h,
        ;
        lemma_grid_index(h, yf, w - 1 - xf, k);
        // The 270-degree step wrote that pixel of `once` from pixel
        // `(xf, yf)` of `src`.
        assert(once[4 * p1 + k] == spec_normalized_pixel(
            PixelFormat::Xbgr8888,
            src[4 * p],
            src[4 * p + 1],
            src[4 * p + 2],
            src[4 * p + 3],
        )[k]);
    }
    assert(twice =~= src);
}

} // verus!
