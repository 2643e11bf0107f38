//! Compositing of per-output captures into one final pixel buffer.
//!
//! The final image covers the union bounding rectangle of all captured
//! logical rectangles. Each capture's corrected buffer is brought to its
//! logical size (through a Lanczos resampler when the two differ) and laid
//! down at its logical offset; where several captures overlap, the one
//! later in the list wins, and points no capture covers stay transparent
//! black.

use vstd::prelude::*;

use crate::capture::OutputCapture;
use crate::capture::lemma_grid_bound;
use crate::capture::lemma_grid_index;
use crate::capture::spec_transformed_buffer;
use crate::capture::transformed_height;
use crate::capture::transformed_width;
use crate::error::Error;
use crate::rectangle::Position;
use crate::rectangle::Rectangle;
use crate::rectangle::Size;

verus! {

/// The final composited image: RGBA8, row-major, top-left origin, no
/// stride padding.
pub struct Capture {
    /// The width of the capture in pixels.
    pub width: usize,
    /// The height of the capture in pixels.
    pub height: usize,
    /// The pixel bytes, `width * height * 4` of them.
    pub pixel_data: Vec<u8>,
}

/// What the Lanczos resampler returns for an RGBA8 buffer of `src_w` by
/// `src_h` pixels brought to `dst_w` by `dst_h`; a fixed function of its
/// arguments, named rather than spelled out.
pub uninterp spec fn resample_of(
    src_w: int,
    src_h: int,
    dst_w: int,
    dst_h: int,
    data: Seq<u8>,
) -> Seq<u8>;

/// Relies on resize::Resizer with the Lanczos3 filter: fills a destination
/// buffer of exactly `dst_w * dst_h` RGBA8 pixels from the source pixels
/// alone, so the result is a function of the arguments. An allocation
/// failure inside the resampler aborts the call, as allocation failures
/// are fatal for a capture.
#[verifier::external_body]
fn resample(src_w: usize, src_h: usize, dst_w: usize, dst_h: usize, data: &Vec<u8>) -> (r: Vec<
    u8,
>)
    requires
        0 < src_w,
        0 < src_h,
        0 < dst_w,
        0 < dst_h,
        data@.len() == src_w * src_h * 4,
        src_w * src_h * 16 <= usize::MAX,
        dst_w * dst_h * 16 <= usize::MAX,
        dst_w * src_h * 16 <= usize::MAX,
    ensures
        r@ == resample_of(src_w as int, src_h as int, dst_w as int, dst_h as int, data@),
        r@.len() == dst_w * dst_h * 4,
{
    let src: &[rgb::RGBA8] = rgb::FromSlice::as_rgba(data.as_slice());
    let mut dst = vec![rgb::RGBA8::new(0u8, 0u8, 0u8, 0u8); dst_w * dst_h];
    let mut resizer = resize::new(
        src_w,
        src_h,
        dst_w,
        dst_h,
        resize::Pixel::RGBA8,
        resize::Type::Lanczos3,
    ).unwrap();
    resizer.resize(src, &mut dst).unwrap();
    rgb::ComponentBytes::as_bytes(dst.as_slice()).to_vec()
}

/// Byte index of channel `k` of pixel `(x, y)` in a row-major RGBA8
/// buffer `w` pixels wide.
pub open spec fn byte_index(w: int, x: int, y: int, k: int) -> int {
    4 * (y * w + x) + k
}

/// The logical rectangle a capture occupies in compositor space.
pub open spec fn oc_rect(oc: OutputCapture) -> Rectangle {
    Rectangle { position: oc.image_logical_position, size: oc.image_logical_size }
}

/// Width of the capture's buffer after transform correction.
pub open spec fn oc_corrected_width(oc: OutputCapture) -> int {
    transformed_width(oc.transform, oc.image_data_size.width as int, oc.image_data_size.height as int)
}

/// Height of the capture's buffer after transform correction.
pub open spec fn oc_corrected_height(oc: OutputCapture) -> int {
    transformed_height(oc.transform, oc.image_data_size.width as int, oc.image_data_size.height as int)
}

/// The capture's buffer after transform correction.
pub open spec fn oc_corrected(oc: OutputCapture) -> Seq<u8> {
    spec_transformed_buffer(
        oc.transform,
        oc.image_pixel_format,
        oc.image_data_size.width as int,
        oc.image_data_size.height as int,
        oc.image_data@,
    )
}

/// The corrected buffer brought to the capture's logical size: used as is
/// when the pixel sizes already agree, resampled otherwise.
pub open spec fn oc_scaled(oc: OutputCapture) -> Seq<u8> {
    if oc_corrected_width(oc) == oc.image_logical_size.width as int && oc_corrected_height(oc)
        == oc.image_logical_size.height as int {
        oc_corrected(oc)
    } else {
        resample_of(
            oc_corrected_width(oc),
            oc_corrected_height(oc),
            oc.image_logical_size.width as int,
            oc.image_logical_size.height as int,
            oc_corrected(oc),
        )
    }
}

/// A capture the compositor can work with: a coherent raw buffer, a
/// positive logical size, edges within the coordinate range, and pixel
/// counts the machine can address (with room for the resampler's
/// 16-byte-per-pixel working buffers).
pub open spec fn oc_well_formed(oc: OutputCapture) -> bool {
    &&& oc.data_well_formed()
    &&& 0 < oc.image_logical_size.width
    &&& 0 < oc.image_logical_size.height
    &&& oc_rect(oc).well_formed()
    &&& oc.image_logical_size.width * oc.image_logical_size.height * 16 <= usize::MAX
    &&& oc.image_data_size.width * oc.image_data_size.height * 16 <= usize::MAX
    &&& oc.image_logical_size.width * oc.image_data_size.width * 16 <= usize::MAX
    &&& oc.image_logical_size.width * oc.image_data_size.height * 16 <= usize::MAX
}

/// Leftmost logical edge among the first `n` captures.
pub open spec fn spec_min_left(caps: Seq<OutputCapture>, n: int) -> int
    decreases n,
{
    if n <= 1 {
        oc_rect(caps[0]).left()
    } else {
        vstd::math::min(spec_min_left(caps, n - 1), oc_rect(caps[n - 1]).left())
    }
}

/// Topmost logical edge among the first `n` captures.
pub open spec fn spec_min_top(caps: Seq<OutputCapture>, n: int) -> int
    decreases n,
{
    if n <= 1 {
        oc_rect(caps[0]).top()
    } else {
        vstd::math::min(spec_min_top(caps, n - 1), oc_rect(caps[n - 1]).top())
    }
}

/// Rightmost logical edge among the first `n` captures.
pub open spec fn spec_max_right(caps: Seq<OutputCapture>, n: int) -> int
    decreases n,
{
    if n <= 1 {
        oc_rect(caps[0]).right()
    } else {
        vstd::math::max(spec_max_right(caps, n - 1), oc_rect(caps[n - 1]).right())
    }
}

/// Bottommost logical edge among the first `n` captures.
pub open spec fn spec_max_bottom(caps: Seq<OutputCapture>, n: int) -> int
    decreases n,
{
    if n <= 1 {
        oc_rect(caps[0]).bottom()
    } else {
        vstd::math::max(spec_max_bottom(caps, n - 1), oc_rect(caps[n - 1]).bottom())
    }
}

/// The last index below `n` whose logical rectangle contains `(x, y)`,
/// or -1 when none does.
pub open spec fn covering_index(caps: Seq<OutputCapture>, n: int, x: int, y: int) -> int
    decreases n,
{
    if n <= 0 {
        -1
    } else if oc_rect(caps[n - 1]).spec_contains_point(x, y) {
        n - 1
    } else {
        covering_index(caps, n - 1, x, y)
    }
}

/// Channel `k` of the composite at absolute point `(x, y)`: taken from the
/// last capture whose logical rectangle contains the point, transparent
/// black when none does.
pub open spec fn spec_composite_byte(caps: Seq<OutputCapture>, x: int, y: int, k: int) -> u8 {
    let i = covering_index(caps, caps.len() as int, x, y);
    if i < 0 {
        0u8
    } else {
        let c = caps[i];
        let lx = x - c.image_logical_position.x;
        let ly = y - c.image_logical_position.y;
        oc_scaled(c)[4 * (ly * c.image_logical_size.width + lx) + k]
    }
}

/// The whole composite image for a non-empty capture list, row-major over
/// the union bounding rectangle.
pub open spec fn spec_composite_image(caps: Seq<OutputCapture>) -> Seq<u8> {
    let n = caps.len() as int;
    let l = spec_min_left(caps, n);
    let t = spec_min_top(caps, n);
    let w = spec_max_right(caps, n) - l;
    let h = spec_max_bottom(caps, n) - t;
    Seq::new(
        (w * h * 4) as nat,
        |j: int|
            {
                let p = j / 4;
                let k = j % 4;
                spec_composite_byte(caps, l + p % w, t + p / w, k)
            },
    )
}

/// The union bounds enclose every capture's logical rectangle.
proof fn lemma_bounds_enclose(caps: Seq<OutputCapture>, n: int, i: int)
    requires
        0 <= i < n <= caps.len(),
    ensures
        spec_min_left(caps, n) <= oc_rect(caps[i]).left(),
        spec_min_top(caps, n) <= oc_rect(caps[i]).top(),
        oc_rect(caps[i]).right() <= spec_max_right(caps, n),
        oc_rect(caps[i]).bottom() <= spec_max_bottom(caps, n),
    decreases n,
{
    if n > 1 && i < n - 1 {
        lemma_bounds_enclose(caps, n - 1, i);
    }
}

/// The union bounds stay within the 32-bit coordinate range.
proof fn lemma_bounds_range(caps: Seq<OutputCapture>, n: int)
    requires
        1 <= n <= caps.len(),
        forall|i: int| 0 <= i < caps.len() ==> #[trigger] oc_well_formed(caps[i]),
    ensures
        i32::MIN <= spec_min_left(caps, n),
        spec_max_right(caps, n) <= i32::MAX,
        i32::MIN <= spec_min_top(caps, n),
        spec_max_bottom(caps, n) <= i32::MAX,
    decreases n,
{
    assert(oc_well_formed(caps[n - 1]));
    assert(oc_well_formed(caps[0]));
    if n > 1 {
        lemma_bounds_range(caps, n - 1);
    }
}


/// The covering index names the last capture whose rectangle contains
/// the point, and is negative exactly when no capture covers it: the
/// composite is transparent precisely outside every logical rectangle.
pub proof fn lemma_covering_index_is_last(caps: Seq<OutputCapture>, n: int, x: int, y: int)
    requires
        0 <= n <= caps.len(),
    ensures
        ({
            let i = covering_index(caps, n, x, y);
            &&& i < 0 <==> (forall|j: int|
                0 <= j < n ==> !(#[trigger] oc_rect(caps[j])).spec_contains_point(x, y))
            &&& i >= 0 ==> 0 <= i < n && oc_rect(caps[i]).spec_contains_point(x, y)
            &&& i >= 0 ==> forall|j: int|
                i < j < n ==> !(#[trigger] oc_rect(caps[j])).spec_contains_point(x, y)
        }),
    decreases n,
{
    if n > 0 && !oc_rect(caps[n - 1]).spec_contains_point(x, y) {
        lemma_covering_index_is_last(caps, n - 1, x, y);
    }
}

/// Composites the given captures into one buffer sized to the union of
/// their logical rectangles. Each capture is first transform-corrected,
/// then brought to its logical size, then laid down at its logical offset;
/// later captures win where rectangles overlap, and uncovered points stay
/// transparent black.
#[verifier::rlimit(80)]
pub fn captures_to_buffer(output_captures: Vec<OutputCapture>) -> (r: Result<Capture, Error>)
    requires
        forall|i: int|
            0 <= i < output_captures@.len() ==> #[trigger] oc_well_formed(output_captures@[i]),
        output_captures@.len() > 0 ==> (spec_max_right(output_captures@, output_captures@.len() as int)
            - spec_min_left(output_captures@, output_captures@.len() as int)) * (spec_max_bottom(
            output_captures@,
            output_captures@.len() as int,
        ) - spec_min_top(output_captures@, output_captures@.len() as int)) * 4 <= usize::MAX,
    ensures
        match r {
            Ok(cap) => {
                let caps = output_captures@;
                let n = caps.len() as int;
                &&& caps.len() > 0
                &&& cap.width == spec_max_right(caps, n) - spec_min_left(caps, n)
                &&& cap.height == spec_max_bottom(caps, n) - spec_min_top(caps, n)
                &&& cap.pixel_data@.len() == cap.width * cap.height * 4
                &&& cap.pixel_data@ == spec_composite_image(caps)
                &&& forall|x: int, y: int, k: int|
                    0 <= x < cap.width && 0 <= y < cap.height && 0 <= k < 4
                        ==> cap.pixel_data@[#[trigger] byte_index(cap.width as int, x, y, k)]
                        == spec_composite_byte(
                        caps,
                        spec_min_left(caps, n) + x,
                        spec_min_top(caps, n) + y,
                        k,
                    )
            },
            Err(e) => e is NoCaptures && output_captures@.len() == 0,
        },
{
    let ghost caps = output_captures@;
    let n = output_captures.len();
    if n == 0 {
        return Err(Error::NoCaptures);
    }
    let ghost ni = n as int;

    // Union bounding rectangle of the logical rectangles.
    let p0 = output_captures[0].image_logical_position;
    let s0 = output_captures[0].image_logical_size;
    assert(oc_well_formed(caps[0]));
    let mut ul_x = p0.x;
    let mut ul_y = p0.y;
    let mut br_x = p0.x + s0.width;
    let mut br_y = p0.y + s0.height;
    let mut i: usize = 1;
    while i < n
        invariant
            caps == output_captures@,
            n == caps.len(),
            1 <= i <= n,
            forall|j: int| 0 <= j < caps.len() ==> #[trigger] oc_well_formed(caps[j]),
            ul_x == spec_min_left(caps, i as int),
            ul_y == spec_min_top(caps, i as int),
            br_x == spec_max_right(caps, i as int),
            br_y == spec_max_bottom(caps, i as int),
        decreases n - i,
    {
        assert(oc_well_formed(caps[i as int]));
        let p = output_captures[i].image_logical_position;
        let s = output_captures[i].image_logical_size;
        if p.x < ul_x {
            ul_x = p.x;
        }
        if p.y < ul_y {
            ul_y = p.y;
        }
        if p.x + s.width > br_x {
            br_x = p.x + s.width;
        }
        if p.y + s.height > br_y {
            br_y = p.y + s.height;
        }
        i = i + 1;
    }
    let ghost li = spec_min_left(caps, ni);
    let ghost ti = spec_min_top(caps, ni);
    let ghost wi = spec_max_right(caps, ni) - li;
    let ghost hi = spec_max_bottom(caps, ni) - ti;
    proof {
        lemma_bounds_enclose(caps, ni, 0);
        lemma_bounds_range(caps, ni);
        assert(wi >= 1 && hi >= 1);
        assert(wi < 0x1_0000_0000 && hi < 0x1_0000_0000);
        assert(wi <= usize::MAX && hi <= usize::MAX && wi * 4 <= usize::MAX) by (nonlinear_arith)
            requires
                wi * hi * 4 <= usize::MAX,
                wi >= 1,
                hi >= 1,
        ;
    }
    let width = (br_x as i64 - ul_x as i64) as usize;
    let height = (br_y as i64 - ul_y as i64) as usize;

    // Bring each capture's buffer to its logical size.
    let mut scaled: Vec<Vec<u8>> = Vec::new();
    let mut positions: Vec<Position> = Vec::new();
    let mut sizes: Vec<Size> = Vec::new();
    let mut rest = output_captures;
    let mut i: usize = 0;
    while i < n
        invariant
            n == caps.len(),
            0 <= i <= n,
            rest@ == caps.skip(i as int),
            forall|j: int| 0 <= j < caps.len() ==> #[trigger] oc_well_formed(caps[j]),
            scaled@.len() == i,
            positions@.len() == i,
            sizes@.len() == i,
            forall|j: int|
                0 <= j < i ==> #[trigger] positions@[j] == caps[j].image_logical_position,
            forall|j: int| 0 <= j < i ==> #[trigger] sizes@[j] == caps[j].image_logical_size,
            forall|j: int| 0 <= j < i ==> #[trigger] scaled@[j]@ == oc_scaled(caps[j]),
            forall|j: int|
                0 <= j < i ==> #[trigger] scaled@[j]@.len() == caps[j].image_logical_size.width
                    * caps[j].image_logical_size.height * 4,
        decreases n - i,
    {
        proof {
            assert(caps.skip(i as int)[0] == caps[i as int]);
        }
        let oc = rest.remove(0);
        proof {
            assert(rest@ =~= caps.skip(i as int + 1));
            assert(oc_well_formed(caps[i as int]));
        }
        let pos = oc.image_logical_position;
        let ls = oc.image_logical_size;
        let lw = ls.width as usize;
        let lh = ls.height as usize;
        let ghost ocg = oc;
        let ghost dw = oc.image_data_size.width as int;
        let ghost dh = oc.image_data_size.height as int;
        let (tw, th, data) = oc.get_transform_corrected_buffer();
        proof {
            assert(tw * th * 16 <= usize::MAX && lw * th * 16 <= usize::MAX && lw * lh * 16
                <= usize::MAX && tw * th * 4 == data@.len()) by (nonlinear_arith)
                requires
                    dw * dh * 16 <= usize::MAX,
                    lw * dw * 16 <= usize::MAX,
                    lw * dh * 16 <= usize::MAX,
                    lw * lh * 16 <= usize::MAX,
                    data@.len() == dw * dh * 4,
                    (tw == dw && th == dh) || (tw == dh && th == dw),
            ;
        }
        let buf = if tw != lw || th != lh {
            resample(tw, th, lw, lh, &data)
        } else {
            data
        };
        scaled.push(buf);
        positions.push(pos);
        sizes.push(ls);
        i = i + 1;
    }

    // Render the composite row by row; for each point the last capture
    // whose logical rectangle contains it supplies the pixel.
    let ghost goal = spec_composite_image(caps);
    proof {
        assert(goal.len() == (wi * hi * 4) as nat);
    }
    let mut out: Vec<u8> = Vec::new();
    let mut gy: usize = 0;
    while gy < height
        invariant
            n == caps.len(),
            1 <= n,
            forall|j: int| 0 <= j < caps.len() ==> #[trigger] oc_well_formed(caps[j]),
            scaled@.len() == n,
            positions@.len() == n,
            sizes@.len() == n,
            forall|j: int|
                0 <= j < n ==> #[trigger] positions@[j] == caps[j].image_logical_position,
            forall|j: int| 0 <= j < n ==> #[trigger] sizes@[j] == caps[j].image_logical_size,
            forall|j: int| 0 <= j < n ==> #[trigger] scaled@[j]@ == oc_scaled(caps[j]),
            forall|j: int|
                0 <= j < n ==> #[trigger] scaled@[j]@.len() == caps[j].image_logical_size.width
                    * caps[j].image_logical_size.height * 4,
            li == spec_min_left(caps, n as int),
            ti == spec_min_top(caps, n as int),
            wi == spec_max_right(caps, n as int) - li,
            hi == spec_max_bottom(caps, n as int) - ti,
            width == wi,
            height == hi,
            ul_x == li,
            ul_y == ti,
            1 <= wi < 0x1_0000_0000,
            1 <= hi < 0x1_0000_0000,
            wi * hi * 4 <= usize::MAX,
            goal == spec_composite_image(caps),
            goal.len() == wi * hi * 4,
            0 <= gy <= height,
            out@.len() == gy * width * 4,
            forall|j: int| 0 <= j < out@.len() ==> out@[j] == goal[j],
        decreases height - gy,
    {
        let mut gx: usize = 0;
        assert(gy * width + width <= height * width) by (nonlinear_arith)
            requires
                0 <= gy < height,
                0 < width,
        ;
        while gx < width
            invariant
                n == caps.len(),
                1 <= n,
                forall|j: int| 0 <= j < caps.len() ==> #[trigger] oc_well_formed(caps[j]),
                scaled@.len() == n,
                positions@.len() == n,
                sizes@.len() == n,
                forall|j: int|
                    0 <= j < n ==> #[trigger] positions@[j] == caps[j].image_logical_position,
                forall|j: int| 0 <= j < n ==> #[trigger] sizes@[j] == caps[j].image_logical_size,
                forall|j: int| 0 <= j < n ==> #[trigger] scaled@[j]@ == oc_scaled(caps[j]),
                forall|j: int|
                    0 <= j < n ==> #[trigger] scaled@[j]@.len()
                        == caps[j].image_logical_size.width * caps[j].image_logical_size.height
                        * 4,
                li == spec_min_left(caps, n as int),
                ti == spec_min_top(caps, n as int),
                wi == spec_max_right(caps, n as int) - li,
                hi == spec_max_bottom(caps, n as int) - ti,
                width == wi,
                height == hi,
                ul_x == li,
                ul_y == ti,
                1 <= wi < 0x1_0000_0000,
                1 <= hi < 0x1_0000_0000,
                wi * hi * 4 <= usize::MAX,
                goal == spec_composite_image(caps),
                goal.len() == wi * hi * 4,
                0 <= gy < height,
                gy * width + width <= height * width,
                0 <= gx <= width,
                out@.len() == (gy * width + gx) * 4,
                forall|j: int| 0 <= j < out@.len() ==> out@[j] == goal[j],
            decreases width - gx,
        {
            let ax = ul_x as i64 + gx as i64;
            let ay = ul_y as i64 + gy as i64;
            let ghost axi = ax as int;
            let ghost ayi = ay as int;

            // Scan for the last capture whose rectangle contains the point.
            let mut found: usize = n;
            let mut c: usize = 0;
            while c < n
                invariant
                    n == caps.len(),
                    positions@.len() == n,
                    sizes@.len() == n,
                    forall|j: int|
                        0 <= j < n ==> #[trigger] positions@[j] == caps[j].image_logical_position,
                    forall|j: int| 0 <= j < n ==> #[trigger] sizes@[j] == caps[j].image_logical_size,
                    forall|j: int| 0 <= j < caps.len() ==> #[trigger] oc_well_formed(caps[j]),
                    0 <= c <= n,
                    axi == ax as int,
                    ayi == ay as int,
                    covering_index(caps, c as int, axi, ayi) < 0 ==> found == n,
                    covering_index(caps, c as int, axi, ayi) >= 0 ==> found == covering_index(
                        caps,
                        c as int,
                        axi,
                        ayi,
                    ),
                    covering_index(caps, c as int, axi, ayi) < c,
                    found < n ==> oc_rect(caps[found as int]).spec_contains_point(axi, ayi),
                decreases n - c,
            {
                proof {
                    assert(oc_well_formed(caps[c as int]));
                }
                let p = positions[c];
                let s = sizes[c];
                if p.x as i64 <= ax && ax < p.x as i64 + s.width as i64 && p.y as i64 <= ay && ay
                    < p.y as i64 + s.height as i64 {
                    found = c;
                }
                c = c + 1;
            }

            let (b0, b1, b2, b3): (u8, u8, u8, u8) = if found < n {
                proof {
                    assert(oc_well_formed(caps[found as int]));
                }
                let p = positions[found];
                let s = sizes[found];
                let lx = (ax - p.x as i64) as usize;
                let ly = (ay - p.y as i64) as usize;
                let lw = s.width as usize;
                proof {
                    lemma_grid_bound(lw as int, s.height as int, lx as int, ly as int);
                    assert(scaled@[found as int]@.len() == lw as int * (s.height as int) * 4);
                }
                let base = 4 * (ly * lw + lx);
                let sb = &scaled[found];
                (sb[base], sb[base + 1], sb[base + 2], sb[base + 3])
            } else {
                (0, 0, 0, 0)
            };

            proof {
                let p = (gy * width + gx) as int;
                lemma_grid_index(width as int, gx as int, gy as int, 0);
                lemma_grid_index(width as int, gx as int, gy as int, 1);
                lemma_grid_index(width as int, gx as int, gy as int, 2);
                lemma_grid_index(width as int, gx as int, gy as int, 3);
                assert(p + 1 <= hi * wi) by (nonlinear_arith)
                    requires
                        0 <= gx < width,
                        gy * width + width <= height * width,
                        p == gy * width + gx,
                        width == wi,
                        height == hi,
                ;
                assert(wi * hi == hi * wi) by (nonlinear_arith);
                assert(goal[4 * p] == b0 && goal[4 * p + 1] == b1 && goal[4 * p + 2] == b2 && goal[
                    4 * p + 3] == b3);
            }
            out.push(b0);
            out.push(b1);
            out.push(b2);
            out.push(b3);
            gx = gx + 1;
        }
        gy = gy + 1;
        assert(((gy - 1) * width + width) * 4 == gy * width * 4) by (nonlinear_arith);
    }
    proof {
        assert(out@.len() == wi * hi * 4) by (nonlinear_arith)
            requires
                out@.len() == gy * width * 4,
                gy == height,
                width == wi,
                height == hi,
        ;
        assert(out@ =~= goal);
        assert forall|x: int, y: int, k: int|
            0 <= x < wi && 0 <= y < hi && 0 <= k < 4 implies out@[#[trigger] byte_index(
            wi,
            x,
            y,
            k,
        )] == spec_composite_byte(caps, li + x, ti + y, k) by {
            lemma_grid_index(wi, x, y, k);
            assert(y * wi + x + 1 <= hi * wi) by (nonlinear_arith)
                requires
                    0 <= x < wi,
                    0 <= y < hi,
            ;
            assert(wi * hi == hi * wi) by (nonlinear_arith);
        }
    }
    Ok(Capture { width, height, pixel_data: out })
}

impl Capture {
    /// The four RGBA bytes of the pixel at `(x, y)`.
    pub fn get_pixel(&self, x: usize, y: usize) -> (r: [u8; 4])
        requires
            x < self.width,
            y < self.height,
            self.width * self.height * 4 <= usize::MAX,
            self.pixel_data@.len() == self.width * self.height * 4,
        ensures
            r@ == self.pixel_data@.subrange(
                4 * (y * self.width + x),
                4 * (y * self.width + x) + 4,
            ),
    {
        proof {
            lemma_grid_bound(self.width as int, self.height as int, x as int, y as int);
        }
        let base = 4 * (y * self.width + x);
        let r = [
            self.pixel_data[base],
            self.pixel_data[base + 1],
            self.pixel_data[base + 2],
            self.pixel_data[base + 3],
        ];
        proof {
            assert(r@ =~= self.pixel_data@.subrange(
                4 * (y as int * self.width as int + x as int),
                4 * (y as int * self.width as int + x as int) + 4,
            ));
        }
        r
    }
}

/// Average of the three colour channels with per-channel integer
/// division, as a greyscale consumer of the composite expects; dividing
/// each channel first keeps the sum within a byte.
pub fn grey_value(r: u8, g: u8, b: u8) -> (v: u8)
    ensures
        v == r / 3 + g / 3 + b / 3,
{
    r / 3 + g / 3 + b / 3
}

} // verus!
