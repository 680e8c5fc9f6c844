//! BGRA to I420 pixel conversion, BT.601 limited range.
//!
//! For each pixel `(b, g, r)` (alpha is discarded):
//!
//! ```text
//! Y = clamp(((66*r + 129*g +  25*b + 128) >> 8) +  16, 0, 255)
//! U = clamp(((-38*r -  74*g + 112*b + 128) >> 8) + 128, 0, 255)
//! V = clamp(((112*r -  94*g -  18*b + 128) >> 8) + 128, 0, 255)
//! ```
//!
//! with U and V sampled at even `(x, y)` only (2x2 subsampling).  The spec
//! functions below fold the trailing offset into the numerator before the
//! division: `((n + 128) >> 8) + k` equals `(n + 128 + 256*k) >> 8` exactly,
//! the shift being a floor division by 256.  With the offset folded in, the
//! numerator is nonnegative for every input byte and the result always lies
//! in `16..=235` (Y) or `16..=240` (U, V), so the clamp of the original
//! formula never binds; the arithmetic here is bit-for-bit the same.

use vstd::prelude::*;

verus! {

/// Luma of one pixel: `(66*r + 129*g + 25*b + 128 + 256*16) / 256`.
pub open spec fn y_of(r: u8, g: u8, b: u8) -> int {
    (4224 + 66 * r + 129 * g + 25 * b) / 256
}

/// Blue-difference chroma of one pixel:
/// `(-38*r - 74*g + 112*b + 128 + 256*128) / 256`.
pub open spec fn u_of(r: u8, g: u8, b: u8) -> int {
    (32896 + 112 * b - 38 * r - 74 * g) / 256
}

/// Red-difference chroma of one pixel:
/// `(112*r - 94*g - 18*b + 128 + 256*128) / 256`.
pub open spec fn v_of(r: u8, g: u8, b: u8) -> int {
    (32896 + 112 * r - 94 * g - 18 * b) / 256
}

/// The three conversions stay within a byte (in fact within the BT.601
/// limited ranges), so the clamp of the textbook formula never binds.
pub proof fn lemma_yuv_in_range(r: u8, g: u8, b: u8)
    ensures
        0 <= y_of(r, g, b) <= 255,
        0 <= u_of(r, g, b) <= 255,
        0 <= v_of(r, g, b) <= 255,
{
}

/// Blue byte of pixel `p` in a BGRA buffer.
pub open spec fn pixel_b(bgra: Seq<u8>, p: int) -> u8 {
    bgra[4 * p]
}

/// Green byte of pixel `p` in a BGRA buffer.
pub open spec fn pixel_g(bgra: Seq<u8>, p: int) -> u8 {
    bgra[4 * p + 1]
}

/// Red byte of pixel `p` in a BGRA buffer.
pub open spec fn pixel_r(bgra: Seq<u8>, p: int) -> u8 {
    bgra[4 * p + 2]
}

/// Luma of pixel `p` of a BGRA buffer.
pub open spec fn pixel_y(bgra: Seq<u8>, p: int) -> u8 {
    y_of(pixel_r(bgra, p), pixel_g(bgra, p), pixel_b(bgra, p)) as u8
}

/// Blue-difference chroma of pixel `p` of a BGRA buffer.
pub open spec fn pixel_u(bgra: Seq<u8>, p: int) -> u8 {
    u_of(pixel_r(bgra, p), pixel_g(bgra, p), pixel_b(bgra, p)) as u8
}

/// Red-difference chroma of pixel `p` of a BGRA buffer.
pub open spec fn pixel_v(bgra: Seq<u8>, p: int) -> u8 {
    v_of(pixel_r(bgra, p), pixel_g(bgra, p), pixel_b(bgra, p)) as u8
}

/// The luma plane of a `w` by `h` BGRA image, row-major.
pub open spec fn spec_y_plane(bgra: Seq<u8>, w: int, h: int) -> Seq<u8> {
    Seq::new((w * h) as nat, |p: int| pixel_y(bgra, p))
}

/// Entry `(r, c)` of the subsampled U plane holds the chroma of source
/// pixel `(2*c, 2*r)`.
pub open spec fn u_entry_ok(u: Seq<u8>, bgra: Seq<u8>, w: int, r: int, c: int) -> bool {
    u[r * (w / 2) + c] == pixel_u(bgra, 2 * r * w + 2 * c)
}

/// Entry `(r, c)` of the subsampled V plane holds the chroma of source
/// pixel `(2*c, 2*r)`.
pub open spec fn v_entry_ok(v: Seq<u8>, bgra: Seq<u8>, w: int, r: int, c: int) -> bool {
    v[r * (w / 2) + c] == pixel_v(bgra, 2 * r * w + 2 * c)
}

/// The whole subsampled U plane of a `w` by `h` BGRA image: one entry per
/// 2x2 block, row-major over the half-resolution grid.
pub open spec fn u_plane_ok(u: Seq<u8>, bgra: Seq<u8>, w: int, h: int) -> bool {
    &&& u.len() == (w / 2) * (h / 2)
    &&& forall|r: int, c: int|
        0 <= r < h / 2 && 0 <= c < w / 2 ==> #[trigger] u_entry_ok(u, bgra, w, r, c)
}

/// The whole subsampled V plane of a `w` by `h` BGRA image.
pub open spec fn v_plane_ok(v: Seq<u8>, bgra: Seq<u8>, w: int, h: int) -> bool {
    &&& v.len() == (w / 2) * (h / 2)
    &&& forall|r: int, c: int|
        0 <= r < h / 2 && 0 <= c < w / 2 ==> #[trigger] v_entry_ok(v, bgra, w, r, c)
}

/// Row-major grid indices are within the grid's flattened length.
proof fn lemma_grid_bound(q: int, r: int, c: int, rmax: int)
    by (nonlinear_arith)
    requires
        q > 0,
        0 <= c < q,
        0 <= r < rmax,
    ensures
        0 <= r * q + c < rmax * q,
        r * q + c < q * rmax,
{
}

/// Halving an even number: the floor divisions around it are exact.
proof fn lemma_even_halves(a: int)
    by (nonlinear_arith)
    requires
        a >= 0,
        a % 2 == 0,
    ensures
        (a + 1) / 2 == a / 2,
        (a + 2) / 2 == a / 2 + 1,
        2 * (a / 2) == a,
{
}

/// Halving an odd number: the next even number shares its half-open bound.
proof fn lemma_odd_halves(a: int)
    by (nonlinear_arith)
    requires
        a >= 0,
        a % 2 == 1,
    ensures
        (a + 2) / 2 == (a + 1) / 2,
        (a + 1) / 2 == a / 2 + 1,
{
}

/// Floor division by two is monotone.
proof fn lemma_div2_mono(a: int, b: int)
    by (nonlinear_arith)
    requires
        a <= b,
    ensures
        a / 2 <= b / 2,
{
}

/// Row-major grid indexing is injective.
proof fn lemma_grid_injective(q: int, r1: int, c1: int, r2: int, c2: int)
    by (nonlinear_arith)
    requires
        q > 0,
        0 <= c1 < q,
        0 <= c2 < q,
        r1 * q + c1 == r2 * q + c2,
    ensures
        r1 == r2,
        c1 == c2,
{
}

/// Luma of one pixel, exactly `y_of`.
pub fn y_value(r: u8, g: u8, b: u8) -> (res: u8)
    ensures
        res as int == y_of(r, g, b),
{
    let n: u32 = 4224 + 66 * (r as u32) + 129 * (g as u32) + 25 * (b as u32);
    (n / 256) as u8
}

/// Blue-difference chroma of one pixel, exactly `u_of`.
pub fn u_value(r: u8, g: u8, b: u8) -> (res: u8)
    ensures
        res as int == u_of(r, g, b),
{
    let n: u32 = 32896 + 112 * (b as u32) - 38 * (r as u32) - 74 * (g as u32);
    (n / 256) as u8
}

/// Red-difference chroma of one pixel, exactly `v_of`.
pub fn v_value(r: u8, g: u8, b: u8) -> (res: u8)
    ensures
        res as int == v_of(r, g, b),
{
    let n: u32 = 32896 + 112 * (r as u32) - 94 * (g as u32) - 18 * (b as u32);
    (n / 256) as u8
}

/// Convert a `width` by `height` BGRA image into the three pre-allocated
/// I420 planes: full-resolution luma, and chroma sampled at even `(x, y)`
/// into half-resolution planes.  Identical input bytes yield byte-identical
/// planes: the contract pins every output byte to a function of the input.
#[verifier::loop_isolation(false)]
pub fn bgra_to_i420(
    bgra: &[u8],
    width: usize,
    height: usize,
    y_plane: &mut Vec<u8>,
    u_plane: &mut Vec<u8>,
    v_plane: &mut Vec<u8>,
)
    requires
        width % 2 == 0,
        height % 2 == 0,
        width * height * 4 <= usize::MAX,
        width * height * 4 <= bgra@.len(),
        old(y_plane)@.len() == width * height,
        old(u_plane)@.len() == (width / 2) * (height / 2),
        old(v_plane)@.len() == (width / 2) * (height / 2),
    ensures
        final(y_plane)@ == spec_y_plane(bgra@, width as int, height as int),
        u_plane_ok(final(u_plane)@, bgra@, width as int, height as int),
        v_plane_ok(final(v_plane)@, bgra@, width as int, height as int),
{
    let w = width;
    let h = height;
    let mut yy: usize = 0;
    while yy < h
        invariant
            yy <= h,
            y_plane@.len() == w * h,
            u_plane@.len() == (w / 2) * (h / 2),
            v_plane@.len() == (w / 2) * (h / 2),
            forall|p: int| 0 <= p < yy * w ==> y_plane@[p] == pixel_y(bgra@, p),
            forall|r: int, c: int|
                0 <= r < (yy + 1) / 2 && 0 <= c < w / 2 ==> #[trigger] u_entry_ok(
                    u_plane@,
                    bgra@,
                    w as int,
                    r,
                    c,
                ),
            forall|r: int, c: int|
                0 <= r < (yy + 1) / 2 && 0 <= c < w / 2 ==> #[trigger] v_entry_ok(
                    v_plane@,
                    bgra@,
                    w as int,
                    r,
                    c,
                ),
        decreases h - yy,
    {
        let mut x: usize = 0;
        while x < w
            invariant
                x <= w,
                yy < h,
                y_plane@.len() == w * h,
                u_plane@.len() == (w / 2) * (h / 2),
                v_plane@.len() == (w / 2) * (h / 2),
                forall|p: int| 0 <= p < yy * w + x ==> y_plane@[p] == pixel_y(bgra@, p),
                forall|r: int, c: int|
                    0 <= r < (yy + 1) / 2 && 0 <= c < w / 2 ==> #[trigger] u_entry_ok(
                        u_plane@,
                        bgra@,
                        w as int,
                        r,
                        c,
                    ),
                forall|r: int, c: int|
                    0 <= r < (yy + 1) / 2 && 0 <= c < w / 2 ==> #[trigger] v_entry_ok(
                        v_plane@,
                        bgra@,
                        w as int,
                        r,
                        c,
                    ),
                yy % 2 == 0 ==> forall|c: int|
                    0 <= c < (x + 1) / 2 ==> #[trigger] u_entry_ok(
                        u_plane@,
                        bgra@,
                        w as int,
                        yy as int / 2,
                        c,
                    ),
                yy % 2 == 0 ==> forall|c: int|
                    0 <= c < (x + 1) / 2 ==> #[trigger] v_entry_ok(
                        v_plane@,
                        bgra@,
                        w as int,
                        yy as int / 2,
                        c,
                    ),
            decreases w - x,
        {
            proof {
                lemma_grid_bound(w as int, yy as int, x as int, h as int);
                assert(0 <= (w as int) * (h as int)) by (nonlinear_arith);
            }
            let p = yy * w + x;
            let idx = p * 4;
            let b = bgra[idx];
            let g = bgra[idx + 1];
            let r = bgra[idx + 2];
            y_plane.set(p, y_value(r, g, b));
            proof {
                assert(y_plane@[p as int] == pixel_y(bgra@, p as int));
            }
            if yy % 2 == 0 && x % 2 == 0 {
                let half_w = w / 2;
                proof {
                    lemma_grid_bound(half_w as int, yy as int / 2, x as int / 2, h as int / 2);
                    assert((w as int / 2) * (h as int / 2) <= (w as int) * (h as int))
                        by (nonlinear_arith);
                }
                let uv_idx = (yy / 2) * half_w + x / 2;
                let ghost u_before = u_plane@;
                let ghost v_before = v_plane@;
                u_plane.set(uv_idx, u_value(r, g, b));
                v_plane.set(uv_idx, v_value(r, g, b));
                proof {
                    let wi = w as int;
                    let hi = h as int;
                    let ri = yy as int / 2;
                    let ci = x as int / 2;
                    lemma_even_halves(yy as int);
                    lemma_even_halves(x as int);
                    lemma_even_halves(wi);
                    lemma_even_halves(hi);
                    lemma_div2_mono(yy as int + 2, hi);
                    assert(ri < hi / 2);
                    assert(2 * ri * wi + 2 * ci == yy * w + x) by (nonlinear_arith)
                        requires
                            2 * ri == yy as int,
                            2 * ci == x as int,
                            wi == w as int,
                    ;
                    assert(uv_idx == ri * (wi / 2) + ci);
                    assert(u_entry_ok(u_plane@, bgra@, wi, ri, ci));
                    assert(v_entry_ok(v_plane@, bgra@, wi, ri, ci));
                    assert forall|r2: int, c2: int|
                        0 <= r2 < (yy + 1) / 2 && 0 <= c2 < w / 2 implies #[trigger] u_entry_ok(
                        u_plane@,
                        bgra@,
                        w as int,
                        r2,
                        c2,
                    ) by {
                        lemma_grid_bound(wi / 2, r2, c2, hi / 2);
                        if r2 * (wi / 2) + c2 == ri * (wi / 2) + ci {
                            lemma_grid_injective(wi / 2, r2, c2, ri, ci);
                            assert(false);
                        } else {
                            assert(u_entry_ok(u_before, bgra@, wi, r2, c2));
                            assert(u_plane@[r2 * (wi / 2) + c2] == u_before[r2 * (wi / 2) + c2]);
                        }
                    }
                    assert forall|r2: int, c2: int|
                        0 <= r2 < (yy + 1) / 2 && 0 <= c2 < w / 2 implies #[trigger] v_entry_ok(
                        v_plane@,
                        bgra@,
                        w as int,
                        r2,
                        c2,
                    ) by {
                        lemma_grid_bound(wi / 2, r2, c2, hi / 2);
                        if r2 * (wi / 2) + c2 == ri * (wi / 2) + ci {
                            lemma_grid_injective(wi / 2, r2, c2, ri, ci);
                            assert(false);
                        } else {
                            assert(v_entry_ok(v_before, bgra@, wi, r2, c2));
                            assert(v_plane@[r2 * (wi / 2) + c2] == v_before[r2 * (wi / 2) + c2]);
                        }
                    }
                    assert forall|c2: int| 0 <= c2 < (x + 2) / 2 implies #[trigger] u_entry_ok(
                        u_plane@,
                        bgra@,
                        w as int,
                        yy as int / 2,
                        c2,
                    ) by {
                        if c2 != ci {
                            assert(c2 <= ci);
                            assert(c2 < (x + 1) / 2);
                            assert(ri * (wi / 2) + c2 != ri * (wi / 2) + ci);
                            assert(u_entry_ok(u_before, bgra@, wi, ri, c2));
                            lemma_grid_bound(wi / 2, ri, c2, hi / 2);
                            assert(u_plane@[ri * (wi / 2) + c2] == u_before[ri * (wi / 2) + c2]);
                        }
                    }
                    assert forall|c2: int| 0 <= c2 < (x + 2) / 2 implies #[trigger] v_entry_ok(
                        v_plane@,
                        bgra@,
                        w as int,
                        yy as int / 2,
                        c2,
                    ) by {
                        if c2 != ci {
                            assert(c2 <= ci);
                            assert(c2 < (x + 1) / 2);
                            assert(ri * (wi / 2) + c2 != ri * (wi / 2) + ci);
                            assert(v_entry_ok(v_before, bgra@, wi, ri, c2));
                            lemma_grid_bound(wi / 2, ri, c2, hi / 2);
                            assert(v_plane@[ri * (wi / 2) + c2] == v_before[ri * (wi / 2) + c2]);
                        }
                    }
                }
            }
            proof {
                if yy % 2 == 0 && x % 2 == 1 {
                    lemma_odd_halves(x as int);
                }
            }
            x = x + 1;
        }
        proof {
            assert(yy * w + w == (yy + 1) * w) by (nonlinear_arith);
            let wi = w as int;
            if yy % 2 == 0 {
                lemma_even_halves(yy as int);
                lemma_even_halves(wi);
                assert forall|r2: int, c2: int|
                    0 <= r2 < (yy + 2) / 2 && 0 <= c2 < w / 2 implies #[trigger] u_entry_ok(
                    u_plane@,
                    bgra@,
                    w as int,
                    r2,
                    c2,
                ) by {
                    if r2 < (yy + 1) / 2 {
                    } else {
                        assert(r2 == yy as int / 2);
                        assert(c2 < (w + 1) / 2);
                        assert(u_entry_ok(u_plane@, bgra@, wi, yy as int / 2, c2));
                    }
                }
                assert forall|r2: int, c2: int|
                    0 <= r2 < (yy + 2) / 2 && 0 <= c2 < w / 2 implies #[trigger] v_entry_ok(
                    v_plane@,
                    bgra@,
                    w as int,
                    r2,
                    c2,
                ) by {
                    if r2 < (yy + 1) / 2 {
                    } else {
                        assert(r2 == yy as int / 2);
                        assert(c2 < (w + 1) / 2);
                        assert(v_entry_ok(v_plane@, bgra@, wi, yy as int / 2, c2));
                    }
                }
            } else {
                lemma_odd_halves(yy as int);
            }
        }
        yy = yy + 1;
    }
    proof {
        assert((h as int) * (w as int) == (w as int) * (h as int)) by (nonlinear_arith);
        assert(y_plane@ =~= spec_y_plane(bgra@, width as int, height as int));
    }
}

/// Identical input bytes yield byte-identical planes: any two outputs that
/// meet `bgra_to_i420`'s contract for the same input are equal.
pub proof fn lemma_i420_deterministic(
    bgra: Seq<u8>,
    w: int,
    h: int,
    y1: Seq<u8>,
    u1: Seq<u8>,
    v1: Seq<u8>,
    y2: Seq<u8>,
    u2: Seq<u8>,
    v2: Seq<u8>,
)
    requires
        y1 == spec_y_plane(bgra, w, h),
        y2 == spec_y_plane(bgra, w, h),
        u_plane_ok(u1, bgra, w, h),
        u_plane_ok(u2, bgra, w, h),
        v_plane_ok(v1, bgra, w, h),
        v_plane_ok(v2, bgra, w, h),
        w >= 0,
        h >= 0,
    ensures
        y1 == y2,
        u1 == u2,
        v1 == v2,
{
    let q = w / 2;
    assert(u1.len() > 0 ==> q > 0 && h / 2 > 0) by (nonlinear_arith)
        requires
            u1.len() == q * (h / 2),
            q >= 0,
            h / 2 >= 0,
    ;
    assert forall|k: int| 0 <= k < u1.len() implies u1[k] == u2[k] && v1[k] == v2[k] by {
        let r = k / q;
        let c = k % q;
        lemma_grid_unflatten(k, q, h / 2);
        assert(u_entry_ok(u1, bgra, w, r, c));
        assert(u_entry_ok(u2, bgra, w, r, c));
        assert(v_entry_ok(v1, bgra, w, r, c));
        assert(v_entry_ok(v2, bgra, w, r, c));
    }
    assert(u1 =~= u2);
    assert(v1 =~= v2);
}

/// For `0 <= k < rmax * q`, the row `k / q` and column `k % q` recover `k`
/// and lie inside the grid.
proof fn lemma_grid_unflatten(k: int, q: int, rmax: int)
    by (nonlinear_arith)
    requires
        q > 0,
        rmax > 0,
        0 <= k < rmax * q,
    ensures
        0 <= k % q < q,
        0 <= k / q < rmax,
        (k / q) * q + k % q == k,
{
}

} // verus!
