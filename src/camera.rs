use vstd::prelude::*;

verus! {

/// Offset of the center of pixel `(u, v)` from the image center, in half
/// pixels, with `x` to the right and `y` up: `(2u + 1 - w, h - 2v - 1)`.
/// Divided by twice the focal length it gives the camera-space direction
/// `(x, y, -1)` of the pixel's ray.
pub open spec fn spec_pixel_offset(w: int, h: int, u: int, v: int) -> (int, int) {
    (2 * u + 1 - w, h - 2 * v - 1)
}

/// Index of the ray of pixel `(u, v)`: rows from the top, pixels from the
/// left.
pub open spec fn ray_index(w: int, u: int, v: int) -> int {
    v * w + u
}

/// Doubled camera-plane offset of pixel `(u, v)` in a `w` by `h` image.
pub fn pixel_offset(w: u32, h: u32, u: u32, v: u32) -> (r: (i64, i64))
    requires
        u < w,
        v < h,
    ensures
        (r.0 as int, r.1 as int) == spec_pixel_offset(w as int, h as int, u as int, v as int),
{
    (2 * (u as i64) + 1 - (w as i64), (h as i64) - 2 * (v as i64) - 1)
}

proof fn lemma_ray_index_bounds(w: int, h: int, u: int, v: int)
    requires
        0 <= u < w,
        0 <= v < h,
    ensures
        0 <= ray_index(w, u, v) < w * h,
        ray_index(w, u, v) == ray_index(w, 0, v) + u,
        ray_index(w, 0, v + 1) == ray_index(w, 0, v) + w,
{
    assert(v * w + u < w * h) by (nonlinear_arith)
        requires 0 <= u < w, 0 <= v < h;
    assert(0 <= v * w) by (nonlinear_arith)
        requires 0 <= v, 0 <= w;
    assert((v + 1) * w == v * w + w) by (nonlinear_arith);
}

/// Offsets of all pixels of a `w` by `h` image, one per ray, in ray order.
pub fn pixel_offsets(w: u32, h: u32) -> (r: Vec<(i64, i64)>)
    requires
        w as int * h as int <= usize::MAX,
    ensures
        r@.len() == w as int * h as int,
        forall|u: int, v: int|
            0 <= u < w && 0 <= v < h ==> (#[trigger] r@[ray_index(w as int, u, v)].0 as int, r@[ray_index(
                w as int,
                u,
                v,
            )].1 as int) == spec_pixel_offset(w as int, h as int, u, v),
{
    let mut out: Vec<(i64, i64)> = Vec::new();
    let mut v: u32 = 0;
    while v < h
        invariant
            0 <= v <= h,
            out@.len() == v as int * w as int,
            forall|uu: int, vv: int|
                0 <= uu < w && 0 <= vv < v ==> (#[trigger] out@[ray_index(w as int, uu, vv)].0 as int,
                out@[ray_index(w as int, uu, vv)].1 as int) == spec_pixel_offset(
                    w as int,
                    h as int,
                    uu,
                    vv,
                ),
        decreases h - v,
    {
        let ghost row_start = out@.len();
        let mut u: u32 = 0;
        while u < w
            invariant
                0 <= v < h,
                0 <= u <= w,
                row_start == v as int * w as int,
                out@.len() == row_start + u,
                forall|uu: int, vv: int|
                    0 <= uu < w && 0 <= vv < v ==> (#[trigger] out@[ray_index(w as int, uu, vv)].0 as int,
                    out@[ray_index(w as int, uu, vv)].1 as int) == spec_pixel_offset(
                        w as int,
                        h as int,
                        uu,
                        vv,
                    ),
                forall|uu: int|
                    0 <= uu < u ==> (#[trigger] out@[ray_index(w as int, uu, v as int)].0 as int,
                    out@[ray_index(w as int, uu, v as int)].1 as int) == spec_pixel_offset(
                        w as int,
                        h as int,
                        uu,
                        v as int,
                    ),
            decreases w - u,
        {
            let ghost prev = out@;
            let o = pixel_offset(w, h, u, v);
            out.push(o);
            proof {
                lemma_ray_index_bounds(w as int, h as int, u as int, v as int);
                assert forall|uu: int, vv: int|
                    0 <= uu < w && 0 <= vv < v implies (#[trigger] out@[ray_index(w as int, uu, vv)].0 as int,
                    out@[ray_index(w as int, uu, vv)].1 as int) == spec_pixel_offset(
                        w as int,
                        h as int,
                        uu,
                        vv,
                    ) by {
                    lemma_ray_index_bounds(w as int, h as int, uu, vv);
                    assert(ray_index(w as int, 0, vv + 1) <= ray_index(w as int, 0, v as int)) by (nonlinear_arith)
                        requires vv + 1 <= v, w >= 0;
                    assert(out@[ray_index(w as int, uu, vv)] == prev[ray_index(w as int, uu, vv)]);
                }
                assert forall|uu: int|
                    0 <= uu < u + 1 implies (#[trigger] out@[ray_index(w as int, uu, v as int)].0 as int,
                    out@[ray_index(w as int, uu, v as int)].1 as int) == spec_pixel_offset(
                        w as int,
                        h as int,
                        uu,
                        v as int,
                    ) by {
                    lemma_ray_index_bounds(w as int, h as int, uu, v as int);
                    if uu < u {
                        assert(out@[ray_index(w as int, uu, v as int)] == prev[ray_index(w as int, uu, v as int)]);
                    }
                }
            }
            u = u + 1;
        }
        proof {
            assert((v + 1) as int * w as int == v as int * w as int + w as int) by (nonlinear_arith);
            assert forall|uu: int, vv: int|
                0 <= uu < w && 0 <= vv < v + 1 implies (#[trigger] out@[ray_index(w as int, uu, vv)].0 as int,
                out@[ray_index(w as int, uu, vv)].1 as int) == spec_pixel_offset(
                    w as int,
                    h as int,
                    uu,
                    vv,
                ) by {}
        }
        v = v + 1;
    }
    assert(h as int * w as int == w as int * h as int) by (nonlinear_arith);
    out
}

/// Two different pixels of one frame never share a ray: their camera-plane
/// offsets differ, so their directions before rotation differ.
pub proof fn distinct_pixels_distinct_offsets(w: int, h: int, u1: int, v1: int, u2: int, v2: int)
    requires
        0 <= u1 < w,
        0 <= v1 < h,
        0 <= u2 < w,
        0 <= v2 < h,
        u1 != u2 || v1 != v2,
    ensures
        spec_pixel_offset(w, h, u1, v1) != spec_pixel_offset(w, h, u2, v2),
        ray_index(w, u1, v1) != ray_index(w, u2, v2),
{
    if v1 == v2 {
    } else if v1 < v2 {
        assert(v1 * w + u1 < v2 * w + u2) by (nonlinear_arith)
            requires v1 < v2, 0 <= u1 < w, 0 <= u2;
    } else {
        assert(v2 * w + u2 < v1 * w + u1) by (nonlinear_arith)
            requires v2 < v1, 0 <= u2 < w, 0 <= u1;
    }
}

} // verus!
