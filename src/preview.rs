use vstd::prelude::*;

use crate::arith::{lemma_flat_split, lemma_grid_index, lemma_grid_split};

verus! {

/// The default bound on a preview's sides.
pub const PREVIEW_MAX_SIZE: usize = 256;

/// `a / b` rounded to the nearest integer, halves rounded up (for `a >= 0`,
/// `b > 0`).
pub open spec fn rounded_ratio(a: int, b: int) -> int {
    a / b + if 2 * (a % b) >= b {
        1int
    } else {
        0int
    }
}

/// A preview side for an image side `d` whose longest side is `longest`:
/// `max(1, round(d * min(1, max_dim / longest)))`.
pub open spec fn preview_extent(d: int, longest: int, max_dim: int) -> int {
    let r = if longest <= max_dim {
        d
    } else {
        rounded_ratio(d * max_dim, longest)
    };
    if r < 1 {
        1
    } else {
        r
    }
}

/// Nearest-neighbour resampling of a `sw x sh` map to `dw x dh`: destination
/// pixel `(x, y)` takes source pixel `(x * sw / dw, y * sh / dh)`.
pub open spec fn resized(src: Seq<i64>, sw: int, sh: int, dw: int, dh: int) -> Seq<i64> {
    Seq::new(
        (dw * dh) as nat,
        |i: int| src[((i / dw) * sh / dh) * sw + (i % dw) * sw / dw],
    )
}

pub open spec fn min_of(s: Seq<i64>) -> i64
    recommends
        s.len() > 0,
    decreases s.len(),
{
    if s.len() <= 1 {
        s[0]
    } else {
        let m = min_of(s.drop_last());
        if s.last() < m {
            s.last()
        } else {
            m
        }
    }
}

pub open spec fn max_of(s: Seq<i64>) -> i64
    recommends
        s.len() > 0,
    decreases s.len(),
{
    if s.len() <= 1 {
        s[0]
    } else {
        let m = max_of(s.drop_last());
        if s.last() > m {
            s.last()
        } else {
            m
        }
    }
}

/// Smallest and largest value of `s`; `(0, 0)` for an empty sequence.
pub open spec fn value_range(s: Seq<i64>) -> (i64, i64) {
    if s.len() == 0 {
        (0, 0)
    } else {
        (min_of(s), max_of(s))
    }
}

/// The display byte of `v` when values span `lo ..= hi`:
/// `clamp(round((v - lo) / range * 255), 0, 255)` with
/// `range = max(hi - lo, 1e-6)`. Values are in units far above `1e-6`, so the
/// floor only matters for a constant map (`hi == lo`), whose value maps to 0.
pub open spec fn byte_of(v: int, lo: int, hi: int) -> int {
    if v <= lo {
        0
    } else if v >= hi {
        255
    } else {
        rounded_ratio((v - lo) * 255, hi - lo)
    }
}

/// The preview bytes of a `width x height` response map bounded by `max_dim`.
pub open spec fn preview_bytes(src: Seq<i64>, width: int, height: int, max_dim: int) -> Seq<u8> {
    let longest = if width >= height {
        width
    } else {
        height
    };
    let rs = resized(
        src,
        width,
        height,
        preview_extent(width, longest, max_dim),
        preview_extent(height, longest, max_dim),
    );
    let (lo, hi) = value_range(rs);
    Seq::new(rs.len(), |i: int| byte_of(rs[i] as int, lo as int, hi as int) as u8)
}

/// Rounding `d * k / m` never goes past `k` when `d <= m`.
pub proof fn lemma_rounded_le(d: int, k: int, m: int)
    requires
        0 < m,
        0 <= d <= m,
        0 <= k,
    ensures
        0 <= rounded_ratio(d * k, m) <= k,
{
    let a = d * k;
    assert(0 <= a) by (nonlinear_arith)
        requires
            a == d * k,
            0 <= d,
            0 <= k,
    ;
    vstd::arithmetic::div_mod::lemma_fundamental_div_mod(a, m);
    let q = a / m;
    let r = a % m;
    assert(0 <= q) by (nonlinear_arith)
        requires
            a == m * q + r,
            0 <= a,
            r < m,
            0 < m,
    ;
    if d == m {
        assert(a == k * m + 0) by (nonlinear_arith)
            requires
                a == d * k,
                d == m,
        ;
        vstd::arithmetic::div_mod::lemma_fundamental_div_mod_converse(a, m, k, 0);
    } else if k == 0 {
        assert(a == 0 * m + 0) by (nonlinear_arith)
            requires
                a == d * k,
                k == 0,
        ;
        vstd::arithmetic::div_mod::lemma_fundamental_div_mod_converse(a, m, 0, 0);
    } else {
        assert(a <= m * k - k) by (nonlinear_arith)
            requires
                a == d * k,
                d <= m - 1,
                0 < k,
        ;
        if q >= k {
            assert(m * q >= m * k) by (nonlinear_arith)
                requires
                    q >= k,
                    0 < m,
            ;
        }
        assert(q + 1 <= k);
    }
}

/// A source coordinate picked for destination coordinate `x < d` lies in
/// `0 .. s`.
pub proof fn lemma_scaled_index(x: int, s: int, d: int)
    requires
        0 <= x < d,
        0 < s,
    ensures
        0 <= x * s / d < s,
{
    let a = x * s;
    assert(0 <= a) by (nonlinear_arith)
        requires
            a == x * s,
            0 <= x,
            0 < s,
    ;
    vstd::arithmetic::div_mod::lemma_fundamental_div_mod(a, d);
    let q = a / d;
    let r = a % d;
    assert(0 <= q < s) by (nonlinear_arith)
        requires
            a == d * q + r,
            a == x * s,
            0 <= r < d,
            0 <= x < d,
            0 < s,
    ;
}

/// Preview sides stay within `1 ..= max_dim` and never exceed the image's
/// own sides, for any image of at least one pixel and any bound of at least
/// one.
pub proof fn lemma_preview_extent_bounds(width: int, height: int, max_dim: int)
    requires
        width >= 1,
        height >= 1,
        max_dim >= 1,
    ensures
        ({
            let longest = if width >= height {
                width
            } else {
                height
            };
            &&& 1 <= preview_extent(width, longest, max_dim) <= max_dim
            &&& 1 <= preview_extent(height, longest, max_dim) <= max_dim
            &&& preview_extent(width, longest, max_dim) <= width
            &&& preview_extent(height, longest, max_dim) <= height
        }),
{
    let longest = if width >= height {
        width
    } else {
        height
    };
    lemma_extent_bounds(width, longest, max_dim);
    lemma_extent_bounds(height, longest, max_dim);
}

proof fn lemma_extent_bounds(d: int, longest: int, max_dim: int)
    requires
        1 <= d <= longest,
        max_dim >= 0,
    ensures
        1 <= preview_extent(d, longest, max_dim) <= d,
        max_dim >= 1 ==> preview_extent(d, longest, max_dim) <= max_dim,
{
    if longest > max_dim {
        lemma_rounded_le(d, max_dim, longest);
        lemma_rounded_le(max_dim, d, longest);
        assert(d * max_dim == max_dim * d) by (nonlinear_arith);
    }
}

/// The product of two `usize` values fits in a `u128`.
proof fn lemma_wide_product(a: int, b: int)
    requires
        0 <= a <= usize::MAX,
        0 <= b <= usize::MAX,
    ensures
        0 <= a * b <= u128::MAX,
{
    assert(0 <= a * b <= usize::MAX * usize::MAX) by (nonlinear_arith)
        requires
            0 <= a <= usize::MAX,
            0 <= b <= usize::MAX,
    ;
}

/// One preview side; see `preview_extent`.
pub fn preview_side(d: usize, longest: usize, max_dim: usize) -> (r: usize)
    requires
        d <= longest,
    ensures
        r == preview_extent(d as int, longest as int, max_dim as int),
{
    let v: usize = if longest <= max_dim {
        d
    } else {
        proof {
            lemma_wide_product(d as int, max_dim as int);
        }
        let a: u128 = (d as u128) * (max_dim as u128);
        let q: u128 = a / (longest as u128);
        let rem: u128 = a % (longest as u128);
        let up: u128 = if 2 * rem >= longest as u128 {
            1
        } else {
            0
        };
        proof {
            lemma_rounded_le(d as int, max_dim as int, longest as int);
        }
        (q + up) as usize
    };
    if v < 1 {
        1
    } else {
        v
    }
}

/// Nearest-neighbour resampling; see `resized`.
pub fn resize_nearest(src: &Vec<i64>, src_w: usize, src_h: usize, dst_w: usize, dst_h: usize) -> (r:
    Vec<i64>)
    requires
        src@.len() == src_w * src_h,
        src_w > 0,
        src_h > 0,
        dst_w > 0,
        dst_h > 0,
        dst_w * dst_h <= usize::MAX,
    ensures
        r@ == resized(src@, src_w as int, src_h as int, dst_w as int, dst_h as int),
{
    let ghost target = resized(src@, src_w as int, src_h as int, dst_w as int, dst_h as int);
    let n = src.len();
    let mut out: Vec<i64> = Vec::new();
    let mut y: usize = 0;
    while y < dst_h
        invariant
            src@.len() == src_w * src_h,
            n == src@.len(),
            src_w > 0,
            src_h > 0,
            dst_w > 0,
            dst_h > 0,
            dst_w * dst_h <= usize::MAX,
            target == resized(src@, src_w as int, src_h as int, dst_w as int, dst_h as int),
            y <= dst_h,
            out@.len() == y * dst_w,
            forall|i: int| 0 <= i < out@.len() ==> #[trigger] out@[i] == target[i],
        decreases dst_h - y,
    {
        let mut x: usize = 0;
        proof {
            lemma_scaled_index(y as int, src_h as int, dst_h as int);
            lemma_wide_product(y as int, src_h as int);
        }
        let sy = ((y as u128) * (src_h as u128) / (dst_h as u128)) as usize;
        while x < dst_w
            invariant
                src@.len() == src_w * src_h,
                n == src@.len(),
                src_w > 0,
                src_h > 0,
                dst_w > 0,
                dst_h > 0,
                dst_w * dst_h <= usize::MAX,
                target == resized(src@, src_w as int, src_h as int, dst_w as int, dst_h as int),
                y < dst_h,
                x <= dst_w,
                sy == (y as int) * (src_h as int) / (dst_h as int),
                sy < src_h,
                out@.len() == y * dst_w + x,
                forall|i: int| 0 <= i < out@.len() ==> #[trigger] out@[i] == target[i],
            decreases dst_w - x,
        {
            proof {
                lemma_scaled_index(x as int, src_w as int, dst_w as int);
                lemma_wide_product(x as int, src_w as int);
            }
            let sx = ((x as u128) * (src_w as u128) / (dst_w as u128)) as usize;
            proof {
                lemma_grid_index(sx as int, sy as int, src_w as int, src_h as int);
                vstd::arithmetic::mul::lemma_mul_is_commutative(src_w as int, src_h as int);
                lemma_grid_split(x as int, y as int, dst_w as int);
                lemma_grid_index(x as int, y as int, dst_w as int, dst_h as int);
                vstd::arithmetic::mul::lemma_mul_is_commutative(dst_w as int, dst_h as int);
            }
            out.push(src[sy * src_w + sx]);
            x = x + 1;
        }
        proof {
            assert(y * dst_w + dst_w == (y + 1) * dst_w) by (nonlinear_arith);
        }
        y = y + 1;
    }
    proof {
        vstd::arithmetic::mul::lemma_mul_is_commutative(dst_w as int, dst_h as int);
        assert(out@ =~= target);
    }
    out
}

/// Every value of a non-empty sequence lies between its minimum and maximum.
pub proof fn lemma_range_bounds(s: Seq<i64>)
    requires
        s.len() > 0,
    ensures
        forall|i: int| 0 <= i < s.len() ==> min_of(s) <= #[trigger] s[i] <= max_of(s),
    decreases s.len(),
{
    if s.len() > 1 {
        lemma_range_bounds(s.drop_last());
        assert forall|i: int| 0 <= i < s.len() implies min_of(s) <= #[trigger] s[i] <= max_of(
            s,
        ) by {
            if i < s.len() - 1 {
                assert(s[i] == s.drop_last()[i]);
            }
        }
    }
}

/// The minimum and maximum of a sequence whose values all equal `c` are `c`.
proof fn lemma_constant_range(s: Seq<i64>, c: i64)
    requires
        s.len() > 0,
        forall|i: int| 0 <= i < s.len() ==> #[trigger] s[i] == c,
    ensures
        min_of(s) == c,
        max_of(s) == c,
    decreases s.len(),
{
    if s.len() > 1 {
        lemma_constant_range(s.drop_last(), c);
    }
}

/// Smallest and largest value of `values`, `(0, 0)` when it is empty.
pub fn min_max(values: &Vec<i64>) -> (r: (i64, i64))
    ensures
        r == value_range(values@),
{
    if values.len() == 0 {
        return (0, 0);
    }
    let mut lo = values[0];
    let mut hi = values[0];
    let mut i: usize = 1;
    proof {
        assert(values@.take(1).len() == 1);
    }
    while i < values.len()
        invariant
            1 <= i <= values@.len(),
            lo == min_of(values@.take(i as int)),
            hi == max_of(values@.take(i as int)),
        decreases values@.len() - i,
    {
        let v = values[i];
        proof {
            assert(values@.take(i + 1).drop_last() =~= values@.take(i as int));
            assert(values@.take(i + 1).last() == v);
        }
        if v < lo {
            lo = v;
        }
        if v > hi {
            hi = v;
        }
        i = i + 1;
    }
    proof {
        assert(values@.take(i as int) =~= values@);
    }
    (lo, hi)
}

/// The display byte of `v` for values spanning `lo ..= hi`; see `byte_of`.
pub fn normalize_byte(v: i64, lo: i64, hi: i64) -> (r: u8)
    ensures
        r == byte_of(v as int, lo as int, hi as int),
{
    if v <= lo {
        return 0;
    }
    if v >= hi {
        return 255;
    }
    let d: u128 = (v as i128 - lo as i128) as u128;
    let m: u128 = (hi as i128 - lo as i128) as u128;
    let a: u128 = d * 255;
    let q: u128 = a / m;
    let rem: u128 = a % m;
    let up: u128 = if 2 * rem >= m {
        1
    } else {
        0
    };
    proof {
        lemma_rounded_le(d as int, 255, m as int);
    }
    (q + up) as u8
}

/// Downsamples a `width x height` response map so that no side exceeds
/// `max_dim` (nearest neighbour, never enlarging, never below one pixel) and
/// rescales its values to bytes, the smallest value to 0 and the largest to
/// 255. Returns the preview's width, height and row-major bytes.
pub fn build_preview(src: &Vec<i64>, width: usize, height: usize, max_dim: usize) -> (r: (
    usize,
    usize,
    Vec<u8>,
))
    requires
        src@.len() == width * height,
        width >= 1,
        height >= 1,
    ensures
        ({
            let longest = if width >= height {
                width as int
            } else {
                height as int
            };
            &&& r.0 == preview_extent(width as int, longest, max_dim as int)
            &&& r.1 == preview_extent(height as int, longest, max_dim as int)
        }),
        r.2@ == preview_bytes(src@, width as int, height as int, max_dim as int),
{
    let longest = if width >= height {
        width
    } else {
        height
    };
    let out_w = preview_side(width, longest, max_dim);
    let out_h = preview_side(height, longest, max_dim);
    let n = src.len();
    proof {
        lemma_extent_bounds(width as int, longest as int, max_dim as int);
        lemma_extent_bounds(height as int, longest as int, max_dim as int);
        assert(out_w * out_h <= width * height) by (nonlinear_arith)
            requires
                1 <= out_w <= width,
                1 <= out_h <= height,
        ;
    }
    let resized_map = resize_nearest(src, width, height, out_w, out_h);
    let (lo, hi) = min_max(&resized_map);
    let ghost expected = preview_bytes(src@, width as int, height as int, max_dim as int);
    proof {
        if resized_map@.len() > 0 {
            lemma_range_bounds(resized_map@);
        }
    }
    let mut bytes: Vec<u8> = Vec::new();
    let mut i: usize = 0;
    while i < resized_map.len()
        invariant
            i <= resized_map@.len(),
            resized_map@.len() > 0 ==> (lo, hi) == (min_of(resized_map@), max_of(resized_map@)),
            forall|j: int|
                0 <= j < resized_map@.len() ==> lo <= #[trigger] resized_map@[j] <= hi,
            expected.len() == resized_map@.len(),
            forall|j: int|
                0 <= j < resized_map@.len() ==> #[trigger] expected[j] == byte_of(
                    resized_map@[j] as int,
                    lo as int,
                    hi as int,
                ) as u8,
            bytes@.len() == i,
            forall|j: int| 0 <= j < i ==> #[trigger] bytes@[j] == expected[j],
        decreases resized_map@.len() - i,
    {
        let b = normalize_byte(resized_map[i], lo, hi);
        bytes.push(b);
        i = i + 1;
    }
    proof {
        assert(bytes@ =~= expected);
    }
    (out_w, out_h, bytes)
}

/// A response map whose values are all equal previews as a single uniform
/// byte (zero), whatever its size and bound.
pub proof fn lemma_constant_map_uniform_preview(
    src: Seq<i64>,
    width: int,
    height: int,
    max_dim: int,
)
    requires
        width >= 1,
        height >= 1,
        max_dim >= 0,
        src.len() == width * height,
        forall|i: int| 0 <= i < src.len() ==> #[trigger] src[i] == src[0],
    ensures
        forall|i: int|
            0 <= i < preview_bytes(src, width, height, max_dim).len() ==> #[trigger] preview_bytes(
                src,
                width,
                height,
                max_dim,
            )[i] == 0,
{
    let longest = if width >= height {
        width
    } else {
        height
    };
    let dw = preview_extent(width, longest, max_dim);
    let dh = preview_extent(height, longest, max_dim);
    lemma_extent_bounds(width, longest, max_dim);
    lemma_extent_bounds(height, longest, max_dim);
    let rs = resized(src, width, height, dw, dh);
    assert forall|i: int| 0 <= i < rs.len() implies #[trigger] rs[i] == src[0] by {
        lemma_flat_split(i, dw, dh);
        lemma_scaled_index(i / dw, height, dh);
        lemma_scaled_index(i % dw, width, dw);
        lemma_grid_index((i % dw) * width / dw, (i / dw) * height / dh, width, height);
        vstd::arithmetic::mul::lemma_mul_is_commutative(width, height);
    }
    assert(rs.len() == dw * dh);
    assert(dw * dh > 0) by (nonlinear_arith)
        requires
            dw >= 1,
            dh >= 1,
    ;
    lemma_constant_range(rs, src[0]);
}

} // verus!
