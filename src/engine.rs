use vstd::prelude::*;

use crate::arith::{lemma_flat_split, lemma_grid_index, lemma_grid_split};

verus! {

/// Responses are integers in units of `1 / RESPONSE_SCALE`: a target
/// intensity `p` counts as `p / 255` and a weight as `w / 255`.
pub const RESPONSE_SCALE: i64 = 65025;

/// The contribution of kernel tap `(kx, ky)` to output pixel `(x, y)`. The
/// kernel anchor is `(kw / 2, kh / 2)` (floor division); a tap that falls
/// outside the target contributes nothing.
pub open spec fn tap(
    input: Seq<u8>,
    width: int,
    height: int,
    kernel: Seq<i32>,
    kw: int,
    kh: int,
    x: int,
    y: int,
    kx: int,
    ky: int,
) -> int {
    let ix = x + kx - kw / 2;
    let iy = y + ky - kh / 2;
    if 0 <= ix < width && 0 <= iy < height {
        input[iy * width + ix] * kernel[ky * kw + kx]
    } else {
        0
    }
}

/// Sum of the first `n` taps of kernel row `ky` at output pixel `(x, y)`.
pub open spec fn row_sum(
    input: Seq<u8>,
    width: int,
    height: int,
    kernel: Seq<i32>,
    kw: int,
    kh: int,
    x: int,
    y: int,
    ky: int,
    n: nat,
) -> int
    decreases n,
{
    if n == 0 {
        0
    } else {
        row_sum(input, width, height, kernel, kw, kh, x, y, ky, (n - 1) as nat) + tap(
            input,
            width,
            height,
            kernel,
            kw,
            kh,
            x,
            y,
            n - 1,
            ky,
        )
    }
}

/// Sum of the taps of the first `m` kernel rows at output pixel `(x, y)`.
pub open spec fn window_sum(
    input: Seq<u8>,
    width: int,
    height: int,
    kernel: Seq<i32>,
    kw: int,
    kh: int,
    x: int,
    y: int,
    m: nat,
) -> int
    decreases m,
{
    if m == 0 {
        0
    } else {
        window_sum(input, width, height, kernel, kw, kh, x, y, (m - 1) as nat) + row_sum(
            input,
            width,
            height,
            kernel,
            kw,
            kh,
            x,
            y,
            m - 1,
            kw as nat,
        )
    }
}

/// The correlation of the kernel with the target at output pixel `(x, y)`.
pub open spec fn response_at(
    input: Seq<u8>,
    width: int,
    height: int,
    kernel: Seq<i32>,
    kw: int,
    kh: int,
    x: int,
    y: int,
) -> int {
    window_sum(input, width, height, kernel, kw, kh, x, y, kh as nat)
}

/// The whole response map, row-major.
pub open spec fn response_map(
    input: Seq<u8>,
    width: int,
    height: int,
    kernel: Seq<i32>,
    kw: int,
    kh: int,
) -> Seq<i64> {
    Seq::new(
        (width * height) as nat,
        |i: int| response_at(input, width, height, kernel, kw, kh, i % width, i / width) as i64,
    )
}

/// Sum of the absolute values of `s`.
pub open spec fn abs_total(s: Seq<i64>) -> int
    decreases s.len(),
{
    if s.len() == 0 {
        0
    } else {
        abs_total(s.drop_last()) + if s.last() < 0 {
            -s.last()
        } else {
            s.last() as int
        }
    }
}

/// `pos + k - kc` when that lies in `0 .. limit`.
fn shifted(pos: usize, k: usize, kc: usize, limit: usize) -> (r: Option<usize>)
    ensures
        r is Some <==> 0 <= pos + k - kc < limit,
        r matches Some(v) ==> v == pos + k - kc,
{
    if k >= kc {
        let d = k - kc;
        if d < limit && pos < limit - d {
            Some(pos + d)
        } else {
            None
        }
    } else {
        let d = kc - k;
        if pos >= d && pos - d < limit {
            Some(pos - d)
        } else {
            None
        }
    }
}

/// Same-size discrete 2D correlation of a `width x height` target of raw
/// intensities with a `kw x kh` kernel of weights in units of `1 / 255`.
/// Output pixel `(x, y)` is at `y * width + x` and holds `response_at(x, y)`
/// in units of `1 / RESPONSE_SCALE`.
pub fn convolve_same(
    input: &Vec<u8>,
    width: usize,
    height: usize,
    kernel: &Vec<i32>,
    kw: usize,
    kh: usize,
) -> (r: Vec<i64>)
    requires
        input@.len() == width * height,
        kernel@.len() == kw * kh,
        kw * kh * 65025 <= i64::MAX,
        forall|k: int| 0 <= k < kernel@.len() ==> -255 <= #[trigger] kernel@[k] <= 255,
    ensures
        r@.len() == width * height,
        forall|x: int, y: int|
            0 <= x < width && 0 <= y < height ==> #[trigger] r@[y * width + x] == response_at(
                input@,
                width as int,
                height as int,
                kernel@,
                kw as int,
                kh as int,
                x,
                y,
            ),
        r@ == response_map(input@, width as int, height as int, kernel@, kw as int, kh as int),
{
    let ghost inp = input@;
    let ghost ker = kernel@;
    let ghost (wi, hi, kwi, khi) = (width as int, height as int, kw as int, kh as int);
    let n = input.len();
    let kn = kernel.len();
    let kcx = kw / 2;
    let kcy = kh / 2;
    let mut out: Vec<i64> = Vec::new();
    let mut y: usize = 0;
    while y < height
        invariant
            input@ == inp,
            kernel@ == ker,
            inp.len() == width * height,
            n == inp.len(),
            kn == ker.len(),
            ker.len() == kw * kh,
            kw * kh * 65025 <= i64::MAX,
            forall|k: int| 0 <= k < ker.len() ==> -255 <= #[trigger] ker[k] <= 255,
            wi == width && hi == height && kwi == kw && khi == kh,
            kcx == kw / 2,
            kcy == kh / 2,
            y <= height,
            out@.len() == y * width,
            forall|i: int|
                0 <= i < out@.len() ==> #[trigger] out@[i] == response_at(
                    inp,
                    wi,
                    hi,
                    ker,
                    kwi,
                    khi,
                    i % wi,
                    i / wi,
                ),
        decreases height - y,
    {
        let mut x: usize = 0;
        while x < width
            invariant
                input@ == inp,
                kernel@ == ker,
                inp.len() == width * height,
                n == inp.len(),
                kn == ker.len(),
                ker.len() == kw * kh,
                kw * kh * 65025 <= i64::MAX,
                forall|k: int| 0 <= k < ker.len() ==> -255 <= #[trigger] ker[k] <= 255,
                wi == width && hi == height && kwi == kw && khi == kh,
                kcx == kw / 2,
                kcy == kh / 2,
                y < height,
                x <= width,
                out@.len() == y * width + x,
                forall|i: int|
                    0 <= i < out@.len() ==> #[trigger] out@[i] == response_at(
                        inp,
                        wi,
                        hi,
                        ker,
                        kwi,
                        khi,
                        i % wi,
                        i / wi,
                    ),
            decreases width - x,
        {
            let mut acc: i64 = 0;
            let mut ky: usize = 0;
            while ky < kh
                invariant
                    input@ == inp,
                    kernel@ == ker,
                    inp.len() == width * height,
                    n == inp.len(),
                    kn == ker.len(),
                    ker.len() == kw * kh,
                    kw * kh * 65025 <= i64::MAX,
                    forall|k: int| 0 <= k < ker.len() ==> -255 <= #[trigger] ker[k] <= 255,
                    wi == width && hi == height && kwi == kw && khi == kh,
                    kcx == kw / 2,
                    kcy == kh / 2,
                    y < height,
                    x < width,
                    ky <= kh,
                    acc == window_sum(inp, wi, hi, ker, kwi, khi, x as int, y as int, ky as nat),
                    -(ky * kw) * 65025 <= acc <= (ky * kw) * 65025,
                decreases kh - ky,
            {
                let mut kx: usize = 0;
                while kx < kw
                    invariant
                        input@ == inp,
                        kernel@ == ker,
                        inp.len() == width * height,
                        n == inp.len(),
                        kn == ker.len(),
                        ker.len() == kw * kh,
                        kw * kh * 65025 <= i64::MAX,
                        forall|k: int| 0 <= k < ker.len() ==> -255 <= #[trigger] ker[k] <= 255,
                        wi == width && hi == height && kwi == kw && khi == kh,
                        kcx == kw / 2,
                        kcy == kh / 2,
                        y < height,
                        x < width,
                        ky < kh,
                        kx <= kw,
                        acc == window_sum(inp, wi, hi, ker, kwi, khi, x as int, y as int, ky as nat)
                            + row_sum(inp, wi, hi, ker, kwi, khi, x as int, y as int, ky as int, kx as nat),
                        -(ky * kw + kx) * 65025 <= acc <= (ky * kw + kx) * 65025,
                    decreases kw - kx,
                {
                    proof {
                        lemma_grid_index(kx as int, ky as int, kw as int, kh as int);
                        vstd::arithmetic::mul::lemma_mul_is_commutative(kw as int, kh as int);
                        assert((ky * kw + kx + 1) * 65025 <= kw * kh * 65025) by (nonlinear_arith)
                            requires
                                ky * kw + kx + 1 <= kw * kh,
                        ;
                    }
                    let ghost t = tap(inp, wi, hi, ker, kwi, khi, x as int, y as int, kx as int, ky as int);
                    let mut term: i64 = 0;
                    match (shifted(x, kx, kcx, width), shifted(y, ky, kcy, height)) {
                        (Some(ix), Some(iy)) => {
                            proof {
                                lemma_grid_index(ix as int, iy as int, width as int, height as int);
                                vstd::arithmetic::mul::lemma_mul_is_commutative(width as int, height as int);
                            }
                            let p = input[iy * width + ix];
                            let k = kernel[ky * kw + kx];
                            proof {
                                assert(-65025 <= (p as int) * (k as int) <= 65025) by (nonlinear_arith)
                                    requires
                                        0 <= p <= 255,
                                        -255 <= k <= 255,
                                ;
                            }
                            term = (p as i64) * (k as i64);
                        },
                        _ => {},
                    }
                    assert(term == t);
                    acc = acc + term;
                    kx = kx + 1;
                }
                proof {
                    assert(ky * kw + kw == (ky + 1) * kw) by (nonlinear_arith);
                }
                ky = ky + 1;
            }
            proof {
                lemma_grid_split(x as int, y as int, width as int);
            }
            out.push(acc);
            x = x + 1;
        }
        proof {
            assert(y * width + width == (y + 1) * width) by (nonlinear_arith);
        }
        y = y + 1;
    }
    proof {
        vstd::arithmetic::mul::lemma_mul_is_commutative(width as int, height as int);
        assert forall|x: int, y: int| 0 <= x < width && 0 <= y < height implies #[trigger] out@[y
            * width + x] == response_at(inp, wi, hi, ker, kwi, khi, x, y) by {
            lemma_grid_split(x, y, width as int);
            lemma_grid_index(x, y, width as int, height as int);
        }
        let target = response_map(inp, wi, hi, ker, kwi, khi);
        assert forall|i: int| 0 <= i < out@.len() implies #[trigger] out@[i] == target[i] by {
            lemma_flat_split(i, wi, hi);
        }
        assert(out@ =~= target);
    }
    out
}

/// Sum of the absolute values of a response map. The mean absolute response
/// (the score) is this sum divided by the number of pixels.
pub fn abs_sum(values: &Vec<i64>) -> (r: u128)
    ensures
        r == abs_total(values@),
{
    let mut sum: u128 = 0;
    let mut i: usize = 0;
    while i < values.len()
        invariant
            i <= values@.len(),
            sum == abs_total(values@.take(i as int)),
            sum <= i * 0x8000_0000_0000_0000,
        decreases values@.len() - i,
    {
        let v = values[i];
        let a: u128 = if v < 0 {
            (-(v as i128)) as u128
        } else {
            v as u128
        };
        proof {
            assert(values@.take(i + 1).drop_last() =~= values@.take(i as int));
        }
        sum = sum + a;
        i = i + 1;
    }
    proof {
        assert(values@.take(i as int) =~= values@);
    }
    sum
}

proof fn lemma_zero_row(
    input: Seq<u8>,
    width: int,
    height: int,
    kernel: Seq<i32>,
    kw: int,
    kh: int,
    x: int,
    y: int,
    ky: int,
    n: nat,
)
    requires
        kernel.len() == kw * kh,
        forall|k: int| 0 <= k < kernel.len() ==> #[trigger] kernel[k] == 0,
        0 <= ky < kh,
        n <= kw,
    ensures
        row_sum(input, width, height, kernel, kw, kh, x, y, ky, n) == 0,
    decreases n,
{
    if n > 0 {
        lemma_zero_row(input, width, height, kernel, kw, kh, x, y, ky, (n - 1) as nat);
        lemma_grid_index(n - 1, ky, kw, kh);
        vstd::arithmetic::mul::lemma_mul_is_commutative(kw, kh);
        assert(kernel[ky * kw + (n - 1)] == 0);
    }
}

proof fn lemma_zero_window(
    input: Seq<u8>,
    width: int,
    height: int,
    kernel: Seq<i32>,
    kw: int,
    kh: int,
    x: int,
    y: int,
    m: nat,
)
    requires
        kernel.len() == kw * kh,
        forall|k: int| 0 <= k < kernel.len() ==> #[trigger] kernel[k] == 0,
        0 <= kw,
        m <= kh,
    ensures
        window_sum(input, width, height, kernel, kw, kh, x, y, m) == 0,
    decreases m,
{
    if m > 0 {
        lemma_zero_window(input, width, height, kernel, kw, kh, x, y, (m - 1) as nat);
        lemma_zero_row(input, width, height, kernel, kw, kh, x, y, m - 1, kw as nat);
    }
}

proof fn lemma_abs_total_zero(s: Seq<i64>)
    requires
        forall|i: int| 0 <= i < s.len() ==> #[trigger] s[i] == 0,
    ensures
        abs_total(s) == 0,
    decreases s.len(),
{
    if s.len() > 0 {
        lemma_abs_total_zero(s.drop_last());
    }
}

/// A kernel whose weights are all zero gives a response map that is zero
/// everywhere, and so a score of exactly zero.
pub proof fn lemma_zero_kernel_zero_response(
    input: Seq<u8>,
    width: int,
    height: int,
    kernel: Seq<i32>,
    kw: int,
    kh: int,
)
    requires
        width >= 0,
        height >= 0,
        kw >= 0,
        kh >= 0,
        kernel.len() == kw * kh,
        forall|k: int| 0 <= k < kernel.len() ==> #[trigger] kernel[k] == 0,
    ensures
        forall|i: int|
            0 <= i < width * height ==> #[trigger] response_map(
                input,
                width,
                height,
                kernel,
                kw,
                kh,
            )[i] == 0,
        abs_total(response_map(input, width, height, kernel, kw, kh)) == 0,
{
    let map = response_map(input, width, height, kernel, kw, kh);
    assert forall|i: int| 0 <= i < width * height implies #[trigger] map[i] == 0 by {
        lemma_zero_window(input, width, height, kernel, kw, kh, i % width, i / width, kh as nat);
    }
    assert(0 <= width * height) by (nonlinear_arith)
        requires
            width >= 0,
            height >= 0,
    ;
    lemma_abs_total_zero(map);
}

} // verus!
