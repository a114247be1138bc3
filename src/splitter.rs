use vstd::prelude::*;

use crate::arith::{lemma_grid_index, lemma_grid_split};
use crate::gray::GrayscaleImage;
use crate::shape::KernelShape;

verus! {

/// Kernel weights are stored as integers in units of `1 / WEIGHT_SCALE`, so
/// the weight range `[-1, 1]` is `[-WEIGHT_SCALE, WEIGHT_SCALE]`.
pub const WEIGHT_SCALE: i32 = 255;

/// The centered weight of a sheet intensity `p`: `(p / 255) * 2 - 1`, in units
/// of `1 / 255`.
pub open spec fn weight_of(p: u8) -> int {
    2 * p - 255
}

/// `k` is the kernel cut from the cell in grid row `row` and grid column `col`
/// of `sheet`, read row-major.
pub open spec fn is_kernel_at(
    sheet: GrayscaleImage,
    kw: int,
    kh: int,
    row: int,
    col: int,
    k: Seq<i32>,
) -> bool {
    &&& k.len() == kw * kh
    &&& forall|kx: int, ky: int|
        0 <= kx < kw && 0 <= ky < kh ==> #[trigger] k[ky * kw + kx] == weight_of(
            sheet.spec_pixel(col * kw + kx, row * kh + ky),
        )
}

/// A bank of equally sized kernels cut from a sheet on a regular grid.
pub struct KernelBank {
    pub rows: usize,
    pub cols: usize,
    pub kernel_width: usize,
    pub kernel_height: usize,
    /// Row-major over the grid: the kernel of cell `(row, col)` is at
    /// `row * cols + col`.
    pub kernels: Vec<Vec<i32>>,
}

impl KernelBank {
    /// Every kernel has `kernel_width * kernel_height` weights in range, and
    /// there is one kernel per grid cell.
    pub open spec fn wf(&self) -> bool {
        &&& self.kernels@.len() == self.rows * self.cols
        &&& forall|i: int|
            0 <= i < self.kernels@.len() ==> (#[trigger] self.kernels@[i])@.len()
                == self.kernel_width * self.kernel_height
        &&& forall|i: int, j: int|
            0 <= i < self.kernels@.len() && 0 <= j < self.kernels@[i]@.len() ==> -255
                <= #[trigger] self.kernels@[i]@[j] <= 255
    }

    /// The bank is exactly the grid of `kw x kh` kernels of `sheet`.
    pub open spec fn is_split_of(&self, sheet: GrayscaleImage, kw: int, kh: int) -> bool {
        &&& self.kernel_width == kw
        &&& self.kernel_height == kh
        &&& self.cols == sheet.spec_width() as int / kw
        &&& self.rows == sheet.spec_height() as int / kh
        &&& self.kernels@.len() == self.rows * self.cols
        &&& forall|row: int, col: int|
            0 <= row < self.rows && 0 <= col < self.cols ==> is_kernel_at(
                sheet,
                kw,
                kh,
                row,
                col,
                #[trigger] self.kernels@[row * self.cols + col]@,
            )
    }

    /// An empty bank.
    pub fn new() -> (r: KernelBank)
        ensures
            r.wf(),
            r.kernels@.len() == 0,
            r.rows == 0,
            r.cols == 0,
            r.kernel_width == 0,
            r.kernel_height == 0,
    {
        KernelBank { rows: 0, cols: 0, kernel_width: 0, kernel_height: 0, kernels: Vec::new() }
    }

    pub fn len(&self) -> (r: usize)
        ensures
            r == self.kernels@.len(),
    {
        self.kernels.len()
    }

    pub fn is_empty(&self) -> (r: bool)
        ensures
            r == (self.kernels@.len() == 0),
    {
        self.kernels.len() == 0
    }
}

/// Why a sheet could not be split.
#[derive(Clone, Copy, Debug, PartialEq, Eq, Structural)]
pub enum SplitError {
    /// The sheet's sides are not multiples of the kernel's sides.
    DimensionMismatch {
        sheet_width: usize,
        sheet_height: usize,
        kernel_width: usize,
        kernel_height: usize,
    },
}

/// Cuts the kernel of grid cell `(row, col)` out of `sheet`.
fn cut_kernel(sheet: &GrayscaleImage, kw: usize, kh: usize, row: usize, col: usize) -> (r: Vec<
    i32,
>)
    requires
        sheet.wf(),
        kw > 0,
        kh > 0,
        (col + 1) * kw <= sheet.spec_width(),
        (row + 1) * kh <= sheet.spec_height(),
    ensures
        is_kernel_at(*sheet, kw as int, kh as int, row as int, col as int, r@),
        forall|j: int| 0 <= j < r@.len() ==> -255 <= #[trigger] r@[j] <= 255,
{
    let mut kernel: Vec<i32> = Vec::new();
    let w = sheet.width();
    let h = sheet.height();
    proof {
        assert((col + 1) * kw == col * kw + kw) by (nonlinear_arith);
        assert((row + 1) * kh == row * kh + kh) by (nonlinear_arith);
    }
    let x0: usize = col * kw;
    let y0: usize = row * kh;
    let mut ky: usize = 0;
    while ky < kh
        invariant
            sheet.wf(),
            0 < kw,
            ky <= kh,
            x0 == col * kw,
            y0 == row * kh,
            x0 + kw <= sheet.spec_width(),
            y0 + kh <= sheet.spec_height(),
            w == sheet.spec_width(),
            h == sheet.spec_height(),
            kernel@.len() == ky * kw,
            forall|i: int|
                0 <= i < kernel@.len() ==> #[trigger] kernel@[i] == weight_of(
                    sheet.spec_pixel(x0 + i % (kw as int), y0 + i / (kw as int)),
                ),
            forall|j: int| 0 <= j < kernel@.len() ==> -255 <= #[trigger] kernel@[j] <= 255,
        decreases kh - ky,
    {
        let mut kx: usize = 0;
        while kx < kw
            invariant
                sheet.wf(),
                0 < kw,
                ky < kh,
                kx <= kw,
                x0 == col * kw,
                y0 == row * kh,
                x0 + kw <= sheet.spec_width(),
                y0 + kh <= sheet.spec_height(),
                w == sheet.spec_width(),
                h == sheet.spec_height(),
                kernel@.len() == ky * kw + kx,
                forall|i: int|
                    0 <= i < kernel@.len() ==> #[trigger] kernel@[i] == weight_of(
                        sheet.spec_pixel(x0 + i % (kw as int), y0 + i / (kw as int)),
                    ),
                forall|j: int| 0 <= j < kernel@.len() ==> -255 <= #[trigger] kernel@[j] <= 255,
            decreases kw - kx,
        {
            let p = sheet.pixel(x0 + kx, y0 + ky);
            proof {
                lemma_grid_split(kx as int, ky as int, kw as int);
            }
            kernel.push(2 * (p as i32) - WEIGHT_SCALE);
            kx = kx + 1;
        }
        proof {
            assert(ky * kw + kw == (ky + 1) * kw) by (nonlinear_arith);
        }
        ky = ky + 1;
    }
    proof {
        assert(kernel@.len() == kw * kh) by (nonlinear_arith)
            requires
                kernel@.len() == ky * kw,
                ky == kh,
        ;
        assert forall|kx: int, ky: int| 0 <= kx < kw && 0 <= ky < kh implies #[trigger] kernel@[ky
            * kw + kx] == weight_of(sheet.spec_pixel(col * kw + kx, row * kh + ky)) by {
            lemma_grid_split(kx, ky, kw as int);
            lemma_grid_index(kx, ky, kw as int, kh as int);
            vstd::arithmetic::mul::lemma_mul_is_commutative(kw as int, kh as int);
        }
    }
    kernel
}

/// Splits `sheet` into a row-major grid of `kw x kh` kernels, converting each
/// intensity `p` to the weight `(p / 255) * 2 - 1`. Fails with
/// `DimensionMismatch` exactly when a side of the sheet is not a multiple of
/// the matching kernel side.
pub fn split_grid(sheet: &GrayscaleImage, kw: usize, kh: usize) -> (r: Result<KernelBank, SplitError>)
    requires
        sheet.wf(),
        kw > 0,
        kh > 0,
    ensures
        r is Err <==> (sheet.spec_width() % (kw as nat) != 0 || sheet.spec_height() % (kh as nat) != 0),
        r matches Err(e) ==> e == (SplitError::DimensionMismatch {
            sheet_width: sheet.spec_width() as usize,
            sheet_height: sheet.spec_height() as usize,
            kernel_width: kw,
            kernel_height: kh,
        }),
        r matches Ok(bank) ==> {
            &&& bank.wf()
            &&& bank.is_split_of(*sheet, kw as int, kh as int)
            &&& bank.kernels@.len() == (sheet.spec_width() / (kw as nat)) * (sheet.spec_height() / (kh as nat))
        },
{
    let w = sheet.width();
    let h = sheet.height();
    if w % kw != 0 || h % kh != 0 {
        return Err(
            SplitError::DimensionMismatch {
                sheet_width: w,
                sheet_height: h,
                kernel_width: kw,
                kernel_height: kh,
            },
        );
    }
    let cols = w / kw;
    let rows = h / kh;
    proof {
        vstd::arithmetic::div_mod::lemma_fundamental_div_mod(w as int, kw as int);
        vstd::arithmetic::div_mod::lemma_fundamental_div_mod(h as int, kh as int);
        vstd::arithmetic::mul::lemma_mul_is_commutative(kw as int, cols as int);
        vstd::arithmetic::mul::lemma_mul_is_commutative(kh as int, rows as int);
    }
    let mut kernels: Vec<Vec<i32>> = Vec::new();
    let mut row: usize = 0;
    while row < rows
        invariant
            sheet.wf(),
            kw > 0,
            kh > 0,
            cols * kw == sheet.spec_width(),
            rows * kh == sheet.spec_height(),
            row <= rows,
            kernels@.len() == row * cols,
            forall|i: int|
                0 <= i < kernels@.len() ==> is_kernel_at(
                    *sheet,
                    kw as int,
                    kh as int,
                    i / (cols as int),
                    i % (cols as int),
                    #[trigger] kernels@[i]@,
                ),
            forall|i: int, j: int|
                0 <= i < kernels@.len() && 0 <= j < kernels@[i]@.len() ==> -255
                    <= #[trigger] kernels@[i]@[j] <= 255,
        decreases rows - row,
    {
        let mut col: usize = 0;
        while col < cols
            invariant
                sheet.wf(),
                kw > 0,
                kh > 0,
                cols * kw == sheet.spec_width(),
                rows * kh == sheet.spec_height(),
                row < rows,
                col <= cols,
                kernels@.len() == row * cols + col,
                forall|i: int|
                    0 <= i < kernels@.len() ==> is_kernel_at(
                        *sheet,
                        kw as int,
                        kh as int,
                        i / (cols as int),
                        i % (cols as int),
                        #[trigger] kernels@[i]@,
                    ),
                forall|i: int, j: int|
                    0 <= i < kernels@.len() && 0 <= j < kernels@[i]@.len() ==> -255
                        <= #[trigger] kernels@[i]@[j] <= 255,
            decreases cols - col,
        {
            proof {
                assert((col + 1) * kw <= cols * kw) by (nonlinear_arith)
                    requires
                        col < cols,
                        kw > 0,
                ;
                assert((row + 1) * kh <= rows * kh) by (nonlinear_arith)
                    requires
                        row < rows,
                        kh > 0,
                ;
                lemma_grid_split(col as int, row as int, cols as int);
            }
            let k = cut_kernel(sheet, kw, kh, row, col);
            kernels.push(k);
            col = col + 1;
        }
        proof {
            assert(row * cols + cols == (row + 1) * cols) by (nonlinear_arith);
        }
        row = row + 1;
    }
    let bank = KernelBank { rows, cols, kernel_width: kw, kernel_height: kh, kernels };
    proof {
        assert forall|row: int, col: int| 0 <= row < rows && 0 <= col < cols implies is_kernel_at(
            *sheet,
            kw as int,
            kh as int,
            row,
            col,
            #[trigger] bank.kernels@[row * cols + col]@,
        ) by {
            lemma_grid_split(col, row, cols as int);
            lemma_grid_index(col, row, cols as int, rows as int);
        }
        vstd::arithmetic::mul::lemma_mul_is_commutative(rows as int, cols as int);
    }
    Ok(bank)
}

/// Splits `sheet` into kernels of the given shape; see `split_grid`.
pub fn split_kernels(sheet: &GrayscaleImage, shape: KernelShape) -> (r: Result<KernelBank, SplitError>)
    requires
        sheet.wf(),
    ensures
        r is Err <==> (sheet.spec_width() % shape.spec_width() != 0 || sheet.spec_height()
            % shape.spec_height() != 0),
        r matches Err(e) ==> e == (SplitError::DimensionMismatch {
            sheet_width: sheet.spec_width() as usize,
            sheet_height: sheet.spec_height() as usize,
            kernel_width: shape.spec_width() as usize,
            kernel_height: shape.spec_height() as usize,
        }),
        r matches Ok(bank) ==> {
            &&& bank.wf()
            &&& bank.is_split_of(*sheet, shape.spec_width() as int, shape.spec_height() as int)
            &&& bank.kernels@.len() == (sheet.spec_width() / shape.spec_width()) * (
            sheet.spec_height() / shape.spec_height())
        },
{
    split_grid(sheet, shape.width(), shape.height())
}

} // verus!
