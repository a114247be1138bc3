use vstd::prelude::*;

use crate::engine::{abs_sum, abs_total, convolve_same, response_map};
use crate::gray::GrayscaleImage;
use crate::preview::{build_preview, preview_bytes, preview_extent};
use crate::splitter::KernelBank;

verus! {

/// What one kernel does to the target: its score and its display preview.
pub struct ConvolutionPreview {
    /// Sum of the absolute responses, in units of `1 / RESPONSE_SCALE`.
    pub score_sum: u128,
    /// Number of pixels of the response map; the score (mean absolute
    /// response) is `score_sum / (RESPONSE_SCALE * pixel_count)`.
    pub pixel_count: usize,
    pub width: usize,
    pub height: usize,
    /// Row-major preview bytes, `width * height` of them.
    pub bytes: Vec<u8>,
}

impl ConvolutionPreview {
    /// This is the result of correlating `target` with `kernel` (`kw x kh`)
    /// and previewing the response within `max_dim`.
    pub open spec fn is_result_of(
        &self,
        target: GrayscaleImage,
        kernel: Seq<i32>,
        kw: int,
        kh: int,
        max_dim: int,
    ) -> bool {
        let w = target.spec_width() as int;
        let h = target.spec_height() as int;
        let longest = if w >= h {
            w
        } else {
            h
        };
        let map = response_map(target.view_pixels(), w, h, kernel, kw, kh);
        &&& self.score_sum == abs_total(map)
        &&& self.pixel_count == w * h
        &&& self.width == preview_extent(w, longest, max_dim)
        &&& self.height == preview_extent(h, longest, max_dim)
        &&& self.bytes@ == preview_bytes(map, w, h, max_dim)
    }
}

/// Correlates `target` with one kernel and builds its score and preview.
pub fn convolve_preview(
    target: &GrayscaleImage,
    kernel: &Vec<i32>,
    kw: usize,
    kh: usize,
    max_dim: usize,
) -> (r: ConvolutionPreview)
    requires
        target.wf(),
        kernel@.len() == kw * kh,
        kw * kh * 65025 <= i64::MAX,
        forall|k: int| 0 <= k < kernel@.len() ==> -255 <= #[trigger] kernel@[k] <= 255,
    ensures
        r.is_result_of(*target, kernel@, kw as int, kh as int, max_dim as int),
{
    let width = target.width();
    let height = target.height();
    let response = convolve_same(target.pixels(), width, height, kernel, kw, kh);
    let score_sum = abs_sum(&response);
    let (pw, ph, bytes) = build_preview(&response, width, height, max_dim);
    ConvolutionPreview { score_sum, pixel_count: response.len(), width: pw, height: ph, bytes }
}

/// Runs every kernel of `bank` over `target`, in bank order.
pub fn convolve_bank(target: &GrayscaleImage, bank: &KernelBank, max_dim: usize) -> (r: Vec<
    ConvolutionPreview,
>)
    requires
        target.wf(),
        bank.wf(),
        bank.kernel_width * bank.kernel_height * 65025 <= i64::MAX,
    ensures
        r@.len() == bank.kernels@.len(),
        forall|i: int|
            0 <= i < r@.len() ==> (#[trigger] r@[i]).is_result_of(
                *target,
                bank.kernels@[i]@,
                bank.kernel_width as int,
                bank.kernel_height as int,
                max_dim as int,
            ),
{
    let mut out: Vec<ConvolutionPreview> = Vec::new();
    let mut i: usize = 0;
    while i < bank.kernels.len()
        invariant
            target.wf(),
            bank.wf(),
            bank.kernel_width * bank.kernel_height * 65025 <= i64::MAX,
            i <= bank.kernels@.len(),
            out@.len() == i,
            forall|j: int|
                0 <= j < i ==> (#[trigger] out@[j]).is_result_of(
                    *target,
                    bank.kernels@[j]@,
                    bank.kernel_width as int,
                    bank.kernel_height as int,
                    max_dim as int,
                ),
        decreases bank.kernels@.len() - i,
    {
        let kernel = &bank.kernels[i];
        assert(forall|k: int| 0 <= k < kernel@.len() ==> -255 <= #[trigger] kernel@[k] <= 255) by {
            assert forall|k: int| 0 <= k < kernel@.len() implies -255 <= #[trigger] kernel@[k] <= 255 by {
                assert(-255 <= bank.kernels@[i as int]@[k] <= 255);
            }
        }
        let p = convolve_preview(target, kernel, bank.kernel_width, bank.kernel_height, max_dim);
        out.push(p);
        i = i + 1;
    }
    out
}

} // verus!
