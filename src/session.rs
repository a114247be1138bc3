use vstd::prelude::*;

use crate::gray::GrayscaleImage;
use crate::pipeline::{convolve_bank, ConvolutionPreview};
use crate::preview::PREVIEW_MAX_SIZE;
use crate::shape::KernelShape;
use crate::splitter::{split_kernels, KernelBank, SplitError};

verus! {

/// The two images a session works on.
#[derive(Clone, Copy, Debug, PartialEq, Eq, Structural)]
pub enum ImageSlot {
    /// The target image the kernels are run over.
    Slide,
    /// The sheet the kernels are cut from.
    KernelSheet,
}

/// Why a session operation did nothing.
#[derive(Clone, Copy, Debug, PartialEq, Eq, Structural)]
pub enum SessionError {
    /// The image in this slot has not been loaded yet.
    MissingImage { slot: ImageSlot },
    /// No kernels have been split out yet.
    EmptyKernelBank,
    /// The sheet's sides are not multiples of the kernel shape's sides.
    DimensionMismatch {
        sheet_width: usize,
        sheet_height: usize,
        kernel_width: usize,
        kernel_height: usize,
    },
}

/// The state of one exploration: the loaded images, the chosen kernel shape,
/// the kernels split from the sheet and the results of running them.
///
/// A failed operation leaves the state as it was; in particular a failed
/// split keeps the previous kernels and results.
pub struct Session {
    pub slide: Option<GrayscaleImage>,
    pub kernel_sheet: Option<GrayscaleImage>,
    pub kernel_shape: KernelShape,
    pub bank: KernelBank,
    pub previews: Vec<ConvolutionPreview>,
    pub selected_kernel: usize,
}

impl Session {
    pub open spec fn wf(&self) -> bool {
        &&& self.slide matches Some(img) ==> img.wf()
        &&& self.kernel_sheet matches Some(img) ==> img.wf()
        &&& self.bank.wf()
        &&& self.bank.kernel_width <= 6
        &&& self.bank.kernel_height <= 6
    }

    /// A session with no images, no kernels and the 3 x 6 shape selected.
    pub fn new() -> (r: Session)
        ensures
            r.wf(),
            r.slide is None,
            r.kernel_sheet is None,
            r.kernel_shape == KernelShape::ThreeBySix,
            r.bank.kernels@.len() == 0,
            r.bank.rows == 0,
            r.bank.cols == 0,
            r.previews@.len() == 0,
            r.selected_kernel == 0,
    {
        Session {
            slide: None,
            kernel_sheet: None,
            kernel_shape: KernelShape::ThreeBySix,
            bank: KernelBank::new(),
            previews: Vec::new(),
            selected_kernel: 0,
        }
    }

    /// The slot the next incoming image goes to: the slide first, then the
    /// sheet; `None` when both are filled.
    pub fn next_empty_slot(&self) -> (r: Option<ImageSlot>)
        ensures
            self.slide is None ==> r == Some(ImageSlot::Slide),
            self.slide is Some && self.kernel_sheet is None ==> r == Some(ImageSlot::KernelSheet),
            self.slide is Some && self.kernel_sheet is Some ==> r is None,
    {
        if self.slide.is_none() {
            Some(ImageSlot::Slide)
        } else if self.kernel_sheet.is_none() {
            Some(ImageSlot::KernelSheet)
        } else {
            None
        }
    }

    /// Puts `image` in `slot`, dropping the kernels and results derived from
    /// the previous images.
    pub fn load_image(&mut self, slot: ImageSlot, image: GrayscaleImage)
        requires
            old(self).wf(),
            image.wf(),
        ensures
            final(self).wf(),
            slot == ImageSlot::Slide ==> final(self).slide == Some(image) && final(self).kernel_sheet
                == old(self).kernel_sheet,
            slot == ImageSlot::KernelSheet ==> final(self).kernel_sheet == Some(image)
                && final(self).slide == old(self).slide,
            final(self).kernel_shape == old(self).kernel_shape,
            final(self).bank.kernels@.len() == 0,
            final(self).bank.rows == 0,
            final(self).bank.cols == 0,
            final(self).previews@.len() == 0,
            final(self).selected_kernel == 0,
    {
        match slot {
            ImageSlot::Slide => {
                self.slide = Some(image);
            },
            ImageSlot::KernelSheet => {
                self.kernel_sheet = Some(image);
            },
        }
        self.bank = KernelBank::new();
        self.previews = Vec::new();
        self.selected_kernel = 0;
    }

    /// Chooses the kernel shape. Results computed with another shape are
    /// dropped; the kernels stay until the next split.
    pub fn set_kernel_shape(&mut self, shape: KernelShape)
        requires
            old(self).wf(),
        ensures
            final(self).wf(),
            final(self).kernel_shape == shape,
            final(self).slide == old(self).slide,
            final(self).kernel_sheet == old(self).kernel_sheet,
            final(self).bank == old(self).bank,
            shape == old(self).kernel_shape ==> final(self).previews == old(self).previews
                && final(self).selected_kernel == old(self).selected_kernel,
            shape != old(self).kernel_shape ==> final(self).previews@.len() == 0
                && final(self).selected_kernel == 0,
    {
        if shape != self.kernel_shape {
            self.kernel_shape = shape;
            self.previews = Vec::new();
            self.selected_kernel = 0;
        }
    }

    /// Splits the sheet into kernels of the chosen shape, replacing the
    /// kernels and dropping the results. Fails, changing nothing, when no
    /// sheet is loaded or its sides are not multiples of the shape's.
    pub fn split(&mut self) -> (r: Result<(), SessionError>)
        requires
            old(self).wf(),
        ensures
            final(self).wf(),
            old(self).kernel_sheet is None ==> r == Err::<(), SessionError>(
                SessionError::MissingImage { slot: ImageSlot::KernelSheet },
            ),
            old(self).kernel_sheet matches Some(sheet) ==> {
                let kw = old(self).kernel_shape.spec_width();
                let kh = old(self).kernel_shape.spec_height();
                &&& (sheet.spec_width() % kw != 0 || sheet.spec_height() % kh != 0) ==> r == Err::<
                    (),
                    SessionError,
                >(
                    SessionError::DimensionMismatch {
                        sheet_width: sheet.spec_width() as usize,
                        sheet_height: sheet.spec_height() as usize,
                        kernel_width: kw as usize,
                        kernel_height: kh as usize,
                    },
                )
                &&& (sheet.spec_width() % kw == 0 && sheet.spec_height() % kh == 0) ==> {
                    &&& r is Ok
                    &&& final(self).bank.is_split_of(sheet, kw as int, kh as int)
                    &&& final(self).previews@.len() == 0
                    &&& final(self).selected_kernel == 0
                    &&& final(self).slide == old(self).slide
                    &&& final(self).kernel_sheet == old(self).kernel_sheet
                    &&& final(self).kernel_shape == old(self).kernel_shape
                }
            },
            r is Err ==> *final(self) == *old(self),
    {
        let bank = match &self.kernel_sheet {
            None => {
                return Err(SessionError::MissingImage { slot: ImageSlot::KernelSheet });
            },
            Some(sheet) => match split_kernels(sheet, self.kernel_shape) {
                Ok(bank) => bank,
                Err(SplitError::DimensionMismatch {
                    sheet_width,
                    sheet_height,
                    kernel_width,
                    kernel_height,
                }) => {
                    return Err(
                        SessionError::DimensionMismatch {
                            sheet_width,
                            sheet_height,
                            kernel_width,
                            kernel_height,
                        },
                    );
                },
            },
        };
        self.bank = bank;
        self.previews = Vec::new();
        self.selected_kernel = 0;
        Ok(())
    }

    /// Runs every kernel over the slide, replacing the results (bounded by
    /// `PREVIEW_MAX_SIZE`) and keeping the selected index. Fails, changing
    /// nothing, when no slide is loaded or there are no kernels.
    pub fn run_all_convolutions(&mut self) -> (r: Result<(), SessionError>)
        requires
            old(self).wf(),
        ensures
            final(self).wf(),
            old(self).slide is None ==> r == Err::<(), SessionError>(
                SessionError::MissingImage { slot: ImageSlot::Slide },
            ),
            old(self).slide is Some && old(self).bank.kernels@.len() == 0 ==> r == Err::<
                (),
                SessionError,
            >(SessionError::EmptyKernelBank),
            r is Err ==> *final(self) == *old(self),
            old(self).slide matches Some(target) ==> old(self).bank.kernels@.len() > 0 ==> {
                &&& r is Ok
                &&& final(self).previews@.len() == old(self).bank.kernels@.len()
                &&& forall|i: int|
                    0 <= i < final(self).previews@.len() ==> (#[trigger] final(self).previews@[i]).is_result_of(
                        target,
                        old(self).bank.kernels@[i]@,
                        old(self).bank.kernel_width as int,
                        old(self).bank.kernel_height as int,
                        PREVIEW_MAX_SIZE as int,
                    )
                &&& final(self).selected_kernel == old(self).selected_kernel
                &&& final(self).slide == old(self).slide
                &&& final(self).kernel_sheet == old(self).kernel_sheet
                &&& final(self).kernel_shape == old(self).kernel_shape
                &&& final(self).bank == old(self).bank
            },
    {
        let previews = match &self.slide {
            None => {
                return Err(SessionError::MissingImage { slot: ImageSlot::Slide });
            },
            Some(target) => {
                if self.bank.is_empty() {
                    return Err(SessionError::EmptyKernelBank);
                }
                proof {
                    assert(self.bank.kernel_width * self.bank.kernel_height * 65025 <= 36 * 65025)
                        by (nonlinear_arith)
                        requires
                            self.bank.kernel_width <= 6,
                            self.bank.kernel_height <= 6,
                    ;
                }
                convolve_bank(target, &self.bank, PREVIEW_MAX_SIZE)
            },
        };
        self.previews = previews;
        Ok(())
    }

    /// Selects the result at `index`, or the last one when `index` is past
    /// the end. Does nothing when there are no results.
    pub fn select_kernel(&mut self, index: usize)
        ensures
            final(self).slide == old(self).slide,
            final(self).kernel_sheet == old(self).kernel_sheet,
            final(self).kernel_shape == old(self).kernel_shape,
            final(self).bank == old(self).bank,
            final(self).previews == old(self).previews,
            old(self).previews@.len() == 0 ==> final(self).selected_kernel == old(self).selected_kernel,
            old(self).previews@.len() > 0 ==> final(self).selected_kernel == if index
                < old(self).previews@.len() {
                index as int
            } else {
                old(self).previews@.len() - 1
            },
    {
        let n = self.previews.len();
        if n > 0 {
            self.selected_kernel = if index < n {
                index
            } else {
                n - 1
            };
        }
    }

    /// The currently selected result, if there is one.
    pub fn selected_preview(&self) -> (r: Option<&ConvolutionPreview>)
        ensures
            self.selected_kernel < self.previews@.len() ==> r == Some(
                &self.previews@[self.selected_kernel as int],
            ),
            self.selected_kernel >= self.previews@.len() ==> r is None,
    {
        if self.selected_kernel < self.previews.len() {
            Some(&self.previews[self.selected_kernel])
        } else {
            None
        }
    }
}

} // verus!
