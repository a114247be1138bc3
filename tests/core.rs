use convolution_wasm::engine::{abs_sum, convolve_same, RESPONSE_SCALE};
use convolution_wasm::gray::GrayscaleImage;
use convolution_wasm::pipeline::{convolve_bank, convolve_preview};
use convolution_wasm::preview::{
    build_preview, min_max, normalize_byte, preview_side, resize_nearest, PREVIEW_MAX_SIZE,
};
use convolution_wasm::session::{ImageSlot, Session, SessionError};
use convolution_wasm::shape::KernelShape;
use convolution_wasm::splitter::{split_grid, split_kernels, SplitError, WEIGHT_SCALE};

fn image(width: usize, height: usize, f: impl Fn(usize, usize) -> u8) -> GrayscaleImage {
    let mut pixels = Vec::new();
    for y in 0..height {
        for x in 0..width {
            pixels.push(f(x, y));
        }
    }
    GrayscaleImage::from_raw(width, height, pixels).unwrap()
}

#[test]
fn shape_dimensions_and_labels() {
    assert_eq!(KernelShape::ThreeBySix.width(), 3);
    assert_eq!(KernelShape::ThreeBySix.height(), 6);
    assert_eq!(KernelShape::SixByThree.width(), 6);
    assert_eq!(KernelShape::SixByThree.height(), 3);
    assert_eq!(KernelShape::ThreeBySix.label(), "3 x 6");
    assert_eq!(KernelShape::SixByThree.label(), "6 x 3");
}

#[test]
fn from_raw_rejects_bad_buffers() {
    assert!(GrayscaleImage::from_raw(0, 3, vec![]).is_none());
    assert!(GrayscaleImage::from_raw(2, 0, vec![]).is_none());
    assert!(GrayscaleImage::from_raw(2, 2, vec![1, 2, 3]).is_none());
    assert!(GrayscaleImage::from_raw(2, 2, vec![1, 2, 3, 4, 5]).is_none());
    let img = GrayscaleImage::from_raw(2, 2, vec![1, 2, 3, 4]).unwrap();
    assert_eq!(img.width(), 2);
    assert_eq!(img.height(), 2);
    assert_eq!(img.pixel(1, 0), 2);
    assert_eq!(img.pixel(0, 1), 3);
    assert_eq!(img.pixels(), &vec![1, 2, 3, 4]);
}

#[test]
fn split_six_by_twelve_sheet_into_four_kernels() {
    // each grid cell has its own intensity: cell (row, col) holds 10 * (row * 2 + col)
    let sheet = image(6, 12, |x, y| (10 * ((y / 6) * 2 + x / 3)) as u8);
    let bank = split_kernels(&sheet, KernelShape::ThreeBySix).unwrap();
    assert_eq!(bank.cols, 2);
    assert_eq!(bank.rows, 2);
    assert_eq!(bank.kernels.len(), 4);
    for (i, k) in bank.kernels.iter().enumerate() {
        assert_eq!(k.len(), 18);
        let expected = 2 * (10 * i as i32) - WEIGHT_SCALE;
        assert!(k.iter().all(|&w| w == expected));
    }
}

#[test]
fn split_reads_kernels_row_major() {
    let sheet = image(6, 3, |x, y| (x + 6 * y) as u8);
    let bank = split_grid(&sheet, 3, 3).unwrap();
    assert_eq!(bank.kernels.len(), 2);
    let first: Vec<i32> = [0, 1, 2, 6, 7, 8, 12, 13, 14].iter().map(|p| 2 * p - 255).collect();
    let second: Vec<i32> = [3, 4, 5, 9, 10, 11, 15, 16, 17].iter().map(|p| 2 * p - 255).collect();
    assert_eq!(bank.kernels[0], first);
    assert_eq!(bank.kernels[1], second);
}

#[test]
fn split_weights_span_full_range() {
    let sheet = image(3, 6, |x, _| if x == 0 { 0 } else { 255 });
    let bank = split_kernels(&sheet, KernelShape::ThreeBySix).unwrap();
    assert_eq!(bank.kernels.len(), 1);
    let k = &bank.kernels[0];
    assert_eq!(k[0], -255);
    assert_eq!(k[1], 255);
    assert!(k.iter().all(|&w| (-255..=255).contains(&w)));
}

#[test]
fn split_count_matches_grid() {
    let sheet = image(12, 9, |x, y| (x * y) as u8);
    let bank = split_kernels(&sheet, KernelShape::SixByThree).unwrap();
    assert_eq!(bank.kernels.len(), (12 / 6) * (9 / 3));
    assert!(bank.kernels.iter().all(|k| k.len() == 18));
}

#[test]
fn split_rejects_indivisible_sheet() {
    let sheet = image(7, 12, |_, _| 0);
    let r = split_kernels(&sheet, KernelShape::ThreeBySix);
    match r {
        Err(SplitError::DimensionMismatch { sheet_width, sheet_height, kernel_width, kernel_height }) => {
            assert_eq!((sheet_width, sheet_height, kernel_width, kernel_height), (7, 12, 3, 6));
        }
        Ok(_) => panic!("expected a dimension mismatch"),
    }
    let sheet = image(6, 7, |_, _| 0);
    assert!(split_kernels(&sheet, KernelShape::ThreeBySix).is_err());
}

#[test]
fn single_tap_kernel_on_bright_target() {
    let input = vec![255u8; 16];
    let mut kernel = vec![0i32; 18];
    kernel[0] = 255;
    let out = convolve_same(&input, 4, 4, &kernel, 3, 6);
    assert_eq!(out.len(), 16);
    for y in 0..4 {
        for x in 0..4 {
            let expected = if x >= 1 && y >= 3 { RESPONSE_SCALE } else { 0 };
            assert_eq!(out[y * 4 + x], expected, "pixel ({x}, {y})");
        }
    }
}

#[test]
fn centered_kernel_sums_neighbourhood() {
    // 3 x 3 box of ones: each output is the sum of the in-range neighbours
    let input: Vec<u8> = (1..=9).collect();
    let kernel = vec![255i32; 9];
    let out = convolve_same(&input, 3, 3, &kernel, 3, 3);
    let s = 255i64;
    assert_eq!(out[4], 45 * s);
    assert_eq!(out[0], (1 + 2 + 4 + 5) * s);
    assert_eq!(out[8], (5 + 6 + 8 + 9) * s);
}

#[test]
fn zero_kernel_gives_zero_map_and_score() {
    let target = image(5, 4, |x, y| (x * 40 + y * 7) as u8);
    let kernel = vec![0i32; 18];
    let out = convolve_same(target.pixels(), 5, 4, &kernel, 6, 3);
    assert!(out.iter().all(|&v| v == 0));
    assert_eq!(abs_sum(&out), 0);
    let p = convolve_preview(&target, &kernel, 6, 3, PREVIEW_MAX_SIZE);
    assert_eq!(p.score_sum, 0);
    assert!(p.bytes.iter().all(|&b| b == 0));
}

#[test]
fn output_matches_target_size_for_each_shape() {
    let target = image(7, 5, |x, _| x as u8);
    for (kw, kh) in [(3usize, 6usize), (6, 3), (1, 1), (5, 5)] {
        let kernel = vec![1i32; kw * kh];
        assert_eq!(convolve_same(target.pixels(), 7, 5, &kernel, kw, kh).len(), 35);
    }
}

#[test]
fn abs_sum_adds_magnitudes() {
    assert_eq!(abs_sum(&vec![]), 0);
    assert_eq!(abs_sum(&vec![-3, 4, 0, -1]), 8);
    assert_eq!(abs_sum(&vec![i64::MIN, i64::MAX]), (1u128 << 64) - 1);
}

#[test]
fn preview_of_long_strip() {
    let src: Vec<i64> = (0..1000).collect();
    let (w, h, bytes) = build_preview(&src, 1000, 1, 256);
    assert_eq!((w, h), (256, 1));
    assert_eq!(bytes.len(), 256);
    let resized = resize_nearest(&src, 1000, 1, 256, 1);
    for x in 0..256 {
        assert_eq!(resized[x], (x * 1000 / 256) as i64);
    }
    let hi = (255 * 1000 / 256) as i64;
    for x in 0..256 {
        let v = (x * 1000 / 256) as i64;
        let expected = (2 * v * 255 + hi) / (2 * hi);
        assert_eq!(bytes[x] as i64, expected, "byte {x}");
    }
    assert_eq!(bytes[0], 0);
    assert_eq!(bytes[255], 255);
}

#[test]
fn preview_sides_stay_bounded() {
    assert_eq!(preview_side(300, 600, 256), 128);
    assert_eq!(preview_side(600, 600, 256), 256);
    assert_eq!(preview_side(3, 3, 256), 3);
    assert_eq!(preview_side(1, 1000, 256), 1);
    assert_eq!(preview_side(3, 1000, 256), 1);
    assert_eq!(preview_side(2, 1000, 256), 1);
    // 6 * 256 / 1000 = 1.536 rounds to 2
    assert_eq!(preview_side(6, 1000, 256), 2);
    assert_eq!(preview_side(5, 5, 0), 1);
    for (w, h) in [(1usize, 1usize), (1, 5000), (5000, 1), (257, 256), (1024, 768)] {
        let src = vec![0i64; w * h];
        let (pw, ph, bytes) = build_preview(&src, w, h, 256);
        assert!(pw >= 1 && pw <= 256 && pw <= w);
        assert!(ph >= 1 && ph <= 256 && ph <= h);
        assert_eq!(bytes.len(), pw * ph);
    }
}

#[test]
fn constant_map_previews_as_one_gray() {
    let src = vec![777i64; 12];
    let (w, h, bytes) = build_preview(&src, 4, 3, 256);
    assert_eq!((w, h), (4, 3));
    assert!(bytes.iter().all(|&b| b == 0));
}

#[test]
fn min_max_and_bytes() {
    assert_eq!(min_max(&vec![]), (0, 0));
    assert_eq!(min_max(&vec![3, -7, 12, 0]), (-7, 12));
    assert_eq!(normalize_byte(5, 5, 5), 0);
    assert_eq!(normalize_byte(0, 0, 10), 0);
    assert_eq!(normalize_byte(10, 0, 10), 255);
    // 5 / 10 * 255 = 127.5 rounds to 128
    assert_eq!(normalize_byte(5, 0, 10), 128);
    assert_eq!(normalize_byte(i64::MAX, i64::MIN, i64::MAX), 255);
    // out-of-range values are clamped
    assert_eq!(normalize_byte(-5, 0, 10), 0);
    assert_eq!(normalize_byte(20, 0, 10), 255);
    assert_eq!(normalize_byte(6, 5, 5), 255);
    assert_eq!(normalize_byte(1, 0, 3), 85);
}

#[test]
fn bank_runs_in_order() {
    let sheet = image(6, 6, |x, _| if x < 3 { 255 } else { 0 });
    let bank = split_kernels(&sheet, KernelShape::ThreeBySix).unwrap();
    let target = image(4, 4, |_, _| 255);
    let results = convolve_bank(&target, &bank, PREVIEW_MAX_SIZE);
    assert_eq!(results.len(), 2);
    // the first kernel is all +1, the second all -1
    assert_eq!(results[0].score_sum, results[1].score_sum);
    assert!(results[0].score_sum > 0);
    assert_eq!(results[0].pixel_count, 16);
    assert_eq!((results[0].width, results[0].height), (4, 4));
}

#[test]
fn session_reports_missing_pieces() {
    let mut s = Session::new();
    assert_eq!(s.next_empty_slot(), Some(ImageSlot::Slide));
    assert_eq!(s.split(), Err(SessionError::MissingImage { slot: ImageSlot::KernelSheet }));
    assert_eq!(s.run_all_convolutions(), Err(SessionError::MissingImage { slot: ImageSlot::Slide }));
    s.load_image(ImageSlot::Slide, image(4, 4, |_, _| 255));
    assert_eq!(s.next_empty_slot(), Some(ImageSlot::KernelSheet));
    assert_eq!(s.run_all_convolutions(), Err(SessionError::EmptyKernelBank));
    s.load_image(ImageSlot::KernelSheet, image(7, 6, |_, _| 0));
    assert_eq!(s.next_empty_slot(), None);
    assert_eq!(
        s.split(),
        Err(SessionError::DimensionMismatch {
            sheet_width: 7,
            sheet_height: 6,
            kernel_width: 3,
            kernel_height: 6
        })
    );
    assert!(s.bank.kernels.is_empty());
}

#[test]
fn session_full_run() {
    let mut s = Session::new();
    s.load_image(ImageSlot::Slide, image(4, 4, |_, _| 255));
    s.load_image(ImageSlot::KernelSheet, image(6, 12, |x, y| (x * 10 + y) as u8));
    assert_eq!(s.split(), Ok(()));
    assert_eq!(s.bank.kernels.len(), 4);
    assert_eq!(s.run_all_convolutions(), Ok(()));
    assert_eq!(s.previews.len(), 4);
    s.select_kernel(9);
    assert_eq!(s.selected_kernel, 3);
    s.select_kernel(1);
    assert_eq!(s.selected_kernel, 1);
    assert_eq!(s.selected_preview().unwrap().pixel_count, 16);
    // a successful re-run keeps the selected index
    assert_eq!(s.run_all_convolutions(), Ok(()));
    assert_eq!(s.selected_kernel, 1);
    // a new shape drops the results but keeps the kernels
    s.set_kernel_shape(KernelShape::SixByThree);
    assert!(s.previews.is_empty());
    assert_eq!(s.bank.kernels.len(), 4);
    s.load_image(ImageSlot::KernelSheet, image(6, 4, |_, _| 0));
    assert!(s.bank.kernels.is_empty());
    assert_eq!((s.bank.rows, s.bank.cols), (0, 0));
    assert!(s.split().is_err());
    assert_eq!(s.kernel_shape, KernelShape::SixByThree);
}

#[test]
fn failed_split_keeps_kernels_and_results() {
    let mut s = Session::new();
    s.load_image(ImageSlot::Slide, image(4, 4, |_, _| 255));
    s.load_image(ImageSlot::KernelSheet, image(6, 12, |x, y| (x * 10 + y) as u8));
    assert_eq!(s.split(), Ok(()));
    assert_eq!(s.run_all_convolutions(), Ok(()));
    s.select_kernel(2);
    let kernels = s.bank.kernels.clone();
    let scores: Vec<u128> = s.previews.iter().map(|p| p.score_sum).collect();
    // swap in a sheet that the new shape cannot divide, without the reset that loading does
    s.kernel_shape = KernelShape::SixByThree;
    s.kernel_sheet = Some(image(9, 12, |_, _| 0));
    assert_eq!(
        s.split(),
        Err(SessionError::DimensionMismatch {
            sheet_width: 9,
            sheet_height: 12,
            kernel_width: 6,
            kernel_height: 3
        })
    );
    assert_eq!(s.bank.kernels, kernels);
    assert_eq!((s.bank.rows, s.bank.cols), (2, 2));
    assert_eq!(s.previews.iter().map(|p| p.score_sum).collect::<Vec<u128>>(), scores);
    assert_eq!(s.selected_kernel, 2);
}
