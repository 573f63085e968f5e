use raytracer::error::PipelineError;
use raytracer::format::{encode, ByteOrder, Opacity, SurfaceFormat};
use raytracer::presenter::{
    frame_fits, paint_band, paint_rows, present, present_in_bands, present_sequential, write_row,
};

fn scenario_pixels() -> Vec<i32> {
    vec![
        0x00010203, 0x0A0B0C0D, 0x10111213, 0x1A1B1C1D, 0x20212223, 0x2A2B2C2D, 0x30313233,
        0x3A3B3C3D,
    ]
}

fn scenario_bytes() -> Vec<u8> {
    vec![
        0x00, 0x01, 0x02, 0x03, 0x0A, 0x0B, 0x0C, 0x0D, 0x10, 0x11, 0x12, 0x13, 0x1A, 0x1B, 0x1C,
        0x1D, 0x20, 0x21, 0x22, 0x23, 0x2A, 0x2B, 0x2C, 0x2D, 0x30, 0x31, 0x32, 0x33, 0x3A, 0x3B,
        0x3C, 0x3D,
    ]
}

fn sample_frame(width: usize, height: usize) -> Vec<i32> {
    let mut pixels = Vec::with_capacity(width * height);
    let mut word: u32 = 0x9E37_79B9;
    for _ in 0..width * height {
        word = word.wrapping_mul(1_664_525).wrapping_add(1_013_904_223);
        pixels.push(word as i32);
    }
    pixels
}

fn expected_surface(
    before: &[u8],
    pitch: usize,
    pixels: &[i32],
    width: usize,
    height: usize,
    format: SurfaceFormat,
) -> Vec<u8> {
    let mut out = before.to_vec();
    for y in 0..height {
        for x in 0..width {
            let bytes = encode(pixels[y * width + x], format);
            for k in 0..4 {
                out[y * pitch + 4 * x + k] = bytes[k];
            }
        }
    }
    out
}

#[test]
fn scenario_four_by_two() {
    let pixels = scenario_pixels();
    let mut surface = vec![0xEEu8; 32];
    let r = present(&mut surface, 16, &pixels, 4, 2, SurfaceFormat::rgba8888());
    assert_eq!(r, Ok(()));
    assert_eq!(surface, scenario_bytes());
    assert_eq!(&surface[0..4], &[0x00, 0x01, 0x02, 0x03]);
    assert_eq!(&surface[4..8], &[0x0A, 0x0B, 0x0C, 0x0D]);
    assert_eq!(&surface[28..32], &[0x3A, 0x3B, 0x3C, 0x3D]);
}

#[test]
fn scenario_four_by_two_sequential() {
    let pixels = scenario_pixels();
    let mut surface = vec![0xEEu8; 32];
    let r = present_sequential(&mut surface, 16, &pixels, 4, 2, SurfaceFormat::rgba8888());
    assert_eq!(r, Ok(()));
    assert_eq!(surface, scenario_bytes());
}

#[test]
fn scenario_four_by_two_in_bands() {
    let pixels = scenario_pixels();
    for workers in 1..=4usize {
        let mut surface = vec![0xEEu8; 32];
        let r = present_in_bands(&mut surface, 16, &pixels, 4, 2, SurfaceFormat::rgba8888(), workers);
        assert_eq!(r, Ok(()));
        assert_eq!(surface, scenario_bytes());
    }
}

#[test]
fn present_changes_the_surface() {
    let pixels = vec![0x01020304; 6];
    let before = vec![0u8; 24];
    let mut surface = before.clone();
    assert_eq!(present(&mut surface, 12, &pixels, 3, 2, SurfaceFormat::rgba8888()), Ok(()));
    assert_ne!(surface, before);
    assert_eq!(&surface[20..24], &[1, 2, 3, 4]);
}

#[test]
fn present_writes_every_byte_of_a_tight_surface() {
    let width = 5;
    let height = 3;
    let pixels: Vec<i32> = vec![0x01010101; width * height];
    let mut surface = vec![0u8; width * height * 4];
    assert_eq!(present(&mut surface, 4 * width, &pixels, width, height, SurfaceFormat::rgba8888()), Ok(()));
    assert_eq!(surface.len(), width * height * 4);
    assert_eq!(surface.iter().filter(|&&b| b == 1).count(), width * height * 4);
}

#[test]
fn present_writes_four_bytes_per_pixel_and_no_other() {
    let width = 3;
    let height = 4;
    let pitch = 20;
    let pixels: Vec<i32> = vec![0x01010101; width * height];
    let mut surface = vec![0u8; pitch * height + 7];
    assert_eq!(present(&mut surface, pitch, &pixels, width, height, SurfaceFormat::rgba8888()), Ok(()));
    assert_eq!(surface.iter().filter(|&&b| b == 1).count(), width * height * 4);
    assert_eq!(surface.iter().filter(|&&b| b == 0).count(), pitch * height + 7 - width * height * 4);
    for y in 0..height {
        for j in 0..pitch {
            let want = if j < 4 * width { 1 } else { 0 };
            assert_eq!(surface[y * pitch + j], want);
        }
    }
    assert_eq!(&surface[pitch * height..], &[0u8; 7]);
}

#[test]
fn present_honours_the_pitch() {
    let pixels = scenario_pixels();
    let before: Vec<u8> = (0..48u8).map(|i| 0x80 | i).collect();
    let mut surface = before.clone();
    assert_eq!(present(&mut surface, 24, &pixels, 4, 2, SurfaceFormat::rgba8888()), Ok(()));
    let bytes = scenario_bytes();
    assert_eq!(&surface[0..16], &bytes[0..16]);
    assert_eq!(&surface[16..24], &before[16..24]);
    assert_eq!(&surface[24..40], &bytes[16..32]);
    assert_eq!(&surface[40..48], &before[40..48]);
}

#[test]
fn present_takes_a_surface_whose_last_row_is_short() {
    let pixels = scenario_pixels();
    let before = vec![0x77u8; 24 + 16];
    let mut a = before.clone();
    let mut b = before.clone();
    let mut c = before.clone();
    assert_eq!(present(&mut a, 24, &pixels, 4, 2, SurfaceFormat::rgba8888()), Ok(()));
    assert_eq!(present_sequential(&mut b, 24, &pixels, 4, 2, SurfaceFormat::rgba8888()), Ok(()));
    assert_eq!(present_in_bands(&mut c, 24, &pixels, 4, 2, SurfaceFormat::rgba8888(), 2), Ok(()));
    let want = expected_surface(&before, 24, &pixels, 4, 2, SurfaceFormat::rgba8888());
    assert_eq!(a, want);
    assert_eq!(b, want);
    assert_eq!(c, want);
    assert_eq!(&a[16..24], &[0x77u8; 8]);
}

#[test]
fn present_in_every_format() {
    let pixels = scenario_pixels();
    let orders = [ByteOrder::MostSignificantFirst, ByteOrder::LeastSignificantFirst];
    let opacities = [Opacity::FromBuffer, Opacity::ForcedOpaque];
    for &order in orders.iter() {
        for &opacity in opacities.iter() {
            let format = SurfaceFormat { order, opacity };
            let before = vec![0x55u8; 40];
            let mut surface = before.clone();
            assert_eq!(present(&mut surface, 20, &pixels, 4, 2, format), Ok(()));
            assert_eq!(surface, expected_surface(&before, 20, &pixels, 4, 2, format));
        }
    }
    let lsb_opaque = SurfaceFormat { order: ByteOrder::LeastSignificantFirst, opacity: Opacity::ForcedOpaque };
    let mut surface = vec![0u8; 32];
    assert_eq!(present(&mut surface, 16, &pixels, 4, 2, lsb_opaque), Ok(()));
    assert_eq!(&surface[0..8], &[0xFF, 0x02, 0x01, 0x00, 0xFF, 0x0C, 0x0B, 0x0A]);
}

#[test]
fn parallel_sequential_and_banded_agree() {
    let shapes: [(usize, usize, usize, usize); 5] =
        [(37, 23, 160, 0), (1, 1, 4, 0), (16, 9, 64, 5), (3, 64, 13, 1), (64, 3, 300, 0)];
    for &(width, height, pitch, extra) in shapes.iter() {
        let pixels = sample_frame(width, height);
        let before: Vec<u8> = (0..pitch * height + extra).map(|i| (i % 251) as u8).collect();
        let format = SurfaceFormat::rgba8888();
        let want = expected_surface(&before, pitch, &pixels, width, height, format);
        let mut parallel = before.clone();
        assert_eq!(present(&mut parallel, pitch, &pixels, width, height, format), Ok(()));
        assert_eq!(parallel, want);
        let mut sequential = before.clone();
        assert_eq!(present_sequential(&mut sequential, pitch, &pixels, width, height, format), Ok(()));
        assert_eq!(sequential, want);
        for workers in [1usize, 2, 3, 4, 5, 7, 8, 23, 24, 100] {
            let mut banded = before.clone();
            assert_eq!(
                present_in_bands(&mut banded, pitch, &pixels, width, height, format, workers),
                Ok(())
            );
            assert_eq!(banded, sequential);
        }
    }
}

#[test]
fn bands_that_divide_the_height_and_bands_that_do_not() {
    let width = 4;
    let height = 12;
    let pixels = sample_frame(width, height);
    let before = vec![0u8; 16 * height];
    let mut single = before.clone();
    assert_eq!(
        present_sequential(&mut single, 16, &pixels, width, height, SurfaceFormat::rgba8888()),
        Ok(())
    );
    for workers in [3usize, 4, 6, 12, 5, 7, 11, 13] {
        let mut banded = before.clone();
        assert_eq!(
            present_in_bands(&mut banded, 16, &pixels, width, height, SurfaceFormat::rgba8888(), workers),
            Ok(())
        );
        assert_eq!(banded, single);
    }
}

#[test]
fn present_refuses_a_pitch_that_is_too_small() {
    let pixels = scenario_pixels();
    let before = vec![9u8; 64];
    let mut surface = before.clone();
    assert_eq!(
        present(&mut surface, 15, &pixels, 4, 2, SurfaceFormat::rgba8888()),
        Err(PipelineError::Present)
    );
    assert_eq!(surface, before);
    assert_eq!(
        present_sequential(&mut surface, 15, &pixels, 4, 2, SurfaceFormat::rgba8888()),
        Err(PipelineError::Present)
    );
    assert_eq!(
        present_in_bands(&mut surface, 15, &pixels, 4, 2, SurfaceFormat::rgba8888(), 2),
        Err(PipelineError::Present)
    );
    assert_eq!(surface, before);
}

#[test]
fn present_refuses_a_surface_that_is_too_short() {
    let pixels = scenario_pixels();
    let before = vec![9u8; 31];
    let mut surface = before.clone();
    assert_eq!(
        present(&mut surface, 16, &pixels, 4, 2, SurfaceFormat::rgba8888()),
        Err(PipelineError::Present)
    );
    assert_eq!(surface, before);
}

#[test]
fn present_refuses_a_frame_of_the_wrong_size() {
    let before = vec![9u8; 64];
    let mut surface = before.clone();
    let short = vec![0i32; 7];
    assert_eq!(
        present(&mut surface, 16, &short, 4, 2, SurfaceFormat::rgba8888()),
        Err(PipelineError::Present)
    );
    let long = vec![0i32; 9];
    assert_eq!(
        present(&mut surface, 16, &long, 4, 2, SurfaceFormat::rgba8888()),
        Err(PipelineError::Present)
    );
    assert_eq!(surface, before);
}

#[test]
fn present_in_bands_refuses_no_workers() {
    let pixels = scenario_pixels();
    let before = vec![9u8; 32];
    let mut surface = before.clone();
    assert_eq!(
        present_in_bands(&mut surface, 16, &pixels, 4, 2, SurfaceFormat::rgba8888(), 0),
        Err(PipelineError::Present)
    );
    assert_eq!(surface, before);
}

#[test]
fn present_of_an_empty_frame_changes_nothing() {
    let before = vec![3u8; 10];
    let mut surface = before.clone();
    let none: Vec<i32> = Vec::new();
    assert_eq!(present(&mut surface, 0, &none, 0, 5, SurfaceFormat::rgba8888()), Ok(()));
    assert_eq!(present(&mut surface, 8, &none, 2, 0, SurfaceFormat::rgba8888()), Ok(()));
    assert_eq!(present_sequential(&mut surface, 0, &none, 0, 0, SurfaceFormat::rgba8888()), Ok(()));
    assert_eq!(present_in_bands(&mut surface, 0, &none, 0, 3, SurfaceFormat::rgba8888(), 2), Ok(()));
    assert_eq!(surface, before);
}

#[test]
fn frame_fits_says_when_a_surface_can_take_a_frame() {
    assert!(frame_fits(32, 16, 8, 4, 2));
    assert!(frame_fits(40, 24, 8, 4, 2));
    assert!(frame_fits(0, 0, 0, 0, 0));
    assert!(frame_fits(0, 16, 0, 4, 0));
    assert!(!frame_fits(39, 24, 8, 4, 2));
    assert!(!frame_fits(32, 15, 8, 4, 2));
    assert!(!frame_fits(32, 16, 7, 4, 2));
    assert!(!frame_fits(usize::MAX, usize::MAX, 0, usize::MAX, 2));
    assert!(!frame_fits(usize::MAX, usize::MAX, usize::MAX, usize::MAX, 1));
    assert!(!frame_fits(usize::MAX, usize::MAX, 8, 2, 4));
}

#[test]
fn write_row_writes_one_row() {
    let pixels = scenario_pixels();
    let mut row = vec![0xAAu8; 20];
    write_row(&mut row, &pixels, 4, 1, SurfaceFormat::rgba8888());
    assert_eq!(&row[0..16], &scenario_bytes()[16..32]);
    assert_eq!(&row[16..20], &[0xAAu8; 4]);
}

#[test]
fn paint_rows_writes_the_frame() {
    let pixels = scenario_pixels();
    let mut surface = vec![0u8; 32];
    paint_rows(&mut surface, 16, &pixels, 4, 2, SurfaceFormat::rgba8888());
    assert_eq!(surface, scenario_bytes());
}

#[test]
fn paint_band_writes_its_rows_only() {
    let width = 2;
    let height = 5;
    let pitch = 10;
    let pixels = sample_frame(width, height);
    let before = vec![0x11u8; pitch * height];
    let whole = expected_surface(&before, pitch, &pixels, width, height, SurfaceFormat::rgba8888());
    let mut surface = before.clone();
    paint_band(&mut surface, pitch, &pixels, width, 1, 3, SurfaceFormat::rgba8888());
    assert_eq!(&surface[0..pitch], &before[0..pitch]);
    assert_eq!(&surface[pitch..3 * pitch], &whole[pitch..3 * pitch]);
    assert_eq!(&surface[3 * pitch..], &before[3 * pitch..]);
    paint_band(&mut surface, pitch, &pixels, width, 3, 5, SurfaceFormat::rgba8888());
    paint_band(&mut surface, pitch, &pixels, width, 0, 1, SurfaceFormat::rgba8888());
    paint_band(&mut surface, pitch, &pixels, width, 2, 2, SurfaceFormat::rgba8888());
    assert_eq!(surface, whole);
}

#[test]
fn rows_can_be_written_in_any_order() {
    let width = 3;
    let height = 4;
    let pitch = 12;
    let pixels = sample_frame(width, height);
    let before = vec![0u8; pitch * height];
    let mut forward = before.clone();
    for y in 0..height {
        paint_band(&mut forward, pitch, &pixels, width, y, y + 1, SurfaceFormat::rgba8888());
    }
    let mut backward = before.clone();
    for y in (0..height).rev() {
        paint_band(&mut backward, pitch, &pixels, width, y, y + 1, SurfaceFormat::rgba8888());
    }
    assert_eq!(forward, backward);
    assert_eq!(forward, expected_surface(&before, pitch, &pixels, width, height, SurfaceFormat::rgba8888()));
}

#[test]
fn more_workers_than_rows() {
    let pixels = scenario_pixels();
    for workers in [3usize, 1000, usize::MAX] {
        let mut surface = vec![0u8; 32];
        assert_eq!(
            present_in_bands(&mut surface, 16, &pixels, 4, 2, SurfaceFormat::rgba8888(), workers),
            Ok(())
        );
        assert_eq!(surface, scenario_bytes());
    }
}
