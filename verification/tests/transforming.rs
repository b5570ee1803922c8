use image_render::encoder::encode;
use image_render::filter::{filter_kinds, FilterKind};
use image_render::grid::{PixelGrid, Rgb};
use image_render::resample::MAX_SIDE;
use image_render::transform::{check_transformable, transform, ASPECT_FACTOR};

fn gradient(width: u32, height: u32) -> PixelGrid {
    let mut data = Vec::new();
    for y in 0..height {
        for x in 0..width {
            data.push((x * 17 % 256) as u8);
            data.push((y * 29 % 256) as u8);
            data.push(((x + y) * 7 % 256) as u8);
        }
    }
    PixelGrid::new(width, height, data).unwrap()
}

fn crate_filter(kind: FilterKind) -> image::imageops::FilterType {
    match kind {
        FilterKind::Nearest => image::imageops::FilterType::Nearest,
        FilterKind::Triangle => image::imageops::FilterType::Triangle,
        FilterKind::CatmullRom => image::imageops::FilterType::CatmullRom,
        FilterKind::Gaussian => image::imageops::FilterType::Gaussian,
        FilterKind::Lanczos3 => image::imageops::FilterType::Lanczos3,
    }
}

fn as_image(grid: &PixelGrid) -> image::DynamicImage {
    let buffer = image::RgbImage::from_raw(grid.width(), grid.height(), grid.as_raw().clone());
    image::DynamicImage::ImageRgb8(buffer.unwrap())
}

fn is_scaled(from: i64, to: i64, side: i64, scaled: i64) -> bool {
    let twice = 2 * (scaled * from - side * to);
    (-from <= twice && twice <= from) || (scaled == 1 && 2 * side * to < from)
}

fn is_largest_fit(width: u32, height: u32, bounds: (u32, u32), out: &PixelGrid) -> bool {
    let (width, height) = (width as i64, height as i64);
    let (box_width, box_height) = (bounds.0 as i64, bounds.1 as i64);
    let (out_width, out_height) = (out.width() as i64, out.height() as i64);
    1 <= out_width
        && out_width <= box_width
        && 1 <= out_height
        && out_height <= box_height
        && ((out_width == box_width && is_scaled(width, box_width, height, out_height))
            || (out_height == box_height && is_scaled(height, box_height, width, out_width)))
}

#[test]
fn fitted_side_is_the_scaled_side_rounded() {
    let cases = [
        ((10u32, 10u32), (60u32, 60u32), (60u32, 20u32)),
        ((10, 10), (15, 60), (15, 5)),
        ((10, 30), (100, 15), (15, 15)),
        ((7, 3), (10, 10), (10, 1)),
        ((1, 100), (50, 50), (2, 50)),
        ((1, 100), (1, 1), (1, 1)),
        ((100, 1), (7, 7), (7, 1)),
        ((5, 7), (4, 100), (4, 2)),
        ((5, 7), (100, 4), (9, 4)),
        ((3, 2), (2, 100), (2, 1)),
    ];
    for (source, bounds, expected) in cases {
        let out = transform(&gradient(source.0, source.1), FilterKind::Triangle, Some(bounds));
        assert_eq!((out.width(), out.height()), expected);
        assert!(is_largest_fit(3 * source.0, source.1, bounds, &out));
    }
}

#[test]
fn fitted_proportions_differ_by_less_than_the_longer_side() {
    let cases = [(4u32, 5u32, 10u32, 10u32), (4, 5, 100, 3), (4, 5, 7, 100), (3, 3, 80, 24), (9, 2, 33, 7)];
    for (width, height, box_width, box_height) in cases {
        let out = transform(&gradient(width, height), FilterKind::Gaussian, Some((box_width, box_height)));
        let (wide, high) = (3 * width as i64, height as i64);
        assert!(box_width as i64 * high >= wide && wide * box_height as i64 >= high);
        let cross = out.width() as i64 * high - out.height() as i64 * wide;
        assert!(cross.abs() < wide.max(high));
        assert!(out.width() == box_width || out.height() == box_height);
    }
}

#[test]
fn aspect_factor_is_three() {
    assert_eq!(ASPECT_FACTOR, 3);
}

#[test]
fn without_a_box_the_width_is_tripled() {
    for kind in filter_kinds() {
        let out = transform(&gradient(4, 5), kind, None);
        assert_eq!((out.width(), out.height()), (12, 5));
        assert_eq!(out.as_raw().len(), 3 * 12 * 5);
    }
    let out = transform(&gradient(1, 1), FilterKind::Nearest, None);
    assert_eq!((out.width(), out.height()), (3, 1));
    let out = transform(&gradient(7, 1), FilterKind::Gaussian, None);
    assert_eq!((out.width(), out.height()), (21, 1));
}

#[test]
fn nearest_stretch_repeats_every_pixel_three_times() {
    let source = PixelGrid::new(2, 2, vec![1, 2, 3, 4, 5, 6, 7, 8, 9, 10, 11, 12]).unwrap();
    let out = transform(&source, FilterKind::Nearest, None);
    assert_eq!((out.width(), out.height()), (6, 2));
    for y in 0..2 {
        for x in 0..6 {
            assert_eq!(out.pixel(x, y), source.pixel(x / 3, y));
        }
    }
    assert_eq!(out.pixel(5, 1), Rgb { red: 10, green: 11, blue: 12 });
}

#[test]
fn stretch_is_what_the_image_crate_computes() {
    let source = gradient(5, 4);
    for kind in filter_kinds() {
        let out = transform(&source, kind, None);
        let direct = as_image(&source).resize_exact(15, 4, crate_filter(kind)).into_rgb8();
        assert_eq!((out.width(), out.height()), direct.dimensions());
        assert_eq!(out.as_raw(), direct.as_raw());
    }
}

#[test]
fn with_a_box_the_image_fits_inside() {
    let cases = [
        (4u32, 5u32, 10u32, 10u32),
        (4, 5, 100, 3),
        (4, 5, 3, 100),
        (1, 1, 1, 1),
        (1, 50, 7, 7),
        (50, 1, 7, 7),
        (3, 3, 9, 3),
        (3, 3, 80, 24),
        (10, 10, 1, 1000),
        (10, 10, 1000, 1),
    ];
    for (width, height, box_width, box_height) in cases {
        for kind in filter_kinds() {
            let out = transform(&gradient(width, height), kind, Some((box_width, box_height)));
            assert!(out.width() >= 1 && out.width() <= box_width);
            assert!(out.height() >= 1 && out.height() <= box_height);
            assert!(out.width() == box_width || out.height() == box_height);
            assert_eq!(out.as_raw().len() as u64, 3 * out.width() as u64 * out.height() as u64);
        }
    }
}

#[test]
fn fitting_keeps_the_stretched_proportions() {
    let out = transform(&gradient(10, 10), FilterKind::Triangle, Some((60, 60)));
    assert_eq!((out.width(), out.height()), (60, 20));
    let out = transform(&gradient(10, 10), FilterKind::Triangle, Some((15, 60)));
    assert_eq!((out.width(), out.height()), (15, 5));
    let out = transform(&gradient(10, 30), FilterKind::Nearest, Some((100, 15)));
    assert_eq!((out.width(), out.height()), (15, 15));
    let out = transform(&gradient(4, 4), FilterKind::Lanczos3, Some((12, 4)));
    assert_eq!((out.width(), out.height()), (12, 4));
    let out = transform(&gradient(100, 1), FilterKind::Nearest, Some((30, 30)));
    assert_eq!((out.width(), out.height()), (30, 1));
}

#[test]
fn fitting_is_what_the_image_crate_computes() {
    let source = gradient(6, 5);
    let boxes = [(10u32, 10u32), (7, 3), (18, 5), (40, 2), (1, 1), (80, 24)];
    for (box_width, box_height) in boxes {
        for kind in filter_kinds() {
            let out = transform(&source, kind, Some((box_width, box_height)));
            let stretched = as_image(&source).resize_exact(18, 5, crate_filter(kind));
            let direct = stretched.resize(box_width, box_height, crate_filter(kind)).into_rgb8();
            assert_eq!((out.width(), out.height()), direct.dimensions());
            assert_eq!(out.as_raw(), direct.as_raw());
        }
    }
}

#[test]
fn dimensions_do_not_depend_on_the_colours() {
    let first = transform(&gradient(9, 4), FilterKind::Gaussian, Some((20, 20)));
    let blank = PixelGrid::new(9, 4, vec![0; 3 * 9 * 4]).unwrap();
    let second = transform(&blank, FilterKind::Gaussian, Some((20, 20)));
    assert_eq!((first.width(), first.height()), (second.width(), second.height()));
    let third = transform(&blank, FilterKind::Nearest, Some((20, 20)));
    assert_eq!((first.width(), first.height()), (third.width(), third.height()));
}

#[test]
fn box_without_area_gives_no_pixels() {
    for bounds in [(0u32, 0u32), (0, 10), (10, 0)] {
        let out = transform(&gradient(4, 5), FilterKind::Nearest, Some(bounds));
        assert_eq!((out.width(), out.height()), (0, 0));
        assert!(out.as_raw().is_empty());
    }
}

#[test]
fn image_without_pixels_gives_no_pixels() {
    let flat = PixelGrid::new(0, 5, Vec::new()).unwrap();
    let out = transform(&flat, FilterKind::Triangle, Some((10, 10)));
    assert_eq!((out.width(), out.height()), (0, 0));
    let out = transform(&flat, FilterKind::Triangle, None);
    assert_eq!((out.width(), out.height()), (0, 5));
    assert!(out.as_raw().is_empty());
    let thin = PixelGrid::new(5, 0, Vec::new()).unwrap();
    let out = transform(&thin, FilterKind::CatmullRom, Some((10, 10)));
    assert_eq!((out.width(), out.height()), (0, 0));
    let out = transform(&thin, FilterKind::CatmullRom, None);
    assert_eq!((out.width(), out.height()), (15, 0));
    let out = transform(&PixelGrid::empty(), FilterKind::Lanczos3, None);
    assert_eq!((out.width(), out.height()), (0, 0));
}

#[test]
fn small_images_can_be_transformed() {
    assert!(check_transformable(0, 0, None));
    assert!(check_transformable(640, 480, None));
    assert!(check_transformable(640, 480, Some((80, 24))));
    assert!(check_transformable(640, 480, Some((0, 0))));
    assert!(check_transformable(4000, 3000, Some((65535, 65535))));
}

#[test]
fn longest_side_is_two_to_the_twenty_second() {
    assert_eq!(MAX_SIDE, 1 << 22);
    assert!(check_transformable(1398101, 1, None));
    assert!(!check_transformable(1398102, 1, None));
    assert!(check_transformable(1, 1 << 22, None));
    assert!(!check_transformable(1, (1 << 22) + 1, None));
    assert!(check_transformable(1, 1, Some((1 << 22, 1))));
    assert!(!check_transformable(1, 1, Some(((1 << 22) + 1, 1))));
    assert!(check_transformable(1, 1, Some((1, 1 << 22))));
    assert!(!check_transformable(1, 1, Some((1, (1 << 22) + 1))));
    assert!(!check_transformable(u32::MAX, 1, None));
    assert!(!check_transformable(1, u32::MAX, None));
    assert!(!check_transformable(u32::MAX, u32::MAX, Some((u32::MAX, u32::MAX))));
}

#[test]
fn box_held_at_the_largest_number_is_refused() {
    assert!(!check_transformable(640, 480, Some((u32::MAX, 1))));
    assert!(!check_transformable(640, 480, Some((1, u32::MAX))));
    assert!(!check_transformable(640, 480, Some((u32::MAX, u32::MAX))));
    assert!(check_transformable(640, 480, Some((u32::MAX, 0))));
}

#[test]
fn box_is_not_looked_at_where_nothing_is_fitted() {
    assert!(check_transformable(10, 10, Some((0, u32::MAX))));
    assert!(check_transformable(10, 10, Some((u32::MAX, 0))));
    assert!(check_transformable(0, 10, Some((u32::MAX, u32::MAX))));
    assert!(check_transformable(10, 0, Some((u32::MAX, u32::MAX))));
    let out = transform(&gradient(10, 10), FilterKind::Gaussian, Some((u32::MAX, 0)));
    assert_eq!((out.width(), out.height()), (0, 0));
}

#[test]
fn buffers_must_be_addressable() {
    let limit = isize::MAX as u128;
    let side: u32 = 1 << 18;
    let needed = 16 * (side as u128) * (side as u128);
    assert_eq!(check_transformable(side, side, None), needed <= limit);
    let needed = 16 * 3 * (side as u128) * (1u128 << 20);
    assert_eq!(check_transformable(side, 1, Some((1, 1 << 20))), needed <= limit);
}

#[test]
fn long_sides_within_the_limit_are_resampled() {
    let wide = PixelGrid::new(1398101, 1, vec![9; 3 * 1398101]).unwrap();
    assert!(check_transformable(wide.width(), wide.height(), Some((1 << 22, 1))));
    assert!(check_transformable(wide.width(), wide.height(), Some((1 << 22, 2))));
    for kind in [FilterKind::Triangle, FilterKind::CatmullRom] {
        let out = transform(&wide, kind, Some((1 << 22, 1)));
        assert_eq!((out.width(), out.height()), (3 * 1398101, 1));
        assert_eq!(out.pixel(3 * 1398101 - 1, 0), Rgb { red: 9, green: 9, blue: 9 });
    }
    let out = transform(&wide, FilterKind::Lanczos3, Some((1 << 22, 2)));
    assert_eq!((out.width(), out.height()), (1 << 22, 1));
    assert_eq!(out.pixel((1 << 22) - 1, 0), Rgb { red: 9, green: 9, blue: 9 });
}

#[test]
fn fitted_image_lies_inside_the_box_and_reaches_it() {
    let mut state: u64 = 0x2545f4914f6cdd1d;
    let mut next = move |bound: u64| {
        state = state.wrapping_mul(6364136223846793005).wrapping_add(1442695040888963407);
        1 + ((state >> 33) % bound) as u32
    };
    for round in 0..300 {
        let source = gradient(next(40), next(40));
        let bounds = (next(90), next(90));
        let kind = filter_kinds()[round % 5];
        let out = transform(&source, kind, Some(bounds));
        assert!(out.width() >= 1 && out.width() <= bounds.0);
        assert!(out.height() >= 1 && out.height() <= bounds.1);
        assert!(out.width() == bounds.0 || out.height() == bounds.1);
        assert!(is_largest_fit(3 * source.width(), source.height(), bounds, &out));
        assert_eq!(out.as_raw().len(), 3 * (out.width() * out.height()) as usize);
        let direct = as_image(&source)
            .resize_exact(3 * source.width(), source.height(), crate_filter(FilterKind::Nearest))
            .resize(bounds.0, bounds.1, crate_filter(FilterKind::Nearest));
        assert_eq!((out.width(), out.height()), (direct.width(), direct.height()));
    }
}

fn lines_of(bytes: &[u8]) -> Vec<usize> {
    assert_eq!(bytes.last(), Some(&b'\n'));
    let body = &bytes[..bytes.len() - 1];
    body.split(|byte| *byte == b'\n')
        .map(|line| line.iter().filter(|byte| **byte == b' ').count())
        .collect()
}

#[test]
fn unfitted_image_is_shown_as_rows_of_three_cells_per_column() {
    for (width, height) in [(1u32, 1u32), (4, 5), (7, 2), (2, 9)] {
        for kind in filter_kinds() {
            let out = transform(&gradient(width, height), kind, None);
            let cells = lines_of(&encode(&out));
            assert_eq!(cells.len(), height as usize);
            assert!(cells.iter().all(|count| *count == 3 * width as usize));
        }
    }
}

#[test]
fn fitted_image_is_shown_inside_the_box() {
    for (width, height, box_width, box_height) in [(4u32, 5u32, 10u32, 10u32), (4, 5, 100, 3), (9, 2, 5, 40), (1, 1, 1, 1)] {
        for kind in filter_kinds() {
            let out = transform(&gradient(width, height), kind, Some((box_width, box_height)));
            let cells = lines_of(&encode(&out));
            assert!(cells.len() >= 1 && cells.len() <= box_height as usize);
            assert_eq!(cells.len(), out.height() as usize);
            assert!(cells.iter().all(|count| *count >= 1 && *count <= box_width as usize));
            assert!(cells.iter().all(|count| *count == out.width() as usize));
        }
    }
}
