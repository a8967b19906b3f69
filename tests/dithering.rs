use warbler_grass::dithering::{dither_density_map, DitherComputeError, FieldExtent, Position};
use warbler_grass::field::DensityField;

fn white() -> DensityField {
    DensityField::from_luma(1, 1, vec![255]).unwrap()
}

fn black() -> DensityField {
    let img = image::DynamicImage::ImageLuma8(image::GrayImage::from_pixel(1, 1, image::Luma([0])));
    DensityField::from_image(img).unwrap()
}

fn extent(width: i32, depth: i32) -> FieldExtent {
    FieldExtent { width, depth }
}

#[test]
fn dither_1x1() {
    let image = white();
    let dither = dither_density_map(image.clone(), 1000, extent(1000, 1000));
    assert!(dither.is_ok());
    assert_eq!(dither.unwrap().positions.len(), 1);
    let dither = dither_density_map(image.clone(), 1000, extent(10000, 5000));
    assert!(dither.is_ok());
    assert!(dither.unwrap().positions.len() == 10 * 5);
}

#[test]
fn dither_density() {
    let image = white();
    let dither = dither_density_map(image.clone(), 2000, extent(1000, 1000));
    assert_eq!(dither.unwrap().positions.len(), 2 * 2);
    let dither = dither_density_map(image.clone(), 2000, extent(10000, 5000));
    assert!(dither.unwrap().positions.len() == (10 * 2) * (5 * 2));
    let dither = dither_density_map(image.clone(), 5000, extent(1000, 1000));
    assert!(dither.unwrap().positions.len() == 5 * 5);
    let dither = dither_density_map(image.clone(), 100, extent(10000, 10000));
    assert!(dither.unwrap().positions.len() == 1);

    // with a black image we expect no instance regardless of density
    let image = black();
    let dither = dither_density_map(image.clone(), 2000, extent(1000, 1000));
    assert!(dither.unwrap().positions.is_empty());
    let dither = dither_density_map(image.clone(), 20000, extent(1000, 1000));
    assert!(dither.unwrap().positions.is_empty());
    let dither = dither_density_map(image.clone(), 2000, extent(10000, 5000));
    assert!(dither.unwrap().positions.is_empty());
}

#[test]
fn wrong_input() {
    let image = white();
    // density 0 gives no instance but still works
    let dither = dither_density_map(image.clone(), 0, extent(1000, 1000));
    assert!(dither.unwrap().positions.is_empty());
    let dither = dither_density_map(image.clone(), -1000, extent(1000, 1000));
    assert!(dither.is_err());
    let dither = dither_density_map(image.clone(), 1000, extent(0, 0));
    assert!(dither.is_err());
}

#[test]
fn dither_field_size() {
    let image = white();
    let dither = dither_density_map(image.clone(), 1000, extent(10000, 1000));
    assert!(dither.is_ok());
    let dither = dither_density_map(image.clone(), 1000, extent(10000, 10000));
    assert!(dither.is_ok());
    assert!(dither.unwrap().positions.len() == 10 * 10);
    let dither = dither_density_map(image.clone(), 0, extent(10000, 10000));
    assert!(dither.is_ok());
    assert!(dither.unwrap().positions.is_empty());

    let dither = dither_density_map(image.clone(), 1000, extent(0, 10000));
    assert_eq!(dither.unwrap_err(), DitherComputeError::ChunkAreaToSmall(0));
    let dither = dither_density_map(image.clone(), 1000, extent(100000, 0));
    assert_eq!(dither.unwrap_err(), DitherComputeError::ChunkAreaToSmall(0));
    let dither = dither_density_map(image.clone(), 1000, extent(0, 0));
    assert_eq!(dither.unwrap_err(), DitherComputeError::ChunkAreaToSmall(0));
    let dither = dither_density_map(image.clone(), 1000, extent(-10000, 0));
    assert_eq!(dither.unwrap_err(), DitherComputeError::ChunkAreaToSmall(0));

    let dither = dither_density_map(image.clone(), -100, extent(10000, 10000));
    assert_eq!(dither.unwrap_err(), DitherComputeError::DensityToSmall(-100));
}

#[test]
fn repeated_dithering_gives_identical_positions() {
    let samples: Vec<u8> = (0..64u32).map(|v| (v * 4) as u8).collect();
    let field = DensityField::from_luma(8, 8, samples).unwrap();
    let first = dither_density_map(field.clone(), 3000, extent(7000, 5000)).unwrap();
    let second = dither_density_map(field.clone(), 3000, extent(7000, 5000)).unwrap();
    assert_eq!(first.positions, second.positions);
    assert!(!first.positions.is_empty());
}

#[test]
fn white_field_count_is_product_of_grid_sides() {
    let field = DensityField::from_luma(3, 2, vec![255; 6]).unwrap();
    let out = dither_density_map(field.clone(), 1000, extent(10000, 5000)).unwrap();
    assert_eq!(out.positions.len(), 50);
    let out = dither_density_map(field.clone(), 2000, extent(1000, 1000)).unwrap();
    assert_eq!(out.positions.len(), 4);
    // floor(1.5 * 3) * floor(1.5 * 2) = 4 * 3
    let out = dither_density_map(field, 1500, extent(3000, 2000)).unwrap();
    assert_eq!(out.positions.len(), 12);
}

#[test]
fn zero_density_is_empty_success() {
    let out = dither_density_map(white(), 0, extent(5000, 5000));
    assert_eq!(out.unwrap().positions.len(), 0);
}

#[test]
fn negative_density_is_refused_first() {
    let out = dither_density_map(white(), -1000, extent(5000, 5000));
    assert_eq!(out.unwrap_err(), DitherComputeError::DensityToSmall(-1000));
    // the density is checked before the area
    let out = dither_density_map(white(), -1000, extent(0, 0));
    assert_eq!(out.unwrap_err(), DitherComputeError::DensityToSmall(-1000));
}

#[test]
fn tiny_area_is_refused() {
    // 0.01 * 0.009 = 0.00009, just below the minimum of 0.0001
    let out = dither_density_map(white(), 1000, extent(10, 9));
    assert_eq!(out.unwrap_err(), DitherComputeError::ChunkAreaToSmall(90));
    // exactly the minimum is accepted
    let out = dither_density_map(white(), 1000, extent(10, 10));
    assert!(out.unwrap().positions.is_empty());
}

#[test]
fn field_without_pixels_is_refused() {
    let field = DensityField { width: 0, height: 0, samples: vec![] };
    let out = dither_density_map(field, 1000, extent(1000, 1000));
    assert_eq!(out.unwrap_err(), DitherComputeError::ImageFormat);
    assert_eq!(DensityField::from_luma(0, 3, vec![]).unwrap_err(), DitherComputeError::ImageFormat);
    assert_eq!(
        DensityField::from_luma(2, 2, vec![1, 2, 3]).unwrap_err(),
        DitherComputeError::ImageFormat
    );
}

#[test]
fn positions_are_row_major_and_scaled() {
    let out = dither_density_map(white(), 1000, extent(2000, 2000)).unwrap();
    assert_eq!(
        out.positions,
        vec![
            Position { x: 0, z: 0 },
            Position { x: 0, z: 1000 },
            Position { x: 1000, z: 0 },
            Position { x: 1000, z: 1000 },
        ]
    );
}

#[test]
fn negative_extent_mirrors_positions() {
    let out = dither_density_map(white(), 1000, extent(-2000, -1000)).unwrap();
    assert_eq!(out.positions, vec![Position { x: 0, z: 0 }, Position { x: -1000, z: 0 }]);
}

#[test]
fn thresholds_follow_the_dither_matrix() {
    // intensity 5 beats only the thresholds 0 and 1 (times four), found at (0, 0) and (4, 4)
    let field = DensityField::from_luma(1, 1, vec![5]).unwrap();
    let out = dither_density_map(field, 1000, extent(8000, 8000)).unwrap();
    assert_eq!(out.positions, vec![Position { x: 0, z: 0 }, Position { x: 4000, z: 4000 }]);
    // intensity 252 beats every threshold but 63 (times four: 252), found at (7, 0)
    let field = DensityField::from_luma(1, 1, vec![252]).unwrap();
    let out = dither_density_map(field, 1000, extent(8000, 8000)).unwrap();
    assert_eq!(out.positions.len(), 63);
    assert!(!out.positions.contains(&Position { x: 7000, z: 0 }));
}

#[test]
fn cells_read_the_nearest_pixel() {
    // left half white, right half black: only the first of two columns keeps instances
    let field = DensityField::from_luma(2, 1, vec![255, 0]).unwrap();
    let out = dither_density_map(field, 1000, extent(2000, 1000)).unwrap();
    assert_eq!(out.positions, vec![Position { x: 0, z: 0 }]);
}

#[test]
fn image_of_any_layout_is_read_as_luma() {
    let mut rgb = image::RgbImage::new(2, 1);
    rgb.put_pixel(0, 0, image::Rgb([255, 255, 255]));
    rgb.put_pixel(1, 0, image::Rgb([0, 0, 0]));
    let field = DensityField::from_image(image::DynamicImage::ImageRgb8(rgb)).unwrap();
    assert_eq!(field.width, 2);
    assert_eq!(field.height, 1);
    assert_eq!(field.samples, vec![255, 0]);
    assert_eq!(field.intensity_at(1, 0), 0);
}

#[test]
fn empty_image_is_refused() {
    let img = image::DynamicImage::ImageLuma8(image::GrayImage::new(0, 0));
    assert_eq!(DensityField::from_image(img).unwrap_err(), DitherComputeError::ImageFormat);
}

#[test]
fn float_images_are_refused_without_panicking() {
    let mut rgb = image::Rgb32FImage::new(1, 1);
    rgb.put_pixel(0, 0, image::Rgb([f32::NAN, 0.5, 0.5]));
    let out = DensityField::from_image(image::DynamicImage::ImageRgb32F(rgb));
    assert_eq!(out.unwrap_err(), DitherComputeError::ImageFormat);
    let rgba = image::Rgba32FImage::from_pixel(2, 2, image::Rgba([1.0, 1.0, 1.0, 1.0]));
    let out = DensityField::from_image(image::DynamicImage::ImageRgba32F(rgba));
    assert_eq!(out.unwrap_err(), DitherComputeError::ImageFormat);
}

#[test]
fn converted_field_keeps_the_image_size() {
    let img = image::DynamicImage::ImageLuma16(image::ImageBuffer::from_pixel(3, 2, image::Luma([65535u16])));
    let field = DensityField::from_image(img).unwrap();
    assert_eq!((field.width, field.height), (3, 2));
    assert_eq!(field.samples, vec![255; 6]);
}
