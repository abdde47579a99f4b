use rustphoto::image::{Image, Pixel};
use rustphoto::transforms::{
    Crop, Fit, Flip, FlipAxis, Rotate, RotateAngle, Transform, TransformError, Transformation,
};

fn gray(v: u8) -> Pixel {
    Pixel::new(v, v, v)
}

/// An image whose pixel at index `i` has the value `i` in every channel.
fn counted(width: i32, height: i32) -> Image {
    let pixels = (0..width * height).map(|i| gray(i as u8)).collect();
    Image::from_pixels(width, height, pixels).unwrap()
}

fn values(image: &Image) -> Vec<u8> {
    image.pixels().iter().map(|p| p.r).collect()
}

fn same(a: &Image, b: &Image) -> bool {
    a.width() == b.width() && a.height() == b.height() && a.pixels() == b.pixels()
}

#[test]
fn crop_copies_the_rectangle() {
    // 0 1 2 3
    // 4 5 6 7
    // 8 9 10 11
    let out = Crop::new(1, 1, 2, 2).apply(&counted(4, 3)).unwrap();
    assert_eq!((out.width(), out.height()), (2, 2));
    assert_eq!(values(&out), vec![5, 6, 9, 10]);
}

#[test]
fn crop_of_everything_is_identity() {
    let image = counted(4, 3);
    let out = Crop::new(0, 0, 4, 3).apply(&image).unwrap();
    assert!(same(&out, &image));
}

#[test]
fn crop_leaves_the_source_alone() {
    let image = counted(4, 3);
    let _ = Crop::new(1, 0, 2, 2).apply(&image).unwrap();
    assert_eq!(values(&image), (0..12).collect::<Vec<u8>>());
}

#[test]
fn crop_too_wide_is_out_of_bounds() {
    let result = Crop::new(3, 0, 2, 1).apply(&counted(4, 3));
    assert!(matches!(result, Err(TransformError::OutOfBounds)));
}

#[test]
fn crop_too_tall_is_out_of_bounds() {
    let result = Crop::new(0, 2, 1, 2).apply(&counted(4, 3));
    assert!(matches!(result, Err(TransformError::OutOfBounds)));
}

#[test]
fn crop_with_huge_sides_does_not_overflow() {
    let result = Crop::new(i32::MAX, i32::MAX, i32::MAX, i32::MAX).apply(&counted(4, 3));
    assert!(matches!(result, Err(TransformError::OutOfBounds)));
}

#[test]
fn crop_with_negative_parts_is_out_of_bounds() {
    let image = counted(4, 3);
    assert!(Crop::new(-1, 0, 2, 2).apply(&image).is_err());
    assert!(Crop::new(0, -1, 2, 2).apply(&image).is_err());
    assert!(Crop::new(0, 0, -2, 2).apply(&image).is_err());
    assert!(Crop::new(0, 0, 2, -2).apply(&image).is_err());
}

#[test]
fn crop_to_the_edge_succeeds() {
    let out = Crop::new(2, 1, 2, 2).apply(&counted(4, 3)).unwrap();
    assert_eq!(values(&out), vec![6, 7, 10, 11]);
}

#[test]
fn crop_of_zero_width_is_empty() {
    let out = Crop::new(1, 1, 0, 2).apply(&counted(4, 3)).unwrap();
    assert_eq!((out.width(), out.height()), (0, 2));
    assert!(out.pixels().is_empty());
}

#[test]
fn flip_horizontal_mirrors_rows() {
    // 0 1 2
    // 3 4 5
    let out = Flip::new(FlipAxis::Horizontal).apply(&counted(3, 2)).unwrap();
    assert_eq!((out.width(), out.height()), (3, 2));
    assert_eq!(values(&out), vec![2, 1, 0, 5, 4, 3]);
}

#[test]
fn flip_vertical_mirrors_columns() {
    let out = Flip::new(FlipAxis::Vertical).apply(&counted(3, 2)).unwrap();
    assert_eq!((out.width(), out.height()), (3, 2));
    assert_eq!(values(&out), vec![3, 4, 5, 0, 1, 2]);
}

#[test]
fn flip_twice_is_identity() {
    let image = counted(5, 3);
    for axis in [FlipAxis::Horizontal, FlipAxis::Vertical] {
        let once = Flip::new(axis).apply(&image).unwrap();
        let twice = Flip::new(axis).apply(&once).unwrap();
        assert!(same(&twice, &image));
        assert!(!same(&once, &image));
    }
}

#[test]
fn flip_of_empty_image_is_empty() {
    let image = Image::from_pixels(0, 3, Vec::new()).unwrap();
    let out = Flip::new(FlipAxis::Horizontal).apply(&image).unwrap();
    assert_eq!((out.width(), out.height()), (0, 3));
}

#[test]
fn rotate_quarter_turn() {
    // 0 1 2      3 0
    // 3 4 5  ->  4 1
    //            5 2
    let out = Rotate::new(RotateAngle::Deg90).apply(&counted(3, 2)).unwrap();
    assert_eq!((out.width(), out.height()), (2, 3));
    assert_eq!(values(&out), vec![3, 0, 4, 1, 5, 2]);
}

#[test]
fn rotate_half_turn() {
    let out = Rotate::new(RotateAngle::Deg180).apply(&counted(3, 2)).unwrap();
    assert_eq!((out.width(), out.height()), (3, 2));
    assert_eq!(values(&out), vec![5, 4, 3, 2, 1, 0]);
}

#[test]
fn rotate_three_quarter_turn() {
    // 0 1 2      2 5
    // 3 4 5  ->  1 4
    //            0 3
    let out = Rotate::new(RotateAngle::Deg270).apply(&counted(3, 2)).unwrap();
    assert_eq!((out.width(), out.height()), (2, 3));
    assert_eq!(values(&out), vec![2, 5, 1, 4, 0, 3]);
}

#[test]
fn rotate_quarter_four_times_is_identity() {
    let image = counted(4, 3);
    let turn = Rotate::new(RotateAngle::Deg90);
    let r1 = turn.apply(&image).unwrap();
    let r2 = turn.apply(&r1).unwrap();
    let r3 = turn.apply(&r2).unwrap();
    let r4 = turn.apply(&r3).unwrap();
    assert!(same(&r4, &image));
    assert!(same(&r2, &Rotate::new(RotateAngle::Deg180).apply(&image).unwrap()));
    assert!(same(&r3, &Rotate::new(RotateAngle::Deg270).apply(&image).unwrap()));
}

#[test]
fn rotate_half_twice_is_identity() {
    let image = counted(4, 3);
    let turn = Rotate::new(RotateAngle::Deg180);
    let twice = turn.apply(&turn.apply(&image).unwrap()).unwrap();
    assert!(same(&twice, &image));
}

#[test]
fn fit_solid_red_stays_red() {
    let red = Pixel::new(255, 0, 0);
    let image = Image::from_pixels(4, 4, vec![red; 16]).unwrap();
    let out = Fit::new(2, 2).apply(&image).unwrap();
    assert_eq!((out.width(), out.height()), (2, 2));
    assert_eq!(out.pixels().len(), 4);
    assert!(out.pixels().iter().all(|p| *p == red));
}

#[test]
fn fit_samples_nearest_neighbour() {
    //  0  1  2  3
    //  4  5  6  7
    //  8  9 10 11
    // 12 13 14 15
    let out = Fit::new(2, 2).apply(&counted(4, 4)).unwrap();
    assert_eq!(values(&out), vec![0, 2, 8, 10]);
}

#[test]
fn fit_never_upscales() {
    let image = counted(3, 2);
    let out = Fit::new(100, 100).apply(&image).unwrap();
    assert!(same(&out, &image));
}

#[test]
fn fit_keeps_proportions() {
    // scale = min(4/8, 100/4, 1) = 1/2
    let out = Fit::new(4, 100).apply(&counted(8, 4)).unwrap();
    assert_eq!((out.width(), out.height()), (4, 2));
    // scale = min(100/8, 1/4, 1) = 1/4
    let out = Fit::new(100, 1).apply(&counted(8, 4)).unwrap();
    assert_eq!((out.width(), out.height()), (2, 1));
    assert_eq!(values(&out), vec![0, 4]);
}

#[test]
fn fit_rounds_sides_down() {
    // scale = 2/3: 3 * 2/3 = 2, 5 * 2/3 = 3.33
    let out = Fit::new(2, 100).apply(&counted(3, 5)).unwrap();
    assert_eq!((out.width(), out.height()), (2, 3));
    // columns 0*3/2 = 0, 1*3/2 = 1; rows 0*5/3 = 0, 1*5/3 = 1, 2*5/3 = 3
    assert_eq!(values(&out), vec![0, 1, 3, 4, 9, 10]);
}

#[test]
fn fit_keeps_at_least_one_pixel() {
    // scale = 1/10: the height would round down to zero
    let out = Fit::new(10, 10).apply(&counted(100, 2)).unwrap();
    assert_eq!((out.width(), out.height()), (10, 1));
    assert_eq!(values(&out), vec![0, 10, 20, 30, 40, 50, 60, 70, 80, 90]);
}

#[test]
fn fit_into_empty_box_is_out_of_bounds() {
    let image = counted(4, 4);
    assert!(matches!(Fit::new(0, 2).apply(&image), Err(TransformError::OutOfBounds)));
    assert!(matches!(Fit::new(2, 0).apply(&image), Err(TransformError::OutOfBounds)));
    assert!(matches!(Fit::new(-3, 2).apply(&image), Err(TransformError::OutOfBounds)));
}

#[test]
fn fit_of_empty_image_is_out_of_bounds() {
    let image = Image::from_pixels(0, 0, Vec::new()).unwrap();
    assert!(matches!(Fit::new(2, 2).apply(&image), Err(TransformError::OutOfBounds)));
}

#[test]
fn transform_error_message() {
    assert_eq!(TransformError::OutOfBounds.message(), "Region is out of bounds");
}

#[test]
fn any_transform_applies_like_its_own_type() {
    let image = counted(4, 3);
    let out = Transform::Rotate(Rotate::new(RotateAngle::Deg90)).apply(&image).unwrap();
    assert!(same(&out, &Rotate::new(RotateAngle::Deg90).apply(&image).unwrap()));
    let out = Transform::Crop(Crop::new(1, 1, 2, 2)).apply(&image).unwrap();
    assert_eq!(values(&out), vec![5, 6, 9, 10]);
    let out = Transform::Invert.apply(&image).unwrap();
    assert_eq!(values(&out)[0], 255);
    let out = Transform::EdgeDetect.apply(&image).unwrap();
    assert_eq!((out.width(), out.height()), (4, 3));
}

#[test]
fn any_transform_reports_out_of_bounds() {
    let image = counted(4, 3);
    let result = Transform::Crop(Crop::new(3, 0, 2, 1)).apply(&image);
    assert!(matches!(result, Err(TransformError::OutOfBounds)));
    let result = Transform::Fit(Fit::new(0, 0)).apply(&image);
    assert!(matches!(result, Err(TransformError::OutOfBounds)));
}
