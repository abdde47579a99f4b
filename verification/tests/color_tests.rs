use rustphoto::image::{Image, Pixel};
use rustphoto::transforms::{Colorize, Grayscale, Invert, Transformation};

fn sample() -> Image {
    let pixels = vec![
        Pixel::new(0, 0, 0),
        Pixel::new(255, 255, 255),
        Pixel::new(10, 20, 30),
        Pixel::new(255, 0, 1),
        Pixel::new(200, 100, 50),
        Pixel::new(1, 1, 0),
    ];
    Image::from_pixels(3, 2, pixels).unwrap()
}

#[test]
fn invert_complements_channels() {
    let out = Invert::new().apply(&sample()).unwrap();
    assert_eq!((out.width(), out.height()), (3, 2));
    assert_eq!(
        out.pixels(),
        &vec![
            Pixel::new(255, 255, 255),
            Pixel::new(0, 0, 0),
            Pixel::new(245, 235, 225),
            Pixel::new(0, 255, 254),
            Pixel::new(55, 155, 205),
            Pixel::new(254, 254, 255),
        ]
    );
}

#[test]
fn invert_twice_is_identity() {
    let image = sample();
    let twice = Invert::new().apply(&Invert::new().apply(&image).unwrap()).unwrap();
    assert_eq!(twice.pixels(), image.pixels());
    assert_eq!((twice.width(), twice.height()), (3, 2));
}

#[test]
fn invert_pixel_every_channel_value() {
    for v in 0..=255u8 {
        let p = Invert::invert_pixel(Pixel::new(v, v, v));
        assert_eq!(p, Pixel::new(255 - v, 255 - v, 255 - v));
        assert_eq!(Invert::invert_pixel(p), Pixel::new(v, v, v));
    }
}

#[test]
fn grayscale_averages_channels() {
    let out = Grayscale::new().apply(&sample()).unwrap();
    assert_eq!((out.width(), out.height()), (3, 2));
    assert_eq!(
        out.pixels(),
        &vec![
            Pixel::new(0, 0, 0),
            Pixel::new(255, 255, 255),
            Pixel::new(20, 20, 20),
            Pixel::new(85, 85, 85),
            Pixel::new(116, 116, 116),
            Pixel::new(0, 0, 0),
        ]
    );
}

#[test]
fn grayscale_channels_are_equal() {
    let out = Grayscale::new().apply(&sample()).unwrap();
    assert!(out.pixels().iter().all(|p| p.r == p.g && p.g == p.b));
}

#[test]
fn colorize_scales_the_colour_by_luma() {
    let out = Colorize::new(Pixel::new(200, 100, 0)).apply(&sample()).unwrap();
    assert_eq!((out.width(), out.height()), (3, 2));
    assert_eq!(
        out.pixels(),
        &vec![
            // luma 0
            Pixel::new(0, 0, 0),
            // luma 255
            Pixel::new(200, 100, 0),
            // luma 20: 200 * 20 / 255 = 15.6, 100 * 20 / 255 = 7.8
            Pixel::new(15, 7, 0),
            // luma 85: a third
            Pixel::new(66, 33, 0),
            // luma 116: 200 * 116 / 255 = 90.9, 100 * 116 / 255 = 45.4
            Pixel::new(90, 45, 0),
            // luma 0
            Pixel::new(0, 0, 0),
        ]
    );
}

#[test]
fn colorize_pixel_white_gives_the_colour() {
    let colour = Pixel::new(12, 34, 56);
    assert_eq!(Colorize::new(colour).colorize_pixel(Pixel::new(255, 255, 255)), colour);
}
