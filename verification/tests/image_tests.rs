use rustphoto::image::{Image, Pixel};

fn numbered(width: i32, height: i32) -> Image {
    let mut pixels = Vec::new();
    for i in 0..(width * height) {
        pixels.push(Pixel::new(i as u8, (i * 2) as u8, (i * 3) as u8));
    }
    Image::from_pixels(width, height, pixels).unwrap()
}

#[test]
fn pixel_new_keeps_channels() {
    let p = Pixel::new(1, 2, 3);
    assert_eq!((p.r, p.g, p.b), (1, 2, 3));
}

#[test]
fn pixel_from_hex_unpacks_channels() {
    assert_eq!(Pixel::from_hex(0x112233), Pixel::new(0x11, 0x22, 0x33));
    assert_eq!(Pixel::from_hex(0xFF0000), Pixel::new(255, 0, 0));
    assert_eq!(Pixel::from_hex(0x000000), Pixel::new(0, 0, 0));
    assert_eq!(Pixel::from_hex(0xFFFFFF), Pixel::new(255, 255, 255));
}

#[test]
fn pixel_from_hex_ignores_high_byte() {
    assert_eq!(Pixel::from_hex(0xAB010203), Pixel::new(1, 2, 3));
}

#[test]
fn image_from_pixels_accepts_matching_length() {
    let image = numbered(3, 2);
    assert_eq!(image.width(), 3);
    assert_eq!(image.height(), 2);
    assert_eq!(image.pixels().len(), 6);
}

#[test]
fn image_from_pixels_rejects_wrong_length() {
    let pixels = vec![Pixel::new(0, 0, 0); 5];
    assert!(Image::from_pixels(3, 2, pixels).is_none());
}

#[test]
fn image_from_pixels_rejects_negative_sides() {
    assert!(Image::from_pixels(-1, 0, Vec::new()).is_none());
    assert!(Image::from_pixels(0, -1, Vec::new()).is_none());
    assert!(Image::from_pixels(-2, -3, vec![Pixel::new(0, 0, 0); 6]).is_none());
}

#[test]
fn image_may_be_empty() {
    let image = Image::from_pixels(0, 7, Vec::new()).unwrap();
    assert_eq!(image.width(), 0);
    assert_eq!(image.height(), 7);
    assert!(image.pixel_at(0, 0).is_none());
}

#[test]
fn pixel_at_is_row_major() {
    let image = numbered(3, 2);
    assert_eq!(image.pixel_at(0, 0), Some(Pixel::new(0, 0, 0)));
    assert_eq!(image.pixel_at(2, 0), Some(Pixel::new(2, 4, 6)));
    assert_eq!(image.pixel_at(0, 1), Some(Pixel::new(3, 6, 9)));
    assert_eq!(image.pixel_at(2, 1), Some(Pixel::new(5, 10, 15)));
}

#[test]
fn pixel_at_outside_is_none() {
    let image = numbered(3, 2);
    assert_eq!(image.pixel_at(3, 0), None);
    assert_eq!(image.pixel_at(0, 2), None);
    assert_eq!(image.pixel_at(-1, 0), None);
    assert_eq!(image.pixel_at(0, -1), None);
}
