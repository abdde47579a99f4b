use rustphoto::compression::{
    encode_jpeg_to_buffer, encode_with_budget, to_rgb_bytes, Search,
};
use rustphoto::error::ProcessError;
use rustphoto::image::{Image, Pixel};

fn gradient(width: i32, height: i32) -> Image {
    let mut pixels = Vec::new();
    for y in 0..height {
        for x in 0..width {
            pixels.push(Pixel::new((x * 7) as u8, (y * 5) as u8, ((x * y) % 256) as u8));
        }
    }
    Image::from_pixels(width, height, pixels).unwrap()
}

#[test]
fn rgb_bytes_are_interleaved() {
    let image = Image::from_pixels(2, 1, vec![Pixel::new(1, 2, 3), Pixel::new(4, 5, 6)]).unwrap();
    assert_eq!(to_rgb_bytes(&image), vec![1, 2, 3, 4, 5, 6]);
}

#[test]
fn search_starts_in_the_middle() {
    let s = Search::start();
    assert_eq!((s.low, s.high, s.best, s.done), (1, 100, None, false));
    assert_eq!(s.next_quality(), Some(50));
}

#[test]
fn search_goes_up_after_a_fit() {
    let s = Search::start().record(500, 1000);
    assert_eq!((s.low, s.high, s.best, s.done), (51, 100, Some(50), false));
    assert_eq!(s.next_quality(), Some(75));
}

#[test]
fn search_goes_down_after_a_miss() {
    let s = Search::start().record(1001, 1000);
    assert_eq!((s.low, s.high, s.best, s.done), (1, 49, None, false));
    assert_eq!(s.next_quality(), Some(25));
}

#[test]
fn search_stops_within_one_percent() {
    let s = Search::start().record(990, 1000);
    assert_eq!((s.best, s.done), (Some(50), true));
    assert_eq!(s.next_quality(), None);
    let s = Search::start().record(989, 1000);
    assert_eq!((s.best, s.done), (Some(50), false));
    let s = Search::start().record(1000, 1000);
    assert_eq!((s.best, s.done), (Some(50), true));
}

#[test]
fn search_that_is_over_ignores_records() {
    let done = Search::start().record(990, 1000);
    assert_eq!(done.record(5, 1000), done);
}

#[test]
fn search_over_fitting_sizes_reaches_the_top() {
    let mut s = Search::start();
    let mut tried = Vec::new();
    while let Some(q) = s.next_quality() {
        tried.push(q);
        s = s.record(q as usize, 1_000_000);
    }
    assert_eq!(tried, vec![50, 75, 88, 94, 97, 99, 100]);
    assert_eq!(s.best, Some(100));
}

#[test]
fn search_over_oversized_files_finds_nothing() {
    let mut s = Search::start();
    let mut tried = Vec::new();
    while let Some(q) = s.next_quality() {
        tried.push(q);
        s = s.record(2000, 1000);
    }
    assert_eq!(tried, vec![50, 25, 12, 6, 3, 1]);
    assert_eq!(s.best, None);
}

#[test]
fn search_finds_the_threshold() {
    // sizes grow with quality: size = 100 * q; the budget admits q <= 37
    let mut s = Search::start();
    let mut probes = 0;
    while let Some(q) = s.next_quality() {
        probes += 1;
        s = s.record(100 * q as usize, 3750);
    }
    assert_eq!(s.best, Some(37));
    assert!(probes <= 7);
}

#[test]
fn jpeg_encoding_writes_a_jpeg_file() {
    let image = gradient(16, 16);
    let bytes = encode_jpeg_to_buffer(&image, 80).unwrap();
    assert_eq!(&bytes[..2], &[0xFF, 0xD8]);
    assert_eq!(&bytes[bytes.len() - 2..], &[0xFF, 0xD9]);
    assert_ne!(bytes, to_rgb_bytes(&image));
}

#[test]
fn jpeg_encoding_is_repeatable() {
    let image = gradient(16, 16);
    assert_eq!(
        encode_jpeg_to_buffer(&image, 40).unwrap(),
        encode_jpeg_to_buffer(&image, 40).unwrap()
    );
}

#[test]
fn jpeg_encoding_refuses_an_empty_image() {
    let image = Image::from_pixels(0, 0, Vec::new()).unwrap();
    assert!(matches!(encode_jpeg_to_buffer(&image, 50), Err(ProcessError::JpegEncoding(_))));
}

#[test]
fn budget_above_the_best_file_gives_top_quality() {
    let image = gradient(32, 32);
    let top = encode_jpeg_to_buffer(&image, 100).unwrap();
    let file = encode_with_budget(&image, top.len() * 2).unwrap();
    assert_eq!(file.quality, 100);
    assert_eq!(file.data, top);
}

#[test]
fn budget_equal_to_the_best_file_stops_close_to_it() {
    let image = gradient(32, 32);
    let top = encode_jpeg_to_buffer(&image, 100).unwrap();
    let file = encode_with_budget(&image, top.len()).unwrap();
    assert!(file.data.len() <= top.len());
    assert!(file.quality == 100 || file.data.len() * 100 >= top.len() * 99);
    assert_eq!(file.data, encode_jpeg_to_buffer(&image, file.quality).unwrap());
}

#[test]
fn budget_in_between_is_respected() {
    let image = gradient(32, 32);
    let low = encode_jpeg_to_buffer(&image, 20).unwrap().len();
    let high = encode_jpeg_to_buffer(&image, 90).unwrap().len();
    let budget = (low + high) / 2;
    let file = encode_with_budget(&image, budget).unwrap();
    assert!(file.data.len() <= budget);
    assert!(1 <= file.quality && file.quality <= 100);
    assert_eq!(file.data, encode_jpeg_to_buffer(&image, file.quality).unwrap());
}

#[test]
fn budget_too_small_reports_the_floor_size() {
    let image = gradient(32, 32);
    let floor = encode_jpeg_to_buffer(&image, 10).unwrap().len();
    match encode_with_budget(&image, 10) {
        Err(ProcessError::CompressionTargetTooSmall {
            target_kb,
            target_bytes,
            min_kb,
            min_bytes,
        }) => {
            assert_eq!(target_bytes, 10);
            assert_eq!(target_kb, 0);
            assert_eq!(min_bytes, floor);
            assert_eq!(min_kb, floor / 1024);
        }
        other => panic!("expected a budget error, got {:?}", other.map(|f| f.quality)),
    }
}

#[test]
fn budget_for_an_empty_image_is_an_encoding_error() {
    let image = Image::from_pixels(0, 5, Vec::new()).unwrap();
    assert!(matches!(encode_with_budget(&image, 1000), Err(ProcessError::JpegEncoding(_))));
}

#[test]
fn budget_just_below_every_probe_reports_sizes_in_kb() {
    let mut pixels = Vec::new();
    let mut seed: u32 = 12345;
    for _ in 0..(96 * 96) {
        seed = seed.wrapping_mul(1664525).wrapping_add(1013904223);
        pixels.push(Pixel::new((seed >> 24) as u8, (seed >> 16) as u8, (seed >> 8) as u8));
    }
    let image = Image::from_pixels(96, 96, pixels).unwrap();
    let smallest = [50u8, 25, 12, 6, 3, 1]
        .iter()
        .map(|q| encode_jpeg_to_buffer(&image, *q).unwrap().len())
        .min()
        .unwrap();
    let floor = encode_jpeg_to_buffer(&image, 10).unwrap().len();
    let budget = smallest - 1;
    match encode_with_budget(&image, budget) {
        Err(ProcessError::CompressionTargetTooSmall {
            target_kb,
            target_bytes,
            min_kb,
            min_bytes,
        }) => {
            assert_eq!(target_bytes, budget);
            assert_eq!(target_kb, budget / 1024);
            assert_eq!(min_bytes, floor);
            assert_eq!(min_kb, floor / 1024);
            assert!(min_kb >= 1);
        }
        other => panic!("expected a budget error, got {:?}", other.map(|f| f.quality)),
    }
}

#[test]
fn budget_search_agrees_with_the_probes() {
    let image = gradient(48, 48);
    let budget = encode_jpeg_to_buffer(&image, 60).unwrap().len();
    let mut search = Search::start();
    let mut best = None;
    while let Some(q) = search.next_quality() {
        let size = encode_jpeg_to_buffer(&image, q).unwrap().len();
        if size <= budget {
            best = Some(q);
        }
        search = search.record(size, budget);
    }
    let file = encode_with_budget(&image, budget).unwrap();
    assert_eq!(Some(file.quality), best);
    assert_eq!(search.best, best);
}

#[test]
fn search_may_settle_below_quality_ten() {
    // sizes grow with quality: 100 bytes for each step; the file at quality
    // 10 has 1000 bytes and exceeds the budget, the one at quality 9 fits
    let mut s = Search::start();
    let mut tried = Vec::new();
    while let Some(q) = s.next_quality() {
        tried.push(q);
        s = s.record(100 * q as usize, 950);
    }
    assert_eq!(tried, vec![50, 25, 12, 6, 9, 10]);
    assert_eq!(s.best, Some(9));
}
