//! JPEG encoding under a byte budget.
//!
//! The encoder takes a quality from 1 to 100. [`encode_with_budget`] looks for
//! the highest quality whose file fits the budget by bisection, which finds
//! it where a higher quality never gives a smaller file. Where the encoder
//! breaks that rule the result still fits the budget, but a higher quality
//! might have fitted too.

use vstd::prelude::*;
use crate::error::ProcessError;
use crate::image::{Image, Pixel, Raster};

verus! {

/// The lowest and the highest quality that the search tries.
pub const MIN_QUALITY: u8 = 1;

pub const MAX_QUALITY: u8 = 100;

/// The quality whose file size is reported when nothing fits.
pub const FLOOR_QUALITY: u8 = 10;

/// The channels of the pixels in a row: red, green, blue, pixel after pixel.
pub open spec fn rgb_bytes(pixels: Seq<Pixel>) -> Seq<u8> {
    Seq::new(
        3 * pixels.len(),
        |i: int|
            if i % 3 == 0 {
                pixels[i / 3].r
            } else if i % 3 == 1 {
                pixels[i / 3].g
            } else {
                pixels[i / 3].b
            },
    )
}

/// Lays the pixels of an image out as the encoder reads them.
pub fn to_rgb_bytes(image: &Image) -> (raw: Vec<u8>)
    ensures
        raw@ == rgb_bytes(image@.pixels),
{
    let source = image.pixels();
    let ghost goal = rgb_bytes(image@.pixels);
    let mut raw: Vec<u8> = Vec::new();
    let mut i: usize = 0;
    while i < source.len()
        invariant
            source@ == image@.pixels,
            goal == rgb_bytes(image@.pixels),
            0 <= i <= source.len(),
            raw@.len() == 3 * i,
            forall|j: int| 0 <= j < 3 * i ==> raw@[j] == goal[j],
        decreases source.len() - i,
    {
        let p = source[i];
        raw.push(p.r);
        raw.push(p.g);
        raw.push(p.b);
        i = i + 1;
    }
    assert(raw@ =~= goal);
    raw
}

/// The JPEG file that the `image` crate's encoder writes for `width * height`
/// pixels laid out as `raw` at the given quality, or `None` where it reports
/// an error.
pub uninterp spec fn jpeg_encoding(raw: Seq<u8>, width: u32, height: u32, quality: u8) -> Option<Seq<u8>>;

/// Calls `image::codecs::jpeg::JpegEncoder::new_with_quality` on a buffer in
/// memory and then `encode` with the colour type `Rgb8`. Trusted: the bytes
/// written depend on the arguments alone, and an image with a side of zero or
/// of more than 65535 pixels is refused. The encoder panics unless `raw` has
/// three bytes for each pixel, and it cannot count the bytes of a row that
/// has more of them than a `usize` holds.
#[verifier::external_body]
fn jpeg_encode(raw: &Vec<u8>, width: u32, height: u32, quality: u8) -> (result: Result<
    Vec<u8>,
    ::image::ImageError,
>)
    requires
        raw@.len() == 3 * width * height,
        3 * width <= usize::MAX,
    ensures
        result matches Ok(bytes) ==> jpeg_encoding(raw@, width, height, quality) == Some(bytes@),
        result is Err ==> jpeg_encoding(raw@, width, height, quality) is None,
        width == 0 || height == 0 || width > 65535 || height > 65535 ==> result is Err,
{
    let mut encoded = std::io::Cursor::new(Vec::new());
    let outcome = ::image::codecs::jpeg::JpegEncoder::new_with_quality(&mut encoded, quality)
        .encode(raw, width, height, ::image::ExtendedColorType::Rgb8);
    match outcome {
        Ok(()) => Ok(encoded.into_inner()),
        Err(e) => Err(e),
    }
}

/// The JPEG file of a raster at a quality, or `None` where the encoder
/// refuses it. A raster without pixels has no file.
pub open spec fn encoded(r: Raster, quality: u8) -> Option<Seq<u8>> {
    if r.pixels.len() == 0 {
        None
    } else {
        jpeg_encoding(rgb_bytes(r.pixels), r.width as u32, r.height as u32, quality)
    }
}

/// Encodes an image as JPEG at the given quality. The encoder refuses an
/// image without pixels and one with a side of more than 65535 pixels.
pub fn encode_jpeg_to_buffer(image: &Image, quality: u8) -> (result: Result<Vec<u8>, ProcessError>)
    ensures
        result matches Ok(bytes) ==> encoded(image@, quality) == Some(bytes@),
        result matches Err(e) ==> e is JpegEncoding && encoded(image@, quality) is None,
        image@.width == 0 || image@.height == 0 || image@.width > 65535 || image@.height > 65535
            ==> result is Err,
{
    let raw = to_rgb_bytes(image);
    let width: i32 = image.width();
    let height: i32 = image.height();
    let outcome = if raw.len() == 0 {
        jpeg_encode(&raw, 0, 0, quality)
    } else {
        assert(3 * (width as u32) * (height as u32) == 3 * (width * height) && 3 * width <= 3 * (
        width * height)) by (nonlinear_arith)
            requires
                0 <= width,
                0 <= height,
                width * height > 0,
        ;
        jpeg_encode(&raw, width as u32, height as u32, quality)
    };
    match outcome {
        Ok(bytes) => Ok(bytes),
        Err(e) => Err(ProcessError::JpegEncoding(e)),
    }
}

/// A file of `size` bytes uses at least 99 hundredths of a budget of `max`
/// bytes: close enough to stop looking for a better quality.
pub open spec fn within_one_percent(size: int, max: int) -> bool {
    size * 100 >= max * 99
}

/// The state of a bisection over the qualities: those from `low` to `high`
/// are still to be tried, and `best` is the highest quality found so far
/// whose file fits the budget.
#[derive(Debug, Clone, Copy, PartialEq, Eq, Structural)]
pub struct Search {
    pub low: u8,
    pub high: u8,
    pub best: Option<u8>,
    pub done: bool,
}

impl Search {
    /// The bounds are qualities, or one step outside them.
    pub open spec fn wf(self) -> bool {
        &&& 1 <= self.low <= 101
        &&& self.high <= 100
        &&& self.low <= self.high + 1
    }

    /// Nothing is left to try.
    pub open spec fn finished(self) -> bool {
        self.done || self.low > self.high
    }

    /// The quality to try next.
    pub open spec fn mid(self) -> u8 {
        ((self.low + self.high) / 2) as u8
    }

    pub open spec fn initial() -> Search {
        Search { low: 1, high: 100, best: None, done: false }
    }

    /// The state after the file at quality `mid` was found to have `size`
    /// bytes. A file that fits makes `mid` the best quality and sends the
    /// search above it, or ends it where the file is within one percent of
    /// the budget; a file that does not fit sends the search below `mid`.
    pub open spec fn after(self, size: int, max: int) -> Search {
        if self.finished() || !self.wf() {
            self
        } else if size <= max {
            if within_one_percent(size, max) {
                Search { best: Some(self.mid()), done: true, ..self }
            } else {
                Search { low: (self.mid() + 1) as u8, best: Some(self.mid()), ..self }
            }
        } else {
            Search { high: (self.mid() - 1) as u8, ..self }
        }
    }

    /// How many qualities are left to try.
    pub open spec fn remaining(self) -> int {
        if self.finished() || !self.wf() {
            0
        } else {
            self.high - self.low + 1
        }
    }

    /// A search over all qualities, with nothing found yet.
    pub fn start() -> (s: Search)
        ensures
            s == Search::initial(),
            s.wf(),
    {
        Search { low: MIN_QUALITY, high: MAX_QUALITY, best: None, done: false }
    }

    /// The quality to encode at next, or `None` where the search is over.
    pub fn next_quality(&self) -> (next: Option<u8>)
        ensures
            next == if self.finished() || !self.wf() {
                None
            } else {
                Some(self.mid())
            },
            next matches Some(q) ==> self.low <= q <= self.high,
    {
        if self.done || self.low > self.high || self.low < 1 || self.high > 100 {
            None
        } else {
            Some(((self.low as u16 + self.high as u16) / 2) as u8)
        }
    }

    /// Takes in the size of the file at the quality that `next_quality` gave.
    /// A search that is over stays as it is.
    pub fn record(self, size: usize, max_size: usize) -> (s: Search)
        ensures
            s == self.after(size as int, max_size as int),
            self.wf() ==> s.wf(),
            s.remaining() < self.remaining() || self.remaining() == 0,
    {
        match self.next_quality() {
            None => self,
            Some(mid) => {
                if size <= max_size {
                    if size as u128 * 100 >= max_size as u128 * 99 {
                        Search { best: Some(mid), done: true, ..self }
                    } else {
                        Search { low: mid + 1, best: Some(mid), ..self }
                    }
                } else {
                    Search { high: mid - 1, ..self }
                }
            },
        }
    }
}

/// Where a search ends that starts in state `s` and encodes `r` at each
/// quality it tries: the last state, or `None` where the encoder refuses the
/// image on the way.
pub open spec fn outcome(r: Raster, s: Search, max: int) -> Option<Search>
    decreases s.remaining(),
{
    if s.finished() || !s.wf() {
        Some(s)
    } else {
        match encoded(r, s.mid()) {
            None => None,
            Some(bytes) => outcome(r, s.after(bytes.len() as int, max), max),
        }
    }
}

/// A JPEG file and the quality it was encoded at.
#[derive(Debug)]
pub struct Encoded {
    pub quality: u8,
    pub data: Vec<u8>,
}

/// What `encode_with_budget` returns for the raster `r` and a budget of `max`
/// bytes: the file at the best quality that the search found, or, where none
/// fits, the error that names the budget and the size at quality 10 (both
/// also in whole units of 1024 bytes). Where the encoder refuses the image,
/// its error.
pub open spec fn budget_result(r: Raster, max: usize, result: Result<Encoded, ProcessError>) -> bool {
    match outcome(r, Search::initial(), max as int) {
        None => result matches Err(ProcessError::JpegEncoding(_)),
        Some(last) => match last.best {
            Some(q) => result matches Ok(file) && file.quality == q && encoded(r, q) == Some(
                file.data@,
            ),
            None => match encoded(r, FLOOR_QUALITY) {
                None => result matches Err(ProcessError::JpegEncoding(_)),
                Some(smallest) => result matches Err(
                    ProcessError::CompressionTargetTooSmall {
                        target_kb,
                        target_bytes,
                        min_kb,
                        min_bytes,
                    },
                ) && target_bytes == max && target_kb == max / 1024 && min_bytes
                    == smallest.len() && min_kb == smallest.len() / 1024,
            },
        },
    }
}

/// Encodes an image as JPEG at the best quality that the search finds for a
/// budget of `max_size` bytes. A file that comes back fits the budget.
pub fn encode_with_budget(image: &Image, max_size: usize) -> (result: Result<Encoded, ProcessError>)
    ensures
        budget_result(image@, max_size, result),
        result matches Ok(file) ==> file.data@.len() <= max_size && 1 <= file.quality <= 100,
{
    let mut search = Search::start();
    let mut best: Option<Vec<u8>> = None;
    loop
        invariant
            search.wf(),
            outcome(image@, search, max_size as int) == outcome(
                image@,
                Search::initial(),
                max_size as int,
            ),
            search.best is None ==> best is None,
            search.best matches Some(q) ==> 1 <= q <= 100 && (best matches Some(data) && data@.len()
                <= max_size && encoded(image@, q) == Some(data@)),
        ensures
            search.finished(),
        decreases search.remaining(),
    {
        match search.next_quality() {
            None => {
                break ;
            },
            Some(quality) => {
                match encode_jpeg_to_buffer(image, quality) {
                    Err(e) => {
                        return Err(e);
                    },
                    Ok(data) => {
                        let size = data.len();
                        search = search.record(size, max_size);
                        if size <= max_size {
                            best = Some(data);
                        }
                    },
                }
            },
        }
    }
    match (search.best, best) {
        (Some(quality), Some(data)) => Ok(Encoded { quality, data }),
        _ => {
            match encode_jpeg_to_buffer(image, FLOOR_QUALITY) {
                Err(e) => Err(e),
                Ok(smallest) => {
                    let min_size = smallest.len();
                    Err(
                        ProcessError::CompressionTargetTooSmall {
                            target_kb: max_size / 1024,
                            target_bytes: max_size,
                            min_kb: min_size / 1024,
                            min_bytes: min_size,
                        },
                    )
                },
            }
        },
    }
}

/// The encoder accepts `r` at every quality.
pub open spec fn encodes_at_every_quality(r: Raster) -> bool {
    forall|q: u8| 1 <= q <= 100 ==> (#[trigger] encoded(r, q)) is Some
}

/// The size of the file of `r` at quality `q`.
pub open spec fn size_at(r: Raster, q: u8) -> int {
    encoded(r, q).unwrap().len() as int
}

/// A higher quality never gives a smaller file.
pub open spec fn sizes_grow_with_quality(r: Raster) -> bool {
    forall|p: u8, q: u8| 1 <= p <= q <= 100 ==> size_at(r, p) <= size_at(r, q)
}

/// A search that has found nothing, over files that are all too large, ends
/// with nothing found.
pub proof fn lemma_search_finds_nothing(r: Raster, s: Search, max: int)
    requires
        s.wf(),
        s.best is None,
        encodes_at_every_quality(r),
        forall|q: u8| 1 <= q <= 100 ==> size_at(r, q) > max,
    ensures
        outcome(r, s, max) matches Some(last) && last.best is None,
    decreases s.remaining(),
{
    if !s.finished() {
        let q = s.mid();
        assert(encoded(r, q) is Some);
        assert(size_at(r, q) > max);
        lemma_search_finds_nothing(r, s.after(size_at(r, q), max), max);
    }
}

/// A search whose upper bound is still 100, over files that all fit, ends
/// at quality 100 or at a file within one percent of the budget.
pub proof fn lemma_search_climbs(r: Raster, s: Search, max: int)
    requires
        s.wf(),
        !s.done,
        s.high == 100,
        s.low > 1 ==> s.best == Some((s.low - 1) as u8),
        encodes_at_every_quality(r),
        forall|q: u8| 1 <= q <= 100 ==> size_at(r, q) <= max,
    ensures
        outcome(r, s, max) matches Some(last) && (last.best matches Some(q) && 1 <= q <= 100 && (q
            == 100 || within_one_percent(size_at(r, q), max))),
    decreases s.remaining(),
{
    if !s.finished() {
        let q = s.mid();
        assert(encoded(r, q) is Some);
        assert(size_at(r, q) <= max);
        let next = s.after(size_at(r, q), max);
        if !next.done {
            lemma_search_climbs(r, next, max);
        }
    }
}

/// Where a higher quality never gives a smaller file and even the file at
/// quality 1 exceeds the budget, the search fails and reports the size of
/// the file at quality 10.
pub proof fn lemma_budget_too_small(r: Raster, max: usize, result: Result<Encoded, ProcessError>)
    requires
        encodes_at_every_quality(r),
        sizes_grow_with_quality(r),
        size_at(r, 1) > max,
        budget_result(r, max, result),
    ensures
        result matches Err(ProcessError::CompressionTargetTooSmall { target_bytes, min_bytes, .. })
            && target_bytes == max && min_bytes == size_at(r, FLOOR_QUALITY),
{
    assert forall|q: u8| 1 <= q <= 100 implies size_at(r, q) > max by {
        assert(size_at(r, 1) <= size_at(r, q));
    }
    lemma_search_finds_nothing(r, Search::initial(), max as int);
    assert(encoded(r, FLOOR_QUALITY) is Some);
}

/// Where a higher quality never gives a smaller file and the file at quality
/// 100 fits the budget, the search succeeds, with quality 100 or with a file
/// within one percent of the budget.
pub proof fn lemma_budget_generous(r: Raster, max: usize, result: Result<Encoded, ProcessError>)
    requires
        encodes_at_every_quality(r),
        sizes_grow_with_quality(r),
        size_at(r, 100) <= max,
        budget_result(r, max, result),
    ensures
        result matches Ok(file) && (file.quality == 100 || within_one_percent(
            file.data@.len() as int,
            max as int,
        )),
{
    assert forall|q: u8| 1 <= q <= 100 implies size_at(r, q) <= max by {
        assert(size_at(r, q) <= size_at(r, 100));
    }
    lemma_search_climbs(r, Search::initial(), max as int);
}

/// How many files a search encodes from the state `s` on.
pub open spec fn probes(r: Raster, s: Search, max: int) -> nat
    decreases s.remaining(),
{
    if s.finished() || !s.wf() {
        0
    } else {
        match encoded(r, s.mid()) {
            None => 1,
            Some(bytes) => 1 + probes(r, s.after(bytes.len() as int, max), max),
        }
    }
}

/// How often a number can be halved, rounding down, before it is zero.
pub open spec fn halvings(n: int) -> nat
    decreases n,
{
    if n <= 0 {
        0
    } else {
        1 + halvings(n / 2)
    }
}

proof fn lemma_halvings_grow(a: int, b: int)
    requires
        a <= b,
    ensures
        halvings(a) <= halvings(b),
    decreases b,
{
    if a > 0 {
        lemma_halvings_grow(a / 2, b / 2);
    }
}

/// Each file that is encoded halves the number of qualities left to try.
pub proof fn lemma_probes_halve(r: Raster, s: Search, max: int)
    ensures
        probes(r, s, max) <= halvings(s.remaining()),
    decreases s.remaining(),
{
    if !(s.finished() || !s.wf()) {
        match encoded(r, s.mid()) {
            None => {},
            Some(bytes) => {
                let next = s.after(bytes.len() as int, max);
                assert(next.remaining() <= s.remaining() / 2);
                lemma_probes_halve(r, next, max);
                lemma_halvings_grow(next.remaining(), s.remaining() / 2);
            },
        }
    }
}

/// A search over all qualities encodes at most seven files.
pub proof fn lemma_at_most_seven_probes(r: Raster, max: int)
    ensures
        probes(r, Search::initial(), max) <= 7,
{
    lemma_probes_halve(r, Search::initial(), max);
    reveal_with_fuel(halvings, 9);
    assert(halvings(100) == 7);
}

} // verus!
