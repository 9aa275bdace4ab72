use vstd::prelude::*;

verus! {

/// The level of readiness of a tile within a backend.
///
/// Lets users of a backend decide between a cheap readiness probe and a
/// full fetch.
#[derive(Copy, Clone, Debug, PartialEq, Eq, Structural)]
pub enum ReadinessStatus {
    /// The tile is known to be available: a request should succeed in most
    /// cases.
    Available,
    /// The tile is not available to this backend, so a request will likely
    /// find nothing. This is not a hard guarantee: the tile may become
    /// available between the probe and the request.
    NotAvailable,
    /// The readiness state of this tile is unknown. Backends that can only
    /// learn availability by fetching should answer this, to save API
    /// traffic.
    Unknown,
}

/// An error produced if loading a tile fails, one tag per failing layer,
/// so the pipeline can treat every backend tier uniformly.
#[derive(Copy, Clone, Debug, PartialEq, Eq, Structural)]
pub enum TileError {
    /// Reading or writing the disk cache failed.
    Io,
    /// The fetched bytes did not decode to a usable square image.
    Image,
    /// A background decode task failed.
    Join,
    /// The remote imagery provider reported a failure.
    Provider,
}

/// A decoded RGBA pixel buffer, held between fetch completion and GPU
/// upload. Tiles are square, and the invariant keeps it that way.
pub struct Texture {
    pub width: u32,
    pub height: u32,
    /// Four bytes per pixel, row by row.
    pub pixels: Vec<u8>,
}

impl Texture {
    pub open spec fn wf(self) -> bool {
        &&& self.width == self.height
        &&& self.pixels@.len() == 4 * self.width * self.height
    }

    /// The edge length this texture stands for when it is used as the
    /// sample of a cache's tile size (tiles are square, so the width is
    /// the whole answer).
    pub fn sample_width(&self) -> (r: u32)
        ensures
            r == self.width,
            self.wf() ==> r == self.height,
    {
        self.width
    }
}

/// What decoding a compressed image gives: `None` when the bytes are not a
/// valid image, else the raw RGBA bytes with the width and height.
pub uninterp spec fn decoded_rgba(bytes: Seq<u8>) -> Option<(Seq<u8>, u32, u32)>;

/// Relies on `image::load_from_memory` and `DynamicImage::into_rgba8`:
/// what the bytes decode to is a function of the bytes alone, and the raw
/// buffer of the decoded image holds exactly four bytes per pixel.
#[verifier::external_body]
fn decode_rgba(bytes: &Vec<u8>) -> (r: Result<(Vec<u8>, u32, u32), TileError>)
    ensures
        match r {
            Ok(t) => decoded_rgba(bytes@) == Some((t.0@, t.1, t.2)) && t.0@.len() == 4 * t.1
                * t.2,
            Err(e) => decoded_rgba(bytes@) is None && e == TileError::Image,
        },
{
    match image::load_from_memory(bytes) {
        Ok(img) => {
            let rgba = img.into_rgba8();
            let (w, h) = rgba.dimensions();
            Ok((rgba.into_raw(), w, h))
        },
        Err(_) => Err(TileError::Image),
    }
}

/// What the fetch walk does with one backend tier's outcome.
pub enum FetchAction {
    /// The tier answered with a usable tile: publish it, ask no further
    /// tier.
    Publish(Texture),
    /// A clean miss, a tier failure or a failed decode: fall through to
    /// the next tier (exhausting every tier publishes "not available").
    TryNext,
}

/// One step of the fetch walk: the first tier whose bytes decoded to a
/// usable texture wins; every other outcome — `Ok(None)`, a tier error,
/// a decode failure — moves on to the next tier, so no single tier's
/// failure is fatal.
pub fn fetch_step(outcome: Result<Option<Texture>, TileError>) -> (a: FetchAction)
    ensures
        a == (match outcome {
            Ok(Some(texture)) => FetchAction::Publish(texture),
            _ => FetchAction::TryNext,
        }),
{
    match outcome {
        Ok(Some(texture)) => FetchAction::Publish(texture),
        _ => FetchAction::TryNext,
    }
}

/// Decodes a compressed png or jpeg image into a square RGBA texture.
///
/// The bytes load successfully exactly when they decode to an image whose
/// width equals its height; a non-square image means the cache or the
/// provider handed back corrupt content, reported as `TileError::Image`.
pub fn load_tile(bytes: &Vec<u8>) -> (r: Result<Texture, TileError>)
    ensures
        match decoded_rgba(bytes@) {
            Some(t) => if t.1 == t.2 {
                &&& r is Ok
                &&& r->Ok_0.width == t.1
                &&& r->Ok_0.height == t.2
                &&& r->Ok_0.pixels@ == t.0
                &&& r->Ok_0.wf()
            } else {
                r == Result::<Texture, TileError>::Err(TileError::Image)
            },
            None => r == Result::<Texture, TileError>::Err(TileError::Image),
        },
{
    match decode_rgba(bytes) {
        Ok((pixels, width, height)) => {
            if width == height {
                Ok(Texture { width, height, pixels })
            } else {
                Err(TileError::Image)
            }
        },
        Err(e) => Err(e),
    }
}

} // verus!
