//! The decoded frames of one animation.

use vstd::prelude::*;

verus! {

/// The shortest time a frame stays on screen, in nanoseconds: a frame whose
/// stated delay is shorter (GIF files often state zero) is shown this long.
pub const MIN_FRAME_DELAY_NANOS: u64 = 10_000_000;

/// Nanoseconds in a millisecond.
pub const NANOS_PER_MILLI: u64 = 1_000_000;

/// Why a GIF could not be turned into [`Frames`].
#[derive(Clone, Copy, Debug, PartialEq, Eq, Structural)]
pub enum Error {
    /// The bytes are no GIF file, or one that breaks off or breaks its
    /// structure somewhere.
    Malformed,
    /// A well-formed file without a single frame.
    Empty,
    /// The bytes could not be read from their source.
    Io,
}

/// A frame as the GIF decoder hands it out: the composited canvas in RGBA,
/// row by row, and its delay as the fraction
/// `delay_numer / delay_denom` of a millisecond.
#[derive(Clone, Debug)]
pub struct RawFrame {
    pub width: u32,
    pub height: u32,
    pub pixels: Vec<u8>,
    pub delay_numer: u32,
    pub delay_denom: u32,
}

/// What a [`RawFrame`] holds.
pub ghost struct RawFrameView {
    pub width: u32,
    pub height: u32,
    pub pixels: Seq<u8>,
    pub delay_numer: u32,
    pub delay_denom: u32,
}

impl View for RawFrame {
    type V = RawFrameView;

    open spec fn view(&self) -> RawFrameView {
        RawFrameView {
            width: self.width,
            height: self.height,
            pixels: self.pixels@,
            delay_numer: self.delay_numer,
            delay_denom: self.delay_denom,
        }
    }
}

pub open spec fn raw_views(raw: Seq<RawFrame>) -> Seq<RawFrameView> {
    raw.map_values(|r: RawFrame| r@)
}

/// The frames that the GIF decoder finds in `bytes`, in file order, or
/// `None` where it fails on them.
pub uninterp spec fn gif_frames_of(bytes: Seq<u8>) -> Option<Seq<RawFrameView>>;

#[verifier::external_type_specification]
#[verifier::external_body]
pub struct ExImageError(image::ImageError);

/// Relies on `image::codecs::gif::GifDecoder::new` and its `into_frames`:
/// the frames of the file composited onto the full canvas in RGBA, in file
/// order, each with its delay as a fraction of milliseconds (`Delay`'s ratio,
/// whose denominator is never zero); or the first error met. The outcome
/// depends on the bytes alone.
#[verifier::external_body]
fn decode_gif(bytes: Vec<u8>) -> (r: Result<Vec<RawFrame>, image::ImageError>)
    ensures
        match r {
            Ok(v) => {
                &&& gif_frames_of(bytes@) == Some(raw_views(v@))
                &&& forall|i: int| 0 <= i < v@.len() ==> v@[i].delay_denom > 0
            },
            Err(_) => gif_frames_of(bytes@) is None,
        },
{
    let decoder = image::codecs::gif::GifDecoder::new(std::io::Cursor::new(bytes))?;
    image::AnimationDecoder::into_frames(decoder).map(|f| f.map(|f| {
        let (delay_numer, delay_denom) = f.delay().numer_denom_ms();
        let (width, height) = f.buffer().dimensions();
        RawFrame { width, height, pixels: f.into_buffer().into_vec(), delay_numer, delay_denom }
    })).collect()
}

/// A delay of `numer / denom` milliseconds in whole nanoseconds, rounded down.
pub open spec fn delay_nanos(numer: u32, denom: u32) -> int {
    (numer as int) * (NANOS_PER_MILLI as int) / (denom as int)
}

/// How long a frame with that delay stays on screen: the delay, raised to
/// the floor where it is shorter.
pub open spec fn shown_delay(numer: u32, denom: u32) -> int {
    let d = delay_nanos(numer, denom);
    if d < MIN_FRAME_DELAY_NANOS {
        MIN_FRAME_DELAY_NANOS as int
    } else {
        d
    }
}

pub open spec fn frame_of(r: RawFrameView) -> FrameView {
    FrameView {
        delay: shown_delay(r.delay_numer, r.delay_denom) as u64,
        width: r.width,
        height: r.height,
        pixels: r.pixels,
    }
}

/// Every delay of `raw` has a denominator other than zero.
pub open spec fn delays_defined(raw: Seq<RawFrameView>) -> bool {
    forall|i: int| 0 <= i < raw.len() ==> raw[i].delay_denom > 0
}

/// The frames built from what the decoder handed out, with `identity` as
/// their identity token: [`Error::Empty`] where there is no frame.
pub open spec fn frames_from(raw: Seq<RawFrameView>, identity: u64) -> Result<FramesView, Error> {
    if raw.len() == 0 {
        Err(Error::Empty)
    } else if !delays_defined(raw) {
        Err(Error::Malformed)
    } else {
        Ok(FramesView { frames: raw.map_values(|r: RawFrameView| frame_of(r)), identity })
    }
}

/// What decoding `bytes` gives: [`Error::Malformed`] where the decoder
/// fails on them, else the frames it found, identified by the length of
/// `bytes`.
pub open spec fn decoded(bytes: Seq<u8>) -> Result<FramesView, Error> {
    match gif_frames_of(bytes) {
        None => Err(Error::Malformed),
        Some(raw) => frames_from(raw, bytes.len() as u64),
    }
}

/// `r` is the outcome `expected` describes.
pub open spec fn outcome_is(r: Result<Frames, Error>, expected: Result<FramesView, Error>) -> bool {
    match r {
        Ok(f) => expected == Ok::<FramesView, Error>(f@) && f.wf(),
        Err(e) => expected == Err::<FramesView, Error>(e),
    }
}

/// What a [`Frame`] holds.
pub ghost struct FrameView {
    pub delay: u64,
    pub width: u32,
    pub height: u32,
    pub pixels: Seq<u8>,
}

/// One fully composited RGBA image and how long it stays on screen.
#[derive(Clone, Debug)]
pub struct Frame {
    delay: u64,
    width: u32,
    height: u32,
    pixels: Vec<u8>,
}

impl View for Frame {
    type V = FrameView;

    closed spec fn view(&self) -> FrameView {
        FrameView { delay: self.delay, width: self.width, height: self.height, pixels: self.pixels@ }
    }
}

impl Frame {
    /// Display duration of this frame, in nanoseconds.
    pub fn delay(&self) -> (r: u64)
        ensures
            r == self@.delay,
    {
        self.delay
    }

    /// Width in pixels.
    pub fn width(&self) -> (r: u32)
        ensures
            r == self@.width,
    {
        self.width
    }

    /// Height in pixels.
    pub fn height(&self) -> (r: u32)
        ensures
            r == self@.height,
    {
        self.height
    }

    /// The RGBA bytes, row by row, four bytes per pixel.
    pub fn pixels(&self) -> (r: &Vec<u8>)
        ensures
            r@ == self@.pixels,
    {
        &self.pixels
    }
}

/// What [`Frames`] holds: the frames in playback order, and the identity
/// token that viewers compare to notice that their animation changed.
pub ghost struct FramesView {
    pub frames: Seq<FrameView>,
    pub identity: u64,
}

impl FramesView {
    /// The display durations of the frames, in order.
    pub open spec fn delays(self) -> Seq<u64> {
        self.frames.map_values(|f: FrameView| f.delay)
    }

    /// At least one frame, and none shorter than the floor.
    pub open spec fn wf(self) -> bool {
        &&& self.frames.len() >= 1
        &&& forall|i: int| 0 <= i < self.frames.len() ==> self.frames[i].delay >= MIN_FRAME_DELAY_NANOS
    }
}

/// The frames of a decoded GIF.
///
/// Immutable once built, and shared read-only by any number of viewers.
#[derive(Clone, Debug)]
pub struct Frames {
    frames: Vec<Frame>,
    total_bytes: u64,
}

/// The on-screen duration of a frame whose delay is `numer / denom`
/// milliseconds, as `image` converts a `Delay` into a `Duration` and then
/// raised to the floor.
fn shown_delay_of(numer: u32, denom: u32) -> (r: u64)
    requires
        denom > 0,
    ensures
        r == shown_delay(numer, denom),
{
    let millis = (numer / denom) as u64;
    let rest = (numer % denom) as u64;
    proof {
        assert(millis * NANOS_PER_MILLI <= u32::MAX as u64 * NANOS_PER_MILLI) by (nonlinear_arith)
            requires millis <= u32::MAX;
        assert(rest * NANOS_PER_MILLI <= u32::MAX as u64 * NANOS_PER_MILLI) by (nonlinear_arith)
            requires rest <= u32::MAX;
    }
    let nanos = millis * NANOS_PER_MILLI + rest * NANOS_PER_MILLI / (denom as u64);
    proof {
        lemma_split_delay(numer as int, denom as int);
    }
    if nanos < MIN_FRAME_DELAY_NANOS {
        MIN_FRAME_DELAY_NANOS
    } else {
        nanos
    }
}

/// Whole milliseconds and the remainder, each scaled, add up to the scaled
/// delay rounded down.
proof fn lemma_split_delay(numer: int, denom: int)
    requires
        numer >= 0,
        denom > 0,
    ensures
        (numer / denom) * 1_000_000 + (numer % denom) * 1_000_000 / denom == numer * 1_000_000 / denom,
{
    let q = numer / denom;
    let m = numer % denom;
    vstd::arithmetic::div_mod::lemma_fundamental_div_mod(numer, denom);
    assert(numer * 1_000_000 == m * 1_000_000 + (q * 1_000_000) * denom) by (nonlinear_arith)
        requires numer == denom * q + m;
    vstd::arithmetic::div_mod::lemma_hoist_over_denominator(m * 1_000_000, q * 1_000_000, denom as nat);
}

impl View for Frames {
    type V = FramesView;

    closed spec fn view(&self) -> FramesView {
        FramesView { frames: self.frames@.map_values(|f: Frame| f@), identity: self.total_bytes }
    }
}

impl Frames {
    /// Well-formed: holds for every value that this module hands out.
    pub open spec fn wf(&self) -> bool {
        self@.wf()
    }

    /// Decodes a GIF file held in memory.
    ///
    /// All or nothing: either every frame decodes, or the result is an error.
    /// The identity token is the byte length of `bytes`.
    pub fn from_bytes(bytes: Vec<u8>) -> (r: Result<Frames, Error>)
        ensures
            outcome_is(r, decoded(bytes@)),
            gif_frames_of(bytes@) is None ==> r == Err::<Frames, Error>(Error::Malformed),
            gif_frames_of(bytes@) == Some(Seq::<RawFrameView>::empty()) ==> r == Err::<Frames, Error>(
                Error::Empty,
            ),
            match gif_frames_of(bytes@) {
                Some(raw) => raw.len() >= 1 ==> {
                    &&& r is Ok
                    &&& r->Ok_0@.frames.len() == raw.len()
                    &&& r->Ok_0@.identity == bytes@.len()
                    &&& forall|i: int|
                        0 <= i < raw.len() ==> {
                            &&& #[trigger] r->Ok_0@.frames[i] == frame_of(raw[i])
                            &&& r->Ok_0@.frames[i].delay >= MIN_FRAME_DELAY_NANOS
                        }
                },
                None => true,
            },
    {
        let total = bytes.len() as u64;
        match decode_gif(bytes) {
            Ok(raw) => Frames::from_raw_frames(raw, total),
            Err(_) => Err(Error::Malformed),
        }
    }

    /// Builds the frames from what a GIF decoder handed out, in order, with
    /// `total_bytes` as their identity token. Delays shorter than
    /// [`MIN_FRAME_DELAY_NANOS`] are raised to it.
    pub fn from_raw_frames(raw: Vec<RawFrame>, total_bytes: u64) -> (r: Result<Frames, Error>)
        ensures
            outcome_is(r, frames_from(raw_views(raw@), total_bytes)),
    {
        let ghost orig = raw_views(raw@);
        let count = raw.len();
        if count == 0 {
            return Err(Error::Empty);
        }
        // Take the frames off the back, then turn them around, so that no
        // pixel buffer is copied.
        let mut pending = raw;
        let mut reversed: Vec<Frame> = Vec::new();
        while pending.len() > 0
            invariant
                orig == raw_views(raw@),
                count == orig.len(),
                pending@.len() <= count,
                raw_views(pending@) == orig.subrange(0, pending@.len() as int),
                reversed@.len() == count - pending@.len(),
                forall|j: int|
                    0 <= j < reversed@.len() ==> #[trigger] reversed@[j]@ == frame_of(orig[count - 1 - j]),
                forall|j: int| 0 <= j < reversed@.len() ==> #[trigger] reversed@[j]@.delay >= MIN_FRAME_DELAY_NANOS,
                delays_defined(orig.subrange(pending@.len() as int, count as int)),
            decreases pending@.len(),
        {
            let ghost before = pending@;
            let r = pending.pop().unwrap();
            proof {
                let m = pending@.len() as int;
                assert(raw_views(before)[m] == r@);
                assert(orig[m] == r@);
                assert forall|i: int| 0 <= i < m implies raw_views(pending@)[i] == orig[i] by {
                    assert(pending@[i] == before[i]);
                    assert(raw_views(before)[i] == before[i]@);
                }
                assert(raw_views(pending@) =~= orig.subrange(0, m));
                assert(orig.subrange(m, count as int) =~= seq![orig[m]] + orig.subrange(m + 1, count as int));
            }
            if r.delay_denom == 0 {
                proof {
                    assert(orig[pending@.len() as int].delay_denom == 0);
                    assert(!delays_defined(orig));
                }
                return Err(Error::Malformed);
            }
            let delay = shown_delay_of(r.delay_numer, r.delay_denom);
            reversed.push(Frame { delay, width: r.width, height: r.height, pixels: r.pixels });
            proof {
                let m = pending@.len() as int;
                assert forall|i: int| m <= i < count implies #[trigger] orig[i].delay_denom > 0 by {
                    if i > m {
                        assert(orig.subrange(m + 1, count as int)[i - m - 1] == orig[i]);
                    }
                }
            }
        }
        proof {
            assert(orig.subrange(0, count as int) =~= orig);
        }
        let mut frames: Vec<Frame> = Vec::new();
        while reversed.len() > 0
            invariant
                count == orig.len(),
                frames@.len() + reversed@.len() == count,
                forall|j: int|
                    0 <= j < reversed@.len() ==> #[trigger] reversed@[j]@ == frame_of(orig[count - 1 - j]),
                forall|j: int| 0 <= j < reversed@.len() ==> #[trigger] reversed@[j]@.delay >= MIN_FRAME_DELAY_NANOS,
                forall|i: int| 0 <= i < frames@.len() ==> #[trigger] frames@[i]@ == frame_of(orig[i]),
                forall|i: int| 0 <= i < frames@.len() ==> #[trigger] frames@[i]@.delay >= MIN_FRAME_DELAY_NANOS,
            decreases reversed@.len(),
        {
            let f = reversed.pop().unwrap();
            frames.push(f);
        }
        proof {
            assert(frames@.map_values(|f: Frame| f@) =~= orig.map_values(|r: RawFrameView| frame_of(r)));
        }
        Ok(Frames { frames, total_bytes })
    }

    /// Number of frames.
    pub fn len(&self) -> (r: usize)
        ensures
            r == self@.frames.len(),
    {
        self.frames.len()
    }

    /// The identity token: the byte length of the source the frames were
    /// decoded from. Two different sources of equal length share it.
    pub fn identity(&self) -> (r: u64)
        ensures
            r == self@.identity,
    {
        self.total_bytes
    }

    /// The frame at `index`.
    pub fn frame(&self, index: usize) -> (r: &Frame)
        requires
            index < self@.frames.len(),
        ensures
            r@ == self@.frames[index as int],
    {
        &self.frames[index]
    }

    /// Display duration of the frame at `index`, in nanoseconds.
    pub fn delay_at(&self, index: usize) -> (r: u64)
        requires
            index < self@.frames.len(),
        ensures
            r == self@.frames[index as int].delay,
            r == self@.delays()[index as int],
    {
        self.frames[index].delay
    }
}

} // verus!
