//! The per-viewer playback cursor.
//!
//! A cursor knows which frame is on screen and since when. On each redraw
//! the host calls [`PlaybackCursor::advance`] with the current time; the
//! cursor steps over every frame whose time has run out, looping after the
//! last one, and answers with the time at which the host must redraw again.

use vstd::prelude::*;
use crate::frames::{Frame, Frames, FramesView};

verus! {

/// When the host must ask the cursor again at the latest.
#[derive(Clone, Copy, Debug, PartialEq, Eq, Structural)]
pub enum RedrawDeadline {
    /// At this instant, in nanoseconds on the host's monotonic clock.
    At(u64),
}

impl RedrawDeadline {
    pub open spec fn instant(self) -> int {
        match self {
            RedrawDeadline::At(t) => t as int,
        }
    }
}

/// What a [`PlaybackCursor`] holds.
pub ghost struct CursorView {
    /// Index of the frame on screen.
    pub index: int,
    /// When that frame went on screen.
    pub started: int,
    /// Identity token of the frames the cursor was last bound to.
    pub identity: u64,
}

/// Durations that playback can run on: at least one, none zero.
pub open spec fn playable(delays: Seq<u64>) -> bool {
    &&& delays.len() >= 1
    &&& forall|i: int| 0 <= i < delays.len() ==> delays[i] > 0
}

/// Where playback stands after `elapsed` nanoseconds, starting at the
/// beginning of frame `index`: the frame on screen then, and how long it has
/// been on screen.
pub open spec fn settle(delays: Seq<u64>, index: int, elapsed: int) -> (int, int)
    decreases elapsed,
{
    if 0 <= index < delays.len() && delays[index] > 0 && elapsed >= delays[index] {
        settle(delays, (index + 1) % (delays.len() as int), elapsed - delays[index])
    } else {
        (index, elapsed)
    }
}

/// Stepping past the last frame wraps to the first.
proof fn lemma_wrap_next(i: int, n: int)
    requires
        0 <= i < n,
    ensures
        (i + 1) % n == if i + 1 == n { 0 } else { i + 1 },
{
    if i + 1 == n {
        vstd::arithmetic::div_mod::lemma_mod_self_0(n);
    } else {
        vstd::arithmetic::div_mod::lemma_small_mod((i + 1) as nat, n as nat);
    }
}

/// A time clamped to the largest representable instant.
pub open spec fn clamp_instant(t: int) -> int {
    if t > u64::MAX {
        u64::MAX as int
    } else {
        t
    }
}

/// The cursor and the deadline after an advance to `now`.
///
/// A clock that went backwards counts as no time elapsed: the cursor stays,
/// and the deadline is one full frame duration away from `now`.
pub open spec fn advance_to(c: CursorView, now: int, delays: Seq<u64>) -> (CursorView, int) {
    if now < c.started {
        (c, clamp_instant(now + delays[c.index]))
    } else {
        let (index, rest) = settle(delays, c.index, now - c.started);
        (
            CursorView { index, started: now - rest, identity: c.identity },
            clamp_instant(now - rest + delays[index]),
        )
    }
}

/// The cursor of a viewer that was just shown `frames` at `now`.
pub open spec fn fresh(frames: FramesView, now: int) -> CursorView {
    CursorView { index: 0, started: now, identity: frames.identity }
}

/// Well-formed frames give durations that playback can run on.
pub proof fn lemma_wf_playable(frames: FramesView)
    requires
        frames.wf(),
    ensures
        playable(frames.delays()),
        frames.delays().len() == frames.frames.len(),
{
    assert forall|i: int| 0 <= i < frames.delays().len() implies frames.delays()[i] > 0 by {
        assert(frames.frames[i].delay >= crate::frames::MIN_FRAME_DELAY_NANOS);
    }
}

/// Playback settles on a valid frame, on screen for less than its duration
/// and for no longer than the time that elapsed.
pub proof fn lemma_settle_bounds(delays: Seq<u64>, index: int, elapsed: int)
    requires
        playable(delays),
        0 <= index < delays.len(),
        elapsed >= 0,
    ensures
        0 <= settle(delays, index, elapsed).0 < delays.len(),
        0 <= settle(delays, index, elapsed).1 < delays[settle(delays, index, elapsed).0],
        settle(delays, index, elapsed).1 <= elapsed,
    decreases elapsed,
{
    if elapsed >= delays[index] {
        let next = (index + 1) % (delays.len() as int);
        lemma_wrap_next(index, delays.len() as int);
        lemma_settle_bounds(delays, next, elapsed - delays[index]);
    }
}

/// Settling over `elapsed + more` is settling over `elapsed`, then over
/// `more` from where that left off.
pub proof fn lemma_settle_split(delays: Seq<u64>, index: int, elapsed: int, more: int)
    requires
        playable(delays),
        0 <= index < delays.len(),
        elapsed >= 0,
        more >= 0,
    ensures
        settle(delays, index, elapsed + more) == settle(
            delays,
            settle(delays, index, elapsed).0,
            settle(delays, index, elapsed).1 + more,
        ),
    decreases elapsed,
{
    if elapsed >= delays[index] {
        let next = (index + 1) % (delays.len() as int);
        lemma_wrap_next(index, delays.len() as int);
        assert(elapsed + more - delays[index] == (elapsed - delays[index]) + more);
        lemma_settle_split(delays, next, elapsed - delays[index], more);
    }
}

/// Advancing twice to the same instant changes nothing the second time:
/// the cursor stays and the deadline is the same.
pub proof fn lemma_advance_idempotent(c: CursorView, now: int, frames: FramesView)
    requires
        frames.wf(),
        0 <= c.index < frames.frames.len(),
    ensures
        advance_to(advance_to(c, now, frames.delays()).0, now, frames.delays()) == advance_to(
            c,
            now,
            frames.delays(),
        ),
{
    let delays = frames.delays();
    lemma_wf_playable(frames);
    if now >= c.started {
        lemma_settle_bounds(delays, c.index, now - c.started);
    }
}

/// Advancing in two steps, to `first` and then to a later `second`, leaves
/// the cursor and the deadline where one step to `second` leaves them: a
/// large gap is caught up with no drift.
pub proof fn lemma_advance_in_steps(c: CursorView, first: int, second: int, frames: FramesView)
    requires
        frames.wf(),
        0 <= c.index < frames.frames.len(),
        first <= second,
    ensures
        advance_to(advance_to(c, first, frames.delays()).0, second, frames.delays()) == advance_to(
            c,
            second,
            frames.delays(),
        ),
{
    let delays = frames.delays();
    lemma_wf_playable(frames);
    if first >= c.started {
        let e = first - c.started;
        lemma_settle_bounds(delays, c.index, e);
        lemma_settle_split(delays, c.index, e, second - first);
        let rest = settle(delays, c.index, e).1;
        assert(second - (first - rest) == rest + (second - first));
        assert(second - c.started == e + (second - first));
    }
}

/// With two frames of durations `d0` and `d1`, a cursor that showed the
/// first at `t0` shows it again at `t0 + d0 + d1 + d0 / 2`, on screen since
/// `t0 + d0 + d1`, and asks to be redrawn at `t0 + d0 + d1 + d0` (clamped to
/// the largest instant).
pub proof fn lemma_two_frames_loop(c: CursorView, t0: int, d0: u64, d1: u64)
    requires
        d0 > 0,
        d1 > 0,
        c.index == 0,
        c.started == t0,
    ensures
        ({
            let (after, deadline) = advance_to(c, t0 + d0 + d1 + d0 / 2, seq![d0, d1]);
            &&& after.index == 0
            &&& after.started == t0 + d0 + d1
            &&& after.identity == c.identity
            &&& deadline == clamp_instant(t0 + d0 + d1 + d0)
        }),
{
    let delays = seq![d0, d1];
    let e = d0 + d1 + d0 / 2;
    assert(delays.len() == 2 && delays[0] == d0 && delays[1] == d1);
    lemma_wrap_next(0, 2);
    lemma_wrap_next(1, 2);
    assert(settle(delays, 0, (d0 / 2) as int) == (0int, (d0 / 2) as int));
    assert(settle(delays, 1, d1 + d0 / 2) == settle(delays, 0, (d0 / 2) as int));
    assert(settle(delays, 0, e) == settle(delays, 1, d1 + d0 / 2));
    assert(settle(delays, 0, e) == (0int, (d0 / 2) as int));
}

/// Playback state of one viewer.
#[derive(Clone, Copy, Debug)]
pub struct PlaybackCursor {
    index: usize,
    started: u64,
    identity: u64,
}

impl View for PlaybackCursor {
    type V = CursorView;

    closed spec fn view(&self) -> CursorView {
        CursorView { index: self.index as int, started: self.started as int, identity: self.identity }
    }
}

impl PlaybackCursor {
    /// The cursor's index lies within `frames`.
    pub open spec fn fits(&self, frames: FramesView) -> bool {
        0 <= self@.index < frames.frames.len()
    }

    proof fn lemma_view_bounds(&self)
        ensures
            0 <= self@.index <= usize::MAX,
            0 <= self@.started <= u64::MAX,
    {
    }

    /// A cursor at the first frame of `frames`, on screen since `now`.
    pub fn new(frames: &Frames, now: u64) -> (r: Self)
        ensures
            r@ == fresh(frames@, now as int),
    {
        PlaybackCursor { index: 0, started: now, identity: frames.identity() }
    }

    /// Rebinds the cursor to `frames`: first frame, on screen since `now`.
    pub fn reset(&mut self, frames: &Frames, now: u64)
        ensures
            final(self)@ == fresh(frames@, now as int),
    {
        self.index = 0;
        self.started = now;
        self.identity = frames.identity();
    }

    /// Binds the cursor to `frames`, which the viewer shows from now on.
    /// Where their identity differs from the one the cursor was bound to, the
    /// cursor starts over from the first frame; else it is left as it is.
    pub fn sync(&mut self, frames: &Frames, now: u64)
        ensures
            old(self)@.identity != frames@.identity ==> final(self)@ == fresh(frames@, now as int),
            old(self)@.identity == frames@.identity ==> final(self)@ == old(self)@,
            final(self)@.identity == frames@.identity,
    {
        if self.identity != frames.identity() {
            self.reset(frames, now);
        }
    }

    /// Index of the frame on screen.
    pub fn index(&self) -> (r: usize)
        ensures
            r == self@.index,
    {
        self.index
    }

    /// When the frame on screen went on screen.
    pub fn started_at(&self) -> (r: u64)
        ensures
            r == self@.started,
    {
        self.started
    }

    /// Identity token of the frames the cursor is bound to.
    pub fn identity(&self) -> (r: u64)
        ensures
            r == self@.identity,
    {
        self.identity
    }

    /// The frame on screen.
    pub fn current<'a>(&self, frames: &'a Frames) -> (r: &'a Frame)
        requires
            self.fits(frames@),
        ensures
            r@ == frames@.frames[self@.index],
    {
        frames.frame(self.index)
    }

    /// Moves the cursor to the frame that is on screen at `now`, stepping
    /// over every frame whose duration has run out and looping after the
    /// last, and returns when the frame then on screen runs out.
    ///
    /// The start of the frame on screen is recomputed as `now` less the time
    /// it has been on screen, so repeated calls do not drift. A `now` before
    /// that start is taken as no time elapsed.
    pub fn advance(&mut self, now: u64, frames: &Frames) -> (r: RedrawDeadline)
        requires
            frames.wf(),
            old(self).fits(frames@),
        ensures
            final(self).fits(frames@),
            (final(self)@, r.instant()) == advance_to(old(self)@, now as int, frames@.delays()),
            now < old(self)@.started ==> final(self)@ == old(self)@,
    {
        let ghost delays = frames@.delays();
        let ghost start = self@;
        proof {
            self.lemma_view_bounds();
        }
        let n = frames.len();
        if now < self.started {
            let d = frames.delay_at(self.index);
            return RedrawDeadline::At(now.saturating_add(d));
        }
        let mut index = self.index;
        let mut elapsed: u64 = now - self.started;
        while elapsed >= frames.delay_at(index)
            invariant
                n == delays.len(),
                index < n,
                elapsed <= now,
                frames.wf(),
                delays == frames@.delays(),
                settle(delays, index as int, elapsed as int) == settle(delays, start.index, now - start.started),
            decreases elapsed,
        {
            let d = frames.delay_at(index);
            proof {
                assert(frames@.frames[index as int].delay >= crate::frames::MIN_FRAME_DELAY_NANOS);
                lemma_wrap_next(index as int, n as int);
            }
            elapsed = elapsed - d;
            index = if index + 1 == n { 0 } else { index + 1 };
        }
        self.index = index;
        self.started = now - elapsed;
        RedrawDeadline::At(self.started.saturating_add(frames.delay_at(index)))
    }
}

} // verus!
