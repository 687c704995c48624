//! Catch-up of a late subscriber: learn the live offset from the clock track,
//! then discard decoded audio until that much has been skipped.
use vstd::prelude::*;
use crate::wire::{clock_value, clock_value_spec, FrameError};

verus! {

/// The sample rate the subscriber decodes at.
pub const DECODE_RATE: u32 = 48000;

/// Milliseconds of audio in `samples` samples per channel at `rate` Hz.
pub open spec fn duration_ms(samples: u32, rate: u32) -> nat
    recommends
        rate > 0,
{
    (samples as nat * 1000) / (rate as nat)
}

/// Milliseconds that one audio frame adds to the skipped total: its decoded
/// duration, or nothing when it could not be decoded.
pub open spec fn skipped_ms(decoded: Option<u32>) -> nat {
    match decoded {
        Some(n) => duration_ms(n, DECODE_RATE),
        None => 0,
    }
}

/// Milliseconds skipped over a run of frames, given what decoding each gave.
pub open spec fn dropped_after(decoded: Seq<Option<u32>>) -> nat
    decreases decoded.len(),
{
    if decoded.len() == 0 {
        0
    } else {
        dropped_after(decoded.drop_last()) + skipped_ms(decoded.last())
    }
}

/// A `u64` counter that stops at its largest value.
pub open spec fn saturate(n: int) -> u64 {
    if n > u64::MAX {
        u64::MAX
    } else {
        n as u64
    }
}

/// Milliseconds in `samples` samples per channel at `rate` Hz, rounded down.
pub fn frame_duration_ms(samples: u32, rate: u32) -> (r: u64)
    requires
        rate > 0,
    ensures
        r == duration_ms(samples, rate),
{
    (samples as u64) * 1000 / (rate as u64)
}

/// The live offset a subscriber seeks to, from the first frame of the clock
/// track: its value, or zero when the track yielded nothing readable.
pub fn clock_target(first: Option<&[u8]>) -> (r: u64)
    ensures
        r == match first {
            Some(b) => match clock_value_spec(b@) {
                Some(v) => v,
                None => 0,
            },
            None => 0,
        },
{
    match first {
        Some(b) => match clock_value(b) {
            Some(v) => v,
            None => 0,
        },
        None => 0,
    }
}

/// What the subscriber learns while fast-forwarding.
#[derive(Clone, Copy, Debug, PartialEq, Eq, Structural)]
pub enum CatchUpEvent {
    /// A frame was read; `Some(n)` if it decoded to `n` samples per channel,
    /// `None` if it was malformed or undecodable.
    Frame(Option<u32>),
    /// The current group ended.
    GroupEnded,
    /// No further group is available.
    StreamEnded,
}

/// What the subscriber does next.
#[derive(Clone, Copy, Debug, PartialEq, Eq, Structural)]
pub enum CatchUpAction {
    /// Read and discard the next frame of the current group.
    ReadFrame,
    /// Ask for the next group.
    NextGroup,
    /// Stop skipping: everything from here on goes to the listeners.
    StartLive,
    /// The stream ended before the live offset was reached.
    NoContent,
}

/// Progress of one fast-forward.
#[derive(Clone, Copy, Debug, PartialEq, Eq, Structural)]
pub struct CatchUp {
    /// The live offset read from the clock track.
    pub target_ms: u64,
    /// Decoded audio skipped so far.
    pub dropped_ms: u64,
    /// Frames read and discarded so far.
    pub frames_skipped: u64,
}

impl CatchUp {
    pub open spec fn caught_up(&self) -> bool {
        self.dropped_ms >= self.target_ms
    }

    /// Starts a fast-forward towards `target_ms`.
    pub fn new(target_ms: u64) -> (r: CatchUp)
        ensures
            r == (CatchUp { target_ms, dropped_ms: 0, frames_skipped: 0 }),
    {
        CatchUp { target_ms, dropped_ms: 0, frames_skipped: 0 }
    }

    /// Whether enough audio has been skipped.
    pub fn is_caught_up(&self) -> (r: bool)
        ensures
            r == self.caught_up(),
    {
        self.dropped_ms >= self.target_ms
    }

    /// The first action: skip frames, unless the offset is already reached.
    pub fn start(&self) -> (r: CatchUpAction)
        ensures
            r == if self.caught_up() {
                CatchUpAction::StartLive
            } else {
                CatchUpAction::ReadFrame
            },
    {
        if self.is_caught_up() {
            CatchUpAction::StartLive
        } else {
            CatchUpAction::ReadFrame
        }
    }

    /// Counts one discarded frame. The skipped total never goes down.
    pub fn skip(&mut self, decoded: Option<u32>)
        requires
            old(self).frames_skipped < u64::MAX,
        ensures
            final(self).target_ms == old(self).target_ms,
            final(self).dropped_ms == saturate(old(self).dropped_ms + skipped_ms(decoded)),
            final(self).dropped_ms >= old(self).dropped_ms,
            final(self).frames_skipped == old(self).frames_skipped + 1,
    {
        let ms = match decoded {
            Some(n) => frame_duration_ms(n, DECODE_RATE),
            None => 0,
        };
        self.dropped_ms = self.dropped_ms.saturating_add(ms);
        self.frames_skipped = self.frames_skipped + 1;
    }

    /// One step of the fast-forward: takes what the transport and decoder
    /// reported and says what to do next.
    pub fn step(&mut self, event: CatchUpEvent) -> (r: CatchUpAction)
        requires
            old(self).frames_skipped < u64::MAX,
        ensures
            final(self).target_ms == old(self).target_ms,
            final(self).dropped_ms >= old(self).dropped_ms,
            old(self).caught_up() ==> *final(self) == *old(self) && r == CatchUpAction::StartLive,
            !old(self).caught_up() ==> match event {
                CatchUpEvent::Frame(d) => {
                    &&& final(self).dropped_ms == saturate(old(self).dropped_ms + skipped_ms(d))
                    &&& final(self).frames_skipped == old(self).frames_skipped + 1
                    &&& r == if final(self).caught_up() {
                        CatchUpAction::StartLive
                    } else {
                        CatchUpAction::ReadFrame
                    }
                },
                CatchUpEvent::GroupEnded => *final(self) == *old(self) && r
                    == CatchUpAction::NextGroup,
                CatchUpEvent::StreamEnded => *final(self) == *old(self) && r
                    == CatchUpAction::NoContent,
            },
    {
        if self.is_caught_up() {
            return CatchUpAction::StartLive;
        }
        match event {
            CatchUpEvent::Frame(d) => {
                self.skip(d);
                if self.is_caught_up() {
                    CatchUpAction::StartLive
                } else {
                    CatchUpAction::ReadFrame
                }
            },
            CatchUpEvent::GroupEnded => CatchUpAction::NextGroup,
            CatchUpEvent::StreamEnded => CatchUpAction::NoContent,
        }
    }
}

impl CatchUp {
    /// One step on a frame read while fast-forwarding. `packet` is what
    /// unpacking the frame gave; `decoded` is what decoding that packet gave
    /// and counts only when the frame was well formed. A malformed frame,
    /// such as one shorter than its prefix declares, adds nothing and the
    /// fast-forward goes on with the next frame.
    pub fn step_frame(&mut self, packet: &Result<Vec<u8>, FrameError>, decoded: Option<u32>) -> (r:
        CatchUpAction)
        requires
            old(self).frames_skipped < u64::MAX,
        ensures
            final(self).target_ms == old(self).target_ms,
            final(self).dropped_ms >= old(self).dropped_ms,
            old(self).caught_up() ==> *final(self) == *old(self) && r == CatchUpAction::StartLive,
            !old(self).caught_up() ==> {
                &&& final(self).dropped_ms == saturate(
                    old(self).dropped_ms + if packet.is_ok() {
                        skipped_ms(decoded)
                    } else {
                        0
                    },
                )
                &&& final(self).frames_skipped == old(self).frames_skipped + 1
                &&& r == if final(self).caught_up() {
                    CatchUpAction::StartLive
                } else {
                    CatchUpAction::ReadFrame
                }
            },
    {
        let counted = match packet {
            Ok(_) => decoded,
            Err(_) => None,
        };
        self.step(CatchUpEvent::Frame(counted))
    }
}

/// The skipped total of a prefix never exceeds that of a longer prefix.
pub proof fn lemma_dropped_monotone(decoded: Seq<Option<u32>>, i: int, j: int)
    requires
        0 <= i <= j <= decoded.len(),
    ensures
        dropped_after(decoded.take(i)) <= dropped_after(decoded.take(j)),
    decreases j - i,
{
    if i < j {
        lemma_dropped_monotone(decoded, i, j - 1);
        assert(decoded.take(j).drop_last() =~= decoded.take(j - 1));
    }
}

/// Runs a whole fast-forward over the decode results of a track's frames, in
/// order. Returns how many frames were discarded before live relay starts, or
/// `None` when the track ends first. It never reads past the last frame, also
/// when the offset exceeds the track's length.
pub fn fast_forward(decoded: &Vec<Option<u32>>, target_ms: u64) -> (r: Option<usize>)
    ensures
        match r {
            Some(k) => {
                &&& k <= decoded@.len()
                &&& dropped_after(decoded@.take(k as int)) >= target_ms
                &&& forall|j: int| 0 <= j < k ==> dropped_after(decoded@.take(j)) < target_ms
            },
            None => dropped_after(decoded@) < target_ms,
        },
{
    let mut state = CatchUp::new(target_ms);
    let mut i: usize = 0;
    while i < decoded.len()
        invariant
            i <= decoded@.len(),
            state.target_ms == target_ms,
            state.frames_skipped == i,
            state.dropped_ms == saturate(dropped_after(decoded@.take(i as int)) as int),
            forall|j: int| 0 <= j < i ==> dropped_after(decoded@.take(j)) < target_ms,
        decreases decoded.len() - i,
    {
        if state.is_caught_up() {
            return Some(i);
        }
        proof {
            assert(decoded@.take(i as int + 1).drop_last() =~= decoded@.take(i as int));
        }
        state.skip(decoded[i]);
        i = i + 1;
    }
    assert(decoded@.take(i as int) =~= decoded@);
    if state.is_caught_up() {
        Some(i)
    } else {
        None
    }
}

} // verus!
