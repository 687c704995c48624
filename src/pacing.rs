//! The publisher's side: which sources it accepts, how decoded samples are
//! gathered into codec frames, the clock track's frames and the order in
//! which a station's tracks are produced and consumed.
use vstd::prelude::*;
use crate::wire::{clock_frame, clock_frame_spec};

verus! {

/// The only sample rate the codec runs at.
pub const CODEC_RATE: u32 = 48000;

/// Samples per channel in one 20 ms frame at the codec's rate.
pub const FRAME_SAMPLES_PER_CHANNEL: usize = 960;

/// Milliseconds between two paced frames.
pub const PACING_INTERVAL_MS: u64 = 20;

/// Channel layouts the codec supports.
#[derive(Clone, Copy, Debug, PartialEq, Eq, Structural)]
pub enum ChannelLayout {
    Mono,
    Stereo,
}

/// Why a source cannot be published.
#[derive(Clone, Copy, Debug, PartialEq, Eq, Structural)]
pub enum PublishError {
    /// The source has a channel count other than 1 or 2.
    UnsupportedChannels { count: u16 },
}

impl ChannelLayout {
    pub open spec fn channels_spec(&self) -> nat {
        match self {
            ChannelLayout::Mono => 1,
            ChannelLayout::Stereo => 2,
        }
    }

    /// Number of interleaved channels.
    pub fn channels(&self) -> (r: usize)
        ensures
            r == self.channels_spec(),
    {
        match self {
            ChannelLayout::Mono => 1,
            ChannelLayout::Stereo => 2,
        }
    }

    /// Interleaved samples in one frame: 960 per channel.
    pub fn samples_per_frame(&self) -> (r: usize)
        ensures
            r == FRAME_SAMPLES_PER_CHANNEL * self.channels_spec(),
    {
        FRAME_SAMPLES_PER_CHANNEL * self.channels()
    }
}

/// The layout for a source with `count` channels; any count but 1 and 2 is a
/// configuration error.
pub fn channel_layout(count: u16) -> (r: Result<ChannelLayout, PublishError>)
    ensures
        count == 1 ==> r == Ok::<ChannelLayout, PublishError>(ChannelLayout::Mono),
        count == 2 ==> r == Ok::<ChannelLayout, PublishError>(ChannelLayout::Stereo),
        count != 1 && count != 2 ==> r == Err::<ChannelLayout, PublishError>(
            PublishError::UnsupportedChannels { count },
        ),
{
    if count == 1 {
        Ok(ChannelLayout::Mono)
    } else if count == 2 {
        Ok(ChannelLayout::Stereo)
    } else {
        Err(PublishError::UnsupportedChannels { count })
    }
}

/// Whether a source's sample rate is the codec's. A source at another rate is
/// encoded as if it were at the codec's rate, which plays it at the wrong
/// speed: callers are expected to report it as a defect.
pub fn sample_rate_supported(rate: u32) -> (r: bool)
    ensures
        r == (rate == CODEC_RATE),
{
    rate == CODEC_RATE
}

/// Gathers interleaved samples until exactly one frame's worth is ready.
pub struct FrameAssembler {
    pub layout: ChannelLayout,
    pub buffer: Vec<i16>,
}

impl FrameAssembler {
    pub open spec fn frame_len(&self) -> nat {
        (FRAME_SAMPLES_PER_CHANNEL * self.layout.channels_spec()) as nat
    }

    pub open spec fn wf(&self) -> bool {
        self.buffer@.len() < self.frame_len()
    }

    /// An empty assembler for `layout`.
    pub fn new(layout: ChannelLayout) -> (r: FrameAssembler)
        ensures
            r.wf(),
            r.layout == layout,
            r.buffer@.len() == 0,
    {
        FrameAssembler { layout, buffer: Vec::new() }
    }

    /// Adds one sample. When it completes a frame, that frame is handed out
    /// and the buffer starts over empty; otherwise nothing is handed out.
    pub fn push(&mut self, sample: i16) -> (r: Option<Vec<i16>>)
        requires
            old(self).wf(),
        ensures
            final(self).wf(),
            final(self).layout == old(self).layout,
            old(self).buffer@.len() + 1 == old(self).frame_len() ==> {
                &&& r.is_some()
                &&& r.unwrap()@ == old(self).buffer@.push(sample)
                &&& final(self).buffer@.len() == 0
            },
            old(self).buffer@.len() + 1 < old(self).frame_len() ==> {
                &&& r.is_none()
                &&& final(self).buffer@ == old(self).buffer@.push(sample)
            },
    {
        self.buffer.push(sample);
        if self.buffer.len() == self.layout.samples_per_frame() {
            let mut full: Vec<i16> = Vec::new();
            std::mem::swap(&mut full, &mut self.buffer);
            Some(full)
        } else {
            None
        }
    }

    /// Samples waiting for the frame to fill; dropped when the source ends
    /// mid-frame.
    pub fn pending(&self) -> (r: usize)
        ensures
            r == self.buffer@.len(),
    {
        self.buffer.len()
    }
}

/// The clock track of one song: one group per pacing tick, each holding one
/// clock frame.
#[derive(Clone, Copy, Debug, PartialEq, Eq, Structural)]
pub struct ClockTrack {
    /// The group that the next tick writes.
    pub next_group: u64,
}

impl ClockTrack {
    /// A freshly zeroed clock track for a new song.
    pub fn new() -> (r: ClockTrack)
        ensures
            r.next_group == 0,
    {
        ClockTrack { next_group: 0 }
    }

    /// The group and frame for a tick at `elapsed_ms` since the song started.
    pub fn tick(&mut self, elapsed_ms: u64) -> (r: (u64, Vec<u8>))
        ensures
            r.0 == old(self).next_group,
            r.1@ == clock_frame_spec(elapsed_ms),
            final(self).next_group == (if old(self).next_group == u64::MAX {
                0
            } else {
                (old(self).next_group + 1) as u64
            }),
    {
        let group = self.next_group;
        self.next_group = self.next_group.wrapping_add(1);
        (group, clock_frame(elapsed_ms))
    }
}

/// The name of a song's track on a station: `round` counts passes over the
/// playlist, `index` is the song's place in it.
#[derive(Clone, Copy, Debug, PartialEq, Eq, Structural)]
pub struct TrackName {
    pub station: u16,
    pub round: u64,
    pub index: u64,
}

/// Walks a station's playlist in order, starting over after the last song.
#[derive(Clone, Copy, Debug, PartialEq, Eq, Structural)]
pub struct PlaylistCursor {
    pub station: u16,
    pub len: u64,
    pub index: u64,
    pub round: u64,
}

impl PlaylistCursor {
    pub open spec fn wf(&self) -> bool {
        self.index < self.len
    }

    /// The cursor at the first song of the first pass; `None` for an empty
    /// playlist.
    pub fn new(station: u16, len: u64) -> (r: Option<PlaylistCursor>)
        ensures
            len == 0 <==> r.is_none(),
            r.is_some() ==> r.unwrap().wf() && r.unwrap() == (PlaylistCursor {
                station,
                len,
                index: 0,
                round: 0,
            }),
    {
        if len == 0 {
            None
        } else {
            Some(PlaylistCursor { station, len, index: 0, round: 0 })
        }
    }

    /// The track the cursor points at.
    pub fn current(&self) -> (r: TrackName)
        ensures
            r == (TrackName { station: self.station, round: self.round, index: self.index }),
    {
        TrackName { station: self.station, round: self.round, index: self.index }
    }

    /// Moves to the next song, starting the next pass after the last one.
    pub fn advance(&mut self)
        requires
            old(self).wf(),
            old(self).round < u64::MAX,
        ensures
            final(self).wf(),
            final(self).station == old(self).station,
            final(self).len == old(self).len,
            old(self).index + 1 < old(self).len ==> final(self).index == old(self).index + 1
                && final(self).round == old(self).round,
            old(self).index + 1 == old(self).len ==> final(self).index == 0 && final(self).round
                == old(self).round + 1,
    {
        if self.index + 1 < self.len {
            self.index = self.index + 1;
        } else {
            self.index = 0;
            self.round = self.round + 1;
        }
    }
}

/// The songs a station plays, in order; no songs for an unknown station.
pub open spec fn playlist_spec(station: u16) -> Seq<&'static str> {
    if station == 1 {
        seq!["a", "b", "c", "d", "e"]
    } else if station == 2 {
        seq!["dreams", "sad", "Midnight_Memories", "villain", "yesterday"]
    } else if station == 3 {
        seq!["truth", "soulsweeper", "angels", "dawn", "dreams"]
    } else {
        seq![]
    }
}

/// The songs of `station`'s playlist, in the order they are published.
pub fn playlist(station: u16) -> (r: Vec<&'static str>)
    ensures
        r@ == playlist_spec(station),
{
    let mut songs: Vec<&'static str> = Vec::new();
    if station == 1 {
        songs.push("a");
        songs.push("b");
        songs.push("c");
        songs.push("d");
        songs.push("e");
    } else if station == 2 {
        songs.push("dreams");
        songs.push("sad");
        songs.push("Midnight_Memories");
        songs.push("villain");
        songs.push("yesterday");
    } else if station == 3 {
        songs.push("truth");
        songs.push("soulsweeper");
        songs.push("angels");
        songs.push("dawn");
        songs.push("dreams");
    }
    assert(songs@ =~= playlist_spec(station));
    songs
}

} // verus!
