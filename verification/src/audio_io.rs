//! The samples of a microphone on their way to access units.

use vstd::prelude::*;
use std::collections::VecDeque;
use crate::audio_codec::{ARD_AUDIO_SAMPLES_PER_ACCESS_UNIT, ARD_AUDIO_SAMPLE_RATE_HZ};
use crate::error::VncError;

verus! {

/// The frames that are kept at most: those of half a second.
pub const CAPTURE_QUEUE_CAPACITY_FRAMES: usize = 24_000;

/// Frames of two samples, the oldest first.
pub struct PcmCaptureBuffer {
    pub frames: VecDeque<[i16; 2]>,
    pub dropped_frames: u64,
}

/// A frame, left and right.
pub struct FrameView {
    pub left: i16,
    pub right: i16,
}

/// The frame of a pair of samples.
pub open spec fn frame_view(frame: [i16; 2]) -> FrameView {
    FrameView { left: frame[0], right: frame[1] }
}

/// The frames of interleaved samples, those of a single channel on both sides. What is left over
/// at the end is no frame.
pub open spec fn frames_of(input: Seq<i16>, channels: int) -> Seq<FrameView> {
    if channels == 0 {
        Seq::empty()
    } else {
        Seq::new(
            (input.len() / channels as nat) as nat,
            |i: int|
                FrameView {
                    left: input[i * channels],
                    right: if channels == 1 {
                        input[i * channels]
                    } else {
                        input[i * channels + 1]
                    },
                },
        )
    }
}

/// What is kept of a queue: the newest frames.
pub open spec fn newest(frames: Seq<FrameView>) -> Seq<FrameView> {
    if frames.len() <= CAPTURE_QUEUE_CAPACITY_FRAMES {
        frames
    } else {
        frames.skip(frames.len() - CAPTURE_QUEUE_CAPACITY_FRAMES)
    }
}

/// A number that stops at the largest of 64 bits.
pub open spec fn saturated(n: int) -> u64 {
    if n > u64::MAX {
        u64::MAX
    } else {
        n as u64
    }
}

/// The samples of frames, left and right in turn.
pub open spec fn interleaved(frames: Seq<FrameView>) -> Seq<i16> {
    Seq::new(
        frames.len() * 2,
        |i: int|
            if i % 2 == 0 {
                frames[i / 2].left
            } else {
                frames[i / 2].right
            },
    )
}

/// The mean of two samples, rounded towards zero.
pub open spec fn mean(left: i16, right: i16) -> i16 {
    let sum = left + right;
    if sum < 0 {
        (-((-sum) / 2)) as i16
    } else {
        (sum / 2) as i16
    }
}

/// The samples of frames, mixed down to one channel.
pub open spec fn mixed(frames: Seq<FrameView>) -> Seq<i16> {
    Seq::new(frames.len(), |i: int| mean(frames[i].left, frames[i].right))
}

impl PcmCaptureBuffer {
    /// The frames that are kept.
    pub open spec fn view(&self) -> Seq<FrameView> {
        Seq::new(self.frames@.len(), |i: int| frame_view(self.frames@[i]))
    }

    /// No more frames are kept than there is room for.
    pub open spec fn wf(self) -> bool {
        self.frames@.len() <= CAPTURE_QUEUE_CAPACITY_FRAMES
    }

    /// Nothing is kept.
    pub fn new() -> (r: Self)
        ensures
            r.wf(),
            r@ == Seq::<FrameView>::empty(),
            r.dropped_frames == 0,
    {
        let r = PcmCaptureBuffer { frames: VecDeque::new(), dropped_frames: 0 };
        assert(r@ =~= Seq::<FrameView>::empty());
        r
    }

    fn push(&mut self, left: i16, right: i16)
        requires
            old(self).wf(),
        ensures
            final(self).wf(),
            final(self)@ == newest(old(self)@.push(FrameView { left, right })),
            final(self).dropped_frames == saturated(
                old(self).dropped_frames + (if old(self)@.len() == CAPTURE_QUEUE_CAPACITY_FRAMES {
                    1int
                } else {
                    0
                }),
            ),
    {
        if self.frames.len() == CAPTURE_QUEUE_CAPACITY_FRAMES {
            let _oldest = self.frames.pop_front();
            self.dropped_frames = self.dropped_frames.saturating_add(1);
        }
        self.frames.push_back([left, right]);
        assert(self@ =~= newest(old(self)@.push(FrameView { left, right })));
    }

    /// Takes in interleaved samples. Where there is no room for all, the oldest frames are dropped.
    pub fn enqueue(&mut self, input: &[i16], channels: usize)
        requires
            old(self).wf(),
        ensures
            final(self).wf(),
            final(self)@ == newest(old(self)@ + frames_of(input@, channels as int)),
            final(self).dropped_frames == saturated(
                old(self).dropped_frames + overflow(
                    (old(self)@.len() + frames_of(input@, channels as int).len()) as int,
                ),
            ),
    {
        let ghost frames = frames_of(input@, channels as int);
        let ghost start = self@;
        if channels == 0 {
            assert(start + frames =~= start);
            return;
        }
        let total: usize = input.len();
        let count: usize = total / channels;
        let mut taken: usize = 0;
        assert(start + frames.take(0) =~= start);
        while taken < count
            invariant
                self.wf(),
                channels > 0,
                total == input@.len(),
                count == input@.len() / channels as nat,
                taken <= count,
                frames == frames_of(input@, channels as int),
                start == old(self)@,
                start.len() <= CAPTURE_QUEUE_CAPACITY_FRAMES,
                self@ == newest(start + frames.take(taken as int)),
                self.dropped_frames == saturated(
                    old(self).dropped_frames + overflow(start.len() + taken),
                ),
            decreases count - taken,
        {
            proof {
                lemma_frame_inside(input@.len() as int, channels as int, taken as int);
                lemma_newest(start + frames.take(taken as int), frames[taken as int]);
                assert((start + frames.take(taken as int)).push(frames[taken as int])
                    =~= start + frames.take(taken + 1));
            }
            let at: usize = taken * channels;
            let left: i16 = input[at];
            let right: i16 = if channels == 1 {
                left
            } else {
                input[at + 1]
            };
            self.push(left, right);
            taken = taken + 1;
        }
        assert(frames.take(taken as int) =~= frames);
    }

    /// Takes the samples of an access unit, left and right in turn, where there are enough.
    pub fn take_protocol_frame(&mut self) -> (r: Option<Vec<i16>>)
        requires
            old(self).wf(),
        ensures
            final(self).wf(),
            final(self).dropped_frames == old(self).dropped_frames,
            match r {
                None => old(self)@.len() < 480 && final(self)@ == old(self)@,
                Some(pcm) => {
                    &&& old(self)@.len() >= 480
                    &&& pcm@ == interleaved(old(self)@.take(480))
                    &&& final(self)@ == old(self)@.skip(480)
                },
            },
    {
        if self.frames.len() < ARD_AUDIO_SAMPLES_PER_ACCESS_UNIT {
            return None;
        }
        let ghost all = self@;
        let mut pcm: Vec<i16> = Vec::new();
        let mut taken: usize = 0;
        assert(all.skip(0) =~= all);
        assert(pcm@ =~= interleaved(all.take(0)));
        while taken < ARD_AUDIO_SAMPLES_PER_ACCESS_UNIT
            invariant
                self.wf(),
                self.dropped_frames == old(self).dropped_frames,
                taken <= 480 <= all.len(),
                self@ == all.skip(taken as int),
                pcm@ == interleaved(all.take(taken as int)),
            decreases 480 - taken,
        {
            let frame = self.pop();
            pcm.push(frame.0);
            pcm.push(frame.1);
            taken = taken + 1;
            proof {
                assert(all.take(taken as int).drop_last() =~= all.take(taken - 1));
                assert(pcm@ =~= interleaved(all.take(taken as int)));
                assert(self@ =~= all.skip(taken as int));
            }
        }
        Some(pcm)
    }

    /// Takes the samples of an access unit, mixed down to one channel, where there are enough.
    pub fn take_pc_to_mac_protocol_frame(&mut self) -> (r: Option<Vec<i16>>)
        requires
            old(self).wf(),
        ensures
            final(self).wf(),
            final(self).dropped_frames == old(self).dropped_frames,
            match r {
                None => old(self)@.len() < 480 && final(self)@ == old(self)@,
                Some(pcm) => {
                    &&& old(self)@.len() >= 480
                    &&& pcm@ == mixed(old(self)@.take(480))
                    &&& final(self)@ == old(self)@.skip(480)
                },
            },
    {
        if self.frames.len() < ARD_AUDIO_SAMPLES_PER_ACCESS_UNIT {
            return None;
        }
        let ghost all = self@;
        let mut pcm: Vec<i16> = Vec::new();
        let mut taken: usize = 0;
        assert(all.skip(0) =~= all);
        assert(pcm@ =~= mixed(all.take(0)));
        while taken < ARD_AUDIO_SAMPLES_PER_ACCESS_UNIT
            invariant
                self.wf(),
                self.dropped_frames == old(self).dropped_frames,
                taken <= 480 <= all.len(),
                self@ == all.skip(taken as int),
                pcm@ == mixed(all.take(taken as int)),
            decreases 480 - taken,
        {
            let frame = self.pop();
            let sum: i32 = frame.0 as i32 + frame.1 as i32;
            let half: i32 = if sum < 0 {
                -((-sum) / 2)
            } else {
                sum / 2
            };
            pcm.push(half as i16);
            taken = taken + 1;
            proof {
                assert(pcm@ =~= mixed(all.take(taken as int)));
                assert(self@ =~= all.skip(taken as int));
            }
        }
        Some(pcm)
    }

    fn pop(&mut self) -> (r: (i16, i16))
        requires
            old(self).wf(),
            old(self)@.len() > 0,
        ensures
            final(self).wf(),
            final(self).dropped_frames == old(self).dropped_frames,
            old(self)@[0] == (FrameView { left: r.0, right: r.1 }),
            final(self)@ == old(self)@.skip(1),
    {
        let frame: [i16; 2] = self.frames.pop_front().unwrap();
        assert(self@ =~= old(self)@.skip(1));
        (frame[0], frame[1])
    }
}

/// The frames of a queue that there is no room for.
pub open spec fn overflow(frames: int) -> int {
    if frames <= CAPTURE_QUEUE_CAPACITY_FRAMES {
        0
    } else {
        frames - CAPTURE_QUEUE_CAPACITY_FRAMES
    }
}

proof fn lemma_newest(frames: Seq<FrameView>, frame: FrameView)
    ensures
        newest(newest(frames).push(frame)) == newest(frames.push(frame)),
        newest(frames).len() == frames.len() - overflow(frames.len() as int),
{
    assert(newest(newest(frames).push(frame)) =~= newest(frames.push(frame)));
}

proof fn lemma_frame_inside(length: int, channels: int, i: int)
    requires
        channels > 0,
        length >= 0,
        0 <= i < length / channels,
    ensures
        0 <= i * channels,
        i * channels + channels <= length,
{
    assert(channels * (length / channels) <= length) by (nonlinear_arith)
        requires
            channels > 0,
            length >= 0,
    ;
    assert(i * channels + channels <= channels * (length / channels)) by (nonlinear_arith)
        requires
            channels > 0,
            i + 1 <= length / channels,
    ;
    assert(0 <= i * channels) by (nonlinear_arith)
        requires
            channels > 0,
            i >= 0,
    ;
}

/// What is taken of a queue and what is left of it are all that it held: no sample is lost or
/// taken twice.
pub proof fn law_frames_are_taken_in_order(frames: Seq<FrameView>)
    requires
        frames.len() >= 480,
    ensures
        frames.take(480) + frames.skip(480) == frames,
        interleaved(frames.take(480)).len() == 960,
        mixed(frames.take(480)).len() == 480,
{
    assert(frames.take(480) + frames.skip(480) =~= frames);
}

/// How a device writes its samples, as far as the choice of a format goes by it.
#[derive(Clone, Copy, Debug, PartialEq, Eq, Structural)]
pub enum SampleKind {
    Float32,
    Signed16,
    Other,
}

/// A format that a device offers: so many channels, at any rate between two.
#[derive(Clone, Copy, Debug, PartialEq, Eq, Structural)]
pub struct InputFormat {
    pub channels: u16,
    pub min_sample_rate: u32,
    pub max_sample_rate: u32,
    pub samples: SampleKind,
}

impl InputFormat {
    /// There is a channel, and the rate of an access unit is among the rates.
    pub open spec fn usable(self) -> bool {
        &&& self.channels >= 1
        &&& self.min_sample_rate <= ARD_AUDIO_SAMPLE_RATE_HZ <= self.max_sample_rate
    }

    /// The channels count first and then the samples; less is better.
    pub open spec fn rank(self) -> (int, int) {
        (
            if self.channels == 2 {
                0
            } else if self.channels == 1 {
                1
            } else {
                2
            },
            match self.samples {
                SampleKind::Float32 => 0,
                SampleKind::Signed16 => 1,
                SampleKind::Other => 2,
            },
        )
    }

    /// Whether this format is preferred to another.
    pub open spec fn better(self, other: InputFormat) -> bool {
        self.rank().0 < other.rank().0 || (self.rank().0 == other.rank().0 && self.rank().1
            < other.rank().1)
    }

    fn is_usable(&self) -> (r: bool)
        ensures
            r == self.usable(),
    {
        self.channels >= 1 && self.min_sample_rate <= ARD_AUDIO_SAMPLE_RATE_HZ
            && ARD_AUDIO_SAMPLE_RATE_HZ <= self.max_sample_rate
    }

    fn is_better(&self, other: &InputFormat) -> (r: bool)
        ensures
            r == self.better(*other),
    {
        let mine: u8 = channel_rank(self.channels);
        let theirs: u8 = channel_rank(other.channels);
        mine < theirs || (mine == theirs && sample_rank(self.samples) < sample_rank(other.samples))
    }
}

fn channel_rank(channels: u16) -> (r: u8)
    ensures
        r == (if channels == 2 {
            0int
        } else if channels == 1 {
            1
        } else {
            2
        }),
{
    if channels == 2 {
        0
    } else if channels == 1 {
        1
    } else {
        2
    }
}

fn sample_rank(samples: SampleKind) -> (r: u8)
    ensures
        r == (match samples {
            SampleKind::Float32 => 0int,
            SampleKind::Signed16 => 1,
            SampleKind::Other => 2,
        }),
{
    match samples {
        SampleKind::Float32 => 0,
        SampleKind::Signed16 => 1,
        SampleKind::Other => 2,
    }
}

/// Picks the best of the formats that can be used, and of equally good ones the first.
pub fn select_protocol_input_config(formats: &[InputFormat]) -> (r: Result<usize, VncError>)
    ensures
        match r {
            Ok(best) => {
                &&& best < formats@.len()
                &&& formats@[best as int].usable()
                &&& forall|i: int|
                    0 <= i < formats@.len() && (#[trigger] formats@[i]).usable()
                        ==> !formats@[i].better(formats@[best as int]) && (i < best
                        ==> formats@[best as int].better(formats@[i]))
            },
            Err(e) => {
                &&& e == VncError::Text("默认输入设备不支持 ARD 所需的 48 kHz 格式")
                &&& forall|i: int| 0 <= i < formats@.len() ==> !(#[trigger] formats@[i]).usable()
            },
        },
{
    let mut best: Option<usize> = None;
    let mut i: usize = 0;
    while i < formats.len()
        invariant
            i <= formats@.len(),
            match best {
                Some(best) => {
                    &&& best < i
                    &&& formats@[best as int].usable()
                    &&& forall|k: int|
                        0 <= k < i && (#[trigger] formats@[k]).usable() ==> !formats@[k].better(
                            formats@[best as int],
                        ) && (k < best ==> formats@[best as int].better(formats@[k]))
                },
                None => forall|k: int| 0 <= k < i ==> !(#[trigger] formats@[k]).usable(),
            },
        decreases formats@.len() - i,
    {
        if formats[i].is_usable() {
            match best {
                None => {
                    best = Some(i);
                },
                Some(at) => {
                    if formats[i].is_better(&formats[at]) {
                        best = Some(i);
                    }
                },
            }
        }
        i = i + 1;
    }
    match best {
        Some(best) => Ok(best),
        None => Err(VncError::Text("默认输入设备不支持 ARD 所需的 48 kHz 格式")),
    }
}

/// A mixed sample lies between the two samples of its frame, as near to their middle as a whole
/// number can, and on the side of zero. So two equal samples are mixed to that sample, the order of
/// the two does not matter, and two opposite frames are mixed to opposite samples.
pub proof fn law_mixed_sample_lies_between(left: i16, right: i16)
    ensures
        ({
            let sample = mixed(seq![FrameView { left, right }])[0];
            let swapped = mixed(seq![FrameView { left: right, right: left }])[0];
            &&& left <= sample <= right || right <= sample <= left
            &&& -1 <= (sample - left) - (right - sample) <= 1
            &&& left + right >= 0 ==> 2 * sample <= left + right
            &&& left + right <= 0 ==> 2 * sample >= left + right
            &&& left == right ==> sample == left
            &&& sample == swapped
            &&& left > -32768 && right > -32768 ==> mixed(
                seq![FrameView { left: (-left) as i16, right: (-right) as i16 }],
            )[0] == -sample
        }),
{
}

/// Every frame is mixed on its own and at its place.
pub proof fn law_frames_are_mixed_one_by_one(frames: Seq<FrameView>, i: int)
    requires
        0 <= i < frames.len(),
    ensures
        mixed(frames).len() == frames.len(),
        mixed(frames)[i] == mixed(seq![frames[i]])[0],
        interleaved(frames).len() == 2 * frames.len(),
        interleaved(frames)[2 * i] == frames[i].left,
        interleaved(frames)[2 * i + 1] == frames[i].right,
{
}

/// A microphone of one channel is passed on unchanged, on both sides and mixed down; one of two
/// channels is passed on unchanged; of more channels the first two are.
pub proof fn law_microphone_is_passed_on(input: Seq<i16>, channels: int, i: int)
    requires
        channels >= 1,
        0 <= i,
        i * channels + channels <= input.len(),
    ensures
        ({
            let frames = frames_of(input, channels);
            &&& i < frames.len()
            &&& channels * frames.len() <= input.len() < channels * frames.len() + channels
            &&& interleaved(frames)[2 * i] == input[i * channels]
            &&& channels == 1 ==> interleaved(frames)[2 * i + 1] == input[i]
            &&& channels == 1 ==> mixed(frames)[i] == input[i]
            &&& channels >= 2 ==> interleaved(frames)[2 * i + 1] == input[i * channels + 1]
        }),
        channels == 2 && input.len() % 2 == 0 ==> interleaved(frames_of(input, 2)) == input,
        channels == 1 ==> mixed(frames_of(input, 1)) == input,
{
    let n = input.len() as int;
    let count = n / channels;
    vstd::arithmetic::div_mod::lemma_fundamental_div_mod(n, channels);
    vstd::arithmetic::div_mod::lemma_mod_bound(n, channels);
    vstd::arithmetic::div_mod::lemma_div_pos_is_pos(n, channels);
    assert(i < count) by (nonlinear_arith)
        requires
            i * channels + channels <= n,
            n < channels * count + channels,
            channels >= 1,
    ;
    let frames = frames_of(input, channels);
    assert(frames.len() == count);
    law_frames_are_mixed_one_by_one(frames, i);
    if channels == 1 {
        assert forall|k: int| 0 <= k < n implies mixed(frames)[k] == input[k] by {
            law_mixed_sample_lies_between(input[k], input[k]);
        }
        assert(mixed(frames) =~= input);
    }
    if channels == 2 && n % 2 == 0 {
        assert forall|k: int| 0 <= k < n implies interleaved(frames)[k] == input[k] by {
            assert(k / 2 < count);
        }
        assert(interleaved(frames) =~= input);
    }
}

/// A queue keeps the newest frames, in their order, and no more than those of half a second; what
/// it does not keep is counted.
pub proof fn law_newest_frames_are_kept(frames: Seq<FrameView>)
    ensures
        2 * newest(frames).len() <= ARD_AUDIO_SAMPLE_RATE_HZ,
        newest(frames).len() + overflow(frames.len() as int) == frames.len(),
        frames.take(frames.len() - newest(frames).len()) + newest(frames) == frames,
        2 * frames.len() <= ARD_AUDIO_SAMPLE_RATE_HZ ==> newest(frames) == frames,
        2 * frames.len() > ARD_AUDIO_SAMPLE_RATE_HZ ==> 2 * newest(frames).len()
            == ARD_AUDIO_SAMPLE_RATE_HZ,
{
    assert(frames.take(frames.len() - newest(frames).len()) + newest(frames) =~= frames);
}

/// What makes a format better: two channels before one, one before more; and among the same,
/// samples in floating point before 16-bit ones and those before all others. No two formats are
/// each better than the other.
pub proof fn law_formats_are_ranked(a: InputFormat, b: InputFormat)
    ensures
        a.channels == 2 && b.channels != 2 ==> a.better(b),
        a.channels == 1 && b.channels > 2 ==> a.better(b),
        a.channels == b.channels && a.samples is Float32 && !(b.samples is Float32) ==> a.better(b),
        a.channels == b.channels && a.samples is Signed16 && b.samples is Other ==> a.better(b),
        a.channels > 2 && b.channels > 2 && a.samples == b.samples ==> !a.better(b),
        a.channels == b.channels && a.samples == b.samples ==> !a.better(b),
        a.better(b) ==> !b.better(a),
        a.usable() ==> a.min_sample_rate <= 48_000 <= a.max_sample_rate && a.channels != 0,
{
}

} // verus!
