//! The ring between input and output: how many frames it holds, how full it should be, and
//! how far its level may stray before frames are stretched or merged.

use vstd::prelude::*;

use crate::arithmetic::{product_is, quotient_is, rounded_is, Arithmetic};
use crate::limiter::{
    at_least, frames_in, frames_in_is, machine_size, to_machine_size, THOUSAND, ZERO,
};
use crate::playback::Playback;
use crate::ring::{
    answers, largest_ring, levels, new_ring, offers, one_ring, ring_fits, room, sink_in_order,
    source_in_order, visible, FrameBits, FrameSink, FrameSource,
};
use crate::single::{single, Single};

verus! {

/// Bit pattern of 150: the target latency in milliseconds.
pub const TARGET_RING_LATENCY_MS: u32 = 0x4316_0000;

/// Bit pattern of 30: within so many milliseconds around the target nothing is corrected,
/// so that the usual unsteadiness of callbacks is not chased after.
pub const RING_DRIFT_DEADBAND_MS: u32 = 0x41f0_0000;

/// Bit pattern of 250: the time between two corrections, in milliseconds.
pub const RING_DRIFT_CORRECTION_INTERVAL_MS: u32 = 0x437a_0000;

/// Bit pattern of 10: how long the input is faded in after a start, in milliseconds.
pub const RECONNECT_FADE_MS: u32 = 0x4120_0000;

/// `n` is an answer for the number of frames of the target latency, at least one.
pub open spec fn target_is<A: Arithmetic>(rate: Single, n: usize) -> bool {
    exists|seconds: Single, frames: Single, count: u64|
        #![trigger quotient_is::<A>(single(TARGET_RING_LATENCY_MS), single(THOUSAND), seconds), product_is::<A>(seconds, rate, frames), rounded_is::<A>(frames, count)]
        {
            &&& quotient_is::<A>(single(TARGET_RING_LATENCY_MS), single(THOUSAND), seconds)
            &&& product_is::<A>(seconds, rate, frames)
            &&& rounded_is::<A>(frames, count)
            &&& n == at_least(machine_size(count), 1)
        }
}

fn target_frames<A: Arithmetic>(rate: Single) -> (n: usize)
    ensures
        target_is::<A>(rate, n),
        n >= 1,
{
    let seconds = A::quotient(
        Single::from_bits(TARGET_RING_LATENCY_MS),
        Single::from_bits(THOUSAND),
    );
    let frames = A::product(seconds, rate);
    let count: u64 = A::rounded(frames);
    assert(quotient_is::<A>(single(TARGET_RING_LATENCY_MS), single(THOUSAND), seconds));
    assert(product_is::<A>(seconds, rate, frames));
    assert(rounded_is::<A>(frames, count));
    let size: usize = to_machine_size(count);
    if size < 1 {
        1
    } else {
        size
    }
}

/// How many frames a ring holds that is to be kept at `target`: twice as many.
pub open spec fn capacity_for(target: usize) -> usize {
    if 2 * target > usize::MAX {
        usize::MAX
    } else {
        at_least((2 * target) as usize, 2)
    }
}

/// The sizes of a session's ring, in frames.
#[derive(Clone, Copy, Debug, PartialEq, Eq, Structural)]
pub struct RingGeometry {
    pub target: usize,
    pub capacity: usize,
    pub low_watermark: usize,
    pub high_watermark: usize,
    /// Frames between two corrections.
    pub interval: usize,
    /// Frames that are faded in.
    pub fade_frames: usize,
}

impl RingGeometry {
    /// The geometry around a target: the band reaches `deadband` to both sides, but leaves
    /// two frames of room at both ends of the ring.
    pub open spec fn around(
        target: usize,
        deadband: usize,
        interval: usize,
        fade_frames: usize,
    ) -> RingGeometry {
        let capacity = capacity_for(target);
        let low = if target - deadband < 2 {
            2
        } else {
            target - deadband
        };
        let wanted = target + deadband;
        let high = if wanted > capacity - 2 {
            capacity - 2
        } else {
            wanted
        };
        RingGeometry {
            target,
            capacity,
            low_watermark: low as usize,
            high_watermark: if high < low + 1 {
                (low + 1) as usize
            } else {
                high as usize
            },
            interval,
            fade_frames,
        }
    }

    /// The ring exists and has room for its target.
    pub open spec fn wf(self) -> bool {
        &&& 0 < self.capacity <= largest_ring()
        &&& self.target <= self.capacity
        &&& self.low_watermark < self.high_watermark
        &&& self.fade_frames > 0
    }

    /// The geometry for streams of `rate` frames a second.
    pub open spec fn suits<A: Arithmetic>(self, rate: Single) -> bool {
        exists|target: usize, deadband: usize, interval: usize, fade_frames: usize|
            #![trigger RingGeometry::around(target, deadband, interval, fade_frames)]
            {
                &&& target_is::<A>(rate, target)
                &&& frames_in_is::<A>(rate, single(RING_DRIFT_DEADBAND_MS), deadband)
                &&& frames_in_is::<A>(
                    rate,
                    single(RING_DRIFT_CORRECTION_INTERVAL_MS),
                    interval,
                )
                &&& frames_in_is::<A>(rate, single(RECONNECT_FADE_MS), fade_frames)
                &&& self == RingGeometry::around(target, deadband, interval, fade_frames)
            }
    }

    /// The geometry around a target.
    pub fn from_frames(
        target: usize,
        deadband: usize,
        interval: usize,
        fade_frames: usize,
    ) -> (geometry: RingGeometry)
        requires
            target >= 1,
            deadband >= 1,
            fade_frames >= 1,
            capacity_for(target) <= largest_ring(),
        ensures
            geometry == RingGeometry::around(target, deadband, interval, fade_frames),
            geometry.wf(),
    {
        let capacity: usize = if target > usize::MAX / 2 {
            usize::MAX
        } else if target < 1 {
            2
        } else {
            2 * target
        };
        let low: usize = if target < deadband || target - deadband < 2 {
            2
        } else {
            target - deadband
        };
        let wanted: usize = if deadband > usize::MAX - target {
            usize::MAX
        } else {
            target + deadband
        };
        let most: usize = capacity - 2;
        let high: usize = if wanted > most {
            most
        } else {
            wanted
        };
        RingGeometry {
            target,
            capacity,
            low_watermark: low,
            high_watermark: if high < low + 1 {
                low + 1
            } else {
                high
            },
            interval,
            fade_frames,
        }
    }

    /// The geometry for streams of `rate` frames a second, unless the ring would take more
    /// memory than there can be.
    pub fn for_rate<A: Arithmetic>(rate: Single) -> (geometry: Option<RingGeometry>)
        ensures
            match geometry {
                Some(geometry) => geometry.suits::<A>(rate) && geometry.wf(),
                None => exists|target: usize| #[trigger]
                    target_is::<A>(rate, target) && capacity_for(target) > largest_ring(),
            },
    {
        let target: usize = target_frames::<A>(rate);
        assert(target_is::<A>(rate, target));
        if target > usize::MAX / 2 || !ring_fits(2 * target) {
            return None;
        }
        let deadband: usize = frames_in::<A>(rate, Single::from_bits(RING_DRIFT_DEADBAND_MS));
        let interval: usize = frames_in::<A>(
            rate,
            Single::from_bits(RING_DRIFT_CORRECTION_INTERVAL_MS),
        );
        let fade_frames: usize = frames_in::<A>(rate, Single::from_bits(RECONNECT_FADE_MS));
        Some(RingGeometry::from_frames(target, deadband, interval, fade_frames))
    }

    /// Makes the ring and fills it with silence up to its target.
    pub fn open_ring(&self) -> (ends: (FrameSink, FrameSource))
        requires
            self.wf(),
        ensures
            offers(ends.0) == Seq::new(
                self.target as nat,
                |i: int| ((ZERO, ZERO), true),
            ),
            room(ends.0) == self.capacity - self.target,
            visible(ends.1) == Seq::<FrameBits>::empty(),
            answers(ends.1) == Seq::<Option<FrameBits>>::empty(),
            levels(ends.1) == Seq::<usize>::empty(),
            one_ring(ends.0, ends.1),
            sink_in_order(ends.0),
            source_in_order(ends.1),
    {
        let (mut sink, source) = new_ring(self.capacity);
        let mut pushed: usize = 0;
        while pushed < self.target
            invariant
                self.wf(),
                pushed <= self.target,
                room(sink) == self.capacity - pushed,
                one_ring(sink, source),
                sink_in_order(sink),
                offers(sink) == Seq::new(pushed as nat, |i: int| ((ZERO, ZERO), true)),
            decreases self.target - pushed,
        {
            let taken = sink.push((ZERO, ZERO));
            pushed = pushed + 1;
            proof {
                assert(offers(sink) =~= Seq::new(pushed as nat, |i: int| ((ZERO, ZERO), true)));
            }
        }
        (sink, source)
    }

    /// The output side of a session with this ring.
    pub fn playback(&self) -> (playback: Playback)
        ensures
            playback == Playback::fresh(self.low_watermark, self.high_watermark, self.interval),
    {
        Playback::new(self.low_watermark, self.high_watermark, self.interval)
    }
}

/// The band lies around the target, equally far to both sides wherever the ring is large
/// enough for that, and a ring at its target is within the band.
pub proof fn law_band_surrounds_target(
    target: usize,
    deadband: usize,
    interval: usize,
    fade_frames: usize,
)
    requires
        2 <= target,
        1 <= deadband,
        2 * target <= usize::MAX,
    ensures
        ({
            let geometry = RingGeometry::around(target, deadband, interval, fade_frames);
            &&& geometry.capacity == 2 * target
            &&& geometry.low_watermark <= target <= geometry.high_watermark
            &&& deadband + 2 <= target ==> {
                &&& geometry.low_watermark == target - deadband
                &&& geometry.high_watermark == target + deadband
            }
        }),
{
}

/// The ring of a stream is kept at its target, holds twice as much, is corrected and faded in over
/// times of its own, and its band reaches as far to both sides as it may stray.
pub proof fn law_ring_has_its_times<A: Arithmetic>(geometry: RingGeometry, rate: Single)
    requires
        geometry.suits::<A>(rate),
        2 * geometry.target <= usize::MAX,
        geometry.target >= 2,
    ensures
        target_is::<A>(rate, geometry.target),
        geometry.capacity == 2 * geometry.target,
        frames_in_is::<A>(rate, single(0x437a_0000), geometry.interval),
        frames_in_is::<A>(rate, single(0x4120_0000), geometry.fade_frames),
        exists|deadband: usize|
            {
                &&& #[trigger] frames_in_is::<A>(rate, single(0x41f0_0000), deadband)
                &&& deadband + 2 <= geometry.target ==> {
                    &&& geometry.low_watermark == geometry.target - deadband
                    &&& geometry.high_watermark == geometry.target + deadband
                }
            },
{
    let (target, deadband, interval, fade_frames) = choose|
        target: usize,
        deadband: usize,
        interval: usize,
        fade_frames: usize,
    |
        #![trigger RingGeometry::around(target, deadband, interval, fade_frames)]
        {
            &&& target_is::<A>(rate, target)
            &&& frames_in_is::<A>(rate, single(RING_DRIFT_DEADBAND_MS), deadband)
            &&& frames_in_is::<A>(rate, single(RING_DRIFT_CORRECTION_INTERVAL_MS), interval)
            &&& frames_in_is::<A>(rate, single(RECONNECT_FADE_MS), fade_frames)
            &&& geometry == RingGeometry::around(target, deadband, interval, fade_frames)
        };
    assert(frames_in_is::<A>(rate, single(0x41f0_0000), deadband));
}

/// The target is the latency at the rate of the stream, rounded to the nearest frame and not cut, and
/// never below one frame. Let the host count `count` frames.
pub proof fn law_target_is_the_rounded_latency<A: Arithmetic>(rate: Single, count: u64, target: usize)
    requires
        forall|seconds: Single, frames: Single, r: u64|
            #![trigger quotient_is::<A>(single(0x4316_0000), single(THOUSAND), seconds), product_is::<A>(seconds, rate, frames), rounded_is::<A>(frames, r)]
            quotient_is::<A>(single(0x4316_0000), single(THOUSAND), seconds) && product_is::<A>(
                seconds,
                rate,
                frames,
            ) && rounded_is::<A>(frames, r) ==> r == count,
        target_is::<A>(rate, target),
        count <= usize::MAX,
    ensures
        count >= 1 ==> target == count,
        count == 0 ==> target == 1,
{
}

} // verus!
