//! Limiting one program through the system's mixer: the volume is moved when the gain that
//! the level asks for has changed enough.

use vstd::prelude::*;

use crate::arithmetic::{
    answers_alike, difference_is, knows_one_and_zero, product_is, Arithmetic,
};
use crate::limiter::{ONE, ZERO};
use crate::modes::cable::{loop_step, should_continue, LoopStep, BUSY_RETRY_MS};
use crate::modes::config::Access;
use crate::modes::limiter::LoudnessLimiter;
use crate::single::{single, Single};

verus! {

/// The loop between two scans.
#[derive(Clone, Copy, Debug, PartialEq, Eq, Structural)]
pub struct VolumeLoop {
    /// The volume before the loop began.
    pub original_volume: Single,
    /// The gain that the volume was last set for.
    pub last_gain: Single,
}

/// What the loop does next.
#[derive(Clone, Copy, Debug, PartialEq, Eq, Structural)]
pub enum VolumeStep {
    /// Somebody else is at the state: sleep for so many milliseconds and look again.
    LookAgain(u64),
    /// Read how often to scan and which changes to ignore.
    ReadSettings,
    /// Scan with this threshold, then sleep for so many milliseconds.
    Scan(u32, Single),
    /// Set this volume and end.
    End(Single),
}

/// `target` is an answer for the gain that a scan comes to; the last one where the limiter
/// is busy.
pub open spec fn scan_target_is<A: Arithmetic>(
    limiter: Option<LoudnessLimiter>,
    rms: Single,
    last_gain: Single,
    target: Single,
    next: Option<LoudnessLimiter>,
) -> bool {
    match limiter {
        Some(limiter) => limiter.gain_after_is::<A>(rms, 1, target) && next == Some(
            LoudnessLimiter { current_gain: target, ..limiter },
        ),
        None => target == last_gain && next is None,
    }
}

/// The gain to go by: the new one, where `change` is an answer for how far it is from the
/// last and that is more than `threshold`.
pub open spec fn settled_gain(
    last_gain: Single,
    target: Single,
    change: Single,
    threshold: Single,
) -> Single {
    if threshold.below(change.absolute()) {
        target
    } else {
        last_gain
    }
}

/// `volume` is an answer for the volume at a gain.
pub open spec fn volume_is<A: Arithmetic>(
    original_volume: Single,
    gain: Single,
    volume: Single,
) -> bool {
    exists|scaled: Single| #[trigger]
        product_is::<A>(original_volume, gain, scaled) && volume == scaled.clamped(
            single(ZERO),
            single(ONE),
        )
}

impl VolumeLoop {
    pub fn new(original_volume: Single) -> (volume_loop: VolumeLoop)
        ensures
            volume_loop == (VolumeLoop { original_volume, last_gain: single(ZERO) }),
    {
        VolumeLoop { original_volume, last_gain: Single::from_bits(ZERO) }
    }

    /// The step after a look at the state.
    pub open spec fn step_after_look(self, is_limiting: Access<bool>) -> VolumeStep {
        match is_limiting {
            Access::Granted(limiting) => if limiting {
                VolumeStep::ReadSettings
            } else {
                VolumeStep::End(self.original_volume)
            },
            Access::Busy => VolumeStep::LookAgain(BUSY_RETRY_MS),
            Access::Poisoned => VolumeStep::End(self.original_volume),
        }
    }

    /// The step after an attempt to read the settings.
    pub open spec fn step_after_reading(self, settings: Access<(u32, Single)>) -> VolumeStep {
        match settings {
            Access::Granted((interval_ms, threshold)) => VolumeStep::Scan(interval_ms, threshold),
            _ => VolumeStep::End(self.original_volume),
        }
    }

    /// Takes in what looking at the state came to. Where limiting is over, the volume is set
    /// back to what it was.
    pub fn look(&self, is_limiting: Access<bool>) -> (step: VolumeStep)
        ensures
            step == (match is_limiting {
                Access::Granted(true) => VolumeStep::ReadSettings,
                Access::Busy => VolumeStep::LookAgain(BUSY_RETRY_MS),
                _ => VolumeStep::End(self.original_volume),
            }),
            step == self.step_after_look(is_limiting),
    {
        match should_continue(is_limiting) {
            LoopStep::GoOn => VolumeStep::ReadSettings,
            LoopStep::Retry(milliseconds) => VolumeStep::LookAgain(milliseconds),
            LoopStep::Stop => VolumeStep::End(self.original_volume),
        }
    }

    /// Takes in what reading the settings came to: how often to scan, in milliseconds, and
    /// which changes to ignore. Where they cannot be had, the volume is set back to what it
    /// was and the loop ends.
    pub fn begin_scan(&self, settings: Access<(u32, Single)>) -> (step: VolumeStep)
        ensures
            step == (match settings {
                Access::Granted((interval_ms, threshold)) => VolumeStep::Scan(
                    interval_ms,
                    threshold,
                ),
                _ => VolumeStep::End(self.original_volume),
            }),
            step == self.step_after_reading(settings),
    {
        match settings {
            Access::Granted((interval_ms, threshold)) => VolumeStep::Scan(interval_ms, threshold),
            _ => VolumeStep::End(self.original_volume),
        }
    }

    /// What a scan that came to `target` does: `volume` is the volume to be set, if it is
    /// to be moved at all.
    pub open spec fn settles<A: Arithmetic>(
        self,
        target: Single,
        threshold: Single,
        volume: Option<Single>,
        next: VolumeLoop,
    ) -> bool {
        exists|change: Single|
            {
                &&& #[trigger] difference_is::<A>(self.last_gain, target, change)
                &&& {
                    let gain = settled_gain(self.last_gain, target, change, threshold);
                    if gain.same(self.last_gain) {
                        volume is None && next == self
                    } else {
                        &&& volume is Some
                        &&& volume_is::<A>(self.original_volume, gain, volume->0)
                        &&& next == (VolumeLoop { last_gain: gain, ..self })
                    }
                }
            }
    }

    /// Deals with one scan at which the level was `rms`; `limiter` is `None` where it is
    /// busy. Gives back the volume to be set, if it is to be moved.
    pub fn scan<A: Arithmetic>(
        &mut self,
        limiter: &mut Option<LoudnessLimiter>,
        rms: Single,
        threshold: Single,
    ) -> (volume: Option<Single>)
        ensures
            exists|target: Single|
                {
                    &&& #[trigger] scan_target_is::<A>(
                        *old(limiter),
                        rms,
                        old(self).last_gain,
                        target,
                        *final(limiter),
                    )
                    &&& old(self).settles::<A>(target, threshold, volume, *final(self))
                    &&& exists|change: Single| #[trigger]
                        difference_is::<A>(old(self).last_gain, target, change) && (
                        if threshold.below(change.absolute()) && !target.same(
                            old(self).last_gain,
                        ) {
                            &&& volume is Some
                            &&& final(self).last_gain == target
                        } else {
                            !old(self).last_gain.nan() ==> volume is None && *final(self) == *old(
                                self,
                            )
                        })
                },
            final(self).original_volume == old(self).original_volume,
    {
        let ghost before = *limiter;
        let target = match limiter {
            Some(limiter) => limiter.calculate_gain::<A>(rms, 1),
            None => self.last_gain,
        };
        proof {
            assert(scan_target_is::<A>(before, rms, self.last_gain, target, *limiter));
        }
        let change = A::difference(self.last_gain, target);
        assert(difference_is::<A>(self.last_gain, target, change));
        let gain = if threshold.lt(change.abs()) {
            target
        } else {
            self.last_gain
        };
        if gain.is_same(self.last_gain) {
            None
        } else {
            let scaled = A::product(self.original_volume, gain);
            assert(product_is::<A>(self.original_volume, gain, scaled));
            self.last_gain = gain;
            Some(scaled.clamp(Single::from_bits(ZERO), Single::from_bits(ONE)))
        }
    }
}

/// The volume that is set lies between nothing and full, wherever it is a number.
pub proof fn law_volume_is_in_range<A: Arithmetic>(
    original_volume: Single,
    gain: Single,
    volume: Single,
)
    requires
        volume_is::<A>(original_volume, gain, volume),
        !volume.nan(),
    ensures
        single(ZERO).at_most(volume),
        volume.at_most(single(ONE)),
{
    let scaled = choose|scaled: Single| #[trigger]
        product_is::<A>(original_volume, gain, scaled) && volume == scaled.clamped(
            single(ZERO),
            single(ONE),
        );
    crate::single::law_clamp_bounds(scaled, single(ZERO), single(ONE));
}

/// `next` is what some scan makes of the loop.
pub open spec fn scan_leads_to<A: Arithmetic>(volume_loop: VolumeLoop, next: VolumeLoop) -> bool {
    exists|target: Single, threshold: Single, volume: Option<Single>| #[trigger]
        volume_loop.settles::<A>(target, threshold, volume, next)
}

proof fn lemma_scan_keeps_volume<A: Arithmetic>(volume_loop: VolumeLoop, next: VolumeLoop)
    requires
        scan_leads_to::<A>(volume_loop, next),
    ensures
        next.original_volume == volume_loop.original_volume,
{
}

/// However many scans there were, the volume that the loop ends with is the one from before
/// it began.
pub proof fn law_loop_ends_at_first_volume<A: Arithmetic>(
    loops: Seq<VolumeLoop>,
    first_volume: Single,
    at: int,
)
    requires
        loops.len() > 0,
        loops[0] == (VolumeLoop { original_volume: first_volume, last_gain: single(ZERO) }),
        forall|i: int, j: int|
            0 <= i && j == i + 1 && j < loops.len() ==> scan_leads_to::<A>(
                #[trigger] loops[i],
                #[trigger] loops[j],
            ),
        0 <= at < loops.len(),
    ensures
        loops[at].original_volume == first_volume,
    decreases at,
{
    if at > 0 {
        law_loop_ends_at_first_volume::<A>(loops, first_volume, at - 1);
        lemma_scan_keeps_volume::<A>(loops[at - 1], loops[at]);
    }
}

/// A change that is not above the threshold moves nothing.
pub proof fn law_small_changes_are_ignored<A: Arithmetic>(
    volume_loop: VolumeLoop,
    target: Single,
    threshold: Single,
    volume: Option<Single>,
    next: VolumeLoop,
)
    requires
        volume_loop.settles::<A>(target, threshold, volume, next),
        !volume_loop.last_gain.nan(),
        forall|change: Single| #[trigger]
            difference_is::<A>(volume_loop.last_gain, target, change) ==> !threshold.below(
                change.absolute(),
            ),
    ensures
        volume is None,
        next == volume_loop,
{
}

/// A change above the threshold always moves the volume, upwards as well as downwards: the
/// volume that is set is the first volume scaled by the new gain and brought between nothing and
/// full, and the new gain is the one that the next scan goes by.
pub proof fn law_large_changes_move_the_volume<A: Arithmetic>(
    volume_loop: VolumeLoop,
    target: Single,
    threshold: Single,
    volume: Option<Single>,
    next: VolumeLoop,
    change: Single,
)
    requires
        answers_alike::<A>(),
        volume_loop.settles::<A>(target, threshold, volume, next),
        difference_is::<A>(volume_loop.last_gain, target, change),
        threshold.below(change.absolute()),
        !target.same(volume_loop.last_gain),
    ensures
        volume is Some,
        next.last_gain == target,
        next.original_volume == volume_loop.original_volume,
        exists|scaled: Single| #[trigger]
            product_is::<A>(volume_loop.original_volume, target, scaled) && (
            scaled.below(single(ZERO)) ==> volume->0 == single(ZERO)) && (single(ONE).below(scaled)
                ==> volume->0 == single(ONE)) && (!scaled.below(single(ZERO)) && !single(
                ONE,
            ).below(scaled) ==> volume->0 == scaled),
{
}

/// Only the distance between two gains counts, not its direction: where a fall from one gain to
/// another moves the volume, so does the rise back, and the volume is then what it was before.
pub proof fn law_rise_undoes_fall<A: Arithmetic>(
    high: VolumeLoop,
    low: VolumeLoop,
    back: VolumeLoop,
    threshold: Single,
    fallen: Option<Single>,
    risen: Option<Single>,
    fall: Single,
    rise: Single,
)
    requires
        answers_alike::<A>(),
        high.settles::<A>(low.last_gain, threshold, fallen, low),
        low.settles::<A>(high.last_gain, threshold, risen, back),
        difference_is::<A>(high.last_gain, low.last_gain, fall),
        difference_is::<A>(low.last_gain, high.last_gain, rise),
        rise.absolute() == fall.absolute(),
        threshold.below(fall.absolute()),
        low.last_gain.below(high.last_gain),
    ensures
        fallen is Some,
        risen is Some,
        back == high,
        exists|scaled: Single| #[trigger]
            product_is::<A>(high.original_volume, high.last_gain, scaled) && (!scaled.below(
                single(ZERO),
            ) && !single(ONE).below(scaled) ==> risen->0 == scaled),
{
    law_large_changes_move_the_volume::<A>(high, low.last_gain, threshold, fallen, low, fall);
    law_large_changes_move_the_volume::<A>(low, high.last_gain, threshold, risen, back, rise);
}

/// A full volume at a gain from zero to one is the gain itself.
pub proof fn law_full_volume_follows_the_gain<A: Arithmetic>(gain: Single, volume: Single)
    requires
        knows_one_and_zero::<A>(),
        single(ZERO).at_most(gain) && gain.at_most(single(ONE)),
        volume_is::<A>(single(ONE), gain, volume),
    ensures
        volume == gain,
{
}

/// The place of the first audio session that belongs to the process `pid`.
pub fn find_session(pids: &Vec<u32>, pid: u32) -> (place: Option<usize>)
    ensures
        match place {
            Some(at) => {
                &&& at < pids@.len()
                &&& pids@[at as int] == pid
                &&& forall|i: int| 0 <= i < at ==> #[trigger] pids@[i] != pid
            },
            None => forall|i: int| 0 <= i < pids@.len() ==> #[trigger] pids@[i] != pid,
        },
{
    let mut at: usize = 0;
    while at < pids.len()
        invariant
            at <= pids@.len(),
            forall|i: int| 0 <= i < at ==> #[trigger] pids@[i] != pid,
        decreases pids@.len() - at,
    {
        if pids[at] == pid {
            return Some(at);
        }
        at = at + 1;
    }
    None
}

/// The loop that moves the volume goes on, waits and ends where any loop does; it scans with the
/// settings that it read, and whenever it ends, the volume is set back to what it was.
pub proof fn law_loop_sets_the_volume_back(
    volume_loop: VolumeLoop,
    is_limiting: Access<bool>,
    settings: Access<(u32, Single)>,
    volume: Single,
)
    ensures
        volume_loop.step_after_look(is_limiting) == VolumeStep::ReadSettings <==> loop_step(
            is_limiting,
        ) == LoopStep::GoOn,
        volume_loop.step_after_look(is_limiting) == VolumeStep::End(volume) <==> loop_step(
            is_limiting,
        ) == LoopStep::Stop && volume == volume_loop.original_volume,
        volume_loop.step_after_look(is_limiting) == VolumeStep::LookAgain(10) <==> is_limiting
            is Busy,
        settings is Granted ==> volume_loop.step_after_reading(settings) == VolumeStep::Scan(
            settings->Granted_0.0,
            settings->Granted_0.1,
        ),
        settings !is Granted ==> volume_loop.step_after_reading(settings) == VolumeStep::End(
            volume_loop.original_volume,
        ),
{
}

/// Where the limiter is busy a scan asks for the last gain again, so that the volume is not moved; in
/// any other case the limiter keeps the gain that it came to.
pub proof fn law_busy_limiter_asks_for_the_last_gain<A: Arithmetic>(
    limiter: Option<LoudnessLimiter>,
    rms: Single,
    volume_loop: VolumeLoop,
    threshold: Single,
    target: Single,
    next_limiter: Option<LoudnessLimiter>,
    volume: Option<Single>,
    next: VolumeLoop,
)
    requires
        scan_target_is::<A>(limiter, rms, volume_loop.last_gain, target, next_limiter),
        volume_loop.settles::<A>(target, threshold, volume, next),
        !volume_loop.last_gain.nan(),
    ensures
        limiter is None ==> next_limiter is None && volume is None && next == volume_loop,
        limiter is Some ==> next_limiter is Some && next_limiter->0.current_gain == target
            && limiter->0.gain_after_is::<A>(rms, 1, target),
{
}

} // verus!
