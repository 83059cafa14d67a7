use vstd::prelude::*;

verus! {

/// The longest span of time `std::time::Duration` holds, in nanoseconds:
/// `u64::MAX` seconds and 999 999 999 nanoseconds. Adding spans beyond it
/// panics.
pub const MAX_DURATION_NANOS: u128 = 18_446_744_073_709_551_615_999_999_999u128;

/// Total of a sequence of frame times, in nanoseconds.
pub open spec fn elapsed(deltas: Seq<u128>) -> int
    decreases deltas.len(),
{
    if deltas.len() == 0 {
        0
    } else {
        elapsed(deltas.drop_last()) + deltas.last()
    }
}

/// A stunned character after tripping; time spent so far, in nanoseconds.
#[derive(Clone, Copy, PartialEq, Eq, Structural, Debug, Default)]
pub struct Tripping {
    pub duration: u128,
}

/// A character getting back up after tripping; time spent on the ground
/// without interruption, in nanoseconds.
#[derive(Clone, Copy, PartialEq, Eq, Structural, Debug, Default)]
pub struct TripRecover {
    pub grounded_duration: u128,
}

impl Tripping {
    /// Counts one frame of `delta` nanoseconds; returns whether the stun of
    /// `stun_time` nanoseconds is over, so that recovery starts.
    pub fn tripping_to_trip_recover(&mut self, delta: u128, stun_time: u128) -> (recovers: bool)
        requires
            old(self).duration + delta <= MAX_DURATION_NANOS,
        ensures
            final(self).duration == old(self).duration + delta,
            recovers == (final(self).duration >= stun_time),
    {
        self.duration = self.duration + delta;
        self.duration >= stun_time
    }
}

impl TripRecover {
    /// Counts one frame of `delta` nanoseconds: time on the ground adds up,
    /// leaving the ground starts the count over. Returns whether the character
    /// stands again, which takes more than `recover_time` nanoseconds on the
    /// ground.
    pub fn trip_recover_update(&mut self, grounded: bool, delta: u128, recover_time: u128) -> (stands: bool)
        requires
            grounded ==> old(self).grounded_duration + delta <= MAX_DURATION_NANOS,
        ensures
            grounded ==> final(self).grounded_duration == old(self).grounded_duration + delta,
            !grounded ==> final(self).grounded_duration == 0,
            stands == (grounded && final(self).grounded_duration > recover_time),
    {
        if grounded {
            self.grounded_duration = self.grounded_duration + delta;
            self.grounded_duration > recover_time
        } else {
            self.grounded_duration = 0;
            false
        }
    }
}

/// One frame of a hit stop.
#[derive(Clone, Copy, PartialEq, Eq, Structural, Debug)]
pub enum HitStopStep {
    /// Motion stays frozen, with `remaining` nanoseconds left.
    Freeze { remaining: u128 },
    /// The stop is over: motion resumes.
    Release,
}

/// One frame of `delta` nanoseconds of a hit stop with `remaining` nanoseconds
/// left: it stays frozen while the frame fits in what is left.
pub fn hit_stop_update(remaining: u128, delta: u128) -> (step: HitStopStep)
    ensures
        step == if delta <= remaining {
            HitStopStep::Freeze { remaining: (remaining - delta) as u128 }
        } else {
            HitStopStep::Release
        },
{
    match remaining.checked_sub(delta) {
        Some(left) => HitStopStep::Freeze { remaining: left },
        None => HitStopStep::Release,
    }
}

/// The state of a hit stop of `duration` nanoseconds after frames `deltas`:
/// `Some(left)` while still frozen, `None` once released.
pub open spec fn hit_stop_after(duration: u128, deltas: Seq<u128>) -> Option<u128>
    decreases deltas.len(),
{
    if deltas.len() == 0 {
        Some(duration)
    } else {
        match hit_stop_after(duration, deltas.drop_last()) {
            Some(left) => if deltas.last() <= left { Some((left - deltas.last()) as u128) } else { None },
            None => None,
        }
    }
}

/// A hit stop holds exactly while the frames so far add up to no more than its
/// duration, and what is left is the difference.
pub proof fn lemma_hit_stop_holds_for_its_duration(duration: u128, deltas: Seq<u128>)
    ensures
        hit_stop_after(duration, deltas) == if elapsed(deltas) <= duration {
            Some((duration - elapsed(deltas)) as u128)
        } else {
            None::<u128>
        },
    decreases deltas.len(),
{
    if deltas.len() > 0 {
        lemma_hit_stop_holds_for_its_duration(duration, deltas.drop_last());
        lemma_elapsed_nonnegative(deltas.drop_last());
    }
}

proof fn lemma_elapsed_nonnegative(deltas: Seq<u128>)
    ensures
        elapsed(deltas) >= 0,
    decreases deltas.len(),
{
    if deltas.len() > 0 {
        lemma_elapsed_nonnegative(deltas.drop_last());
    }
}

/// The time spent tripping after frames `deltas`, each counted by
/// `tripping_to_trip_recover`, starting from a fresh trip.
pub open spec fn tripping_after(deltas: Seq<u128>) -> int
    decreases deltas.len(),
{
    if deltas.len() == 0 {
        Tripping::default_duration()
    } else {
        tripping_after(deltas.drop_last()) + deltas.last()
    }
}

impl Tripping {
    /// The time spent by a fresh trip.
    pub open spec fn default_duration() -> int {
        0
    }

    /// A fresh trip, as `Default` makes it.
    pub fn new() -> (tripping: Tripping)
        ensures
            tripping.duration == Tripping::default_duration(),
    {
        Tripping { duration: 0 }
    }
}

/// A trip stun counted frame by frame ends at the first frame at which the
/// frames so far add up to the stun time, and stays over afterwards.
pub proof fn lemma_trip_stun_ends_after_stun_time(deltas: Seq<u128>, extra: Seq<u128>, stun_time: u128)
    ensures
        tripping_after(deltas) == elapsed(deltas),
        tripping_after(deltas) >= stun_time ==> tripping_after(deltas + extra) >= stun_time,
{
    lemma_tripping_is_elapsed(deltas);
    lemma_tripping_is_elapsed(deltas + extra);
    lemma_elapsed_append(deltas, extra);
}

proof fn lemma_tripping_is_elapsed(deltas: Seq<u128>)
    ensures
        tripping_after(deltas) == elapsed(deltas),
    decreases deltas.len(),
{
    if deltas.len() > 0 {
        lemma_tripping_is_elapsed(deltas.drop_last());
    }
}

proof fn lemma_elapsed_append(a: Seq<u128>, b: Seq<u128>)
    ensures
        elapsed(a + b) >= elapsed(a),
    decreases b.len(),
{
    if b.len() > 0 {
        assert((a + b).drop_last() =~= a + b.drop_last());
        lemma_elapsed_append(a, b.drop_last());
    } else {
        assert(a + b =~= a);
    }
}

/// One frame of `delta` nanoseconds of a dash that lasts `max_duration`
/// nanoseconds: returns the time dashed so far and whether the dash is over.
pub fn update_dashing(duration: u128, max_duration: u128, delta: u128) -> (result: (u128, bool))
    requires
        duration + delta <= MAX_DURATION_NANOS,
    ensures
        result.0 == duration + delta,
        result.1 == (duration + delta >= max_duration),
{
    let duration = duration + delta;
    (duration, duration >= max_duration)
}

/// One frame of `delta` nanoseconds of a held jump that may be held for
/// `timer_max` nanoseconds: returns whether the jump still pushes this frame
/// (the time held so far is within the limit) and the time held after it.
pub fn do_jump(timer: u128, timer_max: u128, delta: u128) -> (result: (bool, u128))
    requires
        timer + delta <= MAX_DURATION_NANOS,
    ensures
        result.0 == (timer <= timer_max),
        result.1 == timer + delta,
{
    (timer <= timer_max, timer + delta)
}

/// A character charging up a dash or jump; time charged so far, in
/// nanoseconds.
#[derive(Clone, Copy, PartialEq, Eq, Structural, Debug, Default)]
pub struct Charging {
    pub charge_time: u128,
}

impl Charging {
    /// Counts one frame of `delta` nanoseconds of charging.
    pub fn update_charge_time(&mut self, delta: u128)
        requires
            old(self).charge_time + delta <= MAX_DURATION_NANOS,
        ensures
            final(self).charge_time == old(self).charge_time + delta,
    {
        self.charge_time = self.charge_time + delta;
    }
}

/// What to do with the looping sound of a slide.
#[derive(Clone, Copy, PartialEq, Eq, Structural, Debug)]
pub enum SlidingSoundAction {
    /// Start the sound.
    Start,
    /// Stop the sound.
    Stop,
    /// Leave it as it is.
    Keep,
}

/// The action on the slide sound for a slide on the ground or not, with the
/// sound playing or not.
pub open spec fn spec_sliding_sound_action(grounded: bool, has_sound: bool) -> SlidingSoundAction {
    if grounded && !has_sound {
        SlidingSoundAction::Start
    } else if !grounded && has_sound {
        SlidingSoundAction::Stop
    } else {
        SlidingSoundAction::Keep
    }
}

/// A sliding character plays the slide sound exactly while on the ground:
/// it starts on landing and stops on leaving the ground.
pub fn update_sliding_sound(grounded: bool, has_sound: bool) -> (action: SlidingSoundAction)
    ensures
        action == spec_sliding_sound_action(grounded, has_sound),
{
    if grounded && !has_sound {
        SlidingSoundAction::Start
    } else if !grounded && has_sound {
        SlidingSoundAction::Stop
    } else {
        SlidingSoundAction::Keep
    }
}

/// A sliding sound is playing after an update exactly when the character is
/// on the ground.
pub proof fn lemma_sliding_sound_follows_ground(grounded: bool, has_sound: bool)
    ensures
        match spec_sliding_sound_action(grounded, has_sound) {
            SlidingSoundAction::Start => true,
            SlidingSoundAction::Stop => false,
            SlidingSoundAction::Keep => has_sound,
        } == grounded,
{
}

/// Among the entities a ray cast downwards from a character hits, in the
/// order the physics engine reports them, the position of the first one that
/// is not the character's own collider: the ground it stands on, if any.
pub fn update_is_grounded(hits: &Vec<u64>, own_collider: u64) -> (contact: Option<usize>)
    ensures
        match contact {
            Some(i) => i < hits@.len() && hits@[i as int] != own_collider
                && forall|j: int| 0 <= j < i ==> hits@[j] == own_collider,
            None => forall|j: int| 0 <= j < hits@.len() ==> hits@[j] == own_collider,
        },
{
    for i in 0..hits.len()
        invariant
            forall|j: int| 0 <= j < i ==> hits@[j] == own_collider,
    {
        if hits[i] != own_collider {
            return Some(i);
        }
    }
    None
}

} // verus!
