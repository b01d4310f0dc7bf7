//! The integer and boolean decisions of the yaw resolver that runs after
//! each animation-state update. The angles and times it weighs are floating
//! point and are compared by the caller; what is decided from the outcomes
//! of those comparisons is here.

use vstd::prelude::*;

verus! {

/// Animation activity: the player stopped moving and adjusts.
pub const ACT_CSGO_IDLE_ADJUST_STOPPEDMOVING: i32 = 5;

/// Animation activity: the balance-adjust turn of a standing player.
pub const ACT_CSGO_IDLE_TURN_BALANCEADJUST: i32 = 4;

/// Whether the lower-body yaw was updated on this tick, for a player standing
/// still whose realign timer is running: either the yaw changed, or the timer
/// ran out while the adjust layer's cycle did not go back.
pub open spec fn spec_lby_updated(realign_reached: bool, lby_changed: bool, cycle_advanced: bool) -> bool {
    lby_changed || (realign_reached && cycle_advanced)
}

/// Decides whether the lower-body yaw was updated on this tick (and so the
/// realign timer restarts and the yaw is accurate). `realign_reached`: the
/// timer has run out; `lby_changed`: the yaw differs from the last tick's;
/// `cycle_advanced`: a previous layer exists and the adjust layer's cycle did
/// not decrease since.
pub fn lby_updated(realign_reached: bool, lby_changed: bool, cycle_advanced: bool) -> (r: bool)
    ensures
        r == spec_lby_updated(realign_reached, lby_changed, cycle_advanced),
        lby_changed ==> r,
        !lby_changed ==> r == (realign_reached && cycle_advanced),
{
    match (realign_reached, lby_changed) {
        (true, false) if cycle_advanced => true,
        (false, true) => true,
        (true, true) => true,
        (false, false) => false,
        (true, false) => false,
    }
}

/// Whether turning step `cycles` of the rotation replay turns with the
/// lower-body yaw rate (else against it): the first step and every odd one.
pub open spec fn spec_rotation_sign_positive(cycles: u32) -> bool {
    cycles == 0 || cycles % 2 == 1
}

/// A change of the lower-body yaw always counts as an update, whatever the
/// timer and the layer say; without one, an update is detected exactly when
/// the timer ran out and the adjust layer's cycle did not go back. So the
/// decision only grows when any of its inputs turns true.
pub proof fn lemma_lby_updated(realign_reached: bool, lby_changed: bool, cycle_advanced: bool)
    ensures
        lby_changed ==> spec_lby_updated(realign_reached, lby_changed, cycle_advanced),
        !lby_changed ==> (spec_lby_updated(realign_reached, lby_changed, cycle_advanced) == (
        realign_reached && cycle_advanced)),
        spec_lby_updated(realign_reached, lby_changed, cycle_advanced) ==> spec_lby_updated(
            true,
            lby_changed,
            cycle_advanced,
        ) && spec_lby_updated(realign_reached, true, cycle_advanced) && spec_lby_updated(
            realign_reached,
            lby_changed,
            true,
        ),
{
}

/// Decides the direction of turning step `cycles` of the rotation replay.
pub fn rotation_sign_positive(cycles: u32) -> (r: bool)
    ensures
        r == spec_rotation_sign_positive(cycles),
{
    cycles == 0 || cycles % 2 == 1
}

/// From the first step on, the direction of the rotation replay alternates.
pub proof fn lemma_rotation_alternates(cycles: u32)
    requires
        1 <= cycles < u32::MAX,
    ensures
        spec_rotation_sign_positive((cycles + 1) as u32) == !spec_rotation_sign_positive(cycles),
{
}

/// The skip counter after one more off-target prediction.
pub open spec fn spec_next_skip(skip: nat) -> nat {
    if skip >= 3 {
        0
    } else {
        skip + 1
    }
}

/// Rations the training of the resolver network: while its predictions are
/// off target, it trains on every fourth tick on which the rotation is due,
/// and on every tick on which the lower-body yaw changed.
pub struct TrainingGate {
    skip: usize,
}

impl TrainingGate {
    /// The counter of off-target ticks, between 0 and 3.
    pub closed spec fn skip(&self) -> nat {
        self.skip as nat
    }

    #[verifier::type_invariant]
    spec fn inv(self) -> bool {
        self.skip <= 3
    }

    /// A gate whose counter starts at 0.
    pub fn new() -> (g: TrainingGate)
        ensures
            g.skip() == 0,
    {
        TrainingGate { skip: 0 }
    }

    /// The counter of off-target ticks.
    pub fn skip_count(&self) -> (r: usize)
        ensures
            r == self.skip(),
            r <= 3,
    {
        proof {
            use_type_invariant(self);
        }
        self.skip
    }

    /// Observes one tick. `off_target`: the predicted yaw is more than the
    /// tolerance away from the real one; `rotation_due`: the time left until
    /// the next lower-body update exceeds two ticks; `lby_changed`: the
    /// lower-body yaw changed on this tick. Returns whether to train. On an
    /// on-target tick nothing changes and nothing is trained.
    pub fn observe(&mut self, off_target: bool, rotation_due: bool, lby_changed: bool) -> (train:
        bool)
        ensures
            !off_target ==> !train && final(self).skip() == old(self).skip(),
            off_target ==> final(self).skip() == spec_next_skip(old(self).skip()) && train == ((
            rotation_due && final(self).skip() == 3) || lby_changed),
            final(self).skip() <= 3,
    {
        proof {
            use_type_invariant(&*self);
        }
        if !off_target {
            return false;
        }
        if self.skip >= 3 {
            self.skip = 0;
        } else {
            self.skip = self.skip + 1;
        }
        (rotation_due && self.skip == 3) || lby_changed
    }
}

/// The counter runs in a cycle of four off-target ticks, and a tick whose
/// counter reaches 3 is followed by three on which it does not: without a
/// change of the lower-body yaw, training happens at most once in any four
/// consecutive off-target ticks.
pub proof fn lemma_training_spacing(skip: nat)
    requires
        skip <= 3,
    ensures
        spec_next_skip(spec_next_skip(spec_next_skip(spec_next_skip(skip)))) == skip,
        spec_next_skip(skip) == 3 ==> spec_next_skip(spec_next_skip(skip)) != 3 && spec_next_skip(
            spec_next_skip(spec_next_skip(skip)),
        ) != 3 && spec_next_skip(spec_next_skip(spec_next_skip(spec_next_skip(skip)))) != 3,
{
}

} // verus!
