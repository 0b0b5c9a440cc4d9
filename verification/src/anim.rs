//! The animation state and its throttle: the yaw and pitch accumulators
//! advance by fixed steps once every tenth frame.

use vstd::prelude::*;

verus! {

/// How many frames pass between two angle steps.
pub const THROTTLE: u8 = 10;

/// The loop's state: a frame counter and the two angle accumulators, kept in
/// tenths of a radian so the fixed steps of 0.2 and 0.1 radians are exact.
#[derive(Clone, Copy, PartialEq, Eq, Structural, Debug)]
pub struct AnimState {
    pub counter: u8,
    pub yaw_tenths: u64,
    pub pitch_tenths: u64,
}

pub open spec fn anim_wf(st: AnimState) -> bool {
    st.counter < THROTTLE
}

/// One frame advance: the counter increments; when it reaches the throttle,
/// the yaw grows by 0.2 radians, the pitch phase by 0.1 radians, and the
/// counter resets to zero.
pub open spec fn advance_spec(st: AnimState) -> AnimState {
    if st.counter + 1 == THROTTLE {
        AnimState {
            counter: 0,
            yaw_tenths: (st.yaw_tenths + 2) as u64,
            pitch_tenths: (st.pitch_tenths + 1) as u64,
        }
    } else {
        AnimState {
            counter: (st.counter + 1) as u8,
            yaw_tenths: st.yaw_tenths,
            pitch_tenths: st.pitch_tenths,
        }
    }
}

/// The state after `n` frame advances.
pub open spec fn advance_n(st: AnimState, n: nat) -> AnimState
    decreases n,
{
    if n == 0 {
        st
    } else {
        advance_spec(advance_n(st, (n - 1) as nat))
    }
}

impl AnimState {
    /// The state the animation starts from.
    pub fn new() -> (st: AnimState)
        ensures
            st == (AnimState { counter: 0u8, yaw_tenths: 0u64, pitch_tenths: 0u64 }),
    {
        AnimState { counter: 0, yaw_tenths: 0, pitch_tenths: 0 }
    }

    /// Advances the state by one frame.
    pub fn advance(&mut self)
        requires
            anim_wf(*old(self)),
            old(self).yaw_tenths + 2 <= u64::MAX,
            old(self).pitch_tenths + 1 <= u64::MAX,
        ensures
            *final(self) == advance_spec(*old(self)),
            anim_wf(*final(self)),
    {
        self.counter = self.counter + 1;
        if self.counter == THROTTLE {
            self.yaw_tenths = self.yaw_tenths + 2;
            self.pitch_tenths = self.pitch_tenths + 1;
            self.counter = 0;
        }
    }
}

proof fn lemma_no_step_below(st: AnimState, k: nat)
    requires
        st.counter == 0,
        k < THROTTLE,
    ensures
        advance_n(st, k).counter == k,
        advance_n(st, k).yaw_tenths == st.yaw_tenths,
        advance_n(st, k).pitch_tenths == st.pitch_tenths,
    decreases k,
{
    if k > 0 {
        lemma_no_step_below(st, (k - 1) as nat);
    }
}

/// Starting from a counter of zero, ten frame advances leave the yaw greater
/// by exactly 0.2 radians and the pitch phase by exactly 0.1 radians, stepped
/// exactly once — the first nine advances change neither — and the counter
/// back at zero.
pub proof fn lemma_throttle_cadence(st: AnimState)
    requires
        st.counter == 0,
        st.yaw_tenths + 2 <= u64::MAX,
        st.pitch_tenths + 1 <= u64::MAX,
    ensures
        forall|k: nat| k < 10 ==> (#[trigger] advance_n(st, k)).yaw_tenths == st.yaw_tenths
            && advance_n(st, k).pitch_tenths == st.pitch_tenths
            && advance_n(st, k).counter == k,
        advance_n(st, 10) == (AnimState {
            counter: 0u8,
            yaw_tenths: (st.yaw_tenths + 2) as u64,
            pitch_tenths: (st.pitch_tenths + 1) as u64,
        }),
{
    assert forall|k: nat| k < 10 implies (#[trigger] advance_n(st, k)).yaw_tenths == st.yaw_tenths
        && advance_n(st, k).pitch_tenths == st.pitch_tenths
        && advance_n(st, k).counter == k by {
        lemma_no_step_below(st, k);
    }
    lemma_no_step_below(st, 9);
    assert(advance_n(st, 10) == advance_spec(advance_n(st, 9)));
}

} // verus!
