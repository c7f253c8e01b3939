//! The dice engine: roll plans, roll evaluation with advantage and
//! disadvantage, and critical detection.
//!
//! Given in-range inputs the engine cannot fail: every contract below holds
//! for every value the roller may produce.

use vstd::prelude::*;

use crate::roller::Roller;

verus! {

/// Whether a roll is made normally, with advantage, or with disadvantage.
#[derive(Clone, Copy, PartialEq, Eq, Structural, Debug, Hash)]
pub enum Advantage {
    Normal,
    Advantage,
    Disadvantage,
}

impl Default for Advantage {
    fn default() -> (r: Self)
        ensures
            r == Advantage::Normal,
    {
        Advantage::Normal
    }
}

/// Options that shape how individual die faces are sampled.
#[derive(Clone, Copy, PartialEq, Eq, Structural, Debug, Hash)]
pub struct RollSettings {
    pub advantage: Advantage,
    pub minimum_die_value: Option<u32>,
    pub maximum_die_value: Option<u32>,
    pub reroll_dice_below: Option<u32>,
}

impl Default for RollSettings {
    fn default() -> (r: Self)
        ensures
            r == (RollSettings {
                advantage: Advantage::Normal,
                minimum_die_value: None,
                maximum_die_value: None,
                reroll_dice_below: None,
            }),
    {
        RollSettings {
            advantage: Advantage::Normal,
            minimum_die_value: None,
            maximum_die_value: None,
            reroll_dice_below: None,
        }
    }
}

/// The criticality of a completed roll.
#[derive(Clone, Copy, PartialEq, Eq, Structural, Debug, Hash)]
pub enum Critical {
    Normal,
    Success,
    Failure,
}

/// A plan for one roll: how many dice, how many faces each, a flat
/// modifier, and the sampling settings.
#[derive(Clone, Copy, PartialEq, Eq, Structural, Debug, Hash)]
pub struct RollPlan {
    pub num_dice: u32,
    pub die_size: u32,
    pub modifier: i32,
    pub settings: RollSettings,
}

/// `x` forced into the inclusive range `lo ..= hi` (for `lo <= hi`).
pub open spec fn clamp_u32(x: u32, lo: u32, hi: u32) -> u32 {
    if x < lo {
        lo
    } else if x > hi {
        hi
    } else {
        x
    }
}

impl RollPlan {
    /// The floor a raw sample is drawn from: the reroll floor, or 1.
    pub open spec fn sample_lo(self) -> u32 {
        match self.settings.reroll_dice_below {
            Some(x) => x,
            None => 1,
        }
    }

    /// The lower clamp bound applied to a sampled face.
    pub open spec fn clamp_lo(self) -> u32 {
        match self.settings.minimum_die_value {
            Some(x) => x,
            None => 1,
        }
    }

    /// The upper clamp bound applied to a sampled face.
    pub open spec fn clamp_hi(self) -> u32 {
        match self.settings.maximum_die_value {
            Some(x) => x,
            None => self.die_size,
        }
    }

    /// The least face value a die of this plan can show.
    pub open spec fn face_lo(self) -> u32 {
        clamp_u32(self.sample_lo(), self.clamp_lo(), self.clamp_hi())
    }

    /// The greatest face value a die of this plan can show.
    pub open spec fn face_hi(self) -> u32 {
        clamp_u32(self.die_size, self.clamp_lo(), self.clamp_hi())
    }

    /// A plan the engine accepts: at least one face per die, a reroll
    /// floor no larger than the die, ordered clamp bounds, and a total
    /// that cannot overflow a 32-bit result.
    pub open spec fn wf(self) -> bool {
        &&& self.die_size >= 1
        &&& self.sample_lo() <= self.die_size
        &&& self.clamp_lo() <= self.clamp_hi()
        &&& self.num_dice * self.face_hi() + abs_i32(self.modifier) <= i32::MAX
    }
}

/// The absolute value of a 32-bit modifier, as a mathematical integer.
pub open spec fn abs_i32(x: i32) -> int {
    if x >= 0 {
        x as int
    } else {
        -(x as int)
    }
}

/// The number of faces in `faces` equal to `v`.
pub open spec fn count_face(faces: Seq<u32>, v: u32) -> int
    decreases faces.len(),
{
    if faces.len() == 0 {
        0
    } else {
        count_face(faces.drop_last(), v) + if faces.last() == v {
            1int
        } else {
            0int
        }
    }
}

/// The sum of all faces in `faces`.
pub open spec fn sum_faces(faces: Seq<u32>) -> int
    decreases faces.len(),
{
    if faces.len() == 0 {
        0
    } else {
        sum_faces(faces.drop_last()) + faces.last()
    }
}

/// A face sum is never negative.
pub proof fn lemma_sum_faces_nonneg(faces: Seq<u32>)
    ensures
        sum_faces(faces) >= 0,
    decreases faces.len(),
{
    if faces.len() > 0 {
        lemma_sum_faces_nonneg(faces.drop_last());
    }
}

/// A face count never exceeds the number of faces.
pub proof fn lemma_count_face_le_len(faces: Seq<u32>, v: u32)
    ensures
        0 <= count_face(faces, v) <= faces.len(),
    decreases faces.len(),
{
    if faces.len() > 0 {
        lemma_count_face_le_len(faces.drop_last(), v);
    }
}

/// Critical detection over the counted faces: only twenty-sided dice can
/// crit; a natural 20 is a critical-success face and a natural 1 a
/// critical-failure face; whichever kind outnumbers the other decides,
/// and a tie (including zero of each) yields no criticality.
pub open spec fn crit_of(faces: Seq<u32>, die_size: u32) -> Critical {
    if die_size == 20 {
        let successes = count_face(faces, 20);
        let failures = count_face(faces, 1);
        if successes > failures {
            Critical::Success
        } else if failures > successes {
            Critical::Failure
        } else {
            Critical::Normal
        }
    } else {
        Critical::Normal
    }
}

/// Everything that holds of a roll outcome for plan `p`, whatever the
/// roller produced: the plan is recorded, there is one face per die,
/// every face lies within the plan's face bounds, the total is the flat
/// modifier plus the face sum, and the criticality follows the counted
/// faces.
pub open spec fn result_wf(p: RollPlan, r: RollResult) -> bool {
    &&& r.roll_used == p
    &&& r.individual_rolls@.len() == p.num_dice
    &&& forall|i: int|
        0 <= i < r.individual_rolls@.len() ==> p.face_lo() <= #[trigger] r.individual_rolls@[i]
            <= p.face_hi()
    &&& r.total == p.modifier + sum_faces(r.individual_rolls@)
    &&& r.critical == crit_of(r.individual_rolls@, p.die_size)
}

/// Whether a result meets a difficulty class: a critical success always
/// does, a critical failure never does, and otherwise the total decides.
pub open spec fn spec_meets_dc(r: RollResult, dc: i32) -> bool {
    match r.critical {
        Critical::Success => true,
        Critical::Failure => false,
        Critical::Normal => r.total >= dc,
    }
}

/// A completed roll: the final total, the face values actually counted,
/// the criticality, and the plan that was rolled.
#[derive(Clone, PartialEq, Eq, Debug)]
pub struct RollResult {
    pub total: i32,
    pub individual_rolls: Vec<u32>,
    pub critical: Critical,
    pub roll_used: RollPlan,
}

impl RollResult {
    pub fn is_critical_success(&self) -> (r: bool)
        ensures
            r == (self.critical == Critical::Success),
    {
        matches!(self.critical, Critical::Success)
    }

    pub fn is_critical_failure(&self) -> (r: bool)
        ensures
            r == (self.critical == Critical::Failure),
    {
        matches!(self.critical, Critical::Failure)
    }

    /// Whether this roll meets the difficulty class `dc`, respecting the
    /// critical short-circuits.
    pub fn meets_dc(&self, dc: i32) -> (r: bool)
        ensures
            r == spec_meets_dc(*self, dc),
    {
        match self.critical {
            Critical::Success => true,
            Critical::Failure => false,
            Critical::Normal => self.total >= dc,
        }
    }
}

impl RollPlan {
    /// Evaluate the plan with the advantage mode it carries.
    pub fn roll(&self, rng: &mut Roller) -> (r: RollResult)
        requires
            self.wf(),
        ensures
            result_wf(*self, r),
    {
        match self.settings.advantage {
            Advantage::Normal => self.roll_normal(rng),
            Advantage::Advantage => self.roll_advantage(rng),
            Advantage::Disadvantage => self.roll_disadvantage(rng),
        }
    }

    /// One evaluation of the plan in normal mode: sample each die from
    /// the reroll floor upward, clamp it, and total the faces.
    fn roll_normal(&self, rng: &mut Roller) -> (r: RollResult)
        requires
            self.wf(),
        ensures
            result_wf(*self, r),
    {
        let low: u32 = match self.settings.reroll_dice_below {
            Some(x) => x,
            None => 1,
        };
        let clamp_min: u32 = match self.settings.minimum_die_value {
            Some(x) => x,
            None => 1,
        };
        let clamp_max: u32 = match self.settings.maximum_die_value {
            Some(x) => x,
            None => self.die_size,
        };

        let mut individual_rolls: Vec<u32> = Vec::new();
        let mut total: i32 = 0;
        let mut crit_success_count: u32 = 0;
        let mut crit_failure_count: u32 = 0;

        let mut i: u32 = 0;
        while i < self.num_dice
            invariant
                self.wf(),
                low == self.sample_lo(),
                clamp_min == self.clamp_lo(),
                clamp_max == self.clamp_hi(),
                i <= self.num_dice,
                individual_rolls@.len() == i,
                forall|j: int|
                    0 <= j < individual_rolls@.len() ==> self.face_lo()
                        <= #[trigger] individual_rolls@[j] <= self.face_hi(),
                total == sum_faces(individual_rolls@),
                0 <= total <= i * self.face_hi(),
                self.die_size == 20 ==> crit_success_count == count_face(individual_rolls@, 20),
                self.die_size == 20 ==> crit_failure_count == count_face(individual_rolls@, 1),
            decreases self.num_dice - i,
        {
            let ghost prev = individual_rolls@;
            let roll: u32 = rng.roll(low, self.die_size);
            let clamped_roll: u32 = if roll < clamp_min {
                clamp_min
            } else if roll > clamp_max {
                clamp_max
            } else {
                roll
            };
            proof {
                assert(self.face_lo() <= clamped_roll <= self.face_hi());
                assert((i + 1) * self.face_hi() <= self.num_dice * self.face_hi())
                    by (nonlinear_arith)
                    requires
                        i + 1 <= self.num_dice,
                        self.face_hi() >= 0,
                ;
                assert((i + 1) * self.face_hi() == i * self.face_hi() + self.face_hi())
                    by (nonlinear_arith);
                lemma_count_face_le_len(prev, 20);
                lemma_count_face_le_len(prev, 1);
            }
            individual_rolls.push(clamped_roll);
            proof {
                assert(individual_rolls@ =~= prev.push(clamped_roll));
                assert(individual_rolls@.drop_last() =~= prev);
            }
            total = total + clamped_roll as i32;

            if self.die_size == 20 {
                if clamped_roll == 20 {
                    crit_success_count = crit_success_count + 1;
                } else if clamped_roll == 1 {
                    crit_failure_count = crit_failure_count + 1;
                }
            }
            i = i + 1;
        }

        let critical: Critical = if self.die_size == 20 {
            if crit_success_count > crit_failure_count {
                Critical::Success
            } else if crit_failure_count > crit_success_count {
                Critical::Failure
            } else {
                Critical::Normal
            }
        } else {
            Critical::Normal
        };

        total = total + self.modifier;

        RollResult { total, individual_rolls, critical, roll_used: *self }
    }

    /// Advantage: roll the plan twice and keep the higher total, except
    /// that a critical success on either sub-roll is kept immediately.
    fn roll_advantage(&self, rng: &mut Roller) -> (r: RollResult)
        requires
            self.wf(),
        ensures
            result_wf(*self, r),
    {
        let first_roll = self.roll_normal(rng);
        if first_roll.is_critical_success() {
            return first_roll;
        }

        let second_roll = self.roll_normal(rng);
        if second_roll.is_critical_success() {
            return second_roll;
        }

        if first_roll.total >= second_roll.total {
            first_roll
        } else {
            second_roll
        }
    }

    /// Disadvantage: roll the plan twice and keep the lower total, except
    /// that a critical failure on either sub-roll is kept immediately.
    fn roll_disadvantage(&self, rng: &mut Roller) -> (r: RollResult)
        requires
            self.wf(),
        ensures
            result_wf(*self, r),
    {
        let first_roll = self.roll_normal(rng);
        if first_roll.is_critical_failure() {
            return first_roll;
        }

        let second_roll = self.roll_normal(rng);
        if second_roll.is_critical_failure() {
            return second_roll;
        }

        if first_roll.total <= second_roll.total {
            first_roll
        } else {
            second_roll
        }
    }
}

/// For any well-formed roll outcome of a twenty-sided plan, under any
/// advantage setting: the criticality is one of success, failure, or
/// none, and meeting a difficulty class respects the critical
/// short-circuits exactly — a critical success always meets, a critical
/// failure never meets, and without criticality the comparison is
/// `total >= dc`.
pub proof fn law_crit_and_dc(p: RollPlan, r: RollResult, dc: i32)
    requires
        p.die_size == 20,
        result_wf(p, r),
    ensures
        r.critical == Critical::Success || r.critical == Critical::Failure || r.critical
            == Critical::Normal,
        r.critical == Critical::Success ==> spec_meets_dc(r, dc),
        r.critical == Critical::Failure ==> !spec_meets_dc(r, dc),
        r.critical == Critical::Normal ==> (spec_meets_dc(r, dc) <==> r.total >= dc),
{
}

} // verus!
