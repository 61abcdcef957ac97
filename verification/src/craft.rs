//! The crafting state that every solver and analyzer works on, as plain values.
//!
//! A [`CraftingState`] is a snapshot of one craft in progress: the crafter's
//! attributes, the recipe, the four meters (progress, quality, durability,
//! craft points), the active buffs and the per-craft usage counters. The rules
//! that move one snapshot to the next belong to the simulator behind
//! [`crate::engine`]; this module only describes the data, the domain on which
//! the simulator is consulted, and the measure by which the memoised searches
//! are known to terminate.

use vstd::prelude::*;

verus! {

/// One move of the crafting minigame.
#[derive(Clone, Copy, Debug, PartialEq, Eq, Structural, Hash)]
pub enum Action {
    BasicSynthesis,
    BasicTouch,
    MastersMend,
    HastyTouch,
    RapidSynthesis,
    Observe,
    TricksOfTheTrade,
    WasteNot,
    Veneration,
    StandardTouch,
    GreatStrides,
    Innovation,
    FinalAppraisal,
    WasteNotII,
    ByregotsBlessing,
    PreciseTouch,
    MuscleMemory,
    CarefulSynthesis,
    Manipulation,
    PrudentTouch,
    AdvancedTouch,
    Reflect,
    PreparatoryTouch,
    Groundwork,
    DelicateSynthesis,
    IntensiveSynthesis,
    TrainedEye,
    PrudentSynthesis,
    TrainedFinesse,
    CarefulObservation,
    HeartAndSoul,
    RefinedTouch,
    DaringTouch,
    QuickInnovation,
    ImmaculateMend,
    TrainedPerfection,
    StellarSteadyHand,
    /// What is applied in place of `RapidSynthesis` when its roll fails.
    RapidSynthesisFail,
    /// What is applied in place of `HastyTouch` when its roll fails.
    HastyTouchFail,
    /// What is applied in place of `DaringTouch` when its roll fails.
    DaringTouchFail,
}

/// The condition of the current step, re-rolled after most actions.
#[derive(Clone, Copy, Debug, PartialEq, Eq, Structural, Hash)]
pub enum Condition {
    Normal,
    Good,
    Excellent,
    Poor,
    Centered,
    Sturdy,
    Pliant,
    Malleable,
    Primed,
    GoodOmen,
    Robust,
}

/// What the previous action left behind for a follow-up action to build on.
#[derive(Clone, Copy, Debug, PartialEq, Eq, Structural, Hash)]
pub enum Combo {
    /// Nothing to build on.
    Idle,
    Observed,
    BasicTouched,
    StandardTouched,
}

/// Why the simulator refuses an action in a given state.
#[derive(Clone, Copy, Debug, PartialEq, Eq, Structural, Hash)]
pub enum CastError {
    DurabilityNotEnough,
    CraftPointNotEnough,
    CraftingAlreadyFinished,
    PlayerLevelTooLow,
    RequireGoodOrExcellent,
    NotAllowedInWastNotBuff,
    OnlyAllowedInFirstStep,
    LevelGapMustGreaterThanTen,
    RequireInnerQuiet1,
    RequireInnerQuiet10,
    CarefulObservationUsed3,
    HeartAndSoulUsed,
    RequireHastyTouchSuccessed,
    QuickInnovationUsed,
    NotAllowedInInnovationBuff,
    TrainedPerfectionUsed,
    StellarSteadyHandUsed,
    /// The state lies outside the domain on which the simulator is consulted
    /// (see [`CraftingState::valid`]), or the action would leave it.
    OutOfDomain,
}

/// The crafter's gear attributes.
#[derive(Clone, Copy, Debug, PartialEq, Eq, Structural, Hash)]
pub struct Attributes {
    pub level: u8,
    pub craftsmanship: i32,
    pub control: i32,
    pub craft_points: i32,
}

/// One row of the recipe level table.
#[derive(Clone, Copy, Debug, PartialEq, Eq, Structural, Hash)]
pub struct RecipeLevel {
    pub id: i32,
    pub class_job_level: u8,
    pub stars: u8,
    pub suggested_craftsmanship: u16,
    pub difficulty: u16,
    pub quality: u32,
    pub progress_divider: u8,
    pub quality_divider: u8,
    pub progress_modifier: u8,
    pub quality_modifier: u8,
    pub durability: u16,
    pub conditions_flag: u16,
}

/// What is being crafted: the targets of the two meters and the durability
/// budget, with the level row the simulator derives its base values from.
#[derive(Clone, Copy, Debug, PartialEq, Eq, Structural, Hash)]
pub struct Recipe {
    pub rlv: RecipeLevel,
    pub job_level: u8,
    pub difficulty: u16,
    pub quality: u32,
    pub durability: u16,
    pub conditions_flag: u16,
}

/// The timed and stacking buffs, each as its remaining count.
#[derive(Clone, Copy, Debug, PartialEq, Eq, Structural, Hash)]
pub struct Buffs {
    pub muscle_memory: u8,
    pub great_strides: u8,
    pub veneration: u8,
    pub innovation: u8,
    pub inner_quiet: u8,
    pub final_appraisal: u8,
    pub manipulation: u8,
    pub wast_not: u8,
    pub wast_not_ii: u8,
    pub expedience: u8,
    pub heart_and_soul: u8,
    pub trained_perfection: u8,
    pub stellar_steady_hand: u8,
}

/// How often the once-per-craft actions have been used so far.
#[derive(Clone, Copy, Debug, PartialEq, Eq, Structural, Hash)]
pub struct Limits {
    pub careful_observation_used: u8,
    pub quick_innovation_used: u8,
    pub heart_and_soul_used: u8,
    pub trained_perfection_used: u8,
    pub stellar_steady_hand_charged: u8,
}

/// A snapshot of one craft in progress.
#[derive(Clone, Copy, Debug, PartialEq, Eq, Structural, Hash)]
pub struct CraftingState {
    pub buffs: Buffs,
    pub combo: Combo,
    pub limits: Limits,
    pub attributes: Attributes,
    pub recipe: Recipe,
    pub durability: u16,
    pub craft_points: i32,
    pub progress: u16,
    pub quality: u32,
    pub step: i32,
    pub condition: Condition,
}

/// The largest attribute value, and the largest craft point budget, on which
/// the simulator is consulted.
pub const MAX_ATTRIBUTE: i32 = 1_000_000;

/// The largest recipe quality target on which the simulator is consulted.
pub const MAX_RECIPE_QUALITY: u32 = 20_000_000;

/// The largest quality meter on which the simulator is consulted.
pub const MAX_QUALITY: u32 = 40_000_000;

/// The largest durability, and the largest step count, on which the simulator
/// is consulted.
pub const MAX_COUNT: u16 = 60_000;

/// The largest value of a usage counter on which the simulator is consulted.
pub const MAX_USES: u8 = 200;

impl Buffs {
    /// No buff is active.
    pub open spec fn cleared() -> Buffs {
        Buffs {
            muscle_memory: 0,
            great_strides: 0,
            veneration: 0,
            innovation: 0,
            inner_quiet: 0,
            final_appraisal: 0,
            manipulation: 0,
            wast_not: 0,
            wast_not_ii: 0,
            expedience: 0,
            heart_and_soul: 0,
            trained_perfection: 0,
            stellar_steady_hand: 0,
        }
    }

    /// The larger of the two waste-not counters: both halve durability cost,
    /// and at most one of them is running.
    pub open spec fn waste_not_left(self) -> u8 {
        if self.wast_not >= self.wast_not_ii {
            self.wast_not
        } else {
            self.wast_not_ii
        }
    }
}

impl Default for Buffs {
    fn default() -> (r: Buffs)
        ensures
            r == Buffs::cleared(),
    {
        Buffs {
            muscle_memory: 0,
            great_strides: 0,
            veneration: 0,
            innovation: 0,
            inner_quiet: 0,
            final_appraisal: 0,
            manipulation: 0,
            wast_not: 0,
            wast_not_ii: 0,
            expedience: 0,
            heart_and_soul: 0,
            trained_perfection: 0,
            stellar_steady_hand: 0,
        }
    }
}

impl Limits {
    /// Nothing has been used yet.
    pub open spec fn unused() -> Limits {
        Limits {
            careful_observation_used: 0,
            quick_innovation_used: 0,
            heart_and_soul_used: 0,
            trained_perfection_used: 0,
            stellar_steady_hand_charged: 0,
        }
    }
}

impl Default for Limits {
    fn default() -> (r: Limits)
        ensures
            r == Limits::unused(),
    {
        Limits {
            careful_observation_used: 0,
            quick_innovation_used: 0,
            heart_and_soul_used: 0,
            trained_perfection_used: 0,
            stellar_steady_hand_charged: 0,
        }
    }
}

impl CraftingState {
    /// The state in which a craft of `recipe` by a crafter with `attributes`
    /// begins: full durability and craft points, empty meters, no buff.
    pub open spec fn initial(attributes: Attributes, recipe: Recipe) -> CraftingState {
        CraftingState {
            buffs: Buffs::cleared(),
            combo: Combo::Idle,
            limits: Limits::unused(),
            attributes,
            recipe,
            durability: recipe.durability,
            craft_points: attributes.craft_points,
            progress: 0,
            quality: 0,
            step: 0,
            condition: Condition::Normal,
        }
    }

    /// An upper bound on the progress that one action can add in any state
    /// with these attributes and this recipe. It is nineteen times a bound on
    /// the simulator's base progress value: ten times the craftsmanship over
    /// the progress divider, scaled by the progress modifier, with one extra
    /// unit at each rounding.
    pub open spec fn synthesis_reach(self) -> int {
        let divider = self.recipe.rlv.progress_divider as int;
        let modifier = self.recipe.rlv.progress_modifier as int;
        let scale = if modifier < 100 {
            101int
        } else {
            modifier + 1
        };
        let base = 10 * (self.attributes.craftsmanship as int) / divider + 3;
        19 * (base * scale / 100 + 1)
    }

    /// The domain on which the simulator is consulted. Inside it none of the
    /// simulator's fixed-width additions can leave its type; outside it the
    /// library consults the simulator about nothing.
    pub open spec fn valid(self) -> bool {
        &&& 0 <= self.attributes.craftsmanship <= MAX_ATTRIBUTE
        &&& 0 <= self.attributes.control <= MAX_ATTRIBUTE
        &&& 0 <= self.attributes.craft_points <= MAX_ATTRIBUTE
        &&& self.recipe.rlv.progress_divider >= 1
        &&& self.recipe.rlv.quality_divider >= 1
        &&& self.recipe.job_level <= 245
        &&& self.recipe.difficulty >= 1
        &&& self.recipe.quality <= MAX_RECIPE_QUALITY
        &&& self.recipe.durability <= MAX_COUNT
        &&& self.recipe.difficulty + self.synthesis_reach() <= u16::MAX
        &&& self.progress <= self.recipe.difficulty
        &&& self.quality <= MAX_QUALITY
        &&& self.durability <= MAX_COUNT
        &&& 0 <= self.craft_points <= MAX_ATTRIBUTE
        &&& 0 <= self.step <= MAX_COUNT
        &&& self.buffs.inner_quiet <= 10
        &&& self.limits.careful_observation_used <= MAX_USES
        &&& self.limits.quick_innovation_used <= MAX_USES
        &&& self.limits.heart_and_soul_used <= MAX_USES
        &&& self.limits.trained_perfection_used <= MAX_USES
    }

    /// Whether progress has reached the recipe's difficulty or durability has
    /// run out: no further action applies.
    pub open spec fn finished(self) -> bool {
        self.progress >= self.recipe.difficulty || self.durability == 0
    }

    /// How far the one-time trained-perfection effect has come: 0 while it is
    /// still unused, 1 while it is active, 2 once it is spent.
    pub open spec fn perfection_stage(self) -> int {
        if self.buffs.trained_perfection > 0 {
            1
        } else if self.limits.trained_perfection_used > 0 {
            2
        } else {
            0
        }
    }

    /// The measure of the memoised searches: craft points first, then the
    /// remaining manipulation turns, then what is left of trained perfection,
    /// then whether quick innovation is still unused, then durability. A
    /// search descends from a state only into states of strictly smaller rank.
    pub open spec fn rank(self) -> nat {
        let cp: int = if self.craft_points < 0 {
            0
        } else {
            self.craft_points as int
        };
        let quick: int = if self.limits.quick_innovation_used == 0 {
            1
        } else {
            0
        };
        ((((cp * 256 + self.buffs.manipulation as int) * 3 + (2 - self.perfection_stage())) * 2
            + quick) * 65536 + self.durability as int) as nat
    }

    /// Computes [`Self::synthesis_reach`] where it is small enough to matter.
    fn reach_fits(&self) -> (ok: bool)
        requires
            0 <= self.attributes.craftsmanship <= MAX_ATTRIBUTE,
            self.recipe.rlv.progress_divider >= 1,
        ensures
            ok == (self.recipe.difficulty + self.synthesis_reach() <= u16::MAX),
    {
        let divider: u64 = self.recipe.rlv.progress_divider as u64;
        let modifier: u64 = self.recipe.rlv.progress_modifier as u64;
        let scale: u64 = if modifier < 100 {
            101
        } else {
            modifier + 1
        };
        let craftsmanship: u64 = self.attributes.craftsmanship as u64;
        let tenfold: u64 = 10 * craftsmanship;
        let base: u64 = tenfold / divider + 3;
        assert(base <= 10_000_003) by {
            assert(tenfold / divider <= tenfold) by (nonlinear_arith)
                requires
                    divider >= 1,
            ;
        }
        assert(base * scale <= 10_000_003 * 256) by (nonlinear_arith)
            requires
                base <= 10_000_003,
                scale <= 256,
        ;
        let scaled: u64 = base * scale / 100 + 1;
        let reach: u64 = 19 * scaled;
        self.recipe.difficulty as u64 + reach <= 65535
    }

    /// Decides [`Self::valid`].
    pub fn is_valid(&self) -> (ok: bool)
        ensures
            ok == self.valid(),
    {
        0 <= self.attributes.craftsmanship && self.attributes.craftsmanship <= MAX_ATTRIBUTE
            && 0 <= self.attributes.control && self.attributes.control <= MAX_ATTRIBUTE
            && 0 <= self.attributes.craft_points && self.attributes.craft_points <= MAX_ATTRIBUTE
            && self.recipe.rlv.progress_divider >= 1 && self.recipe.rlv.quality_divider >= 1
            && self.recipe.job_level <= 245 && self.recipe.difficulty >= 1 && self.recipe.quality
            <= MAX_RECIPE_QUALITY && self.recipe.durability <= MAX_COUNT && self.reach_fits()
            && self.progress <= self.recipe.difficulty
            && self.quality <= MAX_QUALITY && self.durability <= MAX_COUNT && 0
            <= self.craft_points && self.craft_points <= MAX_ATTRIBUTE && 0 <= self.step
            && self.step <= MAX_COUNT as i32 && self.buffs.inner_quiet <= 10
            && self.limits.careful_observation_used <= MAX_USES
            && self.limits.quick_innovation_used <= MAX_USES && self.limits.heart_and_soul_used
            <= MAX_USES && self.limits.trained_perfection_used <= MAX_USES
    }

    /// Decides [`Self::finished`].
    pub fn is_finished(&self) -> (done: bool)
        ensures
            done == self.finished(),
    {
        self.progress >= self.recipe.difficulty || self.durability == 0
    }

    /// Computes [`Self::rank`] on a valid state.
    pub fn rank_of(&self) -> (r: u64)
        requires
            self.valid(),
        ensures
            r == self.rank(),
    {
        let stage: u64 = if self.buffs.trained_perfection > 0 {
            1
        } else if self.limits.trained_perfection_used > 0 {
            2
        } else {
            0
        };
        let quick: u64 = if self.limits.quick_innovation_used == 0 {
            1
        } else {
            0
        };
        let cp: u64 = self.craft_points as u64;
        let upper: u64 = ((cp * 256 + self.buffs.manipulation as u64) * 3 + (2 - stage)) * 2
            + quick;
        upper * 65536 + self.durability as u64
    }
}

} // verus!
