//! The boundary to the crafting simulator and to the random number generator.
//!
//! The rules of the minigame (which actions a state allows, what an action
//! does, what it costs) are those of the `ffxiv_crafting` crate; the draws of
//! the statistics engine come from `rand`. Nothing in this module is proved:
//! each function here either moves plain values between this library's types
//! and the simulator's, or makes one call into an outside crate and hands the
//! answer back as plain values. What the rest of the library knows of an
//! answer is what the function's contract states, no more.
//!
//! The simulator is deterministic, so its answers are given names:
//! [`cast_result`], [`check_result`], [`craft_point_cost`], [`hq_chance`] and
//! [`level_row`]. The contracts of the solvers are stated over these names.

use crate::craft::{
    Action, Attributes, Buffs, CastError, Combo, Condition, CraftingState, Limits, Recipe,
    RecipeLevel,
};
use rand::seq::SliceRandom;
use rand::Rng;
use vstd::prelude::*;

verus! {

/// `ffxiv_crafting::Status`, the simulator's state. It is built, handed to
/// the simulator and read out again inside this module, and never looked
/// into by verified code.
#[verifier::external_type_specification]
#[verifier::external_body]
pub struct ExStatus(ffxiv_crafting::Status);

/// `ffxiv_crafting::Actions`, the simulator's names for the actions.
#[verifier::external_type_specification]
#[verifier::external_body]
pub struct ExActions(ffxiv_crafting::Actions);

/// `ffxiv_crafting::CastActionError`, the simulator's refusals.
#[verifier::external_type_specification]
#[verifier::external_body]
pub struct ExCastActionError(ffxiv_crafting::CastActionError);

/// The state that `ffxiv_crafting::Status::cast_action` leaves when it is
/// called with action `a` on state `s`.
pub uninterp spec fn cast_result(s: CraftingState, a: Action) -> CraftingState;

/// What `ffxiv_crafting::Status::is_action_allowed` answers for action `a` in
/// state `s`.
pub uninterp spec fn check_result(s: CraftingState, a: Action) -> Result<(), CastError>;

/// What `ffxiv_crafting::Status::craft_point` answers for action `a` in state
/// `s`: the craft points that the action costs there.
pub uninterp spec fn craft_point_cost(s: CraftingState, a: Action) -> i32;

/// What `ffxiv_crafting::Status::high_quality_probability` answers in state
/// `s`: the chance of a high-quality result, in percent.
pub uninterp spec fn hq_chance(s: CraftingState) -> Option<i32>;

/// The row that `ffxiv_crafting::data::recipe_level_table` holds for recipe
/// level `rlv`.
pub uninterp spec fn level_row(rlv: i32) -> RecipeLevel;

/// Builds the simulator's state for a fresh craft from this library's
/// attributes and recipe, through `ffxiv_crafting::Status::new`, which also
/// derives the simulator's cached base values from them.
#[verifier::external_body]
fn engine_blank(a: &Attributes, r: &Recipe) -> ffxiv_crafting::Status {
    let RecipeLevel { id, class_job_level, stars, suggested_craftsmanship, difficulty, quality,
        progress_divider, quality_divider, progress_modifier, quality_modifier, durability,
        conditions_flag } = r.rlv;
    let rlv = ffxiv_crafting::RecipeLevel { id, class_job_level, stars, suggested_craftsmanship,
        difficulty, quality, progress_divider, quality_divider, progress_modifier,
        quality_modifier, durability, conditions_flag };
    let Recipe { job_level, difficulty, quality, durability, conditions_flag, .. } = *r;
    let recipe = ffxiv_crafting::Recipe { rlv, job_level, difficulty, quality, durability,
        conditions_flag };
    let Attributes { level, craftsmanship, control, craft_points } = *a;
    let attributes = ffxiv_crafting::Attributes { level, craftsmanship, control, craft_points };
    ffxiv_crafting::Status::new(attributes, recipe)
}

/// Copies the buff counters into the simulator's state, field by field.
#[verifier::external_body]
fn engine_set_buffs(e: &mut ffxiv_crafting::Status, b: &Buffs) {
    let Buffs { muscle_memory, great_strides, veneration, innovation, inner_quiet,
        final_appraisal, manipulation, wast_not, wast_not_ii, expedience, heart_and_soul,
        trained_perfection, stellar_steady_hand } = *b;
    e.buffs = ffxiv_crafting::Buffs { muscle_memory, great_strides, veneration, innovation,
        inner_quiet, final_appraisal, manipulation, wast_not, wast_not_ii, expedience,
        heart_and_soul, trained_perfection, stellar_steady_hand };
}

/// Copies the usage counters, the combo and the meters into the simulator's
/// state, field by field.
#[verifier::external_body]
fn engine_set_meters(e: &mut ffxiv_crafting::Status, s: &CraftingState) {
    let Limits { careful_observation_used, quick_innovation_used, heart_and_soul_used,
        trained_perfection_used, stellar_steady_hand_charged } = s.limits;
    e.limits = ffxiv_crafting::ActionLimits { careful_observation_used, quick_innovation_used,
        heart_and_soul_used, trained_perfection_used, stellar_steady_hand_charged };
    e.combo = match s.combo {
        Combo::Idle => None,
        Combo::Observed => Some(ffxiv_crafting::ComboStates::Observed),
        Combo::BasicTouched => Some(ffxiv_crafting::ComboStates::BasicTouched),
        Combo::StandardTouched => Some(ffxiv_crafting::ComboStates::StandardTouched),
    };
    (e.durability, e.craft_points, e.progress) = (s.durability, s.craft_points, s.progress);
    (e.quality, e.step) = (s.quality, s.step);
}

/// Copies the condition into the simulator's state, variant by variant.
#[verifier::external_body]
fn engine_set_condition(e: &mut ffxiv_crafting::Status, c: Condition) {
    e.condition = match c {
        Condition::Normal => ffxiv_crafting::Condition::Normal,
        Condition::Good => ffxiv_crafting::Condition::Good,
        Condition::Excellent => ffxiv_crafting::Condition::Excellent,
        Condition::Poor => ffxiv_crafting::Condition::Poor,
        Condition::Centered => ffxiv_crafting::Condition::Centered,
        Condition::Sturdy => ffxiv_crafting::Condition::Sturdy,
        Condition::Pliant => ffxiv_crafting::Condition::Pliant,
        Condition::Malleable => ffxiv_crafting::Condition::Malleable,
        Condition::Primed => ffxiv_crafting::Condition::Primed,
        Condition::GoodOmen => ffxiv_crafting::Condition::GoodOmen,
        Condition::Robust => ffxiv_crafting::Condition::Robust,
    };
}

/// The simulator's state that holds the same values as `s`.
#[verifier::external_body]
fn engine_state(s: &CraftingState) -> ffxiv_crafting::Status {
    let mut e = engine_blank(&s.attributes, &s.recipe);
    engine_set_buffs(&mut e, &s.buffs);
    engine_set_meters(&mut e, s);
    engine_set_condition(&mut e, s.condition);
    e
}

/// The simulator's name for an action that pushes progress, if `a` is one.
#[verifier::external_body]
fn engine_synthesis(a: Action) -> Option<ffxiv_crafting::Actions> {
    Some(match a {
        Action::BasicSynthesis => ffxiv_crafting::Actions::BasicSynthesis,
        Action::RapidSynthesis => ffxiv_crafting::Actions::RapidSynthesis,
        Action::MuscleMemory => ffxiv_crafting::Actions::MuscleMemory,
        Action::CarefulSynthesis => ffxiv_crafting::Actions::CarefulSynthesis,
        Action::Groundwork => ffxiv_crafting::Actions::Groundwork,
        Action::DelicateSynthesis => ffxiv_crafting::Actions::DelicateSynthesis,
        Action::IntensiveSynthesis => ffxiv_crafting::Actions::IntensiveSynthesis,
        Action::PrudentSynthesis => ffxiv_crafting::Actions::PrudentSynthesis,
        Action::RapidSynthesisFail => ffxiv_crafting::Actions::RapidSynthesisFail,
        Action::HastyTouchFail => ffxiv_crafting::Actions::HastyTouchFail,
        Action::DaringTouchFail => ffxiv_crafting::Actions::DaringTouchFail,
        _ => return None,
    })
}

/// The simulator's name for an action that pushes quality, if `a` is one.
#[verifier::external_body]
fn engine_touch(a: Action) -> Option<ffxiv_crafting::Actions> {
    Some(match a {
        Action::BasicTouch => ffxiv_crafting::Actions::BasicTouch,
        Action::HastyTouch => ffxiv_crafting::Actions::HastyTouch,
        Action::StandardTouch => ffxiv_crafting::Actions::StandardTouch,
        Action::ByregotsBlessing => ffxiv_crafting::Actions::ByregotsBlessing,
        Action::PreciseTouch => ffxiv_crafting::Actions::PreciseTouch,
        Action::PrudentTouch => ffxiv_crafting::Actions::PrudentTouch,
        Action::AdvancedTouch => ffxiv_crafting::Actions::AdvancedTouch,
        Action::Reflect => ffxiv_crafting::Actions::Reflect,
        Action::PreparatoryTouch => ffxiv_crafting::Actions::PreparatoryTouch,
        Action::RefinedTouch => ffxiv_crafting::Actions::RefinedTouch,
        Action::DaringTouch => ffxiv_crafting::Actions::DaringTouch,
        _ => return None,
    })
}

/// The simulator's name for an action that repairs, buffs or observes, if `a`
/// is one.
#[verifier::external_body]
fn engine_support(a: Action) -> Option<ffxiv_crafting::Actions> {
    Some(match a {
        Action::MastersMend => ffxiv_crafting::Actions::MastersMend,
        Action::Observe => ffxiv_crafting::Actions::Observe,
        Action::TricksOfTheTrade => ffxiv_crafting::Actions::TricksOfTheTrade,
        Action::WasteNot => ffxiv_crafting::Actions::WasteNot,
        Action::Veneration => ffxiv_crafting::Actions::Veneration,
        Action::GreatStrides => ffxiv_crafting::Actions::GreatStrides,
        Action::Innovation => ffxiv_crafting::Actions::Innovation,
        Action::FinalAppraisal => ffxiv_crafting::Actions::FinalAppraisal,
        Action::WasteNotII => ffxiv_crafting::Actions::WasteNotII,
        Action::Manipulation => ffxiv_crafting::Actions::Manipulation,
        Action::CarefulObservation => ffxiv_crafting::Actions::CarefulObservation,
        _ => return None,
    })
}

/// The simulator's name for action `a`.
#[verifier::external_body]
fn engine_action(a: Action) -> ffxiv_crafting::Actions {
    match a {
        Action::TrainedEye => ffxiv_crafting::Actions::TrainedEye,
        Action::TrainedFinesse => ffxiv_crafting::Actions::TrainedFinesse,
        Action::HeartAndSoul => ffxiv_crafting::Actions::HeartAndSoul,
        Action::QuickInnovation => ffxiv_crafting::Actions::QuickInnovation,
        Action::ImmaculateMend => ffxiv_crafting::Actions::ImmaculateMend,
        Action::TrainedPerfection => ffxiv_crafting::Actions::TrainedPerfection,
        Action::StellarSteadyHand => ffxiv_crafting::Actions::StellarSteadyHand,
        _ => engine_synthesis(a).or(engine_touch(a)).or(engine_support(a)).unwrap(),
    }
}

/// Reads the buff counters out of the simulator's state, field by field.
#[verifier::external_body]
fn own_buffs(e: &ffxiv_crafting::Status) -> Buffs {
    let ffxiv_crafting::Buffs { muscle_memory, great_strides, veneration, innovation,
        inner_quiet, final_appraisal, manipulation, wast_not, wast_not_ii, expedience,
        heart_and_soul, trained_perfection, stellar_steady_hand } = e.buffs;
    Buffs { muscle_memory, great_strides, veneration, innovation, inner_quiet, final_appraisal,
        manipulation, wast_not, wast_not_ii, expedience, heart_and_soul, trained_perfection,
        stellar_steady_hand }
}

/// This library's name for one of the simulator's conditions.
#[verifier::external_body]
fn own_condition(e: &ffxiv_crafting::Status) -> Condition {
    match e.condition {
        ffxiv_crafting::Condition::Normal => Condition::Normal,
        ffxiv_crafting::Condition::Good => Condition::Good,
        ffxiv_crafting::Condition::Excellent => Condition::Excellent,
        ffxiv_crafting::Condition::Poor => Condition::Poor,
        ffxiv_crafting::Condition::Centered => Condition::Centered,
        ffxiv_crafting::Condition::Sturdy => Condition::Sturdy,
        ffxiv_crafting::Condition::Pliant => Condition::Pliant,
        ffxiv_crafting::Condition::Malleable => Condition::Malleable,
        ffxiv_crafting::Condition::Primed => Condition::Primed,
        ffxiv_crafting::Condition::GoodOmen => Condition::GoodOmen,
        ffxiv_crafting::Condition::Robust => Condition::Robust,
    }
}

/// Reads the usage counters and the combo out of the simulator's state.
#[verifier::external_body]
fn own_limits(e: &ffxiv_crafting::Status) -> (Limits, Combo) {
    let ffxiv_crafting::ActionLimits { careful_observation_used, quick_innovation_used,
        heart_and_soul_used, trained_perfection_used, stellar_steady_hand_charged } = e.limits;
    let limits = Limits { careful_observation_used, quick_innovation_used, heart_and_soul_used,
        trained_perfection_used, stellar_steady_hand_charged };
    let combo = match e.combo {
        None => Combo::Idle,
        Some(ffxiv_crafting::ComboStates::Observed) => Combo::Observed,
        Some(ffxiv_crafting::ComboStates::BasicTouched) => Combo::BasicTouched,
        Some(ffxiv_crafting::ComboStates::StandardTouched) => Combo::StandardTouched,
    };
    (limits, combo)
}

/// The state of this library that holds what the simulator's state `e` holds,
/// with the attributes and the recipe of `base`, which no action changes.
#[verifier::external_body]
fn own_state(e: &ffxiv_crafting::Status, base: &CraftingState) -> (r: CraftingState)
    ensures
        r.attributes == base.attributes,
        r.recipe == base.recipe,
{
    let (limits, combo) = own_limits(e);
    CraftingState {
        buffs: own_buffs(e),
        combo,
        limits,
        attributes: base.attributes,
        recipe: base.recipe,
        durability: e.durability,
        craft_points: e.craft_points,
        progress: e.progress,
        quality: e.quality,
        step: e.step,
        condition: own_condition(e),
    }
}

/// This library's name for one of the simulator's refusals.
#[verifier::external_body]
fn own_error(e: ffxiv_crafting::CastActionError) -> CastError {
    match e {
        ffxiv_crafting::CastActionError::DurabilityNotEnough => CastError::DurabilityNotEnough,
        ffxiv_crafting::CastActionError::CraftPointNotEnough => CastError::CraftPointNotEnough,
        ffxiv_crafting::CastActionError::CraftingAlreadyFinished => CastError::CraftingAlreadyFinished,
        ffxiv_crafting::CastActionError::PlayerLevelTooLow => CastError::PlayerLevelTooLow,
        ffxiv_crafting::CastActionError::RequireGoodOrExcellent => CastError::RequireGoodOrExcellent,
        ffxiv_crafting::CastActionError::NotAllowedInWastNotBuff => CastError::NotAllowedInWastNotBuff,
        ffxiv_crafting::CastActionError::OnlyAllowedInFirstStep => CastError::OnlyAllowedInFirstStep,
        ffxiv_crafting::CastActionError::LevelGapMustGreaterThanTen => CastError::LevelGapMustGreaterThanTen,
        ffxiv_crafting::CastActionError::RequireInnerQuiet1 => CastError::RequireInnerQuiet1,
        ffxiv_crafting::CastActionError::RequireInnerQuiet10 => CastError::RequireInnerQuiet10,
        ffxiv_crafting::CastActionError::CarefulObservationUsed3 => CastError::CarefulObservationUsed3,
        other => own_late_error(other),
    }
}

/// This library's name for one of the simulator's refusals, among those of
/// the once-per-craft actions.
#[verifier::external_body]
fn own_late_error(e: ffxiv_crafting::CastActionError) -> CastError {
    match e {
        ffxiv_crafting::CastActionError::HeartAndSoulUsed => CastError::HeartAndSoulUsed,
        ffxiv_crafting::CastActionError::RequireHastyTouchSuccessed => CastError::RequireHastyTouchSuccessed,
        ffxiv_crafting::CastActionError::QuickInnovationUsed => CastError::QuickInnovationUsed,
        ffxiv_crafting::CastActionError::NotAllowedInInnovationBuff => CastError::NotAllowedInInnovationBuff,
        ffxiv_crafting::CastActionError::TrainedPerfectionUsed => CastError::TrainedPerfectionUsed,
        ffxiv_crafting::CastActionError::StellarSteadyHandUsed => CastError::StellarSteadyHandUsed,
        _ => CastError::OutOfDomain,
    }
}

/// Calls `ffxiv_crafting::Status::cast_action`.
///
/// The call is made on a copy of `s`, and what it leaves is handed back. The
/// simulator does not look at whether the action is allowed. It adds to its
/// counters and meters in their own fixed widths; `requires` keeps to the
/// states in which none of these additions can leave its type. By the bounds
/// of [`CraftingState::valid`]: an action adds at most
/// [`CraftingState::synthesis_reach`] to progress, which still fits above
/// the recipe's difficulty, and at most sixty times the base quality value
/// to quality; durability has room for what a repair gives back; the usage
/// counters and the step counter have room for one more; and the
/// difficulty is not zero, from which a final appraisal would take one off.
/// `StellarSteadyHand` takes one charge off a counter that must hold one.
/// Attributes and recipe are not touched by any action, and are handed back
/// as they came.
#[verifier::external_body]
pub(crate) fn engine_cast(s: &CraftingState, a: Action) -> (r: CraftingState)
    requires
        s.valid(),
        a == Action::StellarSteadyHand ==> s.limits.stellar_steady_hand_charged >= 1,
    ensures
        r == cast_result(*s, a),
        r.attributes == s.attributes,
        r.recipe == s.recipe,
{
    let mut e = engine_state(s);
    e.cast_action(engine_action(a));
    own_state(&e, s)
}

/// Calls `ffxiv_crafting::Status::is_action_allowed`.
///
/// The simulator answers from the state alone and changes nothing. For
/// `TrainedEye` it adds ten to the recipe's job level in eight bits, which
/// `requires` keeps in range.
#[verifier::external_body]
pub(crate) fn engine_check(s: &CraftingState, a: Action) -> (r: Result<(), CastError>)
    requires
        s.recipe.job_level <= 245,
    ensures
        r == check_result(*s, a),
{
    engine_state(s).is_action_allowed(engine_action(a)).map_err(own_error)
}

/// Calls `ffxiv_crafting::Status::craft_point`.
///
/// The simulator looks the cost up in a table whose entries lie between 0 and
/// 250, and halves it, rounding up, under the `Pliant` condition.
#[verifier::external_body]
pub(crate) fn engine_craft_point(s: &CraftingState, a: Action) -> (r: i32)
    ensures
        r == craft_point_cost(*s, a),
        0 <= r <= 250,
{
    engine_state(s).craft_point(engine_action(a))
}

/// Calls `ffxiv_crafting::Status::high_quality_probability`.
///
/// The simulator divides a hundred times the quality by the recipe's quality
/// target, in thirty-two bits, and looks the chance up by that percentage;
/// `requires` keeps the product in range and the divisor away from zero.
#[verifier::external_body]
pub(crate) fn engine_hq_chance(s: &CraftingState) -> (r: Option<i32>)
    requires
        s.quality <= 40_000_000,
        s.recipe.quality >= 1,
    ensures
        r == hq_chance(*s),
{
    engine_state(s).high_quality_probability()
}

/// Calls `ffxiv_crafting::data::recipe_level_table`, which answers every
/// level, the unknown ones with a default row, and writes the level it was
/// asked for into the row.
#[verifier::external_body]
pub(crate) fn engine_level_row(rlv: i32) -> (r: RecipeLevel)
    ensures
        r == level_row(rlv),
        r.id == rlv,
{
    let ffxiv_crafting::RecipeLevel { id, class_job_level, stars, suggested_craftsmanship,
        difficulty, quality, progress_divider, quality_divider, progress_modifier,
        quality_modifier, durability, conditions_flag } =
        ffxiv_crafting::data::recipe_level_table(rlv);
    RecipeLevel { id, class_job_level, stars, suggested_craftsmanship, difficulty, quality,
        progress_divider, quality_divider, progress_modifier, quality_modifier, durability,
        conditions_flag }
}

/// Draws a number below one hundred, each with the same chance, through
/// `rand::Rng::gen_range` on the thread's generator.
#[verifier::external_body]
pub(crate) fn draw_percent() -> (r: i32)
    ensures
        0 <= r < 100,
{
    let r: i32 = rand::thread_rng().gen_range(0..100);
    r
}

/// Draws the condition of the next step: lists the conditions that the
/// recipe's flag admits, with the weights that
/// `ffxiv_crafting::ConditionIterator` gives them for the crafter's level, and
/// picks one through `rand::seq::SliceRandom::choose_weighted`. Where the flag
/// admits no condition of positive weight, nothing is drawn. The condition
/// drawn is put into the simulator's state and read back from there, as any
/// condition is.
#[verifier::external_body]
pub(crate) fn draw_condition(s: &CraftingState) -> Option<Condition> {
    let e = engine_state(s);
    let flag = e.recipe.conditions_flag as i32;
    let list: Vec<_> = ffxiv_crafting::ConditionIterator::new(flag, e.attributes.level as i32)
        .collect();
    let drawn = list.choose_weighted(&mut rand::thread_rng(), |c| c.1).ok()?;
    let mut e = e;
    e.condition = drawn.0;
    Some(own_condition(&e))
}

} // verus!
