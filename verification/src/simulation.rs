//! Playing a list of actions, or one action with its roll, from a state.
//!
//! A list is played without chance: each action is tried, and a refusal is
//! recorded with its place. One step is played with chance: a roll decides
//! whether the action succeeds, and a draw which condition follows. The step
//! itself is [`settle`], which takes the roll and the draw as they come;
//! [`simulate_one_step`] draws them and settles.

use crate::craft::{Action, CastError, Condition, CraftingState};
use crate::engine::{craft_point_cost, draw_condition, draw_percent};
use vstd::prelude::*;

verus! {

/// A refusal, with the place in the list of the action that was refused.
#[derive(Clone, Copy, Debug, PartialEq, Eq, Structural)]
pub struct CastErrorPos {
    pub pos: usize,
    pub err: CastError,
}

/// What playing a list of actions comes to: the state at the end, and the
/// refusals on the way.
#[derive(Debug)]
pub struct SimulateResult {
    pub status: CraftingState,
    pub errors: Vec<CastErrorPos>,
}

/// What playing one action with its roll comes to: the state it leaves, and
/// whether the roll succeeded.
#[derive(Clone, Copy, Debug, PartialEq, Eq, Structural)]
pub struct SimulateOneStepResult {
    pub status: CraftingState,
    pub is_success: bool,
}

impl CastError {
    /// The words for a refusal.
    pub open spec fn words(self) -> Seq<char> {
        match self {
            CastError::DurabilityNotEnough => "durability not enough"@,
            CastError::CraftPointNotEnough => "craft point not enough"@,
            CastError::CraftingAlreadyFinished => "crafting already finished"@,
            CastError::PlayerLevelTooLow => "player level too low"@,
            CastError::RequireGoodOrExcellent => "require good or excellent"@,
            CastError::NotAllowedInWastNotBuff => "not allowed in wast not buff"@,
            CastError::OnlyAllowedInFirstStep => "only allowed in first step"@,
            CastError::LevelGapMustGreaterThanTen => "level gap must greater than 10"@,
            CastError::RequireInnerQuiet1 => "require at least 1 stack of inner quiet"@,
            CastError::RequireInnerQuiet10 => "require 10 stack of inner quiet"@,
            CastError::CarefulObservationUsed3 => "careful observation can only use 3 times"@,
            CastError::HeartAndSoulUsed => "heart and soul can be only used once"@,
            CastError::RequireHastyTouchSuccessed => "require hasty touch successed first"@,
            CastError::QuickInnovationUsed => "quick innovation can be only used once"@,
            CastError::NotAllowedInInnovationBuff => "not allowed in innovation buff"@,
            CastError::TrainedPerfectionUsed => "trained perfection can be only used once"@,
            CastError::StellarSteadyHandUsed => "stellar steady hand can be only used once"@,
            CastError::OutOfDomain => "state out of the simulated domain"@,
        }
    }

    /// The words for a refusal, as a string.
    pub fn message(&self) -> (r: String)
        ensures
            r@ == self.words(),
    {
        match self {
            CastError::DurabilityNotEnough => "durability not enough".to_string(),
            CastError::CraftPointNotEnough => "craft point not enough".to_string(),
            CastError::CraftingAlreadyFinished => "crafting already finished".to_string(),
            CastError::PlayerLevelTooLow => "player level too low".to_string(),
            CastError::RequireGoodOrExcellent => "require good or excellent".to_string(),
            CastError::NotAllowedInWastNotBuff => "not allowed in wast not buff".to_string(),
            CastError::OnlyAllowedInFirstStep => "only allowed in first step".to_string(),
            CastError::LevelGapMustGreaterThanTen => "level gap must greater than 10".to_string(),
            CastError::RequireInnerQuiet1 => "require at least 1 stack of inner quiet".to_string(),
            CastError::RequireInnerQuiet10 => "require 10 stack of inner quiet".to_string(),
            CastError::CarefulObservationUsed3 => "careful observation can only use 3 times"
                .to_string(),
            CastError::HeartAndSoulUsed => "heart and soul can be only used once".to_string(),
            CastError::RequireHastyTouchSuccessed => "require hasty touch successed first"
                .to_string(),
            CastError::QuickInnovationUsed => "quick innovation can be only used once".to_string(),
            CastError::NotAllowedInInnovationBuff => "not allowed in innovation buff".to_string(),
            CastError::TrainedPerfectionUsed => "trained perfection can be only used once"
                .to_string(),
            CastError::StellarSteadyHandUsed => "stellar steady hand can be only used once"
                .to_string(),
            CastError::OutOfDomain => "state out of the simulated domain".to_string(),
        }
    }
}

/// The state in which a craft begins, unless the recipe asks for a crafter
/// more than five levels above this one.
pub fn new_status(attrs: crate::craft::Attributes, recipe: crate::craft::Recipe) -> (r: Result<
    CraftingState,
    String,
>)
    ensures
        recipe.job_level > attrs.level + 5 ==> r is Err && r->Err_0@
            == "player-level-lower-than-recipe-requirement"@,
        recipe.job_level <= attrs.level + 5 ==> r == Ok::<CraftingState, String>(
            CraftingState::initial(attrs, recipe),
        ),
{
    if recipe.job_level as u16 > attrs.level as u16 + 5 {
        Err("player-level-lower-than-recipe-requirement".to_string())
    } else {
        Ok(
            CraftingState {
                buffs: Default::default(),
                combo: crate::craft::Combo::Idle,
                limits: Default::default(),
                attributes: attrs,
                recipe,
                durability: recipe.durability,
                craft_points: attrs.craft_points,
                progress: 0,
                quality: 0,
                step: 0,
                condition: Condition::Normal,
            },
        )
    }
}

/// What playing `actions` from `s` comes to: each action is tried where the
/// one before it left off; one that is refused is recorded with its place
/// and leaves the state as it was.
pub open spec fn simulated(s: CraftingState, actions: Seq<Action>) -> (
    CraftingState,
    Seq<CastErrorPos>,
)
    decreases actions.len(),
{
    if actions.len() == 0 {
        (s, Seq::empty())
    } else {
        let before = simulated(s, actions.drop_last());
        match before.0.attempt(actions.last()) {
            Ok(next) => (next, before.1),
            Err(err) => (
                before.0,
                before.1.push(CastErrorPos { pos: (actions.len() - 1) as usize, err }),
            ),
        }
    }
}

/// Plays `actions` from `status` and hands back the state at the end, with
/// the refusals on the way.
pub fn simulate(status: CraftingState, actions: Vec<Action>) -> (r: SimulateResult)
    ensures
        (r.status, r.errors@) == simulated(status, actions@),
{
    let mut result = SimulateResult { status, errors: Vec::new() };
    let mut pos: usize = 0;
    assert(actions@.take(0) =~= Seq::<Action>::empty());
    while pos < actions.len()
        invariant
            pos <= actions.len(),
            (result.status, result.errors@) == simulated(status, actions@.take(pos as int)),
        decreases actions.len() - pos,
    {
        let sk = actions[pos];
        proof {
            let upto = actions@.take(pos + 1);
            assert(upto.drop_last() =~= actions@.take(pos as int));
            assert(upto.last() == sk);
        }
        match result.status.try_action(sk) {
            Ok(next) => {
                result.status = next;
            },
            Err(err) => {
                result.errors.push(CastErrorPos { pos, err });
            },
        }
        pos = pos + 1;
    }
    assert(actions@.take(actions.len() as int) =~= actions@);
    result
}

/// What is played in place of `action` when its roll fails.
pub open spec fn failure_of(action: Action) -> Action {
    match action {
        Action::RapidSynthesis => Action::RapidSynthesisFail,
        Action::HastyTouch => Action::HastyTouchFail,
        Action::DaringTouch => Action::DaringTouchFail,
        other => other,
    }
}

/// Whether the condition is re-rolled after `action`.
pub open spec fn rerolls(action: Action) -> bool {
    action != Action::FinalAppraisal && action != Action::HeartAndSoul
}

/// The condition that follows `current`: after a good one a normal one and
/// after an excellent one a poor one, unless success was forced; after a good
/// omen a good one; else the one that was drawn, or the current one where
/// none could be drawn.
pub open spec fn next_condition(
    current: Condition,
    force_success: bool,
    drawn: Option<Condition>,
) -> Condition {
    if current == Condition::Good && !force_success {
        Condition::Normal
    } else if current == Condition::Excellent && !force_success {
        Condition::Poor
    } else if current == Condition::GoodOmen {
        Condition::Good
    } else {
        match drawn {
            Some(c) => c,
            None => current,
        }
    }
}

/// What one step comes to, given the roll and the condition drawn for it.
/// A refused action changes nothing. Otherwise the action succeeds if success
/// is forced or its chance is above the roll; the action, or on failure what
/// stands for its failure, is played; and the condition moves on unless the
/// action leaves it alone.
pub open spec fn settled(
    s: CraftingState,
    action: Action,
    force_success: bool,
    roll: i32,
    drawn: Option<Condition>,
) -> Result<SimulateOneStepResult, CastError> {
    match s.rejection(action) {
        Err(e) => Err(e),
        Ok(_) => {
            let is_success = force_success || s.success_chance(action) > roll;
            let played = if is_success {
                action
            } else {
                failure_of(action)
            };
            if !s.castable(played) {
                Err(CastError::OutOfDomain)
            } else {
                let cast = s.after(played);
                let condition = if rerolls(action) {
                    next_condition(cast.condition, force_success, drawn)
                } else {
                    cast.condition
                };
                Ok(SimulateOneStepResult { status: CraftingState { condition, ..cast }, is_success })
            }
        },
    }
}

/// Plays one step with the roll and the condition that were drawn for it.
pub fn settle(
    s: &CraftingState,
    action: Action,
    force_success: bool,
    roll: i32,
    drawn: Option<Condition>,
) -> (r: Result<SimulateOneStepResult, CastError>)
    ensures
        r == settled(*s, action, force_success, roll, drawn),
{
    match s.is_action_allowed(action) {
        Err(e) => Err(e),
        Ok(_) => {
            let is_success = force_success || s.success_rate(action) as i32 > roll;
            let played = if is_success {
                action
            } else {
                match action {
                    Action::RapidSynthesis => Action::RapidSynthesisFail,
                    Action::HastyTouch => Action::HastyTouchFail,
                    Action::DaringTouch => Action::DaringTouchFail,
                    other => other,
                }
            };
            if !s.is_castable(played) {
                return Err(CastError::OutOfDomain);
            }
            let mut status = *s;
            status.cast_action(played);
            if !matches!(action, Action::FinalAppraisal | Action::HeartAndSoul) {
                status.condition = match status.condition {
                    Condition::Good if !force_success => Condition::Normal,
                    Condition::Excellent if !force_success => Condition::Poor,
                    Condition::GoodOmen => Condition::Good,
                    current => match drawn {
                        Some(c) => c,
                        None => current,
                    },
                };
            }
            Ok(SimulateOneStepResult { status, is_success })
        },
    }
}

/// Plays one step: draws the roll, and the condition where one is wanted,
/// and settles the step with them. On success the state is the one that the
/// step leaves; a refused action leaves it as it was.
pub fn simulate_one_step(status: &mut CraftingState, action: Action, force_success: bool) -> (r:
    Result<bool, CastError>)
    ensures
        exists|roll: i32, drawn: Option<Condition>|
            {
                &&& 0 <= roll < 100
                &&& match #[trigger] settled(*old(status), action, force_success, roll, drawn) {
                    Ok(step) => r == Ok::<bool, CastError>(step.is_success) && *final(status)
                        == step.status,
                    Err(e) => r == Err::<bool, CastError>(e) && *final(status) == *old(status),
                }
            },
{
    let roll = draw_percent();
    let drawn = draw_condition(status);
    match settle(status, action, force_success, roll, drawn) {
        Ok(step) => {
            *status = step.status;
            Ok(step.is_success)
        },
        Err(e) => Err(e),
    }
}

/// For each of `skills`, in order, whether `status` allows it: `ok`, or the
/// words of the refusal.
pub fn allowed_list(status: CraftingState, skills: Vec<Action>) -> (r: Vec<String>)
    ensures
        r.len() == skills.len(),
        forall|i: int|
            0 <= i < skills.len() ==> (#[trigger] r[i])@ == (match status.rejection(skills[i]) {
                Ok(_) => "ok"@,
                Err(e) => e.words(),
            }),
{
    let mut list: Vec<String> = Vec::new();
    let mut i: usize = 0;
    while i < skills.len()
        invariant
            i <= skills.len(),
            list.len() == i,
            forall|j: int|
                0 <= j < i ==> (#[trigger] list[j])@ == (match status.rejection(skills[j]) {
                    Ok(_) => "ok"@,
                    Err(e) => e.words(),
                }),
        decreases skills.len() - i,
    {
        let word = match status.is_action_allowed(skills[i]) {
            Ok(_) => "ok".to_string(),
            Err(e) => e.message(),
        };
        list.push(word);
        i = i + 1;
    }
    list
}

/// For each of `skills`, in order, the craft points that it costs in
/// `status`.
pub fn craftpoints_list(status: CraftingState, skills: Vec<Action>) -> (r: Vec<i32>)
    ensures
        r.len() == skills.len(),
        forall|i: int|
            0 <= i < skills.len() ==> #[trigger] r[i] == craft_point_cost(status, skills[i]),
{
    let mut list: Vec<i32> = Vec::new();
    let mut i: usize = 0;
    while i < skills.len()
        invariant
            i <= skills.len(),
            list.len() == i,
            forall|j: int| 0 <= j < i ==> #[trigger] list[j] == craft_point_cost(status, skills[j]),
        decreases skills.len() - i,
    {
        list.push(status.craft_point(skills[i]));
        i = i + 1;
    }
    list
}

/// The chance of a high-quality result from `status`, in percent.
pub fn high_quality_probability(status: CraftingState) -> (r: Option<i32>)
    ensures
        r == status.hq_percent(),
{
    status.high_quality_probability()
}

} // verus!
