//! The range of attributes over which a fixed action list still does what it
//! does for the crafter at hand.
//!
//! The searches go from the crafter's own value outwards, one point at a
//! time, and stop at the first value at which the list falls short. They
//! take it that an attribute helps: that a list which succeeds at one value
//! succeeds at every higher one. This is taken for granted, not checked.

use crate::craft::{Action, Attributes, CraftingState};
use vstd::prelude::*;

verus! {

/// The range of attributes over which an action list holds good.
#[derive(Clone, Copy, Debug, PartialEq, Eq)]
pub struct Scope {
    /// The lowest and the highest craftsmanship: the lowest at which the
    /// list still completes the recipe, and the highest at which it still
    /// takes as many steps as for the crafter at hand. None for the lowest
    /// where the list does not complete the recipe at all; none for the
    /// highest where no end was found.
    pub craftsmanship_range: (Option<i32>, Option<i32>),
    /// The lowest control at which the list still reaches the recipe's
    /// quality target, where it does for the crafter at hand.
    pub control_range: Option<i32>,
    /// The craft points that the list uses.
    pub craft_points: i32,
}

impl Default for Scope {
    fn default() -> (r: Scope)
        ensures
            r == (Scope { craftsmanship_range: (None, None), control_range: None, craft_points: 0 }),
    {
        Scope { craftsmanship_range: (None, None), control_range: None, craft_points: 0 }
    }
}

/// How far the search for the highest craftsmanship goes.
pub const CEILING_STEPS: i32 = 5000;

/// The state that `actions`, from the `i`-th on, lead to from state `s`:
/// each action is played if it is playable and passed over if not, and the
/// list ends where the craft is finished.
pub open spec fn run_from(s: CraftingState, actions: Seq<Action>, i: int) -> CraftingState
    decreases actions.len() - i,
{
    if i < 0 || i >= actions.len() {
        s
    } else {
        let next = match s.step(actions[i]) {
            Some(n) => n,
            None => s,
        };
        if next.finished() {
            next
        } else {
            run_from(next, actions, i + 1)
        }
    }
}

/// State `s` for a crafter of craftsmanship `value`.
pub open spec fn with_craftsmanship(s: CraftingState, value: i32) -> CraftingState {
    CraftingState { attributes: Attributes { craftsmanship: value, ..s.attributes }, ..s }
}

/// State `s` for a crafter of control `value`.
pub open spec fn with_control(s: CraftingState, value: i32) -> CraftingState {
    CraftingState { attributes: Attributes { control: value, ..s.attributes }, ..s }
}

/// Whether a state has the progress that its recipe asks for.
pub open spec fn complete(s: CraftingState) -> bool {
    s.progress >= s.recipe.difficulty
}

/// Whether a state has the quality that its recipe asks for.
pub open spec fn polished(s: CraftingState) -> bool {
    s.quality >= s.recipe.quality
}

/// The lowest craftsmanship found when the search has come down to `value`
/// with `low` the lowest found so far: the search ends at the first value at
/// which the list no longer completes the recipe, or below zero.
pub open spec fn lowest_craftsmanship(
    init: CraftingState,
    actions: Seq<Action>,
    value: int,
    low: Option<i32>,
) -> Option<i32>
    decreases value + 1,
{
    if value < 0 || value > i32::MAX {
        low
    } else if !complete(run_from(with_craftsmanship(init, value as i32), actions, 0)) {
        low
    } else {
        lowest_craftsmanship(init, actions, value - 1, Some(value as i32))
    }
}

/// The highest craftsmanship found when the search has gone `tried` points
/// up from the crafter's own, with `high` the highest found so far: the
/// search ends at the first value at which the list takes another number of
/// steps than `steps`. Where it finds no such value within its reach, or
/// runs out of numbers, there is no highest.
pub open spec fn highest_craftsmanship(
    init: CraftingState,
    actions: Seq<Action>,
    steps: i32,
    tried: int,
    high: Option<i32>,
) -> Option<i32>
    decreases CEILING_STEPS - tried,
{
    let value = init.attributes.craftsmanship + tried;
    if tried < 0 || tried >= CEILING_STEPS || value > i32::MAX {
        None
    } else if run_from(with_craftsmanship(init, value as i32), actions, 0).step != steps {
        high
    } else {
        highest_craftsmanship(init, actions, steps, tried + 1, Some(value as i32))
    }
}

/// The lowest control found when the search has come down to `value` with
/// `low` the lowest found so far: the search ends at the first value at which
/// the list no longer reaches the recipe's quality target, or below zero.
pub open spec fn lowest_control(
    init: CraftingState,
    actions: Seq<Action>,
    value: int,
    low: Option<i32>,
) -> Option<i32>
    decreases value + 1,
{
    if value < 0 || value > i32::MAX {
        low
    } else if !polished(run_from(with_control(init, value as i32), actions, 0)) {
        low
    } else {
        lowest_control(init, actions, value - 1, Some(value as i32))
    }
}

/// The scope of `actions` for the crafter and the recipe of `init`.
pub open spec fn scoped(init: CraftingState, actions: Seq<Action>) -> Scope {
    let end = run_from(init, actions, 0);
    Scope {
        craftsmanship_range: (
            lowest_craftsmanship(init, actions, init.attributes.craftsmanship as int, None),
            highest_craftsmanship(
                init,
                actions,
                end.step,
                0,
                Some(init.attributes.craftsmanship),
            ),
        ),
        control_range: if polished(end) {
            lowest_control(init, actions, init.attributes.control as int, None)
        } else {
            None
        },
        craft_points: (init.craft_points - end.craft_points) as i32,
    }
}

/// The lowest craftsmanship found is a value from zero to where the search
/// began, or what was found before.
pub proof fn lemma_lowest_craftsmanship_bounds(
    init: CraftingState,
    actions: Seq<Action>,
    value: int,
    low: Option<i32>,
)
    ensures
        lowest_craftsmanship(init, actions, value, low) matches Some(v) ==> low == Some(v) || 0
            <= v <= value,
    decreases value + 1,
{
    if 0 <= value <= i32::MAX && complete(
        run_from(with_craftsmanship(init, value as i32), actions, 0),
    ) {
        lemma_lowest_craftsmanship_bounds(init, actions, value - 1, Some(value as i32));
    }
}

/// The highest craftsmanship found is a value from where the search began
/// upwards, or what was found before.
pub proof fn lemma_highest_craftsmanship_bounds(
    init: CraftingState,
    actions: Seq<Action>,
    steps: i32,
    tried: int,
    high: Option<i32>,
)
    ensures
        highest_craftsmanship(init, actions, steps, tried, high) matches Some(v) ==> high == Some(v)
            || v >= init.attributes.craftsmanship,
    decreases CEILING_STEPS - tried,
{
    let value = init.attributes.craftsmanship + tried;
    if 0 <= tried < CEILING_STEPS && value <= i32::MAX && run_from(
        with_craftsmanship(init, value as i32),
        actions,
        0,
    ).step == steps {
        lemma_highest_craftsmanship_bounds(init, actions, steps, tried + 1, Some(value as i32));
    }
}

/// The lowest control found is a value from zero to where the search began,
/// or what was found before.
pub proof fn lemma_lowest_control_bounds(
    init: CraftingState,
    actions: Seq<Action>,
    value: int,
    low: Option<i32>,
)
    ensures
        lowest_control(init, actions, value, low) matches Some(v) ==> low == Some(v) || 0 <= v
            <= value,
    decreases value + 1,
{
    if 0 <= value <= i32::MAX && polished(run_from(with_control(init, value as i32), actions, 0)) {
        lemma_lowest_control_bounds(init, actions, value - 1, Some(value as i32));
    }
}

/// The bounds of a scope enclose the crafter's own attributes: the lowest
/// craftsmanship is not above the crafter's, the highest not below it, and
/// the lowest control not above the crafter's.
pub proof fn lemma_scope_encloses(init: CraftingState, actions: Seq<Action>)
    ensures
        scoped(init, actions).craftsmanship_range.0 matches Some(low) ==> 0 <= low
            <= init.attributes.craftsmanship,
        scoped(init, actions).craftsmanship_range.1 matches Some(high) ==> high
            >= init.attributes.craftsmanship,
        scoped(init, actions).control_range matches Some(low) ==> 0 <= low
            <= init.attributes.control,
{
    let end = run_from(init, actions, 0);
    lemma_lowest_craftsmanship_bounds(init, actions, init.attributes.craftsmanship as int, None);
    lemma_highest_craftsmanship_bounds(
        init,
        actions,
        end.step,
        0,
        Some(init.attributes.craftsmanship),
    );
    lemma_lowest_control_bounds(init, actions, init.attributes.control as int, None);
}

/// Computes [`run_from`] for the whole list. The state it ends in is the one
/// it began in, or one of the domain reached from one of the domain.
fn run(status: &CraftingState, actions: &Vec<Action>) -> (r: CraftingState)
    ensures
        r == run_from(*status, actions@, 0),
        r == *status || (status.valid() && r.valid()),
{
    let mut current = *status;
    let mut i: usize = 0;
    while i < actions.len()
        invariant
            i <= actions.len(),
            run_from(current, actions@, i as int) == run_from(*status, actions@, 0),
            current == *status || (status.valid() && current.valid()),
        decreases actions.len() - i,
    {
        match current.try_step(actions[i]) {
            Some(next) => {
                current = next;
            },
            None => {},
        }
        if current.is_finished() {
            return current;
        }
        i = i + 1;
    }
    current
}

/// The lowest craftsmanship at which `actions` still complete the recipe.
fn find_lowest_craftsmanship(init: &CraftingState, actions: &Vec<Action>) -> (r: Option<i32>)
    ensures
        r == lowest_craftsmanship(*init, actions@, init.attributes.craftsmanship as int, None),
{
    let mut low: Option<i32> = None;
    let mut value: i32 = init.attributes.craftsmanship;
    while value >= 0
        invariant
            -1 <= value || value == init.attributes.craftsmanship,
            lowest_craftsmanship(*init, actions@, value as int, low) == lowest_craftsmanship(
                *init,
                actions@,
                init.attributes.craftsmanship as int,
                None,
            ),
        decreases value + 1,
    {
        let mut status = *init;
        status.attributes.craftsmanship = value;
        let end = run(&status, actions);
        if end.progress < end.recipe.difficulty {
            return low;
        }
        low = Some(value);
        value = value - 1;
    }
    low
}

/// The highest craftsmanship at which `actions` still take `steps` steps.
fn find_highest_craftsmanship(init: &CraftingState, actions: &Vec<Action>, steps: i32) -> (r:
    Option<i32>)
    ensures
        r == highest_craftsmanship(
            *init,
            actions@,
            steps,
            0,
            Some(init.attributes.craftsmanship),
        ),
{
    let mut high: Option<i32> = Some(init.attributes.craftsmanship);
    let mut tried: i32 = 0;
    while tried < CEILING_STEPS
        invariant
            0 <= tried <= CEILING_STEPS,
            highest_craftsmanship(*init, actions@, steps, tried as int, high)
                == highest_craftsmanship(
                *init,
                actions@,
                steps,
                0,
                Some(init.attributes.craftsmanship),
            ),
        decreases CEILING_STEPS - tried,
    {
        let value = match init.attributes.craftsmanship.checked_add(tried) {
            Some(v) => v,
            None => {
                return None;
            },
        };
        let mut status = *init;
        status.attributes.craftsmanship = value;
        let end = run(&status, actions);
        if end.step != steps {
            return high;
        }
        high = Some(value);
        tried = tried + 1;
    }
    None
}

/// The lowest control at which `actions` still reach the quality target.
fn find_lowest_control(init: &CraftingState, actions: &Vec<Action>) -> (r: Option<i32>)
    ensures
        r == lowest_control(*init, actions@, init.attributes.control as int, None),
{
    let mut low: Option<i32> = None;
    let mut value: i32 = init.attributes.control;
    while value >= 0
        invariant
            -1 <= value || value == init.attributes.control,
            lowest_control(*init, actions@, value as int, low) == lowest_control(
                *init,
                actions@,
                init.attributes.control as int,
                None,
            ),
        decreases value + 1,
    {
        let mut status = *init;
        status.attributes.control = value;
        let end = run(&status, actions);
        if end.quality < end.recipe.quality {
            return low;
        }
        low = Some(value);
        value = value - 1;
    }
    low
}

/// The scope of `actions` for the crafter and the recipe of `init_status`.
/// Its bounds enclose the crafter's own attributes.
pub fn calc_scope(init_status: CraftingState, actions: &Vec<Action>) -> (r: Scope)
    ensures
        r == scoped(init_status, actions@),
        r.craftsmanship_range.0 matches Some(low) ==> 0 <= low
            <= init_status.attributes.craftsmanship,
        r.craftsmanship_range.1 matches Some(high) ==> high
            >= init_status.attributes.craftsmanship,
        r.control_range matches Some(low) ==> 0 <= low <= init_status.attributes.control,
{
    proof {
        lemma_scope_encloses(init_status, actions@);
    }
    let end = run(&init_status, actions);
    let low = find_lowest_craftsmanship(&init_status, actions);
    let high = find_highest_craftsmanship(&init_status, actions, end.step);
    let control_range = if end.quality >= end.recipe.quality {
        find_lowest_control(&init_status, actions)
    } else {
        None
    };
    Scope {
        craftsmanship_range: (low, high),
        control_range,
        craft_points: init_status.craft_points - end.craft_points,
    }
}

} // verus!
