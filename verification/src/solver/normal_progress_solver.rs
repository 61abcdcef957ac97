//! The quickest way to complete a recipe with no regard to quality: a
//! depth-limited search over the actions that bear on progress.

use crate::craft::{Action, CraftingState};
use crate::rules::{lemma_playable_prepend, playable, replay};
use vstd::prelude::*;

verus! {

/// The actions that the search tries, in the order in which it tries them.
pub open spec fn skill_list() -> Seq<Action> {
    seq![
        Action::BasicSynthesis,
        Action::MastersMend,
        Action::Observe,
        Action::WasteNot,
        Action::Veneration,
        Action::WasteNotII,
        Action::MuscleMemory,
        Action::CarefulSynthesis,
        Action::Manipulation,
        Action::Groundwork,
        Action::DelicateSynthesis,
        Action::IntensiveSynthesis,
        Action::TrainedEye,
        Action::PrudentSynthesis,
        Action::TrainedFinesse,
        Action::HeartAndSoul,
    ]
}

/// The `i`-th action of [`skill_list`].
fn skill_at(i: usize) -> (a: Action)
    requires
        i < 16,
    ensures
        a == skill_list()[i as int],
{
    match i {
        0 => Action::BasicSynthesis,
        1 => Action::MastersMend,
        2 => Action::Observe,
        3 => Action::WasteNot,
        4 => Action::Veneration,
        5 => Action::WasteNotII,
        6 => Action::MuscleMemory,
        7 => Action::CarefulSynthesis,
        8 => Action::Manipulation,
        9 => Action::Groundwork,
        10 => Action::DelicateSynthesis,
        11 => Action::IntensiveSynthesis,
        12 => Action::TrainedEye,
        13 => Action::PrudentSynthesis,
        14 => Action::TrainedFinesse,
        _ => Action::HeartAndSoul,
    }
}

/// A way to complete the recipe: the step count at which it is complete, and
/// the actions that lead there. A step count of zero stands for no way.
pub struct Way {
    pub steps: i32,
    pub actions: Seq<Action>,
}

/// The state that the search goes to when it tries action `a` in state `s`:
/// heart and soul is tried only by a specialist, and only what is playable.
pub open spec fn tried(specialist: bool, s: CraftingState, a: Action) -> Option<CraftingState> {
    if a != Action::HeartAndSoul || specialist {
        s.step(a)
    } else {
        None
    }
}

/// The quickest way from state `s` among those that begin with one of the
/// actions from the `i`-th on, or `best` if none of them is quicker; of two
/// ways that are equally quick the one found first stays.
pub open spec fn quickest_from(
    specialist: bool,
    s: CraftingState,
    depth: nat,
    i: int,
    best: Way,
) -> Way
    decreases depth, skill_list().len() - i,
{
    if depth == 0 || i < 0 || i >= skill_list().len() {
        best
    } else {
        let a = skill_list()[i];
        match tried(specialist, s, a) {
            None => quickest_from(specialist, s, depth, i + 1, best),
            Some(next) => {
                let tail = quickest(specialist, next, (depth - 1) as nat);
                let better = if tail.steps != 0 && (best.steps == 0 || tail.steps < best.steps) {
                    Way { steps: tail.steps, actions: seq![a] + tail.actions }
                } else {
                    best
                };
                quickest_from(specialist, s, depth, i + 1, better)
            },
        }
    }
}

/// The quickest way to complete the recipe from state `s` in at most `depth`
/// actions. A state that has completed it is its own way, with the steps it
/// has behind it; a state without durability, or with no action left to its
/// depth, has none.
pub open spec fn quickest(specialist: bool, s: CraftingState, depth: nat) -> Way
    decreases depth, skill_list().len() + 1,
{
    if s.progress == s.recipe.difficulty {
        Way { steps: s.step, actions: Seq::empty() }
    } else if s.durability == 0 || depth == 0 {
        Way { steps: 0, actions: Seq::empty() }
    } else {
        quickest_from(specialist, s, depth, 0, Way { steps: 0, actions: Seq::empty() })
    }
}

/// Whether `way` is a way to complete the recipe from state `s`: unless it
/// stands for no way, its actions can be played from `s`, one after the
/// other, and lead to a state that has the recipe's full progress, at the
/// step count that the way names.
pub open spec fn is_way(s: CraftingState, way: Way) -> bool {
    way.steps != 0 ==> {
        let end = replay(s, way.actions);
        &&& playable(s, way.actions)
        &&& end.progress == end.recipe.difficulty
        &&& end.step == way.steps
    }
}

/// The quickest way among some of the actions is a way, if the best so far
/// is one.
pub proof fn lemma_quickest_from_is_way(
    specialist: bool,
    s: CraftingState,
    depth: nat,
    i: int,
    best: Way,
)
    requires
        is_way(s, best),
    ensures
        is_way(s, quickest_from(specialist, s, depth, i, best)),
    decreases depth, skill_list().len() - i,
{
    if depth != 0 && 0 <= i < skill_list().len() {
        let a = skill_list()[i];
        match tried(specialist, s, a) {
            None => {
                lemma_quickest_from_is_way(specialist, s, depth, i + 1, best);
            },
            Some(next) => {
                let tail = quickest(specialist, next, (depth - 1) as nat);
                lemma_quickest_is_way(specialist, next, (depth - 1) as nat);
                let better = if tail.steps != 0 && (best.steps == 0 || tail.steps < best.steps) {
                    Way { steps: tail.steps, actions: seq![a] + tail.actions }
                } else {
                    best
                };
                if tail.steps != 0 {
                    lemma_playable_prepend(s, a, tail.actions);
                }
                lemma_quickest_from_is_way(specialist, s, depth, i + 1, better);
            },
        }
    }
}

/// What the search answers with is a way to complete the recipe: it can be
/// played, and it completes the recipe at the step count it names.
pub proof fn lemma_quickest_is_way(specialist: bool, s: CraftingState, depth: nat)
    ensures
        is_way(s, quickest(specialist, s, depth)),
    decreases depth, skill_list().len() + 1,
{
    let none = Way { steps: 0, actions: Seq::<Action>::empty() };
    if s.progress == s.recipe.difficulty {
        assert(replay(s, Seq::<Action>::empty()) == s);
        assert(playable(s, Seq::<Action>::empty()));
    } else if s.durability == 0 || depth == 0 {
    } else {
        lemma_quickest_from_is_way(specialist, s, depth, 0, none);
    }
}

/// Computes [`quickest`]; the actions come last first.
fn search(status: &CraftingState, maximum_depth: usize, specialist: bool) -> (r: (
    i32,
    Vec<Action>,
))
    ensures
        r.0 == quickest(specialist, *status, maximum_depth as nat).steps,
        r.1@.reverse() == quickest(specialist, *status, maximum_depth as nat).actions,
    decreases maximum_depth,
{
    if status.progress == status.recipe.difficulty {
        assert(Seq::<Action>::empty().reverse() =~= Seq::<Action>::empty());
        return (status.step, Vec::new());
    } else if status.durability == 0 || maximum_depth == 0 {
        assert(Seq::<Action>::empty().reverse() =~= Seq::<Action>::empty());
        return (0, Vec::new());
    }
    let ghost depth = maximum_depth as nat;
    let ghost none = Way { steps: 0, actions: Seq::<Action>::empty() };
    let mut best_steps: i32 = 0;
    let mut best_actions: Vec<Action> = Vec::new();
    let mut i: usize = 0;
    assert(best_actions@.reverse() =~= Seq::<Action>::empty());
    while i < 16
        invariant
            i <= 16,
            maximum_depth > 0,
            depth == maximum_depth as nat,
            skill_list().len() == 16,
            quickest_from(
                specialist,
                *status,
                depth,
                i as int,
                Way { steps: best_steps, actions: best_actions@.reverse() },
            ) == quickest_from(specialist, *status, depth, 0, none),
        decreases 16 - i,
    {
        let a = skill_at(i);
        let taken = if !matches!(a, Action::HeartAndSoul) || specialist {
            status.try_step(a)
        } else {
            None
        };
        match taken {
            None => {},
            Some(next) => {
                let (steps, mut actions) = search(&next, maximum_depth - 1, specialist);
                if steps != 0 && (best_steps == 0 || steps < best_steps) {
                    let ghost tail = actions@;
                    actions.push(a);
                    assert(actions@.reverse() =~= seq![a] + tail.reverse());
                    best_steps = steps;
                    best_actions = actions;
                }
            },
        }
        i = i + 1;
    }
    (best_steps, best_actions)
}

/// The actions of the quickest way to complete the recipe from `status` in
/// at most `maximum_depth` actions, or none if there is no such way.
pub fn solve(status: CraftingState, maximum_depth: usize, specialist: bool) -> (r: Vec<Action>)
    ensures
        r@ == quickest(specialist, status, maximum_depth as nat).actions,
        is_way(status, quickest(specialist, status, maximum_depth as nat)),
{
    proof {
        lemma_quickest_is_way(specialist, status, maximum_depth as nat);
    }
    let (_, backwards) = search(&status, maximum_depth, specialist);
    let mut actions: Vec<Action> = Vec::new();
    let mut left: usize = backwards.len();
    while left > 0
        invariant
            left <= backwards.len(),
            actions@ == backwards@.reverse().take(backwards.len() - left),
        decreases left,
    {
        left = left - 1;
        actions.push(backwards[left]);
        assert(actions@ =~= backwards@.reverse().take(backwards.len() - left));
    }
    assert(backwards@.reverse().take(backwards.len() as int) =~= backwards@.reverse());
    actions
}

} // verus!
