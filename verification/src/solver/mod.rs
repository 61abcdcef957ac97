//! The solvers: what they share, and one module for each.

pub mod depth_first_search_solver;
pub mod memoization_solver;
pub mod normal_progress_solver;
pub mod preprogress_solver;
pub mod reflect_solver;
pub mod rika_tnze_solver;
pub mod score;
pub mod table;

use crate::craft::{Action, Attributes, CraftingState, Recipe};
use crate::solver::preprogress_solver::{
    composite_primed, composite_read, composite_search, state_score, PreprogressSolver,
};
use crate::solver::reflect_solver::{
    progress_explore, progress_read, progress_walk, quality_explore, quality_read, quality_walk,
    ProgressSolver, QualitySolver,
};
use vstd::prelude::*;
use vstd::std_specs::convert::FromSpecImpl;

pub use score::Score;

verus! {

/// What a solver is made for: equal keys stand for solvers that behave alike.
#[derive(Clone, Copy, Debug, PartialEq, Eq, Structural, Hash)]
pub struct SolverHash {
    pub attributes: Attributes,
    pub recipe: Recipe,
}

impl SolverHash {
    /// The key of the solver that serves state `s`.
    pub open spec fn key_of(s: CraftingState) -> SolverHash {
        SolverHash { attributes: s.attributes, recipe: s.recipe }
    }

    /// Computes [`Self::key_of`].
    pub fn of(s: &CraftingState) -> (key: SolverHash)
        ensures
            key == Self::key_of(*s),
    {
        SolverHash { attributes: s.attributes, recipe: s.recipe }
    }
}

impl From<&CraftingState> for Score {
    /// The score of a state, by its own step counter.
    fn from(s: &CraftingState) -> (r: Score) {
        Score { quality: s.quality, prgress: s.progress, steps: s.step as u16 }
    }
}

impl FromSpecImpl<&CraftingState> for Score {
    open spec fn obeys_from_spec() -> bool {
        true
    }

    open spec fn from_spec(s: &CraftingState) -> Score {
        Score { quality: s.quality, prgress: s.progress, steps: s.step as u16 }
    }
}

impl From<(&CraftingState, usize)> for Score {
    /// The score of a state that was reached in `steps` steps.
    fn from(pair: (&CraftingState, usize)) -> (r: Score) {
        Score { quality: pair.0.quality, prgress: pair.0.progress, steps: pair.1 as u16 }
    }
}

impl FromSpecImpl<(&CraftingState, usize)> for Score {
    open spec fn obeys_from_spec() -> bool {
        true
    }

    open spec fn from_spec(pair: (&CraftingState, usize)) -> Score {
        Score { quality: pair.0.quality, prgress: pair.0.progress, steps: pair.1 as u16 }
    }
}

/// A copy of a list of actions.
pub fn clone_actions(actions: &Vec<Action>) -> (r: Vec<Action>)
    ensures
        r@ == actions@,
{
    let mut copy: Vec<Action> = Vec::new();
    let mut i: usize = 0;
    while i < actions.len()
        invariant
            i <= actions.len(),
            copy@ == actions@.take(i as int),
        decreases actions.len() - i,
    {
        copy.push(actions[i]);
        assert(actions@.take(i + 1) =~= actions@.take(i as int).push(actions@[i as int]));
        i = i + 1;
    }
    assert(actions@.take(actions.len() as int) =~= actions@);
    copy
}

/// What every solver offers: for a state, the action to take next, and the
/// whole list of actions to play from it.
pub trait Solver {
    /// The solver's invariant.
    spec fn prepared(&self) -> bool;

    /// The action that the solver reads for state `s`, as it is now.
    spec fn reads(&self, s: CraftingState) -> Option<Action>;

    /// The actions that the solver plays from state `s`, as it is now.
    spec fn plays(&self, s: CraftingState) -> Seq<Action>;

    /// Whether `later` is this solver once it is prepared: the same solver,
    /// with its tables as the preparation leaves them.
    spec fn readied(&self, later: &Self) -> bool;

    /// Prepares the solver: computes ahead what later readings from the state
    /// that the solver was made for will ask for.
    fn init(&mut self)
        requires
            old(self).prepared(),
        ensures
            final(self).prepared(),
            old(self).readied(final(self)),
    ;

    /// The action to take in state `s`, if any.
    fn read(&mut self, s: &CraftingState) -> (r: Option<Action>)
        requires
            old(self).prepared(),
        ensures
            final(self).prepared(),
            r == old(self).reads(*s),
    ;

    /// The actions to play from state `s` on.
    fn read_all(&mut self, s: &CraftingState) -> (r: Vec<Action>)
        requires
            old(self).prepared(),
        ensures
            final(self).prepared(),
            r@ == old(self).plays(*s),
    ;
}

impl Solver for ProgressSolver {
    open spec fn prepared(&self) -> bool {
        true
    }

    open spec fn reads(&self, s: CraftingState) -> Option<Action> {
        progress_read(self.allowance(), self.shape(), self.memo(), s).1
    }

    open spec fn plays(&self, s: CraftingState) -> Seq<Action> {
        progress_walk(self.allowance(), self.shape(), self.memo(), s).1
    }

    open spec fn readied(&self, later: &Self) -> bool {
        &&& later.allowance() == self.allowance()
        &&& later.origin() == self.origin()
        &&& later.shape() == self.shape()
        &&& later.memo() == if self.origin().valid() {
            progress_explore(self.allowance(), self.shape(), self.memo(), self.origin()).0
        } else {
            self.memo()
        }
    }

    fn init(&mut self) {
        ProgressSolver::init(self)
    }

    fn read(&mut self, s: &CraftingState) -> (r: Option<Action>) {
        ProgressSolver::read(self, s)
    }

    fn read_all(&mut self, s: &CraftingState) -> (r: Vec<Action>) {
        ProgressSolver::read_all(self, s)
    }
}

impl Solver for QualitySolver {
    open spec fn prepared(&self) -> bool {
        self.wf()
    }

    open spec fn reads(&self, s: CraftingState) -> Option<Action> {
        quality_read(self.allowance(), self.shapes(), self.progress_memo(), self.memo(), s).2
    }

    open spec fn plays(&self, s: CraftingState) -> Seq<Action> {
        quality_walk(self.allowance(), self.shapes(), self.progress_memo(), self.memo(), s).2
    }

    open spec fn readied(&self, later: &Self) -> bool {
        &&& later.allowance() == self.allowance()
        &&& later.origin() == self.origin()
        &&& later.shapes() == self.shapes()
        &&& (later.progress_memo(), later.memo()) == if self.origin().valid() {
            let found = quality_explore(
                self.allowance(),
                self.shapes(),
                self.progress_memo(),
                self.memo(),
                self.origin(),
            );
            (found.0, found.1)
        } else {
            (self.progress_memo(), self.memo())
        }
    }

    fn init(&mut self) {
        QualitySolver::init(self)
    }

    fn read(&mut self, s: &CraftingState) -> (r: Option<Action>) {
        QualitySolver::read(self, s)
    }

    fn read_all(&mut self, s: &CraftingState) -> (r: Vec<Action>) {
        QualitySolver::read_all(self, s)
    }
}

impl Solver for PreprogressSolver {
    open spec fn prepared(&self) -> bool {
        self.wf()
    }

    open spec fn reads(&self, s: CraftingState) -> Option<Action> {
        composite_read(self.frame(), self.memos(), s).1
    }

    open spec fn plays(&self, s: CraftingState) -> Seq<Action> {
        composite_search(
            self.frame(),
            self.memos(),
            s,
            s.craft_points as int,
            s.durability as int / 5,
            (state_score(s), Seq::empty()),
        ).1
    }

    open spec fn readied(&self, later: &Self) -> bool {
        &&& later.frame() == self.frame()
        &&& later.memos() == composite_primed(self.frame(), self.memos())
    }

    fn init(&mut self) {
        PreprogressSolver::init(self)
    }

    fn read(&mut self, s: &CraftingState) -> (r: Option<Action>) {
        PreprogressSolver::read(self, s)
    }

    fn read_all(&mut self, s: &CraftingState) -> (r: Vec<Action>) {
        PreprogressSolver::read_all(self, s)
    }
}

} // verus!
