//! The composite solver: quality first, then one closing action.
//!
//! Near the end of a craft one cheap synthesis completes the recipe. The
//! composite solver sets the cost of that closing action aside and spends
//! what is left on quality, by the memoised quality solver; and it searches
//! over the shares of the resources that it lets the whole have. Where no
//! single closing action reaches the recipe's difficulty yet, it reads the
//! coupled quality solver, which keeps the recipe in reach.

use crate::craft::{Action, Buffs, CraftingState};
use crate::rules::{lemma_playable_prepend, playable, replay};
use crate::solver::memoization_solver::{
    lemma_touch_explore_keeps_slots, touch_explore, touch_state, Solver,
};
use crate::solver::reflect_solver::{
    coupled, keeps_slots, lemma_quality_read_coupled, quality_explore, quality_read, Allowance,
    QualitySolver,
};
use crate::solver::score::Score;
use crate::solver::table::{blank_memo, MemoKey, Slot};
use vstd::prelude::*;

verus! {

/// What the three tables of a composite solver hold: the memoised quality
/// solver's, the progress solver's, and the coupled quality solver's.
pub struct Memos {
    pub touch: Map<MemoKey, Slot>,
    pub progress: Map<MemoKey, Slot>,
    pub quality: Map<MemoKey, Slot>,
}

/// What a composite solver is made of, apart from what its tables hold: what
/// it may use, the state it was made for, and the extents of its tables.
pub struct Frame {
    pub cfg: Allowance,
    pub init: CraftingState,
    pub touch_shape: MemoKey,
    pub shapes: (MemoKey, MemoKey),
}

/// The progress that the closing action `a` adds in state `s`: what the
/// action leaves on the progress meter of a copy of the state whose meter is
/// set back to nothing and on which no final appraisal holds progress back.
pub open spec fn closing_reach(s: CraftingState, a: Action) -> u16 {
    let scratch = CraftingState {
        progress: 0,
        buffs: Buffs { final_appraisal: 0, ..s.buffs },
        ..s
    };
    scratch.after(a).progress
}

/// The closing action for state `s` of the domain, with the craft points it
/// costs: the basic synthesis, where it reaches the recipe's difficulty from
/// the progress that the state has; else the careful synthesis, where that
/// one does; else none.
pub open spec fn closing(s: CraftingState) -> Option<(Action, i32)> {
    let lack = s.recipe.difficulty - s.progress;
    if lack <= closing_reach(s, Action::BasicSynthesis) {
        Some((Action::BasicSynthesis, 0))
    } else if lack <= closing_reach(s, Action::CarefulSynthesis) {
        Some((Action::CarefulSynthesis, 7))
    } else {
        None
    }
}

/// What the composite solver reads for state `s`: the tables as the reading
/// leaves them, and the action to take, if any. Where there is a closing
/// action, its craft points and one point of durability are set aside, and
/// the memoised quality solver is asked for the rest; the closing action is
/// read when that solver has nothing more to add. Where there is none, the
/// coupled quality solver is read.
pub open spec fn composite_read(f: Frame, m: Memos, s: CraftingState) -> (Memos, Option<Action>) {
    if !s.valid() {
        (m, None)
    } else {
        match closing(s) {
            Some((closer, cost)) => {
                let share = touch_state(
                    f.init,
                    (s.craft_points - cost) as i32,
                    s.durability.saturating_sub(1),
                    s,
                );
                let found = touch_explore(f.cfg, f.touch_shape, f.init, m.touch, share);
                let action = match found.1.action {
                    Some(a) => a,
                    None => closer,
                };
                (Memos { touch: found.0, ..m }, Some(action))
            },
            None => {
                let read = quality_read(f.cfg, f.shapes, m.progress, m.quality, s);
                (Memos { progress: read.0, quality: read.1, ..m }, read.2)
            },
        }
    }
}

/// What the composite solver plays from state `s` on: it reads an action and
/// plays it, until it reads none or the action read is not playable or does
/// not lower the rank. The tables as the play leaves them, the state at the
/// end, and the actions played.
pub open spec fn composite_play(f: Frame, m: Memos, s: CraftingState) -> (
    Memos,
    CraftingState,
    Seq<Action>,
)
    decreases s.rank(),
{
    let read = composite_read(f, m, s);
    match read.1 {
        None => (read.0, s, Seq::empty()),
        Some(a) => match s.step(a) {
            None => (read.0, s, Seq::empty()),
            Some(next) => if next.rank() >= s.rank() {
                (read.0, s, Seq::empty())
            } else {
                let rest = composite_play(f, read.0, next);
                (rest.0, rest.1, seq![a] + rest.2)
            },
        },
    }
}

/// The score of a state by its own step counter.
pub open spec fn state_score(s: CraftingState) -> Score {
    Score { quality: s.quality, prgress: s.progress, steps: s.step as u16 }
}

/// State `s` with a share of `cp` craft points and `du` durability.
pub open spec fn share_of(s: CraftingState, cp: i32, du: u16) -> CraftingState {
    CraftingState { craft_points: cp, durability: du, ..s }
}

/// The composite solver's search over the shares of the resources of state
/// `s`, from the share of `cp` craft points and five times `fives` of
/// durability on, the generous shares first: craft points from all down to
/// none, and for each of them durability in steps of five from all down to
/// five. From each share it plays, and keeps the play if it scores above the
/// best so far. As soon as a play ends short of the recipe's quality target
/// the search is over: a smaller share will not reach it either. The tables
/// as the search leaves them, and the best play.
pub open spec fn composite_search(
    f: Frame,
    m: Memos,
    s: CraftingState,
    cp: int,
    fives: int,
    best: (Score, Seq<Action>),
) -> (Memos, Seq<Action>)
    decreases cp + 1, fives + 1,
{
    if cp < 0 || fives < 0 {
        (m, best.1)
    } else if fives < 1 {
        composite_search(f, m, s, cp - 1, s.durability as int / 5, best)
    } else {
        let run = composite_play(f, m, share_of(s, cp as i32, (5 * fives) as u16));
        let better = if state_score(run.1).above(best.0) {
            (state_score(run.1), run.2)
        } else {
            best
        };
        if run.1.quality < run.1.recipe.quality {
            (run.0, better.1)
        } else {
            composite_search(f, run.0, s, cp, fives - 1, better)
        }
    }
}

/// What the tables hold once the solver is prepared: the memoised quality
/// solver has computed the slot of the whole of the resources of the state
/// that the solver was made for, and the coupled quality solver the slot of
/// that state, if the state lies inside the domain; each with the slots of
/// all that its computation descends into.
pub open spec fn composite_primed(f: Frame, m: Memos) -> Memos {
    let touched = touch_explore(
        f.cfg,
        f.touch_shape,
        f.init,
        m.touch,
        touch_state(f.init, f.init.craft_points, f.init.durability, f.init),
    );
    if f.init.valid() {
        let planned = quality_explore(f.cfg, f.shapes, m.progress, m.quality, f.init);
        Memos { touch: touched.0, progress: planned.0, quality: planned.1 }
    } else {
        Memos { touch: touched.0, ..m }
    }
}

/// Whether table contents `later` hold every computed slot of `earlier`.
pub open spec fn keeps_all(earlier: Memos, later: Memos) -> bool {
    &&& keeps_slots(earlier.touch, later.touch)
    &&& keeps_slots(earlier.progress, later.progress)
    &&& keeps_slots(earlier.quality, later.quality)
}

/// Reading an action changes no computed slot of any table, and keeps the
/// coupling of the two coupled solvers.
pub proof fn lemma_composite_read_keeps(f: Frame, m: Memos, s: CraftingState)
    requires
        coupled(f.cfg, f.shapes, m.progress, m.quality),
    ensures
        keeps_all(m, composite_read(f, m, s).0),
        coupled(
            f.cfg,
            f.shapes,
            composite_read(f, m, s).0.progress,
            composite_read(f, m, s).0.quality,
        ),
{
    if s.valid() {
        match closing(s) {
            Some((closer, cost)) => {
                let share = touch_state(
                    f.init,
                    (s.craft_points - cost) as i32,
                    s.durability.saturating_sub(1),
                    s,
                );
                lemma_touch_explore_keeps_slots(f.cfg, f.touch_shape, f.init, m.touch, share);
            },
            None => {
                lemma_quality_read_coupled(f.cfg, f.shapes, m.progress, m.quality, s);
            },
        }
    }
}

/// A play changes no computed slot of any table, and keeps the coupling.
pub proof fn lemma_composite_play_keeps(f: Frame, m: Memos, s: CraftingState)
    requires
        coupled(f.cfg, f.shapes, m.progress, m.quality),
    ensures
        keeps_all(m, composite_play(f, m, s).0),
        coupled(
            f.cfg,
            f.shapes,
            composite_play(f, m, s).0.progress,
            composite_play(f, m, s).0.quality,
        ),
    decreases s.rank(),
{
    let read = composite_read(f, m, s);
    lemma_composite_read_keeps(f, m, s);
    match read.1 {
        None => {},
        Some(a) => match s.step(a) {
            None => {},
            Some(next) => if next.rank() >= s.rank() {
            } else {
                lemma_composite_play_keeps(f, read.0, next);
            },
        },
    }
}

/// Memoisation is pure for the composite solver too: a search changes no
/// computed slot of any of its tables, and keeps the coupling.
pub proof fn lemma_composite_search_keeps(
    f: Frame,
    m: Memos,
    s: CraftingState,
    cp: int,
    fives: int,
    best: (Score, Seq<Action>),
)
    requires
        coupled(f.cfg, f.shapes, m.progress, m.quality),
    ensures
        keeps_all(m, composite_search(f, m, s, cp, fives, best).0),
        coupled(
            f.cfg,
            f.shapes,
            composite_search(f, m, s, cp, fives, best).0.progress,
            composite_search(f, m, s, cp, fives, best).0.quality,
        ),
    decreases cp + 1, fives + 1,
{
    if cp < 0 || fives < 0 {
    } else if fives < 1 {
        lemma_composite_search_keeps(f, m, s, cp - 1, s.durability as int / 5, best);
    } else {
        let start = share_of(s, cp as i32, (5 * fives) as u16);
        let run = composite_play(f, m, start);
        lemma_composite_play_keeps(f, m, start);
        let better = if state_score(run.1).above(best.0) {
            (state_score(run.1), run.2)
        } else {
            best
        };
        if run.1.quality >= run.1.recipe.quality {
            lemma_composite_search_keeps(f, run.0, s, cp, fives - 1, better);
        }
    }
}

/// What the solver plays from a state can be played from it, and leads to
/// the state that the play ends in.
pub proof fn lemma_composite_play_is_playable(f: Frame, m: Memos, s: CraftingState)
    ensures
        playable(s, composite_play(f, m, s).2),
        replay(s, composite_play(f, m, s).2) == composite_play(f, m, s).1,
    decreases s.rank(),
{
    let read = composite_read(f, m, s);
    let none = Seq::<Action>::empty();
    assert(playable(s, none));
    assert(replay(s, none) == s);
    match read.1 {
        None => {},
        Some(a) => match s.step(a) {
            None => {},
            Some(next) => if next.rank() >= s.rank() {
            } else {
                let rest = composite_play(f, read.0, next);
                lemma_composite_play_is_playable(f, read.0, next);
                lemma_playable_prepend(s, a, rest.2);
            },
        },
    }
}

/// Whether `actions` are a play from some share of the resources of state
/// `s`: there are none, or they can be played from the state with some of
/// its craft points and some of its durability.
pub open spec fn plays_a_share(s: CraftingState, actions: Seq<Action>) -> bool {
    actions.len() == 0 || exists|cp: i32, du: u16|
        0 <= cp <= s.craft_points && 1 <= du <= s.durability && #[trigger] playable(
            share_of(s, cp, du),
            actions,
        )
}

/// What a search answers with is a play from some share of the state's
/// resources, if the best play so far is one.
pub proof fn lemma_composite_search_plays_a_share(
    f: Frame,
    m: Memos,
    s: CraftingState,
    cp: int,
    fives: int,
    best: (Score, Seq<Action>),
)
    requires
        plays_a_share(s, best.1),
        cp <= s.craft_points,
        5 * fives <= s.durability,
    ensures
        plays_a_share(s, composite_search(f, m, s, cp, fives, best).1),
    decreases cp + 1, fives + 1,
{
    if cp < 0 || fives < 0 {
    } else if fives < 1 {
        lemma_composite_search_plays_a_share(f, m, s, cp - 1, s.durability as int / 5, best);
    } else {
        let start = share_of(s, cp as i32, (5 * fives) as u16);
        let run = composite_play(f, m, start);
        lemma_composite_play_is_playable(f, m, start);
        let better = if state_score(run.1).above(best.0) {
            (state_score(run.1), run.2)
        } else {
            best
        };
        assert(plays_a_share(s, better.1)) by {
            if better.1 == run.2 && run.2.len() > 0 {
                assert(playable(share_of(s, cp as i32, (5 * fives) as u16), run.2));
            }
        }
        if run.1.quality >= run.1.recipe.quality {
            lemma_composite_search_plays_a_share(f, run.0, s, cp, fives - 1, better);
        }
    }
}

/// The composite solver.
pub struct PreprogressSolver {
    quality_solver: Solver,
    planner: QualitySolver,
}

impl PreprogressSolver {
    /// What the solver is made of.
    pub closed spec fn frame(self) -> Frame {
        Frame {
            cfg: self.quality_solver.allowance(),
            init: self.quality_solver.origin(),
            touch_shape: self.quality_solver.shape(),
            shapes: self.planner.shapes(),
        }
    }

    /// What the solver's tables hold.
    pub closed spec fn memos(self) -> Memos {
        Memos {
            touch: self.quality_solver.memo(),
            progress: self.planner.progress_memo(),
            quality: self.planner.memo(),
        }
    }

    /// The solver's invariant: its two quality solvers are allowed the same
    /// and were made for the same state, and the coupled one is well formed.
    pub closed spec fn wf(self) -> bool {
        &&& self.planner.wf()
        &&& self.planner.allowance() == self.quality_solver.allowance()
        &&& self.planner.origin() == self.quality_solver.origin()
    }

    /// What [`Self::wf`] says of the tables: the progress solver's and the
    /// coupled quality solver's are coupled.
    pub proof fn lemma_wf_is_coupled(self)
        requires
            self.wf(),
        ensures
            coupled(self.frame().cfg, self.frame().shapes, self.memos().progress, self.memos().quality),
    {
    }

    /// Whether a solver can be made for the craft of `init`: each of the
    /// solvers it is made of can.
    pub open spec fn buildable(init: CraftingState, mn: bool, wn: usize, obz: bool) -> bool {
        Solver::buildable(init, mn, wn, obz) && QualitySolver::buildable(init, mn, wn, obz)
    }

    /// Decides [`Self::buildable`].
    pub fn can_build(init: &CraftingState, mn: bool, wn: usize, obz: bool) -> (ok: bool)
        ensures
            ok == Self::buildable(*init, mn, wn, obz),
    {
        Solver::can_build(init, mn, wn, obz) && QualitySolver::can_build(init, mn, wn, obz)
    }

    /// A solver for the craft of `init_status`, with nothing computed yet.
    pub fn new(init_status: CraftingState, mn: bool, wn: usize, obz: bool) -> (r: Self)
        requires
            Self::buildable(init_status, mn, wn, obz),
        ensures
            r.wf(),
            r.frame() == (Frame {
                cfg: Allowance { mn, wn, obz },
                init: init_status,
                touch_shape: Solver::extent(init_status, mn, wn, obz),
                shapes: (
                    crate::solver::reflect_solver::ProgressSolver::extent(init_status, mn, wn, obz),
                    QualitySolver::extent(init_status, mn, wn, obz),
                ),
            }),
            r.memos() == (Memos {
                touch: blank_memo(),
                progress: blank_memo(),
                quality: blank_memo(),
            }),
    {
        PreprogressSolver {
            quality_solver: Solver::new(init_status, mn, wn, obz),
            planner: QualitySolver::new(init_status, mn, wn, obz),
        }
    }

    /// Prepares the solver: computes, in each of its quality solvers, the slot
    /// of the state that the solver was made for, and with it the slots of
    /// all that is reached from there, so that later readings find them.
    pub fn init(&mut self)
        requires
            old(self).wf(),
        ensures
            final(self).wf(),
            final(self).frame() == old(self).frame(),
            final(self).memos() == composite_primed(old(self).frame(), old(self).memos()),
            keeps_all(old(self).memos(), final(self).memos()),
    {
        let origin = self.quality_solver.origin_state();
        let _ = self.quality_solver.next_touch(origin.craft_points, origin.durability, &origin);
        self.planner.init();
    }

    /// Computes [`closing`].
    fn closing_of(s: &CraftingState) -> (r: Option<(Action, i32)>)
        requires
            s.valid(),
        ensures
            r == closing(*s),
    {
        let lack = s.recipe.difficulty - s.progress;
        let mut scratch = *s;
        scratch.progress = 0;
        scratch.buffs.final_appraisal = 0;
        let mut basic = scratch;
        basic.cast_action(Action::BasicSynthesis);
        if lack <= basic.progress {
            return Some((Action::BasicSynthesis, 0));
        }
        let mut careful = scratch;
        careful.cast_action(Action::CarefulSynthesis);
        if lack <= careful.progress {
            Some((Action::CarefulSynthesis, 7))
        } else {
            None
        }
    }

    /// The action to take in state `s`, if any.
    pub fn read(&mut self, s: &CraftingState) -> (r: Option<Action>)
        requires
            old(self).wf(),
        ensures
            final(self).wf(),
            final(self).frame() == old(self).frame(),
            (final(self).memos(), r) == composite_read(old(self).frame(), old(self).memos(), *s),
            keeps_all(old(self).memos(), final(self).memos()),
    {
        proof {
            self.lemma_wf_is_coupled();
            lemma_composite_read_keeps(self.frame(), self.memos(), *s);
        }
        if !s.is_valid() {
            return None;
        }
        match Self::closing_of(s) {
            Some((closer, cost)) => {
                let found = self.quality_solver.next_touch(
                    s.craft_points - cost,
                    s.durability.saturating_sub(1),
                    s,
                );
                match found.action {
                    Some(a) => Some(a),
                    None => Some(closer),
                }
            },
            None => self.planner.read(s),
        }
    }

    /// Plays from state `s` on, and hands back the state at the end with the
    /// actions played.
    fn play(&mut self, s: &CraftingState) -> (r: (CraftingState, Vec<Action>))
        requires
            old(self).wf(),
        ensures
            final(self).wf(),
            final(self).frame() == old(self).frame(),
            (final(self).memos(), r.0, r.1@) == composite_play(
                old(self).frame(),
                old(self).memos(),
                *s,
            ),
    {
        let ghost f = self.frame();
        let ghost whole = composite_play(f, self.memos(), *s);
        let mut result: Vec<Action> = Vec::new();
        let mut status = *s;
        let mut done = false;
        assert(result@ + whole.2 =~= whole.2);
        while !done
            invariant
                self.wf(),
                self.frame() == f,
                done ==> (self.memos(), status, result@) == whole,
                !done ==> whole.0 == composite_play(f, self.memos(), status).0,
                !done ==> whole.1 == composite_play(f, self.memos(), status).1,
                !done ==> whole.2 == result@ + composite_play(f, self.memos(), status).2,
            decreases
                    (if done {
                        0
                    } else {
                        status.rank() + 1
                    }),
        {
            match self.read(&status) {
                None => {
                    assert(result@ + Seq::<Action>::empty() =~= result@);
                    done = true;
                },
                Some(a) => {
                    match status.try_step(a) {
                        None => {
                            assert(result@ + Seq::<Action>::empty() =~= result@);
                            done = true;
                        },
                        Some(next) => {
                            if next.rank_of() >= status.rank_of() {
                                assert(result@ + Seq::<Action>::empty() =~= result@);
                                done = true;
                            } else {
                                let ghost played = result@;
                                result.push(a);
                                let ghost tail = composite_play(f, self.memos(), next);
                                assert(played + (seq![a] + tail.2) =~= result@ + tail.2);
                                status = next;
                            }
                        },
                    }
                },
            }
        }
        (status, result)
    }

    /// The best play that the solver finds from state `s`, over the shares of
    /// the state's resources. It can be played from one of these shares.
    pub fn read_all(&mut self, s: &CraftingState) -> (r: Vec<Action>)
        requires
            old(self).wf(),
        ensures
            final(self).wf(),
            final(self).frame() == old(self).frame(),
            (final(self).memos(), r@) == composite_search(
                old(self).frame(),
                old(self).memos(),
                *s,
                s.craft_points as int,
                s.durability as int / 5,
                (state_score(*s), Seq::empty()),
            ),
            keeps_all(old(self).memos(), final(self).memos()),
            plays_a_share(*s, r@),
    {
        let ghost f = self.frame();
        let ghost m0 = self.memos();
        let ghost best0 = (state_score(*s), Seq::<Action>::empty());
        proof {
            lemma_composite_search_plays_a_share(
                f,
                m0,
                *s,
                s.craft_points as int,
                s.durability as int / 5,
                best0,
            );
        }
        let ghost whole = composite_search(
            f,
            m0,
            *s,
            s.craft_points as int,
            s.durability as int / 5,
            best0,
        );
        proof {
            self.lemma_wf_is_coupled();
            lemma_composite_search_keeps(
                f,
                m0,
                *s,
                s.craft_points as int,
                s.durability as int / 5,
                best0,
            );
        }
        let mut best_score = Score { quality: s.quality, prgress: s.progress, steps: s.step as u16 };
        let mut best_actions: Vec<Action> = Vec::new();
        if s.craft_points < 0 {
            return best_actions;
        }
        let top: u16 = s.durability / 5;
        let mut cp: i32 = s.craft_points;
        let mut fives: u16 = top;
        let mut done = false;
        while !done
            invariant
                self.wf(),
                self.frame() == f,
                top == s.durability / 5,
                -1 <= cp <= s.craft_points,
                0 <= fives <= top,
                done ==> (self.memos(), best_actions@) == whole,
                !done ==> whole == composite_search(
                    f,
                    self.memos(),
                    *s,
                    cp as int,
                    fives as int,
                    (best_score, best_actions@),
                ),
            decreases
                    (if done {
                        0
                    } else {
                        cp + 2
                    }),
                    fives,
        {
            if cp < 0 {
                done = true;
            } else if fives < 1 {
                cp = cp - 1;
                fives = top;
            } else {
                let mut start = *s;
                start.craft_points = cp;
                start.durability = 5 * fives;
                assert(start == share_of(*s, cp, (5 * fives) as u16));
                let (end, actions) = self.play(&start);
                let score = Score { quality: end.quality, prgress: end.progress, steps: end.step as u16 };
                if score.beats(&best_score) {
                    best_score = score;
                    best_actions = actions;
                }
                if end.quality < end.recipe.quality {
                    done = true;
                } else {
                    fives = fives - 1;
                }
            }
        }
        best_actions
    }
}

} // verus!
