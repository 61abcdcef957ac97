//! Branch-and-bound depth-first search over the whole repertoire of actions.
//!
//! The search is a machine with an explicit stack: each frame holds a state
//! and the place in the action list up to which the state has been tried,
//! and beside the stack runs the path of actions that leads to the top
//! frame. One call of [`Search::advance`] makes one move of the machine. The
//! moves of a machine that never gives a branch away come to the same as
//! the plain recursive search [`searched`]; that is what [`solve`] computes.
//! A caller with workers to spare may take branches off the machine, search
//! them by machines of their own, and merge what they find.

use crate::craft::{Action, CraftingState};
use crate::rules::{lemma_replay_push, playable, replay};
use crate::solver::preprogress_solver::state_score;
use crate::solver::clone_actions;
use crate::solver::score::Score;
use vstd::prelude::*;

verus! {

/// The actions that the search tries, in the order in which it tries them.
pub open spec fn action_list() -> Seq<Action> {
    seq![
        Action::BasicSynthesis,
        Action::BasicTouch,
        Action::RefinedTouch,
        Action::MastersMend,
        Action::Observe,
        Action::TricksOfTheTrade,
        Action::WasteNot,
        Action::Veneration,
        Action::StandardTouch,
        Action::GreatStrides,
        Action::Innovation,
        Action::FinalAppraisal,
        Action::WasteNotII,
        Action::ByregotsBlessing,
        Action::PreciseTouch,
        Action::MuscleMemory,
        Action::CarefulSynthesis,
        Action::Manipulation,
        Action::PrudentTouch,
        Action::Reflect,
        Action::PreparatoryTouch,
        Action::Groundwork,
        Action::DelicateSynthesis,
        Action::IntensiveSynthesis,
        Action::TrainedEye,
        Action::AdvancedTouch,
        Action::PrudentSynthesis,
        Action::TrainedFinesse,
        Action::HeartAndSoul,
        Action::ImmaculateMend,
        Action::TrainedPerfection,
        Action::QuickInnovation,
    ]
}

/// The `i`-th action of [`action_list`].
fn action_at(i: usize) -> (a: Action)
    requires
        i < 32,
    ensures
        a == action_list()[i as int],
{
    match i {
        0 => Action::BasicSynthesis,
        1 => Action::BasicTouch,
        2 => Action::RefinedTouch,
        3 => Action::MastersMend,
        4 => Action::Observe,
        5 => Action::TricksOfTheTrade,
        6 => Action::WasteNot,
        7 => Action::Veneration,
        8 => Action::StandardTouch,
        9 => Action::GreatStrides,
        10 => Action::Innovation,
        11 => Action::FinalAppraisal,
        12 => Action::WasteNotII,
        13 => Action::ByregotsBlessing,
        14 => Action::PreciseTouch,
        15 => Action::MuscleMemory,
        16 => Action::CarefulSynthesis,
        17 => Action::Manipulation,
        18 => Action::PrudentTouch,
        19 => Action::Reflect,
        20 => Action::PreparatoryTouch,
        21 => Action::Groundwork,
        22 => Action::DelicateSynthesis,
        23 => Action::IntensiveSynthesis,
        24 => Action::TrainedEye,
        25 => Action::AdvancedTouch,
        26 => Action::PrudentSynthesis,
        27 => Action::TrainedFinesse,
        28 => Action::HeartAndSoul,
        29 => Action::ImmaculateMend,
        30 => Action::TrainedPerfection,
        _ => Action::QuickInnovation,
    }
}

/// The bounds of a search: how long a path may grow, and whether the
/// crafter is a specialist.
#[derive(Clone, Copy, Debug, PartialEq, Eq, Structural)]
pub struct Bounds {
    pub maximum_depth: usize,
    pub specialist: bool,
}

/// The best play that a search knows: its score, and its actions.
pub struct Best {
    pub score: Score,
    pub actions: Seq<Action>,
}

/// The state that the search goes to when it tries action `a` in state `s`
/// at the end of a path of `len` actions, if it goes anywhere: the final
/// appraisal is tried only while one is running, heart and soul only by a
/// specialist, nothing beyond the depth allowed, and only what is playable.
pub open spec fn branch(b: Bounds, s: CraftingState, len: nat, a: Action) -> Option<
    CraftingState,
> {
    if !(a == Action::FinalAppraisal && s.buffs.final_appraisal == 0) && (a != Action::HeartAndSoul
        || b.specialist) && len + 1 <= b.maximum_depth {
        s.step(a)
    } else {
        None
    }
}

/// The score of a finished state at the end of a path of `len` actions.
pub open spec fn path_score(s: CraftingState, len: nat) -> Score {
    Score { quality: s.quality, prgress: s.progress, steps: len as u16 }
}

/// Whether the search goes on from the unfinished state `next`: it does
/// unless the best play has the recipe's full quality in fewer steps than
/// the state has behind it.
pub open spec fn promising(best: Best, next: CraftingState) -> bool {
    best.score.quality != next.recipe.quality || best.score.steps >= next.step as u16
}

/// The best play after a finished state `next` was reached by `path`: the
/// play of `path`, if it scores above the best so far.
pub open spec fn crowned(best: Best, next: CraftingState, path: Seq<Action>) -> Best {
    if path_score(next, path.len()).above(best.score) {
        Best { score: path_score(next, path.len()), actions: path }
    } else {
        best
    }
}

/// The plain search: the best play known after state `s`, reached by `path`,
/// has been tried with the actions from the `i`-th on, `best` being the best
/// play known before. A play that ends the craft is compared with the best
/// so far; a state from which the craft goes on is searched in its turn, if
/// it is promising.
pub open spec fn searched(b: Bounds, s: CraftingState, path: Seq<Action>, i: int, best: Best)
    -> Best
    decreases b.maximum_depth - path.len(), action_list().len() - i,
{
    if i < 0 || i >= action_list().len() {
        best
    } else {
        let a = action_list()[i];
        match branch(b, s, path.len(), a) {
            None => searched(b, s, path, i + 1, best),
            Some(next) => if next.finished() {
                searched(b, s, path, i + 1, crowned(best, next, path.push(a)))
            } else if promising(best, next) {
                searched(b, s, path, i + 1, searched(b, next, path.push(a), 0, best))
            } else {
                searched(b, s, path, i + 1, best)
            },
        }
    }
}

/// The number of moves that the machine makes for what [`searched`]
/// describes, the move that takes the frame off the stack included.
pub open spec fn moves(b: Bounds, s: CraftingState, path: Seq<Action>, i: int, best: Best) -> nat
    decreases b.maximum_depth - path.len(), action_list().len() - i,
{
    if i < 0 || i >= action_list().len() {
        1
    } else {
        let a = action_list()[i];
        match branch(b, s, path.len(), a) {
            None => 1 + moves(b, s, path, i + 1, best),
            Some(next) => if next.finished() {
                1 + moves(b, s, path, i + 1, crowned(best, next, path.push(a)))
            } else if promising(best, next) {
                1 + moves(b, next, path.push(a), 0, best) + moves(
                    b,
                    s,
                    path,
                    i + 1,
                    searched(b, next, path.push(a), 0, best),
                )
            } else {
                1 + moves(b, s, path, i + 1, best)
            },
        }
    }
}

/// One frame of the stack: a state, and the place in the action list from
/// which it is still to be tried.
#[derive(Clone, Copy, Debug, PartialEq, Eq, Structural)]
pub struct Frame {
    pub state: CraftingState,
    pub next: usize,
}

/// What is left to do for a stack of frames, the top frame last, with the
/// path to the top frame: the best play known once the top frame is done
/// with and then the frames below it, each with the path that is shorter by
/// one action.
pub open spec fn unwound(b: Bounds, frames: Seq<Frame>, path: Seq<Action>, best: Best) -> Best
    decreases frames.len(),
{
    if frames.len() == 0 {
        best
    } else {
        let done = searched(b, frames.last().state, path, frames.last().next as int, best);
        if frames.len() == 1 {
            done
        } else {
            unwound(b, frames.drop_last(), path.drop_last(), done)
        }
    }
}

/// The number of moves that are left for a stack of frames.
pub open spec fn moves_left(b: Bounds, frames: Seq<Frame>, path: Seq<Action>, best: Best) -> nat
    decreases frames.len(),
{
    if frames.len() == 0 {
        0
    } else {
        let top = moves(b, frames.last().state, path, frames.last().next as int, best);
        let done = searched(b, frames.last().state, path, frames.last().next as int, best);
        if frames.len() == 1 {
            top
        } else {
            top + moves_left(b, frames.drop_last(), path.drop_last(), done)
        }
    }
}

/// What a move of the machine comes to.
#[derive(Debug)]
pub enum Move {
    /// The stack is empty: the search is over.
    Done,
    /// The machine has moved, and there is more to do.
    Working,
    /// The machine has moved past a promising branch and gives it away: the
    /// state to search from, and the path that leads to it.
    Offer(CraftingState, Vec<Action>),
}

/// The search machine.
pub struct Search {
    frames: Vec<Frame>,
    path: Vec<Action>,
    best_score: Score,
    best_actions: Vec<Action>,
    maximum_depth: usize,
    specialist: bool,
}

impl Search {
    /// The bounds of the search.
    pub closed spec fn bounds(self) -> Bounds {
        Bounds { maximum_depth: self.maximum_depth, specialist: self.specialist }
    }

    /// The stack, the top frame last.
    pub closed spec fn frames(self) -> Seq<Frame> {
        self.frames@
    }

    /// The path to the top frame.
    pub closed spec fn path(self) -> Seq<Action> {
        self.path@
    }

    /// The best play known.
    pub closed spec fn best(self) -> Best {
        Best { score: self.best_score, actions: self.best_actions@ }
    }

    /// The machine's invariant: no frame is past the end of the action list,
    /// and the path is long enough for each frame below the top to have the
    /// path that is shorter by one action.
    pub open spec fn wf(self) -> bool {
        &&& forall|k: int| 0 <= k < self.frames().len() ==> (#[trigger] self.frames()[k]).next <= 32
        &&& self.frames().len() <= self.path().len() + 1
    }

    /// A machine that is to search from `status`, which `prefix` has led to.
    /// The best play it knows is that of stopping there.
    pub fn new(status: CraftingState, prefix: Vec<Action>, maximum_depth: usize, specialist: bool)
        -> (r: Search)
        ensures
            r.wf(),
            r.bounds() == (Bounds { maximum_depth, specialist }),
            r.frames() == seq![Frame { state: status, next: 0 }],
            r.path() == prefix@,
            r.best() == (Best {
                score: Score {
                    quality: status.quality,
                    prgress: status.progress,
                    steps: status.step as u16,
                },
                actions: prefix@,
            }),
    {
        let best_actions = clone_actions(&prefix);
        let mut frames: Vec<Frame> = Vec::new();
        frames.push(Frame { state: status, next: 0 });
        Search {
            frames,
            path: prefix,
            best_score: Score {
                quality: status.quality,
                prgress: status.progress,
                steps: status.step as u16,
            },
            best_actions,
            maximum_depth,
            specialist,
        }
    }

    /// Whether the stack is empty.
    pub fn is_done(&self) -> (r: bool)
        ensures
            r == (self.frames().len() == 0),
    {
        self.frames.len() == 0
    }

    /// The score of the best play known.
    pub fn best_score(&self) -> (r: Score)
        ensures
            r == self.best().score,
    {
        self.best_score
    }

    /// The best play known.
    pub fn best_actions(&self) -> (r: Vec<Action>)
        ensures
            r@ == self.best().actions,
    {
        clone_actions(&self.best_actions)
    }

    /// Takes in a play that was found elsewhere: it becomes the best play
    /// known if it scores above it.
    pub fn merge(&mut self, score: Score, actions: Vec<Action>)
        ensures
            final(self).bounds() == old(self).bounds(),
            final(self).frames() == old(self).frames(),
            final(self).path() == old(self).path(),
            final(self).best() == if score.above(old(self).best().score) {
                Best { score, actions: actions@ }
            } else {
                old(self).best()
            },
    {
        if score.beats(&self.best_score) {
            self.best_score = score;
            self.best_actions = actions;
        }
    }

    /// The machine after one move, and what the move comes to, as
    /// [`Self::advance`] makes it. With an empty stack nothing moves. A top
    /// frame that is past the end of the action list comes off, and with it
    /// the last action of the path. Otherwise the top frame moves on by one
    /// action, and the action is tried: a play that ends the craft is
    /// compared with the best; a promising state from which the craft goes
    /// on is given away, if a worker is free, or else put on the stack.
    pub open spec fn moved(
        b: Bounds,
        frames: Seq<Frame>,
        path: Seq<Action>,
        best: Best,
        worker_free: bool,
    ) -> (Seq<Frame>, Seq<Action>, Best, Option<(CraftingState, Seq<Action>)>) {
        if frames.len() == 0 {
            (frames, path, best, None)
        } else if frames.last().next >= 32 {
            if frames.len() == 1 {
                (frames.drop_last(), path, best, None)
            } else {
                (frames.drop_last(), path.drop_last(), best, None)
            }
        } else {
            let top = frames.last();
            let a = action_list()[top.next as int];
            let stepped = frames.update(
                frames.len() - 1,
                Frame { state: top.state, next: (top.next + 1) as usize },
            );
            match branch(b, top.state, path.len(), a) {
                None => (stepped, path, best, None),
                Some(next) => if next.finished() {
                    (stepped, path, crowned(best, next, path.push(a)), None)
                } else if !promising(best, next) {
                    (stepped, path, best, None)
                } else if worker_free {
                    (stepped, path, best, Some((next, path.push(a))))
                } else {
                    (stepped.push(Frame { state: next, next: 0 }), path.push(a), best, None)
                },
            }
        }
    }

    /// Makes one move.
    pub fn advance(&mut self, worker_free: bool) -> (r: Move)
        requires
            old(self).wf(),
        ensures
            final(self).wf(),
            final(self).bounds() == old(self).bounds(),
            ({
                let m = Self::moved(
                    old(self).bounds(),
                    old(self).frames(),
                    old(self).path(),
                    old(self).best(),
                    worker_free,
                );
                &&& final(self).frames() == m.0
                &&& final(self).path() == m.1
                &&& final(self).best() == m.2
                &&& match r {
                    Move::Done => old(self).frames().len() == 0 && m.3 is None,
                    Move::Working => old(self).frames().len() != 0 && m.3 is None,
                    Move::Offer(state, prefix) => m.3 == Some((state, prefix@)),
                }
            }),
    {
        let depth = self.frames.len();
        if depth == 0 {
            return Move::Done;
        }
        let top = self.frames[depth - 1];
        if top.next >= 32 {
            self.frames.pop();
            if depth > 1 {
                self.path.pop();
            }
            return Move::Working;
        }
        let a = action_at(top.next);
        self.frames.set(depth - 1, Frame { state: top.state, next: top.next + 1 });
        let tried = !(matches!(a, Action::FinalAppraisal) && top.state.buffs.final_appraisal == 0)
            && (!matches!(a, Action::HeartAndSoul) || self.specialist) && self.path.len()
            < self.maximum_depth;
        if !tried {
            return Move::Working;
        }
        let next = match top.state.try_step(a) {
            None => {
                return Move::Working;
            },
            Some(next) => next,
        };
        if next.is_finished() {
            let mut reached = clone_actions(&self.path);
            reached.push(a);
            let score = Score {
                quality: next.quality,
                prgress: next.progress,
                steps: reached.len() as u16,
            };
            if score.beats(&self.best_score) {
                self.best_score = score;
                self.best_actions = reached;
            }
            return Move::Working;
        }
        if !(self.best_score.quality != next.recipe.quality || self.best_score.steps
            >= next.step as u16) {
            return Move::Working;
        }
        if worker_free {
            let mut prefix = clone_actions(&self.path);
            prefix.push(a);
            return Move::Offer(next, prefix);
        }
        self.frames.push(Frame { state: next, next: 0 });
        self.path.push(a);
        Move::Working
    }
}

/// One move of a machine that gives no branch away leaves what is left to do
/// as it was, and takes one off the number of moves that are left.
pub proof fn lemma_move_unwinds(b: Bounds, frames: Seq<Frame>, path: Seq<Action>, best: Best)
    requires
        frames.len() > 0,
        frames.len() <= path.len() + 1,
        forall|k: int| 0 <= k < frames.len() ==> (#[trigger] frames[k]).next <= 32,
    ensures
        ({
            let m = Search::moved(b, frames, path, best, false);
            &&& unwound(b, m.0, m.1, m.2) == unwound(b, frames, path, best)
            &&& moves_left(b, m.0, m.1, m.2) + 1 == moves_left(b, frames, path, best)
        }),
{
    let top = frames.last();
    assert(action_list().len() == 32);
    if top.next >= 32 {
        assert(searched(b, top.state, path, top.next as int, best) == best);
        assert(moves(b, top.state, path, top.next as int, best) == 1);
        if frames.len() == 1 {
            assert(frames.drop_last().len() == 0);
        }
    } else {
        let a = action_list()[top.next as int];
        let stepped = frames.update(
            frames.len() - 1,
            Frame { state: top.state, next: (top.next + 1) as usize },
        );
        assert(stepped.last() == Frame { state: top.state, next: (top.next + 1) as usize });
        assert(stepped.drop_last() =~= frames.drop_last());
        match branch(b, top.state, path.len(), a) {
            None => {},
            Some(next) => {
                if next.finished() {
                } else if !promising(best, next) {
                } else {
                    let pushed = stepped.push(Frame { state: next, next: 0 });
                    let longer = path.push(a);
                    assert(pushed.drop_last() =~= stepped);
                    assert(longer.drop_last() =~= path);
                    assert(pushed.last() == Frame { state: next, next: 0 });
                    let inner = searched(b, next, longer, 0, best);
                    assert(unwound(b, pushed, longer, best) == unwound(b, stepped, path, inner));
                    assert(moves_left(b, pushed, longer, best) == moves(b, next, longer, 0, best)
                        + moves_left(b, stepped, path, inner));
                }
            },
        }
    }
}

/// The search never ends below where it began: the best play known after
/// it does not score below the best play known before.
pub proof fn lemma_searched_never_worse(
    b: Bounds,
    s: CraftingState,
    path: Seq<Action>,
    i: int,
    best: Best,
)
    ensures
        !best.score.above(searched(b, s, path, i, best).score),
    decreases b.maximum_depth - path.len(), action_list().len() - i,
{
    if 0 <= i < action_list().len() {
        let a = action_list()[i];
        match branch(b, s, path.len(), a) {
            None => {
                lemma_searched_never_worse(b, s, path, i + 1, best);
            },
            Some(next) => if next.finished() {
                let then = crowned(best, next, path.push(a));
                lemma_searched_never_worse(b, s, path, i + 1, then);
            } else if promising(best, next) {
                let inner = searched(b, next, path.push(a), 0, best);
                lemma_searched_never_worse(b, next, path.push(a), 0, best);
                lemma_searched_never_worse(b, s, path, i + 1, inner);
            } else {
                lemma_searched_never_worse(b, s, path, i + 1, best);
            },
        }
    }
}

/// Whether the best play `best` is a play from state `root`: its actions
/// can be played from there, one after the other; and if there are any, they
/// finish the craft, and the score is that of the state they finish it in,
/// with the steps counted as the number of actions.
pub open spec fn is_play(root: CraftingState, best: Best) -> bool {
    &&& playable(root, best.actions)
    &&& best.actions.len() > 0 ==> replay(root, best.actions).finished() && best.score
        == path_score(replay(root, best.actions), best.actions.len())
}

/// What the search answers with is a play: if the path that the search stands
/// on is played from the root and the best play known before is one, so is
/// the best play known after.
pub proof fn lemma_searched_is_play(
    b: Bounds,
    root: CraftingState,
    s: CraftingState,
    path: Seq<Action>,
    i: int,
    best: Best,
)
    requires
        playable(root, path),
        replay(root, path) == s,
        is_play(root, best),
    ensures
        is_play(root, searched(b, s, path, i, best)),
    decreases b.maximum_depth - path.len(), action_list().len() - i,
{
    if 0 <= i < action_list().len() {
        let a = action_list()[i];
        match branch(b, s, path.len(), a) {
            None => {
                lemma_searched_is_play(b, root, s, path, i + 1, best);
            },
            Some(next) => {
                lemma_replay_push(root, path, a);
                if next.finished() {
                    let then = crowned(best, next, path.push(a));
                    lemma_searched_is_play(b, root, s, path, i + 1, then);
                } else if promising(best, next) {
                    let inner = searched(b, next, path.push(a), 0, best);
                    lemma_searched_is_play(b, root, next, path.push(a), 0, best);
                    lemma_searched_is_play(b, root, s, path, i + 1, inner);
                } else {
                    lemma_searched_is_play(b, root, s, path, i + 1, best);
                }
            },
        }
    }
}

/// What [`solve`] answers with: the best play that the plain search finds
/// from `status`.
pub open spec fn solved(status: CraftingState, maximum_depth: usize, specialist: bool) -> Best {
    searched(
        Bounds { maximum_depth, specialist },
        status,
        Seq::empty(),
        0,
        Best { score: state_score(status), actions: Seq::empty() },
    )
}

/// Searches from `status`, to a depth of `maximum_depth` actions, and
/// answers with the actions of the best play found. The play can be played
/// from `status`, finishes the craft if it has any action, and never scores
/// below the state that the search starts from.
pub fn solve(status: CraftingState, maximum_depth: usize, specialist: bool) -> (r: Vec<Action>)
    ensures
        r@ == solved(status, maximum_depth, specialist).actions,
        !state_score(status).above(solved(status, maximum_depth, specialist).score),
        is_play(status, solved(status, maximum_depth, specialist)),
{
    let ghost b = Bounds { maximum_depth, specialist };
    let ghost best0 = Best { score: state_score(status), actions: Seq::<Action>::empty() };
    let ghost target = searched(b, status, Seq::empty(), 0, best0);
    proof {
        lemma_searched_never_worse(b, status, Seq::empty(), 0, best0);
        lemma_searched_is_play(b, status, status, Seq::empty(), 0, best0);
    }
    let mut machine = Search::new(status, Vec::new(), maximum_depth, specialist);
    while !machine.is_done()
        invariant
            machine.wf(),
            machine.bounds() == b,
            unwound(b, machine.frames(), machine.path(), machine.best()) == target,
        decreases moves_left(b, machine.frames(), machine.path(), machine.best()),
    {
        proof {
            lemma_move_unwinds(b, machine.frames(), machine.path(), machine.best());
        }
        machine.advance(false);
    }
    machine.best_actions()
}

} // verus!
