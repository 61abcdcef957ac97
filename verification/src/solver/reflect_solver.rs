//! The two memoised dynamic-programming solvers: the progress solver, which
//! knows for each point of its table how much progress the remaining
//! resources can still add, and the quality solver layered on it.
//!
//! A solver computes the slot of a state by trying each action of its list
//! and descending into the state that the action leaves; what it finds it
//! stores under the point that the state falls on, and a slot that is stored
//! is never computed again. States that fall on the same point share a slot,
//! so what a slot holds depends on which of them asked first: the answer of
//! a solver is a function of the state and of what its table holds. The
//! specifications here say so: [`progress_explore`] and [`quality_explore`]
//! take the table as it is and hand back the table as it becomes, with the
//! slot. The descent goes only into states of lower rank, which is how it
//! is known to end.
//!
//! Three things are proved of every computation. It changes no slot that was
//! computed before ([`keeps_slots`]). The two solvers stay coupled: the
//! quality solver stores an action only where the progress solver has found
//! that the recipe stays in reach after it ([`coupled`]). And what a solver
//! plays from a state can be played from it, and so never lifts progress
//! above the recipe's difficulty.

use crate::craft::{Action, Buffs, Combo, CraftingState};
use crate::rules::{lemma_playable_prepend, lemma_playable_stays_valid, playable, replay};
use crate::simulation::{simulate, simulated};
use crate::solver::clone_actions;
use crate::solver::score::Score;
use crate::solver::table::{
    blank_memo, table_get, table_new, table_set, MemoKey, MemoTable, Slot,
};
use vstd::prelude::*;

verus! {

/// What a solver may use: manipulation, waste not up to a number of turns,
/// observation.
#[derive(Clone, Copy, Debug, PartialEq, Eq, Structural)]
pub struct Allowance {
    pub mn: bool,
    pub wn: usize,
    pub obz: bool,
}

impl Allowance {
    /// Whether the solver may use action `a`.
    pub open spec fn admits(self, a: Action) -> bool {
        &&& a == Action::Manipulation ==> self.mn
        &&& a == Action::WasteNotII ==> self.wn >= 8
        &&& a == Action::WasteNot ==> self.wn >= 4
        &&& a == Action::Observe ==> self.obz
    }

    /// Decides [`Self::admits`].
    pub fn permits(&self, a: Action) -> (r: bool)
        ensures
            r == self.admits(a),
    {
        match a {
            Action::Manipulation => self.mn,
            Action::WasteNotII => self.wn >= 8,
            Action::WasteNot => self.wn >= 4,
            Action::Observe => self.obz,
            _ => true,
        }
    }
}

/// The actions that the progress solver chooses from, in the order in which
/// it tries them.
pub open spec fn synth_skills() -> Seq<Action> {
    seq![
        Action::BasicSynthesis,
        Action::WasteNot,
        Action::Veneration,
        Action::WasteNotII,
        Action::CarefulSynthesis,
        Action::Groundwork,
        Action::DelicateSynthesis,
        Action::IntensiveSynthesis,
        Action::PrudentSynthesis,
        Action::Observe,
        Action::TrainedPerfection,
        Action::ImmaculateMend,
    ]
}

/// The `i`-th action of [`synth_skills`].
fn synth_skill(i: usize) -> (a: Action)
    requires
        i < 12,
    ensures
        a == synth_skills()[i as int],
{
    match i {
        0 => Action::BasicSynthesis,
        1 => Action::WasteNot,
        2 => Action::Veneration,
        3 => Action::WasteNotII,
        4 => Action::CarefulSynthesis,
        5 => Action::Groundwork,
        6 => Action::DelicateSynthesis,
        7 => Action::IntensiveSynthesis,
        8 => Action::PrudentSynthesis,
        9 => Action::Observe,
        10 => Action::TrainedPerfection,
        _ => Action::ImmaculateMend,
    }
}

/// The point of the progress table that a state falls on: whether the last
/// action observed; the veneration, manipulation and waste-not turns left;
/// the stage of trained perfection; durability in steps of five, rounded up;
/// craft points.
pub open spec fn progress_key(s: CraftingState) -> MemoKey {
    MemoKey {
        observed: if s.combo == Combo::Observed {
            1
        } else {
            0
        },
        veneration: s.buffs.veneration as usize,
        inner_quiet: 0,
        innovation: 0,
        great_strides: 0,
        manipulation: s.buffs.manipulation as usize,
        waste_not: s.buffs.waste_not_left() as usize,
        touch_combo: 0,
        perfection: s.perfection_stage() as usize,
        quick_innovation: 0,
        durability: ((s.durability + 4) / 5) as usize,
        craft_points: s.craft_points as usize,
    }
}

/// Computes [`progress_key`].
fn progress_key_of(s: &CraftingState) -> (k: MemoKey)
    requires
        s.valid(),
    ensures
        k == progress_key(*s),
{
    let waste_not = if s.buffs.wast_not >= s.buffs.wast_not_ii {
        s.buffs.wast_not
    } else {
        s.buffs.wast_not_ii
    };
    let perfection: usize = if s.buffs.trained_perfection > 0 {
        1
    } else if s.limits.trained_perfection_used > 0 {
        2
    } else {
        0
    };
    MemoKey {
        observed: if matches!(s.combo, Combo::Observed) {
            1
        } else {
            0
        },
        veneration: s.buffs.veneration as usize,
        inner_quiet: 0,
        innovation: 0,
        great_strides: 0,
        manipulation: s.buffs.manipulation as usize,
        waste_not: waste_not as usize,
        touch_combo: 0,
        perfection,
        quick_innovation: 0,
        durability: ((s.durability as usize) + 4) / 5,
        craft_points: s.craft_points as usize,
    }
}

/// The state that the progress solver descends into when it tries action `a`
/// in state `s`: the action must be one the solver may use and the state
/// allows; it is applied to a copy of the state whose progress meter is set
/// back to nothing, so that what the copy then shows is what the action adds;
/// and the copy must come out inside the domain and lower in rank.
pub open spec fn progress_candidate(cfg: Allowance, s: CraftingState, a: Action) -> Option<
    CraftingState,
> {
    let scratch = CraftingState { progress: 0, ..s };
    if cfg.admits(a) && s.allows(a) && scratch.castable(a) && scratch.after(a).valid()
        && s.same_craft(scratch.after(a)) && scratch.after(a).rank() < s.rank() {
        Some(scratch.after(a))
    } else {
        None
    }
}

/// Whether a continuation that adds `value` in `step` steps replaces `best`:
/// it adds more, counted up to the recipe's difficulty, or the same in fewer
/// steps.
pub open spec fn progress_improves(difficulty: u16, value: u32, step: u16, best: Slot) -> bool {
    let capped = if value > difficulty {
        difficulty as u32
    } else {
        value
    };
    capped > best.value || (value == best.value && step < best.step)
}

/// The slot that trying action `a` from a state proposes, given the state
/// `next` that the action leaves and the slot `tail` of what follows.
pub open spec fn progress_proposal(a: Action, next: CraftingState, tail: Slot) -> Slot {
    Slot {
        value: (next.progress as u32).saturating_add(tail.value),
        step: 1u16.saturating_add(tail.step),
        action: Some(a),
        is_some: true,
    }
}

/// The progress solver's pass over its actions from the `i`-th on, for state
/// `s`, with `best` the best slot found so far: the table as the pass leaves
/// it, and the best slot at its end.
pub open spec fn progress_scan(
    cfg: Allowance,
    shape: MemoKey,
    memo: Map<MemoKey, Slot>,
    s: CraftingState,
    i: int,
    best: Slot,
) -> (Map<MemoKey, Slot>, Slot)
    decreases s.rank(), 0nat, synth_skills().len() - i,
{
    if i < 0 || i >= synth_skills().len() {
        (memo, best)
    } else {
        let a = synth_skills()[i];
        match progress_candidate(cfg, s, a) {
            None => progress_scan(cfg, shape, memo, s, i + 1, best),
            Some(next) => {
                let found = if next.durability > 0 {
                    progress_explore(cfg, shape, memo, next)
                } else {
                    (memo, Slot::barren())
                };
                let proposal = progress_proposal(a, next, found.1);
                let better = if progress_improves(
                    s.recipe.difficulty,
                    proposal.value,
                    proposal.step,
                    best,
                ) {
                    proposal
                } else {
                    best
                };
                progress_scan(cfg, shape, found.0, s, i + 1, better)
            },
        }
    }
}

/// The progress solver's answer for state `s` on a table that holds `memo`:
/// the table as the computation leaves it, and the slot of the state. A point
/// outside the table has the barren slot and is not stored. A slot that is
/// there is the answer. Otherwise the answer is computed, by a pass over the
/// actions, and stored, unless the pass itself has filled the slot.
pub open spec fn progress_explore(
    cfg: Allowance,
    shape: MemoKey,
    memo: Map<MemoKey, Slot>,
    s: CraftingState,
) -> (Map<MemoKey, Slot>, Slot)
    decreases s.rank(), 1nat, 0nat,
{
    let key = progress_key(s);
    if !key.within(shape) {
        (memo, Slot::barren())
    } else if memo[key].is_some {
        (memo, memo[key])
    } else if s.durability == 0 {
        (memo.insert(key, Slot::barren()), Slot::barren())
    } else {
        let scanned = progress_scan(cfg, shape, memo, s, 0, Slot::barren());
        if scanned.0[key].is_some {
            (scanned.0, scanned.0[key])
        } else {
            (scanned.0.insert(key, scanned.1), scanned.1)
        }
    }
}

/// The progress solver: for any state, how much progress the resources that
/// are left can still add, and by which action first.
pub struct ProgressSolver {
    origin: CraftingState,
    mn: bool,
    wn: usize,
    obz: bool,
    results: MemoTable,
}

impl ProgressSolver {
    /// What the solver may use.
    pub closed spec fn allowance(self) -> Allowance {
        Allowance { mn: self.mn, wn: self.wn, obz: self.obz }
    }

    /// The state that the solver was made for.
    pub closed spec fn origin(self) -> CraftingState {
        self.origin
    }

    /// The extent of the solver's table.
    pub closed spec fn shape(self) -> MemoKey {
        self.results.shape()
    }

    /// What the solver's table holds.
    pub closed spec fn memo(self) -> Map<MemoKey, Slot> {
        self.results.cells()
    }

    /// The extent of the table of a solver for the craft of `init`: two
    /// points for the observation flag where observation is allowed, five
    /// for veneration, nine for manipulation where it is allowed, one more
    /// than the waste-not turns allowed, three for trained perfection, one
    /// for each five of the recipe's durability and one more, and one for
    /// each craft point from none to all.
    pub open spec fn extent(init: CraftingState, mn: bool, wn: usize, obz: bool) -> MemoKey {
        MemoKey {
            observed: if obz {
                2
            } else {
                1
            },
            veneration: 5,
            inner_quiet: 1,
            innovation: 1,
            great_strides: 1,
            manipulation: if mn {
                9
            } else {
                1
            },
            waste_not: (wn + 1) as usize,
            touch_combo: 1,
            perfection: 3,
            quick_innovation: 1,
            durability: (init.recipe.durability / 5 + 1) as usize,
            craft_points: (init.attributes.craft_points + 1) as usize,
        }
    }

    /// Whether a solver can be made for the craft of `init`: the crafter has
    /// a craft point budget of the domain, and the table can be allotted.
    pub open spec fn buildable(init: CraftingState, mn: bool, wn: usize, obz: bool) -> bool {
        &&& 0 <= init.attributes.craft_points <= crate::craft::MAX_ATTRIBUTE
        &&& wn < usize::MAX
        &&& Self::extent(init, mn, wn, obz).allottable()
    }

    /// Computes [`Self::extent`].
    fn extent_of(init: &CraftingState, mn: bool, wn: usize, obz: bool) -> (k: MemoKey)
        requires
            0 <= init.attributes.craft_points <= crate::craft::MAX_ATTRIBUTE,
            wn < usize::MAX,
        ensures
            k == Self::extent(*init, mn, wn, obz),
    {
        MemoKey {
            observed: if obz {
                2
            } else {
                1
            },
            veneration: 5,
            inner_quiet: 1,
            innovation: 1,
            great_strides: 1,
            manipulation: if mn {
                9
            } else {
                1
            },
            waste_not: wn + 1,
            touch_combo: 1,
            perfection: 3,
            quick_innovation: 1,
            durability: (init.recipe.durability / 5) as usize + 1,
            craft_points: init.attributes.craft_points as usize + 1,
        }
    }

    /// Decides [`Self::buildable`].
    pub fn can_build(init: &CraftingState, mn: bool, wn: usize, obz: bool) -> (ok: bool)
        ensures
            ok == Self::buildable(*init, mn, wn, obz),
    {
        if 0 <= init.attributes.craft_points && init.attributes.craft_points
            <= crate::craft::MAX_ATTRIBUTE && wn < usize::MAX {
            Self::extent_of(init, mn, wn, obz).is_allottable()
        } else {
            false
        }
    }

    /// A solver for the craft of `init_status`, with nothing computed yet.
    pub fn new(init_status: CraftingState, mn: bool, wn: usize, obz: bool) -> (r: Self)
        requires
            Self::buildable(init_status, mn, wn, obz),
        ensures
            r.allowance() == (Allowance { mn, wn, obz }),
            r.origin() == init_status,
            r.shape() == Self::extent(init_status, mn, wn, obz),
            r.memo() == blank_memo(),
    {
        let shape = Self::extent_of(&init_status, mn, wn, obz);
        ProgressSolver { origin: init_status, mn, wn, obz, results: table_new(&shape) }
    }

    /// Prepares the solver: computes the slot of the state that the solver
    /// was made for, and with it the slots of all that is reached from
    /// there, so that later readings find them. A state outside the domain
    /// has nothing to prepare.
    pub fn init(&mut self)
        ensures
            final(self).allowance() == old(self).allowance(),
            final(self).origin() == old(self).origin(),
            final(self).shape() == old(self).shape(),
            final(self).memo() == if old(self).origin().valid() {
                progress_explore(
                    old(self).allowance(),
                    old(self).shape(),
                    old(self).memo(),
                    old(self).origin(),
                ).0
            } else {
                old(self).memo()
            },
            keeps_slots(old(self).memo(), final(self).memo()),
    {
        let origin = self.origin;
        if origin.is_valid() {
            let _ = self.inner_read(&origin);
        }
    }

    /// The action to take in state `s`, if any.
    pub fn read(&mut self, s: &CraftingState) -> (r: Option<Action>)
        ensures
            final(self).allowance() == old(self).allowance(),
            final(self).origin() == old(self).origin(),
            final(self).shape() == old(self).shape(),
            (final(self).memo(), r) == progress_read(
                old(self).allowance(),
                old(self).shape(),
                old(self).memo(),
                *s,
            ),
            keeps_slots(old(self).memo(), final(self).memo()),
    {
        let ghost cfg = self.allowance();
        let ghost shape = self.shape();
        let ghost memo0 = self.memo();
        proof {
            lemma_progress_read_keeps_slots(cfg, shape, memo0, *s);
        }
        if !s.is_valid() || s.is_finished() {
            return None;
        }
        let cap: u32 = (s.recipe.difficulty - s.progress) as u32;
        let first = self.inner_read(s);
        let ghost memo1 = self.memo();
        let ghost best0 = capped(first, cap);
        let mut best = Slot {
            value: if first.value > cap {
                cap
            } else {
                first.value
            },
            step: first.step,
            action: first.action,
            is_some: true,
        };
        let mut probe = *s;
        probe.buffs = Buffs {
            muscle_memory: s.buffs.muscle_memory,
            great_strides: 0,
            veneration: s.buffs.veneration,
            innovation: 0,
            inner_quiet: 0,
            final_appraisal: 0,
            manipulation: s.buffs.manipulation,
            wast_not: s.buffs.wast_not,
            wast_not_ii: s.buffs.wast_not_ii,
            expedience: 0,
            heart_and_soul: 0,
            trained_perfection: s.buffs.trained_perfection,
            stellar_steady_hand: 0,
        };
        probe.combo = if matches!(s.combo, Combo::Observed) {
            Combo::Observed
        } else {
            Combo::Idle
        };
        let mut cp: i32 = 0;
        while cp <= s.craft_points
            invariant
                0 <= cp <= s.craft_points + 1,
                s.valid(),
                cap == progress_lack(*s),
                self.allowance() == cfg,
                self.origin() == old(self).origin(),
                self.shape() == shape,
                probe == progress_probe(*s, probe.craft_points, probe.durability),
                progress_sweep(cfg, shape, self.memo(), *s, cp as int, 1, best) == progress_sweep(
                    cfg,
                    shape,
                    memo1,
                    *s,
                    0,
                    1,
                    best0,
                ),
            decreases s.craft_points - cp + 1,
        {
            let mut du: u16 = 1;
            while du <= s.durability
                invariant
                    0 <= cp <= s.craft_points,
                    1 <= du <= s.durability + 1,
                    s.valid(),
                    cap == progress_lack(*s),
                    self.allowance() == cfg,
                    self.origin() == old(self).origin(),
                    self.shape() == shape,
                    probe == progress_probe(*s, probe.craft_points, probe.durability),
                    progress_sweep(cfg, shape, self.memo(), *s, cp as int, du as int, best)
                        == progress_sweep(cfg, shape, memo1, *s, 0, 1, best0),
                decreases s.durability - du + 1,
            {
                probe.craft_points = cp;
                probe.durability = du;
                let found = self.inner_read(&probe);
                let value = if found.value > cap {
                    cap
                } else {
                    found.value
                };
                if value >= best.value && found.step < best.step {
                    best = Slot { value, step: found.step, action: found.action, is_some: true };
                }
                du = du + 1;
            }
            cp = cp + 1;
        }
        best.action
    }

    /// The actions that the solver plays from state `s` on: it reads one,
    /// plays it, and reads again, until none is read or the craft is finished.
    /// What it plays is playable, and never lifts progress above the
    /// recipe's difficulty.
    pub fn read_all(&mut self, s: &CraftingState) -> (r: Vec<Action>)
        ensures
            final(self).allowance() == old(self).allowance(),
            final(self).origin() == old(self).origin(),
            final(self).shape() == old(self).shape(),
            (final(self).memo(), r@) == progress_walk(
                old(self).allowance(),
                old(self).shape(),
                old(self).memo(),
                *s,
            ),
            keeps_slots(old(self).memo(), final(self).memo()),
            playable(*s, r@),
            s.valid() ==> replay(*s, r@).progress <= s.recipe.difficulty,
    {
        let ghost cfg = self.allowance();
        let ghost shape = self.shape();
        let ghost memo0 = self.memo();
        let ghost whole = progress_walk(cfg, shape, memo0, *s);
        proof {
            lemma_progress_walk_sound(cfg, shape, memo0, *s);
            if s.valid() {
                lemma_playable_stays_valid(*s, whole.1);
            }
        }
        let mut result: Vec<Action> = Vec::new();
        let mut status = *s;
        let mut done = false;
        assert(result@ + whole.1 =~= whole.1);
        while !done
            invariant
                self.allowance() == cfg,
                self.origin() == old(self).origin(),
                self.shape() == shape,
                done ==> (self.memo(), result@) == whole,
                !done ==> whole.0 == progress_walk(cfg, shape, self.memo(), status).0,
                !done ==> whole.1 == result@ + progress_walk(cfg, shape, self.memo(), status).1,
            decreases
                    (if done {
                        0
                    } else {
                        status.rank() + 1
                    }),
        {
            let ghost before = self.memo();
            let ghost rest = progress_walk(cfg, shape, before, status);
            match self.read(&status) {
                None => {
                    assert(result@ + Seq::<Action>::empty() =~= result@);
                    done = true;
                },
                Some(a) => {
                    match status.try_step(a) {
                        None => {
                            assert(result@ + Seq::<Action>::empty() =~= result@);
                            done = true;
                        },
                        Some(next) => {
                            if next.rank_of() >= status.rank_of() {
                                assert(result@ + Seq::<Action>::empty() =~= result@);
                                done = true;
                            } else {
                                let ghost played = result@;
                                result.push(a);
                                if next.is_finished() {
                                    assert(played + seq![a] =~= result@);
                                    done = true;
                                } else {
                                    let ghost tail = progress_walk(cfg, shape, self.memo(), next);
                                    assert(played + (seq![a] + tail.1) =~= result@ + tail.1);
                                }
                                status = next;
                            }
                        },
                    }
                },
            }
        }
        result
    }

    /// The slot of state `s`, computed and stored where it is not yet there.
    pub fn inner_read(&mut self, s: &CraftingState) -> (r: Slot)
        requires
            s.valid(),
        ensures
            final(self).allowance() == old(self).allowance(),
            final(self).origin() == old(self).origin(),
            final(self).shape() == old(self).shape(),
            (final(self).memo(), r) == progress_explore(
                old(self).allowance(),
                old(self).shape(),
                old(self).memo(),
                *s,
            ),
            keeps_slots(old(self).memo(), final(self).memo()),
            r.is_some,
        decreases s.rank(),
    {
        let ghost cfg = self.allowance();
        let ghost shape = self.shape();
        let ghost memo0 = self.memo();
        proof {
            lemma_progress_explore_keeps_slots(cfg, shape, memo0, *s);
        }
        let key = progress_key_of(s);
        match table_get(&self.results, &key) {
            None => {
                return Slot { value: 0, step: 0, action: None, is_some: true };
            },
            Some(slot) => {
                if slot.is_some {
                    return slot;
                }
            },
        }
        if s.durability == 0 {
            let barren = Slot { value: 0, step: 0, action: None, is_some: true };
            table_set(&mut self.results, &key, barren);
            return barren;
        }
        let allowance = Allowance { mn: self.mn, wn: self.wn, obz: self.obz };
        let rank = s.rank_of();
        let mut best = Slot { value: 0, step: 0, action: None, is_some: true };
        let mut i: usize = 0;
        while i < 12
            invariant
                i <= 12,
                s.valid(),
                rank == s.rank(),
                allowance == cfg,
                self.allowance() == cfg,
                self.origin() == old(self).origin(),
                self.shape() == shape,
                synth_skills().len() == 12,
                progress_scan(cfg, shape, self.memo(), *s, i as int, best) == progress_scan(
                    cfg,
                    shape,
                    memo0,
                    *s,
                    0,
                    Slot::barren(),
                ),
            decreases 12 - i,
        {
            let a = synth_skill(i);
            let ghost memo1 = self.memo();
            let mut taken: Option<CraftingState> = None;
            if allowance.permits(a) && s.is_action_allowed(a).is_ok() {
                let mut scratch = *s;
                scratch.progress = 0;
                if scratch.is_castable(a) {
                    scratch.cast_action(a);
                    if scratch.is_valid() && scratch.rank_of() < rank {
                        taken = Some(scratch);
                    }
                }
            }
            assert(taken == progress_candidate(cfg, *s, a));
            match taken {
                None => {},
                Some(next) => {
                    let tail = if next.durability > 0 {
                        self.inner_read(&next)
                    } else {
                        Slot { value: 0, step: 0, action: None, is_some: true }
                    };
                    let value = (next.progress as u32).saturating_add(tail.value);
                    let step = 1u16.saturating_add(tail.step);
                    let capped = if value > s.recipe.difficulty as u32 {
                        s.recipe.difficulty as u32
                    } else {
                        value
                    };
                    if capped > best.value || (value == best.value && step < best.step) {
                        best = Slot { value, step, action: Some(a), is_some: true };
                    }
                },
            }
            i = i + 1;
        }
        match table_get(&self.results, &key) {
            Some(slot) => {
                if slot.is_some {
                    slot
                } else {
                    table_set(&mut self.results, &key, best);
                    best
                }
            },
            None => best,
        }
    }
}

/// Whether table `later` holds every computed slot of table `earlier`
/// unchanged.
pub open spec fn keeps_slots(earlier: Map<MemoKey, Slot>, later: Map<MemoKey, Slot>) -> bool {
    forall|k: MemoKey| #[trigger] earlier[k].is_some ==> later[k] == earlier[k]
}

/// A pass over the actions changes no computed slot of the table.
pub proof fn lemma_progress_scan_keeps_slots(
    cfg: Allowance,
    shape: MemoKey,
    memo: Map<MemoKey, Slot>,
    s: CraftingState,
    i: int,
    best: Slot,
)
    ensures
        keeps_slots(memo, progress_scan(cfg, shape, memo, s, i, best).0),
    decreases s.rank(), 0nat, synth_skills().len() - i,
{
    if 0 <= i < synth_skills().len() {
        let a = synth_skills()[i];
        match progress_candidate(cfg, s, a) {
            None => {
                lemma_progress_scan_keeps_slots(cfg, shape, memo, s, i + 1, best);
            },
            Some(next) => {
                let found = if next.durability > 0 {
                    progress_explore(cfg, shape, memo, next)
                } else {
                    (memo, Slot::barren())
                };
                if next.durability > 0 {
                    lemma_progress_explore_keeps_slots(cfg, shape, memo, next);
                }
                let proposal = progress_proposal(a, next, found.1);
                let better = if progress_improves(
                    s.recipe.difficulty,
                    proposal.value,
                    proposal.step,
                    best,
                ) {
                    proposal
                } else {
                    best
                };
                lemma_progress_scan_keeps_slots(cfg, shape, found.0, s, i + 1, better);
            },
        }
    }
}

/// Memoisation is pure: computing the slot of a state changes no slot that
/// was computed before, and the slot it answers with is a computed one.
pub proof fn lemma_progress_explore_keeps_slots(
    cfg: Allowance,
    shape: MemoKey,
    memo: Map<MemoKey, Slot>,
    s: CraftingState,
)
    ensures
        keeps_slots(memo, progress_explore(cfg, shape, memo, s).0),
        progress_explore(cfg, shape, memo, s).1.is_some,
        progress_key(s).within(shape) ==> progress_explore(cfg, shape, memo, s).0[progress_key(
            s,
        )] == progress_explore(cfg, shape, memo, s).1,
    decreases s.rank(), 1nat, 0nat,
{
    let key = progress_key(s);
    if key.within(shape) && !memo[key].is_some && s.durability != 0 {
        lemma_progress_scan_keeps_slots(cfg, shape, memo, s, 0, Slot::barren());
        lemma_progress_scan_is_some(cfg, shape, memo, s, 0, Slot::barren());
    }
}

/// A pass that starts from a computed slot ends with one.
pub proof fn lemma_progress_scan_is_some(
    cfg: Allowance,
    shape: MemoKey,
    memo: Map<MemoKey, Slot>,
    s: CraftingState,
    i: int,
    best: Slot,
)
    requires
        best.is_some,
    ensures
        progress_scan(cfg, shape, memo, s, i, best).1.is_some,
    decreases synth_skills().len() - i,
{
    if 0 <= i < synth_skills().len() {
        let a = synth_skills()[i];
        match progress_candidate(cfg, s, a) {
            None => {
                lemma_progress_scan_is_some(cfg, shape, memo, s, i + 1, best);
            },
            Some(next) => {
                let found = if next.durability > 0 {
                    progress_explore(cfg, shape, memo, next)
                } else {
                    (memo, Slot::barren())
                };
                let proposal = progress_proposal(a, next, found.1);
                let better = if progress_improves(
                    s.recipe.difficulty,
                    proposal.value,
                    proposal.step,
                    best,
                ) {
                    proposal
                } else {
                    best
                };
                lemma_progress_scan_is_some(cfg, shape, found.0, s, i + 1, better);
            },
        }
    }
}

/// The state that the progress solver looks up when it asks what a share of
/// `cp` craft points and `du` durability of state `s` could add: `s` with
/// these two meters, and of its buffs only those that bear on progress.
pub open spec fn progress_probe(s: CraftingState, cp: i32, du: u16) -> CraftingState {
    CraftingState {
        buffs: Buffs {
            muscle_memory: s.buffs.muscle_memory,
            veneration: s.buffs.veneration,
            manipulation: s.buffs.manipulation,
            wast_not: s.buffs.wast_not,
            wast_not_ii: s.buffs.wast_not_ii,
            trained_perfection: s.buffs.trained_perfection,
            ..Buffs::cleared()
        },
        combo: if s.combo == Combo::Observed {
            Combo::Observed
        } else {
            Combo::Idle
        },
        craft_points: cp,
        durability: du,
        ..s
    }
}

/// The progress that state `s` still lacks.
pub open spec fn progress_lack(s: CraftingState) -> u32 {
    if s.progress <= s.recipe.difficulty {
        (s.recipe.difficulty - s.progress) as u32
    } else {
        0
    }
}

/// `slot` with its value counted only up to `cap`.
pub open spec fn capped(slot: Slot, cap: u32) -> Slot {
    Slot {
        value: if slot.value > cap {
            cap
        } else {
            slot.value
        },
        step: slot.step,
        action: slot.action,
        is_some: true,
    }
}

/// Whether the slot `found`, of a smaller share of the resources, replaces
/// `best`: it adds no less, and in fewer steps.
pub open spec fn share_improves(found: Slot, best: Slot) -> bool {
    found.value >= best.value && found.step < best.step
}

/// The progress solver's search over the shares of the resources of state
/// `s`, from the share of `cp` craft points and `du` durability on: craft
/// points from none to all, and for each of them durability from one to all.
pub open spec fn progress_sweep(
    cfg: Allowance,
    shape: MemoKey,
    memo: Map<MemoKey, Slot>,
    s: CraftingState,
    cp: int,
    du: int,
    best: Slot,
) -> (Map<MemoKey, Slot>, Slot)
    decreases s.craft_points - cp + 1, s.durability - du + 1,
{
    if cp < 0 || du < 1 || cp > s.craft_points {
        (memo, best)
    } else if du > s.durability {
        progress_sweep(cfg, shape, memo, s, cp + 1, 1, best)
    } else {
        let found = progress_explore(cfg, shape, memo, progress_probe(s, cp as i32, du as u16));
        let offered = capped(found.1, progress_lack(s));
        let better = if share_improves(offered, best) {
            offered
        } else {
            best
        };
        progress_sweep(cfg, shape, found.0, s, cp, du + 1, better)
    }
}

/// What the progress solver reads for state `s` on a table that holds `memo`:
/// the table as the reading leaves it, and the action to take, if any. A
/// state outside the domain, or a finished one, has none. Otherwise it is the
/// action of the state's own slot, unless some smaller share of the state's
/// resources adds as much in fewer steps.
pub open spec fn progress_read(
    cfg: Allowance,
    shape: MemoKey,
    memo: Map<MemoKey, Slot>,
    s: CraftingState,
) -> (Map<MemoKey, Slot>, Option<Action>) {
    if !s.valid() || s.finished() {
        (memo, None)
    } else {
        let first = progress_explore(cfg, shape, memo, s);
        let swept = progress_sweep(
            cfg,
            shape,
            first.0,
            s,
            0,
            1,
            capped(first.1, progress_lack(s)),
        );
        (swept.0, swept.1.action)
    }
}

/// The progress solver's walk from state `s`: it reads an action, plays it,
/// and goes on from the state that the action leaves, until it reads none,
/// the action read is not playable or does not lower the rank, or the craft
/// is finished. The table as the walk leaves it, and the actions played.
pub open spec fn progress_walk(
    cfg: Allowance,
    shape: MemoKey,
    memo: Map<MemoKey, Slot>,
    s: CraftingState,
) -> (Map<MemoKey, Slot>, Seq<Action>)
    decreases s.rank(),
{
    let read = progress_read(cfg, shape, memo, s);
    match read.1 {
        None => (read.0, Seq::empty()),
        Some(a) => match s.step(a) {
            None => (read.0, Seq::empty()),
            Some(next) => if next.rank() >= s.rank() {
                (read.0, Seq::empty())
            } else if next.finished() {
                (read.0, seq![a])
            } else {
                let rest = progress_walk(cfg, shape, read.0, next);
                (rest.0, seq![a] + rest.1)
            },
        },
    }
}

/// A search over the shares changes no computed slot of the table.
pub proof fn lemma_progress_sweep_keeps_slots(
    cfg: Allowance,
    shape: MemoKey,
    memo: Map<MemoKey, Slot>,
    s: CraftingState,
    cp: int,
    du: int,
    best: Slot,
)
    ensures
        keeps_slots(memo, progress_sweep(cfg, shape, memo, s, cp, du, best).0),
    decreases s.craft_points - cp + 1, s.durability - du + 1,
{
    if cp < 0 || du < 1 || cp > s.craft_points {
    } else if du > s.durability {
        lemma_progress_sweep_keeps_slots(cfg, shape, memo, s, cp + 1, 1, best);
    } else {
        let probe = progress_probe(s, cp as i32, du as u16);
        let found = progress_explore(cfg, shape, memo, probe);
        lemma_progress_explore_keeps_slots(cfg, shape, memo, probe);
        let offered = capped(found.1, progress_lack(s));
        let better = if share_improves(offered, best) {
            offered
        } else {
            best
        };
        lemma_progress_sweep_keeps_slots(cfg, shape, found.0, s, cp, du + 1, better);
    }
}

/// Reading an action changes no computed slot of the table.
pub proof fn lemma_progress_read_keeps_slots(
    cfg: Allowance,
    shape: MemoKey,
    memo: Map<MemoKey, Slot>,
    s: CraftingState,
)
    ensures
        keeps_slots(memo, progress_read(cfg, shape, memo, s).0),
{
    if s.valid() && !s.finished() {
        let first = progress_explore(cfg, shape, memo, s);
        lemma_progress_explore_keeps_slots(cfg, shape, memo, s);
        lemma_progress_sweep_keeps_slots(
            cfg,
            shape,
            first.0,
            s,
            0,
            1,
            capped(first.1, progress_lack(s)),
        );
    }
}

/// A walk changes no computed slot of the table, and what it plays is
/// playable from where it starts.
pub proof fn lemma_progress_walk_sound(
    cfg: Allowance,
    shape: MemoKey,
    memo: Map<MemoKey, Slot>,
    s: CraftingState,
)
    ensures
        keeps_slots(memo, progress_walk(cfg, shape, memo, s).0),
        playable(s, progress_walk(cfg, shape, memo, s).1),
    decreases s.rank(),
{
    let read = progress_read(cfg, shape, memo, s);
    lemma_progress_read_keeps_slots(cfg, shape, memo, s);
    match read.1 {
        None => {},
        Some(a) => match s.step(a) {
            None => {},
            Some(next) => if next.rank() >= s.rank() {
            } else if next.finished() {
                lemma_playable_prepend(s, a, Seq::empty());
                assert(seq![a] + Seq::<Action>::empty() =~= seq![a]);
            } else {
                let rest = progress_walk(cfg, shape, read.0, next);
                lemma_progress_walk_sound(cfg, shape, read.0, next);
                lemma_playable_prepend(s, a, rest.1);
            },
        },
    }
}

/// The actions that the quality solver chooses from, in the order in which
/// it tries them.
pub open spec fn touch_skills() -> Seq<Action> {
    seq![
        Action::BasicTouch,
        Action::RefinedTouch,
        Action::MastersMend,
        Action::WasteNot,
        Action::StandardTouch,
        Action::GreatStrides,
        Action::Innovation,
        Action::WasteNotII,
        Action::ByregotsBlessing,
        Action::PrudentTouch,
        Action::PreparatoryTouch,
        Action::AdvancedTouch,
        Action::TrainedFinesse,
        Action::Manipulation,
        Action::Observe,
        Action::TrainedPerfection,
        Action::ImmaculateMend,
    ]
}

/// The `i`-th action of [`touch_skills`].
fn touch_skill(i: usize) -> (a: Action)
    requires
        i < 17,
    ensures
        a == touch_skills()[i as int],
{
    match i {
        0 => Action::BasicTouch,
        1 => Action::RefinedTouch,
        2 => Action::MastersMend,
        3 => Action::WasteNot,
        4 => Action::StandardTouch,
        5 => Action::GreatStrides,
        6 => Action::Innovation,
        7 => Action::WasteNotII,
        8 => Action::ByregotsBlessing,
        9 => Action::PrudentTouch,
        10 => Action::PreparatoryTouch,
        11 => Action::AdvancedTouch,
        12 => Action::TrainedFinesse,
        13 => Action::Manipulation,
        14 => Action::Observe,
        15 => Action::TrainedPerfection,
        _ => Action::ImmaculateMend,
    }
}

/// The stage of the touch combo that a state is in.
pub open spec fn touch_stage(s: CraftingState) -> usize {
    match s.combo {
        Combo::BasicTouched => 1,
        Combo::StandardTouched => 2,
        _ => 0,
    }
}

/// The point of the quality table that a state falls on: whether the last
/// action observed; the inner-quiet stacks; the innovation, great-strides,
/// manipulation and waste-not turns left; the stage of the touch combo; the
/// stage of trained perfection; durability in steps of five, rounded down;
/// craft points.
pub open spec fn quality_key(s: CraftingState) -> MemoKey {
    MemoKey {
        observed: if s.combo == Combo::Observed {
            1
        } else {
            0
        },
        veneration: 0,
        inner_quiet: s.buffs.inner_quiet as usize,
        innovation: s.buffs.innovation as usize,
        great_strides: s.buffs.great_strides as usize,
        manipulation: s.buffs.manipulation as usize,
        waste_not: s.buffs.waste_not_left() as usize,
        touch_combo: touch_stage(s),
        perfection: s.perfection_stage() as usize,
        quick_innovation: 0,
        durability: (s.durability / 5) as usize,
        craft_points: s.craft_points as usize,
    }
}

/// Computes [`quality_key`].
fn quality_key_of(s: &CraftingState) -> (k: MemoKey)
    requires
        s.valid(),
    ensures
        k == quality_key(*s),
{
    let waste_not = if s.buffs.wast_not >= s.buffs.wast_not_ii {
        s.buffs.wast_not
    } else {
        s.buffs.wast_not_ii
    };
    let perfection: usize = if s.buffs.trained_perfection > 0 {
        1
    } else if s.limits.trained_perfection_used > 0 {
        2
    } else {
        0
    };
    MemoKey {
        observed: if matches!(s.combo, Combo::Observed) {
            1
        } else {
            0
        },
        veneration: 0,
        inner_quiet: s.buffs.inner_quiet as usize,
        innovation: s.buffs.innovation as usize,
        great_strides: s.buffs.great_strides as usize,
        manipulation: s.buffs.manipulation as usize,
        waste_not: waste_not as usize,
        touch_combo: match s.combo {
            Combo::BasicTouched => 1,
            Combo::StandardTouched => 2,
            _ => 0,
        },
        perfection,
        quick_innovation: 0,
        durability: (s.durability / 5) as usize,
        craft_points: s.craft_points as usize,
    }
}

/// Whether the quality solver tries action `a` in state `s` at all: it may
/// use the action, and it tries the advanced touch only as the end of its
/// combo or after an observation.
pub open spec fn quality_tries(cfg: Allowance, s: CraftingState, a: Action) -> bool {
    &&& cfg.admits(a)
    &&& a == Action::AdvancedTouch ==> s.combo == Combo::Observed || s.combo
        == Combo::StandardTouched
}

/// The state that the quality solver looks at when it tries action `a` in
/// state `s`: the action must be one the solver tries and the state allows;
/// it is applied to a copy of the state whose quality meter is set back to
/// nothing, so that what the copy then shows is what the action adds; and the
/// copy must come out inside the domain and lower in rank.
pub open spec fn quality_candidate(cfg: Allowance, s: CraftingState, a: Action) -> Option<
    CraftingState,
> {
    let scratch = CraftingState { quality: 0, ..s };
    if quality_tries(cfg, s, a) && s.allows(a) && scratch.castable(a) && scratch.after(a).valid()
        && s.same_craft(scratch.after(a)) && scratch.after(a).rank() < s.rank() {
        Some(scratch.after(a))
    } else {
        None
    }
}

/// Whether the progress solver's slot `left` for a state says that the
/// state can still complete the recipe: what the slot adds, with the
/// progress that the state has, reaches the recipe's difficulty.
pub open spec fn completes(left: Slot, next: CraftingState) -> bool {
    left.value + next.progress >= next.recipe.difficulty
}

/// Whether a continuation that adds `value` in `step` steps replaces `best`:
/// it adds more, or the same in fewer steps.
pub open spec fn quality_improves(value: u32, step: u16, best: Slot) -> bool {
    (value == best.value && step < best.step) || value > best.value
}

/// The slot that trying action `a` from a state proposes, given the state
/// `next` that the action leaves and the slot `tail` of what follows.
pub open spec fn quality_proposal(a: Action, next: CraftingState, tail: Slot) -> Slot {
    Slot {
        value: next.quality.saturating_add(tail.value),
        step: 1u16.saturating_add(tail.step),
        action: Some(a),
        is_some: true,
    }
}

/// The quality solver's pass over its actions from the `i`-th on, for state
/// `s`, with `best` the best slot found so far: the two tables as the pass
/// leaves them, the progress solver's first, and the best slot at its end. An
/// action is taken further only if the progress solver finds that the state
/// it leaves can still complete the recipe.
pub open spec fn quality_scan(
    cfg: Allowance,
    shapes: (MemoKey, MemoKey),
    pm: Map<MemoKey, Slot>,
    qm: Map<MemoKey, Slot>,
    s: CraftingState,
    i: int,
    best: Slot,
) -> (Map<MemoKey, Slot>, Map<MemoKey, Slot>, Slot)
    decreases s.rank(), 0nat, touch_skills().len() - i,
{
    if i < 0 || i >= touch_skills().len() {
        (pm, qm, best)
    } else {
        let a = touch_skills()[i];
        match quality_candidate(cfg, s, a) {
            None => quality_scan(cfg, shapes, pm, qm, s, i + 1, best),
            Some(next) => {
                let left = progress_explore(cfg, shapes.0, pm, next);
                if completes(left.1, next) {
                    let found = quality_explore(cfg, shapes, left.0, qm, next);
                    let proposal = quality_proposal(a, next, found.2);
                    let better = if quality_improves(proposal.value, proposal.step, best) {
                        proposal
                    } else {
                        best
                    };
                    quality_scan(cfg, shapes, found.0, found.1, s, i + 1, better)
                } else {
                    quality_scan(cfg, shapes, left.0, qm, s, i + 1, best)
                }
            },
        }
    }
}

/// The quality solver's answer for state `s` on tables that hold `pm`, the
/// progress solver's, and `qm`, its own: the two tables as the computation
/// leaves them, and the slot of the state. A point outside the table has the
/// barren slot and is not stored. A slot that is there is the answer.
/// Otherwise the answer is computed, by a pass over the actions, and stored,
/// unless the pass itself has filled the slot.
pub open spec fn quality_explore(
    cfg: Allowance,
    shapes: (MemoKey, MemoKey),
    pm: Map<MemoKey, Slot>,
    qm: Map<MemoKey, Slot>,
    s: CraftingState,
) -> (Map<MemoKey, Slot>, Map<MemoKey, Slot>, Slot)
    decreases s.rank(), 1nat, 0nat,
{
    let key = quality_key(s);
    if !key.within(shapes.1) {
        (pm, qm, Slot::barren())
    } else if qm[key].is_some {
        (pm, qm, qm[key])
    } else if s.durability == 0 {
        (pm, qm.insert(key, Slot::barren()), Slot::barren())
    } else {
        let scanned = quality_scan(cfg, shapes, pm, qm, s, 0, Slot::barren());
        if scanned.1[key].is_some {
            (scanned.0, scanned.1, scanned.1[key])
        } else {
            (scanned.0, scanned.1.insert(key, scanned.2), scanned.2)
        }
    }
}

/// The state that the quality solver looks up when it asks what a share of
/// `cp` craft points and `du` durability of state `s` could add: `s` with
/// these two meters, and of its buffs only those that bear on quality.
pub open spec fn quality_probe(s: CraftingState, cp: i32, du: u16) -> CraftingState {
    CraftingState {
        buffs: Buffs {
            great_strides: s.buffs.great_strides,
            innovation: s.buffs.innovation,
            inner_quiet: s.buffs.inner_quiet,
            manipulation: s.buffs.manipulation,
            wast_not: s.buffs.wast_not,
            wast_not_ii: s.buffs.wast_not_ii,
            trained_perfection: s.buffs.trained_perfection,
            ..Buffs::cleared()
        },
        craft_points: cp,
        durability: du,
        ..s
    }
}

/// The quality that state `s` still lacks.
pub open spec fn quality_lack(s: CraftingState) -> u32 {
    if s.quality <= s.recipe.quality {
        (s.recipe.quality - s.quality) as u32
    } else {
        0
    }
}

/// The quality solver's search over the shares of the resources of state
/// `s`, from the share of `cp` craft points and `du` durability on: craft
/// points from none to all, and for each of them durability from one to all.
pub open spec fn quality_sweep(
    cfg: Allowance,
    shapes: (MemoKey, MemoKey),
    pm: Map<MemoKey, Slot>,
    qm: Map<MemoKey, Slot>,
    s: CraftingState,
    cp: int,
    du: int,
    best: Slot,
) -> (Map<MemoKey, Slot>, Map<MemoKey, Slot>, Slot)
    decreases s.craft_points - cp + 1, s.durability - du + 1,
{
    if cp < 0 || du < 1 || cp > s.craft_points {
        (pm, qm, best)
    } else if du > s.durability {
        quality_sweep(cfg, shapes, pm, qm, s, cp + 1, 1, best)
    } else {
        let found = quality_explore(cfg, shapes, pm, qm, quality_probe(s, cp as i32, du as u16));
        let offered = capped(found.2, quality_lack(s));
        let better = if share_improves(offered, best) {
            offered
        } else {
            best
        };
        quality_sweep(cfg, shapes, found.0, found.1, s, cp, du + 1, better)
    }
}

/// What the quality solver itself picks for state `s`, which is neither
/// finished nor outside the domain: the two tables as the search leaves
/// them, and the slot picked. It is the state's own slot, counted up to the
/// quality that the state still lacks, unless some smaller share of the
/// state's resources adds as much in fewer steps.
pub open spec fn quality_pick(
    cfg: Allowance,
    shapes: (MemoKey, MemoKey),
    pm: Map<MemoKey, Slot>,
    qm: Map<MemoKey, Slot>,
    s: CraftingState,
) -> (Map<MemoKey, Slot>, Map<MemoKey, Slot>, Slot) {
    let first = quality_explore(cfg, shapes, pm, qm, s);
    quality_sweep(cfg, shapes, first.0, first.1, s, 0, 1, capped(first.2, quality_lack(s)))
}

/// What the quality solver reads for state `s`: the two tables as the
/// reading leaves them, and the action to take, if any. A state outside the
/// domain, or a finished one, has none. Otherwise it is the action of the
/// slot that the solver picks; and where that slot has no action, quality is
/// done with and the progress solver is read.
pub open spec fn quality_read(
    cfg: Allowance,
    shapes: (MemoKey, MemoKey),
    pm: Map<MemoKey, Slot>,
    qm: Map<MemoKey, Slot>,
    s: CraftingState,
) -> (Map<MemoKey, Slot>, Map<MemoKey, Slot>, Option<Action>) {
    if !s.valid() || s.finished() {
        (pm, qm, None)
    } else {
        let picked = quality_pick(cfg, shapes, pm, qm, s);
        match picked.2.action {
            Some(a) => (picked.0, picked.1, Some(a)),
            None => {
                let read = progress_read(cfg, shapes.0, picked.0, s);
                (read.0, picked.1, read.1)
            },
        }
    }
}

/// The quality solver's walk from state `s`: it reads an action, plays it,
/// and goes on from the state that the action leaves, until it reads none,
/// the action read is not playable or does not lower the rank, or the craft
/// is finished. The two tables as the walk leaves them, and the actions
/// played.
pub open spec fn quality_walk(
    cfg: Allowance,
    shapes: (MemoKey, MemoKey),
    pm: Map<MemoKey, Slot>,
    qm: Map<MemoKey, Slot>,
    s: CraftingState,
) -> (Map<MemoKey, Slot>, Map<MemoKey, Slot>, Seq<Action>)
    decreases s.rank(),
{
    let read = quality_read(cfg, shapes, pm, qm, s);
    match read.2 {
        None => (read.0, read.1, Seq::empty()),
        Some(a) => match s.step(a) {
            None => (read.0, read.1, Seq::empty()),
            Some(next) => if next.rank() >= s.rank() {
                (read.0, read.1, Seq::empty())
            } else if next.finished() {
                (read.0, read.1, seq![a])
            } else {
                let rest = quality_walk(cfg, shapes, read.0, read.1, next);
                (rest.0, rest.1, seq![a] + rest.2)
            },
        },
    }
}

/// Whether the progress solver's table `pm` has made up its mind about
/// state `next`: the state's point lies outside the table, or its slot is
/// computed.
pub open spec fn progress_settled(shape: MemoKey, pm: Map<MemoKey, Slot>, next: CraftingState)
    -> bool {
    !progress_key(next).within(shape) || pm[progress_key(next)].is_some
}

/// Whether state `w` vouches for action `a`: the quality solver, trying `a`
/// in `w`, finds a state of which the progress solver has settled that it
/// can still complete the recipe.
pub open spec fn vouches(
    cfg: Allowance,
    shapes: (MemoKey, MemoKey),
    pm: Map<MemoKey, Slot>,
    w: CraftingState,
    a: Action,
) -> bool {
    match quality_candidate(cfg, w, a) {
        Some(next) => progress_settled(shapes.0, pm, next) && completes(
            progress_explore(cfg, shapes.0, pm, next).1,
            next,
        ),
        None => false,
    }
}

/// Whether `slot`, at point `k` of the quality table, is justified: if it
/// names an action, some state that falls on the point vouches for it.
pub open spec fn justified(
    cfg: Allowance,
    shapes: (MemoKey, MemoKey),
    pm: Map<MemoKey, Slot>,
    k: MemoKey,
    slot: Slot,
) -> bool {
    slot.action matches Some(a) ==> exists|w: CraftingState|
        quality_key(w) == k && #[trigger] vouches(cfg, shapes, pm, w, a)
}

/// The coupling of the two solvers: every computed slot of the quality table
/// `qm` is justified by the progress table `pm`. No action that the quality
/// solver has stored leads, from the state it was stored for, to a state from
/// which the progress solver finds the recipe out of reach.
pub open spec fn coupled(
    cfg: Allowance,
    shapes: (MemoKey, MemoKey),
    pm: Map<MemoKey, Slot>,
    qm: Map<MemoKey, Slot>,
) -> bool {
    forall|k: MemoKey|
        k.within(shapes.1) && #[trigger] qm[k].is_some ==> justified(cfg, shapes, pm, k, qm[k])
}

/// Once the progress solver has settled a state, it answers for it as
/// before, whatever else its table comes to hold.
pub proof fn lemma_progress_settled_stays(
    cfg: Allowance,
    shape: MemoKey,
    pm: Map<MemoKey, Slot>,
    later: Map<MemoKey, Slot>,
    next: CraftingState,
)
    requires
        progress_settled(shape, pm, next),
        keeps_slots(pm, later),
    ensures
        progress_settled(shape, later, next),
        progress_explore(cfg, shape, later, next).1 == progress_explore(cfg, shape, pm, next).1,
{
}

/// A justified slot stays justified when the progress table grows.
pub proof fn lemma_justified_stays(
    cfg: Allowance,
    shapes: (MemoKey, MemoKey),
    pm: Map<MemoKey, Slot>,
    later: Map<MemoKey, Slot>,
    k: MemoKey,
    slot: Slot,
)
    requires
        justified(cfg, shapes, pm, k, slot),
        keeps_slots(pm, later),
    ensures
        justified(cfg, shapes, later, k, slot),
{
    if slot.action is Some {
        let a = slot.action.unwrap();
        let w = choose|w: CraftingState| quality_key(w) == k && #[trigger] vouches(
            cfg,
            shapes,
            pm,
            w,
            a,
        );
        let next = quality_candidate(cfg, w, a).unwrap();
        lemma_progress_settled_stays(cfg, shapes.0, pm, later, next);
        assert(vouches(cfg, shapes, later, w, a));
    }
}

/// The coupling stays when the progress table grows.
pub proof fn lemma_coupled_stays(
    cfg: Allowance,
    shapes: (MemoKey, MemoKey),
    pm: Map<MemoKey, Slot>,
    later: Map<MemoKey, Slot>,
    qm: Map<MemoKey, Slot>,
)
    requires
        coupled(cfg, shapes, pm, qm),
        keeps_slots(pm, later),
    ensures
        coupled(cfg, shapes, later, qm),
{
    assert forall|k: MemoKey| k.within(shapes.1) && #[trigger] qm[k].is_some implies justified(
        cfg,
        shapes,
        later,
        k,
        qm[k],
    ) by {
        lemma_justified_stays(cfg, shapes, pm, later, k, qm[k]);
    }
}

/// A pass of the quality solver keeps the coupling, and ends with a
/// justified slot if it began with one. It changes no computed slot of
/// either table.
pub proof fn lemma_quality_scan_coupled(
    cfg: Allowance,
    shapes: (MemoKey, MemoKey),
    pm: Map<MemoKey, Slot>,
    qm: Map<MemoKey, Slot>,
    s: CraftingState,
    i: int,
    best: Slot,
)
    requires
        coupled(cfg, shapes, pm, qm),
        justified(cfg, shapes, pm, quality_key(s), best),
        best.is_some,
    ensures
        ({
            let r = quality_scan(cfg, shapes, pm, qm, s, i, best);
            &&& coupled(cfg, shapes, r.0, r.1)
            &&& justified(cfg, shapes, r.0, quality_key(s), r.2)
            &&& keeps_slots(pm, r.0)
            &&& keeps_slots(qm, r.1)
            &&& r.2.is_some
        }),
    decreases s.rank(), 0nat, touch_skills().len() - i,
{
    if 0 <= i < touch_skills().len() {
        let a = touch_skills()[i];
        match quality_candidate(cfg, s, a) {
            None => {
                lemma_quality_scan_coupled(cfg, shapes, pm, qm, s, i + 1, best);
            },
            Some(next) => {
                let left = progress_explore(cfg, shapes.0, pm, next);
                lemma_progress_explore_keeps_slots(cfg, shapes.0, pm, next);
                lemma_coupled_stays(cfg, shapes, pm, left.0, qm);
                lemma_justified_stays(cfg, shapes, pm, left.0, quality_key(s), best);
                if completes(left.1, next) {
                    let found = quality_explore(cfg, shapes, left.0, qm, next);
                    lemma_quality_explore_coupled(cfg, shapes, left.0, qm, next);
                    let proposal = quality_proposal(a, next, found.2);
                    let better = if quality_improves(proposal.value, proposal.step, best) {
                        proposal
                    } else {
                        best
                    };
                    assert(progress_settled(shapes.0, left.0, next));
                    lemma_progress_settled_stays(cfg, shapes.0, left.0, found.0, next);
                    assert(progress_explore(cfg, shapes.0, left.0, next).1 == left.1);
                    assert(vouches(cfg, shapes, found.0, s, a));
                    lemma_justified_stays(cfg, shapes, left.0, found.0, quality_key(s), best);
                    assert(justified(cfg, shapes, found.0, quality_key(s), better));
                    lemma_quality_scan_coupled(cfg, shapes, found.0, found.1, s, i + 1, better);
                } else {
                    lemma_quality_scan_coupled(cfg, shapes, left.0, qm, s, i + 1, best);
                }
            },
        }
    }
}

/// The coupling invariant, and the purity of memoisation, for the quality
/// solver: computing the slot of a state keeps the coupling of the two
/// tables and changes no slot of either that was computed before; and the
/// slot it answers with is computed, and justified where the state falls on
/// the table.
pub proof fn lemma_quality_explore_coupled(
    cfg: Allowance,
    shapes: (MemoKey, MemoKey),
    pm: Map<MemoKey, Slot>,
    qm: Map<MemoKey, Slot>,
    s: CraftingState,
)
    requires
        coupled(cfg, shapes, pm, qm),
    ensures
        ({
            let r = quality_explore(cfg, shapes, pm, qm, s);
            &&& coupled(cfg, shapes, r.0, r.1)
            &&& justified(cfg, shapes, r.0, quality_key(s), r.2)
            &&& keeps_slots(pm, r.0)
            &&& keeps_slots(qm, r.1)
            &&& r.2.is_some
        }),
    decreases s.rank(), 1nat, 0nat,
{
    let key = quality_key(s);
    if key.within(shapes.1) && !qm[key].is_some && s.durability != 0 {
        lemma_quality_scan_coupled(cfg, shapes, pm, qm, s, 0, Slot::barren());
        let scanned = quality_scan(cfg, shapes, pm, qm, s, 0, Slot::barren());
        if !scanned.1[key].is_some {
            let stored = scanned.1.insert(key, scanned.2);
            assert forall|k: MemoKey|
                k.within(shapes.1) && #[trigger] stored[k].is_some implies justified(
                cfg,
                shapes,
                scanned.0,
                k,
                stored[k],
            ) by {
                if k != key {
                    assert(scanned.1[k].is_some);
                }
            }
        }
    }
}

/// Whether `slot` is grounded: if it names an action, some state vouches for
/// it.
pub open spec fn grounded(
    cfg: Allowance,
    shapes: (MemoKey, MemoKey),
    pm: Map<MemoKey, Slot>,
    slot: Slot,
) -> bool {
    slot.action matches Some(a) ==> exists|w: CraftingState| #[trigger]
        vouches(cfg, shapes, pm, w, a)
}

/// A justified slot is grounded, and so is the same slot counted up to a
/// cap.
pub proof fn lemma_justified_is_grounded(
    cfg: Allowance,
    shapes: (MemoKey, MemoKey),
    pm: Map<MemoKey, Slot>,
    k: MemoKey,
    slot: Slot,
    cap: u32,
)
    requires
        justified(cfg, shapes, pm, k, slot),
    ensures
        grounded(cfg, shapes, pm, slot),
        grounded(cfg, shapes, pm, capped(slot, cap)),
{
    if slot.action is Some {
        let a = slot.action.unwrap();
        let w = choose|w: CraftingState| quality_key(w) == k && #[trigger] vouches(
            cfg,
            shapes,
            pm,
            w,
            a,
        );
        assert(vouches(cfg, shapes, pm, w, a));
    }
}

/// A grounded slot stays grounded when the progress table grows.
pub proof fn lemma_grounded_stays(
    cfg: Allowance,
    shapes: (MemoKey, MemoKey),
    pm: Map<MemoKey, Slot>,
    later: Map<MemoKey, Slot>,
    slot: Slot,
)
    requires
        grounded(cfg, shapes, pm, slot),
        keeps_slots(pm, later),
    ensures
        grounded(cfg, shapes, later, slot),
{
    if slot.action is Some {
        let a = slot.action.unwrap();
        let w = choose|w: CraftingState| #[trigger] vouches(cfg, shapes, pm, w, a);
        let next = quality_candidate(cfg, w, a).unwrap();
        lemma_progress_settled_stays(cfg, shapes.0, pm, later, next);
        assert(vouches(cfg, shapes, later, w, a));
    }
}

/// A search of the quality solver over the shares keeps the coupling, and
/// ends with a grounded slot if it began with one.
pub proof fn lemma_quality_sweep_coupled(
    cfg: Allowance,
    shapes: (MemoKey, MemoKey),
    pm: Map<MemoKey, Slot>,
    qm: Map<MemoKey, Slot>,
    s: CraftingState,
    cp: int,
    du: int,
    best: Slot,
)
    requires
        coupled(cfg, shapes, pm, qm),
        grounded(cfg, shapes, pm, best),
    ensures
        ({
            let r = quality_sweep(cfg, shapes, pm, qm, s, cp, du, best);
            &&& coupled(cfg, shapes, r.0, r.1)
            &&& grounded(cfg, shapes, r.0, r.2)
            &&& keeps_slots(pm, r.0)
            &&& keeps_slots(qm, r.1)
        }),
    decreases s.craft_points - cp + 1, s.durability - du + 1,
{
    if cp < 0 || du < 1 || cp > s.craft_points {
    } else if du > s.durability {
        lemma_quality_sweep_coupled(cfg, shapes, pm, qm, s, cp + 1, 1, best);
    } else {
        let probe = quality_probe(s, cp as i32, du as u16);
        let found = quality_explore(cfg, shapes, pm, qm, probe);
        lemma_quality_explore_coupled(cfg, shapes, pm, qm, probe);
        let offered = capped(found.2, quality_lack(s));
        let better = if share_improves(offered, best) {
            offered
        } else {
            best
        };
        lemma_grounded_stays(cfg, shapes, pm, found.0, best);
        lemma_justified_is_grounded(
            cfg,
            shapes,
            found.0,
            quality_key(probe),
            found.2,
            quality_lack(s),
        );
        lemma_quality_sweep_coupled(cfg, shapes, found.0, found.1, s, cp, du + 1, better);
    }
}

/// What the quality solver itself picks is grounded: no action that it picks
/// for quality's sake leads, from the state that vouches for it, to a state
/// from which the progress solver finds the recipe out of reach.
pub proof fn lemma_quality_pick_grounded(
    cfg: Allowance,
    shapes: (MemoKey, MemoKey),
    pm: Map<MemoKey, Slot>,
    qm: Map<MemoKey, Slot>,
    s: CraftingState,
)
    requires
        coupled(cfg, shapes, pm, qm),
    ensures
        ({
            let r = quality_pick(cfg, shapes, pm, qm, s);
            &&& coupled(cfg, shapes, r.0, r.1)
            &&& grounded(cfg, shapes, r.0, r.2)
            &&& keeps_slots(pm, r.0)
            &&& keeps_slots(qm, r.1)
        }),
{
    let first = quality_explore(cfg, shapes, pm, qm, s);
    lemma_quality_explore_coupled(cfg, shapes, pm, qm, s);
    lemma_justified_is_grounded(cfg, shapes, first.0, quality_key(s), first.2, quality_lack(s));
    lemma_quality_sweep_coupled(
        cfg,
        shapes,
        first.0,
        first.1,
        s,
        0,
        1,
        capped(first.2, quality_lack(s)),
    );
}

/// Reading an action from the quality solver keeps the coupling and changes
/// no computed slot of either table.
pub proof fn lemma_quality_read_coupled(
    cfg: Allowance,
    shapes: (MemoKey, MemoKey),
    pm: Map<MemoKey, Slot>,
    qm: Map<MemoKey, Slot>,
    s: CraftingState,
)
    requires
        coupled(cfg, shapes, pm, qm),
    ensures
        ({
            let r = quality_read(cfg, shapes, pm, qm, s);
            &&& coupled(cfg, shapes, r.0, r.1)
            &&& keeps_slots(pm, r.0)
            &&& keeps_slots(qm, r.1)
        }),
{
    if s.valid() && !s.finished() {
        let picked = quality_pick(cfg, shapes, pm, qm, s);
        lemma_quality_pick_grounded(cfg, shapes, pm, qm, s);
        if picked.2.action is None {
            let read = progress_read(cfg, shapes.0, picked.0, s);
            lemma_progress_read_keeps_slots(cfg, shapes.0, picked.0, s);
            lemma_coupled_stays(cfg, shapes, picked.0, read.0, picked.1);
        }
    }
}

/// A walk of the quality solver keeps the coupling, changes no computed
/// slot, and plays what is playable from where it starts.
pub proof fn lemma_quality_walk_sound(
    cfg: Allowance,
    shapes: (MemoKey, MemoKey),
    pm: Map<MemoKey, Slot>,
    qm: Map<MemoKey, Slot>,
    s: CraftingState,
)
    requires
        coupled(cfg, shapes, pm, qm),
    ensures
        ({
            let r = quality_walk(cfg, shapes, pm, qm, s);
            &&& coupled(cfg, shapes, r.0, r.1)
            &&& keeps_slots(pm, r.0)
            &&& keeps_slots(qm, r.1)
            &&& playable(s, r.2)
        }),
    decreases s.rank(),
{
    let read = quality_read(cfg, shapes, pm, qm, s);
    lemma_quality_read_coupled(cfg, shapes, pm, qm, s);
    match read.2 {
        None => {},
        Some(a) => match s.step(a) {
            None => {},
            Some(next) => if next.rank() >= s.rank() {
            } else if next.finished() {
                lemma_playable_prepend(s, a, Seq::empty());
                assert(seq![a] + Seq::<Action>::empty() =~= seq![a]);
            } else {
                let rest = quality_walk(cfg, shapes, read.0, read.1, next);
                lemma_quality_walk_sound(cfg, shapes, read.0, read.1, next);
                lemma_playable_prepend(s, a, rest.2);
            },
        },
    }
}

/// The quality solver: for any state from which the recipe can still be
/// completed, how much quality the resources that are left can add without
/// giving that up, and by which action first.
pub struct QualitySolver {
    origin: CraftingState,
    progress_solver: ProgressSolver,
    mn: bool,
    wn: usize,
    obz: bool,
    results: MemoTable,
}

impl QualitySolver {
    /// What the solver may use.
    pub closed spec fn allowance(self) -> Allowance {
        Allowance { mn: self.mn, wn: self.wn, obz: self.obz }
    }

    /// The state that the solver was made for.
    pub closed spec fn origin(self) -> CraftingState {
        self.origin
    }

    /// The extents of the two tables, the progress solver's first.
    pub closed spec fn shapes(self) -> (MemoKey, MemoKey) {
        (self.progress_solver.shape(), self.results.shape())
    }

    /// What the progress solver's table holds.
    pub closed spec fn progress_memo(self) -> Map<MemoKey, Slot> {
        self.progress_solver.memo()
    }

    /// What the solver's own table holds.
    pub closed spec fn memo(self) -> Map<MemoKey, Slot> {
        self.results.cells()
    }

    /// Whether the progress solver inside is allowed what this solver is.
    pub closed spec fn aligned(self) -> bool {
        self.progress_solver.allowance() == self.allowance()
    }

    /// The solver's invariant: the two solvers are allowed the same, and the
    /// two tables are coupled.
    pub open spec fn wf(self) -> bool {
        &&& self.aligned()
        &&& coupled(self.allowance(), self.shapes(), self.progress_memo(), self.memo())
    }

    /// The extent of the table of a solver for the craft of `init`: two
    /// points for the observation flag where observation is allowed, eleven
    /// for inner quiet, five for innovation, four for great strides, nine for
    /// manipulation where it is allowed, one more than the waste-not turns
    /// allowed, three for the touch combo, three for trained perfection, one
    /// for each five of the recipe's durability and one more, and one for
    /// each craft point from none to all.
    pub open spec fn extent(init: CraftingState, mn: bool, wn: usize, obz: bool) -> MemoKey {
        MemoKey {
            observed: if obz {
                2
            } else {
                1
            },
            veneration: 1,
            inner_quiet: 11,
            innovation: 5,
            great_strides: 4,
            manipulation: if mn {
                9
            } else {
                1
            },
            waste_not: (wn + 1) as usize,
            touch_combo: 3,
            perfection: 3,
            quick_innovation: 1,
            durability: (init.recipe.durability / 5 + 1) as usize,
            craft_points: (init.attributes.craft_points + 1) as usize,
        }
    }

    /// Whether a solver can be made for the craft of `init`: the progress
    /// solver can, and the table can be allotted.
    pub open spec fn buildable(init: CraftingState, mn: bool, wn: usize, obz: bool) -> bool {
        &&& ProgressSolver::buildable(init, mn, wn, obz)
        &&& Self::extent(init, mn, wn, obz).allottable()
    }

    /// Computes [`Self::extent`].
    fn extent_of(init: &CraftingState, mn: bool, wn: usize, obz: bool) -> (k: MemoKey)
        requires
            0 <= init.attributes.craft_points <= crate::craft::MAX_ATTRIBUTE,
            wn < usize::MAX,
        ensures
            k == Self::extent(*init, mn, wn, obz),
    {
        MemoKey {
            observed: if obz {
                2
            } else {
                1
            },
            veneration: 1,
            inner_quiet: 11,
            innovation: 5,
            great_strides: 4,
            manipulation: if mn {
                9
            } else {
                1
            },
            waste_not: wn + 1,
            touch_combo: 3,
            perfection: 3,
            quick_innovation: 1,
            durability: (init.recipe.durability / 5) as usize + 1,
            craft_points: init.attributes.craft_points as usize + 1,
        }
    }

    /// Decides [`Self::buildable`].
    pub fn can_build(init: &CraftingState, mn: bool, wn: usize, obz: bool) -> (ok: bool)
        ensures
            ok == Self::buildable(*init, mn, wn, obz),
    {
        ProgressSolver::can_build(init, mn, wn, obz) && Self::extent_of(
            init,
            mn,
            wn,
            obz,
        ).is_allottable()
    }

    /// A solver for the craft of `init_status`, with nothing computed yet.
    pub fn new(init_status: CraftingState, mn: bool, wn: usize, obz: bool) -> (r: Self)
        requires
            Self::buildable(init_status, mn, wn, obz),
        ensures
            r.wf(),
            r.allowance() == (Allowance { mn, wn, obz }),
            r.origin() == init_status,
            r.shapes() == (
                ProgressSolver::extent(init_status, mn, wn, obz),
                Self::extent(init_status, mn, wn, obz),
            ),
            r.progress_memo() == blank_memo(),
            r.memo() == blank_memo(),
    {
        let shape = Self::extent_of(&init_status, mn, wn, obz);
        let progress_solver = ProgressSolver::new(init_status, mn, wn, obz);
        QualitySolver { origin: init_status, progress_solver, mn, wn, obz, results: table_new(&shape) }
    }

    /// Prepares the solver: computes the slot of the state that the solver
    /// was made for, and with it the slots of all that is reached from
    /// there, so that later readings find them. A state outside the domain
    /// has nothing to prepare.
    pub fn init(&mut self)
        requires
            old(self).wf(),
        ensures
            final(self).wf(),
            final(self).allowance() == old(self).allowance(),
            final(self).origin() == old(self).origin(),
            final(self).shapes() == old(self).shapes(),
            (final(self).progress_memo(), final(self).memo()) == if old(self).origin().valid() {
                let found = quality_explore(
                    old(self).allowance(),
                    old(self).shapes(),
                    old(self).progress_memo(),
                    old(self).memo(),
                    old(self).origin(),
                );
                (found.0, found.1)
            } else {
                (old(self).progress_memo(), old(self).memo())
            },
            keeps_slots(old(self).progress_memo(), final(self).progress_memo()),
            keeps_slots(old(self).memo(), final(self).memo()),
    {
        let origin = self.origin;
        if origin.is_valid() {
            let _ = self.inner_read(&origin);
        }
    }

    /// The slot of state `s`, computed and stored where it is not yet there.
    pub fn inner_read(&mut self, s: &CraftingState) -> (r: Slot)
        requires
            old(self).wf(),
            s.valid(),
        ensures
            final(self).wf(),
            final(self).allowance() == old(self).allowance(),
            final(self).origin() == old(self).origin(),
            final(self).shapes() == old(self).shapes(),
            (final(self).progress_memo(), final(self).memo(), r) == quality_explore(
                old(self).allowance(),
                old(self).shapes(),
                old(self).progress_memo(),
                old(self).memo(),
                *s,
            ),
            keeps_slots(old(self).progress_memo(), final(self).progress_memo()),
            keeps_slots(old(self).memo(), final(self).memo()),
            r.is_some,
        decreases s.rank(),
    {
        let ghost cfg = self.allowance();
        let ghost shapes = self.shapes();
        let ghost pm0 = self.progress_memo();
        let ghost qm0 = self.memo();
        proof {
            lemma_quality_explore_coupled(cfg, shapes, pm0, qm0, *s);
        }
        let key = quality_key_of(s);
        match table_get(&self.results, &key) {
            None => {
                return Slot { value: 0, step: 0, action: None, is_some: true };
            },
            Some(slot) => {
                if slot.is_some {
                    return slot;
                }
            },
        }
        if s.durability == 0 {
            let barren = Slot { value: 0, step: 0, action: None, is_some: true };
            table_set(&mut self.results, &key, barren);
            return barren;
        }
        let allowance = Allowance { mn: self.mn, wn: self.wn, obz: self.obz };
        let rank = s.rank_of();
        let mut best = Slot { value: 0, step: 0, action: None, is_some: true };
        let mut i: usize = 0;
        while i < 17
            invariant
                i <= 17,
                s.valid(),
                rank == s.rank(),
                allowance == cfg,
                self.wf(),
                self.allowance() == cfg,
                self.origin() == old(self).origin(),
                self.shapes() == shapes,
                touch_skills().len() == 17,
                quality_scan(cfg, shapes, self.progress_memo(), self.memo(), *s, i as int, best)
                    == quality_scan(cfg, shapes, pm0, qm0, *s, 0, Slot::barren()),
            decreases 17 - i,
        {
            let a = touch_skill(i);
            let mut taken: Option<CraftingState> = None;
            let tried = allowance.permits(a) && (!matches!(a, Action::AdvancedTouch) || matches!(
                s.combo,
                Combo::Observed | Combo::StandardTouched
            ));
            if tried && s.is_action_allowed(a).is_ok() {
                let mut scratch = *s;
                scratch.quality = 0;
                if scratch.is_castable(a) {
                    scratch.cast_action(a);
                    if scratch.is_valid() && scratch.rank_of() < rank {
                        taken = Some(scratch);
                    }
                }
            }
            assert(taken == quality_candidate(cfg, *s, a));
            match taken {
                None => {},
                Some(next) => {
                    let ghost pm1 = self.progress_memo();
                    let left = self.progress_solver.inner_read(&next);
                    proof {
                        lemma_coupled_stays(cfg, shapes, pm1, self.progress_memo(), self.memo());
                    }
                    if left.value as u64 + next.progress as u64 >= next.recipe.difficulty as u64 {
                        let tail = self.inner_read(&next);
                        let value = next.quality.saturating_add(tail.value);
                        let step = 1u16.saturating_add(tail.step);
                        if (value == best.value && step < best.step) || value > best.value {
                            best = Slot { value, step, action: Some(a), is_some: true };
                        }
                    }
                },
            }
            i = i + 1;
        }
        match table_get(&self.results, &key) {
            Some(slot) => {
                if slot.is_some {
                    slot
                } else {
                    table_set(&mut self.results, &key, best);
                    best
                }
            },
            None => best,
        }
    }

    /// The action to take in state `s`, if any.
    pub fn read(&mut self, s: &CraftingState) -> (r: Option<Action>)
        requires
            old(self).wf(),
        ensures
            final(self).wf(),
            final(self).allowance() == old(self).allowance(),
            final(self).origin() == old(self).origin(),
            final(self).shapes() == old(self).shapes(),
            (final(self).progress_memo(), final(self).memo(), r) == quality_read(
                old(self).allowance(),
                old(self).shapes(),
                old(self).progress_memo(),
                old(self).memo(),
                *s,
            ),
            keeps_slots(old(self).progress_memo(), final(self).progress_memo()),
            keeps_slots(old(self).memo(), final(self).memo()),
    {
        let ghost cfg = self.allowance();
        let ghost shapes = self.shapes();
        proof {
            lemma_quality_read_coupled(cfg, shapes, self.progress_memo(), self.memo(), *s);
        }
        if !s.is_valid() || s.is_finished() {
            return None;
        }
        let cap: u32 = if s.quality <= s.recipe.quality {
            s.recipe.quality - s.quality
        } else {
            0
        };
        let first = self.inner_read(s);
        let ghost pm1 = self.progress_memo();
        let ghost qm1 = self.memo();
        let ghost best0 = capped(first, cap);
        let mut best = Slot {
            value: if first.value > cap {
                cap
            } else {
                first.value
            },
            step: first.step,
            action: first.action,
            is_some: true,
        };
        let mut probe = *s;
        probe.buffs = Buffs {
            muscle_memory: 0,
            great_strides: s.buffs.great_strides,
            veneration: 0,
            innovation: s.buffs.innovation,
            inner_quiet: s.buffs.inner_quiet,
            final_appraisal: 0,
            manipulation: s.buffs.manipulation,
            wast_not: s.buffs.wast_not,
            wast_not_ii: s.buffs.wast_not_ii,
            expedience: 0,
            heart_and_soul: 0,
            trained_perfection: s.buffs.trained_perfection,
            stellar_steady_hand: 0,
        };
        let mut cp: i32 = 0;
        while cp <= s.craft_points
            invariant
                0 <= cp <= s.craft_points + 1,
                s.valid(),
                cap == quality_lack(*s),
                self.wf(),
                self.allowance() == cfg,
                self.origin() == old(self).origin(),
                self.shapes() == shapes,
                probe == quality_probe(*s, probe.craft_points, probe.durability),
                quality_sweep(
                    cfg,
                    shapes,
                    self.progress_memo(),
                    self.memo(),
                    *s,
                    cp as int,
                    1,
                    best,
                ) == quality_sweep(cfg, shapes, pm1, qm1, *s, 0, 1, best0),
            decreases s.craft_points - cp + 1,
        {
            let mut du: u16 = 1;
            while du <= s.durability
                invariant
                    0 <= cp <= s.craft_points,
                    1 <= du <= s.durability + 1,
                    s.valid(),
                    cap == quality_lack(*s),
                    self.wf(),
                    self.allowance() == cfg,
                    self.origin() == old(self).origin(),
                    self.shapes() == shapes,
                    probe == quality_probe(*s, probe.craft_points, probe.durability),
                    quality_sweep(
                        cfg,
                        shapes,
                        self.progress_memo(),
                        self.memo(),
                        *s,
                        cp as int,
                        du as int,
                        best,
                    ) == quality_sweep(cfg, shapes, pm1, qm1, *s, 0, 1, best0),
                decreases s.durability - du + 1,
            {
                probe.craft_points = cp;
                probe.durability = du;
                let found = self.inner_read(&probe);
                let value = if found.value > cap {
                    cap
                } else {
                    found.value
                };
                if value >= best.value && found.step < best.step {
                    best = Slot { value, step: found.step, action: found.action, is_some: true };
                }
                du = du + 1;
            }
            cp = cp + 1;
        }
        match best.action {
            Some(a) => Some(a),
            None => self.progress_solver.read(s),
        }
    }

    /// The actions that the solver plays from state `s` on: it reads one,
    /// plays it, and reads again, until none is read or the craft is finished.
    pub fn read_all(&mut self, s: &CraftingState) -> (r: Vec<Action>)
        requires
            old(self).wf(),
        ensures
            final(self).wf(),
            final(self).allowance() == old(self).allowance(),
            final(self).origin() == old(self).origin(),
            final(self).shapes() == old(self).shapes(),
            (final(self).progress_memo(), final(self).memo(), r@) == quality_walk(
                old(self).allowance(),
                old(self).shapes(),
                old(self).progress_memo(),
                old(self).memo(),
                *s,
            ),
            keeps_slots(old(self).progress_memo(), final(self).progress_memo()),
            keeps_slots(old(self).memo(), final(self).memo()),
            playable(*s, r@),
            s.valid() ==> replay(*s, r@).progress <= s.recipe.difficulty,
    {
        let ghost cfg = self.allowance();
        let ghost shapes = self.shapes();
        let ghost whole = quality_walk(cfg, shapes, self.progress_memo(), self.memo(), *s);
        proof {
            lemma_quality_walk_sound(cfg, shapes, self.progress_memo(), self.memo(), *s);
            if s.valid() {
                lemma_playable_stays_valid(*s, whole.2);
            }
        }
        let mut result: Vec<Action> = Vec::new();
        let mut status = *s;
        let mut done = false;
        assert(result@ + whole.2 =~= whole.2);
        while !done
            invariant
                self.wf(),
                self.allowance() == cfg,
                self.origin() == old(self).origin(),
                self.shapes() == shapes,
                done ==> (self.progress_memo(), self.memo(), result@) == whole,
                !done ==> whole.0 == quality_walk(
                    cfg,
                    shapes,
                    self.progress_memo(),
                    self.memo(),
                    status,
                ).0,
                !done ==> whole.1 == quality_walk(
                    cfg,
                    shapes,
                    self.progress_memo(),
                    self.memo(),
                    status,
                ).1,
                !done ==> whole.2 == result@ + quality_walk(
                    cfg,
                    shapes,
                    self.progress_memo(),
                    self.memo(),
                    status,
                ).2,
            decreases
                    (if done {
                        0
                    } else {
                        status.rank() + 1
                    }),
        {
            match self.read(&status) {
                None => {
                    assert(result@ + Seq::<Action>::empty() =~= result@);
                    done = true;
                },
                Some(a) => {
                    match status.try_step(a) {
                        None => {
                            assert(result@ + Seq::<Action>::empty() =~= result@);
                            done = true;
                        },
                        Some(next) => {
                            if next.rank_of() >= status.rank_of() {
                                assert(result@ + Seq::<Action>::empty() =~= result@);
                                done = true;
                            } else {
                                let ghost played = result@;
                                result.push(a);
                                if next.is_finished() {
                                    assert(played + seq![a] =~= result@);
                                    done = true;
                                } else {
                                    let ghost tail = quality_walk(
                                        cfg,
                                        shapes,
                                        self.progress_memo(),
                                        self.memo(),
                                        next,
                                    );
                                    assert(played + (seq![a] + tail.2) =~= result@ + tail.2);
                                }
                                status = next;
                            }
                        },
                    }
                },
            }
        }
        result
    }
}

/// The waste-not turns that [`solve`] allows its solver: what was asked for,
/// or what the state already has, if that is more; and one more.
pub open spec fn solve_waste_not(status: CraftingState, use_waste_not: usize) -> usize {
    let running = status.buffs.waste_not_left() as usize;
    let wanted = if running >= use_waste_not {
        running
    } else {
        use_waste_not
    };
    wanted.saturating_add(1)
}

/// The score of playing `actions` from `s`, with the steps counted as the
/// length of the list.
pub open spec fn played_score(s: CraftingState, actions: Seq<Action>) -> Score {
    let end = simulated(s, actions).0;
    Score { quality: end.quality, prgress: end.progress, steps: actions.len() as u16 }
}

/// What [`solve`] answers: the walk of a fresh quality solver from `status`;
/// or, where the state allows `Reflect` and the walk from the state that
/// `Reflect` leaves, with `Reflect` put before it, does not score lower, that
/// one. Where no solver can be made for the craft, nothing.
pub open spec fn solved(
    status: CraftingState,
    use_manipulation: bool,
    use_waste_not: usize,
    use_observe: bool,
) -> Seq<Action> {
    let mn = use_manipulation || status.buffs.manipulation > 0;
    let wn = solve_waste_not(status, use_waste_not);
    if !QualitySolver::buildable(status, mn, wn, use_observe) {
        Seq::empty()
    } else {
        let cfg = Allowance { mn, wn, obz: use_observe };
        let shapes = (
            ProgressSolver::extent(status, mn, wn, use_observe),
            QualitySolver::extent(status, mn, wn, use_observe),
        );
        let plain = quality_walk(cfg, shapes, blank_memo(), blank_memo(), status);
        match status.step(Action::Reflect) {
            None => plain.2,
            Some(reflected) => {
                let after = quality_walk(cfg, shapes, plain.0, plain.1, reflected);
                let second = if after.2.len() != 0 {
                    seq![Action::Reflect] + after.2
                } else {
                    after.2
                };
                if played_score(status, plain.2).above(played_score(reflected, second)) {
                    plain.2
                } else {
                    second
                }
            },
        }
    }
}

/// Solves the craft from `status` with the quality solver, once as it is and
/// once with `Reflect` as the opening action, and answers with the better of
/// the two.
pub fn solve(
    status: CraftingState,
    use_manipulation: bool,
    use_waste_not: usize,
    use_observe: bool,
) -> (r: Vec<Action>)
    ensures
        r@ == solved(status, use_manipulation, use_waste_not, use_observe),
{
    let mn = use_manipulation || status.buffs.manipulation > 0;
    let running = if status.buffs.wast_not >= status.buffs.wast_not_ii {
        status.buffs.wast_not
    } else {
        status.buffs.wast_not_ii
    } as usize;
    let wanted = if running >= use_waste_not {
        running
    } else {
        use_waste_not
    };
    let wn = wanted.saturating_add(1);
    if !QualitySolver::can_build(&status, mn, wn, use_observe) {
        return Vec::new();
    }
    let mut solver = QualitySolver::new(status, mn, wn, use_observe);
    let result1 = solver.read_all(&status);
    let reflected = match status.try_step(Action::Reflect) {
        None => {
            return result1;
        },
        Some(next) => next,
    };
    let tail = solver.read_all(&reflected);
    let mut result2: Vec<Action> = Vec::new();
    if tail.len() != 0 {
        result2.push(Action::Reflect);
        let mut i: usize = 0;
        while i < tail.len()
            invariant
                i <= tail.len(),
                result2@ == seq![Action::Reflect] + tail@.take(i as int),
            decreases tail.len() - i,
        {
            result2.push(tail[i]);
            assert(tail@.take(i + 1) =~= tail@.take(i as int).push(tail@[i as int]));
            assert(result2@ =~= seq![Action::Reflect] + tail@.take(i + 1));
            i = i + 1;
        }
        assert(tail@.take(tail.len() as int) =~= tail@);
    }
    let ghost second = result2@;
    let ghost first = result1@;
    let len1 = result1.len();
    let len2 = result2.len();
    let end1 = simulate(status, clone_actions(&result1));
    let end2 = simulate(reflected, clone_actions(&result2));
    let score1 = Score { quality: end1.status.quality, prgress: end1.status.progress, steps: len1 as u16 };
    let score2 = Score { quality: end2.status.quality, prgress: end2.status.progress, steps: len2 as u16 };
    if score1.beats(&score2) {
        result1
    } else {
        result2
    }
}

} // verus!
