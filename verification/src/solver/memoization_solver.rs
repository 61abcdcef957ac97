//! The memoised quality solver of the composite solver: for a share of craft
//! points and durability and a set of buffs, how much quality can be added,
//! with no regard to progress.

use crate::craft::{Action, Combo, CraftingState};
use crate::solver::reflect_solver::{keeps_slots, Allowance};
use crate::solver::table::{
    blank_memo, table_get, table_new, table_set, MemoKey, MemoTable, Slot,
};
use vstd::prelude::*;

verus! {

/// The actions that the solver chooses from, in the order in which it tries
/// them.
pub open spec fn touch_actions() -> Seq<Action> {
    seq![
        Action::BasicTouch,
        Action::RefinedTouch,
        Action::StandardTouch,
        Action::AdvancedTouch,
        Action::PrudentTouch,
        Action::PreparatoryTouch,
        Action::TrainedFinesse,
        Action::GreatStrides,
        Action::ByregotsBlessing,
        Action::Observe,
        Action::Manipulation,
        Action::Innovation,
        Action::QuickInnovation,
        Action::WasteNot,
        Action::WasteNotII,
        Action::MastersMend,
        Action::TrainedPerfection,
        Action::ImmaculateMend,
    ]
}

/// The durability that an action of the solver nominally takes.
pub open spec fn nominal_durability(a: Action) -> u16 {
    match a {
        Action::BasicTouch | Action::RefinedTouch | Action::StandardTouch | Action::AdvancedTouch
        | Action::ByregotsBlessing => 10,
        Action::PrudentTouch => 5,
        Action::PreparatoryTouch => 20,
        _ => 0,
    }
}

/// The `i`-th action of [`touch_actions`], with its nominal durability.
fn touch_action(i: usize) -> (r: (Action, u16))
    requires
        i < 18,
    ensures
        r.0 == touch_actions()[i as int],
        r.1 == nominal_durability(r.0),
{
    match i {
        0 => (Action::BasicTouch, 10),
        1 => (Action::RefinedTouch, 10),
        2 => (Action::StandardTouch, 10),
        3 => (Action::AdvancedTouch, 10),
        4 => (Action::PrudentTouch, 5),
        5 => (Action::PreparatoryTouch, 20),
        6 => (Action::TrainedFinesse, 0),
        7 => (Action::GreatStrides, 0),
        8 => (Action::ByregotsBlessing, 10),
        9 => (Action::Observe, 0),
        10 => (Action::Manipulation, 0),
        11 => (Action::Innovation, 0),
        12 => (Action::QuickInnovation, 0),
        13 => (Action::WasteNot, 0),
        14 => (Action::WasteNotII, 0),
        15 => (Action::MastersMend, 0),
        16 => (Action::TrainedPerfection, 0),
        _ => (Action::ImmaculateMend, 0),
    }
}

/// The state that the solver computes with for a share of `cp` craft points
/// and `du` durability: the state it was made for, with that share, and with
/// the buffs, the combo and the usage counters of `from`.
pub open spec fn touch_state(init: CraftingState, cp: i32, du: u16, from: CraftingState)
    -> CraftingState {
    CraftingState {
        craft_points: cp,
        durability: du,
        buffs: from.buffs,
        combo: from.combo,
        limits: from.limits,
        ..init
    }
}

/// The point of the table that a state falls on: as for the quality solver,
/// and with whether quick innovation has been used.
pub open spec fn touch_key(s: CraftingState) -> MemoKey {
    MemoKey {
        observed: if s.combo == Combo::Observed {
            1
        } else {
            0
        },
        veneration: 0,
        inner_quiet: s.buffs.inner_quiet as usize,
        innovation: s.buffs.innovation as usize,
        great_strides: s.buffs.great_strides as usize,
        manipulation: s.buffs.manipulation as usize,
        waste_not: s.buffs.waste_not_left() as usize,
        touch_combo: match s.combo {
            Combo::BasicTouched => 1,
            Combo::StandardTouched => 2,
            _ => 0,
        },
        perfection: s.perfection_stage() as usize,
        quick_innovation: if s.limits.quick_innovation_used > 0 {
            1
        } else {
            0
        },
        durability: (s.durability / 5) as usize,
        craft_points: s.craft_points as usize,
    }
}

/// Computes [`touch_key`].
fn touch_key_of(s: &CraftingState) -> (k: MemoKey)
    requires
        s.valid(),
    ensures
        k == touch_key(*s),
{
    let waste_not = if s.buffs.wast_not >= s.buffs.wast_not_ii {
        s.buffs.wast_not
    } else {
        s.buffs.wast_not_ii
    };
    let perfection: usize = if s.buffs.trained_perfection > 0 {
        1
    } else if s.limits.trained_perfection_used > 0 {
        2
    } else {
        0
    };
    MemoKey {
        observed: if matches!(s.combo, Combo::Observed) {
            1
        } else {
            0
        },
        veneration: 0,
        inner_quiet: s.buffs.inner_quiet as usize,
        innovation: s.buffs.innovation as usize,
        great_strides: s.buffs.great_strides as usize,
        manipulation: s.buffs.manipulation as usize,
        waste_not: waste_not as usize,
        touch_combo: match s.combo {
            Combo::BasicTouched => 1,
            Combo::StandardTouched => 2,
            _ => 0,
        },
        perfection,
        quick_innovation: if s.limits.quick_innovation_used > 0 {
            1
        } else {
            0
        },
        durability: (s.durability / 5) as usize,
        craft_points: s.craft_points as usize,
    }
}

/// Whether the solver tries action `a` in state `s` at all: the durability
/// left covers what the action takes; the state allows the action, and the
/// action cannot fail; the solver may use it; and waste not is not renewed
/// while as many turns of it are left as the action would give.
pub open spec fn touch_tries(cfg: Allowance, s: CraftingState, a: Action) -> bool {
    &&& s.durability >= s.durability_cost(nominal_durability(a))
    &&& s.allows(a)
    &&& s.success_chance(a) >= 100
    &&& a == Action::Manipulation ==> cfg.mn
    &&& a == Action::WasteNotII ==> cfg.wn >= 8 && s.buffs.waste_not_left() < 8
    &&& a == Action::WasteNot ==> cfg.wn >= 4 && s.buffs.waste_not_left() < 4
    &&& a == Action::Observe ==> cfg.obz
}

/// The state that the solver finds when it tries action `a` in state `s`:
/// the action must be one it tries, and the state that the action leaves
/// must lie inside the domain and lower in rank.
pub open spec fn touch_candidate(cfg: Allowance, s: CraftingState, a: Action) -> Option<
    CraftingState,
> {
    if touch_tries(cfg, s, a) && s.castable(a) && s.after(a).valid() && s.same_craft(s.after(a))
        && s.after(a).rank() < s.rank() {
        Some(s.after(a))
    } else {
        None
    }
}

/// The slot that trying action `a` from state `s` proposes, given the state
/// `next` that the action leaves and the slot `tail` of what follows: the
/// quality that the action adds, and with it what follows adds, if anything
/// follows.
pub open spec fn touch_proposal(a: Action, s: CraftingState, next: CraftingState, tail: Slot)
    -> Slot {
    let gain = next.quality.saturating_sub(s.quality);
    if tail.action is Some {
        Slot {
            value: gain.saturating_add(tail.value),
            step: 1u16.saturating_add(tail.step),
            action: Some(a),
            is_some: true,
        }
    } else {
        Slot { value: gain, step: 1, action: Some(a), is_some: true }
    }
}

/// Whether `proposal` replaces `best`: it adds more, or the same in fewer
/// steps.
pub open spec fn touch_improves(proposal: Slot, best: Slot) -> bool {
    proposal.value > best.value || (proposal.value == best.value && proposal.step < best.step)
}

/// The solver's pass over its actions from the `i`-th on, for state `s`,
/// with `best` the best slot found so far: the table as the pass leaves it,
/// and the best slot at its end.
pub open spec fn touch_scan(
    cfg: Allowance,
    shape: MemoKey,
    init: CraftingState,
    memo: Map<MemoKey, Slot>,
    s: CraftingState,
    i: int,
    best: Slot,
) -> (Map<MemoKey, Slot>, Slot)
    decreases s.rank(), 0nat, touch_actions().len() - i,
{
    if i < 0 || i >= touch_actions().len() {
        (memo, best)
    } else {
        let a = touch_actions()[i];
        match touch_candidate(cfg, s, a) {
            None => touch_scan(cfg, shape, init, memo, s, i + 1, best),
            Some(next) => {
                let found = touch_explore(
                    cfg,
                    shape,
                    init,
                    memo,
                    touch_state(init, next.craft_points, next.durability, next),
                );
                let proposal = touch_proposal(a, s, next, found.1);
                let better = if touch_improves(proposal, best) {
                    proposal
                } else {
                    best
                };
                touch_scan(cfg, shape, init, found.0, s, i + 1, better)
            },
        }
    }
}

/// The solver's answer for state `s` on a table that holds `memo`: the table
/// as the computation leaves it, and the slot of the state. A state outside
/// the domain, or one whose point lies outside the table, has the barren
/// slot and is not stored. A slot that is there is the answer. Otherwise the
/// answer is computed, by a pass over the actions, and stored, unless the
/// pass itself has filled the slot.
pub open spec fn touch_explore(
    cfg: Allowance,
    shape: MemoKey,
    init: CraftingState,
    memo: Map<MemoKey, Slot>,
    s: CraftingState,
) -> (Map<MemoKey, Slot>, Slot)
    decreases s.rank(), 1nat, 0nat,
{
    let key = touch_key(s);
    if !s.valid() || !key.within(shape) {
        (memo, Slot::barren())
    } else if memo[key].is_some {
        (memo, memo[key])
    } else {
        let scanned = touch_scan(cfg, shape, init, memo, s, 0, Slot::barren());
        if scanned.0[key].is_some {
            (scanned.0, scanned.0[key])
        } else {
            (scanned.0.insert(key, scanned.1), scanned.1)
        }
    }
}

/// A pass changes no computed slot of the table, and ends with a computed
/// slot if it began with one.
pub proof fn lemma_touch_scan_keeps_slots(
    cfg: Allowance,
    shape: MemoKey,
    init: CraftingState,
    memo: Map<MemoKey, Slot>,
    s: CraftingState,
    i: int,
    best: Slot,
)
    requires
        best.is_some,
    ensures
        keeps_slots(memo, touch_scan(cfg, shape, init, memo, s, i, best).0),
        touch_scan(cfg, shape, init, memo, s, i, best).1.is_some,
    decreases s.rank(), 0nat, touch_actions().len() - i,
{
    if 0 <= i < touch_actions().len() {
        let a = touch_actions()[i];
        match touch_candidate(cfg, s, a) {
            None => {
                lemma_touch_scan_keeps_slots(cfg, shape, init, memo, s, i + 1, best);
            },
            Some(next) => {
                let probe = touch_state(init, next.craft_points, next.durability, next);
                let found = touch_explore(cfg, shape, init, memo, probe);
                lemma_touch_explore_keeps_slots(cfg, shape, init, memo, probe);
                let proposal = touch_proposal(a, s, next, found.1);
                let better = if touch_improves(proposal, best) {
                    proposal
                } else {
                    best
                };
                lemma_touch_scan_keeps_slots(cfg, shape, init, found.0, s, i + 1, better);
            },
        }
    }
}

/// Memoisation is pure: computing the slot of a state changes no slot that
/// was computed before, and the slot it answers with is a computed one.
pub proof fn lemma_touch_explore_keeps_slots(
    cfg: Allowance,
    shape: MemoKey,
    init: CraftingState,
    memo: Map<MemoKey, Slot>,
    s: CraftingState,
)
    ensures
        keeps_slots(memo, touch_explore(cfg, shape, init, memo, s).0),
        touch_explore(cfg, shape, init, memo, s).1.is_some,
    decreases s.rank(), 1nat, 0nat,
{
    let key = touch_key(s);
    if s.valid() && key.within(shape) && !memo[key].is_some {
        lemma_touch_scan_keeps_slots(cfg, shape, init, memo, s, 0, Slot::barren());
    }
}

/// The memoised quality solver.
pub struct Solver {
    init_status: CraftingState,
    allow_mn: bool,
    allow_wn: usize,
    allow_obz: bool,
    touch_caches: MemoTable,
}

impl Solver {
    /// What the solver may use.
    pub closed spec fn allowance(self) -> Allowance {
        Allowance { mn: self.allow_mn, wn: self.allow_wn, obz: self.allow_obz }
    }

    /// The state that the solver was made for.
    pub closed spec fn origin(self) -> CraftingState {
        self.init_status
    }

    /// The extent of the solver's table.
    pub closed spec fn shape(self) -> MemoKey {
        self.touch_caches.shape()
    }

    /// What the solver's table holds.
    pub closed spec fn memo(self) -> Map<MemoKey, Slot> {
        self.touch_caches.cells()
    }

    /// The extent of the table of a solver for the craft of `init`: as for
    /// the quality solver, with two points for quick innovation.
    pub open spec fn extent(init: CraftingState, mn: bool, wn: usize, obz: bool) -> MemoKey {
        MemoKey {
            observed: if obz {
                2
            } else {
                1
            },
            veneration: 1,
            inner_quiet: 11,
            innovation: 5,
            great_strides: 4,
            manipulation: if mn {
                9
            } else {
                1
            },
            waste_not: (wn + 1) as usize,
            touch_combo: 3,
            perfection: 3,
            quick_innovation: 2,
            durability: (init.recipe.durability / 5 + 1) as usize,
            craft_points: (init.attributes.craft_points + 1) as usize,
        }
    }

    /// Whether a solver can be made for the craft of `init`: the crafter has
    /// a craft point budget of the domain, and the table can be allotted.
    pub open spec fn buildable(init: CraftingState, mn: bool, wn: usize, obz: bool) -> bool {
        &&& 0 <= init.attributes.craft_points <= crate::craft::MAX_ATTRIBUTE
        &&& wn < usize::MAX
        &&& Self::extent(init, mn, wn, obz).allottable()
    }

    /// Computes [`Self::extent`].
    fn extent_of(init: &CraftingState, mn: bool, wn: usize, obz: bool) -> (k: MemoKey)
        requires
            0 <= init.attributes.craft_points <= crate::craft::MAX_ATTRIBUTE,
            wn < usize::MAX,
        ensures
            k == Self::extent(*init, mn, wn, obz),
    {
        MemoKey {
            observed: if obz {
                2
            } else {
                1
            },
            veneration: 1,
            inner_quiet: 11,
            innovation: 5,
            great_strides: 4,
            manipulation: if mn {
                9
            } else {
                1
            },
            waste_not: wn + 1,
            touch_combo: 3,
            perfection: 3,
            quick_innovation: 2,
            durability: (init.recipe.durability / 5) as usize + 1,
            craft_points: init.attributes.craft_points as usize + 1,
        }
    }

    /// Decides [`Self::buildable`].
    pub fn can_build(init: &CraftingState, mn: bool, wn: usize, obz: bool) -> (ok: bool)
        ensures
            ok == Self::buildable(*init, mn, wn, obz),
    {
        if 0 <= init.attributes.craft_points && init.attributes.craft_points
            <= crate::craft::MAX_ATTRIBUTE && wn < usize::MAX {
            Self::extent_of(init, mn, wn, obz).is_allottable()
        } else {
            false
        }
    }

    /// A solver for the craft of `init_status`, with nothing computed yet.
    pub fn new(init_status: CraftingState, mn: bool, wn: usize, obz: bool) -> (r: Self)
        requires
            Self::buildable(init_status, mn, wn, obz),
        ensures
            r.allowance() == (Allowance { mn, wn, obz }),
            r.origin() == init_status,
            r.shape() == Self::extent(init_status, mn, wn, obz),
            r.memo() == blank_memo(),
    {
        let shape = Self::extent_of(&init_status, mn, wn, obz);
        Solver {
            init_status,
            allow_mn: mn,
            allow_wn: wn,
            allow_obz: obz,
            touch_caches: table_new(&shape),
        }
    }

    /// The state that the solver was made for.
    pub fn origin_state(&self) -> (r: CraftingState)
        ensures
            r == self.origin(),
    {
        self.init_status
    }

    /// The slot of the share of `craft_points` and `durability`, with the
    /// buffs, the combo and the usage counters of `from`: computed and stored
    /// where it is not yet there.
    pub fn next_touch(&mut self, craft_points: i32, durability: u16, from: &CraftingState) -> (r:
        Slot)
        ensures
            final(self).allowance() == old(self).allowance(),
            final(self).origin() == old(self).origin(),
            final(self).shape() == old(self).shape(),
            (final(self).memo(), r) == touch_explore(
                old(self).allowance(),
                old(self).shape(),
                old(self).origin(),
                old(self).memo(),
                touch_state(old(self).origin(), craft_points, durability, *from),
            ),
            keeps_slots(old(self).memo(), final(self).memo()),
            r.is_some,
        decreases touch_state(old(self).origin(), craft_points, durability, *from).rank(),
    {
        let ghost cfg = self.allowance();
        let ghost shape = self.shape();
        let ghost init = self.origin();
        let ghost memo0 = self.memo();
        let mut curr = self.init_status;
        curr.craft_points = craft_points;
        curr.durability = durability;
        curr.buffs = from.buffs;
        curr.combo = from.combo;
        curr.limits = from.limits;
        assert(curr == touch_state(init, craft_points, durability, *from));
        proof {
            lemma_touch_explore_keeps_slots(cfg, shape, init, memo0, curr);
        }
        if !curr.is_valid() {
            return Slot { value: 0, step: 0, action: None, is_some: true };
        }
        let key = touch_key_of(&curr);
        match table_get(&self.touch_caches, &key) {
            None => {
                return Slot { value: 0, step: 0, action: None, is_some: true };
            },
            Some(slot) => {
                if slot.is_some {
                    return slot;
                }
            },
        }
        let allowance = Allowance { mn: self.allow_mn, wn: self.allow_wn, obz: self.allow_obz };
        let rank = curr.rank_of();
        let waste_not = if curr.buffs.wast_not >= curr.buffs.wast_not_ii {
            curr.buffs.wast_not
        } else {
            curr.buffs.wast_not_ii
        };
        let mut best = Slot { value: 0, step: 0, action: None, is_some: true };
        let mut i: usize = 0;
        while i < 18
            invariant
                i <= 18,
                curr.valid(),
                curr == touch_state(init, craft_points, durability, *from),
                rank == curr.rank(),
                waste_not == curr.buffs.waste_not_left(),
                allowance == cfg,
                self.allowance() == cfg,
                self.shape() == shape,
                self.origin() == init,
                touch_actions().len() == 18,
                touch_scan(cfg, shape, init, self.memo(), curr, i as int, best) == touch_scan(
                    cfg,
                    shape,
                    init,
                    memo0,
                    curr,
                    0,
                    Slot::barren(),
                ),
            decreases 18 - i,
        {
            let (a, nominal) = touch_action(i);
            let tried = curr.durability >= curr.calc_durability(nominal) && curr.is_action_allowed(
                a,
            ).is_ok() && curr.success_rate(a) >= 100 && match a {
                Action::Manipulation => allowance.mn,
                Action::WasteNotII => allowance.wn >= 8 && waste_not < 8,
                Action::WasteNot => allowance.wn >= 4 && waste_not < 4,
                Action::Observe => allowance.obz,
                _ => true,
            };
            assert(tried == touch_tries(cfg, curr, a));
            let mut taken: Option<CraftingState> = None;
            if tried && curr.is_castable(a) {
                let mut next = curr;
                next.cast_action(a);
                if next.is_valid() && next.rank_of() < rank {
                    taken = Some(next);
                }
            }
            assert(taken == touch_candidate(cfg, curr, a));
            match taken {
                None => {},
                Some(next) => {
                    assert(touch_state(init, next.craft_points, next.durability, next).rank()
                        == next.rank());
                    let tail = self.next_touch(next.craft_points, next.durability, &next);
                    let gain = next.quality.saturating_sub(curr.quality);
                    let proposal = if tail.action.is_some() {
                        Slot {
                            value: gain.saturating_add(tail.value),
                            step: 1u16.saturating_add(tail.step),
                            action: Some(a),
                            is_some: true,
                        }
                    } else {
                        Slot { value: gain, step: 1, action: Some(a), is_some: true }
                    };
                    if proposal.value > best.value || (proposal.value == best.value
                        && proposal.step < best.step) {
                        best = proposal;
                    }
                },
            }
            i = i + 1;
        }
        match table_get(&self.touch_caches, &key) {
            Some(slot) => {
                if slot.is_some {
                    slot
                } else {
                    table_set(&mut self.touch_caches, &key, best);
                    best
                }
            },
            None => best,
        }
    }
}

} // verus!
