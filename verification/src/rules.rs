//! What a crafting state allows, costs and becomes: the verified face of the
//! simulator. Every answer here is either computed by a rule of a few lines
//! that this module states in full, or is the simulator's own answer, asked
//! for only inside the domain of [`CraftingState::valid`].

use crate::craft::{Action, CastError, Condition, CraftingState, RecipeLevel};
use crate::engine::{
    cast_result, check_result, craft_point_cost, engine_cast, engine_check, engine_craft_point,
    engine_hq_chance, engine_level_row, hq_chance, level_row,
};
use vstd::prelude::*;

verus! {

impl CraftingState {
    /// What the state answers when asked for action `a`: outside the domain
    /// nothing is allowed; inside it the simulator decides.
    pub open spec fn rejection(self, a: Action) -> Result<(), CastError> {
        if self.valid() {
            check_result(self, a)
        } else {
            Err(CastError::OutOfDomain)
        }
    }

    /// Whether the state allows action `a`.
    pub open spec fn allows(self, a: Action) -> bool {
        self.rejection(a) is Ok
    }

    /// Whether the simulator can be asked to apply action `a`: the state is in
    /// the domain, and a charge is there for the one action that takes one.
    pub open spec fn castable(self, a: Action) -> bool {
        &&& self.valid()
        &&& a == Action::StellarSteadyHand ==> self.limits.stellar_steady_hand_charged >= 1
    }

    /// Whether `other` is a state of the same craft: the same crafter at the
    /// same recipe.
    pub open spec fn same_craft(self, other: CraftingState) -> bool {
        other.attributes == self.attributes && other.recipe == self.recipe
    }

    /// The state that action `a` leaves.
    pub open spec fn after(self, a: Action) -> CraftingState {
        cast_result(self, a)
    }

    /// What comes of trying action `a`: the refusal, if the state does not
    /// allow it; the next state, if it does and the next state lies in the
    /// domain again; `OutOfDomain` otherwise.
    pub open spec fn attempt(self, a: Action) -> Result<CraftingState, CastError> {
        match self.rejection(a) {
            Err(e) => Err(e),
            Ok(_) => if self.castable(a) && self.after(a).valid() && self.same_craft(
                self.after(a),
            ) {
                Ok(self.after(a))
            } else {
                Err(CastError::OutOfDomain)
            },
        }
    }

    /// The next state, where trying action `a` succeeds.
    pub open spec fn step(self, a: Action) -> Option<CraftingState> {
        match self.attempt(a) {
            Ok(next) => Some(next),
            Err(_) => None,
        }
    }

    /// The chance, in percent, that action `a` succeeds.
    pub open spec fn success_chance(self, a: Action) -> u8 {
        if self.buffs.stellar_steady_hand > 0 {
            100
        } else {
            let bonus: u8 = if self.condition == Condition::Centered {
                25
            } else {
                0
            };
            match a {
                Action::HastyTouch | Action::DaringTouch => (bonus + 60) as u8,
                Action::RapidSynthesis => (bonus + 50) as u8,
                _ => 100,
            }
        }
    }

    /// The durability that an action of nominal cost `cost` takes: half, the
    /// odd unit staying, under a sturdy condition; half again under waste
    /// not; nothing while trained perfection is active.
    pub open spec fn durability_cost(self, cost: u16) -> u16 {
        let sturdy = self.condition == Condition::Sturdy || self.condition == Condition::Robust;
        let first: u16 = if sturdy {
            (cost - cost / 2) as u16
        } else {
            cost
        };
        let second: u16 = if self.buffs.wast_not > 0 || self.buffs.wast_not_ii > 0 {
            (first - first / 2) as u16
        } else {
            first
        };
        if self.buffs.trained_perfection > 0 {
            0
        } else {
            second
        }
    }

    /// The chance of a high-quality result, in percent: the simulator's
    /// answer, where the quality meter and the recipe's target admit the
    /// question, and none where the recipe has no quality to reach.
    pub open spec fn hq_percent(self) -> Option<i32> {
        if self.quality <= 40_000_000 && self.recipe.quality >= 1 {
            hq_chance(self)
        } else {
            None
        }
    }

    /// Asks whether action `a` is allowed.
    pub fn is_action_allowed(&self, a: Action) -> (r: Result<(), CastError>)
        ensures
            r == self.rejection(a),
    {
        if self.is_valid() {
            engine_check(self, a)
        } else {
            Err(CastError::OutOfDomain)
        }
    }

    /// Decides [`Self::castable`].
    pub fn is_castable(&self, a: Action) -> (ok: bool)
        ensures
            ok == self.castable(a),
    {
        self.is_valid() && (!matches!(a, Action::StellarSteadyHand)
            || self.limits.stellar_steady_hand_charged >= 1)
    }

    /// Applies action `a` in place. Whether the state allows the action is
    /// not looked at.
    pub fn cast_action(&mut self, a: Action)
        requires
            old(self).castable(a),
        ensures
            *final(self) == old(self).after(a),
            final(self).attributes == old(self).attributes,
            final(self).recipe == old(self).recipe,
    {
        let next = engine_cast(self, a);
        *self = next;
    }

    /// Tries action `a` and hands back what comes of it.
    pub fn try_action(&self, a: Action) -> (r: Result<CraftingState, CastError>)
        ensures
            r == self.attempt(a),
            r matches Ok(next) ==> next.valid() && next.attributes == self.attributes
                && next.recipe == self.recipe,
    {
        match self.is_action_allowed(a) {
            Err(e) => Err(e),
            Ok(_) => {
                if self.is_castable(a) {
                    let next = engine_cast(self, a);
                    if next.is_valid() {
                        Ok(next)
                    } else {
                        Err(CastError::OutOfDomain)
                    }
                } else {
                    Err(CastError::OutOfDomain)
                }
            },
        }
    }

    /// The next state, where trying action `a` succeeds.
    pub fn try_step(&self, a: Action) -> (r: Option<CraftingState>)
        ensures
            r == self.step(a),
            r matches Some(next) ==> next.valid() && next.attributes == self.attributes
                && next.recipe == self.recipe && self.valid(),
    {
        match self.try_action(a) {
            Ok(next) => Some(next),
            Err(_) => None,
        }
    }

    /// The craft points that action `a` costs in this state.
    pub fn craft_point(&self, a: Action) -> (r: i32)
        ensures
            r == craft_point_cost(*self, a),
            0 <= r <= 250,
    {
        engine_craft_point(self, a)
    }

    /// Computes [`Self::success_chance`].
    pub fn success_rate(&self, a: Action) -> (r: u8)
        ensures
            r == self.success_chance(a),
            r <= 100,
    {
        if self.buffs.stellar_steady_hand > 0 {
            return 100;
        }
        let bonus: u8 = if matches!(self.condition, Condition::Centered) {
            25
        } else {
            0
        };
        match a {
            Action::HastyTouch | Action::DaringTouch => bonus + 60,
            Action::RapidSynthesis => bonus + 50,
            _ => 100,
        }
    }

    /// Computes [`Self::durability_cost`].
    pub fn calc_durability(&self, cost: u16) -> (r: u16)
        ensures
            r == self.durability_cost(cost),
            r <= cost,
    {
        let mut reduce: u16 = cost;
        if matches!(self.condition, Condition::Sturdy | Condition::Robust) {
            reduce = reduce - reduce / 2;
        }
        if self.buffs.wast_not > 0 || self.buffs.wast_not_ii > 0 {
            reduce = reduce - reduce / 2;
        }
        if self.buffs.trained_perfection > 0 {
            reduce = 0;
        }
        reduce
    }

    /// Computes [`Self::hq_percent`].
    pub fn high_quality_probability(&self) -> (r: Option<i32>)
        ensures
            r == self.hq_percent(),
    {
        if self.quality <= 40_000_000 && self.recipe.quality >= 1 {
            engine_hq_chance(self)
        } else {
            None
        }
    }
}

/// The state that is reached from `s` by applying `actions` in order, none
/// of them looked at for whether it is allowed.
pub open spec fn replay(s: CraftingState, actions: Seq<Action>) -> CraftingState
    decreases actions.len(),
{
    if actions.len() == 0 {
        s
    } else {
        replay(s, actions.drop_last()).after(actions.last())
    }
}

/// Whether `actions` can be played from `s` one after the other: each is
/// allowed where it is played and leaves a state of the domain.
pub open spec fn playable(s: CraftingState, actions: Seq<Action>) -> bool
    decreases actions.len(),
{
    if actions.len() == 0 {
        true
    } else {
        playable(s, actions.drop_last()) && replay(s, actions.drop_last()).step(actions.last())
            is Some
    }
}

/// Playing one more action: what [`replay`] and [`playable`] say of a
/// sequence with `a` at its end.
pub proof fn lemma_replay_push(s: CraftingState, actions: Seq<Action>, a: Action)
    ensures
        replay(s, actions.push(a)) == replay(s, actions).after(a),
        playable(s, actions.push(a)) == (playable(s, actions) && replay(s, actions).step(a)
            is Some),
{
    assert(actions.push(a).drop_last() =~= actions);
}

/// Playing an action first: what follows is played from the state that the
/// action leaves.
pub proof fn lemma_playable_prepend(s: CraftingState, a: Action, rest: Seq<Action>)
    requires
        s.step(a) is Some,
        playable(s.step(a).unwrap(), rest),
    ensures
        playable(s, seq![a] + rest),
        replay(s, seq![a] + rest) == replay(s.step(a).unwrap(), rest),
    decreases rest.len(),
{
    let whole = seq![a] + rest;
    if rest.len() == 0 {
        let none = Seq::<Action>::empty();
        assert(whole.drop_last() =~= none);
        assert(whole.last() == a);
        assert(playable(s, none));
        assert(replay(s, none) == s);
        assert(replay(s.step(a).unwrap(), rest) == s.step(a).unwrap());
        assert(replay(s, whole) == replay(s, whole.drop_last()).after(whole.last()));
    } else {
        lemma_playable_prepend(s, a, rest.drop_last());
        assert(whole.drop_last() =~= seq![a] + rest.drop_last());
        assert(whole.last() == rest.last());
    }
}

/// A playable sequence ends inside the domain, with the recipe it began
/// with; so its progress is never above the recipe's difficulty.
pub proof fn lemma_playable_stays_valid(s: CraftingState, actions: Seq<Action>)
    requires
        s.valid(),
        playable(s, actions),
    ensures
        replay(s, actions).valid(),
        s.same_craft(replay(s, actions)),
        replay(s, actions).progress <= s.recipe.difficulty,
    decreases actions.len(),
{
    if actions.len() > 0 {
        lemma_playable_stays_valid(s, actions.drop_last());
    }
}

/// The row of the recipe level table for level `rlv`.
pub fn recipe_level_table(rlv: i32) -> (r: RecipeLevel)
    ensures
        r == level_row(rlv),
        r.id == rlv,
{
    engine_level_row(rlv)
}

} // verus!
