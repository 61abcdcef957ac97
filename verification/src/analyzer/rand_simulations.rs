//! Outcome statistics of a fixed action list under random rolls.
//!
//! A trial plays the list once from the initial state, each action with a
//! roll for its success and a draw for the condition that follows. The
//! trials are classified into buckets that exclude each other, and counted.

use crate::craft::{Action, CastError, Condition, CraftingState};
use crate::engine::{draw_condition, draw_percent};
use crate::simulation::{settle, settled};
use vstd::prelude::*;

verus! {

/// Counts of trials by how they ended.
#[derive(Clone, Copy, Debug, PartialEq, Eq, Structural)]
pub struct Statistics {
    /// Trials in which an action was refused, or whose result has no chance
    /// of high quality defined.
    pub errors: i32,
    /// Trials whose craft was still under way when the list ended.
    pub unfinished: i32,
    /// Trials that ended short of the recipe's difficulty.
    pub fails: i32,
    /// Trials that completed, with a result of normal quality.
    pub normal: i32,
    /// Trials that completed, with a result of high quality.
    pub highqual: i32,
}

/// Counts of trials by how they ended, for a recipe that is turned in for
/// its collectability.
#[derive(Clone, Copy, Debug, PartialEq, Eq, Structural)]
pub struct CollectableStatistics {
    /// Trials in which an action was refused.
    pub errors: i32,
    /// Trials whose craft was still under way when the list ended.
    pub unfinished: i32,
    /// Trials that ended short of the recipe's difficulty.
    pub fails: i32,
    /// Trials that completed below the first tier.
    pub no_collectability: i32,
    /// Trials that completed in the first tier.
    pub low_collectability: i32,
    /// Trials that completed in the second tier.
    pub middle_collectability: i32,
    /// Trials that completed in the third tier.
    pub high_collectability: i32,
}

/// The collectability at which each tier begins; a tier that begins at zero
/// does not exist.
#[derive(Clone, Copy, Debug, PartialEq, Eq, Structural)]
pub struct CollectablesShopRefine {
    pub low_collectability: u32,
    pub mid_collectability: u32,
    pub high_collectability: u32,
}

impl Default for Statistics {
    fn default() -> (r: Statistics)
        ensures
            r == (Statistics { errors: 0, unfinished: 0, fails: 0, normal: 0, highqual: 0 }),
    {
        Statistics { errors: 0, unfinished: 0, fails: 0, normal: 0, highqual: 0 }
    }
}

impl Default for CollectableStatistics {
    fn default() -> (r: CollectableStatistics)
        ensures
            r == (CollectableStatistics {
                errors: 0,
                unfinished: 0,
                fails: 0,
                no_collectability: 0,
                low_collectability: 0,
                middle_collectability: 0,
                high_collectability: 0,
            }),
    {
        CollectableStatistics {
            errors: 0,
            unfinished: 0,
            fails: 0,
            no_collectability: 0,
            low_collectability: 0,
            middle_collectability: 0,
            high_collectability: 0,
        }
    }
}

impl Default for CollectablesShopRefine {
    fn default() -> (r: CollectablesShopRefine)
        ensures
            r == (CollectablesShopRefine {
                low_collectability: 0,
                mid_collectability: 0,
                high_collectability: 0,
            }),
    {
        CollectablesShopRefine {
            low_collectability: 0,
            mid_collectability: 0,
            high_collectability: 0,
        }
    }
}

impl Statistics {
    /// The number of trials counted.
    pub open spec fn total(self) -> int {
        self.errors + self.unfinished + self.fails + self.normal + self.highqual
    }

    /// Whether no count is negative.
    pub open spec fn counted(self) -> bool {
        self.errors >= 0 && self.unfinished >= 0 && self.fails >= 0 && self.normal >= 0
            && self.highqual >= 0
    }

    /// The counts with one more trial, which ended in `outcome` and whose
    /// roll for high quality was `roll`. A refused action is an error. A
    /// craft still under way is unfinished. A finished craft short of the
    /// recipe's difficulty has failed. A completed one is of high quality if
    /// its chance of high quality is above the roll, of normal quality if
    /// not, and an error if it has no such chance.
    pub open spec fn with_trial(self, outcome: Result<CraftingState, CastError>, roll: i32)
        -> Statistics {
        match outcome {
            Err(_) => Statistics { errors: (self.errors + 1) as i32, ..self },
            Ok(end) => if !end.finished() {
                Statistics { unfinished: (self.unfinished + 1) as i32, ..self }
            } else if end.progress < end.recipe.difficulty {
                Statistics { fails: (self.fails + 1) as i32, ..self }
            } else {
                match end.hq_percent() {
                    None => Statistics { errors: (self.errors + 1) as i32, ..self },
                    Some(p) => if p > roll {
                        Statistics { highqual: (self.highqual + 1) as i32, ..self }
                    } else {
                        Statistics { normal: (self.normal + 1) as i32, ..self }
                    },
                }
            },
        }
    }

    /// Counts one more trial.
    pub fn record(self, outcome: &Result<CraftingState, CastError>, roll: i32) -> (r: Statistics)
        requires
            self.counted(),
            self.total() < i32::MAX,
        ensures
            r == self.with_trial(*outcome, roll),
            r.counted(),
            r.total() == self.total() + 1,
    {
        let mut next = self;
        match outcome {
            Err(_) => {
                next.errors = next.errors + 1;
            },
            Ok(end) => {
                if !end.is_finished() {
                    next.unfinished = next.unfinished + 1;
                } else if end.progress < end.recipe.difficulty {
                    next.fails = next.fails + 1;
                } else {
                    match end.high_quality_probability() {
                        None => {
                            next.errors = next.errors + 1;
                        },
                        Some(p) => {
                            if p > roll {
                                next.highqual = next.highqual + 1;
                            } else {
                                next.normal = next.normal + 1;
                            }
                        },
                    }
                }
            },
        }
        next
    }
}

impl CollectableStatistics {
    /// The number of trials counted.
    pub open spec fn total(self) -> int {
        self.errors + self.unfinished + self.fails + self.no_collectability
            + self.low_collectability + self.middle_collectability + self.high_collectability
    }

    /// Whether no count is negative.
    pub open spec fn counted(self) -> bool {
        self.errors >= 0 && self.unfinished >= 0 && self.fails >= 0 && self.no_collectability >= 0
            && self.low_collectability >= 0 && self.middle_collectability >= 0
            && self.high_collectability >= 0
    }

    /// The counts with one more trial, which ended in `outcome`. A completed
    /// craft falls into the highest tier that exists and that its
    /// collectability, a tenth of its quality, reaches.
    pub open spec fn with_trial(
        self,
        outcome: Result<CraftingState, CastError>,
        tiers: CollectablesShopRefine,
    ) -> CollectableStatistics {
        match outcome {
            Err(_) => CollectableStatistics { errors: (self.errors + 1) as i32, ..self },
            Ok(end) => if !end.finished() {
                CollectableStatistics { unfinished: (self.unfinished + 1) as i32, ..self }
            } else if end.progress < end.recipe.difficulty {
                CollectableStatistics { fails: (self.fails + 1) as i32, ..self }
            } else {
                let collectability = end.quality / 10;
                if tiers.high_collectability > 0 && collectability >= tiers.high_collectability {
                    CollectableStatistics {
                        high_collectability: (self.high_collectability + 1) as i32,
                        ..self
                    }
                } else if tiers.mid_collectability > 0 && collectability
                    >= tiers.mid_collectability {
                    CollectableStatistics {
                        middle_collectability: (self.middle_collectability + 1) as i32,
                        ..self
                    }
                } else if tiers.low_collectability > 0 && collectability
                    >= tiers.low_collectability {
                    CollectableStatistics {
                        low_collectability: (self.low_collectability + 1) as i32,
                        ..self
                    }
                } else {
                    CollectableStatistics {
                        no_collectability: (self.no_collectability + 1) as i32,
                        ..self
                    }
                }
            },
        }
    }

    /// Counts one more trial.
    pub fn record(
        self,
        outcome: &Result<CraftingState, CastError>,
        tiers: &CollectablesShopRefine,
    ) -> (r: CollectableStatistics)
        requires
            self.counted(),
            self.total() < i32::MAX,
        ensures
            r == self.with_trial(*outcome, *tiers),
            r.counted(),
            r.total() == self.total() + 1,
    {
        let mut next = self;
        match outcome {
            Err(_) => {
                next.errors = next.errors + 1;
            },
            Ok(end) => {
                if !end.is_finished() {
                    next.unfinished = next.unfinished + 1;
                } else if end.progress < end.recipe.difficulty {
                    next.fails = next.fails + 1;
                } else {
                    let collectability = end.quality / 10;
                    if tiers.high_collectability > 0 && collectability
                        >= tiers.high_collectability {
                        next.high_collectability = next.high_collectability + 1;
                    } else if tiers.mid_collectability > 0 && collectability
                        >= tiers.mid_collectability {
                        next.middle_collectability = next.middle_collectability + 1;
                    } else if tiers.low_collectability > 0 && collectability
                        >= tiers.low_collectability {
                        next.low_collectability = next.low_collectability + 1;
                    } else {
                        next.no_collectability = next.no_collectability + 1;
                    }
                }
            },
        }
        next
    }
}

/// What one trial comes to, from its `i`-th action on, with the rolls and the
/// conditions drawn for each action: the state at the end, or the first
/// refusal. With `ignore_errors` a refused action is passed over. The trial
/// ends with the list, or as soon as the craft is finished.
pub open spec fn trial_from(
    s: CraftingState,
    actions: Seq<Action>,
    ignore_errors: bool,
    rolls: Seq<i32>,
    draws: Seq<Option<Condition>>,
    i: int,
) -> Result<CraftingState, CastError>
    decreases actions.len() - i,
{
    if i < 0 || i >= actions.len() {
        Ok(s)
    } else {
        match settled(s, actions[i], false, rolls[i], draws[i]) {
            Err(e) => if !ignore_errors {
                Err(e)
            } else if s.finished() {
                Ok(s)
            } else {
                trial_from(s, actions, ignore_errors, rolls, draws, i + 1)
            },
            Ok(step) => if step.status.finished() {
                Ok(step.status)
            } else {
                trial_from(step.status, actions, ignore_errors, rolls, draws, i + 1)
            },
        }
    }
}

/// Plays one trial with the rolls and the conditions that were drawn for it.
pub fn simulation(
    s: &CraftingState,
    actions: &Vec<Action>,
    ignore_errors: bool,
    rolls: &Vec<i32>,
    draws: &Vec<Option<Condition>>,
) -> (r: Result<CraftingState, CastError>)
    requires
        rolls.len() == actions.len(),
        draws.len() == actions.len(),
    ensures
        r == trial_from(*s, actions@, ignore_errors, rolls@, draws@, 0),
{
    let mut status = *s;
    let mut i: usize = 0;
    while i < actions.len()
        invariant
            i <= actions.len(),
            rolls.len() == actions.len(),
            draws.len() == actions.len(),
            trial_from(status, actions@, ignore_errors, rolls@, draws@, i as int) == trial_from(
                *s,
                actions@,
                ignore_errors,
                rolls@,
                draws@,
                0,
            ),
        decreases actions.len() - i,
    {
        match settle(&status, actions[i], false, rolls[i], draws[i]) {
            Err(e) => {
                if !ignore_errors {
                    return Err(e);
                }
            },
            Ok(step) => {
                status = step.status;
            },
        }
        if status.is_finished() {
            return Ok(status);
        }
        i = i + 1;
    }
    Ok(status)
}

/// What was drawn for one trial: a roll and a condition for each action,
/// and the roll for high quality.
pub struct Drawn {
    pub rolls: Seq<i32>,
    pub draws: Seq<Option<Condition>>,
    pub quality_roll: i32,
}

/// Whether `drawn` is something that can be drawn for a trial of `count`
/// actions: a roll and a condition for each action, every roll below one
/// hundred.
pub open spec fn drawable(drawn: Drawn, count: nat) -> bool {
    &&& drawn.rolls.len() == count
    &&& drawn.draws.len() == count
    &&& forall|i: int| 0 <= i < count ==> 0 <= #[trigger] drawn.rolls[i] < 100
    &&& 0 <= drawn.quality_roll < 100
}

/// The counts of the first `k` of the trials that `drawn` was drawn for.
pub open spec fn tallied(
    status: CraftingState,
    actions: Seq<Action>,
    ignore_errors: bool,
    drawn: Seq<Drawn>,
    k: int,
) -> Statistics
    decreases k,
{
    if k <= 0 {
        Statistics { errors: 0, unfinished: 0, fails: 0, normal: 0, highqual: 0 }
    } else {
        tallied(status, actions, ignore_errors, drawn, k - 1).with_trial(
            trial_from(
                status,
                actions,
                ignore_errors,
                drawn[k - 1].rolls,
                drawn[k - 1].draws,
                0,
            ),
            drawn[k - 1].quality_roll,
        )
    }
}

/// The counts, by the tiers of collectability, of the first `k` of the
/// trials that `drawn` was drawn for.
pub open spec fn tallied_collectables(
    status: CraftingState,
    actions: Seq<Action>,
    ignore_errors: bool,
    tiers: CollectablesShopRefine,
    drawn: Seq<Drawn>,
    k: int,
) -> CollectableStatistics
    decreases k,
{
    if k <= 0 {
        CollectableStatistics {
            errors: 0,
            unfinished: 0,
            fails: 0,
            no_collectability: 0,
            low_collectability: 0,
            middle_collectability: 0,
            high_collectability: 0,
        }
    } else {
        tallied_collectables(status, actions, ignore_errors, tiers, drawn, k - 1).with_trial(
            trial_from(
                status,
                actions,
                ignore_errors,
                drawn[k - 1].rolls,
                drawn[k - 1].draws,
                0,
            ),
            tiers,
        )
    }
}

/// Draws what one trial of `count` actions needs: a roll and a condition for
/// each action.
fn draw_trial(status: &CraftingState, count: usize) -> (r: (Vec<i32>, Vec<Option<Condition>>))
    ensures
        r.0.len() == count,
        r.1.len() == count,
        forall|i: int| 0 <= i < count ==> 0 <= #[trigger] r.0[i] < 100,
{
    let mut rolls: Vec<i32> = Vec::new();
    let mut draws: Vec<Option<Condition>> = Vec::new();
    let mut i: usize = 0;
    while i < count
        invariant
            i <= count,
            rolls.len() == i,
            draws.len() == i,
            forall|j: int| 0 <= j < i ==> 0 <= #[trigger] rolls[j] < 100,
        decreases count - i,
    {
        rolls.push(draw_percent());
        draws.push(draw_condition(status));
        i = i + 1;
    }
    (rolls, draws)
}

/// Plays `n` trials of `actions` from `status` and counts how they end. The
/// counts are those of `n` trials, each with something that can be drawn for
/// it; they add up to `n`.
pub fn stat(status: CraftingState, actions: &Vec<Action>, n: usize, ignore_errors: bool) -> (r:
    Statistics)
    requires
        n <= i32::MAX,
    ensures
        r.counted(),
        r.total() == n,
        exists|drawn: Seq<Drawn>|
            {
                &&& drawn.len() == n
                &&& forall|k: int| 0 <= k < n ==> drawable(#[trigger] drawn[k], actions@.len())
                &&& r == tallied(status, actions@, ignore_errors, drawn, n as int)
            },
{
    let mut statistics = Statistics::default();
    let mut done: usize = 0;
    let ghost mut drawn: Seq<Drawn> = Seq::empty();
    while done < n
        invariant
            done <= n,
            n <= i32::MAX,
            statistics.counted(),
            statistics.total() == done,
            drawn.len() == done,
            forall|k: int| 0 <= k < done ==> drawable(#[trigger] drawn[k], actions@.len()),
            statistics == tallied(status, actions@, ignore_errors, drawn, done as int),
        decreases n - done,
    {
        let (rolls, draws) = draw_trial(&status, actions.len());
        let outcome = simulation(&status, actions, ignore_errors, &rolls, &draws);
        let quality_roll = draw_percent();
        let ghost before = drawn;
        proof {
            drawn = drawn.push(Drawn { rolls: rolls@, draws: draws@, quality_roll });
            lemma_tallied_prefix(status, actions@, ignore_errors, before, drawn, done as int);
        }
        statistics = statistics.record(&outcome, quality_roll);
        done = done + 1;
    }
    statistics
}

/// Plays `n` trials of `actions` from `status` and counts how they end, by
/// the tiers of collectability. The counts are those of `n` trials, each
/// with something that can be drawn for it; they add up to `n`.
pub fn stat_collectables(
    status: CraftingState,
    actions: &Vec<Action>,
    n: usize,
    ignore_errors: bool,
    collectables_shop_refine: CollectablesShopRefine,
) -> (r: CollectableStatistics)
    requires
        n <= i32::MAX,
    ensures
        r.counted(),
        r.total() == n,
        exists|drawn: Seq<Drawn>|
            {
                &&& drawn.len() == n
                &&& forall|k: int| 0 <= k < n ==> drawable(#[trigger] drawn[k], actions@.len())
                &&& r == tallied_collectables(
                    status,
                    actions@,
                    ignore_errors,
                    collectables_shop_refine,
                    drawn,
                    n as int,
                )
            },
{
    let mut statistics = CollectableStatistics::default();
    let mut done: usize = 0;
    let ghost mut drawn: Seq<Drawn> = Seq::empty();
    while done < n
        invariant
            done <= n,
            n <= i32::MAX,
            statistics.counted(),
            statistics.total() == done,
            drawn.len() == done,
            forall|k: int| 0 <= k < done ==> drawable(#[trigger] drawn[k], actions@.len()),
            statistics == tallied_collectables(
                status,
                actions@,
                ignore_errors,
                collectables_shop_refine,
                drawn,
                done as int,
            ),
        decreases n - done,
    {
        let (rolls, draws) = draw_trial(&status, actions.len());
        let outcome = simulation(&status, actions, ignore_errors, &rolls, &draws);
        let ghost before = drawn;
        proof {
            drawn = drawn.push(Drawn { rolls: rolls@, draws: draws@, quality_roll: 0 });
            lemma_tallied_collectables_prefix(
                status,
                actions@,
                ignore_errors,
                collectables_shop_refine,
                before,
                drawn,
                done as int,
            );
        }
        statistics = statistics.record(&outcome, &collectables_shop_refine);
        done = done + 1;
    }
    statistics
}

/// The counts of the first trials do not depend on what was drawn for later
/// ones.
pub proof fn lemma_tallied_prefix(
    status: CraftingState,
    actions: Seq<Action>,
    ignore_errors: bool,
    shorter: Seq<Drawn>,
    longer: Seq<Drawn>,
    k: int,
)
    requires
        k <= shorter.len() <= longer.len(),
        forall|i: int| 0 <= i < shorter.len() ==> shorter[i] == longer[i],
    ensures
        tallied(status, actions, ignore_errors, shorter, k) == tallied(
            status,
            actions,
            ignore_errors,
            longer,
            k,
        ),
    decreases k,
{
    if k > 0 {
        lemma_tallied_prefix(status, actions, ignore_errors, shorter, longer, k - 1);
    }
}

/// The counts of the first trials, by the tiers of collectability, do not
/// depend on what was drawn for later ones.
pub proof fn lemma_tallied_collectables_prefix(
    status: CraftingState,
    actions: Seq<Action>,
    ignore_errors: bool,
    tiers: CollectablesShopRefine,
    shorter: Seq<Drawn>,
    longer: Seq<Drawn>,
    k: int,
)
    requires
        k <= shorter.len() <= longer.len(),
        forall|i: int| 0 <= i < shorter.len() ==> shorter[i] == longer[i],
    ensures
        tallied_collectables(status, actions, ignore_errors, tiers, shorter, k)
            == tallied_collectables(status, actions, ignore_errors, tiers, longer, k),
    decreases k,
{
    if k > 0 {
        lemma_tallied_collectables_prefix(
            status,
            actions,
            ignore_errors,
            tiers,
            shorter,
            longer,
            k - 1,
        );
    }
}

} // verus!
