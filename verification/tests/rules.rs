use app_libs::craft::{
    Action, Attributes, Buffs, CastError, Combo, Condition, CraftingState, Recipe,
};
use app_libs::rules::recipe_level_table;
use app_libs::{
    allowed_list, craftpoints_list, high_quality_probability, new_status, simulate,
};

fn recipe() -> Recipe {
    Recipe {
        rlv: recipe_level_table(620),
        job_level: 90,
        difficulty: 5720,
        quality: 12900,
        durability: 70,
        conditions_flag: 15,
    }
}

fn crafter() -> Attributes {
    Attributes { level: 90, craftsmanship: 4214, control: 3528, craft_points: 691 }
}

fn state() -> CraftingState {
    new_status(crafter(), recipe()).unwrap()
}

#[test]
fn the_level_table_hands_out_the_row_of_the_level() {
    let row = recipe_level_table(620);
    assert_eq!(row.id, 620);
    assert_eq!(row.class_job_level, 90);
    assert_eq!(row.stars, 3);
    assert_eq!(row.suggested_craftsmanship, 3700);
    assert_eq!(row.difficulty, 4400);
    assert_eq!(row.quality, 8600);
    assert_eq!(row.progress_divider, 130);
    assert_eq!(row.quality_divider, 115);
    assert_eq!(row.progress_modifier, 80);
    assert_eq!(row.quality_modifier, 70);
    assert_eq!(row.durability, 70);
    assert_eq!(row.conditions_flag, 15);
    let unknown = recipe_level_table(-3);
    assert_eq!(unknown.id, -3);
    assert_eq!(unknown.progress_divider, 50);
}

#[test]
fn a_fresh_state_starts_full_and_empty() {
    let s = state();
    assert_eq!(s.durability, 70);
    assert_eq!(s.craft_points, 691);
    assert_eq!(s.progress, 0);
    assert_eq!(s.quality, 0);
    assert_eq!(s.step, 0);
    assert_eq!(s.condition, Condition::Normal);
    assert_eq!(s.combo, Combo::Idle);
    assert_eq!(s.buffs, Buffs::default());
    assert!(s.is_valid());
    assert!(!s.is_finished());
}

#[test]
fn a_recipe_far_above_the_crafter_is_refused() {
    let mut low = crafter();
    low.level = 84;
    let err = new_status(low, recipe()).unwrap_err();
    assert_eq!(err, "player-level-lower-than-recipe-requirement");
    low.level = 85;
    assert!(new_status(low, recipe()).is_ok());
    low.level = 255;
    assert!(new_status(low, recipe()).is_ok());
}

#[test]
fn basic_synthesis_moves_the_meters_as_the_simulator_does() {
    let mut s = state();
    s.cast_action(Action::BasicSynthesis);
    // base progress floor((4214 * 10 / 130 + 2) * 0.8) = 260, at 120 percent
    assert_eq!(s.progress, 312);
    assert_eq!(s.durability, 60);
    assert_eq!(s.craft_points, 691);
    assert_eq!(s.step, 1);
    assert_eq!(s.attributes, crafter());
    assert_eq!(s.recipe, recipe());
}

#[test]
fn basic_touch_moves_quality_inner_quiet_and_the_combo() {
    let mut s = state();
    s.cast_action(Action::BasicTouch);
    // base quality floor((3528 * 10 / 115 + 35) * 0.7) = 239
    assert_eq!(s.quality, 239);
    assert_eq!(s.buffs.inner_quiet, 1);
    assert_eq!(s.combo, Combo::BasicTouched);
    assert_eq!(s.craft_points, 691 - 18);
    assert_eq!(s.durability, 60);
}

#[test]
fn each_action_reaches_the_simulator_under_its_own_name() {
    let s = state();
    let costs = [
        (Action::BasicSynthesis, 0),
        (Action::BasicTouch, 18),
        (Action::MastersMend, 88),
        (Action::HastyTouch, 0),
        (Action::RapidSynthesis, 0),
        (Action::Observe, 7),
        (Action::TricksOfTheTrade, 0),
        (Action::WasteNot, 56),
        (Action::Veneration, 18),
        (Action::StandardTouch, 32),
        (Action::GreatStrides, 32),
        (Action::Innovation, 18),
        (Action::FinalAppraisal, 1),
        (Action::WasteNotII, 98),
        (Action::ByregotsBlessing, 24),
        (Action::PreciseTouch, 18),
        (Action::MuscleMemory, 6),
        (Action::CarefulSynthesis, 7),
        (Action::Manipulation, 96),
        (Action::PrudentTouch, 25),
        (Action::AdvancedTouch, 46),
        (Action::Reflect, 6),
        (Action::PreparatoryTouch, 40),
        (Action::Groundwork, 18),
        (Action::DelicateSynthesis, 32),
        (Action::IntensiveSynthesis, 6),
        (Action::TrainedEye, 250),
        (Action::PrudentSynthesis, 18),
        (Action::TrainedFinesse, 32),
        (Action::CarefulObservation, 0),
        (Action::HeartAndSoul, 0),
        (Action::RefinedTouch, 24),
        (Action::DaringTouch, 0),
        (Action::QuickInnovation, 0),
        (Action::ImmaculateMend, 112),
        (Action::TrainedPerfection, 0),
        (Action::StellarSteadyHand, 0),
        (Action::RapidSynthesisFail, 0),
        (Action::HastyTouchFail, 0),
        (Action::DaringTouchFail, 0),
    ];
    for (action, cost) in costs {
        assert_eq!(s.craft_point(action), cost, "{action:?}");
    }
    let list = craftpoints_list(s, costs.iter().map(|c| c.0).collect());
    assert_eq!(list, costs.iter().map(|c| c.1).collect::<Vec<_>>());
}

#[test]
fn actions_that_cost_nothing_are_told_apart_by_what_they_do() {
    let base = state();
    let mut synth = base;
    synth.cast_action(Action::BasicSynthesis);
    assert!(synth.progress > 0 && synth.quality == 0);
    let mut hasty = base;
    hasty.cast_action(Action::HastyTouch);
    assert_eq!((hasty.quality, hasty.buffs.expedience), (239, 1));
    let mut rapid = base;
    rapid.cast_action(Action::RapidSynthesis);
    assert_eq!(rapid.progress, 1300);
    let mut daring = base;
    daring.cast_action(Action::DaringTouch);
    assert_eq!(daring.quality, 358);
    let mut heart = base;
    heart.cast_action(Action::HeartAndSoul);
    assert_eq!((heart.buffs.heart_and_soul, heart.limits.heart_and_soul_used, heart.step), (1, 1, 0));
    let mut observed = base;
    observed.cast_action(Action::CarefulObservation);
    assert_eq!(observed.limits.careful_observation_used, 1);
    let mut quick = base;
    quick.cast_action(Action::QuickInnovation);
    assert_eq!((quick.buffs.innovation, quick.limits.quick_innovation_used), (1, 1));
    let mut perfect = base;
    perfect.cast_action(Action::TrainedPerfection);
    assert_eq!(perfect.limits.trained_perfection_used, 1);
    let mut tricks = base;
    tricks.craft_points = 100;
    tricks.cast_action(Action::TricksOfTheTrade);
    assert_eq!(tricks.craft_points, 120);
    for fail in [Action::RapidSynthesisFail, Action::HastyTouchFail, Action::DaringTouchFail] {
        let mut failed = base;
        failed.cast_action(fail);
        assert_eq!((failed.progress, failed.quality, failed.durability), (0, 0, 60), "{fail:?}");
    }
    let mut steady = base;
    steady.limits.stellar_steady_hand_charged = 1;
    assert!(steady.is_castable(Action::StellarSteadyHand));
    steady.cast_action(Action::StellarSteadyHand);
    assert_eq!(steady.buffs.stellar_steady_hand, 3);
    assert_eq!(steady.limits.stellar_steady_hand_charged, 0);
    assert!(!base.is_castable(Action::StellarSteadyHand));
}

#[test]
fn each_refusal_of_the_simulator_is_handed_on() {
    let s = state();
    assert_eq!(s.is_action_allowed(Action::BasicSynthesis), Ok(()));
    assert_eq!(s.is_action_allowed(Action::ByregotsBlessing), Err(CastError::RequireInnerQuiet1));
    assert_eq!(s.is_action_allowed(Action::TrainedFinesse), Err(CastError::RequireInnerQuiet10));
    assert_eq!(s.is_action_allowed(Action::PreciseTouch), Err(CastError::RequireGoodOrExcellent));
    assert_eq!(s.is_action_allowed(Action::RefinedTouch), Err(CastError::PlayerLevelTooLow));
    assert_eq!(s.is_action_allowed(Action::TrainedEye), Err(CastError::LevelGapMustGreaterThanTen));
    assert_eq!(s.is_action_allowed(Action::DaringTouch), Err(CastError::PlayerLevelTooLow));
    let mut poor = s;
    poor.craft_points = 5;
    assert_eq!(poor.is_action_allowed(Action::BasicTouch), Err(CastError::CraftPointNotEnough));
    let mut broken = s;
    broken.durability = 0;
    assert_eq!(broken.is_action_allowed(Action::BasicTouch), Err(CastError::DurabilityNotEnough));
    let mut done = s;
    done.progress = 5720;
    assert_eq!(done.is_action_allowed(Action::BasicTouch), Err(CastError::CraftingAlreadyFinished));
    let mut later = s;
    later.step = 1;
    assert_eq!(later.is_action_allowed(Action::Reflect), Err(CastError::OnlyAllowedInFirstStep));
    let mut thrifty = s;
    thrifty.buffs.wast_not = 2;
    assert_eq!(
        thrifty.is_action_allowed(Action::PrudentTouch),
        Err(CastError::NotAllowedInWastNotBuff)
    );
    let mut seen = s;
    seen.limits.careful_observation_used = 3;
    assert_eq!(
        seen.is_action_allowed(Action::CarefulObservation),
        Err(CastError::CarefulObservationUsed3)
    );
    let mut spent = s;
    spent.limits.heart_and_soul_used = 1;
    assert_eq!(spent.is_action_allowed(Action::HeartAndSoul), Err(CastError::HeartAndSoulUsed));
    let mut master = s;
    master.attributes.level = 100;
    assert_eq!(
        master.is_action_allowed(Action::DaringTouch),
        Err(CastError::RequireHastyTouchSuccessed)
    );
    assert_eq!(
        master.is_action_allowed(Action::StellarSteadyHand),
        Err(CastError::StellarSteadyHandUsed)
    );
    master.limits.quick_innovation_used = 1;
    assert_eq!(master.is_action_allowed(Action::QuickInnovation), Err(CastError::QuickInnovationUsed));
    master.limits.quick_innovation_used = 0;
    master.buffs.innovation = 2;
    assert_eq!(
        master.is_action_allowed(Action::QuickInnovation),
        Err(CastError::NotAllowedInInnovationBuff)
    );
    master.limits.trained_perfection_used = 1;
    assert_eq!(
        master.is_action_allowed(Action::TrainedPerfection),
        Err(CastError::TrainedPerfectionUsed)
    );
}

#[test]
fn a_state_outside_the_domain_allows_nothing() {
    let mut s = state();
    s.craft_points = -1;
    assert!(!s.is_valid());
    assert_eq!(s.is_action_allowed(Action::BasicSynthesis), Err(CastError::OutOfDomain));
    assert_eq!(s.try_step(Action::BasicSynthesis), None);
    let mut huge = state();
    huge.recipe.difficulty = 65000;
    assert!(!huge.is_valid());
    let mut odd = state();
    odd.recipe.rlv.progress_divider = 0;
    assert!(!odd.is_valid());
    assert_eq!(CastError::OutOfDomain.message(), "state out of the simulated domain");
    assert_eq!(CastError::CraftPointNotEnough.message(), "craft point not enough");
}

#[test]
fn the_allowed_list_names_each_refusal() {
    let list = allowed_list(
        state(),
        vec![Action::BasicSynthesis, Action::ByregotsBlessing, Action::TrainedFinesse],
    );
    assert_eq!(
        list,
        vec!["ok", "require at least 1 stack of inner quiet", "require 10 stack of inner quiet"]
    );
}

#[test]
fn success_rates_follow_the_condition() {
    let mut s = state();
    assert_eq!(s.success_rate(Action::BasicSynthesis), 100);
    assert_eq!(s.success_rate(Action::RapidSynthesis), 50);
    assert_eq!(s.success_rate(Action::HastyTouch), 60);
    assert_eq!(s.success_rate(Action::DaringTouch), 60);
    s.condition = Condition::Centered;
    assert_eq!(s.success_rate(Action::RapidSynthesis), 75);
    assert_eq!(s.success_rate(Action::HastyTouch), 85);
    assert_eq!(s.success_rate(Action::BasicTouch), 100);
    s.buffs.stellar_steady_hand = 1;
    assert_eq!(s.success_rate(Action::RapidSynthesis), 100);
}

#[test]
fn durability_cost_halves_twice_and_vanishes_under_perfection() {
    let mut s = state();
    assert_eq!(s.calc_durability(10), 10);
    assert_eq!(s.calc_durability(5), 5);
    s.buffs.wast_not = 1;
    assert_eq!(s.calc_durability(10), 5);
    assert_eq!(s.calc_durability(5), 3);
    s.condition = Condition::Sturdy;
    assert_eq!(s.calc_durability(20), 5);
    assert_eq!(s.calc_durability(10), 3);
    s.buffs.wast_not = 0;
    s.buffs.wast_not_ii = 3;
    s.condition = Condition::Robust;
    assert_eq!(s.calc_durability(10), 3);
    s.buffs.trained_perfection = 1;
    assert_eq!(s.calc_durability(20), 0);
}

#[test]
fn the_chance_of_high_quality_follows_the_share_of_quality() {
    let mut s = state();
    assert_eq!(high_quality_probability(s), Some(1));
    s.quality = 12900;
    assert_eq!(high_quality_probability(s), Some(100));
    s.quality = 12899;
    assert_eq!(high_quality_probability(s), Some(98));
    s.quality = 12900 * 72 / 100;
    assert_eq!(high_quality_probability(s), Some(34));
    s.quality = 12900 * 2;
    assert_eq!(high_quality_probability(s), None);
    s.quality = 200;
    assert_eq!(high_quality_probability(s), None);
    s.recipe.quality = 0;
    assert_eq!(high_quality_probability(s), None);
}

#[test]
fn simulate_records_each_refusal_with_its_place() {
    let actions = vec![
        Action::ByregotsBlessing,
        Action::BasicTouch,
        Action::TrainedFinesse,
        Action::BasicSynthesis,
    ];
    let end = simulate(state(), actions);
    assert_eq!(end.errors.len(), 2);
    assert_eq!((end.errors[0].pos, end.errors[0].err), (0, CastError::RequireInnerQuiet1));
    assert_eq!((end.errors[1].pos, end.errors[1].err), (2, CastError::RequireInnerQuiet10));
    assert_eq!(end.status.step, 2);
    assert_eq!(end.status.quality, 239);
    assert_eq!(end.status.progress, 312);
    let idle = simulate(state(), Vec::new());
    assert_eq!(idle.status, state());
    assert!(idle.errors.is_empty());
}

#[test]
fn the_rank_falls_with_every_action_of_the_solvers() {
    let s = state();
    for action in [Action::BasicSynthesis, Action::BasicTouch, Action::Veneration, Action::Observe] {
        let next = s.try_step(action).unwrap();
        assert!(next.rank_of() < s.rank_of(), "{action:?}");
    }
}

#[test]
fn the_rank_falls_along_every_walk_through_the_actions_of_the_solvers() {
    let actions = [
        Action::BasicSynthesis,
        Action::WasteNot,
        Action::Veneration,
        Action::WasteNotII,
        Action::CarefulSynthesis,
        Action::Groundwork,
        Action::DelicateSynthesis,
        Action::IntensiveSynthesis,
        Action::PrudentSynthesis,
        Action::Observe,
        Action::TrainedPerfection,
        Action::ImmaculateMend,
        Action::BasicTouch,
        Action::RefinedTouch,
        Action::MastersMend,
        Action::StandardTouch,
        Action::GreatStrides,
        Action::Innovation,
        Action::ByregotsBlessing,
        Action::PrudentTouch,
        Action::PreparatoryTouch,
        Action::AdvancedTouch,
        Action::TrainedFinesse,
        Action::Manipulation,
        Action::QuickInnovation,
        Action::MuscleMemory,
    ];
    let mut start = state();
    start.attributes.level = 100;
    start.recipe.difficulty = 20000;
    start.recipe.quality = 60000;
    start.attributes.craft_points = 900;
    start.craft_points = 900;
    assert!(start.is_valid());
    let mut seed: u64 = 0x2545F4914F6CDD1D;
    let mut steps = 0;
    for condition in [Condition::Normal, Condition::Pliant, Condition::Sturdy, Condition::Primed, Condition::Good] {
        for _ in 0..300 {
            let mut s = start;
            s.condition = condition;
            loop {
                let mut moved = false;
                for _ in 0..40 {
                    seed = seed.wrapping_mul(6364136223846793005).wrapping_add(1442695040888963407);
                    let action = actions[(seed >> 33) as usize % actions.len()];
                    if let Some(next) = s.try_step(action) {
                        assert!(
                            next.rank_of() < s.rank_of(),
                            "{action:?} from {s:?} to {next:?}"
                        );
                        s = next;
                        steps += 1;
                        moved = true;
                        break;
                    }
                }
                if !moved || s.is_finished() {
                    break;
                }
            }
        }
    }
    assert!(steps > 10000, "{steps}");
}

#[test]
fn the_rank_weighs_craft_points_buffs_and_durability() {
    let s = state();
    assert_eq!(s.rank_of(), 69558665286);
    let mut t = s;
    t.craft_points = 100;
    t.buffs.manipulation = 6;
    t.buffs.trained_perfection = 1;
    t.limits.trained_perfection_used = 1;
    t.limits.quick_innovation_used = 1;
    t.durability = 35;
    assert_eq!(t.rank_of(), 10068820003);
}

#[test]
fn the_domain_leaves_room_above_the_difficulty_for_one_synthesis() {
    // ten times 4214 over 130 and three is 327; at 101 percent and one, 331;
    // nineteen times that, 6289, is what one action adds at most
    let mut s = state();
    s.recipe.difficulty = 65535 - 6289;
    assert!(s.is_valid());
    s.recipe.difficulty = 65535 - 6289 + 1;
    assert!(!s.is_valid());
    let mut t = state();
    t.recipe.difficulty = 0;
    assert!(!t.is_valid());
    t = state();
    t.recipe.job_level = 246;
    assert!(!t.is_valid());
    t = state();
    t.buffs.inner_quiet = 11;
    assert!(!t.is_valid());
    t = state();
    t.progress = 5721;
    assert!(!t.is_valid());
    t = state();
    t.step = 60001;
    assert!(!t.is_valid());
    t = state();
    t.quality = 40_000_001;
    assert!(!t.is_valid());
    t = state();
    t.recipe.durability = 60001;
    assert!(!t.is_valid());
    t = state();
    t.limits.heart_and_soul_used = 201;
    assert!(!t.is_valid());
    t = state();
    t.attributes.control = 1_000_001;
    assert!(!t.is_valid());
}
