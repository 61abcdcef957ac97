use app_libs::analyzer::rand_simulations::{simulation, Statistics};
use app_libs::craft::{Action, Attributes, CastError, Condition, CraftingState, Recipe};
use app_libs::rules::recipe_level_table;
use app_libs::simulation::settle;
use app_libs::{new_status, simulate_one_step};

fn state() -> CraftingState {
    let recipe = Recipe {
        rlv: recipe_level_table(620),
        job_level: 90,
        difficulty: 5720,
        quality: 12900,
        durability: 70,
        conditions_flag: 15,
    };
    let attributes = Attributes { level: 90, craftsmanship: 4214, control: 3528, craft_points: 691 };
    new_status(attributes, recipe).unwrap()
}

#[test]
fn a_roll_below_the_chance_succeeds_and_one_at_it_fails() {
    let s = state();
    let won = settle(&s, Action::RapidSynthesis, false, 49, None).unwrap();
    assert!(won.is_success);
    assert_eq!(won.status.progress, 1300);
    let lost = settle(&s, Action::RapidSynthesis, false, 50, None).unwrap();
    assert!(!lost.is_success);
    assert_eq!(lost.status.progress, 0);
    assert_eq!(lost.status.durability, 60);
    let forced = settle(&s, Action::RapidSynthesis, true, 99, None).unwrap();
    assert!(forced.is_success);
    let hasty = settle(&s, Action::HastyTouch, false, 60, None).unwrap();
    assert!(!hasty.is_success);
    assert_eq!(hasty.status.quality, 0);
    let sure = settle(&s, Action::BasicSynthesis, false, 99, None).unwrap();
    assert!(sure.is_success);
}

#[test]
fn the_condition_moves_on_after_an_action() {
    let mut s = state();
    s.condition = Condition::Good;
    let next = settle(&s, Action::BasicSynthesis, false, 0, Some(Condition::Excellent)).unwrap();
    assert_eq!(next.status.condition, Condition::Normal);
    s.condition = Condition::Excellent;
    let next = settle(&s, Action::BasicSynthesis, false, 0, Some(Condition::Good)).unwrap();
    assert_eq!(next.status.condition, Condition::Poor);
    let next = settle(&s, Action::BasicSynthesis, true, 0, Some(Condition::Good)).unwrap();
    assert_eq!(next.status.condition, Condition::Good);
    s.condition = Condition::GoodOmen;
    let next = settle(&s, Action::BasicSynthesis, false, 0, Some(Condition::Poor)).unwrap();
    assert_eq!(next.status.condition, Condition::Good);
    s.condition = Condition::Normal;
    let next = settle(&s, Action::BasicSynthesis, false, 0, Some(Condition::Poor)).unwrap();
    assert_eq!(next.status.condition, Condition::Poor);
    let next = settle(&s, Action::BasicSynthesis, false, 0, None).unwrap();
    assert_eq!(next.status.condition, Condition::Normal);
    s.condition = Condition::Good;
    let next = settle(&s, Action::FinalAppraisal, false, 0, Some(Condition::Poor)).unwrap();
    assert_eq!(next.status.condition, Condition::Good);
}

#[test]
fn a_refused_step_changes_nothing() {
    let s = state();
    assert_eq!(
        settle(&s, Action::ByregotsBlessing, false, 0, None),
        Err(CastError::RequireInnerQuiet1)
    );
    let mut live = s;
    assert_eq!(
        simulate_one_step(&mut live, Action::ByregotsBlessing, false),
        Err(CastError::RequireInnerQuiet1)
    );
    assert_eq!(live, s);
}

#[test]
fn a_drawn_step_lands_on_a_condition_of_the_recipe() {
    let mut changed = 0;
    for _ in 0..200 {
        let mut live = state();
        assert_eq!(simulate_one_step(&mut live, Action::BasicSynthesis, false), Ok(true));
        assert_eq!(live.progress, 312);
        assert!(matches!(
            live.condition,
            Condition::Normal | Condition::Good | Condition::Excellent | Condition::Poor
        ));
        if live.condition != Condition::Normal {
            changed += 1;
        }
    }
    assert!(changed > 0);
}

#[test]
fn rapid_synthesis_both_succeeds_and_fails_over_many_draws() {
    let mut won = 0;
    let mut lost = 0;
    for _ in 0..400 {
        let mut live = state();
        match simulate_one_step(&mut live, Action::RapidSynthesis, false) {
            Ok(true) => {
                assert_eq!(live.progress, 1300);
                won += 1;
            }
            Ok(false) => {
                assert_eq!(live.progress, 0);
                lost += 1;
            }
            Err(e) => panic!("{e:?}"),
        }
    }
    assert!(won > 100 && lost > 100, "{won} {lost}");
}

#[test]
fn a_trial_stops_at_a_refusal_unless_told_to_pass_it_over() {
    let s = state();
    let actions = vec![Action::BasicTouch, Action::TrainedFinesse, Action::BasicSynthesis];
    let rolls = vec![0, 0, 0];
    let draws = vec![None, None, None];
    assert_eq!(
        simulation(&s, &actions, false, &rolls, &draws),
        Err(CastError::RequireInnerQuiet10)
    );
    let end = simulation(&s, &actions, true, &rolls, &draws).unwrap();
    assert_eq!((end.quality, end.progress, end.step), (239, 312, 2));
}

#[test]
fn a_trial_ends_where_the_craft_is_finished() {
    let mut s = state();
    s.durability = 10;
    let actions = vec![Action::BasicSynthesis, Action::BasicSynthesis];
    let end = simulation(&s, &actions, false, &vec![0, 0], &vec![None, None]).unwrap();
    assert_eq!((end.durability, end.step, end.progress), (0, 1, 312));
}

#[test]
fn each_outcome_falls_into_its_bucket() {
    let zero = Statistics::default();
    let s = state();
    let refused = zero.record(&Err(CastError::CraftPointNotEnough), 0);
    assert_eq!(refused, Statistics { errors: 1, ..zero });
    let under_way = zero.record(&Ok(s), 0);
    assert_eq!(under_way, Statistics { unfinished: 1, ..zero });
    let mut broken = s;
    broken.durability = 0;
    assert_eq!(zero.record(&Ok(broken), 0), Statistics { fails: 1, ..zero });
    let mut done = s;
    done.progress = 5720;
    done.quality = 12900 * 72 / 100;
    assert_eq!(zero.record(&Ok(done), 33), Statistics { highqual: 1, ..zero });
    assert_eq!(zero.record(&Ok(done), 34), Statistics { normal: 1, ..zero });
    done.quality = 200;
    assert_eq!(zero.record(&Ok(done), 0), Statistics { errors: 1, ..zero });
}
