use app_libs::craft::{
    Action, Attributes, Buffs, Combo, Condition, CraftingState, Limits, Recipe,
};
use app_libs::new_status;
use app_libs::rules::recipe_level_table;

fn state() -> CraftingState {
    let recipe = Recipe {
        rlv: recipe_level_table(620),
        job_level: 90,
        difficulty: 5720,
        quality: 12900,
        durability: 70,
        conditions_flag: 15,
    };
    let attributes = Attributes { level: 90, craftsmanship: 4214, control: 3528, craft_points: 691 };
    new_status(attributes, recipe).unwrap()
}

#[test]
fn every_field_crosses_to_the_simulator_and_back_in_its_own_place() {
    let mut s = state();
    s.buffs = Buffs {
        muscle_memory: 3,
        great_strides: 2,
        veneration: 4,
        innovation: 1,
        inner_quiet: 5,
        final_appraisal: 7,
        manipulation: 6,
        wast_not: 9,
        wast_not_ii: 8,
        expedience: 10,
        heart_and_soul: 11,
        trained_perfection: 12,
        stellar_steady_hand: 13,
    };
    s.limits = Limits {
        careful_observation_used: 1,
        quick_innovation_used: 2,
        heart_and_soul_used: 3,
        trained_perfection_used: 4,
        stellar_steady_hand_charged: 5,
    };
    s.combo = Combo::BasicTouched;
    s.durability = 33;
    s.craft_points = 444;
    s.progress = 555;
    s.quality = 6666;
    s.step = 7;
    s.condition = Condition::Poor;
    assert!(s.is_valid());
    let mut next = s;
    next.cast_action(Action::Observe);
    assert_eq!(
        next.buffs,
        Buffs {
            muscle_memory: 2,
            great_strides: 1,
            veneration: 3,
            innovation: 0,
            inner_quiet: 5,
            final_appraisal: 6,
            manipulation: 5,
            wast_not: 8,
            wast_not_ii: 7,
            expedience: 9,
            heart_and_soul: 11,
            trained_perfection: 12,
            stellar_steady_hand: 12,
        }
    );
    assert_eq!(next.limits, s.limits);
    assert_eq!(next.combo, Combo::Observed);
    assert_eq!(next.durability, 38);
    assert_eq!(next.craft_points, 437);
    assert_eq!(next.progress, 555);
    assert_eq!(next.quality, 6666);
    assert_eq!(next.step, 8);
    assert_eq!(next.condition, Condition::Poor);
    assert_eq!(next.attributes, s.attributes);
    assert_eq!(next.recipe, s.recipe);
}

#[test]
fn the_level_row_and_the_attributes_reach_the_simulator() {
    let base = state();
    let mut s = base;
    s.cast_action(Action::BasicSynthesis);
    assert_eq!(s.progress, 312);
    let mut divided = base;
    divided.recipe.rlv.progress_divider = 65;
    divided.cast_action(Action::BasicSynthesis);
    // floor((4214 * 10 / 65 + 2) * 0.8) = 520, at 120 percent
    assert_eq!(divided.progress, 624);
    let mut modified = base;
    modified.recipe.rlv.progress_modifier = 100;
    modified.cast_action(Action::BasicSynthesis);
    // floor(4214 * 10 / 130 + 2) = 326, at 120 percent
    assert_eq!(modified.progress, 391);
    let mut above = base;
    above.recipe.job_level = 89;
    above.cast_action(Action::BasicSynthesis);
    assert_eq!(above.progress, 391);
    let mut skilled = base;
    skilled.attributes.craftsmanship = 2 * 4214;
    skilled.cast_action(Action::BasicSynthesis);
    // floor((8428 * 10 / 130 + 2) * 0.8) = 520
    assert_eq!(skilled.progress, 624);
    let mut touch = base;
    touch.recipe.rlv.quality_divider = 230;
    touch.cast_action(Action::BasicTouch);
    // floor((3528 * 10 / 230 + 35) * 0.7) = 131
    assert_eq!(touch.quality, 131);
    let mut refined = base;
    refined.recipe.rlv.quality_modifier = 100;
    refined.attributes.control = 1150;
    refined.cast_action(Action::BasicTouch);
    // floor(1150 * 10 / 115 + 35) = 135
    assert_eq!(refined.quality, 135);
    let mut young = base;
    young.attributes.level = 85;
    young.cast_action(Action::Groundwork);
    // groundwork is at 300 percent below level 86
    assert_eq!(young.progress, 780);
    let mut capped = base;
    capped.recipe.difficulty = 300;
    capped.cast_action(Action::BasicSynthesis);
    assert_eq!(capped.progress, 300);
    let mut fine = base;
    fine.recipe.quality = 200;
    fine.cast_action(Action::BasicTouch);
    assert_eq!(fine.quality, 200);
    let mut mended = base;
    mended.durability = 10;
    mended.recipe.durability = 35;
    mended.cast_action(Action::MastersMend);
    assert_eq!(mended.durability, 35);
}

#[test]
fn each_condition_reaches_the_simulator_as_itself() {
    let base = state();
    for condition in [
        Condition::Normal,
        Condition::Good,
        Condition::Excellent,
        Condition::Poor,
        Condition::Centered,
        Condition::Sturdy,
        Condition::Pliant,
        Condition::Malleable,
        Condition::Primed,
        Condition::GoodOmen,
        Condition::Robust,
    ] {
        let mut s = base;
        s.condition = condition;
        let cost = s.craft_point(Action::BasicTouch);
        let mut touched = s;
        touched.cast_action(Action::BasicTouch);
        let mut built = s;
        built.cast_action(Action::BasicSynthesis);
        let mut buffed = s;
        buffed.cast_action(Action::Veneration);
        let seen = (cost, touched.quality, touched.durability, built.progress, buffed.buffs.veneration);
        let expected = match condition {
            Condition::Normal | Condition::Centered | Condition::GoodOmen => (18, 239, 60, 312, 4),
            Condition::Good => (18, 358, 60, 312, 4),
            Condition::Excellent => (18, 956, 60, 312, 4),
            Condition::Poor => (18, 119, 60, 312, 4),
            Condition::Sturdy | Condition::Robust => (18, 239, 65, 312, 4),
            Condition::Pliant => (9, 239, 60, 312, 4),
            Condition::Malleable => (18, 239, 60, 468, 4),
            Condition::Primed => (18, 239, 60, 312, 6),
        };
        assert_eq!(seen, expected, "{condition:?}");
        assert_eq!(touched.condition, condition);
    }
}

#[test]
fn each_combo_reaches_the_simulator_as_itself() {
    let base = state();
    for (combo, standard, advanced) in [
        (Combo::Idle, 32, 46),
        (Combo::Observed, 32, 18),
        (Combo::BasicTouched, 18, 46),
        (Combo::StandardTouched, 32, 18),
    ] {
        let mut s = base;
        s.combo = combo;
        assert_eq!(s.craft_point(Action::StandardTouch), standard, "{combo:?}");
        assert_eq!(s.craft_point(Action::AdvancedTouch), advanced, "{combo:?}");
    }
    let mut chain = base;
    chain.cast_action(Action::BasicTouch);
    assert_eq!(chain.combo, Combo::BasicTouched);
    chain.cast_action(Action::StandardTouch);
    assert_eq!(chain.combo, Combo::StandardTouched);
    chain.cast_action(Action::AdvancedTouch);
    assert_eq!(chain.combo, Combo::Idle);
    chain.cast_action(Action::Observe);
    assert_eq!(chain.combo, Combo::Observed);
}

#[test]
fn the_defaults_are_empty() {
    let buffs = Buffs::default();
    assert_eq!(buffs.inner_quiet + buffs.manipulation + buffs.veneration, 0);
    assert_eq!(Limits::default().stellar_steady_hand_charged, 0);
}
