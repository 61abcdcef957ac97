use app_libs::analyzer::rand_simulations::{stat, stat_collectables, CollectablesShopRefine};
use app_libs::craft::{Action, Attributes, CraftingState, Recipe};
use app_libs::rules::recipe_level_table;
use app_libs::new_status;

fn init() -> CraftingState {
    let recipe = Recipe {
        rlv: recipe_level_table(620),
        job_level: 90,
        difficulty: 5720,
        quality: 12900,
        durability: 70,
        conditions_flag: 15,
    };
    let attributes = Attributes { level: 90, craftsmanship: 4214, control: 3528, craft_points: 691 };
    new_status(attributes, recipe).unwrap()
}

#[test]
fn monte_carlo_counts_add_up_for_a_legal_action() {
    let status = init();
    assert!(status.is_valid());
    let actions = vec![Action::BasicSynthesis];
    let s = stat(status, &actions, 10000, false);
    assert_eq!(s.errors, 0);
    assert_eq!(s.unfinished + s.fails + s.normal + s.highqual, 10000);
    assert_eq!(s.unfinished, 10000);
}

#[test]
fn monte_carlo_of_no_trials_counts_nothing() {
    let s = stat(init(), &vec![Action::BasicSynthesis], 0, false);
    assert_eq!(s.errors + s.unfinished + s.fails + s.normal + s.highqual, 0);
}

#[test]
fn monte_carlo_counts_refusals_as_errors() {
    let actions = vec![Action::ByregotsBlessing];
    let strict = stat(init(), &actions, 50, false);
    assert_eq!(strict.errors, 50);
    let lenient = stat(init(), &actions, 50, true);
    assert_eq!(lenient.errors, 0);
    assert_eq!(lenient.unfinished, 50);
}

#[test]
fn collectable_counts_add_up() {
    let tiers = CollectablesShopRefine { low_collectability: 1, mid_collectability: 2, high_collectability: 3 };
    let actions = vec![Action::BasicTouch, Action::BasicSynthesis];
    let s = stat_collectables(init(), &actions, 200, false, tiers);
    let sum = s.errors + s.unfinished + s.fails + s.no_collectability + s.low_collectability
        + s.middle_collectability + s.high_collectability;
    assert_eq!(sum, 200);
    assert_eq!(s.unfinished, 200);
}

#[test]
fn the_roll_for_high_quality_decides_about_a_third_of_the_time() {
    let mut status = init();
    status.progress = 5720 - 300;
    status.quality = 12900 * 72 / 100;
    let actions = vec![Action::BasicSynthesis];
    let s = stat(status, &actions, 2000, false);
    assert_eq!(s.errors + s.unfinished + s.fails, 0);
    assert_eq!(s.normal + s.highqual, 2000);
    // the chance of high quality at 72 percent of the quality is 34 percent
    assert!(500 < s.highqual && s.highqual < 860, "{s:?}");
}

#[test]
fn a_craft_that_breaks_counts_as_failed() {
    let mut status = init();
    status.durability = 10;
    let s = stat(status, &vec![Action::BasicSynthesis], 30, false);
    assert_eq!(s.fails, 30);
    let tiers = CollectablesShopRefine::default();
    let c = stat_collectables(status, &vec![Action::BasicSynthesis], 30, false, tiers);
    assert_eq!(c.fails, 30);
}

#[test]
fn completed_crafts_fall_into_the_highest_tier_they_reach() {
    let mut status = init();
    status.progress = 5720 - 300;
    let actions = vec![Action::BasicSynthesis];
    let tiers = CollectablesShopRefine { low_collectability: 100, mid_collectability: 200, high_collectability: 300 };
    for (quality, bucket) in [(990, 0), (1000, 1), (1999, 1), (2000, 2), (2999, 2), (3000, 3), (12900, 3)] {
        status.quality = quality;
        let s = stat_collectables(status, &actions, 5, false, tiers);
        let seen = [s.no_collectability, s.low_collectability, s.middle_collectability, s.high_collectability];
        let mut expected = [0; 4];
        expected[bucket] = 5;
        assert_eq!(seen, expected, "{quality}");
    }
    status.quality = 12900;
    let none = stat_collectables(status, &actions, 5, false, CollectablesShopRefine::default());
    assert_eq!(none.no_collectability, 5);
}
