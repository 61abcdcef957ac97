use app_libs::craft::{Attributes, CraftingState, Recipe};
use app_libs::new_status;
use app_libs::rules::recipe_level_table;
use app_libs::solver::Score;
use std::cmp::Ordering;

fn score(prgress: u16, quality: u32, steps: u16) -> Score {
    Score { quality, prgress, steps }
}

#[test]
fn more_progress_wins_whatever_else() {
    assert!(score(10, 0, 99) > score(9, 1000, 1));
    assert!(score(10, 0, 99).beats(&score(9, 1000, 1)));
    assert!(!score(9, 1000, 1).beats(&score(10, 0, 99)));
}

#[test]
fn equal_progress_is_decided_by_quality() {
    assert!(score(10, 5, 99) > score(10, 4, 1));
    assert!(score(10, 4, 1) < score(10, 5, 99));
}

#[test]
fn equal_progress_and_quality_are_decided_by_fewer_steps() {
    assert!(score(10, 5, 3) > score(10, 5, 4));
    assert!(score(10, 5, 4) < score(10, 5, 3));
    assert_eq!(score(10, 5, 4).partial_cmp(&score(10, 5, 3)), Some(Ordering::Less));
}

#[test]
fn equal_scores_compare_equal() {
    assert_eq!(score(10, 5, 3).partial_cmp(&score(10, 5, 3)), Some(Ordering::Equal));
    assert!(!(score(10, 5, 3) > score(10, 5, 3)));
    assert!(!(score(10, 5, 3) < score(10, 5, 3)));
    assert!(score(10, 5, 3) >= score(10, 5, 3));
    assert_eq!(score(10, 5, 3), score(10, 5, 3));
}

#[test]
fn the_order_is_transitive_on_a_chain() {
    let a = score(12, 0, 9);
    let b = score(11, 7, 2);
    let c = score(11, 7, 3);
    assert!(a > b && b > c && a > c);
}

#[test]
fn best_of_keeps_the_first_on_a_tie() {
    let a = score(3, 3, 3);
    let b = score(3, 3, 3);
    assert_eq!(a.best_of(b), a);
    assert_eq!(score(1, 1, 1).best_of(score(2, 0, 9)), score(2, 0, 9));
}

fn state() -> CraftingState {
    let recipe = Recipe {
        rlv: recipe_level_table(620),
        job_level: 90,
        difficulty: 5720,
        quality: 12900,
        durability: 70,
        conditions_flag: 15,
    };
    let attributes = Attributes { level: 90, craftsmanship: 4214, control: 3528, craft_points: 691 };
    new_status(attributes, recipe).unwrap()
}

#[test]
fn the_score_of_a_state_takes_its_meters_and_steps() {
    let mut s = state();
    s.progress = 100;
    s.quality = 2000;
    s.step = 7;
    assert_eq!(Score::from(&s), score(100, 2000, 7));
    assert_eq!(Score::from((&s, 12usize)), score(100, 2000, 12));
    assert_eq!(Score::from((&s, 65536usize + 5)), score(100, 2000, 5));
}
