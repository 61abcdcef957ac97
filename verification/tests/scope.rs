use app_libs::analyzer::scope_of_application::{calc_scope, Scope};
use app_libs::craft::{Action, Attributes, CraftingState, Recipe};
use app_libs::new_status;
use app_libs::rules::recipe_level_table;

fn craft() -> CraftingState {
    let recipe = Recipe {
        rlv: recipe_level_table(620),
        job_level: 90,
        difficulty: 900,
        quality: 400,
        durability: 40,
        conditions_flag: 15,
    };
    let attributes = Attributes { level: 90, craftsmanship: 4214, control: 3528, craft_points: 120 };
    new_status(attributes, recipe).unwrap()
}

#[test]
fn the_scope_encloses_the_crafter() {
    let status = craft();
    let actions = vec![
        Action::BasicTouch,
        Action::BasicTouch,
        Action::CarefulSynthesis,
        Action::CarefulSynthesis,
    ];
    let scope = calc_scope(status, &actions);
    println!("{scope:?}");
    let (low, high) = scope.craftsmanship_range;
    let low = low.unwrap();
    let high = high.unwrap();
    assert!(low <= 4214 && 4214 <= high);
    assert!(scope.control_range.unwrap() <= 3528);
    assert_eq!(scope.craft_points, 18 + 18 + 7 + 7);
    // two careful syntheses at 180 percent reach 900 from a base progress of
    // 250 on, which floor((c * 10 / 130 + 2) * 0.8) reaches at c = 4037
    assert_eq!(low, 4037);
    // from a base progress of 500 on one synthesis completes the recipe, a
    // step less; in single precision the base is still 499 at c = 8099
    assert_eq!(high, 8099);
    // two basic touches, the second with one stack of inner quiet, reach 400
    // from a base quality of 191 on, which floor((c * 10 / 115 + 35) * 0.7)
    // reaches at c = 2736
    assert_eq!(scope.control_range, Some(2736));
}

#[test]
fn a_list_that_falls_short_has_no_lower_bound() {
    let status = craft();
    let scope = calc_scope(status, &vec![Action::BasicTouch]);
    assert_eq!(
        scope,
        Scope { craftsmanship_range: (None, None), control_range: None, craft_points: 18 }
    );
    assert_eq!(Scope::default().craft_points, 0);
}

#[test]
fn an_empty_list_uses_nothing() {
    let scope = calc_scope(craft(), &Vec::new());
    assert_eq!(scope.craft_points, 0);
    assert_eq!(scope.craftsmanship_range.0, None);
    assert_eq!(scope.control_range, None);
}
