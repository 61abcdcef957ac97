use app_libs::craft::{Action, Attributes, CraftingState, Recipe};
use app_libs::rules::recipe_level_table;
use app_libs::solver::rika_tnze_solver::{generate_routes_phase1, next_action_picker_1, solve};
use app_libs::{new_status, simulate};

fn scenario() -> CraftingState {
    let recipe = Recipe {
        rlv: recipe_level_table(620),
        job_level: 90,
        difficulty: 5720,
        quality: 12900,
        durability: 70,
        conditions_flag: 15,
    };
    let attributes = Attributes { level: 90, craftsmanship: 4214, control: 3528, craft_points: 691 };
    new_status(attributes, recipe).unwrap()
}

#[test]
fn the_opening_is_forced_and_then_chosen_from_what_is_allowed() {
    let fresh = scenario();
    assert_eq!(next_action_picker_1(fresh, true), vec![Action::MuscleMemory]);
    let mut opened = fresh;
    opened.cast_action(Action::MuscleMemory);
    assert_eq!(next_action_picker_1(opened, true), vec![Action::Manipulation]);
    assert_eq!(
        next_action_picker_1(opened, false),
        vec![
            Action::Veneration,
            Action::WasteNot,
            Action::WasteNotII,
            Action::Groundwork,
            Action::PrudentSynthesis,
            Action::BasicSynthesis,
            Action::CarefulSynthesis,
            Action::DelicateSynthesis,
        ]
    );
    let mut thrifty = opened;
    thrifty.cast_action(Action::WasteNot);
    thrifty.cast_action(Action::Veneration);
    assert_eq!(
        next_action_picker_1(thrifty, false),
        vec![
            Action::Groundwork,
            Action::BasicSynthesis,
            Action::CarefulSynthesis,
            Action::DelicateSynthesis,
        ]
    );
    let mut poor = thrifty;
    poor.craft_points = 10;
    assert_eq!(
        next_action_picker_1(poor, false),
        vec![Action::BasicSynthesis, Action::CarefulSynthesis]
    );
    let mut done = opened;
    done.progress = 5720;
    assert!(next_action_picker_1(done, false).is_empty());
}

#[test]
fn every_route_ends_one_synthesis_short_of_the_recipe() {
    let status = scenario();
    let routes = generate_routes_phase1(&status, false);
    assert!(!routes.is_empty());
    for route in &routes {
        let lack = 5720 - route.state.progress;
        // the careful synthesis adds 468 at most here
        assert!(0 < lack && lack <= 468, "{:?}", route.actions);
        assert_eq!(route.actions[0], Action::MuscleMemory);
        assert!(route.actions.len() <= 8);
        let replayed = simulate(status, route.actions.clone());
        assert!(replayed.errors.is_empty());
        assert_eq!(replayed.status, route.state);
    }
    let mut odd = status;
    odd.craft_points = -1;
    assert!(generate_routes_phase1(&odd, false).is_empty());
}

#[test]
fn the_opening_book_completes_the_recipe() {
    let status = scenario();
    let actions = solve(status, false, 0, false, false);
    println!("{actions:?}");
    assert!(!actions.is_empty());
    let end = simulate(status, actions.clone());
    println!("{:?}", end.status);
    assert!(end.errors.is_empty());
    assert_eq!(end.status.progress, 5720);
    assert!(end.status.quality > 0);
    let last = *actions.last().unwrap();
    assert!(matches!(last, Action::BasicSynthesis | Action::CarefulSynthesis));
}

#[test]
fn the_opening_book_answers_nothing_outside_the_domain() {
    let mut status = scenario();
    status.attributes.control = -1;
    assert!(solve(status, false, 0, false, false).is_empty());
}
