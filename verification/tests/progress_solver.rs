use app_libs::craft::{Action, Attributes, CraftingState, Recipe};
use app_libs::rules::recipe_level_table;
use app_libs::solver::reflect_solver::ProgressSolver;
use app_libs::{new_status, simulate};

fn scenario() -> CraftingState {
    let recipe = Recipe {
        rlv: recipe_level_table(620),
        job_level: 90,
        difficulty: 5720,
        quality: 12900,
        durability: 70,
        conditions_flag: 15,
    };
    let attributes = Attributes { level: 90, craftsmanship: 4214, control: 3528, craft_points: 691 };
    new_status(attributes, recipe).unwrap()
}

#[test]
fn progress_solver_completes_the_recipe() {
    let status = scenario();
    assert!(ProgressSolver::can_build(&status, false, 0, false));
    let mut solver = ProgressSolver::new(status, false, 0, false);
    let actions = solver.read_all(&status);
    println!("{actions:?}");
    assert!(!actions.is_empty());
    let end = simulate(status, actions);
    assert!(end.errors.is_empty());
    assert_eq!(end.status.progress, 5720);
}

#[test]
fn basic_synthesis_adds_what_the_simulator_says() {
    let mut status = scenario();
    assert!(status.is_action_allowed(Action::BasicSynthesis).is_ok());
    status.cast_action(Action::BasicSynthesis);
    println!("{status:?}");
    assert!(status.progress > 0);
    assert_eq!(status.durability, 60);
    assert_eq!(status.step, 1);
}
