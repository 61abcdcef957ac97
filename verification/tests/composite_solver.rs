use app_libs::craft::{Attributes, CraftingState, Recipe};
use app_libs::rules::recipe_level_table;
use app_libs::solver::preprogress_solver::PreprogressSolver;
use app_libs::{new_status, simulate};

fn scenario() -> CraftingState {
    let recipe = Recipe {
        rlv: recipe_level_table(620),
        job_level: 90,
        difficulty: 5720,
        quality: 12900,
        durability: 70,
        conditions_flag: 15,
    };
    let attributes = Attributes { level: 90, craftsmanship: 4214, control: 3528, craft_points: 691 };
    new_status(attributes, recipe).unwrap()
}

#[test]
fn composite_solver_completes_the_recipe() {
    let status = scenario();
    assert!(PreprogressSolver::can_build(&status, false, 0, false));
    let started = std::time::Instant::now();
    let mut solver = PreprogressSolver::new(status, false, 0, false);
    println!("built after {:?}", started.elapsed());
    let actions = solver.read_all(&status);
    println!("solved after {:?}: {actions:?}", started.elapsed());
    assert!(!actions.is_empty());
    let end = simulate(status, actions);
    println!("{:?}", end.status);
    assert!(end.errors.is_empty());
    assert!(end.status.progress >= 5720);
}
