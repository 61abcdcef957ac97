use app_libs::craft::{Action, Attributes, CraftingState, Recipe};
use app_libs::rules::recipe_level_table;
use app_libs::solver::depth_first_search_solver::{solve as dfs_solve, Move, Search};
use app_libs::solver::memoization_solver::Solver as TouchSolver;
use app_libs::solver::normal_progress_solver::solve as nq_solve;
use app_libs::solver::preprogress_solver::PreprogressSolver;
use app_libs::solver::reflect_solver::{solve as reflect_solve, ProgressSolver, QualitySolver};
use app_libs::solver::{Score, Solver, SolverHash};
use app_libs::{new_status, simulate};

fn scenario() -> CraftingState {
    let recipe = Recipe {
        rlv: recipe_level_table(620),
        job_level: 90,
        difficulty: 5720,
        quality: 12900,
        durability: 70,
        conditions_flag: 15,
    };
    let attributes = Attributes { level: 90, craftsmanship: 4214, control: 3528, craft_points: 691 };
    new_status(attributes, recipe).unwrap()
}

fn small() -> CraftingState {
    let recipe = Recipe {
        rlv: recipe_level_table(620),
        job_level: 90,
        difficulty: 900,
        quality: 2000,
        durability: 40,
        conditions_flag: 15,
    };
    let attributes = Attributes { level: 90, craftsmanship: 4214, control: 3528, craft_points: 120 };
    new_status(attributes, recipe).unwrap()
}

fn init() -> CraftingState {
    let recipe = Recipe {
        rlv: recipe_level_table(516),
        job_level: 80,
        difficulty: 5470,
        quality: 16156,
        durability: 50,
        conditions_flag: 15,
    };
    let attributes =
        Attributes { level: 90, craftsmanship: 4138, control: 3846 + 70, craft_points: 598 + 72 };
    new_status(attributes, recipe).unwrap()
}

#[test]
fn reflect_solver_test() {
    let mut init_status = init();
    init_status.durability = 40;
    init_status.craft_points = 140;
    let mut solver = ProgressSolver::new(init_status, true, 8, true);
    let actions = solver.read_all(&init_status);
    println!("{actions:?}");
    let end = simulate(init_status, actions);
    assert!(end.errors.is_empty());
    assert!(end.status.progress <= 5470);
}

#[test]
fn dynamic_programing_solver_test() {
    let init_status = scenario();
    let mut solver = ProgressSolver::new(init_status, true, 8, false);
    let actions = solver.read_all(&init_status);
    println!("{actions:?}");
    let end = simulate(init_status, actions);
    assert!(end.errors.is_empty());
    assert_eq!(end.status.progress, 5720);
}

#[test]
fn the_progress_solver_never_plays_past_the_difficulty() {
    let status = small();
    let mut solver = ProgressSolver::new(status, false, 0, false);
    let actions = solver.read_all(&status);
    assert_eq!(actions, vec![Action::CarefulSynthesis, Action::CarefulSynthesis]);
    let end = simulate(status, actions);
    assert!(end.errors.is_empty());
    assert_eq!(end.status.progress, 900);
}

#[test]
fn a_slot_once_computed_is_read_again_unchanged() {
    let status = small();
    let mut solver = ProgressSolver::new(status, false, 0, false);
    let first = solver.inner_read(&status);
    assert!(first.is_some);
    assert_eq!(first.action, Some(Action::BasicSynthesis));
    assert_eq!((first.value, first.step), (2340, 6));
    let mut other = status;
    other.progress = 500;
    other.quality = 77;
    other.buffs.inner_quiet = 3;
    let again = solver.inner_read(&other);
    assert_eq!(again, first);
    let _ = solver.read_all(&status);
    assert_eq!(solver.inner_read(&status), first);
}

#[test]
fn small_shares_have_the_slots_that_the_rules_give() {
    let status = small();
    let mut solver = ProgressSolver::new(status, false, 0, false);
    let mut share = status;
    // ten durability and no craft points: one basic synthesis, 312
    share.durability = 10;
    share.craft_points = 0;
    let one = solver.inner_read(&share);
    assert_eq!((one.value, one.step, one.action), (312, 1, Some(Action::BasicSynthesis)));
    // seven craft points: the careful synthesis adds more, 468
    share.craft_points = 7;
    let careful = solver.inner_read(&share);
    assert_eq!((careful.value, careful.step, careful.action), (468, 1, Some(Action::CarefulSynthesis)));
    // twenty durability: one of each either way, and the one tried first stays
    share.durability = 20;
    let two = solver.inner_read(&share);
    assert_eq!((two.value, two.step, two.action), (780, 2, Some(Action::BasicSynthesis)));
    // no durability: nothing
    share.durability = 0;
    let none = solver.inner_read(&share);
    assert_eq!((none.value, none.step, none.action, none.is_some), (0, 0, None, true));
}

#[test]
fn a_state_off_the_table_has_the_barren_slot() {
    let status = small();
    let mut solver = ProgressSolver::new(status, false, 0, false);
    let mut rich = status;
    rich.craft_points = 121;
    let slot = solver.inner_read(&rich);
    assert_eq!((slot.value, slot.step, slot.action, slot.is_some), (0, 0, None, true));
    let mut buffed = status;
    buffed.buffs.manipulation = 2;
    assert_eq!(solver.inner_read(&buffed).action, None);
    assert_eq!(solver.read(&rich), None);
}

#[test]
fn a_finished_or_invalid_state_reads_no_action() {
    let status = small();
    let mut solver = ProgressSolver::new(status, false, 0, false);
    let mut done = status;
    done.progress = 900;
    assert_eq!(solver.read(&done), None);
    let mut odd = status;
    odd.craft_points = -4;
    assert_eq!(solver.read(&odd), None);
    assert!(solver.read_all(&odd).is_empty());
    let mut quality = QualitySolver::new(status, false, 0, false);
    assert_eq!(quality.read(&done), None);
    assert!(quality.read_all(&odd).is_empty());
}

#[test]
fn the_quality_solver_keeps_the_recipe_in_reach() {
    let status = small();
    assert!(QualitySolver::can_build(&status, false, 0, false));
    let mut solver = QualitySolver::new(status, false, 0, false);
    let actions = solver.read_all(&status);
    println!("{actions:?}");
    assert!(!actions.is_empty());
    let end = simulate(status, actions.clone());
    assert!(end.errors.is_empty());
    assert_eq!(end.status.progress, 900);
    assert!(end.status.quality > 0);
    let mut progress = ProgressSolver::new(status, false, 0, false);
    let mut walked = status;
    for action in actions {
        walked.cast_action(action);
        if walked.is_finished() {
            break;
        }
        let left = progress.inner_read(&walked);
        assert!(left.value + walked.progress as u32 >= 900, "{action:?} leaves {walked:?}");
    }
}

#[test]
fn the_quality_solver_beats_the_progress_solver_on_quality() {
    let status = scenario();
    let mut quality = QualitySolver::new(status, false, 0, false);
    let with_quality = simulate(status, quality.read_all(&status));
    let mut progress = ProgressSolver::new(status, false, 0, false);
    let without = simulate(status, progress.read_all(&status));
    assert_eq!(with_quality.status.progress, 5720);
    assert_eq!(without.status.progress, 5720);
    assert!(with_quality.status.quality > without.status.quality);
}

#[test]
fn solvers_answer_alike_through_the_trait() {
    fn walk<S: Solver>(solver: &mut S, s: &CraftingState) -> Vec<Action> {
        solver.init();
        solver.read_all(s)
    }
    let status = small();
    let mut by_trait = QualitySolver::new(status, false, 0, false);
    let mut direct = QualitySolver::new(status, false, 0, false);
    assert_eq!(walk(&mut by_trait, &status), direct.read_all(&status));
    let mut first = ProgressSolver::new(status, false, 0, false);
    assert_eq!(Solver::read(&mut first, &status), Some(Action::CarefulSynthesis));
}

#[test]
fn reflect_solve_opens_with_reflect_when_that_scores_no_lower() {
    let status = small();
    let actions = reflect_solve(status, false, 0, false);
    println!("{actions:?}");
    assert!(!actions.is_empty());
    let end = simulate(status, actions.clone());
    assert!(end.errors.is_empty());
    assert_eq!(end.status.progress, 900);
    let mut plain = QualitySolver::new(status, false, 1, false);
    let unopened = plain.read_all(&status);
    let plain_end = simulate(status, unopened.clone());
    let plain_score = Score::from((&plain_end.status, unopened.len()));
    let score = Score::from((&end.status, actions.len()));
    assert!(!(plain_score > score));
    if actions != unopened {
        assert_eq!(actions[0], Action::Reflect);
    }
}

#[test]
fn reflect_solve_answers_nothing_where_no_table_fits() {
    let mut status = small();
    status.attributes.craft_points = -1;
    assert!(!QualitySolver::can_build(&status, false, 1, false));
    assert!(reflect_solve(status, false, 0, false).is_empty());
    assert!(!ProgressSolver::can_build(&status, false, usize::MAX, false));
}

#[test]
fn the_touch_solver_adds_quality_only() {
    let status = small();
    assert!(TouchSolver::can_build(&status, false, 0, false));
    let mut solver = TouchSolver::new(status, false, 0, false);
    let slot = solver.next_touch(status.craft_points, status.durability, &status);
    assert!(slot.is_some);
    assert!(slot.value > 0);
    let mut walked = status;
    let mut steps = 0;
    while let Some(action) = solver.next_touch(walked.craft_points, walked.durability, &walked).action {
        assert!(walked.is_action_allowed(action).is_ok());
        walked.cast_action(action);
        steps += 1;
    }
    assert_eq!(walked.progress, 0);
    assert_eq!(steps, slot.step);
    assert_eq!(walked.quality, slot.value.min(2000));
    assert_eq!(solver.next_touch(-1, 40, &status).action, None);
    assert_eq!(solver.next_touch(121, 40, &status).action, None);
}

#[test]
fn depth_first_search_finds_the_best_play_within_its_depth() {
    let mut status = small();
    status.recipe.difficulty = 600;
    status.durability = 20;
    let none = dfs_solve(status, 0, false);
    assert!(none.is_empty());
    let one = dfs_solve(status, 1, false);
    assert_eq!(one.len(), 1);
    let end = simulate(status, one.clone());
    assert!(end.status.is_finished());
    assert_eq!(end.status.progress, 600);
    let two = dfs_solve(status, 2, false);
    let end2 = simulate(status, two.clone());
    assert!(end2.errors.is_empty());
    assert!(end2.status.is_finished());
    let score1 = Score::from((&end.status, one.len()));
    let score2 = Score::from((&end2.status, two.len()));
    assert!(!(score1 > score2));
    assert_eq!(end2.status.progress, 600);
    assert!(end2.status.quality > 0);
}

#[test]
fn the_search_machine_gives_branches_away_to_free_workers() {
    let mut status = small();
    status.recipe.difficulty = 600;
    status.durability = 20;
    let alone = dfs_solve(status, 2, false);
    let alone_end = simulate(status, alone.clone());
    let alone_score = Score::from((&alone_end.status, alone.len()));

    let mut machine = Search::new(status, Vec::new(), 2, false);
    let mut offers = Vec::new();
    loop {
        match machine.advance(true) {
            Move::Done => break,
            Move::Working => {}
            Move::Offer(state, prefix) => offers.push((state, prefix)),
        }
    }
    assert!(machine.is_done());
    assert!(!offers.is_empty());
    for (state, prefix) in offers {
        assert_eq!(prefix.len(), 1);
        let mut worker = Search::new(state, prefix, 2, false);
        while !matches!(worker.advance(false), Move::Done) {}
        machine.merge(worker.best_score(), worker.best_actions());
    }
    assert!(!(alone_score > machine.best_score()));
    let merged = machine.best_actions();
    let merged_end = simulate(status, merged.clone());
    assert_eq!(Score::from((&merged_end.status, merged.len())), machine.best_score());
}

#[test]
fn merging_keeps_the_better_play() {
    let status = small();
    let mut machine = Search::new(status, Vec::new(), 1, false);
    let start = machine.best_score();
    assert_eq!(start, Score { quality: 0, prgress: 0, steps: 0 });
    machine.merge(Score { quality: 0, prgress: 0, steps: 0 }, vec![Action::Observe]);
    assert!(machine.best_actions().is_empty());
    machine.merge(Score { quality: 5, prgress: 0, steps: 3 }, vec![Action::BasicTouch]);
    assert_eq!(machine.best_actions(), vec![Action::BasicTouch]);
    assert_eq!(machine.best_score(), Score { quality: 5, prgress: 0, steps: 3 });
}

#[test]
fn the_quickest_way_completes_the_recipe_in_the_fewest_steps() {
    let status = small();
    assert!(nq_solve(status, 0, false).is_empty());
    let way = nq_solve(status, 1, false);
    assert_eq!(way, vec![Action::Groundwork]);
    let end = simulate(status, way.clone());
    assert!(end.errors.is_empty());
    assert_eq!(end.status.progress, 900);
    assert_eq!(nq_solve(status, 3, false), way);
    let mut hard = status;
    hard.recipe.difficulty = 1000;
    assert!(nq_solve(hard, 1, false).is_empty());
    let two = nq_solve(hard, 2, false);
    assert_eq!(two, vec![Action::BasicSynthesis, Action::Groundwork]);
    assert_eq!(simulate(hard, two).status.progress, 1000);
    let mut done = status;
    done.progress = 900;
    done.step = 4;
    assert!(nq_solve(done, 3, false).is_empty());
}

#[test]
fn equal_crafts_have_equal_keys() {
    let a = scenario();
    let mut b = scenario();
    b.progress = 10;
    b.buffs.inner_quiet = 2;
    assert_eq!(SolverHash::of(&a), SolverHash::of(&b));
    b.attributes.control += 1;
    assert_ne!(SolverHash::of(&a), SolverHash::of(&b));
}

#[test]
fn depth_first_search_scores_no_lower_than_the_composite_solver_within_its_depth() {
    let mut status = small();
    status.recipe.difficulty = 312;
    status.recipe.quality = 600;
    status.durability = 20;
    status.craft_points = 40;
    let mut composite = PreprogressSolver::new(status, false, 0, false);
    let composed = composite.read_all(&status);
    assert!(!composed.is_empty() && composed.len() <= 3, "{composed:?}");
    let composed_end = simulate(status, composed.clone());
    assert!(composed_end.errors.is_empty());
    assert_eq!(composed_end.status.progress, 312);
    let searched = dfs_solve(status, 3, false);
    let searched_end = simulate(status, searched.clone());
    let composed_score = Score::from((&composed_end.status, composed.len()));
    let searched_score = Score::from((&searched_end.status, searched.len()));
    assert!(!(composed_score > searched_score), "{composed:?} {searched:?}");
}

#[test]
fn the_composite_solver_reads_the_closing_action_last() {
    let mut status = small();
    status.recipe.difficulty = 312;
    status.durability = 20;
    status.craft_points = 40;
    let mut composite = PreprogressSolver::new(status, false, 0, false);
    let first = composite.read(&status);
    assert!(first.is_some());
    let mut bare = status;
    bare.craft_points = 0;
    bare.durability = 10;
    assert_eq!(composite.read(&bare), Some(Action::BasicSynthesis));
    let mut far = status;
    far.recipe.difficulty = 313;
    let mut other = PreprogressSolver::new(far, false, 0, false);
    far.craft_points = 7;
    far.durability = 10;
    // the basic synthesis adds 312, one short: the careful synthesis closes
    assert_eq!(other.read(&far), Some(Action::CarefulSynthesis));
    let played = other.read_all(&far);
    assert_eq!(played, vec![Action::CarefulSynthesis]);
    let mut odd = status;
    odd.step = -1;
    assert_eq!(composite.read(&odd), None);
    assert!(composite.read_all(&odd).is_empty());
}

#[test]
fn a_prepared_solver_answers_as_an_unprepared_one() {
    let status = small();
    let mut cold = QualitySolver::new(status, false, 0, false);
    let mut warm = QualitySolver::new(status, false, 0, false);
    warm.init();
    assert_eq!(warm.inner_read(&status), cold.inner_read(&status));
    assert_eq!(warm.read_all(&status), cold.read_all(&status));
    let mut progress = ProgressSolver::new(status, false, 0, false);
    progress.init();
    let slot = progress.inner_read(&status);
    assert_eq!((slot.value, slot.step), (2340, 6));
    let mut composite = PreprogressSolver::new(status, false, 0, false);
    composite.init();
    let mut plain = PreprogressSolver::new(status, false, 0, false);
    assert_eq!(composite.read_all(&status), plain.read_all(&status));
    let mut odd = status;
    odd.quality = u32::MAX;
    let mut idle = ProgressSolver::new(odd, false, 0, false);
    idle.init();
    assert_eq!(idle.read(&odd), None);
}
