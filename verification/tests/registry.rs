use app_libs::craft::{Attributes, CraftingState, Recipe};
use app_libs::new_status;
use app_libs::registry::{AnySolver, Lifecycle, Registry, RegistryError};
use app_libs::rules::recipe_level_table;
use app_libs::simulate;
use app_libs::solver::SolverHash;

fn craft(craft_points: i32) -> CraftingState {
    let recipe = Recipe {
        rlv: recipe_level_table(620),
        job_level: 90,
        difficulty: 900,
        quality: 2000,
        durability: 20,
        conditions_flag: 15,
    };
    let attributes = Attributes { level: 90, craftsmanship: 4214, control: 3528, craft_points };
    new_status(attributes, recipe).unwrap()
}

#[test]
fn two_requests_for_one_key_give_one_success_and_one_already_building() {
    let status = craft(60);
    let key = SolverHash::of(&status);
    let mut registry = Registry::new();
    assert_eq!(registry.state_of(&key), Lifecycle::Absent);
    let first = registry.begin_create(key);
    let second = registry.begin_create(key);
    assert_eq!(first, Ok(()));
    assert_eq!(second, Err(RegistryError::IsCreating));
    assert_eq!(registry.state_of(&key), Lifecycle::Building);
    assert_eq!(registry.read(&status), Err(RegistryError::IsntPrepared));
    let solver = AnySolver::build(status, false, false, false).unwrap();
    assert_eq!(registry.finish_create(key, solver), Ok(()));
    assert_eq!(registry.state_of(&key), Lifecycle::Ready);
    assert_eq!(registry.begin_create(key), Err(RegistryError::AlreadyExist));
}

#[test]
fn a_solver_is_made_read_and_taken_out() {
    let status = craft(60);
    let mut registry = Registry::new();
    assert_eq!(registry.read(&status), Err(RegistryError::DoesntExist));
    assert_eq!(registry.destroy(&status), Err(RegistryError::NotExists));
    assert_eq!(registry.create(status, false, false, false), Ok(()));
    assert_eq!(registry.create(status, true, false, false), Err(RegistryError::AlreadyExist));
    let actions = registry.read(&status).unwrap();
    assert!(!actions.is_empty());
    let end = simulate(status, actions.clone());
    assert_eq!(end.status.progress, 900);
    assert_eq!(registry.read(&status).unwrap(), actions);
    assert_eq!(registry.destroy(&status), Ok(()));
    assert_eq!(registry.read(&status), Err(RegistryError::DoesntExist));
    assert_eq!(registry.destroy(&status), Err(RegistryError::NotExists));
}

#[test]
fn keys_do_not_disturb_each_other() {
    let one = craft(60);
    let two = craft(61);
    let mut registry = Registry::new();
    assert_eq!(registry.begin_create(SolverHash::of(&one)), Ok(()));
    assert_eq!(registry.create(two, true, false, false), Ok(()));
    assert_eq!(registry.state_of(&SolverHash::of(&one)), Lifecycle::Building);
    assert_eq!(registry.state_of(&SolverHash::of(&two)), Lifecycle::Ready);
    assert_eq!(registry.destroy(&one), Ok(()));
    assert_eq!(registry.state_of(&SolverHash::of(&two)), Lifecycle::Ready);
    assert!(registry.read(&two).is_ok());
    let late = AnySolver::build(one, false, false, false).unwrap();
    assert_eq!(
        registry.finish_create(SolverHash::of(&one), late),
        Err(RegistryError::DoesntExist)
    );
}

#[test]
fn a_craft_whose_tables_cannot_be_allotted_is_refused() {
    let mut status = craft(60);
    status.attributes.craft_points = -5;
    let mut registry = Registry::new();
    assert!(AnySolver::build(status, false, true, true).is_none());
    assert_eq!(registry.create(status, false, true, true), Err(RegistryError::CannotBuild));
    assert_eq!(registry.state_of(&SolverHash::of(&status)), Lifecycle::Absent);
}

#[test]
fn refusals_have_their_words() {
    assert_eq!(RegistryError::AlreadyExist.message(), "solver-already-exist");
    assert_eq!(RegistryError::IsCreating.message(), "solver-is-creating");
    assert_eq!(RegistryError::DoesntExist.message(), "solver-doesn-t-exist");
    assert_eq!(RegistryError::IsntPrepared.message(), "solver-isn-t-prepared");
    assert_eq!(RegistryError::NotExists.message(), "solver not exists");
    assert_eq!(RegistryError::CannotBuild.message(), "solver-cannot-be-built");
}
