//! The registry of solvers: at most one solver for each key, built once.
//!
//! A solver is made for a crafter and a recipe, and making one is costly. The
//! registry keeps the solvers by their keys. An entry is put in before its
//! solver is built, and holds no solver until the build is handed in; a
//! second request for the same key finds the entry and fails at once instead
//! of building again. The registry itself is a plain value: whoever shares
//! it between requests keeps it behind a lock, takes the lock for each of
//! the operations here, and builds outside the lock.

use crate::craft::{Action, CraftingState};
use crate::solver::preprogress_solver::{composite_search, state_score, PreprogressSolver};
use crate::solver::reflect_solver::{quality_walk, QualitySolver};
use crate::solver::SolverHash;
use vstd::prelude::*;

verus! {

/// Why the registry refuses a request.
#[derive(Clone, Copy, Debug, PartialEq, Eq, Structural)]
pub enum RegistryError {
    /// A solver for the key is there already.
    AlreadyExist,
    /// A solver for the key is being built.
    IsCreating,
    /// There is no entry for the key to read from.
    DoesntExist,
    /// The solver for the key is still being built.
    IsntPrepared,
    /// There is no entry for the key to take out.
    NotExists,
    /// No solver can be built for the craft: its tables would be too large.
    CannotBuild,
}

impl RegistryError {
    /// The words for a refusal.
    pub open spec fn words(self) -> Seq<char> {
        match self {
            RegistryError::AlreadyExist => "solver-already-exist"@,
            RegistryError::IsCreating => "solver-is-creating"@,
            RegistryError::DoesntExist => "solver-doesn-t-exist"@,
            RegistryError::IsntPrepared => "solver-isn-t-prepared"@,
            RegistryError::NotExists => "solver not exists"@,
            RegistryError::CannotBuild => "solver-cannot-be-built"@,
        }
    }

    /// The words for a refusal, as a string.
    pub fn message(&self) -> (r: String)
        ensures
            r@ == self.words(),
    {
        match self {
            RegistryError::AlreadyExist => "solver-already-exist".to_string(),
            RegistryError::IsCreating => "solver-is-creating".to_string(),
            RegistryError::DoesntExist => "solver-doesn-t-exist".to_string(),
            RegistryError::IsntPrepared => "solver-isn-t-prepared".to_string(),
            RegistryError::NotExists => "solver not exists".to_string(),
            RegistryError::CannotBuild => "solver-cannot-be-built".to_string(),
        }
    }
}

/// Where the entry for a key stands.
#[derive(Clone, Copy, Debug, PartialEq, Eq, Structural)]
pub enum Lifecycle {
    /// There is no entry: none was made, or it was taken out.
    Absent,
    /// The entry is there, its solver is not yet.
    Building,
    /// The solver is there.
    Ready,
}

/// A solver of one of the kinds that the registry keeps.
pub enum AnySolver {
    Quality(QualitySolver),
    Preprogress(PreprogressSolver),
}

impl AnySolver {
    /// The invariant of the solver inside.
    pub open spec fn wf(self) -> bool {
        match self {
            AnySolver::Quality(q) => q.wf(),
            AnySolver::Preprogress(p) => p.wf(),
        }
    }

    /// What the solver answers for state `s`.
    pub open spec fn answer(self, s: CraftingState) -> Seq<Action> {
        match self {
            AnySolver::Quality(q) => quality_walk(
                q.allowance(),
                q.shapes(),
                q.progress_memo(),
                q.memo(),
                s,
            ).2,
            AnySolver::Preprogress(p) => composite_search(
                p.frame(),
                p.memos(),
                s,
                s.craft_points as int,
                s.durability as int / 5,
                (state_score(s), Seq::empty()),
            ).1,
        }
    }

    /// Whether `later` is this solver after it has answered for state `s`:
    /// the same kind of solver, made of the same, with its tables as the
    /// answer leaves them.
    pub open spec fn answered(self, s: CraftingState, later: AnySolver) -> bool {
        match (self, later) {
            (AnySolver::Quality(q), AnySolver::Quality(l)) => {
                let walk = quality_walk(q.allowance(), q.shapes(), q.progress_memo(), q.memo(), s);
                &&& l.allowance() == q.allowance()
                &&& l.shapes() == q.shapes()
                &&& l.progress_memo() == walk.0
                &&& l.memo() == walk.1
            },
            (AnySolver::Preprogress(p), AnySolver::Preprogress(l)) => {
                &&& l.frame() == p.frame()
                &&& l.memos() == composite_search(
                    p.frame(),
                    p.memos(),
                    s,
                    s.craft_points as int,
                    s.durability as int / 5,
                    (state_score(s), Seq::empty()),
                ).0
            },
            _ => false,
        }
    }

    /// Whether a solver can be built for the craft of `status`: the composite
    /// solver with eight turns of waste not, if `use_muscle_memory`, else the
    /// quality solver with nine.
    pub open spec fn buildable(
        status: CraftingState,
        use_muscle_memory: bool,
        use_manipulation: bool,
        use_observe: bool,
    ) -> bool {
        if use_muscle_memory {
            PreprogressSolver::buildable(status, use_manipulation, 8, use_observe)
        } else {
            QualitySolver::buildable(status, use_manipulation, 9, use_observe)
        }
    }

    /// Builds the solver for the craft of `status`, if one can be built.
    pub fn build(
        status: CraftingState,
        use_muscle_memory: bool,
        use_manipulation: bool,
        use_observe: bool,
    ) -> (r: Option<AnySolver>)
        ensures
            r is Some == Self::buildable(status, use_muscle_memory, use_manipulation, use_observe),
            r matches Some(solver) ==> solver.wf() && (solver is Preprogress == use_muscle_memory),
    {
        if use_muscle_memory {
            if PreprogressSolver::can_build(&status, use_manipulation, 8, use_observe) {
                Some(
                    AnySolver::Preprogress(
                        PreprogressSolver::new(status, use_manipulation, 8, use_observe),
                    ),
                )
            } else {
                None
            }
        } else {
            if QualitySolver::can_build(&status, use_manipulation, 9, use_observe) {
                Some(
                    AnySolver::Quality(QualitySolver::new(status, use_manipulation, 9, use_observe)),
                )
            } else {
                None
            }
        }
    }

    /// The answer of the solver for state `s`, with the solver as the answer
    /// leaves it.
    pub fn read_all(self, s: &CraftingState) -> (r: (AnySolver, Vec<Action>))
        requires
            self.wf(),
        ensures
            r.0.wf(),
            self.answered(*s, r.0),
            r.1@ == self.answer(*s),
    {
        match self {
            AnySolver::Quality(mut q) => {
                let actions = q.read_all(s);
                (AnySolver::Quality(q), actions)
            },
            AnySolver::Preprogress(mut p) => {
                let actions = p.read_all(s);
                (AnySolver::Preprogress(p), actions)
            },
        }
    }
}

/// One entry of the registry: a key, and the solver for it once it is built.
pub struct Entry {
    pub key: SolverHash,
    pub solver: Option<AnySolver>,
}

/// The place of the first entry for `key` among `entries`, if there is one.
pub open spec fn place(entries: Seq<Entry>, key: SolverHash) -> Option<int>
    decreases entries.len(),
{
    if entries.len() == 0 {
        None
    } else {
        match place(entries.drop_last(), key) {
            Some(i) => Some(i),
            None => if entries.last().key == key {
                Some(entries.len() - 1)
            } else {
                None
            },
        }
    }
}

/// Whether no key has two entries.
pub open spec fn distinct(entries: Seq<Entry>) -> bool {
    forall|i: int, j: int|
        0 <= i < j < entries.len() ==> (#[trigger] entries[i]).key != (#[trigger] entries[j]).key
}

/// What [`place`] finds is an entry for the key, and it finds one whenever
/// there is one.
pub proof fn lemma_place(entries: Seq<Entry>, key: SolverHash)
    ensures
        place(entries, key) matches Some(i) ==> 0 <= i < entries.len() && entries[i].key == key,
        place(entries, key) is None ==> forall|i: int|
            0 <= i < entries.len() ==> (#[trigger] entries[i]).key != key,
    decreases entries.len(),
{
    if entries.len() > 0 {
        lemma_place(entries.drop_last(), key);
        if place(entries.drop_last(), key) is None && entries.last().key != key {
            assert forall|i: int| 0 <= i < entries.len() implies (#[trigger] entries[i]).key
                != key by {
                if i < entries.len() - 1 {
                    assert(entries.drop_last()[i] == entries[i]);
                }
            }
        }
    }
}

/// Among entries with distinct keys, the place of a key is the place of any
/// entry that has it.
pub proof fn lemma_place_is_the_entry(entries: Seq<Entry>, key: SolverHash, i: int)
    requires
        distinct(entries),
        0 <= i < entries.len(),
        entries[i].key == key,
    ensures
        place(entries, key) == Some(i),
{
    lemma_place(entries, key);
}

/// The solvers by their keys.
pub struct Registry {
    entries: Vec<Entry>,
}

impl Registry {
    /// The entries.
    pub closed spec fn entries(self) -> Seq<Entry> {
        self.entries@
    }

    /// The registry's invariant: no key has two entries, and every solver in
    /// it is well formed.
    pub open spec fn wf(self) -> bool {
        &&& distinct(self.entries())
        &&& forall|i: int|
            0 <= i < self.entries().len() ==> ((#[trigger] self.entries()[i]).solver matches Some(
                solver,
            ) ==> solver.wf())
    }

    /// The solver for `key`, if it is built.
    pub open spec fn solver(self, key: SolverHash) -> Option<AnySolver> {
        match place(self.entries(), key) {
            Some(i) => self.entries()[i].solver,
            None => None,
        }
    }

    /// Where the entry for `key` stands.
    pub open spec fn lifecycle(self, key: SolverHash) -> Lifecycle {
        match place(self.entries(), key) {
            None => Lifecycle::Absent,
            Some(i) => if self.entries()[i].solver is Some {
                Lifecycle::Ready
            } else {
                Lifecycle::Building
            },
        }
    }

    /// Whether the two registries hold the same for every key but `key`.
    pub open spec fn same_but(self, other: Registry, key: SolverHash) -> bool {
        forall|k: SolverHash|
            k != key ==> #[trigger] self.lifecycle(k) == other.lifecycle(k) && self.solver(k)
                == other.solver(k)
    }

    /// A registry with no entry.
    pub fn new() -> (r: Registry)
        ensures
            r.wf(),
            forall|k: SolverHash| #[trigger] r.lifecycle(k) == Lifecycle::Absent,
    {
        Registry { entries: Vec::new() }
    }

    /// Computes [`place`].
    fn find(&self, key: &SolverHash) -> (r: Option<usize>)
        ensures
            match r {
                Some(i) => place(self.entries(), *key) == Some(i as int) && i < self.entries().len()
                    && self.entries()[i as int].key == *key,
                None => place(self.entries(), *key) is None,
            },
    {
        let mut i: usize = 0;
        proof {
            lemma_place(self.entries(), *key);
        }
        assert(self.entries@.take(0) =~= Seq::<Entry>::empty());
        while i < self.entries.len()
            invariant
                i <= self.entries.len(),
                place(self.entries@.take(i as int), *key) is None,
            decreases self.entries.len() - i,
        {
            let ghost upto = self.entries@.take(i + 1);
            assert(upto.drop_last() =~= self.entries@.take(i as int));
            assert(upto.last() == self.entries@[i as int]);
            if self.entries[i].key == *key {
                proof {
                    lemma_place_prefix(self.entries@, *key, i + 1);
                }
                return Some(i);
            }
            i = i + 1;
        }
        assert(self.entries@.take(self.entries.len() as int) =~= self.entries@);
        None
    }

    /// Where the entry for `key` stands.
    pub fn state_of(&self, key: &SolverHash) -> (r: Lifecycle)
        ensures
            r == self.lifecycle(*key),
    {
        match self.find(key) {
            None => Lifecycle::Absent,
            Some(i) => if self.entries[i].solver.is_some() {
                Lifecycle::Ready
            } else {
                Lifecycle::Building
            },
        }
    }

    /// Puts in the entry for `key`, for a solver that is to be built. Where
    /// an entry is there already nothing changes: a request for a key that
    /// is being built, or built, fails at once.
    pub fn begin_create(&mut self, key: SolverHash) -> (r: Result<(), RegistryError>)
        requires
            old(self).wf(),
        ensures
            final(self).wf(),
            final(self).same_but(*old(self), key),
            match old(self).lifecycle(key) {
                Lifecycle::Absent => r is Ok && final(self).lifecycle(key) == Lifecycle::Building,
                Lifecycle::Building => r == Err::<(), RegistryError>(RegistryError::IsCreating)
                    && *final(self) == *old(self),
                Lifecycle::Ready => r == Err::<(), RegistryError>(RegistryError::AlreadyExist)
                    && *final(self) == *old(self),
            },
    {
        match self.find(&key) {
            Some(i) => {
                if self.entries[i].solver.is_some() {
                    Err(RegistryError::AlreadyExist)
                } else {
                    Err(RegistryError::IsCreating)
                }
            },
            None => {
                let ghost before = self.entries@;
                proof {
                    lemma_place(before, key);
                }
                self.entries.push(Entry { key, solver: None });
                proof {
                    let after = self.entries@;
                    assert(after.drop_last() =~= before);
                    assert forall|k: SolverHash| k != key implies place(after, k) == place(
                        before,
                        k,
                    ) by {}
                    assert forall|k: SolverHash| k != key implies #[trigger] self.lifecycle(k)
                        == old(self).lifecycle(k) && self.solver(k) == old(self).solver(k) by {
                        lemma_place(before, k);
                    }
                }
                Ok(())
            },
        }
    }

    /// Hands in the solver that was built for `key`. It goes into the entry
    /// that was put in for it; where that entry is gone, or has a solver
    /// already, the solver is dropped and nothing changes.
    pub fn finish_create(&mut self, key: SolverHash, solver: AnySolver) -> (r: Result<
        (),
        RegistryError,
    >)
        requires
            old(self).wf(),
            solver.wf(),
        ensures
            final(self).wf(),
            final(self).same_but(*old(self), key),
            match old(self).lifecycle(key) {
                Lifecycle::Building => r is Ok && final(self).solver(key) == Some(solver),
                Lifecycle::Absent => r == Err::<(), RegistryError>(RegistryError::DoesntExist)
                    && *final(self) == *old(self),
                Lifecycle::Ready => r == Err::<(), RegistryError>(RegistryError::AlreadyExist)
                    && *final(self) == *old(self),
            },
    {
        match self.find(&key) {
            None => Err(RegistryError::DoesntExist),
            Some(i) => {
                if self.entries[i].solver.is_some() {
                    return Err(RegistryError::AlreadyExist);
                }
                let ghost before = self.entries@;
                self.entries.remove(i);
                self.entries.insert(i, Entry { key, solver: Some(solver) });
                proof {
                    let after = self.entries@;
                    assert(after =~= before.update(i as int, Entry { key, solver: Some(solver) }));
                    lemma_update_keeps_places(before, i as int, Entry { key, solver: Some(solver) });
                    assert forall|k: SolverHash| k != key implies #[trigger] self.lifecycle(k)
                        == old(self).lifecycle(k) && self.solver(k) == old(self).solver(k) by {
                        lemma_place(before, k);
                        assert(place(after, k) == place(before, k));
                    }
                    assert(place(after, key) == place(before, key));
                }
                Ok(())
            },
        }
    }

    /// Makes the solver for the craft of `status`: the composite solver if
    /// `use_muscle_memory`, else the quality solver. Fails where the key has
    /// an entry already, and where no solver can be built.
    pub fn create(
        &mut self,
        status: CraftingState,
        use_muscle_memory: bool,
        use_manipulation: bool,
        use_observe: bool,
    ) -> (r: Result<(), RegistryError>)
        requires
            old(self).wf(),
        ensures
            final(self).wf(),
            final(self).same_but(*old(self), SolverHash::key_of(status)),
            match old(self).lifecycle(SolverHash::key_of(status)) {
                Lifecycle::Building => r == Err::<(), RegistryError>(RegistryError::IsCreating)
                    && *final(self) == *old(self),
                Lifecycle::Ready => r == Err::<(), RegistryError>(RegistryError::AlreadyExist)
                    && *final(self) == *old(self),
                Lifecycle::Absent => if AnySolver::buildable(
                    status,
                    use_muscle_memory,
                    use_manipulation,
                    use_observe,
                ) {
                    r is Ok && final(self).lifecycle(SolverHash::key_of(status))
                        == Lifecycle::Ready
                } else {
                    r == Err::<(), RegistryError>(RegistryError::CannotBuild) && *final(self)
                        == *old(self)
                },
            },
    {
        let key = SolverHash::of(&status);
        match self.state_of(&key) {
            Lifecycle::Building => {
                return Err(RegistryError::IsCreating);
            },
            Lifecycle::Ready => {
                return Err(RegistryError::AlreadyExist);
            },
            Lifecycle::Absent => {},
        }
        let solver = match AnySolver::build(status, use_muscle_memory, use_manipulation, use_observe) {
            None => {
                return Err(RegistryError::CannotBuild);
            },
            Some(solver) => solver,
        };
        let ghost start = *self;
        let begun = self.begin_create(key);
        let ghost middle = *self;
        let finished = self.finish_create(key, solver);
        assert forall|k: SolverHash| k != key implies #[trigger] self.lifecycle(k)
            == start.lifecycle(k) && self.solver(k) == start.solver(k) by {
            assert(middle.lifecycle(k) == start.lifecycle(k));
        }
        finished
    }

    /// The answer of the solver for the craft of `status`, for that state.
    pub fn read(&mut self, status: &CraftingState) -> (r: Result<Vec<Action>, RegistryError>)
        requires
            old(self).wf(),
        ensures
            final(self).wf(),
            final(self).same_but(*old(self), SolverHash::key_of(*status)),
            final(self).lifecycle(SolverHash::key_of(*status)) == old(self).lifecycle(
                SolverHash::key_of(*status),
            ),
            match old(self).solver(SolverHash::key_of(*status)) {
                Some(solver) => {
                    &&& r is Ok
                    &&& r->Ok_0@ == solver.answer(*status)
                    &&& final(self).solver(SolverHash::key_of(*status)) is Some
                    &&& solver.answered(
                        *status,
                        final(self).solver(SolverHash::key_of(*status))->Some_0,
                    )
                },
                None => *final(self) == *old(self) && r == Err::<Vec<Action>, RegistryError>(
                    if old(self).lifecycle(SolverHash::key_of(*status)) == Lifecycle::Building {
                        RegistryError::IsntPrepared
                    } else {
                        RegistryError::DoesntExist
                    },
                ),
            },
    {
        let key = SolverHash::of(status);
        let i = match self.find(&key) {
            None => {
                return Err(RegistryError::DoesntExist);
            },
            Some(i) => i,
        };
        if self.entries[i].solver.is_none() {
            return Err(RegistryError::IsntPrepared);
        }
        let ghost before = self.entries@;
        let entry = self.entries.remove(i);
        let solver = match entry.solver {
            Some(solver) => solver,
            None => {
                self.entries.insert(i, Entry { key, solver: None });
                assert(self.entries@ =~= before);
                return Err(RegistryError::IsntPrepared);
            },
        };
        let (later, actions) = solver.read_all(status);
        self.entries.insert(i, Entry { key, solver: Some(later) });
        proof {
            let after = self.entries@;
            assert(after =~= before.update(i as int, Entry { key, solver: Some(later) }));
            lemma_update_keeps_places(before, i as int, Entry { key, solver: Some(later) });
            assert forall|k: SolverHash| k != key implies #[trigger] self.lifecycle(k) == old(
                self,
            ).lifecycle(k) && self.solver(k) == old(self).solver(k) by {
                lemma_place(before, k);
                assert(place(after, k) == place(before, k));
            }
            assert(place(after, key) == place(before, key));
        }
        Ok(actions)
    }

    /// Takes the entry for the craft of `status` out, with its solver if it
    /// has one.
    pub fn destroy(&mut self, status: &CraftingState) -> (r: Result<(), RegistryError>)
        requires
            old(self).wf(),
        ensures
            final(self).wf(),
            final(self).same_but(*old(self), SolverHash::key_of(*status)),
            final(self).lifecycle(SolverHash::key_of(*status)) == Lifecycle::Absent,
            match old(self).lifecycle(SolverHash::key_of(*status)) {
                Lifecycle::Absent => r == Err::<(), RegistryError>(RegistryError::NotExists)
                    && *final(self) == *old(self),
                _ => r is Ok,
            },
    {
        let key = SolverHash::of(status);
        match self.find(&key) {
            None => Err(RegistryError::NotExists),
            Some(i) => {
                let ghost before = self.entries@;
                self.entries.remove(i);
                proof {
                    let after = self.entries@;
                    lemma_remove_keeps_places(before, i as int);
                    assert(after =~= before.remove(i as int));
                    assert forall|k: SolverHash| k != key implies #[trigger] self.lifecycle(k)
                        == old(self).lifecycle(k) && self.solver(k) == old(self).solver(k) by {
                        let found = place(before.remove(i as int), k);
                        lemma_place(after, k);
                        lemma_place(before, k);
                    }
                    assert forall|j: int| 0 <= j < after.len() implies ((#[trigger] after[j]).solver
                        matches Some(solver) ==> solver.wf()) by {
                        let j0 = if j < i {
                            j
                        } else {
                            j + 1
                        };
                        assert(after[j] == before[j0]);
                    }
                }
                Ok(())
            },
        }
    }
}

/// The place of a key among the first `n` entries, where it has one, is its
/// place among all.
pub proof fn lemma_place_prefix(entries: Seq<Entry>, key: SolverHash, n: int)
    requires
        0 <= n <= entries.len(),
        place(entries.take(n), key) is Some,
    ensures
        place(entries, key) == place(entries.take(n), key),
    decreases entries.len() - n,
{
    if n < entries.len() {
        let longer = entries.take(n + 1);
        assert(longer.drop_last() =~= entries.take(n));
        lemma_place_prefix(entries, key, n + 1);
    } else {
        assert(entries.take(n) =~= entries);
    }
}

/// Putting another entry with the same key in the place of an entry leaves
/// every key where it was.
pub proof fn lemma_update_keeps_places(entries: Seq<Entry>, i: int, entry: Entry)
    requires
        0 <= i < entries.len(),
        entries[i].key == entry.key,
    ensures
        forall|k: SolverHash| #[trigger]
            place(entries.update(i, entry), k) == place(entries, k),
        distinct(entries) ==> distinct(entries.update(i, entry)),
    decreases entries.len(),
{
    let updated = entries.update(i, entry);
    if i == entries.len() - 1 {
        assert(updated.drop_last() =~= entries.drop_last());
        assert(updated.last().key == entries.last().key);
    } else {
        assert(updated.drop_last() =~= entries.drop_last().update(i, entry));
        lemma_update_keeps_places(entries.drop_last(), i, entry);
        assert(updated.last() == entries.last());
    }
    assert forall|k: SolverHash| #[trigger] place(updated, k) == place(entries, k) by {
        if i != entries.len() - 1 {
            assert(place(entries.drop_last().update(i, entry), k) == place(
                entries.drop_last(),
                k,
            ));
        }
        assert(place(updated.drop_last(), k) == place(entries.drop_last(), k));
    }
    if distinct(entries) {
        assert forall|a: int, b: int| 0 <= a < b < updated.len() implies (#[trigger] updated[a]).key
            != (#[trigger] updated[b]).key by {
            assert(entries[a].key != entries[b].key);
        }
    }
}

/// Taking an entry out of entries with distinct keys leaves its key without
/// an entry, and every other key with the entry it had.
pub proof fn lemma_remove_keeps_places(entries: Seq<Entry>, i: int)
    requires
        0 <= i < entries.len(),
        distinct(entries),
    ensures
        distinct(entries.remove(i)),
        place(entries.remove(i), entries[i].key) is None,
        forall|k: SolverHash|
            k != entries[i].key ==> match (#[trigger] place(entries.remove(i), k)) {
                Some(j) => place(entries, k) is Some && entries[place(entries, k)->Some_0]
                    == entries.remove(i)[j],
                None => place(entries, k) is None,
            },
{
    let rest = entries.remove(i);
    assert forall|a: int, b: int| 0 <= a < b < rest.len() implies (#[trigger] rest[a]).key != (
    #[trigger] rest[b]).key by {
        let a0 = if a < i {
            a
        } else {
            a + 1
        };
        let b0 = if b < i {
            b
        } else {
            b + 1
        };
        assert(entries[a0].key != entries[b0].key);
    }
    lemma_place(rest, entries[i].key);
    if place(rest, entries[i].key) is Some {
        let j = place(rest, entries[i].key).unwrap();
        let j0 = if j < i {
            j
        } else {
            j + 1
        };
        assert(entries[j0].key == entries[i].key);
        assert(false);
    }
    assert forall|k: SolverHash| k != entries[i].key implies match (#[trigger] place(rest, k)) {
        Some(j) => place(entries, k) is Some && entries[place(entries, k)->Some_0] == rest[j],
        None => place(entries, k) is None,
    } by {
        lemma_place(rest, k);
        lemma_place(entries, k);
        match place(rest, k) {
            Some(j) => {
                let j0 = if j < i {
                    j
                } else {
                    j + 1
                };
                lemma_place_is_the_entry(entries, k, j0);
            },
            None => {
                if place(entries, k) is Some {
                    let h = place(entries, k).unwrap();
                    let h0 = if h < i {
                        h
                    } else {
                        h - 1
                    };
                    assert(rest[h0].key == k);
                }
            },
        }
    }
}

} // verus!
