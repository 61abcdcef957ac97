//! The opening-book solver: a short search over ways to open the craft with
//! progress, each followed by as much quality as the memoised quality solver
//! finds, and closed by one synthesis.
//!
//! In the first phase the solver plays openings, by a fixed choice of a few
//! actions for each state, until one closing synthesis would complete the
//! recipe. In the second phase it sets the cost of that synthesis aside and,
//! for one share of the remaining resources after the other, lets the
//! memoised quality solver play. Of all the plays that come of this it
//! answers with the one that scores highest.

use crate::craft::{Action, CraftingState};
use crate::rules::{lemma_replay_push, playable, replay};
use crate::solver::memoization_solver::{touch_explore, touch_state, Solver};
use crate::solver::preprogress_solver::{closing_reach, share_of, state_score};
use crate::solver::clone_actions;
use crate::solver::reflect_solver::Allowance;
use crate::solver::score::Score;
use crate::solver::table::{blank_memo, MemoKey, Slot};
use vstd::prelude::*;

verus! {

/// The actions that the first phase considers in state `craft`, before it
/// asks whether the state allows them: the opener on the first step; else
/// manipulation, if it may be used and is not running; else veneration and
/// waste not where they are not running, groundwork where its cost is
/// halved or muscle memory lifts it, the prudent synthesis outside waste
/// not, and the three plain syntheses.
pub open spec fn considered(craft: CraftingState, use_manipulation: bool) -> Seq<Action> {
    if craft.finished() {
        Seq::empty()
    } else if craft.step == 0 {
        seq![Action::MuscleMemory]
    } else if use_manipulation && craft.buffs.manipulation == 0 {
        seq![Action::Manipulation]
    } else {
        let thrifty = craft.buffs.waste_not_left() > 0;
        let a = if craft.buffs.veneration == 0 {
            seq![Action::Veneration]
        } else {
            Seq::empty()
        };
        let b = if !thrifty {
            seq![Action::WasteNot, Action::WasteNotII]
        } else {
            Seq::empty()
        };
        let c = if thrifty || craft.buffs.muscle_memory > 0 {
            seq![Action::Groundwork]
        } else {
            Seq::empty()
        };
        let d = if !thrifty {
            seq![Action::PrudentSynthesis]
        } else {
            Seq::empty()
        };
        a + b + c + d + seq![
            Action::BasicSynthesis,
            Action::CarefulSynthesis,
            Action::DelicateSynthesis,
        ]
    }
}

/// Whether the choice of the first phase for state `craft` is made without
/// asking what the state allows: on the first step, and where manipulation
/// is put up first.
pub open spec fn forced(craft: CraftingState, use_manipulation: bool) -> bool {
    !craft.finished() && (craft.step == 0 || (use_manipulation && craft.buffs.manipulation == 0))
}

/// Those of `list` that state `s` allows, in their order.
pub open spec fn allowed_among(s: CraftingState, list: Seq<Action>) -> Seq<Action>
    decreases list.len(),
{
    if list.len() == 0 {
        Seq::empty()
    } else if s.allows(list.last()) {
        allowed_among(s, list.drop_last()).push(list.last())
    } else {
        allowed_among(s, list.drop_last())
    }
}

/// The actions that the first phase tries in state `craft`.
pub open spec fn picked(craft: CraftingState, use_manipulation: bool) -> Seq<Action> {
    if forced(craft, use_manipulation) {
        considered(craft, use_manipulation)
    } else {
        allowed_among(craft, considered(craft, use_manipulation))
    }
}

/// The actions that the first phase tries in state `craft`.
pub fn next_action_picker_1(craft: CraftingState, use_manipulation: bool) -> (r: Vec<Action>)
    ensures
        r@ == picked(craft, use_manipulation),
{
    let mut available: Vec<Action> = Vec::new();
    if craft.is_finished() {
        assert(allowed_among(craft, Seq::empty()) =~= Seq::<Action>::empty());
        return available;
    }
    if craft.step == 0 {
        available.push(Action::MuscleMemory);
        return available;
    }
    if use_manipulation && craft.buffs.manipulation == 0 {
        available.push(Action::Manipulation);
        return available;
    }
    let thrifty = craft.buffs.wast_not > 0 || craft.buffs.wast_not_ii > 0;
    if craft.buffs.veneration == 0 {
        available.push(Action::Veneration);
    }
    if !thrifty {
        available.push(Action::WasteNot);
        available.push(Action::WasteNotII);
    }
    if thrifty || craft.buffs.muscle_memory > 0 {
        available.push(Action::Groundwork);
    }
    if !thrifty {
        available.push(Action::PrudentSynthesis);
    }
    available.push(Action::BasicSynthesis);
    available.push(Action::CarefulSynthesis);
    available.push(Action::DelicateSynthesis);
    assert(available@ =~= considered(craft, use_manipulation));
    let mut allowed: Vec<Action> = Vec::new();
    let mut i: usize = 0;
    assert(available@.take(0) =~= Seq::<Action>::empty());
    while i < available.len()
        invariant
            i <= available.len(),
            allowed@ == allowed_among(craft, available@.take(i as int)),
        decreases available.len() - i,
    {
        let ghost upto = available@.take(i + 1);
        assert(upto.drop_last() =~= available@.take(i as int));
        assert(upto.last() == available@[i as int]);
        if craft.is_action_allowed(available[i]).is_ok() {
            allowed.push(available[i]);
        }
        i = i + 1;
    }
    assert(available@.take(available.len() as int) =~= available@);
    allowed
}

/// A play that is under way: the state it has come to, and its actions.
pub struct Route {
    pub state: CraftingState,
    pub actions: Seq<Action>,
}

/// The progress that the first phase leaves to the closing synthesis: what
/// the careful synthesis adds in state `s`, or the basic synthesis for a
/// crafter who has not learnt the careful one.
pub open spec fn closing_range(s: CraftingState) -> u16 {
    if s.attributes.level >= 62 {
        closing_reach(s, Action::CarefulSynthesis)
    } else {
        closing_reach(s, Action::BasicSynthesis)
    }
}

/// Whether state `next` is one that the closing synthesis completes: it
/// lacks progress, and no more than `range`.
pub open spec fn closes(next: CraftingState, range: u16) -> bool {
    0 < next.recipe.difficulty - next.progress <= range
}

/// Whether the first phase goes on from state `next`, reached from `s`: the
/// opening stays short of eight steps, and the rank falls.
pub open spec fn opens_further(s: CraftingState, next: CraftingState) -> bool {
    next.step < 8 && next.rank() < s.rank()
}

/// The routes that end with one of the actions `list`, from the `i`-th on,
/// played in state `s` after `actions`: those that the closing synthesis
/// completes.
pub open spec fn closing_routes(
    s: CraftingState,
    actions: Seq<Action>,
    range: u16,
    list: Seq<Action>,
    i: int,
) -> Seq<Route>
    decreases list.len() - i,
{
    if i < 0 || i >= list.len() {
        Seq::empty()
    } else {
        let rest = closing_routes(s, actions, range, list, i + 1);
        match s.step(list[i]) {
            Some(next) => if closes(next, range) {
                seq![Route { state: next, actions: actions.push(list[i]) }] + rest
            } else {
                rest
            },
            None => rest,
        }
    }
}

/// The routes that are found beyond the first `j` of the actions `list`,
/// played in state `s` after `actions`, the later actions first: each state
/// that the closing synthesis does not complete yet is opened further.
pub open spec fn deeper_routes(
    s: CraftingState,
    actions: Seq<Action>,
    range: u16,
    use_manipulation: bool,
    list: Seq<Action>,
    j: int,
) -> Seq<Route>
    decreases s.rank(), 0nat, j,
{
    if j <= 0 || j > list.len() {
        Seq::empty()
    } else {
        let rest = deeper_routes(s, actions, range, use_manipulation, list, j - 1);
        match s.step(list[j - 1]) {
            Some(next) => if !closes(next, range) && opens_further(s, next) {
                routes_from(next, actions.push(list[j - 1]), range, use_manipulation) + rest
            } else {
                rest
            },
            None => rest,
        }
    }
}

/// The routes of the first phase from state `s`, reached by `actions`: those
/// that close with the next action, in the order of the actions; then those
/// that are found deeper, the later actions first.
pub open spec fn routes_from(
    s: CraftingState,
    actions: Seq<Action>,
    range: u16,
    use_manipulation: bool,
) -> Seq<Route>
    decreases s.rank(), 1nat, 0nat,
{
    let list = picked(s, use_manipulation);
    closing_routes(s, actions, range, list, 0) + deeper_routes(
        s,
        actions,
        range,
        use_manipulation,
        list,
        list.len() as int,
    )
}

/// Whether each of `routes` is a play from state `root`: its actions can be
/// played from there, one after the other, and lead to its state.
pub open spec fn are_plays(root: CraftingState, routes: Seq<Route>) -> bool {
    forall|i: int|
        0 <= i < routes.len() ==> playable(root, (#[trigger] routes[i]).actions) && replay(
            root,
            routes[i].actions,
        ) == routes[i].state
}

/// Plays and more plays are plays.
pub proof fn lemma_plays_join(root: CraftingState, first: Seq<Route>, second: Seq<Route>)
    requires
        are_plays(root, first),
        are_plays(root, second),
    ensures
        are_plays(root, first + second),
{
    let both = first + second;
    assert forall|i: int| 0 <= i < both.len() implies playable(root, (#[trigger] both[i]).actions)
        && replay(root, both[i].actions) == both[i].state by {
        if i < first.len() {
            assert(both[i] == first[i]);
        } else {
            assert(both[i] == second[i - first.len()]);
        }
    }
}

/// The routes that close with the next action are plays, if the opening so
/// far is one.
pub proof fn lemma_closing_routes_are_plays(
    root: CraftingState,
    s: CraftingState,
    actions: Seq<Action>,
    range: u16,
    list: Seq<Action>,
    i: int,
)
    requires
        playable(root, actions),
        replay(root, actions) == s,
    ensures
        are_plays(root, closing_routes(s, actions, range, list, i)),
    decreases list.len() - i,
{
    if 0 <= i < list.len() {
        let rest = closing_routes(s, actions, range, list, i + 1);
        lemma_closing_routes_are_plays(root, s, actions, range, list, i + 1);
        match s.step(list[i]) {
            Some(next) => if closes(next, range) {
                lemma_replay_push(root, actions, list[i]);
                let one = seq![Route { state: next, actions: actions.push(list[i]) }];
                assert(are_plays(root, one));
                lemma_plays_join(root, one, rest);
            },
            None => {},
        }
    }
}

/// The routes that are found deeper are plays, if the opening so far is
/// one.
pub proof fn lemma_deeper_routes_are_plays(
    root: CraftingState,
    s: CraftingState,
    actions: Seq<Action>,
    range: u16,
    use_manipulation: bool,
    list: Seq<Action>,
    j: int,
)
    requires
        playable(root, actions),
        replay(root, actions) == s,
    ensures
        are_plays(root, deeper_routes(s, actions, range, use_manipulation, list, j)),
    decreases s.rank(), 0nat, j,
{
    if 0 < j <= list.len() {
        let rest = deeper_routes(s, actions, range, use_manipulation, list, j - 1);
        lemma_deeper_routes_are_plays(root, s, actions, range, use_manipulation, list, j - 1);
        match s.step(list[j - 1]) {
            Some(next) => if !closes(next, range) && opens_further(s, next) {
                lemma_replay_push(root, actions, list[j - 1]);
                lemma_routes_are_plays(
                    root,
                    next,
                    actions.push(list[j - 1]),
                    range,
                    use_manipulation,
                );
                lemma_plays_join(
                    root,
                    routes_from(next, actions.push(list[j - 1]), range, use_manipulation),
                    rest,
                );
            },
            None => {},
        }
    }
}

/// Every route of the first phase is a play: its actions can be played from
/// where the craft stands, and lead to the state that the route names.
pub proof fn lemma_routes_are_plays(
    root: CraftingState,
    s: CraftingState,
    actions: Seq<Action>,
    range: u16,
    use_manipulation: bool,
)
    requires
        playable(root, actions),
        replay(root, actions) == s,
    ensures
        are_plays(root, routes_from(s, actions, range, use_manipulation)),
    decreases s.rank(), 1nat, 0nat,
{
    let list = picked(s, use_manipulation);
    lemma_closing_routes_are_plays(root, s, actions, range, list, 0);
    lemma_deeper_routes_are_plays(
        root,
        s,
        actions,
        range,
        use_manipulation,
        list,
        list.len() as int,
    );
    lemma_plays_join(
        root,
        closing_routes(s, actions, range, list, 0),
        deeper_routes(s, actions, range, use_manipulation, list, list.len() as int),
    );
}

/// Computes [`closing_reach`].
fn reach_of(s: &CraftingState, a: Action) -> (r: u16)
    requires
        s.valid(),
        a != Action::StellarSteadyHand,
    ensures
        r == closing_reach(*s, a),
{
    let mut scratch = *s;
    scratch.progress = 0;
    scratch.buffs.final_appraisal = 0;
    scratch.cast_action(a);
    scratch.progress
}

/// Computes [`closing_range`].
fn range_of(s: &CraftingState) -> (r: u16)
    requires
        s.valid(),
    ensures
        r == closing_range(*s),
{
    if s.attributes.level >= 62 {
        reach_of(s, Action::CarefulSynthesis)
    } else {
        reach_of(s, Action::BasicSynthesis)
    }
}

/// A route as it is held while the solver runs.
pub struct OpenRoute {
    pub state: CraftingState,
    pub actions: Vec<Action>,
}

impl View for OpenRoute {
    type V = Route;

    open spec fn view(&self) -> Route {
        Route { state: self.state, actions: self.actions@ }
    }
}

/// The routes in `routes`, as values.
pub open spec fn routes_view(routes: Seq<OpenRoute>) -> Seq<Route> {
    routes.map_values(|r: OpenRoute| r@)
}

/// Collects [`routes_from`] into `routes`.
fn collect_routes(
    s: &CraftingState,
    actions: &Vec<Action>,
    range: u16,
    use_manipulation: bool,
    routes: &mut Vec<OpenRoute>,
)
    ensures
        routes_view(final(routes)@) == routes_view(old(routes)@) + routes_from(
            *s,
            actions@,
            range,
            use_manipulation,
        ),
    decreases s.rank(),
{
    let list = next_action_picker_1(*s, use_manipulation);
    let ghost before = routes_view(routes@);
    let ghost whole = routes_from(*s, actions@, range, use_manipulation);
    let mut i: usize = 0;
    assert(before + Seq::<Route>::empty() =~= before);
    while i < list.len()
        invariant
            i <= list.len(),
            list@ == picked(*s, use_manipulation),
            routes_view(routes@) + closing_routes(*s, actions@, range, list@, i as int) == before
                + closing_routes(*s, actions@, range, list@, 0),
        decreases list.len() - i,
    {
        let ghost held = routes_view(routes@);
        let ghost rest = closing_routes(*s, actions@, range, list@, i + 1);
        match s.try_step(list[i]) {
            Some(next) => {
                let lack = next.recipe.difficulty - next.progress;
                if 0 < lack && lack <= range {
                    let mut longer = clone_actions(actions);
                    longer.push(list[i]);
                    let ghost route = Route { state: next, actions: longer@ };
                    routes.push(OpenRoute { state: next, actions: longer });
                    assert(routes_view(routes@) =~= held.push(route));
                    assert(held.push(route) + rest =~= held + (seq![route] + rest));
                }
            },
            None => {},
        }
        i = i + 1;
    }
    let ghost closed = routes_view(routes@);
    assert(closed + Seq::<Route>::empty() =~= closed);
    assert(closed =~= before + closing_routes(*s, actions@, range, list@, 0));
    let mut j: usize = list.len();
    assert(closed + deeper_routes(*s, actions@, range, use_manipulation, list@, j as int)
        =~= before + whole);
    while j > 0
        invariant
            j <= list.len(),
            list@ == picked(*s, use_manipulation),
            routes_view(routes@) + deeper_routes(
                *s,
                actions@,
                range,
                use_manipulation,
                list@,
                j as int,
            ) == before + whole,
        decreases j,
    {
        let ghost held = routes_view(routes@);
        let ghost rest = deeper_routes(*s, actions@, range, use_manipulation, list@, j - 1);
        match s.try_step(list[j - 1]) {
            Some(next) => {
                let lack = next.recipe.difficulty - next.progress;
                let closing = 0 < lack && lack <= range;
                if !closing && next.step < 8 && next.rank_of() < s.rank_of() {
                    let mut longer = clone_actions(actions);
                    longer.push(list[j - 1]);
                    let ghost found = routes_from(next, longer@, range, use_manipulation);
                    collect_routes(&next, &longer, range, use_manipulation, routes);
                    assert(held + (found + rest) =~= (held + found) + rest);
                }
            },
            None => {},
        }
        j = j - 1;
    }
    assert(routes_view(routes@) + Seq::<Route>::empty() =~= routes_view(routes@));
}

/// The routes of the first phase from state `s`: the openings after which
/// one closing synthesis completes the recipe, each with the state it comes
/// to. Each is a play from `s`.
pub fn generate_routes_phase1(s: &CraftingState, use_manipulation: bool) -> (r: Vec<OpenRoute>)
    ensures
        routes_view(r@) == if s.valid() {
            routes_from(*s, Seq::empty(), closing_range(*s), use_manipulation)
        } else {
            Seq::empty()
        },
        are_plays(*s, routes_view(r@)),
{
    proof {
        assert(playable(*s, Seq::<Action>::empty()));
        assert(replay(*s, Seq::<Action>::empty()) == *s);
        lemma_routes_are_plays(*s, *s, Seq::empty(), closing_range(*s), use_manipulation);
    }
    let mut routes: Vec<OpenRoute> = Vec::new();
    assert(routes_view(routes@) =~= Seq::<Route>::empty());
    if !s.is_valid() {
        return routes;
    }
    let range = range_of(s);
    let start: Vec<Action> = Vec::new();
    let ghost found = routes_from(*s, Seq::empty(), range, use_manipulation);
    collect_routes(s, &start, range, use_manipulation, &mut routes);
    assert(Seq::<Route>::empty() + found =~= found);
    routes
}

/// What the search of the second phase is made of: what the quality solver
/// may use, the state it was made for, and the extent of its table.
pub struct Frame {
    pub cfg: Allowance,
    pub init: CraftingState,
    pub shape: MemoKey,
}

/// What the quality solver plays from state `s` on: it is asked for the
/// action of the state's share, and the action is played, until it has none
/// or the action is not playable or does not lower the rank. The table as
/// the play leaves it, the state at the end, and the actions played.
pub open spec fn touch_play(f: Frame, memo: Map<MemoKey, Slot>, s: CraftingState) -> (
    Map<MemoKey, Slot>,
    CraftingState,
    Seq<Action>,
)
    decreases s.rank(),
{
    let found = touch_explore(
        f.cfg,
        f.shape,
        f.init,
        memo,
        touch_state(f.init, s.craft_points, s.durability, s),
    );
    match found.1.action {
        None => (found.0, s, Seq::empty()),
        Some(a) => match s.step(a) {
            None => (found.0, s, Seq::empty()),
            Some(next) => if next.rank() >= s.rank() {
                (found.0, s, Seq::empty())
            } else {
                let rest = touch_play(f, found.0, next);
                (rest.0, rest.1, seq![a] + rest.2)
            },
        },
    }
}

/// The best play so far: none yet, or a score with its actions.
pub struct Champion {
    pub found: bool,
    pub score: Score,
    pub actions: Seq<Action>,
}

/// The best play after a play of `score` and `actions` has come in: the new
/// one, unless the best so far scores above it; of plays that score alike
/// the last stays.
pub open spec fn challenged(best: Champion, score: Score, actions: Seq<Action>) -> Champion {
    if best.found && best.score.above(score) {
        best
    } else {
        Champion { found: true, score, actions }
    }
}

/// The second phase for one route: the search over the shares of the
/// resources that the route has left after the cost of the closing action
/// is set aside, from the share of `cp` craft points and five times `fives`
/// of durability on, the generous shares first. From each share the quality
/// solver plays, and the play, closed by `closer`, comes in with the score
/// of the state before the closing action. Unless steps are to be reduced,
/// the search is over as soon as a play ends short of the recipe's quality
/// target. The table as the search leaves it, and the best play.
pub open spec fn route_search(
    f: Frame,
    memo: Map<MemoKey, Slot>,
    route: Route,
    closer: Action,
    reduce_steps: bool,
    top: int,
    cp: int,
    fives: int,
    best: Champion,
) -> (Map<MemoKey, Slot>, Champion)
    decreases cp + 1, fives + 1,
{
    if cp < 0 || fives < 0 {
        (memo, best)
    } else if fives < 1 {
        route_search(f, memo, route, closer, reduce_steps, top, cp - 1, top, best)
    } else {
        let run = touch_play(f, memo, share_of(route.state, cp as i32, (5 * fives) as u16));
        let better = challenged(
            best,
            state_score(run.1),
            (route.actions + run.2).push(closer),
        );
        if !reduce_steps && run.1.quality < run.1.recipe.quality {
            (run.0, better)
        } else {
            route_search(f, run.0, route, closer, reduce_steps, top, cp, fives - 1, better)
        }
    }
}

/// The closing action for the state of a route, with the craft points it
/// costs: the basic synthesis where what the state lacks is within
/// `basic`, else the careful synthesis where it is within `careful`.
pub open spec fn route_closing(s: CraftingState, basic: u16, careful: u16) -> Option<
    (Action, i32),
> {
    let lack = s.recipe.difficulty - s.progress;
    if lack <= basic {
        Some((Action::BasicSynthesis, 0))
    } else if lack <= careful {
        Some((Action::CarefulSynthesis, 7))
    } else {
        None
    }
}

/// The second phase for the routes from the `i`-th on.
pub open spec fn routes_search(
    f: Frame,
    memo: Map<MemoKey, Slot>,
    routes: Seq<Route>,
    basic: u16,
    careful: u16,
    reduce_steps: bool,
    i: int,
    best: Champion,
) -> (Map<MemoKey, Slot>, Champion)
    decreases routes.len() - i,
{
    if i < 0 || i >= routes.len() {
        (memo, best)
    } else {
        let route = routes[i];
        match route_closing(route.state, basic, careful) {
            None => routes_search(f, memo, routes, basic, careful, reduce_steps, i + 1, best),
            Some((closer, cost)) => {
                let top = route.state.durability.saturating_sub(1) as int / 5;
                let found = route_search(
                    f,
                    memo,
                    route,
                    closer,
                    reduce_steps,
                    top,
                    route.state.craft_points - cost,
                    top,
                    best,
                );
                routes_search(f, found.0, routes, basic, careful, reduce_steps, i + 1, found.1)
            },
        }
    }
}

/// What [`solve`] answers: the actions of the best play that the two phases
/// find from `craft`, or nothing where they find none, where `craft` lies
/// outside the domain, or where no quality solver can be made for it.
pub open spec fn solved(craft: CraftingState, mn: bool, wn: usize, obz: bool, reduce_steps: bool)
    -> Seq<Action> {
    if !craft.valid() || !Solver::buildable(craft, mn, wn, obz) {
        Seq::empty()
    } else {
        let f = Frame {
            cfg: Allowance { mn, wn, obz },
            init: craft,
            shape: Solver::extent(craft, mn, wn, obz),
        };
        routes_search(
            f,
            blank_memo(),
            routes_from(craft, Seq::empty(), closing_range(craft), mn),
            closing_reach(craft, Action::BasicSynthesis),
            closing_reach(craft, Action::CarefulSynthesis),
            reduce_steps,
            0,
            Champion { found: false, score: state_score(craft), actions: Seq::empty() },
        ).1.actions
    }
}

/// The best play so far, as it is held while the solver runs.
struct Holder {
    found: bool,
    score: Score,
    actions: Vec<Action>,
}

impl View for Holder {
    type V = Champion;

    closed spec fn view(&self) -> Champion {
        Champion { found: self.found, score: self.score, actions: self.actions@ }
    }
}

/// Computes [`touch_play`].
fn play_touch(solver: &mut Solver, s: &CraftingState) -> (r: (CraftingState, Vec<Action>))
    ensures
        final(solver).allowance() == old(solver).allowance(),
        final(solver).origin() == old(solver).origin(),
        final(solver).shape() == old(solver).shape(),
        (final(solver).memo(), r.0, r.1@) == touch_play(
            Frame {
                cfg: old(solver).allowance(),
                init: old(solver).origin(),
                shape: old(solver).shape(),
            },
            old(solver).memo(),
            *s,
        ),
{
    let ghost f = Frame { cfg: solver.allowance(), init: solver.origin(), shape: solver.shape() };
    let ghost whole = touch_play(f, solver.memo(), *s);
    let mut result: Vec<Action> = Vec::new();
    let mut status = *s;
    let mut done = false;
    assert(result@ + whole.2 =~= whole.2);
    while !done
        invariant
            f == (Frame { cfg: solver.allowance(), init: solver.origin(), shape: solver.shape() }),
            done ==> (solver.memo(), status, result@) == whole,
            !done ==> whole.0 == touch_play(f, solver.memo(), status).0,
            !done ==> whole.1 == touch_play(f, solver.memo(), status).1,
            !done ==> whole.2 == result@ + touch_play(f, solver.memo(), status).2,
        decreases
                (if done {
                    0
                } else {
                    status.rank() + 1
                }),
    {
        let slot = solver.next_touch(status.craft_points, status.durability, &status);
        match slot.action {
            None => {
                assert(result@ + Seq::<Action>::empty() =~= result@);
                done = true;
            },
            Some(a) => {
                match status.try_step(a) {
                    None => {
                        assert(result@ + Seq::<Action>::empty() =~= result@);
                        done = true;
                    },
                    Some(next) => {
                        if next.rank_of() >= status.rank_of() {
                            assert(result@ + Seq::<Action>::empty() =~= result@);
                            done = true;
                        } else {
                            let ghost played = result@;
                            result.push(a);
                            let ghost tail = touch_play(f, solver.memo(), next);
                            assert(played + (seq![a] + tail.2) =~= result@ + tail.2);
                            status = next;
                        }
                    },
                }
            },
        }
    }
    (status, result)
}

/// Computes [`route_search`] for the whole of one route.
fn search_route(
    solver: &mut Solver,
    route: &OpenRoute,
    closer: Action,
    cost: i32,
    reduce_steps: bool,
    best: Holder,
) -> (r: Holder)
    requires
        0 <= cost <= 7,
    ensures
        final(solver).allowance() == old(solver).allowance(),
        final(solver).origin() == old(solver).origin(),
        final(solver).shape() == old(solver).shape(),
        (final(solver).memo(), r@) == route_search(
            Frame {
                cfg: old(solver).allowance(),
                init: old(solver).origin(),
                shape: old(solver).shape(),
            },
            old(solver).memo(),
            route@,
            closer,
            reduce_steps,
            route.state.durability.saturating_sub(1) as int / 5,
            route.state.craft_points - cost,
            route.state.durability.saturating_sub(1) as int / 5,
            best@,
        ),
{
    let ghost f = Frame { cfg: solver.allowance(), init: solver.origin(), shape: solver.shape() };
    let top: u16 = route.state.durability.saturating_sub(1) / 5;
    let ghost whole = route_search(
        f,
        solver.memo(),
        route@,
        closer,
        reduce_steps,
        top as int,
        route.state.craft_points - cost,
        top as int,
        best@,
    );
    let mut best = best;
    let mut cp: i32 = if route.state.craft_points >= cost {
        route.state.craft_points - cost
    } else {
        -1
    };
    let mut fives: u16 = top;
    let mut done = cp < 0;
    while !done
        invariant
            f == (Frame { cfg: solver.allowance(), init: solver.origin(), shape: solver.shape() }),
            top == route.state.durability.saturating_sub(1) / 5,
            -1 <= cp,
            0 <= fives <= top,
            done ==> (solver.memo(), best@) == whole,
            !done ==> whole == route_search(
                f,
                solver.memo(),
                route@,
                closer,
                reduce_steps,
                top as int,
                cp as int,
                fives as int,
                best@,
            ),
        decreases
                (if done {
                    0
                } else {
                    cp + 2
                }),
                fives,
    {
        if cp < 0 {
            done = true;
        } else if fives < 1 {
            cp = cp - 1;
            fives = top;
        } else {
            let mut start = route.state;
            start.craft_points = cp;
            start.durability = 5 * fives;
            assert(start == share_of(route.state, cp, (5 * fives) as u16));
            let (end, played) = play_touch(solver, &start);
            let score = Score { quality: end.quality, prgress: end.progress, steps: end.step as u16 };
            if !(best.found && best.score.beats(&score)) {
                let mut actions = clone_actions(&route.actions);
                let mut i: usize = 0;
                while i < played.len()
                    invariant
                        i <= played.len(),
                        actions@ == route.actions@ + played@.take(i as int),
                    decreases played.len() - i,
                {
                    actions.push(played[i]);
                    assert(played@.take(i + 1) =~= played@.take(i as int).push(played@[i as int]));
                    assert(actions@ =~= route.actions@ + played@.take(i + 1));
                    i = i + 1;
                }
                assert(played@.take(played.len() as int) =~= played@);
                actions.push(closer);
                best = Holder { found: true, score, actions };
            }
            if !reduce_steps && end.quality < end.recipe.quality {
                done = true;
            } else {
                fives = fives - 1;
            }
        }
    }
    best
}

/// Solves the craft from `craft`: opens it, adds quality, closes it.
pub fn solve(craft: CraftingState, mn: bool, wn: usize, obz: bool, reduce_steps: bool) -> (r: Vec<
    Action,
>)
    ensures
        r@ == solved(craft, mn, wn, obz, reduce_steps),
{
    if !craft.is_valid() || !Solver::can_build(&craft, mn, wn, obz) {
        return Vec::new();
    }
    let mut solver = Solver::new(craft, mn, wn, obz);
    let routes = generate_routes_phase1(&craft, mn);
    let basic = reach_of(&craft, Action::BasicSynthesis);
    let careful = reach_of(&craft, Action::CarefulSynthesis);
    let ghost f = Frame { cfg: solver.allowance(), init: solver.origin(), shape: solver.shape() };
    let ghost list = routes_view(routes@);
    let ghost best0 = Champion {
        found: false,
        score: state_score(craft),
        actions: Seq::<Action>::empty(),
    };
    let ghost whole = routes_search(f, blank_memo(), list, basic, careful, reduce_steps, 0, best0);
    let mut best = Holder {
        found: false,
        score: Score { quality: craft.quality, prgress: craft.progress, steps: craft.step as u16 },
        actions: Vec::new(),
    };
    let mut i: usize = 0;
    while i < routes.len()
        invariant
            i <= routes.len(),
            list == routes_view(routes@),
            list.len() == routes.len(),
            f == (Frame { cfg: solver.allowance(), init: solver.origin(), shape: solver.shape() }),
            routes_search(f, solver.memo(), list, basic, careful, reduce_steps, i as int, best@)
                == whole,
        decreases routes.len() - i,
    {
        let route = &routes[i];
        assert(list[i as int] == route@);
        let lack: i32 = route.state.recipe.difficulty as i32 - route.state.progress as i32;
        if lack <= basic as i32 {
            best = search_route(&mut solver, route, Action::BasicSynthesis, 0, reduce_steps, best);
        } else if lack <= careful as i32 {
            best = search_route(&mut solver, route, Action::CarefulSynthesis, 7, reduce_steps, best);
        }
        i = i + 1;
    }
    best.actions
}

} // verus!
