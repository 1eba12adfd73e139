use vstd::prelude::*;
use crate::corners::solved_corners;
use crate::cube::{CubeAxis, Face, Turn333};
use crate::cubie::CubieCube;
use crate::edges::{e_bad, solved_edges};
use crate::finish_config::{finish_transitions, finish_transitions_spec};
use crate::laws::{apply_turns, lemma_apply_concat, state_ok, turn_state, State};
use crate::step::{
    allowed_after_spec, bit_set, canonical_pair, face_of_id, lemma_allowed_after, TransitionTable333,
};
use crate::validity::{solvability, solvable, InvalidState};

verus! {

/// What a search is to reach.
#[derive(Clone, Copy, Debug, PartialEq, Eq, Structural)]
pub enum Goal {
    /// The solved cube.
    Solved,
    /// Every edge well oriented about the F/B axis.
    EdgesOrientedFB,
}

pub open spec fn goal_holds(g: Goal, s: State) -> bool {
    match g {
        Goal::Solved => s.0 == solved_edges() && s.1 == solved_corners(),
        Goal::EdgesOrientedFB => forall|i: int| 0 <= i < 12 ==> !e_bad(#[trigger] s.0[i], CubeAxis::FB),
    }
}

/// No turn is followed by one of the same face, nor by a non-canonical turn
/// of the opposite face.
pub open spec fn canonical_seq(ms: Seq<Turn333>) -> bool {
    forall|i: int| 0 <= i < ms.len() - 1 ==> #[trigger] canonical_at(ms, i)
}

/// The turns at `i` and `i + 1` make a canonical pair.
pub open spec fn canonical_at(ms: Seq<Turn333>, i: int) -> bool {
    canonical_pair(ms[i].face, ms[i + 1].face)
}

/// Turn `t` is one of `moves`.
#[verifier::opaque]
pub open spec fn uses_move(moves: Seq<Turn333>, t: Turn333) -> bool {
    moves.contains(t)
}

/// A solution of `s` for `g` with turns of `moves`, canonical, that may
/// follow a turn of face `last` when there is one.
#[verifier::opaque]
pub open spec fn solution_of(
    g: Goal,
    s: State,
    moves: Seq<Turn333>,
    last: Option<Face>,
    sol: Seq<Turn333>,
) -> bool {
    &&& goal_holds(g, apply_turns(s, sol))
    &&& canonical_seq(sol)
    &&& forall|i: int| 0 <= i < sol.len() ==> uses_move(moves, #[trigger] sol[i])
    &&& (last.is_some() && sol.len() > 0 ==> canonical_pair(last.unwrap(), sol[0].face))
}

/// A solution reaches its goal, never turns the same face twice in a row nor
/// two opposite faces in non-canonical order, and uses only the given turns.
pub proof fn lemma_solution_is_canonical_and_reaches_goal(
    g: Goal,
    s: State,
    moves: Seq<Turn333>,
    sol: Seq<Turn333>,
)
    requires
        solution_of(g, s, moves, None, sol),
    ensures
        goal_holds(g, apply_turns(s, sol)),
        forall|i: int|
            0 <= i < sol.len() - 1 ==> canonical_pair(#[trigger] sol[i].face, sol[i + 1].face),
        forall|i: int| 0 <= i < sol.len() ==> moves.contains(#[trigger] sol[i]),
{
    reveal(solution_of);
    reveal(uses_move);
    assert forall|i: int| 0 <= i < sol.len() - 1 implies canonical_pair(
        #[trigger] sol[i].face,
        sol[i + 1].face,
    ) by {
        assert(canonical_at(sol, i));
    }
    assert forall|i: int| 0 <= i < sol.len() implies moves.contains(#[trigger] sol[i]) by {
        assert(uses_move(moves, sol[i]));
    }
}

/// No solution of exactly `d` turns.
pub open spec fn no_solution_of_len(
    g: Goal,
    s: State,
    moves: Seq<Turn333>,
    last: Option<Face>,
    d: nat,
) -> bool {
    forall|sol: Seq<Turn333>| sol.len() == d ==> !#[trigger] solution_of(g, s, moves, last, sol)
}

/// No solution of exactly `d` turns that starts with `m`.
pub open spec fn no_solution_starting(
    g: Goal,
    s: State,
    moves: Seq<Turn333>,
    last: Option<Face>,
    d: nat,
    m: Turn333,
) -> bool {
    forall|sol: Seq<Turn333>|
        sol.len() == d && sol[0] == m ==> !#[trigger] solution_of(g, s, moves, last, sol)
}

pub open spec fn last_face(last: Option<Turn333>) -> Option<Face> {
    match last {
        Some(t) => Some(t.face),
        None => None,
    }
}

pub open spec fn state_of(c: CubieCube) -> State {
    (c.edges@, c.corners@)
}

proof fn lemma_face_of_id(t: Turn333)
    ensures
        face_of_id(t.spec_id()) == t.face,
        0 <= t.spec_id() < 18,
{
}

pub proof fn lemma_apply_first(s: State, m: Turn333, rest: Seq<Turn333>)
    ensures
        apply_turns(s, seq![m] + rest) == apply_turns(turn_state(s, m), rest),
{
    let first = seq![m];
    lemma_apply_concat(s, first, rest);
    assert(first.drop_last() =~= Seq::<Turn333>::empty());
    assert(first.last() == m);
    assert(apply_turns(s, first.drop_last()) == s);
}

proof fn lemma_prepend_canonical(moves: Seq<Turn333>, m: Turn333, rest: Seq<Turn333>)
    requires
        canonical_seq(rest),
        rest.len() > 0 ==> canonical_pair(m.face, rest[0].face),
        forall|i: int| 0 <= i < rest.len() ==> uses_move(moves, #[trigger] rest[i]),
        uses_move(moves, m),
    ensures
        canonical_seq(seq![m] + rest),
        forall|i: int| 0 <= i < rest.len() + 1 ==> uses_move(moves, #[trigger] (seq![m] + rest)[i]),
{
    let sol = seq![m] + rest;
    assert(sol.len() == rest.len() + 1);
    assert(sol[0] == m);
    assert forall|i: int| 0 <= i < sol.len() - 1 implies #[trigger] canonical_at(sol, i) by {
        assert(sol[i + 1] == rest[i]);
        if i > 0 {
            assert(sol[i] == rest[i - 1]);
            assert(canonical_at(rest, i - 1));
        }
    }
    assert forall|i: int| 0 <= i < rest.len() + 1 implies uses_move(moves, #[trigger] sol[i]) by {
        if i > 0 {
            assert(sol[i] == rest[i - 1]);
        }
    }
}

proof fn lemma_prepend(
    g: Goal,
    s: State,
    moves: Seq<Turn333>,
    last: Option<Face>,
    m: Turn333,
    rest: Seq<Turn333>,
)
    requires
        solution_of(g, turn_state(s, m), moves, Some(m.face), rest),
        uses_move(moves, m),
        last.is_some() ==> canonical_pair(last.unwrap(), m.face),
    ensures
        solution_of(g, s, moves, last, seq![m] + rest),
{
    reveal(solution_of);
    lemma_apply_first(s, m, rest);
    lemma_prepend_canonical(moves, m, rest);
    assert((seq![m] + rest)[0] == m);
}

/// A solution that starts with `sol[0]` continues, after that turn, with a
/// solution of the rest.
proof fn lemma_unprepend(
    g: Goal,
    s: State,
    moves: Seq<Turn333>,
    last: Option<Face>,
    sol: Seq<Turn333>,
)
    requires
        solution_of(g, s, moves, last, sol),
        sol.len() > 0,
    ensures
        solution_of(g, turn_state(s, sol[0]), moves, Some(sol[0].face), sol.drop_first()),
        last.is_some() ==> canonical_pair(last.unwrap(), sol[0].face),
        uses_move(moves, sol[0]),
{
    reveal(solution_of);
    let m = sol[0];
    let rest = sol.drop_first();
    assert(sol =~= seq![m] + rest);
    lemma_apply_first(s, m, rest);
    assert forall|i: int| 0 <= i < rest.len() - 1 implies #[trigger] canonical_at(rest, i) by {
        assert(canonical_at(sol, i + 1));
    }
    if rest.len() > 0 {
        assert(canonical_at(sol, 0));
    }
    assert forall|i: int| 0 <= i < rest.len() implies uses_move(moves, #[trigger] rest[i]) by {
        assert(rest[i] == sol[i + 1]);
    }
}

/// Whether `m` may follow `last` in a canonical sequence.
fn may_follow(tr: &[TransitionTable333; 18], last: Option<Turn333>, m: Turn333) -> (r: bool)
    requires
        tr@ == finish_transitions_spec(),
    ensures
        r == (last.is_none() || canonical_pair(last.unwrap().face, m.face)),
{
    match last {
        Some(p) => {
            let pid = p.to_id();
            let ok = tr[pid].allows(m.to_id() as u32);
            proof {
                lemma_face_of_id(p);
                lemma_face_of_id(m);
                lemma_allowed_after(p.face);
                assert(tr@[pid as int].allowed_moves == allowed_after_spec(p.face));
                assert(ok == bit_set(allowed_after_spec(p.face), m.spec_id() as u32));
            }
            ok
        },
        None => true,
    }
}

fn goal_reached(c: &CubieCube, g: Goal) -> (r: bool)
    ensures
        r == goal_holds(g, state_of(*c)),
{
    match g {
        Goal::Solved => {
            let solved = CubieCube::new_solved();
            *c == solved
        },
        Goal::EdgesOrientedFB => {
            let mut i: usize = 0;
            while i < 12
                invariant
                    0 <= i <= 12,
                    g == Goal::EdgesOrientedFB,
                    c.edges@.len() == 16,
                    forall|j: int| 0 <= j < i ==> !e_bad(#[trigger] c.edges@[j], CubeAxis::FB),
                decreases 12 - i,
            {
                if c.edges.0[i] & 0x40 != 0 {
                    let ghost s = state_of(*c);
                    assert(e_bad(s.0[i as int], CubeAxis::FB));
                    assert(!goal_holds(g, s));
                    return false;
                }
                i += 1;
            }
            true
        },
    }
}

/// A solution of exactly `depth` turns, if there is one the depth-first order
/// reaches first.
fn search_depth(
    c: &CubieCube,
    g: Goal,
    moves: &Vec<Turn333>,
    tr: &[TransitionTable333; 18],
    depth: usize,
    last: Option<Turn333>,
) -> (r: Option<Vec<Turn333>>)
    requires
        state_ok(state_of(*c)),
        c.edges@.len() == 16,
        tr@ == finish_transitions_spec(),
    ensures
        r.is_some() ==> r.unwrap()@.len() == depth && solution_of(
            g,
            state_of(*c),
            moves@,
            last_face(last),
            r.unwrap()@,
        ),
        r.is_none() ==> no_solution_of_len(g, state_of(*c), moves@, last_face(last), depth as nat),
    decreases depth,
{
    if depth == 0 {
        if goal_reached(c, g) {
            proof {
                reveal(solution_of);
                assert(apply_turns(state_of(*c), Seq::<Turn333>::empty()) == state_of(*c));
            }
            return Some(Vec::new());
        }
        proof {
            reveal(solution_of);
            assert forall|sol: Seq<Turn333>| sol.len() == 0 implies !#[trigger] solution_of(
                g,
                state_of(*c),
                moves@,
                last_face(last),
                sol,
            ) by {
                assert(sol =~= Seq::<Turn333>::empty());
                assert(apply_turns(state_of(*c), sol) == state_of(*c));
            }
        }
        return None;
    }
    let mut k: usize = 0;
    while k < moves.len()
        invariant
            0 <= k <= moves@.len(),
            depth > 0,
            state_ok(state_of(*c)),
            c.edges@.len() == 16,
            tr@ == finish_transitions_spec(),
            forall|j: int|
                0 <= j < k ==> #[trigger] no_solution_starting(
                    g,
                    state_of(*c),
                    moves@,
                    last_face(last),
                    depth as nat,
                    moves@[j],
                ),
        decreases moves@.len() - k,
    {
        let m = moves[k];
        let allowed = may_follow(tr, last, m);
        if allowed {
            let mut next = *c;
            next.turn(m);
            proof {
                crate::laws::lemma_turn_ok(state_of(*c), m);
            }
            match search_depth(&next, g, moves, tr, depth - 1, Some(m)) {
                Some(rest) => {
                    let mut sol: Vec<Turn333> = Vec::new();
                    sol.push(m);
                    let mut rest = rest;
                    proof {
                        assert(moves@[k as int] == m);
                        reveal(uses_move);
                        assert(uses_move(moves@, m));
                        lemma_prepend(
                            g,
                            state_of(*c),
                            moves@,
                            last_face(last),
                            m,
                            rest@,
                        );
                        assert(sol@ =~= seq![m]);
                    }
                    sol.append(&mut rest);
                    return Some(sol);
                },
                None => {
                    proof {
                        assert forall|sol: Seq<Turn333>|
                            sol.len() == depth && sol[0] == m implies !#[trigger] solution_of(
                            g,
                            state_of(*c),
                            moves@,
                            last_face(last),
                            sol,
                        ) by {
                            if solution_of(g, state_of(*c), moves@, last_face(last), sol) {
                                lemma_unprepend(g, state_of(*c), moves@, last_face(last), sol);
                                assert(sol.drop_first().len() == depth - 1);
                            }
                        }
                    }
                },
            }
        } else {
            proof {
                assert forall|sol: Seq<Turn333>|
                    sol.len() == depth && sol[0] == m implies !#[trigger] solution_of(
                    g,
                    state_of(*c),
                    moves@,
                    last_face(last),
                    sol,
                ) by {
                    if solution_of(g, state_of(*c), moves@, last_face(last), sol) {
                        lemma_unprepend(g, state_of(*c), moves@, last_face(last), sol);
                    }
                }
            }
        }
        assert(moves@[k as int] == m);
        k += 1;
    }
    proof {
        assert forall|sol: Seq<Turn333>| sol.len() == depth implies !#[trigger] solution_of(
            g,
            state_of(*c),
            moves@,
            last_face(last),
            sol,
        ) by {
            if solution_of(g, state_of(*c), moves@, last_face(last), sol) {
                lemma_unprepend(g, state_of(*c), moves@, last_face(last), sol);
                reveal(uses_move);
                let j = choose|j: int| 0 <= j < moves@.len() && moves@[j] == sol[0];
                assert(no_solution_starting(
                    g,
                    state_of(*c),
                    moves@,
                    last_face(last),
                    depth as nat,
                    moves@[j],
                ));
            }
        }
    }
    None
}

/// Searches for a canonical solution of at most `max_depth` turns of `moves`,
/// depth by depth: the solution found is a shortest one, and `None` means
/// there is none within the bound. A cube that cannot be solved is refused.
pub fn solve(c: &CubieCube, g: Goal, moves: &Vec<Turn333>, max_depth: usize) -> (r: Result<
    Option<Vec<Turn333>>,
    InvalidState,
>)
    ensures
        r.is_err() <==> !solvable(c.edges@, c.corners@),
        r matches Err(e) ==> solvability(c.edges@, c.corners@) == Err::<(), InvalidState>(e),
        r matches Ok(Some(sol)) ==> sol@.len() <= max_depth && solution_of(
            g,
            state_of(*c),
            moves@,
            None,
            sol@,
        ) && forall|d: nat|
            d < sol@.len() ==> #[trigger] no_solution_of_len(g, state_of(*c), moves@, None, d),
        r matches Ok(None) ==> forall|d: nat|
            d <= max_depth ==> #[trigger] no_solution_of_len(g, state_of(*c), moves@, None, d),
{
    match c.check_solvable() {
        Err(e) => {
            return Err(e);
        },
        Ok(()) => {},
    }
    let tr = finish_transitions();
    let mut d: usize = 0;
    while d <= max_depth
        invariant
            state_ok(state_of(*c)),
            c.edges@.len() == 16,
            tr@ == finish_transitions_spec(),
            solvable(c.edges@, c.corners@),
            d <= max_depth,
            forall|e: nat| e < d ==> #[trigger] no_solution_of_len(g, state_of(*c), moves@, None, e),
        decreases max_depth + 1 - d,
    {
        match search_depth(c, g, moves, &tr, d, None) {
            Some(sol) => {
                return Ok(Some(sol));
            },
            None => {},
        }
        if d == max_depth {
            proof {
                assert forall|e: nat| e <= max_depth implies #[trigger] no_solution_of_len(
                    g,
                    state_of(*c),
                    moves@,
                    None,
                    e,
                ) by {
                    if e < d {
                    }
                }
            }
            return Ok(None);
        }
        d += 1;
    }
    Ok(None)
}

} // verus!
