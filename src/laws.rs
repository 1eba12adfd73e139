use vstd::prelude::*;
use crate::corners::{
    corner_bytes_ok, corner_inverse, corner_quarters, corner_rotations, corners_wf,
    lemma_corner_inverse, lemma_corner_quarters_add, lemma_corner_quarters_mult_four,
    lemma_corner_quarters_ok, lemma_corner_rotations_solved, solved_corners,
};
use crate::cube::{quarters, Direction, Transformation333, Turn333};
use crate::cubie::turned;
use crate::edges::{
    edge_inverse, edge_quarters, edge_rotations, edges_wf, lemma_edge_inverse,
    lemma_edge_quarters_add, lemma_edge_quarters_len, lemma_edge_quarters_mult_four,
    lemma_edge_rotations_solved, solved_edges,
};

verus! {

/// Edge and corner bytes of a cube state.
pub type State = (Seq<u8>, Seq<u8>);

/// A state that turns act on: sixteen edge bytes, and corner bytes in range.
pub open spec fn state_ok(s: State) -> bool {
    s.0.len() == 16 && corner_bytes_ok(s.1)
}

pub open spec fn turn_state(s: State, m: Turn333) -> State {
    turned(s.0, s.1, m)
}

/// The state after the turns of `ms`, first to last.
pub open spec fn apply_turns(s: State, ms: Seq<Turn333>) -> State
    decreases ms.len(),
{
    if ms.len() == 0 {
        s
    } else {
        turn_state(apply_turns(s, ms.drop_last()), ms.last())
    }
}

/// The turns that undo `ms`: its inverses in reverse order.
pub open spec fn reverse_inverse(ms: Seq<Turn333>) -> Seq<Turn333> {
    Seq::new(ms.len(), |i: int| ms[ms.len() - 1 - i].spec_inverse())
}

pub proof fn lemma_turn_ok(s: State, m: Turn333)
    requires
        state_ok(s),
    ensures
        state_ok(turn_state(s, m)),
{
    lemma_edge_quarters_len(s.0, m.face, quarters(m.dir));
    lemma_corner_quarters_ok(s.1, m.face, quarters(m.dir));
}

proof fn lemma_turn_then(s: State, m: Turn333, k: Turn333)
    requires
        k.face == m.face,
    ensures
        turn_state(turn_state(s, m), k) == (
            edge_quarters(s.0, m.face, quarters(m.dir) + quarters(k.dir)),
            corner_quarters(s.1, m.face, quarters(m.dir) + quarters(k.dir)),
        ),
{
    lemma_edge_quarters_add(s.0, m.face, quarters(m.dir), quarters(k.dir));
    lemma_corner_quarters_add(s.1, m.face, quarters(m.dir), quarters(k.dir));
}

/// Any face turn applied four times in a row gives back the state it started
/// from.
pub proof fn lemma_turn_four_times(s: State, m: Turn333)
    requires
        state_ok(s),
    ensures
        turn_state(turn_state(turn_state(turn_state(s, m), m), m), m) == s,
{
    let q = quarters(m.dir);
    lemma_turn_then(s, m, m);
    let s2 = turn_state(turn_state(s, m), m);
    lemma_turn_ok(s, m);
    lemma_turn_ok(turn_state(s, m), m);
    lemma_turn_then(s2, m, m);
    lemma_edge_quarters_add(s.0, m.face, q + q, q + q);
    lemma_corner_quarters_add(s.1, m.face, q + q, q + q);
    assert(q + q + (q + q) == 4 * q);
    lemma_edge_quarters_mult_four(s.0, m.face, q);
    lemma_corner_quarters_mult_four(s.1, m.face, q);
}

/// A half turn applied twice gives back the state it started from.
pub proof fn lemma_half_turn_twice(s: State, m: Turn333)
    requires
        state_ok(s),
        m.dir == Direction::Half,
    ensures
        turn_state(turn_state(s, m), m) == s,
{
    lemma_turn_then(s, m, m);
    lemma_edge_quarters_mult_four(s.0, m.face, 1);
    lemma_corner_quarters_mult_four(s.1, m.face, 1);
}

/// A turn followed by its inverse gives back the state.
pub proof fn lemma_turn_then_inverse(s: State, m: Turn333)
    requires
        state_ok(s),
    ensures
        turn_state(turn_state(s, m), m.spec_inverse()) == s,
{
    lemma_turn_then(s, m, m.spec_inverse());
    lemma_edge_quarters_mult_four(s.0, m.face, 1);
    lemma_corner_quarters_mult_four(s.1, m.face, 1);
}

pub proof fn lemma_apply_ok(s: State, ms: Seq<Turn333>)
    requires
        state_ok(s),
    ensures
        state_ok(apply_turns(s, ms)),
    decreases ms.len(),
{
    if ms.len() > 0 {
        lemma_apply_ok(s, ms.drop_last());
        lemma_turn_ok(apply_turns(s, ms.drop_last()), ms.last());
    }
}

/// Applying `a` and then `b` is applying `a + b`.
pub proof fn lemma_apply_concat(s: State, a: Seq<Turn333>, b: Seq<Turn333>)
    ensures
        apply_turns(apply_turns(s, a), b) == apply_turns(s, a + b),
    decreases b.len(),
{
    if b.len() > 0 {
        lemma_apply_concat(s, a, b.drop_last());
        assert((a + b).drop_last() =~= a + b.drop_last());
        assert((a + b).last() == b.last());
    }
}

/// Inverting a well-formed cube twice gives it back.
pub proof fn lemma_invert_twice(s: State)
    requires
        edges_wf(s.0),
        corners_wf(s.1),
    ensures
        edges_wf(edge_inverse(s.0)),
        corners_wf(corner_inverse(s.1)),
        (edge_inverse(edge_inverse(s.0)), corner_inverse(corner_inverse(s.1))) == s,
{
    lemma_edge_inverse(s.0);
    lemma_corner_inverse(s.1);
}

/// Applying a sequence of turns and then the same turns inverted, in reverse
/// order, gives back the state.
pub proof fn lemma_apply_then_reverse_inverse(s: State, ms: Seq<Turn333>)
    requires
        state_ok(s),
    ensures
        apply_turns(apply_turns(s, ms), reverse_inverse(ms)) == s,
    decreases ms.len(),
{
    if ms.len() > 0 {
        let pre = ms.drop_last();
        let m = ms.last();
        let mid = apply_turns(s, pre);
        lemma_apply_ok(s, pre);
        let first = seq![m.spec_inverse()];
        assert(reverse_inverse(ms) =~= first + reverse_inverse(pre));
        lemma_apply_concat(apply_turns(s, ms), first, reverse_inverse(pre));
        assert(first.drop_last() =~= Seq::<Turn333>::empty());
        assert(first.last() == m.spec_inverse());
        let x = apply_turns(s, ms);
        assert(x == turn_state(mid, m));
        assert(apply_turns(x, first.drop_last()) == x);
        assert(apply_turns(apply_turns(s, ms), first) == turn_state(
            turn_state(mid, m),
            m.spec_inverse(),
        ));
        lemma_turn_then_inverse(mid, m);
        lemma_apply_then_reverse_inverse(s, pre);
    }
}

/// Every whole-cube rotation leaves the solved cube solved.
pub proof fn lemma_transform_keeps_solved(t: Transformation333)
    ensures
        edge_rotations(solved_edges(), t.axis, quarters(t.dir)) == solved_edges(),
        corner_rotations(solved_corners(), t.axis, quarters(t.dir)) == solved_corners(),
{
    lemma_edge_rotations_solved(t.axis, quarters(t.dir));
    lemma_corner_rotations_solved(t.axis, quarters(t.dir));
}

} // verus!
