use vstd::prelude::*;
use vstd::arithmetic::div_mod::{
    lemma_fundamental_div_mod_converse, lemma_hoist_over_denominator, lemma_mod_multiples_vanish,
};
use crate::coords::{
    bit_of, eo_fb_value, lemma_eo_fb_value_bound, lemma_flipped_byte, lemma_two_pow_pos, two_pow,
};
use crate::cube::{quarters, CubeAxis, Face, Turn333};
use crate::cubie::EdgeCubieCube;
use crate::edges::{e_bad, edge_quarter, edge_quarters};
use crate::laws::{apply_turns, state_ok, turn_state, State};
use crate::search::lemma_apply_first;
use crate::tables::{cycle_src, edge_cycle, edge_turn_mask};

verus! {

/// Number of patterns of F/B orientation bits over the twelve edges.
pub const EO_FB_PATTERNS: u16 = 4096;

/// Largest depth a table holds; deeper entries stay at this value.
pub const MAX_DEPTH: u8 = 15;

/// The F/B orientation pattern of an edge state: bit `i` for edge slot `i`.
pub open spec fn eo_pattern(s: Seq<u8>) -> nat {
    eo_fb_value(s, 12)
}

/// The edge state at home whose edges are flipped as the bits of `c` say.
pub open spec fn eo_pattern_state(c: nat) -> Seq<u8> {
    Seq::new(
        16,
        |i: int|
            if i < 12 {
                (i as u8) | if bit_of(c, i as nat) {
                    0xe0u8
                } else {
                    0u8
                }
            } else {
                0u8
            },
    )
}

/// Two edge states agree on every edge's F/B orientation.
pub open spec fn same_fb(s: Seq<u8>, t: Seq<u8>) -> bool {
    forall|i: int| 0 <= i < 12 ==> e_bad(#[trigger] s[i], CubeAxis::FB) == e_bad(t[i], CubeAxis::FB)
}

/// The pattern that turn `m` makes of pattern `c`.
#[verifier::opaque]
pub open spec fn eo_step(c: nat, m: Turn333) -> nat {
    eo_pattern(edge_quarters(eo_pattern_state(c), m.face, quarters(m.dir)))
}

/// A table that is zero exactly at the oriented pattern and drops by at most
/// one along any turn of `moves`.
pub open spec fn eo_table_consistent(t: Seq<u8>, moves: Seq<Turn333>) -> bool {
    &&& t.len() == EO_FB_PATTERNS
    &&& t[0] == 0
    &&& forall|c: int| 0 <= c < EO_FB_PATTERNS && t[c] == 0 ==> c == 0
    &&& forall|c: int, j: int|
        0 <= c < EO_FB_PATTERNS && 0 <= j < moves.len() ==> #[trigger] t[c] <= t[eo_step(
            c as nat,
            #[trigger] moves[j],
        ) as int] + 1
}

proof fn lemma_two_pow_add(a: nat, b: nat)
    ensures
        two_pow(a + b) == two_pow(a) * two_pow(b),
    decreases b,
{
    if b > 0 {
        lemma_two_pow_add(a, (b - 1) as nat);
        assert((a + b - 1) as nat == a + (b - 1) as nat);
        assert(two_pow(a + b) == 2 * two_pow((a + b - 1) as nat));
        assert(two_pow(b) == 2 * two_pow((b - 1) as nat));
        let x = two_pow(a);
        let y = two_pow((b - 1) as nat);
        assert(2 * (x * y) == x * (2 * y)) by (nonlinear_arith);
    } else {
        assert(two_pow(0) == 1);
        assert(a + b == a);
    }
}

/// Bit `i` of the pattern value is edge `i`'s F/B bit.
pub proof fn lemma_eo_value_bits(s: Seq<u8>, n: nat, i: nat)
    requires
        i < n,
    ensures
        bit_of(eo_fb_value(s, n), i) == e_bad(s[i as int], CubeAxis::FB),
    decreases n,
{
    let m = (n - 1) as nat;
    let v = eo_fb_value(s, m) as int;
    let b: int = if e_bad(s[m as int], CubeAxis::FB) {
        1
    } else {
        0
    };
    let p = two_pow(m) as int;
    lemma_two_pow_pos(m);
    assert(eo_fb_value(s, n) == v + b * p);
    if i == m {
        lemma_eo_fb_value_bound(s, m);
        lemma_fundamental_div_mod_converse(v + b * p, p, b, v);
    } else {
        lemma_eo_value_bits(s, m, i);
        let k = (m - i - 1) as nat;
        lemma_two_pow_add(i, (m - i) as nat);
        lemma_two_pow_pos(i);
        let pi = two_pow(i) as int;
        let q = two_pow((m - i) as nat) as int;
        assert(q == 2 * two_pow(k));
        assert(p == pi * q);
        assert(b * p == (b * q) * pi) by (nonlinear_arith)
            requires
                p == pi * q,
        ;
        lemma_hoist_over_denominator(v, b * q, two_pow(i));
        assert((v + b * p) / pi == v / pi + b * q);
        assert(b * q == 2 * (b * (two_pow(k) as int))) by (nonlinear_arith)
            requires
                q == 2 * two_pow(k),
        ;
        lemma_mod_multiples_vanish(b * (two_pow(k) as int), v / pi, 2);
    }
}

proof fn lemma_fb_bit_of_xor(a: u8, m: u8)
    ensures
        e_bad(a ^ m, CubeAxis::FB) == (e_bad(a, CubeAxis::FB) != e_bad(m, CubeAxis::FB)),
{
    assert(((a ^ m) & 0x40u8 != 0) == ((a & 0x40u8 != 0) != (m & 0x40u8 != 0))) by (bit_vector);
}

/// A quarter turn's F/B bits depend on the F/B bits before it alone.
proof fn lemma_quarter_same_fb(s: Seq<u8>, t: Seq<u8>, f: Face)
    requires
        s.len() == 16,
        t.len() == 16,
        same_fb(s, t),
    ensures
        same_fb(edge_quarter(s, f), edge_quarter(t, f)),
{
    let c = edge_cycle(f);
    assert forall|i: int| 0 <= i < 12 implies e_bad(#[trigger] edge_quarter(s, f)[i], CubeAxis::FB)
        == e_bad(edge_quarter(t, f)[i], CubeAxis::FB) by {
        let j = cycle_src(c, i);
        assert(0 <= j < 12);
        lemma_fb_bit_of_xor(s[j], edge_turn_mask(f, i));
        lemma_fb_bit_of_xor(t[j], edge_turn_mask(f, i));
    }
}

proof fn lemma_quarters_same_fb(s: Seq<u8>, t: Seq<u8>, f: Face, n: nat)
    requires
        s.len() == 16,
        t.len() == 16,
        same_fb(s, t),
    ensures
        same_fb(edge_quarters(s, f, n), edge_quarters(t, f, n)),
        edge_quarters(s, f, n).len() == 16,
        edge_quarters(t, f, n).len() == 16,
    decreases n,
{
    if n > 0 {
        lemma_quarters_same_fb(s, t, f, (n - 1) as nat);
        lemma_quarter_same_fb(edge_quarters(s, f, (n - 1) as nat), edge_quarters(t, f, (n - 1) as nat), f);
    }
}

proof fn lemma_value_same_fb(s: Seq<u8>, t: Seq<u8>, n: nat)
    requires
        n <= 12,
        same_fb(s, t),
    ensures
        eo_fb_value(s, n) == eo_fb_value(t, n),
    decreases n,
{
    if n > 0 {
        lemma_value_same_fb(s, t, (n - 1) as nat);
        assert(e_bad(s[n - 1], CubeAxis::FB) == e_bad(t[n - 1], CubeAxis::FB));
    }
}

/// The state of a state's pattern has the same F/B bits as the state.
proof fn lemma_pattern_state_same_fb(s: Seq<u8>)
    ensures
        same_fb(eo_pattern_state(eo_pattern(s)), s),
        eo_pattern_state(eo_pattern(s)).len() == 16,
{
    let c = eo_pattern(s);
    assert forall|i: int| 0 <= i < 12 implies e_bad(#[trigger] eo_pattern_state(c)[i], CubeAxis::FB)
        == e_bad(s[i], CubeAxis::FB) by {
        lemma_eo_value_bits(s, 12, i as nat);
        lemma_flipped_byte(i as u8, bit_of(c, i as nat));
    }
}

/// The pattern after a turn follows from the pattern before it.
pub proof fn lemma_eo_step(s: Seq<u8>, m: Turn333)
    requires
        s.len() == 16,
    ensures
        eo_step(eo_pattern(s), m) == eo_pattern(edge_quarters(s, m.face, quarters(m.dir))),
{
    reveal(eo_step);
    lemma_pattern_state_same_fb(s);
    lemma_quarters_same_fb(eo_pattern_state(eo_pattern(s)), s, m.face, quarters(m.dir));
    lemma_value_same_fb(
        edge_quarters(eo_pattern_state(eo_pattern(s)), m.face, quarters(m.dir)),
        edge_quarters(s, m.face, quarters(m.dir)),
        12,
    );
}

/// Every edge is well oriented about F/B exactly when the pattern is zero.
pub proof fn lemma_pattern_zero(s: Seq<u8>)
    ensures
        (eo_pattern(s) == 0) == (forall|i: int| 0 <= i < 12 ==> !e_bad(#[trigger] s[i], CubeAxis::FB)),
{
    if eo_pattern(s) == 0 {
        assert forall|i: int| 0 <= i < 12 implies !e_bad(#[trigger] s[i], CubeAxis::FB) by {
            lemma_eo_value_bits(s, 12, i as nat);
            lemma_two_pow_pos(i as nat);
        }
    } else {
        lemma_value_zero(s, 12);
    }
}

proof fn lemma_value_zero(s: Seq<u8>, n: nat)
    requires
        n <= 12,
        eo_fb_value(s, n) != 0,
    ensures
        exists|i: int| 0 <= i < n && e_bad(#[trigger] s[i], CubeAxis::FB),
    decreases n,
{
    if !e_bad(s[n - 1], CubeAxis::FB) {
        lemma_value_zero(s, (n - 1) as nat);
    }
}

/// Patterns are below `EO_FB_PATTERNS`.
pub proof fn lemma_pattern_bound(s: Seq<u8>)
    ensures
        eo_pattern(s) < EO_FB_PATTERNS,
{
    lemma_eo_fb_value_bound(s, 12);
    reveal_with_fuel(two_pow, 13);
}

proof fn lemma_admissible_pattern(t: Seq<u8>, moves: Seq<Turn333>, s: State, sol: Seq<Turn333>)
    requires
        eo_table_consistent(t, moves),
        state_ok(s),
        forall|i: int| 0 <= i < sol.len() ==> moves.contains(#[trigger] sol[i]),
        eo_pattern(apply_turns(s, sol).0) == 0,
    ensures
        t[eo_pattern(s.0) as int] <= sol.len(),
    decreases sol.len(),
{
    lemma_pattern_bound(s.0);
    if sol.len() == 0 {
        assert(apply_turns(s, sol) == s);
    } else {
        let m = sol[0];
        let rest = sol.drop_first();
        assert(sol =~= seq![m] + rest);
        lemma_apply_first(s, m, rest);
        crate::laws::lemma_turn_ok(s, m);
        assert(moves.contains(sol[0]));
        let j = choose|j: int| 0 <= j < moves.len() && moves[j] == m;
        assert forall|i: int| 0 <= i < rest.len() implies moves.contains(#[trigger] rest[i]) by {
            assert(rest[i] == sol[i + 1]);
        }
        lemma_admissible_pattern(t, moves, turn_state(s, m), rest);
        lemma_eo_step(s.0, m);
        let c = eo_pattern(s.0) as int;
        assert(t[c] <= t[eo_step(c as nat, moves[j]) as int] + 1);
    }
}

/// The table's entry never exceeds the number of turns of any sequence of
/// `moves` that orients every edge about F/B.
pub proof fn lemma_eo_table_admissible(
    t: Seq<u8>,
    moves: Seq<Turn333>,
    s: State,
    sol: Seq<Turn333>,
)
    requires
        eo_table_consistent(t, moves),
        state_ok(s),
        forall|i: int| 0 <= i < sol.len() ==> moves.contains(#[trigger] sol[i]),
        forall|i: int| 0 <= i < 12 ==> !e_bad(#[trigger] apply_turns(s, sol).0[i], CubeAxis::FB),
    ensures
        eo_pattern(s.0) < EO_FB_PATTERNS,
        t[eo_pattern(s.0) as int] <= sol.len(),
{
    lemma_pattern_bound(s.0);
    lemma_pattern_zero(apply_turns(s, sol).0);
    lemma_admissible_pattern(t, moves, s, sol);
}

/// The table's entry is zero exactly on states whose edges are all well
/// oriented about F/B.
pub proof fn lemma_eo_table_zero(t: Seq<u8>, moves: Seq<Turn333>, s: Seq<u8>)
    requires
        eo_table_consistent(t, moves),
    ensures
        eo_pattern(s) < EO_FB_PATTERNS,
        (t[eo_pattern(s) as int] == 0) == (forall|i: int|
            0 <= i < 12 ==> !e_bad(#[trigger] s[i], CubeAxis::FB)),
{
    lemma_pattern_bound(s);
    lemma_pattern_zero(s);
}

/// The F/B orientation pattern of an edge state.
pub fn eo_fb_pattern(edges: &EdgeCubieCube) -> (r: u16)
    ensures
        r as nat == eo_pattern(edges@),
        r < EO_FB_PATTERNS,
{
    let mut acc: u16 = 0;
    let mut p: u16 = 1;
    let mut i: usize = 0;
    while i < 12
        invariant
            0 <= i <= 12,
            edges@.len() == 16,
            acc as nat == eo_fb_value(edges@, i as nat),
            p as nat == two_pow(i as nat),
            p <= 4096,
            acc < p,
        decreases 12 - i,
    {
        proof {
            lemma_eo_fb_value_bound(edges@, i as nat);
            lemma_two_pow_step(i as nat);
        }
        if edges.0[i] & 0x40 != 0 {
            acc = acc + p;
        }
        p = p * 2;
        i += 1;
    }
    proof {
        lemma_pattern_bound(edges@);
    }
    acc
}

proof fn lemma_two_pow_step(n: nat)
    requires
        n < 12,
    ensures
        1 <= two_pow(n) <= 2048,
        two_pow(n + 1) == 2 * two_pow(n),
    decreases 12 - n,
{
    lemma_two_pow_pos(n);
    if n < 11 {
        lemma_two_pow_step(n + 1);
    } else {
        reveal_with_fuel(two_pow, 12);
    }
}

fn pattern_state(c: u16) -> (r: EdgeCubieCube)
    requires
        c < EO_FB_PATTERNS,
    ensures
        r@ == eo_pattern_state(c as nat),
{
    let mut bytes = [0u8;16];
    let mut p: u16 = 1;
    let mut i: usize = 0;
    while i < 12
        invariant
            0 <= i <= 12,
            bytes@.len() == 16,
            p as nat == two_pow(i as nat),
            p <= 4096,
            forall|j: int| 0 <= j < i ==> bytes@[j] == eo_pattern_state(c as nat)[j],
            forall|j: int| i <= j < 16 ==> bytes@[j] == 0,
        decreases 12 - i,
    {
        proof {
            lemma_two_pow_step(i as nat);
        }
        bytes[i] = (i as u8) | if (c / p) % 2 == 1 {
            0xe0u8
        } else {
            0u8
        };
        p = p * 2;
        i += 1;
    }
    let r = EdgeCubieCube::new(bytes);
    assert(r@ =~= eo_pattern_state(c as nat));
    r
}

proof fn lemma_step_bound(c: nat, m: Turn333)
    ensures
        eo_step(c, m) < EO_FB_PATTERNS,
{
    reveal(eo_step);
    lemma_pattern_bound(edge_quarters(eo_pattern_state(c), m.face, quarters(m.dir)));
}

fn step_exec(c: u16, m: Turn333) -> (r: u16)
    requires
        c < EO_FB_PATTERNS,
    ensures
        r as nat == eo_step(c as nat, m),
        r < EO_FB_PATTERNS,
{
    let mut e = pattern_state(c);
    e.turn(m);
    proof {
        reveal(eo_step);
    }
    eo_fb_pattern(&e)
}

/// Some turn of `moves` leads from entry `c` to an entry one lower.
pub open spec fn has_descent(t: Seq<u8>, moves: Seq<Turn333>, c: int) -> bool {
    exists|j: int|
        0 <= j < moves.len() && t[eo_step(c as nat, #[trigger] moves[j]) as int] + 1 == t[c]
}

/// Every entry other than the goal's and below the cap is reached from an
/// entry one lower by a turn of `moves`: entries are exact distances up to the
/// cap, given consistency.
pub open spec fn eo_table_exact(t: Seq<u8>, moves: Seq<Turn333>) -> bool {
    forall|c: int| 0 < c < EO_FB_PATTERNS && t[c] < MAX_DEPTH ==> #[trigger] has_descent(t, moves, c)
}

/// Entries of a table under construction: the goal is zero, no other entry
/// is, every entry is at most the cap, and entries below the cap are below `d`.
pub open spec fn table_ok(t: Seq<u8>, d: int) -> bool {
    &&& t.len() == EO_FB_PATTERNS
    &&& t[0] == 0
    &&& forall|k: int| 0 <= k < EO_FB_PATTERNS ==> #[trigger] t[k] <= MAX_DEPTH
    &&& forall|k: int| 0 < k < EO_FB_PATTERNS ==> #[trigger] t[k] != 0
    &&& forall|k: int| 0 <= k < EO_FB_PATTERNS && #[trigger] t[k] < MAX_DEPTH ==> t[k] < d
}

/// Consistency along every turn whose target entry is below `v - 1`.
#[verifier::opaque]
pub open spec fn relaxed_below(t: Seq<u8>, moves: Seq<Turn333>, v: int) -> bool {
    forall|k: int, j: int|
        0 <= k < EO_FB_PATTERNS && 0 <= j < moves.len() && t[eo_step(k as nat, moves[j]) as int] + 1
            < v ==> #[trigger] t[k] <= t[eo_step(k as nat, #[trigger] moves[j]) as int] + 1
}

/// Consistency along every turn from an entry before `c` to an entry of
/// value `d - 1`.
#[verifier::opaque]
pub open spec fn level_done(t: Seq<u8>, moves: Seq<Turn333>, c: int, d: int) -> bool {
    forall|k: int, j: int|
        0 <= k < c && 0 <= j < moves.len() && t[eo_step(k as nat, moves[j]) as int] + 1 == d
            ==> #[trigger] t[k] <= t[eo_step(k as nat, #[trigger] moves[j]) as int] + 1
}

/// Only entries before `c` that were at the cap have changed, to `d`.
#[verifier::opaque]
pub open spec fn changed_only(before: Seq<u8>, t: Seq<u8>, c: int, d: int) -> bool {
    &&& t.len() == before.len()
    &&& forall|k: int|
        0 <= k < before.len() ==> #[trigger] t[k] == before[k] || (before[k] == MAX_DEPTH && t[k]
            == d && k < c)
}

proof fn lemma_mark(
    before: Seq<u8>,
    o: Seq<u8>,
    n: Seq<u8>,
    moves: Seq<Turn333>,
    c: int,
    d: int,
)
    requires
        1 <= d < MAX_DEPTH,
        0 <= c < EO_FB_PATTERNS,
        table_ok(o, d + 1),
        changed_only(before, o, c, d),
        level_done(o, moves, c, d),
        eo_table_exact(o, moves),
        (n == o && (o[c] < MAX_DEPTH || forall|i: int|
            0 <= i < moves.len() ==> o[eo_step(c as nat, #[trigger] moves[i]) as int] + 1 != d))
            || (o[c] == MAX_DEPTH && n == o.update(c, d as u8) && exists|i: int|
            0 <= i < moves.len() && o[eo_step(c as nat, #[trigger] moves[i]) as int] + 1 == d),
    ensures
        table_ok(n, d + 1),
        changed_only(before, n, c + 1, d),
        level_done(n, moves, c + 1, d),
        eo_table_exact(n, moves),
{
    reveal(changed_only);
    if n != o {
        assert forall|k: int| 0 <= k < EO_FB_PATTERNS implies #[trigger] n[k] <= MAX_DEPTH by {
            if k != c {
                assert(n[k] == o[k]);
            }
        }
        assert forall|k: int| 0 < k < EO_FB_PATTERNS implies #[trigger] n[k] != 0 by {
            if k != c {
                assert(n[k] == o[k]);
            }
        }
        assert forall|k: int| 0 <= k < EO_FB_PATTERNS && #[trigger] n[k] < MAX_DEPTH implies n[k]
            < d + 1 by {
            if k != c {
                assert(n[k] == o[k]);
            }
        }
    }
    lemma_mark_level(o, n, moves, c, d);
    lemma_mark_exact(o, n, moves, c, d);
}

proof fn lemma_mark_level(o: Seq<u8>, n: Seq<u8>, moves: Seq<Turn333>, c: int, d: int)
    requires
        1 <= d < MAX_DEPTH,
        0 <= c < EO_FB_PATTERNS,
        table_ok(o, d + 1),
        level_done(o, moves, c, d),
        (n == o && (o[c] < MAX_DEPTH || forall|i: int|
            0 <= i < moves.len() ==> o[eo_step(c as nat, #[trigger] moves[i]) as int] + 1 != d))
            || (o[c] == MAX_DEPTH && n == o.update(c, d as u8)),
    ensures
        level_done(n, moves, c + 1, d),
{
    reveal(level_done);
    assert forall|k: int, j: int|
        0 <= k < c + 1 && 0 <= j < moves.len() && n[eo_step(k as nat, moves[j]) as int] + 1 == d
            implies #[trigger] n[k] <= n[eo_step(k as nat, #[trigger] moves[j]) as int] + 1 by {
        lemma_step_bound(k as nat, moves[j]);
        let x = eo_step(k as nat, moves[j]) as int;
        if n != o {
            if x == c {
                assert(n[x] == d);
            } else if k == c {
                assert(n[x] == o[x]);
            } else {
                assert(n[x] == o[x]);
                assert(n[k] == o[k]);
                assert(o[k] <= o[x] + 1);
            }
        } else if k < c {
            assert(o[k] <= o[x] + 1);
        }
    }
}

proof fn lemma_mark_exact(o: Seq<u8>, n: Seq<u8>, moves: Seq<Turn333>, c: int, d: int)
    requires
        1 <= d < MAX_DEPTH,
        0 <= c < EO_FB_PATTERNS,
        o.len() == EO_FB_PATTERNS,
        eo_table_exact(o, moves),
        n == o || (o[c] == MAX_DEPTH && n == o.update(c, d as u8) && exists|i: int|
            0 <= i < moves.len() && o[eo_step(c as nat, #[trigger] moves[i]) as int] + 1 == d),
    ensures
        eo_table_exact(n, moves),
{
    assert forall|k: int| 0 < k < EO_FB_PATTERNS && n[k] < MAX_DEPTH implies #[trigger] has_descent(
        n,
        moves,
        k,
    ) by {
        if k == c && n != o {
            let i = choose|i: int|
                0 <= i < moves.len() && o[eo_step(c as nat, #[trigger] moves[i]) as int] + 1 == d;
            lemma_step_bound(c as nat, moves[i]);
            assert(n[eo_step(c as nat, moves[i]) as int] + 1 == n[c]);
        } else {
            assert(n[k] == o[k]);
            assert(has_descent(o, moves, k));
            let w = choose|w: int|
                0 <= w < moves.len() && o[eo_step(k as nat, #[trigger] moves[w]) as int] + 1 == o[k];
            lemma_step_bound(k as nat, moves[w]);
            assert(n[eo_step(k as nat, moves[w]) as int] + 1 == n[k]);
        }
    }
}

proof fn lemma_pass_end(before: Seq<u8>, t: Seq<u8>, moves: Seq<Turn333>, d: int)
    requires
        1 <= d < MAX_DEPTH,
        table_ok(before, d),
        changed_only(before, t, EO_FB_PATTERNS as int, d),
        relaxed_below(before, moves, d),
        level_done(t, moves, EO_FB_PATTERNS as int, d),
    ensures
        relaxed_below(t, moves, d + 1),
{
    reveal(changed_only);
    reveal(level_done);
    reveal(relaxed_below);
    assert forall|k: int, j: int|
        0 <= k < EO_FB_PATTERNS && 0 <= j < moves.len() && t[eo_step(k as nat, moves[j]) as int] + 1
            < d + 1 implies #[trigger] t[k] <= t[eo_step(k as nat, #[trigger] moves[j]) as int] + 1 by {
        lemma_step_bound(k as nat, moves[j]);
        let x = eo_step(k as nat, moves[j]) as int;
        if t[x] + 1 < d {
            assert(t[x] == before[x]);
            assert(before[k] <= before[x] + 1);
        }
    }
}

fn has_descent_to(t: &Vec<u8>, moves: &Vec<Turn333>, c: usize, d: u8) -> (r: bool)
    requires
        t@.len() == EO_FB_PATTERNS,
        c < EO_FB_PATTERNS,
        forall|k: int| 0 <= k < EO_FB_PATTERNS ==> #[trigger] t@[k] <= MAX_DEPTH,
    ensures
        r == exists|i: int|
            0 <= i < moves@.len() && t@[eo_step(c as nat, #[trigger] moves@[i]) as int] + 1 == d,
{
    let mut j: usize = 0;
    while j < moves.len()
        invariant
            0 <= j <= moves@.len(),
            t@.len() == EO_FB_PATTERNS,
            c < EO_FB_PATTERNS,
            forall|k: int| 0 <= k < EO_FB_PATTERNS ==> #[trigger] t@[k] <= MAX_DEPTH,
            forall|i: int|
                0 <= i < j ==> t@[eo_step(c as nat, #[trigger] moves@[i]) as int] + 1 != d,
        decreases moves@.len() - j,
    {
        let n = step_exec(c as u16, moves[j]);
        if t[n as usize] + 1 == d {
            return true;
        }
        j += 1;
    }
    false
}

fn flood_level(t: &mut Vec<u8>, moves: &Vec<Turn333>, d: u8)
    requires
        1 <= d < MAX_DEPTH,
        table_ok(old(t)@, d as int),
        relaxed_below(old(t)@, moves@, d as int),
        eo_table_exact(old(t)@, moves@),
    ensures
        table_ok(final(t)@, d + 1),
        relaxed_below(final(t)@, moves@, d + 1),
        eo_table_exact(final(t)@, moves@),
{
    let ghost before = t@;
    proof {
        reveal(changed_only);
        reveal(level_done);
    }
    let mut c: usize = 0;
    while c < 4096
        invariant
            1 <= d < MAX_DEPTH,
            0 <= c <= 4096,
            table_ok(before, d as int),
            table_ok(t@, d + 1),
            relaxed_below(before, moves@, d as int),
            changed_only(before, t@, c as int, d as int),
            level_done(t@, moves@, c as int, d as int),
            eo_table_exact(t@, moves@),
        decreases 4096 - c,
    {
        let ghost o = t@;
        if t[c] == MAX_DEPTH && has_descent_to(t, moves, c, d) {
            t.set(c, d);
        }
        proof {
            lemma_mark(before, o, t@, moves@, c as int, d as int);
        }
        c += 1;
    }
    proof {
        lemma_pass_end(before, t@, moves@, d as int);
    }
}

/// Builds the F/B orientation table for `moves` breadth first: level `d`
/// marks every unmarked entry with a turn to an entry of level `d - 1`.
/// Entries not reached within the cap keep `MAX_DEPTH`.
#[verifier::rlimit(30)]
pub fn build_eo_fb_table(moves: &Vec<Turn333>) -> (r: Vec<u8>)
    ensures
        eo_table_consistent(r@, moves@),
        eo_table_exact(r@, moves@),
{
    let mut t: Vec<u8> = Vec::new();
    let mut c: usize = 0;
    while c < 4096
        invariant
            0 <= c <= 4096,
            t@.len() == c,
            forall|k: int| 0 <= k < c ==> t@[k] == if k == 0 {
                0u8
            } else {
                MAX_DEPTH
            },
        decreases 4096 - c,
    {
        t.push(if c == 0 { 0u8 } else { MAX_DEPTH });
        c += 1;
    }
    proof {
        reveal(relaxed_below);
        assert forall|k: int| 0 < k < EO_FB_PATTERNS implies #[trigger] t@[k] == MAX_DEPTH by {}
        assert(eo_table_exact(t@, moves@));
        assert(table_ok(t@, 1));
    }
    let mut d: u8 = 1;
    while d < MAX_DEPTH
        invariant
            1 <= d <= MAX_DEPTH,
            table_ok(t@, d as int),
            relaxed_below(t@, moves@, d as int),
            eo_table_exact(t@, moves@),
        decreases MAX_DEPTH - d,
    {
        flood_level(&mut t, moves, d);
        d += 1;
    }
    proof {
        reveal(relaxed_below);
        assert forall|k: int, j: int|
            0 <= k < EO_FB_PATTERNS && 0 <= j < moves@.len() implies #[trigger] t@[k] <= t@[eo_step(
            k as nat,
            #[trigger] moves@[j],
        ) as int] + 1 by {
            lemma_step_bound(k as nat, moves@[j]);
        }
    }
    t
}

} // verus!
