use vstd::prelude::*;
use crate::cube::{axis_of_face, quarters, CubeAxis, Face};
use crate::tables::{axis_bit, edge_rot_shift, cycle_src, edge_cycle, edge_rot_dst, edge_rot_offset, edge_rot_src, edge_turn_mask, in_cycle, rot_axis_source};

verus! {

// An edge byte holds the edge's identity in its low nibble and, in its high
// nibble, one "badly oriented" bit per axis: 0x80 for U/D, 0x40 for F/B,
// 0x20 for R/L. Bit 0x10 is reserved and zero. Bytes 12..16 of the state are
// zero.

pub open spec fn e_id(b: u8) -> u8 {
    b & 0x0fu8
}

pub open spec fn e_bad(b: u8, a: CubeAxis) -> bool {
    b & axis_bit(a) != 0
}

pub open spec fn edge_byte(id: u8, ud: bool, fb: bool, rl: bool) -> u8 {
    id | (if ud {
        0x80u8
    } else {
        0u8
    }) | (if fb {
        0x40u8
    } else {
        0u8
    }) | (if rl {
        0x20u8
    } else {
        0u8
    })
}

pub open spec fn edge_byte_ok(b: u8) -> bool {
    b & 0x10u8 == 0 && (b & 0x0fu8) < 12
}

/// The bytes of a state are in range, whatever the arrangement.
pub open spec fn edge_bytes_ok(s: Seq<u8>) -> bool {
    &&& s.len() == 16
    &&& forall|i: int| 0 <= i < 12 ==> edge_byte_ok(#[trigger] s[i])
    &&& forall|i: int| 12 <= i < 16 ==> s[i] == 0
}

pub open spec fn edge_ids_injective(s: Seq<u8>) -> bool {
    forall|i: int, j: int|
        0 <= i < 12 && 0 <= j < 12 && i != j ==> e_id(#[trigger] s[i]) != e_id(#[trigger] s[j])
}

/// Some slot among the twelve holds edge `k`.
pub open spec fn edge_present(s: Seq<u8>, k: int) -> bool {
    exists|i: int| 0 <= i < 12 && #[trigger] e_id(s[i]) as int == k
}

pub open spec fn edge_ids_onto(s: Seq<u8>) -> bool {
    forall|k: int| 0 <= k < 12 ==> #[trigger] edge_present(s, k)
}

/// A well-formed edge state: bytes in range and the identities a permutation
/// of the twelve edges.
pub open spec fn edges_wf(s: Seq<u8>) -> bool {
    &&& edge_bytes_ok(s)
    &&& edge_ids_injective(s)
    &&& edge_ids_onto(s)
}

pub open spec fn solved_edges() -> Seq<u8> {
    Seq::new(16, |i: int| if i < 12 { i as u8 } else { 0u8 })
}

/// One clockwise quarter turn of `f`: a shuffle of the slots and an xor of
/// the orientation mask.
pub open spec fn edge_quarter(s: Seq<u8>, f: Face) -> Seq<u8> {
    Seq::new(
        s.len(),
        |i: int|
            if 0 <= i < 12 {
                s[cycle_src(edge_cycle(f), i)] ^ edge_turn_mask(f, i)
            } else {
                s[i]
            },
    )
}

pub open spec fn edge_quarters(s: Seq<u8>, f: Face, n: nat) -> Seq<u8>
    decreases n,
{
    if n == 0 {
        s
    } else {
        edge_quarter(edge_quarters(s, f, (n - 1) as nat), f)
    }
}

/// The slot that holds edge `k`.
pub open spec fn edge_slot_of(s: Seq<u8>, k: int) -> int {
    choose|i: int| 0 <= i < 12 && #[trigger] e_id(s[i]) as int == k
}

/// The inverse state: edge `i` goes back to the slot that its identity
/// names, with the same orientation bits.
pub open spec fn edge_inverse(s: Seq<u8>) -> Seq<u8> {
    Seq::new(
        16,
        |k: int|
            if 0 <= k < 12 {
                let i = edge_slot_of(s, k);
                (s[i] & 0xe0u8) | (i as u8)
            } else {
                0u8
            },
    )
}

pub open spec fn rot_bad(r: CubeAxis, b: u8, i: int, a: CubeAxis) -> bool {
    e_bad(b, rot_axis_source(r, a)) ^ edge_rot_offset(r, a, i) ^ edge_rot_offset(
        r,
        a,
        e_id(b) as int,
    )
}

/// The byte that a clockwise rotation about `r` makes of byte `b` at slot `i`:
/// the identity is relabelled, the orientation bits are taken from the axis
/// that the rotation brings onto each axis.
pub open spec fn edge_rot_byte(r: CubeAxis, b: u8, i: int) -> u8 {
    edge_byte(
        edge_rot_dst(r, e_id(b) as int) as u8,
        rot_bad(r, b, i, CubeAxis::UD),
        rot_bad(r, b, i, CubeAxis::FB),
        rot_bad(r, b, i, CubeAxis::LR),
    )
}

pub open spec fn edge_rotate(s: Seq<u8>, r: CubeAxis) -> Seq<u8> {
    Seq::new(
        s.len(),
        |j: int|
            if 0 <= j < 12 {
                edge_rot_byte(r, s[edge_rot_src(r, j)], edge_rot_src(r, j))
            } else {
                s[j]
            },
    )
}

pub open spec fn edge_rotations(s: Seq<u8>, r: CubeAxis, n: nat) -> Seq<u8>
    decreases n,
{
    if n == 0 {
        s
    } else {
        edge_rotate(edge_rotations(s, r, (n - 1) as nat), r)
    }
}

pub proof fn lemma_xor_four(b: u8, m: u8)
    ensures
        b ^ m ^ m ^ m ^ m == b,
        b ^ 0u8 == b,
{
    assert(b ^ m ^ m ^ m ^ m == b) by (bit_vector);
    assert(b ^ 0u8 == b) by (bit_vector);
}

/// Four clockwise quarter turns of a face give back every edge state.
pub proof fn lemma_edge_quarter_four(s: Seq<u8>, f: Face)
    requires
        s.len() == 16,
    ensures
        edge_quarters(s, f, 4) == s,
{
    reveal_with_fuel(edge_quarters, 5);
    let t = edge_quarters(s, f, 4);
    let c = edge_cycle(f);
    assert forall|i: int| 0 <= i < 16 implies t[i] == s[i] by {
        if 0 <= i < 12 {
            let m = axis_bit(axis_of_face(f));
            lemma_xor_four(s[i], m);
            if in_cycle(c, i) {
                assert(t[i] == s[i] ^ m ^ m ^ m ^ m);
            } else {
                assert(t[i] == s[i] ^ 0u8 ^ 0u8 ^ 0u8 ^ 0u8);
                lemma_xor_four(s[i], 0u8);
            }
        }
    }
    assert(t =~= s);
}

pub proof fn lemma_edge_quarters_add(s: Seq<u8>, f: Face, a: nat, b: nat)
    ensures
        edge_quarters(edge_quarters(s, f, a), f, b) == edge_quarters(s, f, a + b),
    decreases b,
{
    if b > 0 {
        lemma_edge_quarters_add(s, f, a, (b - 1) as nat);
        assert((a + b - 1) as nat == a + (b - 1) as nat);
    }
}

/// Four quarters as many quarter turns as `n` give back every edge state.
pub proof fn lemma_edge_quarters_mult_four(s: Seq<u8>, f: Face, n: nat)
    requires
        s.len() == 16,
    ensures
        edge_quarters(s, f, 4 * n) == s,
    decreases n,
{
    if n > 0 {
        lemma_edge_quarters_mult_four(s, f, (n - 1) as nat);
        lemma_edge_quarters_add(s, f, 4 * (n - 1) as nat, 4);
        lemma_edge_quarter_four(edge_quarters(s, f, 4 * (n - 1) as nat), f);
        assert(4 * (n - 1) as nat + 4 == 4 * n);
    }
}

pub proof fn lemma_edge_quarters_len(s: Seq<u8>, f: Face, n: nat)
    ensures
        edge_quarters(s, f, n).len() == s.len(),
    decreases n,
{
    if n > 0 {
        lemma_edge_quarters_len(s, f, (n - 1) as nat);
    }
}

proof fn lemma_edge_mask_keeps(b: u8, m: u8)
    requires
        m == 0 || m == 0x80 || m == 0x40 || m == 0x20,
    ensures
        (b ^ m) & 0x1fu8 == b & 0x1fu8,
{
    assert((m == 0 || m == 0x80 || m == 0x40 || m == 0x20) ==> (b ^ m) & 0x1fu8 == b & 0x1fu8)
        by (bit_vector);
}

proof fn lemma_edge_low_bits(b: u8, c: u8)
    requires
        b & 0x1fu8 == c & 0x1fu8,
    ensures
        e_id(b) == e_id(c),
        edge_byte_ok(b) == edge_byte_ok(c),
{
    assert(b & 0x1fu8 == c & 0x1fu8 ==> b & 0x0fu8 == c & 0x0fu8 && (b & 0x10u8 == c & 0x10u8))
        by (bit_vector);
}

/// A quarter turn keeps an edge state well formed.
pub proof fn lemma_edge_quarter_wf(s: Seq<u8>, f: Face)
    requires
        edges_wf(s),
    ensures
        edges_wf(edge_quarter(s, f)),
{
    let t = edge_quarter(s, f);
    let c = edge_cycle(f);
    assert forall|i: int| 0 <= i < 12 implies t[i] & 0x1fu8 == s[cycle_src(c, i)] & 0x1fu8
        && e_id(#[trigger] t[i]) == e_id(s[cycle_src(c, i)]) && edge_byte_ok(t[i]) by {
        lemma_edge_mask_keeps(s[cycle_src(c, i)], edge_turn_mask(f, i));
        lemma_edge_low_bits(t[i], s[cycle_src(c, i)]);
    }
    assert forall|k: int| 0 <= k < 12 implies #[trigger] edge_present(t, k) by {
        assert(edge_present(s, k));
        let j = choose|j: int| 0 <= j < 12 && #[trigger] e_id(s[j]) as int == k;
        let i = if j == c.0 {
            c.1
        } else if j == c.1 {
            c.2
        } else if j == c.2 {
            c.3
        } else if j == c.3 {
            c.0
        } else {
            j
        };
        assert(cycle_src(c, i) == j);
        assert(e_id(t[i]) as int == k);
    }
}

pub proof fn lemma_edge_quarters_wf(s: Seq<u8>, f: Face, n: nat)
    requires
        edges_wf(s),
    ensures
        edges_wf(edge_quarters(s, f, n)),
    decreases n,
{
    if n > 0 {
        lemma_edge_quarters_wf(s, f, (n - 1) as nat);
        lemma_edge_quarter_wf(edge_quarters(s, f, (n - 1) as nat), f);
    }
}

proof fn lemma_edge_inverse_byte(b: u8, i: u8)
    requires
        edge_byte_ok(b),
        i < 12,
    ensures
        edge_byte_ok((b & 0xe0u8) | i),
        e_id((b & 0xe0u8) | i) == i,
        ((b & 0xe0u8) | i) & 0xe0u8 == b & 0xe0u8,
        (((b & 0xe0u8) | i) & 0xe0u8) | e_id(b) == b,
{
    assert(b & 0x10u8 == 0 && i < 12 ==> ((b & 0xe0u8) | i) & 0x10u8 == 0 && ((b & 0xe0u8) | i)
        & 0x0fu8 == i && ((b & 0xe0u8) | i) & 0xe0u8 == b & 0xe0u8 && (b & 0xe0u8) | (b & 0x0fu8)
        == b) by (bit_vector);
}

/// The inverse of a well-formed state is well formed, and inverting it again
/// gives the state back.
pub proof fn lemma_edge_inverse(s: Seq<u8>)
    requires
        edges_wf(s),
    ensures
        edges_wf(edge_inverse(s)),
        forall|i: int| 0 <= i < 12 ==> #[trigger] edge_inverse(s)[e_id(s[i]) as int] == (s[i]
            & 0xe0u8) | (i as u8),
        edge_inverse(edge_inverse(s)) == s,
{
    let t = edge_inverse(s);
    assert forall|i: int| 0 <= i < 12 implies #[trigger] t[e_id(s[i]) as int] == (s[i] & 0xe0u8)
        | (i as u8) by {
        let k = e_id(s[i]) as int;
        let j = edge_slot_of(s, k);
        assert(edge_present(s, k));
        assert(0 <= j < 12 && e_id(s[j]) as int == k);
        assert(j == i);
    }
    assert forall|k: int| 0 <= k < 12 implies edge_byte_ok(#[trigger] t[k]) && e_id(t[k]) as int
        == edge_slot_of(s, k) && 0 <= edge_slot_of(s, k) < 12 && e_id(s[edge_slot_of(s, k)]) as int
        == k by {
        let i = edge_slot_of(s, k);
        assert(edge_present(s, k));
        assert(0 <= i < 12 && e_id(s[i]) as int == k);
        lemma_edge_inverse_byte(s[i], i as u8);
    }
    assert forall|k: int| 0 <= k < 12 implies #[trigger] edge_present(t, k) by {
        let i = e_id(s[k]) as int;
        assert(edge_byte_ok(s[k]));
        assert(e_id(t[i]) as int == edge_slot_of(s, i));
        assert(e_id(s[edge_slot_of(s, i)]) as int == i);
    }
    let u = edge_inverse(t);
    assert forall|k: int| 0 <= k < 16 implies u[k] == s[k] by {
        if k < 12 {
            let i = e_id(s[k]) as int;
            assert(edge_byte_ok(s[k]));
            assert(e_id(t[i]) as int == k);
            let j = edge_slot_of(t, k);
            assert(edge_present(t, k));
            assert(0 <= j < 12 && e_id(t[j]) as int == k);
            assert(j == i);
            lemma_edge_inverse_byte(s[k], k as u8);
            lemma_edge_inverse_byte(s[k], e_id(s[k]));
            assert(t[i] == (s[k] & 0xe0u8) | (k as u8));
        }
    }
    assert(u =~= s);
}


proof fn lemma_edge_byte_fields(id: u8, m1: u8, m2: u8, m3: u8)
    requires
        id < 12,
        m1 == 0 || m1 == 0x80,
        m2 == 0 || m2 == 0x40,
        m3 == 0 || m3 == 0x20,
    ensures
        (id | m1 | m2 | m3) & 0x0fu8 == id,
        (id | m1 | m2 | m3) & 0x10u8 == 0,
        ((id | m1 | m2 | m3) & 0x80u8 != 0) == (m1 != 0),
        ((id | m1 | m2 | m3) & 0x40u8 != 0) == (m2 != 0),
        ((id | m1 | m2 | m3) & 0x20u8 != 0) == (m3 != 0),
{
    assert(id < 12 && (m1 == 0 || m1 == 0x80) && (m2 == 0 || m2 == 0x40) && (m3 == 0 || m3
        == 0x20) ==> (id | m1 | m2 | m3) & 0x0fu8 == id && (id | m1 | m2 | m3) & 0x10u8 == 0 && ((
    id | m1 | m2 | m3) & 0x80u8 != 0) == (m1 != 0) && ((id | m1 | m2 | m3) & 0x40u8 != 0) == (m2
        != 0) && ((id | m1 | m2 | m3) & 0x20u8 != 0) == (m3 != 0)) by (bit_vector);
}

/// Reading the fields back from an assembled edge byte.
pub proof fn lemma_edge_byte(id: u8, ud: bool, fb: bool, rl: bool)
    requires
        id < 12,
    ensures
        e_id(edge_byte(id, ud, fb, rl)) == id,
        edge_byte_ok(edge_byte(id, ud, fb, rl)),
        e_bad(edge_byte(id, ud, fb, rl), CubeAxis::UD) == ud,
        e_bad(edge_byte(id, ud, fb, rl), CubeAxis::FB) == fb,
        e_bad(edge_byte(id, ud, fb, rl), CubeAxis::LR) == rl,
{
    lemma_edge_byte_fields(
        id,
        if ud {
            0x80u8
        } else {
            0u8
        },
        if fb {
            0x40u8
        } else {
            0u8
        },
        if rl {
            0x20u8
        } else {
            0u8
        },
    );
}

pub proof fn lemma_small_edge_byte(i: u8)
    requires
        i < 12,
    ensures
        i & 0x0fu8 == i,
        i & 0x10u8 == 0,
        i & 0x80u8 == 0,
        i & 0x40u8 == 0,
        i & 0x20u8 == 0,
        i | 0u8 | 0u8 | 0u8 == i,
{
    assert(i < 12 ==> i & 0x0fu8 == i && i & 0x10u8 == 0 && i & 0x80u8 == 0 && i & 0x40u8 == 0
        && i & 0x20u8 == 0) by (bit_vector);
    assert(i | 0u8 | 0u8 | 0u8 == i) by (bit_vector);
}

/// The rotation tables are mutually inverse permutations of the twelve slots.
pub proof fn lemma_edge_rot_tables(r: CubeAxis, j: int)
    requires
        0 <= j < 12,
    ensures
        0 <= edge_rot_src(r, j) < 12,
        0 <= edge_rot_dst(r, j) < 12,
        edge_rot_dst(r, edge_rot_src(r, j)) == j,
        edge_rot_src(r, edge_rot_dst(r, j)) == j,
        edge_rot_shift(r, j) == 0 || edge_rot_shift(r, j) == 1,
{
}

pub proof fn lemma_solved_edges_wf()
    ensures
        edges_wf(solved_edges()),
{
    let s = solved_edges();
    assert forall|i: int| 0 <= i < 12 implies edge_byte_ok(#[trigger] s[i]) && e_id(s[i]) as int
        == i by {
        lemma_small_edge_byte(i as u8);
    }
    assert forall|k: int| 0 <= k < 12 implies #[trigger] edge_present(s, k) by {
        assert(e_id(s[k]) as int == k);
    }
}

/// A rotation leaves the solved edges solved.
pub proof fn lemma_edge_rotate_solved(r: CubeAxis)
    ensures
        edge_rotate(solved_edges(), r) == solved_edges(),
{
    let s = solved_edges();
    let t = edge_rotate(s, r);
    assert forall|j: int| 0 <= j < 16 implies t[j] == s[j] by {
        if j < 12 {
            lemma_edge_rot_tables(r, j);
            let i = edge_rot_src(r, j);
            lemma_small_edge_byte(i as u8);
            assert(e_id(s[i]) as int == i);
            assert(!e_bad(s[i], CubeAxis::UD) && !e_bad(s[i], CubeAxis::FB) && !e_bad(
                s[i],
                CubeAxis::LR,
            ));
            assert(!rot_bad(r, s[i], i, CubeAxis::UD));
            assert(!rot_bad(r, s[i], i, CubeAxis::FB));
            assert(!rot_bad(r, s[i], i, CubeAxis::LR));
            lemma_small_edge_byte(j as u8);
        }
    }
    assert(t =~= s);
}

pub proof fn lemma_edge_rotations_solved(r: CubeAxis, n: nat)
    ensures
        edge_rotations(solved_edges(), r, n) == solved_edges(),
    decreases n,
{
    if n > 0 {
        lemma_edge_rotations_solved(r, (n - 1) as nat);
        lemma_edge_rotate_solved(r);
    }
}

/// A rotation keeps an edge state well formed.
pub proof fn lemma_edge_rotate_wf(s: Seq<u8>, r: CubeAxis)
    requires
        edges_wf(s),
    ensures
        edges_wf(edge_rotate(s, r)),
{
    let t = edge_rotate(s, r);
    assert forall|j: int| 0 <= j < 12 implies edge_byte_ok(#[trigger] t[j]) && e_id(t[j]) as int
        == edge_rot_dst(r, e_id(s[edge_rot_src(r, j)]) as int) by {
        lemma_edge_rot_tables(r, j);
        let i = edge_rot_src(r, j);
        let p = e_id(s[i]) as int;
        lemma_edge_rot_tables(r, p);
        lemma_edge_byte(
            edge_rot_dst(r, p) as u8,
            rot_bad(r, s[i], i, CubeAxis::UD),
            rot_bad(r, s[i], i, CubeAxis::FB),
            rot_bad(r, s[i], i, CubeAxis::LR),
        );
    }
    assert forall|a: int, b: int| 0 <= a < 12 && 0 <= b < 12 && a != b implies e_id(
        #[trigger] t[a],
    ) != e_id(#[trigger] t[b]) by {
        lemma_edge_rot_tables(r, a);
        lemma_edge_rot_tables(r, b);
        let pa = e_id(s[edge_rot_src(r, a)]) as int;
        let pb = e_id(s[edge_rot_src(r, b)]) as int;
        lemma_edge_rot_tables(r, pa);
        lemma_edge_rot_tables(r, pb);
    }
    assert forall|k: int| 0 <= k < 12 implies #[trigger] edge_present(t, k) by {
        lemma_edge_rot_tables(r, k);
        let m = edge_rot_src(r, k);
        assert(edge_present(s, m));
        let i = choose|i: int| 0 <= i < 12 && #[trigger] e_id(s[i]) as int == m;
        lemma_edge_rot_tables(r, i);
        let j = edge_rot_dst(r, i);
        assert(e_id(t[j]) as int == k);
    }
}

pub proof fn lemma_edge_rotations_wf(s: Seq<u8>, r: CubeAxis, n: nat)
    requires
        edges_wf(s),
    ensures
        edges_wf(edge_rotations(s, r, n)),
    decreases n,
{
    if n > 0 {
        lemma_edge_rotations_wf(s, r, (n - 1) as nat);
        lemma_edge_rotate_wf(edge_rotations(s, r, (n - 1) as nat), r);
    }
}

} // verus!
