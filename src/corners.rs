use vstd::prelude::*;
use crate::cube::{CubeAxis, Face};
use crate::tables::{
    corner_cycle, corner_rot_dst, corner_rot_shift, corner_rot_src, corner_turn_twist, cycle_src,
};

verus! {

// A corner byte holds the corner's identity in its low three bits and its
// twist about the U/D axis (0, 1 or 2) in bits 5..8. Bits 3 and 4 are
// reserved and zero. Bytes 8..16 of the state are zero.

pub open spec fn c_id(b: u8) -> u8 {
    b & 0x07u8
}

pub open spec fn c_tw(b: u8) -> u8 {
    b >> 5u8
}

pub open spec fn corner_byte(id: u8, tw: u8) -> u8 {
    id | (tw << 5u8)
}

pub open spec fn corner_byte_ok(b: u8) -> bool {
    b & 0x18u8 == 0 && (b >> 5u8) < 3
}

pub open spec fn corner_bytes_ok(s: Seq<u8>) -> bool {
    &&& s.len() == 16
    &&& forall|i: int| 0 <= i < 8 ==> corner_byte_ok(#[trigger] s[i])
    &&& forall|i: int| 8 <= i < 16 ==> s[i] == 0
}

/// Some slot among the eight holds corner `k`.
pub open spec fn corner_present(s: Seq<u8>, k: int) -> bool {
    exists|i: int| 0 <= i < 8 && #[trigger] c_id(s[i]) as int == k
}

/// A well-formed corner state: bytes in range and the identities a
/// permutation of the eight corners.
pub open spec fn corners_wf(s: Seq<u8>) -> bool {
    &&& corner_bytes_ok(s)
    &&& forall|i: int, j: int|
        0 <= i < 8 && 0 <= j < 8 && i != j ==> c_id(#[trigger] s[i]) != c_id(#[trigger] s[j])
    &&& forall|k: int| 0 <= k < 8 ==> #[trigger] corner_present(s, k)
}

pub open spec fn solved_corners() -> Seq<u8> {
    Seq::new(16, |i: int| if i < 8 { i as u8 } else { 0u8 })
}

/// Byte `b` with `k` more twist, modulo 3.
pub open spec fn twisted(b: u8, k: int) -> u8 {
    corner_byte(c_id(b), ((c_tw(b) as int + k) % 3) as u8)
}

/// One clockwise quarter turn of `f`: a shuffle of the slots and a twist of
/// the moved corners.
pub open spec fn corner_quarter(s: Seq<u8>, f: Face) -> Seq<u8> {
    Seq::new(
        s.len(),
        |i: int|
            if 0 <= i < 8 {
                twisted(s[cycle_src(corner_cycle(f), i)], corner_turn_twist(f, i))
            } else {
                s[i]
            },
    )
}

pub open spec fn corner_quarters(s: Seq<u8>, f: Face, n: nat) -> Seq<u8>
    decreases n,
{
    if n == 0 {
        s
    } else {
        corner_quarter(corner_quarters(s, f, (n - 1) as nat), f)
    }
}

/// The slot that holds corner `k`.
pub open spec fn corner_slot_of(s: Seq<u8>, k: int) -> int {
    choose|i: int| 0 <= i < 8 && #[trigger] c_id(s[i]) as int == k
}

/// The inverse state: corner `i` goes back to the slot that its identity
/// names, with the opposite twist.
pub open spec fn corner_inverse(s: Seq<u8>) -> Seq<u8> {
    Seq::new(
        16,
        |k: int|
            if 0 <= k < 8 {
                let i = corner_slot_of(s, k);
                corner_byte(i as u8, ((3 - c_tw(s[i])) % 3) as u8)
            } else {
                0u8
            },
    )
}

/// The byte that a clockwise rotation about `r` makes of byte `b` at slot `i`:
/// the identity is relabelled and the twist is measured against the facelet
/// that the rotation brings onto the U/D axis.
pub open spec fn corner_rot_byte(r: CubeAxis, b: u8, i: int) -> u8 {
    let p = c_id(b) as int;
    corner_byte(
        corner_rot_dst(r, p) as u8,
        ((c_tw(b) + corner_rot_shift(r, i) + 3 - corner_rot_shift(r, p)) % 3) as u8,
    )
}

pub open spec fn corner_rotate(s: Seq<u8>, r: CubeAxis) -> Seq<u8> {
    Seq::new(
        s.len(),
        |j: int|
            if 0 <= j < 8 {
                corner_rot_byte(r, s[corner_rot_src(r, j)], corner_rot_src(r, j))
            } else {
                s[j]
            },
    )
}

pub open spec fn corner_rotations(s: Seq<u8>, r: CubeAxis, n: nat) -> Seq<u8>
    decreases n,
{
    if n == 0 {
        s
    } else {
        corner_rotate(corner_rotations(s, r, (n - 1) as nat), r)
    }
}

/// Reading the fields back from an assembled corner byte, and assembling a
/// byte from its fields.
pub proof fn lemma_corner_byte(id: u8, tw: u8)
    requires
        id < 8,
        tw < 3,
    ensures
        c_id(corner_byte(id, tw)) == id,
        c_tw(corner_byte(id, tw)) == tw,
        corner_byte_ok(corner_byte(id, tw)),
{
    assert(id < 8 && tw < 3 ==> (id | (tw << 5u8)) & 0x07u8 == id && (id | (tw << 5u8)) >> 5u8
        == tw && (id | (tw << 5u8)) & 0x18u8 == 0) by (bit_vector);
}

pub proof fn lemma_corner_fields(b: u8)
    requires
        corner_byte_ok(b),
    ensures
        corner_byte(c_id(b), c_tw(b)) == b,
        c_id(b) < 8,
{
    assert(b & 0x18u8 == 0 ==> (b & 0x07u8) | ((b >> 5u8) << 5u8) == b && b & 0x07u8 < 8)
        by (bit_vector);
}

proof fn lemma_twisted(b: u8, k: int)
    requires
        corner_byte_ok(b),
        0 <= k,
    ensures
        corner_byte_ok(twisted(b, k)),
        c_id(twisted(b, k)) == c_id(b),
        c_tw(twisted(b, k)) as int == (c_tw(b) as int + k) % 3,
{
    lemma_corner_fields(b);
    lemma_corner_byte(c_id(b), ((c_tw(b) as int + k) % 3) as u8);
}

proof fn lemma_twisted_four(b: u8, k1: int, k2: int, k3: int, k4: int)
    requires
        corner_byte_ok(b),
        0 <= k1 && 0 <= k2 && 0 <= k3 && 0 <= k4,
        (k1 + k2 + k3 + k4) % 3 == 0,
    ensures
        twisted(twisted(twisted(twisted(b, k1), k2), k3), k4) == b,
{
    lemma_twisted(b, k1);
    let b1 = twisted(b, k1);
    lemma_twisted(b1, k2);
    let b2 = twisted(b1, k2);
    lemma_twisted(b2, k3);
    let b3 = twisted(b2, k3);
    lemma_twisted(b3, k4);
    let b4 = twisted(b3, k4);
    let t = c_tw(b) as int;
    assert(c_tw(b4) as int == (((((t + k1) % 3) + k2) % 3 + k3) % 3 + k4) % 3);
    assert((((((t + k1) % 3) + k2) % 3 + k3) % 3 + k4) % 3 == (t + k1 + k2 + k3 + k4) % 3)
        by (nonlinear_arith)
        requires
            0 <= t,
            0 <= k1 && 0 <= k2 && 0 <= k3 && 0 <= k4,
    ;
    assert((t + k1 + k2 + k3 + k4) % 3 == t) by (nonlinear_arith)
        requires
            0 <= t < 3,
            (k1 + k2 + k3 + k4) % 3 == 0,
    ;
    lemma_corner_fields(b);
    lemma_corner_fields(b4);
}

/// Four clockwise quarter turns of a face give back every corner state whose
/// bytes are in range.
pub proof fn lemma_corner_quarter_four(s: Seq<u8>, f: Face)
    requires
        corner_bytes_ok(s),
    ensures
        corner_quarters(s, f, 4) == s,
{
    reveal_with_fuel(corner_quarters, 5);
    let t = corner_quarters(s, f, 4);
    let c = corner_cycle(f);
    assert forall|i: int| 0 <= i < 16 implies t[i] == s[i] by {
        if 0 <= i < 8 {
            let s1 = cycle_src(c, i);
            let s2 = cycle_src(c, s1);
            let s3 = cycle_src(c, s2);
            assert(cycle_src(c, s3) == i);
            lemma_twisted_four(
                s[i],
                corner_turn_twist(f, s3),
                corner_turn_twist(f, s2),
                corner_turn_twist(f, s1),
                corner_turn_twist(f, i),
            );
        }
    }
    assert(t =~= s);
}

pub proof fn lemma_corner_quarter_ok(s: Seq<u8>, f: Face)
    requires
        corner_bytes_ok(s),
    ensures
        corner_bytes_ok(corner_quarter(s, f)),
{
    let t = corner_quarter(s, f);
    assert forall|i: int| 0 <= i < 8 implies corner_byte_ok(#[trigger] t[i]) by {
        lemma_twisted(s[cycle_src(corner_cycle(f), i)], corner_turn_twist(f, i));
    }
}

pub proof fn lemma_corner_quarters_add(s: Seq<u8>, f: Face, a: nat, b: nat)
    ensures
        corner_quarters(corner_quarters(s, f, a), f, b) == corner_quarters(s, f, a + b),
    decreases b,
{
    if b > 0 {
        lemma_corner_quarters_add(s, f, a, (b - 1) as nat);
        assert((a + b - 1) as nat == a + (b - 1) as nat);
    }
}

pub proof fn lemma_corner_quarters_ok(s: Seq<u8>, f: Face, n: nat)
    requires
        corner_bytes_ok(s),
    ensures
        corner_bytes_ok(corner_quarters(s, f, n)),
    decreases n,
{
    if n > 0 {
        lemma_corner_quarters_ok(s, f, (n - 1) as nat);
        lemma_corner_quarter_ok(corner_quarters(s, f, (n - 1) as nat), f);
    }
}

/// Four times `n` clockwise quarter turns give back every corner state whose
/// bytes are in range.
pub proof fn lemma_corner_quarters_mult_four(s: Seq<u8>, f: Face, n: nat)
    requires
        corner_bytes_ok(s),
    ensures
        corner_quarters(s, f, 4 * n) == s,
    decreases n,
{
    if n > 0 {
        lemma_corner_quarters_mult_four(s, f, (n - 1) as nat);
        lemma_corner_quarters_add(s, f, 4 * (n - 1) as nat, 4);
        lemma_corner_quarters_ok(s, f, 4 * (n - 1) as nat);
        lemma_corner_quarter_four(corner_quarters(s, f, 4 * (n - 1) as nat), f);
        assert(4 * (n - 1) as nat + 4 == 4 * n);
    }
}

/// A quarter turn keeps a corner state well formed.
pub proof fn lemma_corner_quarter_wf(s: Seq<u8>, f: Face)
    requires
        corners_wf(s),
    ensures
        corners_wf(corner_quarter(s, f)),
{
    lemma_corner_quarter_ok(s, f);
    let t = corner_quarter(s, f);
    let c = corner_cycle(f);
    assert forall|i: int| 0 <= i < 8 implies #[trigger] c_id(t[i]) == c_id(s[cycle_src(c, i)]) by {
        lemma_twisted(s[cycle_src(c, i)], corner_turn_twist(f, i));
    }
    assert forall|k: int| 0 <= k < 8 implies #[trigger] corner_present(t, k) by {
        assert(corner_present(s, k));
        let j = choose|j: int| 0 <= j < 8 && #[trigger] c_id(s[j]) as int == k;
        let i = if j == c.0 {
            c.1
        } else if j == c.1 {
            c.2
        } else if j == c.2 {
            c.3
        } else if j == c.3 {
            c.0
        } else {
            j
        };
        assert(cycle_src(c, i) == j);
        assert(c_id(t[i]) as int == k);
    }
}

pub proof fn lemma_corner_quarters_wf(s: Seq<u8>, f: Face, n: nat)
    requires
        corners_wf(s),
    ensures
        corners_wf(corner_quarters(s, f, n)),
    decreases n,
{
    if n > 0 {
        lemma_corner_quarters_wf(s, f, (n - 1) as nat);
        lemma_corner_quarter_wf(corner_quarters(s, f, (n - 1) as nat), f);
    }
}

/// The inverse of a well-formed state is well formed, and inverting it again
/// gives the state back.
pub proof fn lemma_corner_inverse(s: Seq<u8>)
    requires
        corners_wf(s),
    ensures
        corners_wf(corner_inverse(s)),
        forall|i: int|
            0 <= i < 8 ==> #[trigger] corner_inverse(s)[c_id(s[i]) as int] == corner_byte(
                i as u8,
                ((3 - c_tw(s[i])) % 3) as u8,
            ),
        corner_inverse(corner_inverse(s)) == s,
{
    let t = corner_inverse(s);
    assert forall|i: int| 0 <= i < 8 implies #[trigger] t[c_id(s[i]) as int] == corner_byte(
        i as u8,
        ((3 - c_tw(s[i])) % 3) as u8,
    ) by {
        lemma_corner_fields(s[i]);
        let k = c_id(s[i]) as int;
        let j = corner_slot_of(s, k);
        assert(corner_present(s, k));
        assert(0 <= j < 8 && c_id(s[j]) as int == k);
        assert(j == i);
    }
    assert forall|k: int| 0 <= k < 8 implies corner_byte_ok(#[trigger] t[k]) && c_id(t[k]) as int
        == corner_slot_of(s, k) && 0 <= corner_slot_of(s, k) < 8 && c_id(
        s[corner_slot_of(s, k)],
    ) as int == k && c_tw(t[k]) as int == (3 - c_tw(s[corner_slot_of(s, k)])) % 3 by {
        let i = corner_slot_of(s, k);
        assert(corner_present(s, k));
        assert(0 <= i < 8 && c_id(s[i]) as int == k);
        lemma_corner_byte(i as u8, ((3 - c_tw(s[i])) % 3) as u8);
    }
    assert forall|k: int| 0 <= k < 8 implies #[trigger] corner_present(t, k) by {
        lemma_corner_fields(s[k]);
        let i = c_id(s[k]) as int;
        assert(c_id(t[i]) as int == corner_slot_of(s, i));
        assert(c_id(s[corner_slot_of(s, i)]) as int == i);
    }
    let u = corner_inverse(t);
    assert forall|k: int| 0 <= k < 16 implies u[k] == s[k] by {
        if k < 8 {
            lemma_corner_fields(s[k]);
            let i = c_id(s[k]) as int;
            assert(c_id(t[i]) as int == k);
            let j = corner_slot_of(t, k);
            assert(corner_present(t, k));
            assert(0 <= j < 8 && c_id(t[j]) as int == k);
            assert(j == i);
            assert(c_tw(t[i]) as int == (3 - c_tw(s[k])) % 3);
            assert((3 - c_tw(t[i])) % 3 == c_tw(s[k]));
        }
    }
    assert(u =~= s);
}

/// The rotation tables are mutually inverse permutations of the eight slots.
pub proof fn lemma_corner_rot_tables(r: CubeAxis, j: int)
    requires
        0 <= j < 8,
    ensures
        0 <= corner_rot_src(r, j) < 8,
        0 <= corner_rot_dst(r, j) < 8,
        corner_rot_dst(r, corner_rot_src(r, j)) == j,
        corner_rot_src(r, corner_rot_dst(r, j)) == j,
        0 <= corner_rot_shift(r, j) < 3,
{
}

pub proof fn lemma_small_corner_byte(i: u8)
    requires
        i < 8,
    ensures
        corner_byte_ok(i),
        c_id(i) == i,
        c_tw(i) == 0,
{
    assert(i < 8 ==> i & 0x18u8 == 0 && i >> 5u8 == 0 && i & 0x07u8 == i) by (bit_vector);
}

pub proof fn lemma_solved_corners_wf()
    ensures
        corners_wf(solved_corners()),
{
    let s = solved_corners();
    assert forall|i: int| 0 <= i < 8 implies corner_byte_ok(#[trigger] s[i]) && c_id(s[i]) as int
        == i by {
        lemma_small_corner_byte(i as u8);
    }
    assert forall|k: int| 0 <= k < 8 implies #[trigger] corner_present(s, k) by {
        assert(c_id(s[k]) as int == k);
    }
}

/// A rotation leaves the solved corners solved.
pub proof fn lemma_corner_rotate_solved(r: CubeAxis)
    ensures
        corner_rotate(solved_corners(), r) == solved_corners(),
{
    let s = solved_corners();
    let t = corner_rotate(s, r);
    assert forall|j: int| 0 <= j < 16 implies t[j] == s[j] by {
        if j < 8 {
            lemma_corner_rot_tables(r, j);
            let i = corner_rot_src(r, j);
            lemma_small_corner_byte(i as u8);
            lemma_corner_rot_tables(r, i);
            lemma_small_corner_byte(j as u8);
            lemma_corner_fields(j as u8);
        }
    }
    assert(t =~= s);
}

pub proof fn lemma_corner_rotations_solved(r: CubeAxis, n: nat)
    ensures
        corner_rotations(solved_corners(), r, n) == solved_corners(),
    decreases n,
{
    if n > 0 {
        lemma_corner_rotations_solved(r, (n - 1) as nat);
        lemma_corner_rotate_solved(r);
    }
}

/// A rotation keeps a corner state well formed.
pub proof fn lemma_corner_rotate_wf(s: Seq<u8>, r: CubeAxis)
    requires
        corners_wf(s),
    ensures
        corners_wf(corner_rotate(s, r)),
{
    let t = corner_rotate(s, r);
    assert forall|j: int| 0 <= j < 8 implies corner_byte_ok(#[trigger] t[j]) && c_id(t[j]) as int
        == corner_rot_dst(r, c_id(s[corner_rot_src(r, j)]) as int) by {
        lemma_corner_rot_tables(r, j);
        let i = corner_rot_src(r, j);
        lemma_corner_fields(s[i]);
        let p = c_id(s[i]) as int;
        lemma_corner_rot_tables(r, p);
        lemma_corner_rot_tables(r, i);
        lemma_corner_byte(
            corner_rot_dst(r, p) as u8,
            ((c_tw(s[i]) + corner_rot_shift(r, i) + 3 - corner_rot_shift(r, p)) % 3) as u8,
        );
    }
    assert forall|a: int, b: int| 0 <= a < 8 && 0 <= b < 8 && a != b implies c_id(
        #[trigger] t[a],
    ) != c_id(#[trigger] t[b]) by {
        lemma_corner_rot_tables(r, a);
        lemma_corner_rot_tables(r, b);
        lemma_corner_fields(s[corner_rot_src(r, a)]);
        lemma_corner_fields(s[corner_rot_src(r, b)]);
        let pa = c_id(s[corner_rot_src(r, a)]) as int;
        let pb = c_id(s[corner_rot_src(r, b)]) as int;
        lemma_corner_rot_tables(r, pa);
        lemma_corner_rot_tables(r, pb);
    }
    assert forall|k: int| 0 <= k < 8 implies #[trigger] corner_present(t, k) by {
        lemma_corner_rot_tables(r, k);
        let m = corner_rot_src(r, k);
        assert(corner_present(s, m));
        let i = choose|i: int| 0 <= i < 8 && #[trigger] c_id(s[i]) as int == m;
        lemma_corner_rot_tables(r, i);
        let j = corner_rot_dst(r, i);
        assert(c_id(t[j]) as int == k);
    }
}

pub proof fn lemma_corner_rotations_wf(s: Seq<u8>, r: CubeAxis, n: nat)
    requires
        corners_wf(s),
    ensures
        corners_wf(corner_rotations(s, r, n)),
    decreases n,
{
    if n > 0 {
        lemma_corner_rotations_wf(s, r, (n - 1) as nat);
        lemma_corner_rotate_wf(corner_rotations(s, r, (n - 1) as nat), r);
    }
}

} // verus!
