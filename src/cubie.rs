use vstd::prelude::*;
use crate::corners::{
    c_id, c_tw, corner_byte, corner_byte_ok, corner_bytes_ok, corner_inverse, corner_quarter,
    corner_quarters, corner_rotate, corner_rotations, corners_wf, lemma_corner_fields,
    lemma_corner_inverse, lemma_corner_quarter_ok, lemma_corner_quarter_wf,
    lemma_corner_rot_tables, lemma_corner_rotate_wf, lemma_solved_corners_wf, solved_corners,
    twisted,
};
use crate::cube::{quarters, Corner, CubeAxis, Direction, Edge, Face, Transformation333, Turn333};
use crate::edges::{
    e_bad, e_id, edge_byte, edge_byte_ok, edge_inverse, edge_quarter,
    edge_quarters, edge_rotate, edge_rotations, edges_wf, lemma_edge_inverse,
    lemma_edge_quarter_wf, lemma_edge_rot_tables, lemma_edge_rotate_wf, lemma_solved_edges_wf,
    rot_bad, solved_edges,
};
use crate::tables::{
    corner_turn_src, edge_turn_src, exec_axis_bit, exec_corner_rot_dst,
    exec_corner_rot_shift, exec_corner_rot_src, exec_corner_turn_twist, exec_edge_rot_dst,
    exec_edge_rot_offset, exec_edge_rot_src, exec_edge_turn_mask, exec_rot_axis_source,
};

verus! {

/// The little-endian word of the eight bytes of `s` from `start` on.
pub open spec fn le_word(s: Seq<u8>, start: int) -> int {
    s[start] + s[start + 1] * 0x100 + s[start + 2] * 0x10000 + s[start + 3] * 0x1000000 + s[start
        + 4] * 0x100000000 + s[start + 5] * 0x10000000000 + s[start + 6] * 0x1000000000000 + s[start
        + 7] * 0x100000000000000
}

fn exec_le_word(s: &[u8; 16], start: usize) -> (r: u64)
    requires
        start + 8 <= 16,
    ensures
        r as int == le_word(s@, start as int),
{
    (s[start] as u64) + (s[start + 1] as u64) * 0x100 + (s[start + 2] as u64) * 0x10000 + (s[start
        + 3] as u64) * 0x1000000 + (s[start + 4] as u64) * 0x100000000 + (s[start + 5] as u64)
        * 0x10000000000 + (s[start + 6] as u64) * 0x1000000000000 + (s[start + 7] as u64)
        * 0x100000000000000
}

/// What a byte equality of two states amounts to.
fn bytes_equal(a: &[u8; 16], b: &[u8; 16]) -> (r: bool)
    ensures
        r == (a@ == b@),
{
    let mut i: usize = 0;
    while i < 16
        invariant
            0 <= i <= 16,
            forall|j: int| 0 <= j < i ==> a@[j] == b@[j],
        decreases 16 - i,
    {
        if a[i] != b[i] {
            return false;
        }
        i += 1;
    }
    assert(a@ =~= b@);
    true
}

pub open spec fn edge_of(b: u8) -> Edge {
    Edge {
        id: e_id(b),
        oriented_ud: !e_bad(b, CubeAxis::UD),
        oriented_fb: !e_bad(b, CubeAxis::FB),
        oriented_rl: !e_bad(b, CubeAxis::LR),
    }
}

pub open spec fn corner_of(b: u8) -> Corner {
    Corner { id: c_id(b), orientation: c_tw(b) }
}

/// The twelve edges, one byte per slot in the order
/// UB UR UF UL FR FL BR BL DF DR DB DL, then four zero bytes.
#[derive(Clone, Copy, Debug)]
pub struct EdgeCubieCube(pub [u8; 16]);

impl View for EdgeCubieCube {
    type V = Seq<u8>;

    open spec fn view(&self) -> Seq<u8> {
        self.0@
    }
}

impl EdgeCubieCube {
    /// Bits of the raw words that mark edges badly oriented about U/D.
    pub const BAD_EDGE_MASK_UD: u64 = 0x8080808080808080;
    /// Bits of the raw words that mark edges badly oriented about F/B.
    pub const BAD_EDGE_MASK_FB: u64 = 0x4040404040404040;
    /// Bits of the raw words that mark edges badly oriented about R/L.
    pub const BAD_EDGE_MASK_RL: u64 = 0x2020202020202020;

    pub fn new(state: [u8; 16]) -> (r: EdgeCubieCube)
        ensures
            r@ == state@,
    {
        EdgeCubieCube(state)
    }

    pub fn new_solved() -> (r: EdgeCubieCube)
        ensures
            r@ == solved_edges(),
            edges_wf(r@),
    {
        let r = EdgeCubieCube([0u8, 1, 2, 3, 4, 5, 6, 7, 8, 9, 10, 11, 0, 0, 0, 0]);
        assert(r@ =~= solved_edges());
        proof {
            lemma_solved_edges_wf();
        }
        r
    }

    /// The edge in each slot.
    pub fn get_edges(&self) -> (r: [Edge; 12])
        ensures
            forall|i: int| 0 <= i < 12 ==> #[trigger] r@[i] == edge_of(self@[i]),
    {
        let blank = Edge { id: 0, oriented_ud: true, oriented_fb: true, oriented_rl: true };
        let mut r = [blank;12];
        let mut i: usize = 0;
        while i < 12
            invariant
                0 <= i <= 12,
                r@.len() == 12,
                self@.len() == 16,
                forall|j: int| 0 <= j < i ==> #[trigger] r@[j] == edge_of(self@[j]),
            decreases 12 - i,
        {
            let b = self.0[i];
            r[i] = Edge {
                id: b & 0x0f,
                oriented_ud: b & 0x80 == 0,
                oriented_fb: b & 0x40 == 0,
                oriented_rl: b & 0x20 == 0,
            };
            i += 1;
        }
        r
    }

    /// The state as two little-endian words.
    pub fn get_edges_raw(&self) -> (r: [u64; 2])
        ensures
            r@[0] as int == le_word(self@, 0),
            r@[1] as int == le_word(self@, 8),
    {
        [exec_le_word(&self.0, 0), exec_le_word(&self.0, 8)]
    }

    /// The sixteen bytes of the state.
    pub fn to_bytes(&self) -> (r: [u8; 16])
        ensures
            r@ == self@,
    {
        self.0
    }

    /// A state from exactly sixteen bytes; `None` for any other length.
    pub fn from_bytes(v: &[u8]) -> (r: Option<EdgeCubieCube>)
        ensures
            v@.len() == 16 <==> r.is_some(),
            r.is_some() ==> r.unwrap()@ == v@,
    {
        if v.len() != 16 {
            return None;
        }
        let mut a = [0u8;16];
        let mut i: usize = 0;
        while i < 16
            invariant
                0 <= i <= 16,
                v@.len() == 16,
                a@.len() == 16,
                forall|j: int| 0 <= j < i ==> a@[j] == v@[j],
            decreases 16 - i,
        {
            a[i] = v[i];
            i += 1;
        }
        assert(a@ =~= v@);
        Some(EdgeCubieCube(a))
    }

    /// Number of badly oriented edges about the U/D, F/B and R/L axes.
    pub fn count_bad_edges(&self) -> (r: (u8, u8, u8))
        ensures
            r.0 as int == self@.take(12).filter(|b: u8| e_bad(b, CubeAxis::UD)).len(),
            r.1 as int == self@.take(12).filter(|b: u8| e_bad(b, CubeAxis::FB)).len(),
            r.2 as int == self@.take(12).filter(|b: u8| e_bad(b, CubeAxis::LR)).len(),
    {
        let mut ud: u8 = 0;
        let mut fb: u8 = 0;
        let mut rl: u8 = 0;
        let mut i: usize = 0;
        while i < 12
            invariant
                0 <= i <= 12,
                self@.len() == 16,
                ud as int == self@.take(i as int).filter(|b: u8| e_bad(b, CubeAxis::UD)).len(),
                fb as int == self@.take(i as int).filter(|b: u8| e_bad(b, CubeAxis::FB)).len(),
                rl as int == self@.take(i as int).filter(|b: u8| e_bad(b, CubeAxis::LR)).len(),
                ud <= i && fb <= i && rl <= i,
            decreases 12 - i,
        {
            let b = self.0[i];
            proof {
                let s = self@;
                assert(s.take(i + 1) =~= s.take(i as int).push(b));
                reveal(Seq::filter);
                assert(s.take(i + 1).drop_last() =~= s.take(i as int));
            }
            if b & 0x80 != 0 {
                ud += 1;
            }
            if b & 0x40 != 0 {
                fb += 1;
            }
            if b & 0x20 != 0 {
                rl += 1;
            }
            i += 1;
        }
        (ud, fb, rl)
    }

    fn quarter(&mut self, f: Face)
        ensures
            final(self)@ == edge_quarter(old(self)@, f),
    {
        let s = self.0;
        let mut i: usize = 0;
        while i < 12
            invariant
                0 <= i <= 12,
                s@ == old(self)@,
                self@.len() == 16,
                forall|j: int| 0 <= j < i ==> self@[j] == edge_quarter(s@, f)[j],
                forall|j: int| i <= j < 16 ==> self@[j] == s@[j],
            decreases 12 - i,
        {
            let src = edge_turn_src(f, i);
            self.0[i] = s[src] ^ exec_edge_turn_mask(f, i);
            i += 1;
        }
        assert(self@ =~= edge_quarter(s@, f));
    }

    /// Turns one face; a turn is its number of clockwise quarter turns.
    pub fn turn(&mut self, m: Turn333)
        ensures
            final(self)@ == edge_quarters(old(self)@, m.face, quarters(m.dir)),
            edges_wf(old(self)@) ==> edges_wf(final(self)@),
    {
        let n: usize = match m.dir {
            Direction::Clockwise => 1,
            Direction::Half => 2,
            Direction::CounterClockwise => 3,
        };
        let mut k: usize = 0;
        while k < n
            invariant
                0 <= k <= n,
                n == quarters(m.dir),
                self@ == edge_quarters(old(self)@, m.face, k as nat),
                edges_wf(old(self)@) ==> edges_wf(self@),
            decreases n - k,
        {
            proof {
                if edges_wf(self@) {
                    lemma_edge_quarter_wf(self@, m.face);
                }
            }
            self.quarter(m.face);
            k += 1;
        }
    }

    fn rotate(&mut self, r: CubeAxis)
        requires
            edges_wf(old(self)@),
        ensures
            final(self)@ == edge_rotate(old(self)@, r),
    {
        let s = self.0;
        let mut j: usize = 0;
        while j < 12
            invariant
                0 <= j <= 12,
                s@ == old(self)@,
                edges_wf(s@),
                self@.len() == 16,
                forall|k: int| 0 <= k < j ==> self@[k] == edge_rotate(s@, r)[k],
                forall|k: int| j <= k < 16 ==> self@[k] == s@[k],
            decreases 12 - j,
        {
            let i = exec_edge_rot_src(r, j);
            proof {
                lemma_edge_rot_tables(r, j as int);
            }
            let b = s[i];
            let p = (b & 0x0f) as usize;
            assert(edge_byte_ok(s@[i as int]));
            let ud = (b & exec_axis_bit(exec_rot_axis_source(r, CubeAxis::UD)) != 0)
                ^ exec_edge_rot_offset(r, CubeAxis::UD, i) ^ exec_edge_rot_offset(
                r,
                CubeAxis::UD,
                p,
            );
            let fb = (b & exec_axis_bit(exec_rot_axis_source(r, CubeAxis::FB)) != 0)
                ^ exec_edge_rot_offset(r, CubeAxis::FB, i) ^ exec_edge_rot_offset(
                r,
                CubeAxis::FB,
                p,
            );
            let rl = (b & exec_axis_bit(exec_rot_axis_source(r, CubeAxis::LR)) != 0)
                ^ exec_edge_rot_offset(r, CubeAxis::LR, i) ^ exec_edge_rot_offset(
                r,
                CubeAxis::LR,
                p,
            );
            assert(ud == rot_bad(r, b, i as int, CubeAxis::UD));
            assert(fb == rot_bad(r, b, i as int, CubeAxis::FB));
            assert(rl == rot_bad(r, b, i as int, CubeAxis::LR));
            let d = exec_edge_rot_dst(r, p) as u8;
            self.0[j] = d | (if ud {
                0x80u8
            } else {
                0u8
            }) | (if fb {
                0x40u8
            } else {
                0u8
            }) | (if rl {
                0x20u8
            } else {
                0u8
            });
            assert(self@[j as int] == edge_byte(d, ud, fb, rl));
            j += 1;
        }
        assert(self@ =~= edge_rotate(s@, r));
    }

    /// Rotates the whole cube and relabels the edges by their new homes.
    pub fn transform(&mut self, t: Transformation333)
        requires
            edges_wf(old(self)@),
        ensures
            final(self)@ == edge_rotations(old(self)@, t.axis, quarters(t.dir)),
            edges_wf(final(self)@),
    {
        let n: usize = match t.dir {
            Direction::Clockwise => 1,
            Direction::Half => 2,
            Direction::CounterClockwise => 3,
        };
        let mut k: usize = 0;
        while k < n
            invariant
                0 <= k <= n,
                n == quarters(t.dir),
                self@ == edge_rotations(old(self)@, t.axis, k as nat),
                edges_wf(self@),
            decreases n - k,
        {
            proof {
                lemma_edge_rotate_wf(self@, t.axis);
            }
            self.rotate(t.axis);
            k += 1;
        }
    }

    /// Replaces the state with its inverse.
    pub fn invert(&mut self)
        requires
            edges_wf(old(self)@),
        ensures
            final(self)@ == edge_inverse(old(self)@),
            edges_wf(final(self)@),
    {
        proof {
            lemma_edge_inverse(self@);
        }
        let s = self.0;
        let mut r = [0u8;16];
        let mut i: usize = 0;
        while i < 12
            invariant
                0 <= i <= 12,
                s@ == old(self)@,
                edges_wf(s@),
                r@.len() == 16,
                forall|j: int|
                    0 <= j < i ==> #[trigger] r@[e_id(s@[j]) as int] == (s@[j] & 0xe0u8) | (
                    j as u8),
                forall|k: int| 12 <= k < 16 ==> r@[k] == 0,
            decreases 12 - i,
        {
            let b = s[i];
            assert(edge_byte_ok(s@[i as int]));
            let p = (b & 0x0f) as usize;
            r[p] = (b & 0xe0) | (i as u8);
            assert forall|j: int| 0 <= j < i + 1 implies #[trigger] r@[e_id(s@[j]) as int] == (
            s@[j] & 0xe0u8) | (j as u8) by {
                if j < i {
                    assert(e_id(s@[j]) != e_id(s@[i as int]));
                }
            }
            i += 1;
        }
        assert forall|k: int| 0 <= k < 16 implies r@[k] == edge_inverse(s@)[k] by {
            if k < 12 {
                assert(crate::edges::edge_present(s@, k));
                let j = choose|j: int| 0 <= j < 12 && #[trigger] e_id(s@[j]) as int == k;
                assert(r@[e_id(s@[j]) as int] == (s@[j] & 0xe0u8) | (j as u8));
            }
        }
        assert(r@ =~= edge_inverse(s@));
        self.0 = r;
    }
}

impl PartialEq for EdgeCubieCube {
    fn eq(&self, other: &Self) -> (r: bool) {
        bytes_equal(&self.0, &other.0)
    }
}

impl vstd::std_specs::cmp::PartialEqSpecImpl for EdgeCubieCube {
    open spec fn obeys_eq_spec() -> bool {
        true
    }

    open spec fn eq_spec(&self, other: &EdgeCubieCube) -> bool {
        self@ == other@
    }
}

/// The eight corners, one byte per slot in the order
/// UBL UBR UFR UFL DFL DFR DBR DBL, then eight zero bytes.
#[derive(Clone, Copy, Debug)]
pub struct CornerCubieCube(pub [u8; 16]);

impl View for CornerCubieCube {
    type V = Seq<u8>;

    open spec fn view(&self) -> Seq<u8> {
        self.0@
    }
}

impl CornerCubieCube {
    pub fn new(state: [u8; 16]) -> (r: CornerCubieCube)
        ensures
            r@ == state@,
    {
        CornerCubieCube(state)
    }

    pub fn new_solved() -> (r: CornerCubieCube)
        ensures
            r@ == solved_corners(),
            corners_wf(r@),
    {
        let r = CornerCubieCube([0u8, 1, 2, 3, 4, 5, 6, 7, 0, 0, 0, 0, 0, 0, 0, 0]);
        assert(r@ =~= solved_corners());
        proof {
            lemma_solved_corners_wf();
        }
        r
    }

    /// The corner in each slot.
    pub fn get_corners(&self) -> (r: [Corner; 8])
        ensures
            forall|i: int| 0 <= i < 8 ==> #[trigger] r@[i] == corner_of(self@[i]),
    {
        let blank = Corner { id: 0, orientation: 0 };
        let mut r = [blank;8];
        let mut i: usize = 0;
        while i < 8
            invariant
                0 <= i <= 8,
                r@.len() == 8,
                self@.len() == 16,
                forall|j: int| 0 <= j < i ==> #[trigger] r@[j] == corner_of(self@[j]),
            decreases 8 - i,
        {
            let b = self.0[i];
            r[i] = Corner { id: b & 0x07, orientation: b >> 5u8 };
            i += 1;
        }
        r
    }

    /// The eight corner bytes as one little-endian word.
    pub fn get_corners_raw(&self) -> (r: u64)
        ensures
            r as int == le_word(self@, 0),
    {
        exec_le_word(&self.0, 0)
    }

    /// The sixteen bytes of the state.
    pub fn to_bytes(&self) -> (r: [u8; 16])
        ensures
            r@ == self@,
    {
        self.0
    }

    /// A state from exactly sixteen bytes; `None` for any other length.
    pub fn from_bytes(v: &[u8]) -> (r: Option<CornerCubieCube>)
        ensures
            v@.len() == 16 <==> r.is_some(),
            r.is_some() ==> r.unwrap()@ == v@,
    {
        if v.len() != 16 {
            return None;
        }
        let mut a = [0u8;16];
        let mut i: usize = 0;
        while i < 16
            invariant
                0 <= i <= 16,
                v@.len() == 16,
                a@.len() == 16,
                forall|j: int| 0 <= j < i ==> a@[j] == v@[j],
            decreases 16 - i,
        {
            a[i] = v[i];
            i += 1;
        }
        assert(a@ =~= v@);
        Some(CornerCubieCube(a))
    }

    fn quarter(&mut self, f: Face)
        ensures
            final(self)@ == corner_quarter(old(self)@, f),
    {
        let s = self.0;
        let mut i: usize = 0;
        while i < 8
            invariant
                0 <= i <= 8,
                s@ == old(self)@,
                self@.len() == 16,
                forall|j: int| 0 <= j < i ==> self@[j] == corner_quarter(s@, f)[j],
                forall|j: int| i <= j < 16 ==> self@[j] == s@[j],
            decreases 8 - i,
        {
            let src = corner_turn_src(f, i);
            let b = s[src];
            let k = exec_corner_turn_twist(f, i);
            assert(b >> 5u8 < 8u8) by (bit_vector);
            let tw = ((b >> 5u8) + k) % 3;
            self.0[i] = (b & 0x07) | (tw << 5u8);
            assert(self@[i as int] == twisted(b, k as int));
            i += 1;
        }
        assert(self@ =~= corner_quarter(s@, f));
    }

    /// Turns one face; a turn is its number of clockwise quarter turns.
    pub fn turn(&mut self, m: Turn333)
        ensures
            final(self)@ == corner_quarters(old(self)@, m.face, quarters(m.dir)),
            corner_bytes_ok(old(self)@) ==> corner_bytes_ok(final(self)@),
            corners_wf(old(self)@) ==> corners_wf(final(self)@),
    {
        let n: usize = match m.dir {
            Direction::Clockwise => 1,
            Direction::Half => 2,
            Direction::CounterClockwise => 3,
        };
        let mut k: usize = 0;
        while k < n
            invariant
                0 <= k <= n,
                n == quarters(m.dir),
                self@ == corner_quarters(old(self)@, m.face, k as nat),
                corner_bytes_ok(old(self)@) ==> corner_bytes_ok(self@),
                corners_wf(old(self)@) ==> corners_wf(self@),
            decreases n - k,
        {
            proof {
                if corner_bytes_ok(self@) {
                    lemma_corner_quarter_ok(self@, m.face);
                }
                if corners_wf(self@) {
                    lemma_corner_quarter_wf(self@, m.face);
                }
            }
            self.quarter(m.face);
            k += 1;
        }
    }

    fn rotate(&mut self, r: CubeAxis)
        requires
            corners_wf(old(self)@),
        ensures
            final(self)@ == corner_rotate(old(self)@, r),
    {
        let s = self.0;
        let mut j: usize = 0;
        while j < 8
            invariant
                0 <= j <= 8,
                s@ == old(self)@,
                corners_wf(s@),
                self@.len() == 16,
                forall|k: int| 0 <= k < j ==> self@[k] == corner_rotate(s@, r)[k],
                forall|k: int| j <= k < 16 ==> self@[k] == s@[k],
            decreases 8 - j,
        {
            let i = exec_corner_rot_src(r, j);
            proof {
                lemma_corner_rot_tables(r, j as int);
            }
            let b = s[i];
            assert(corner_byte_ok(b));
            proof {
                lemma_corner_fields(b);
            }
            let p = (b & 0x07) as usize;
            proof {
                lemma_corner_rot_tables(r, i as int);
                lemma_corner_rot_tables(r, p as int);
            }
            let tw = ((b >> 5u8) + exec_corner_rot_shift(r, i) + 3 - exec_corner_rot_shift(r, p))
                % 3;
            let d = exec_corner_rot_dst(r, p) as u8;
            self.0[j] = d | (tw << 5u8);
            assert(self@[j as int] == corner_byte(d, tw));
            j += 1;
        }
        assert(self@ =~= corner_rotate(s@, r));
    }

    /// Rotates the whole cube and relabels the corners by their new homes.
    pub fn transform(&mut self, t: Transformation333)
        requires
            corners_wf(old(self)@),
        ensures
            final(self)@ == corner_rotations(old(self)@, t.axis, quarters(t.dir)),
            corners_wf(final(self)@),
    {
        let n: usize = match t.dir {
            Direction::Clockwise => 1,
            Direction::Half => 2,
            Direction::CounterClockwise => 3,
        };
        let mut k: usize = 0;
        while k < n
            invariant
                0 <= k <= n,
                n == quarters(t.dir),
                self@ == corner_rotations(old(self)@, t.axis, k as nat),
                corners_wf(self@),
            decreases n - k,
        {
            proof {
                lemma_corner_rotate_wf(self@, t.axis);
            }
            self.rotate(t.axis);
            k += 1;
        }
    }

    /// Replaces the state with its inverse.
    pub fn invert(&mut self)
        requires
            corners_wf(old(self)@),
        ensures
            final(self)@ == corner_inverse(old(self)@),
            corners_wf(final(self)@),
    {
        proof {
            lemma_corner_inverse(self@);
        }
        let s = self.0;
        let mut r = [0u8;16];
        let mut i: usize = 0;
        while i < 8
            invariant
                0 <= i <= 8,
                s@ == old(self)@,
                corners_wf(s@),
                r@.len() == 16,
                forall|j: int|
                    0 <= j < i ==> #[trigger] r@[c_id(s@[j]) as int] == corner_byte(
                        j as u8,
                        ((3 - c_tw(s@[j])) % 3) as u8,
                    ),
                forall|k: int| 8 <= k < 16 ==> r@[k] == 0,
            decreases 8 - i,
        {
            let b = s[i];
            assert(corner_byte_ok(s@[i as int]));
            proof {
                lemma_corner_fields(b);
            }
            let p = (b & 0x07) as usize;
            let tw = (3 - (b >> 5u8)) % 3;
            assert(tw == ((3 - c_tw(b)) % 3) as u8);
            r[p] = (i as u8) | (tw << 5u8);
            assert(r@[p as int] == corner_byte(i as u8, ((3 - c_tw(b)) % 3) as u8));
            assert forall|j: int| 0 <= j < i + 1 implies #[trigger] r@[c_id(s@[j]) as int]
                == corner_byte(j as u8, ((3 - c_tw(s@[j])) % 3) as u8) by {
                assert(corner_byte_ok(s@[j]));
                lemma_corner_fields(s@[j]);
                if j < i {
                    assert(c_id(s@[j]) != c_id(s@[i as int]));
                }
            }
            i += 1;
        }
        assert forall|k: int| 0 <= k < 16 implies r@[k] == corner_inverse(s@)[k] by {
            if k < 8 {
                assert(crate::corners::corner_present(s@, k));
                let j = choose|j: int| 0 <= j < 8 && #[trigger] c_id(s@[j]) as int == k;
                assert(r@[c_id(s@[j]) as int] == corner_byte(
                    j as u8,
                    ((3 - c_tw(s@[j])) % 3) as u8,
                ));
            }
        }
        assert(r@ =~= corner_inverse(s@));
        self.0 = r;
    }
}

impl PartialEq for CornerCubieCube {
    fn eq(&self, other: &Self) -> (r: bool) {
        bytes_equal(&self.0, &other.0)
    }
}

impl vstd::std_specs::cmp::PartialEqSpecImpl for CornerCubieCube {
    open spec fn obeys_eq_spec() -> bool {
        true
    }

    open spec fn eq_spec(&self, other: &CornerCubieCube) -> bool {
        self@ == other@
    }
}

/// A whole cube: its edges and its corners.
#[derive(Clone, Copy, Debug)]
pub struct CubieCube {
    pub edges: EdgeCubieCube,
    pub corners: CornerCubieCube,
}

/// A cube whose edge and corner states are each well formed.
pub open spec fn cube_wf(c: CubieCube) -> bool {
    edges_wf(c.edges@) && corners_wf(c.corners@)
}

/// The state after a turn.
pub open spec fn turned(e: Seq<u8>, c: Seq<u8>, m: Turn333) -> (Seq<u8>, Seq<u8>) {
    (edge_quarters(e, m.face, quarters(m.dir)), corner_quarters(c, m.face, quarters(m.dir)))
}

impl CubieCube {
    pub fn new(edges: EdgeCubieCube, corners: CornerCubieCube) -> (r: CubieCube)
        ensures
            r.edges == edges,
            r.corners == corners,
    {
        CubieCube { edges, corners }
    }

    pub fn new_solved() -> (r: CubieCube)
        ensures
            r.edges@ == solved_edges(),
            r.corners@ == solved_corners(),
            cube_wf(r),
    {
        CubieCube { edges: EdgeCubieCube::new_solved(), corners: CornerCubieCube::new_solved() }
    }

    /// Number of badly oriented edges about the U/D, F/B and R/L axes.
    pub fn count_bad_edges(&self) -> (r: (u8, u8, u8))
        ensures
            r.0 as int == self.edges@.take(12).filter(|b: u8| e_bad(b, CubeAxis::UD)).len(),
            r.1 as int == self.edges@.take(12).filter(|b: u8| e_bad(b, CubeAxis::FB)).len(),
            r.2 as int == self.edges@.take(12).filter(|b: u8| e_bad(b, CubeAxis::LR)).len(),
    {
        self.edges.count_bad_edges()
    }

    pub fn turn(&mut self, m: Turn333)
        ensures
            (final(self).edges@, final(self).corners@) == turned(
                old(self).edges@,
                old(self).corners@,
                m,
            ),
            corner_bytes_ok(old(self).corners@) ==> corner_bytes_ok(final(self).corners@),
            cube_wf(*old(self)) ==> cube_wf(*final(self)),
    {
        self.edges.turn(m);
        self.corners.turn(m);
    }

    pub fn transform(&mut self, t: Transformation333)
        requires
            cube_wf(*old(self)),
        ensures
            final(self).edges@ == edge_rotations(old(self).edges@, t.axis, quarters(t.dir)),
            final(self).corners@ == corner_rotations(old(self).corners@, t.axis, quarters(t.dir)),
            cube_wf(*final(self)),
    {
        self.edges.transform(t);
        self.corners.transform(t);
    }

    pub fn invert(&mut self)
        requires
            cube_wf(*old(self)),
        ensures
            final(self).edges@ == edge_inverse(old(self).edges@),
            final(self).corners@ == corner_inverse(old(self).corners@),
            cube_wf(*final(self)),
    {
        self.edges.invert();
        self.corners.invert();
    }
}

impl PartialEq for CubieCube {
    fn eq(&self, other: &Self) -> (r: bool) {
        self.edges == other.edges && self.corners == other.corners
    }
}

impl vstd::std_specs::cmp::PartialEqSpecImpl for CubieCube {
    open spec fn obeys_eq_spec() -> bool {
        true
    }

    open spec fn eq_spec(&self, other: &CubieCube) -> bool {
        self.edges@ == other.edges@ && self.corners@ == other.corners@
    }
}

} // verus!
