use vstd::prelude::*;
use crate::corners::{c_id, c_tw, corner_byte_ok, corner_bytes_ok, corner_present, corners_wf};
use crate::cube::CubeAxis;
use crate::cubie::CubieCube;
use crate::edges::{e_bad, e_id, edge_byte_ok, edge_bytes_ok, edge_present, edges_wf};

verus! {

/// Why a cube cannot be solved.
#[derive(Clone, Copy, Debug, PartialEq, Eq, Structural)]
pub enum InvalidState {
    /// A byte out of range, or identities that are not a permutation.
    Malformed,
    /// An odd number of edges flipped about the U/D axis.
    EdgeOrientation,
    /// Corner twists whose sum is not a multiple of 3.
    CornerOrientation,
    /// Edge and corner permutations of different parity.
    Parity,
}

/// Number of the first `n` edges that are flipped about the U/D axis.
pub open spec fn flip_count(s: Seq<u8>, n: int) -> int
    decreases n,
{
    if n <= 0 {
        0
    } else {
        flip_count(s, n - 1) + if e_bad(s[n - 1], CubeAxis::UD) {
            1int
        } else {
            0int
        }
    }
}

/// Sum of the twists of the first `n` corners.
pub open spec fn twist_sum(s: Seq<u8>, n: int) -> int
    decreases n,
{
    if n <= 0 {
        0
    } else {
        twist_sum(s, n - 1) + c_tw(s[n - 1])
    }
}

/// Number of slots before `m` whose identity (under `mask`) exceeds that of slot `j`.
pub open spec fn greater_before(s: Seq<u8>, mask: u8, j: int, m: int) -> int
    decreases m,
{
    if m <= 0 {
        0
    } else {
        greater_before(s, mask, j, m - 1) + if s[m - 1] & mask > s[j] & mask {
            1int
        } else {
            0int
        }
    }
}

/// Number of inversions among the identities of the first `n` slots.
pub open spec fn inversions(s: Seq<u8>, mask: u8, n: int) -> int
    decreases n,
{
    if n <= 0 {
        0
    } else {
        inversions(s, mask, n - 1) + greater_before(s, mask, n - 1, n - 1)
    }
}

/// A cube that can be solved: well formed, an even number of flipped edges,
/// a corner twist sum divisible by 3, and permutations of equal parity.
pub open spec fn solvable(e: Seq<u8>, c: Seq<u8>) -> bool {
    &&& edges_wf(e)
    &&& corners_wf(c)
    &&& flip_count(e, 12) % 2 == 0
    &&& twist_sum(c, 8) % 3 == 0
    &&& inversions(e, 0x0fu8, 12) % 2 == inversions(c, 0x07u8, 8) % 2
}

/// The first invariant that a cube breaks, in the order of the variants of
/// `InvalidState`, or `Ok` for a cube that can be solved.
pub open spec fn solvability(e: Seq<u8>, c: Seq<u8>) -> Result<(), InvalidState> {
    if !(edges_wf(e) && corners_wf(c)) {
        Err(InvalidState::Malformed)
    } else if flip_count(e, 12) % 2 != 0 {
        Err(InvalidState::EdgeOrientation)
    } else if twist_sum(c, 8) % 3 != 0 {
        Err(InvalidState::CornerOrientation)
    } else if inversions(e, 0x0fu8, 12) % 2 != inversions(c, 0x07u8, 8) % 2 {
        Err(InvalidState::Parity)
    } else {
        Ok(())
    }
}

proof fn lemma_greater_before_bound(s: Seq<u8>, mask: u8, j: int, m: int)
    ensures
        0 <= greater_before(s, mask, j, m) <= if m < 0 {
            0
        } else {
            m
        },
    decreases m,
{
    if m > 0 {
        lemma_greater_before_bound(s, mask, j, m - 1);
    }
}

proof fn lemma_inversions_bound(s: Seq<u8>, mask: u8, n: int)
    ensures
        0 <= inversions(s, mask, n) <= if n < 0 {
            0
        } else {
            n * n
        },
    decreases n,
{
    if n > 0 {
        lemma_inversions_bound(s, mask, n - 1);
        lemma_greater_before_bound(s, mask, n - 1, n - 1);
        assert((n - 1) * (n - 1) + (n - 1) <= n * n) by (nonlinear_arith)
            requires
                n > 0,
        ;
    }
}

fn count_inversions(s: &[u8; 16], mask: u8, n: usize) -> (r: usize)
    requires
        n <= 16,
    ensures
        r as int == inversions(s@, mask, n as int),
{
    let mut acc: usize = 0;
    let mut j: usize = 0;
    while j < n
        invariant
            0 <= j <= n,
            n <= 16,
            acc as int == inversions(s@, mask, j as int),
        decreases n - j,
    {
        let mut cnt: usize = 0;
        let mut i: usize = 0;
        while i < j
            invariant
                0 <= i <= j,
                j < n,
                n <= 16,
                cnt as int == greater_before(s@, mask, j as int, i as int),
                cnt <= i,
            decreases j - i,
        {
            if s[i] & mask > s[j] & mask {
                cnt += 1;
            }
            i += 1;
        }
        proof {
            lemma_inversions_bound(s@, mask, j as int);
            assert(j * j <= 256) by (nonlinear_arith)
                requires
                    j <= 16,
            ;
        }
        acc = acc + cnt;
        j += 1;
    }
    acc
}

fn edges_well_formed(s: &[u8; 16]) -> (r: bool)
    ensures
        r == edges_wf(s@),
{
    let mut i: usize = 0;
    while i < 16
        invariant
            0 <= i <= 16,
            forall|j: int| 0 <= j < i && j < 12 ==> edge_byte_ok(#[trigger] s@[j]),
            forall|j: int| 12 <= j < i ==> s@[j] == 0,
        decreases 16 - i,
    {
        if i < 12 {
            if s[i] & 0x10 != 0 || s[i] & 0x0f >= 12 {
                return false;
            }
        } else if s[i] != 0 {
            return false;
        }
        i += 1;
    }
    let mut a: usize = 0;
    while a < 12
        invariant
            0 <= a <= 12,
            edge_bytes_ok(s@),
            forall|x: int, y: int|
                0 <= x < a && 0 <= y < 12 && x != y ==> e_id(#[trigger] s@[x]) != e_id(
                    #[trigger] s@[y],
                ),
        decreases 12 - a,
    {
        let mut b: usize = 0;
        while b < 12
            invariant
                0 <= a < 12,
                0 <= b <= 12,
                forall|x: int, y: int|
                    0 <= x < a && 0 <= y < 12 && x != y ==> e_id(#[trigger] s@[x]) != e_id(
                        #[trigger] s@[y],
                    ),
                forall|y: int| 0 <= y < b && a != y ==> e_id(s@[a as int]) != e_id(#[trigger] s@[y]),
            decreases 12 - b,
        {
            if a != b && s[a] & 0x0f == s[b] & 0x0f {
                return false;
            }
            b += 1;
        }
        a += 1;
    }
    let mut k: usize = 0;
    while k < 12
        invariant
            0 <= k <= 12,
            edge_bytes_ok(s@),
            forall|x: int, y: int|
                0 <= x < 12 && 0 <= y < 12 && x != y ==> e_id(#[trigger] s@[x]) != e_id(
                    #[trigger] s@[y],
                ),
            forall|m: int| 0 <= m < k ==> #[trigger] edge_present(s@, m),
        decreases 12 - k,
    {
        let mut i: usize = 0;
        let mut found = false;
        while i < 12
            invariant
                0 <= i <= 12,
                k < 12,
                found ==> edge_present(s@, k as int),
                !found ==> forall|x: int| 0 <= x < i ==> e_id(#[trigger] s@[x]) as int != k,
            decreases 12 - i,
        {
            if s[i] & 0x0f == k as u8 {
                found = true;
                assert(e_id(s@[i as int]) as int == k);
            }
            i += 1;
        }
        if !found {
            assert(!edge_present(s@, k as int));
            return false;
        }
        k += 1;
    }
    true
}

fn corners_well_formed(s: &[u8; 16]) -> (r: bool)
    ensures
        r == corners_wf(s@),
{
    let mut i: usize = 0;
    while i < 16
        invariant
            0 <= i <= 16,
            forall|j: int| 0 <= j < i && j < 8 ==> corner_byte_ok(#[trigger] s@[j]),
            forall|j: int| 8 <= j < i ==> s@[j] == 0,
        decreases 16 - i,
    {
        if i < 8 {
            if s[i] & 0x18 != 0 || s[i] >> 5u8 >= 3 {
                return false;
            }
        } else if s[i] != 0 {
            return false;
        }
        i += 1;
    }
    let mut a: usize = 0;
    while a < 8
        invariant
            0 <= a <= 8,
            corner_bytes_ok(s@),
            forall|x: int, y: int|
                0 <= x < a && 0 <= y < 8 && x != y ==> c_id(#[trigger] s@[x]) != c_id(
                    #[trigger] s@[y],
                ),
        decreases 8 - a,
    {
        let mut b: usize = 0;
        while b < 8
            invariant
                0 <= a < 8,
                0 <= b <= 8,
                forall|x: int, y: int|
                    0 <= x < a && 0 <= y < 8 && x != y ==> c_id(#[trigger] s@[x]) != c_id(
                        #[trigger] s@[y],
                    ),
                forall|y: int| 0 <= y < b && a != y ==> c_id(s@[a as int]) != c_id(#[trigger] s@[y]),
            decreases 8 - b,
        {
            if a != b && s[a] & 0x07 == s[b] & 0x07 {
                return false;
            }
            b += 1;
        }
        a += 1;
    }
    let mut k: usize = 0;
    while k < 8
        invariant
            0 <= k <= 8,
            corner_bytes_ok(s@),
            forall|x: int, y: int|
                0 <= x < 8 && 0 <= y < 8 && x != y ==> c_id(#[trigger] s@[x]) != c_id(
                    #[trigger] s@[y],
                ),
            forall|m: int| 0 <= m < k ==> #[trigger] corner_present(s@, m),
        decreases 8 - k,
    {
        let mut i: usize = 0;
        let mut found = false;
        while i < 8
            invariant
                0 <= i <= 8,
                k < 8,
                found ==> corner_present(s@, k as int),
                !found ==> forall|x: int| 0 <= x < i ==> c_id(#[trigger] s@[x]) as int != k,
            decreases 8 - i,
        {
            if s[i] & 0x07 == k as u8 {
                found = true;
                assert(c_id(s@[i as int]) as int == k);
            }
            i += 1;
        }
        if !found {
            assert(!corner_present(s@, k as int));
            return false;
        }
        k += 1;
    }
    true
}

impl CubieCube {
    /// Checks that the cube can be solved; the error names the first
    /// invariant that fails, in the order of the variants.
    pub fn check_solvable(&self) -> (r: Result<(), InvalidState>)
        ensures
            r == solvability(self.edges@, self.corners@),
            r.is_ok() <==> solvable(self.edges@, self.corners@),
    {
        if !edges_well_formed(&self.edges.0) || !corners_well_formed(&self.corners.0) {
            return Err(InvalidState::Malformed);
        }
        let e = &self.edges.0;
        let c = &self.corners.0;
        let mut flips: usize = 0;
        let mut i: usize = 0;
        while i < 12
            invariant
                0 <= i <= 12,
                flips as int == flip_count(e@, i as int),
                flips <= i,
            decreases 12 - i,
        {
            if e[i] & 0x80 != 0 {
                flips += 1;
            }
            i += 1;
        }
        if flips % 2 != 0 {
            return Err(InvalidState::EdgeOrientation);
        }
        let mut twists: usize = 0;
        let mut j: usize = 0;
        while j < 8
            invariant
                0 <= j <= 8,
                corner_bytes_ok(c@),
                twists as int == twist_sum(c@, j as int),
                twists <= 2 * j,
            decreases 8 - j,
        {
            assert(corner_byte_ok(c@[j as int]));
            twists += (c[j] >> 5u8) as usize;
            j += 1;
        }
        if twists % 3 != 0 {
            return Err(InvalidState::CornerOrientation);
        }
        if count_inversions(e, 0x0f, 12) % 2 != count_inversions(c, 0x07, 8) % 2 {
            return Err(InvalidState::Parity);
        }
        Ok(())
    }
}

} // verus!
