use vstd::prelude::*;
use vstd::arithmetic::div_mod::lemma_mod_breakdown;
use crate::cube::CubeAxis;
use crate::cubie::EdgeCubieCube;
use crate::edges::{e_bad, edges_wf, edge_present, lemma_small_edge_byte};
use crate::validity::flip_count;

verus! {

/// Number of values of the F/B edge-orientation coordinate.
pub const EO_FB_SIZE: u16 = 2048;

pub open spec fn two_pow(n: nat) -> nat
    decreases n,
{
    if n == 0 {
        1
    } else {
        2 * two_pow((n - 1) as nat)
    }
}

/// Bit `i` of `c`.
pub open spec fn bit_of(c: nat, i: nat) -> bool {
    (c / two_pow(i)) % 2 == 1
}

/// Number of set bits among the low `n` bits of `c`.
pub open spec fn set_bits(c: nat, n: nat) -> nat
    decreases n,
{
    if n == 0 {
        0
    } else {
        set_bits(c, (n - 1) as nat) + if bit_of(c, (n - 1) as nat) {
            1nat
        } else {
            0nat
        }
    }
}

/// The F/B orientation of the first `n` edges read as a binary number, slot
/// `i` giving bit `i`.
pub open spec fn eo_fb_value(s: Seq<u8>, n: nat) -> nat
    decreases n,
{
    if n == 0 {
        0
    } else {
        eo_fb_value(s, (n - 1) as nat) + if e_bad(s[n - 1], CubeAxis::FB) {
            two_pow((n - 1) as nat)
        } else {
            0
        }
    }
}

/// The F/B edge-orientation coordinate: the first eleven edges' F/B bits (the
/// twelfth follows from the parity of the others).
pub open spec fn eo_fb_coord_spec(s: Seq<u8>) -> nat {
    eo_fb_value(s, 11)
}

/// The edge byte of slot `i` in the representative of `c`: the edge at home,
/// flipped (about every axis) when bit `i` of `c` is set; the twelfth edge
/// is flipped when an odd number of the others are.
pub open spec fn eo_fb_byte(c: nat, i: int) -> u8 {
    let flipped = if i < 11 {
        bit_of(c, i as nat)
    } else {
        set_bits(c, 11) % 2 == 1
    };
    (i as u8) | if flipped {
        0xe0u8
    } else {
        0u8
    }
}

/// The representative state of coordinate `c`.
pub open spec fn eo_fb_state(c: nat) -> Seq<u8> {
    Seq::new(16, |i: int| if i < 12 { eo_fb_byte(c, i) } else { 0u8 })
}

pub proof fn lemma_two_pow_pos(n: nat)
    ensures
        two_pow(n) > 0,
    decreases n,
{
    if n > 0 {
        lemma_two_pow_pos((n - 1) as nat);
    }
}

proof fn lemma_two_pow_small(n: nat)
    requires
        n <= 10,
    ensures
        1 <= two_pow(n) <= 1024,
        two_pow(n + 1) == 2 * two_pow(n),
    decreases 10 - n,
{
    lemma_two_pow_pos(n);
    if n < 10 {
        lemma_two_pow_small(n + 1);
    } else {
        reveal_with_fuel(two_pow, 11);
    }
}

pub proof fn lemma_eo_fb_value_bound(s: Seq<u8>, n: nat)
    ensures
        eo_fb_value(s, n) < two_pow(n),
    decreases n,
{
    if n > 0 {
        lemma_eo_fb_value_bound(s, (n - 1) as nat);
    }
}

pub proof fn lemma_flipped_byte(i: u8, f: bool)
    requires
        i < 12,
    ensures
        e_bad(i | if f {
            0xe0u8
        } else {
            0u8
        }, CubeAxis::FB) == f,
        e_bad(i | if f {
            0xe0u8
        } else {
            0u8
        }, CubeAxis::UD) == f,
        crate::edges::edge_byte_ok(i | if f {
            0xe0u8
        } else {
            0u8
        }),
        crate::edges::e_id(i | if f {
            0xe0u8
        } else {
            0u8
        }) == i,
{
    lemma_small_edge_byte(i);
    assert(i < 12 ==> (i | 0xe0u8) & 0x40u8 != 0 && (i | 0xe0u8) & 0x80u8 != 0 && (i | 0xe0u8)
        & 0x10u8 == 0 && (i | 0xe0u8) & 0x0fu8 == i && i | 0u8 == i) by (bit_vector);
}

/// Reading the representative back gives the low bits of `c`.
proof fn lemma_eo_fb_value_of_state(c: nat, n: nat)
    requires
        n <= 11,
    ensures
        eo_fb_value(eo_fb_state(c), n) == c % two_pow(n),
    decreases n,
{
    if n > 0 {
        let m = (n - 1) as nat;
        lemma_eo_fb_value_of_state(c, m);
        lemma_flipped_byte(m as u8, bit_of(c, m));
        lemma_two_pow_pos(m);
        lemma_mod_breakdown(c as int, two_pow(m) as int, 2);
        assert(two_pow(n) == two_pow(m) * 2);
    }
}

/// Decoding a coordinate value and encoding the result gives the value back,
/// for the F/B edge-orientation coordinate.
pub proof fn lemma_eo_fb_round_trip(c: nat)
    requires
        c < EO_FB_SIZE,
    ensures
        eo_fb_coord_spec(eo_fb_state(c)) == c,
{
    lemma_eo_fb_value_of_state(c, 11);
    reveal_with_fuel(two_pow, 12);
    assert(two_pow(11) == 2048);
}

/// The F/B edge-orientation coordinate of an edge state.
pub fn eo_fb_coord(edges: &EdgeCubieCube) -> (r: u16)
    ensures
        r as nat == eo_fb_coord_spec(edges@),
        r < EO_FB_SIZE,
{
    let mut acc: u16 = 0;
    let mut p: u32 = 1;
    let mut i: usize = 0;
    while i < 11
        invariant
            0 <= i <= 11,
            edges@.len() == 16,
            acc as nat == eo_fb_value(edges@, i as nat),
            p as nat == two_pow(i as nat),
            p <= 2048,
            acc < p,
        decreases 11 - i,
    {
        proof {
            lemma_eo_fb_value_bound(edges@, i as nat);
            lemma_two_pow_small(i as nat);
        }
        if edges.0[i] & 0x40 != 0 {
            acc = acc + p as u16;
        }
        p = p * 2;
        i += 1;
    }
    proof {
        lemma_eo_fb_value_bound(edges@, 11);
        reveal_with_fuel(two_pow, 12);
    }
    acc
}

/// The representative edge state of an F/B edge-orientation coordinate value.
pub fn eo_fb_decode(c: u16) -> (r: EdgeCubieCube)
    requires
        c < EO_FB_SIZE,
    ensures
        r@ == eo_fb_state(c as nat),
        edges_wf(r@),
        flip_count(r@, 12) % 2 == 0,
{
    let mut bytes = [0u8;16];
    let mut p: u32 = 1;
    let mut ones: usize = 0;
    let mut i: usize = 0;
    while i < 11
        invariant
            0 <= i <= 11,
            bytes@.len() == 16,
            p as nat == two_pow(i as nat),
            p <= 2048,
            ones as nat == set_bits(c as nat, i as nat),
            ones <= i,
            forall|j: int| 0 <= j < i ==> bytes@[j] == eo_fb_byte(c as nat, j),
            forall|j: int| i <= j < 16 ==> bytes@[j] == 0,
        decreases 11 - i,
    {
        proof {
            lemma_two_pow_small(i as nat);
        }
        let flipped = (c as u32 / p) % 2 == 1;
        bytes[i] = (i as u8) | if flipped {
            0xe0u8
        } else {
            0u8
        };
        if flipped {
            ones += 1;
        }
        p = p * 2;
        i += 1;
    }
    bytes[11] = 11u8 | if ones % 2 == 1 {
        0xe0u8
    } else {
        0u8
    };
    let r = EdgeCubieCube::new(bytes);
    assert(r@ =~= eo_fb_state(c as nat));
    proof {
        let s = r@;
        assert forall|j: int| 0 <= j < 12 implies crate::edges::edge_byte_ok(#[trigger] s[j])
            && crate::edges::e_id(s[j]) as int == j && e_bad(s[j], CubeAxis::UD) == (if j < 11 {
            bit_of(c as nat, j as nat)
        } else {
            set_bits(c as nat, 11) % 2 == 1
        }) by {
            if j < 11 {
                lemma_flipped_byte(j as u8, bit_of(c as nat, j as nat));
            } else {
                lemma_flipped_byte(11u8, set_bits(c as nat, 11) % 2 == 1);
            }
        }
        assert forall|k: int| 0 <= k < 12 implies #[trigger] edge_present(s, k) by {
            assert(crate::edges::e_id(s[k]) as int == k);
        }
        lemma_flip_count_state(c as nat);
    }
    r
}

/// The representative has an even number of flipped edges.
proof fn lemma_flip_count_state(c: nat)
    ensures
        flip_count(eo_fb_state(c), 12) == set_bits(c, 11) + if set_bits(c, 11) % 2 == 1 {
            1nat
        } else {
            0nat
        },
{
    lemma_flip_count_up_to(c, 11);
    lemma_flipped_byte(11u8, set_bits(c, 11) % 2 == 1);
}

/// Among the first `n` edges of the representative, as many are flipped as
/// `c` has set bits.
proof fn lemma_flip_count_up_to(c: nat, n: nat)
    requires
        n <= 11,
    ensures
        flip_count(eo_fb_state(c), n as int) == set_bits(c, n),
    decreases n,
{
    if n > 0 {
        lemma_flip_count_up_to(c, (n - 1) as nat);
        lemma_flipped_byte((n - 1) as u8, bit_of(c, (n - 1) as nat));
    }
}

} // verus!
