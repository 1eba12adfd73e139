use vstd::prelude::*;
use crate::cube::{axis_of_face, CubeAxis, Face};

verus! {

// Edge slots: UB UR UF UL FR FL BR BL DF DR DB DL.
// Corner slots: UBL UBR UFR UFL DFL DFR DBR DBL.
// A clockwise quarter turn of a face moves its pieces along a 4-cycle
// `a -> b -> c -> d -> a` of slots.

pub open spec fn edge_cycle(f: Face) -> (int, int, int, int) {
    match f {
        Face::Up => (2, 3, 0, 1),
        Face::Down => (8, 9, 10, 11),
        Face::Front => (2, 4, 8, 5),
        Face::Back => (0, 7, 10, 6),
        Face::Left => (3, 5, 11, 7),
        Face::Right => (1, 6, 9, 4),
    }
}

pub open spec fn corner_cycle(f: Face) -> (int, int, int, int) {
    match f {
        Face::Up => (2, 3, 0, 1),
        Face::Down => (4, 5, 6, 7),
        Face::Front => (3, 2, 5, 4),
        Face::Back => (1, 0, 7, 6),
        Face::Left => (0, 3, 4, 7),
        Face::Right => (2, 1, 6, 5),
    }
}

/// The slot from which a clockwise quarter turn of a face with cycle `c`
/// brings a piece to slot `i`.
pub open spec fn cycle_src(c: (int, int, int, int), i: int) -> int {
    if i == c.1 {
        c.0
    } else if i == c.2 {
        c.1
    } else if i == c.3 {
        c.2
    } else if i == c.0 {
        c.3
    } else {
        i
    }
}

pub open spec fn in_cycle(c: (int, int, int, int), i: int) -> bool {
    i == c.0 || i == c.1 || i == c.2 || i == c.3
}

/// The orientation bit of an edge byte that belongs to an axis.
pub open spec fn axis_bit(a: CubeAxis) -> u8 {
    match a {
        CubeAxis::UD => 0x80u8,
        CubeAxis::FB => 0x40u8,
        CubeAxis::LR => 0x20u8,
    }
}

pub(crate) fn exec_axis_bit(a: CubeAxis) -> (r: u8)
    ensures
        r == axis_bit(a),
{
    match a {
        CubeAxis::UD => 0x80u8,
        CubeAxis::FB => 0x40u8,
        CubeAxis::LR => 0x20u8,
    }
}

/// What a clockwise quarter turn of `f` xors into the byte that lands at
/// edge slot `i`: the bit of the face's axis on the four moved edges.
pub open spec fn edge_turn_mask(f: Face, i: int) -> u8 {
    if in_cycle(edge_cycle(f), i) {
        axis_bit(axis_of_face(f))
    } else {
        0u8
    }
}

/// The twist that a clockwise quarter turn of `f` adds to the corner that
/// lands at corner slot `i`.
pub open spec fn corner_turn_twist(f: Face, i: int) -> int {
    let c = corner_cycle(f);
    match f {
        Face::Up | Face::Down => 0,
        _ => if i == c.1 || i == c.3 {
            1
        } else if i == c.0 || i == c.2 {
            2
        } else {
            0
        },
    }
}

pub(crate) fn exec_edge_cycle(f: Face) -> (r: (usize, usize, usize, usize))
    ensures
        (r.0 as int, r.1 as int, r.2 as int, r.3 as int) == edge_cycle(f),
{
    match f {
        Face::Up => (2, 3, 0, 1),
        Face::Down => (8, 9, 10, 11),
        Face::Front => (2, 4, 8, 5),
        Face::Back => (0, 7, 10, 6),
        Face::Left => (3, 5, 11, 7),
        Face::Right => (1, 6, 9, 4),
    }
}

pub(crate) fn exec_corner_cycle(f: Face) -> (r: (usize, usize, usize, usize))
    ensures
        (r.0 as int, r.1 as int, r.2 as int, r.3 as int) == corner_cycle(f),
{
    match f {
        Face::Up => (2, 3, 0, 1),
        Face::Down => (4, 5, 6, 7),
        Face::Front => (3, 2, 5, 4),
        Face::Back => (1, 0, 7, 6),
        Face::Left => (0, 3, 4, 7),
        Face::Right => (2, 1, 6, 5),
    }
}

pub(crate) fn exec_cycle_src(c: (usize, usize, usize, usize), i: usize) -> (r: usize)
    ensures
        r == cycle_src((c.0 as int, c.1 as int, c.2 as int, c.3 as int), i as int),
{
    if i == c.1 {
        c.0
    } else if i == c.2 {
        c.1
    } else if i == c.3 {
        c.2
    } else if i == c.0 {
        c.3
    } else {
        i
    }
}

/// Source slot of edge slot `i` under a clockwise quarter turn of `f`.
pub(crate) fn edge_turn_src(f: Face, i: usize) -> (r: usize)
    ensures
        r == cycle_src(edge_cycle(f), i as int),
        i < 12 ==> r < 12,
{
    exec_cycle_src(exec_edge_cycle(f), i)
}

/// Source slot of corner slot `i` under a clockwise quarter turn of `f`.
pub(crate) fn corner_turn_src(f: Face, i: usize) -> (r: usize)
    ensures
        r == cycle_src(corner_cycle(f), i as int),
        i < 8 ==> r < 8,
{
    exec_cycle_src(exec_corner_cycle(f), i)
}

pub(crate) fn exec_edge_turn_mask(f: Face, i: usize) -> (r: u8)
    ensures
        r == edge_turn_mask(f, i as int),
{
    let c = exec_edge_cycle(f);
    if i == c.0 || i == c.1 || i == c.2 || i == c.3 {
        match f {
            Face::Up | Face::Down => 0x80u8,
            Face::Front | Face::Back => 0x40u8,
            Face::Left | Face::Right => 0x20u8,
        }
    } else {
        0u8
    }
}

pub(crate) fn exec_corner_turn_twist(f: Face, i: usize) -> (r: u8)
    ensures
        r as int == corner_turn_twist(f, i as int),
        r < 3,
{
    let c = exec_corner_cycle(f);
    match f {
        Face::Up | Face::Down => 0,
        _ => if i == c.1 || i == c.3 {
            1
        } else if i == c.0 || i == c.2 {
            2
        } else {
            0
        },
    }
}

/// Which facelet of edge slot `k` (first or second, in the order of the slot's
/// name) is the reference facelet for orientation about axis `a`.
pub open spec fn edge_ref(a: CubeAxis, k: int) -> bool {
    match a {
        CubeAxis::UD => k == 0 || k == 2 || k == 8 || k == 10,
        CubeAxis::FB => false,
        CubeAxis::LR => 4 <= k < 8,
    }
}

pub(crate) fn exec_edge_ref(a: CubeAxis, k: usize) -> (r: bool)
    ensures
        r == edge_ref(a, k as int),
{
    match a {
        CubeAxis::UD => k == 0 || k == 2 || k == 8 || k == 10,
        CubeAxis::FB => false,
        CubeAxis::LR => 4 <= k && k < 8,
    }
}

/// Under a rotation about `r`, the orientation about axis `a` is read from
/// the orientation about the returned axis before the rotation.
pub open spec fn rot_axis_source(r: CubeAxis, a: CubeAxis) -> CubeAxis {
    if a == r {
        a
    } else {
        match (r, a) {
            (CubeAxis::UD, CubeAxis::FB) => CubeAxis::LR,
            (CubeAxis::UD, _) => CubeAxis::FB,
            (CubeAxis::FB, CubeAxis::UD) => CubeAxis::LR,
            (CubeAxis::FB, _) => CubeAxis::UD,
            (_, CubeAxis::UD) => CubeAxis::FB,
            (_, _) => CubeAxis::UD,
        }
    }
}

pub(crate) fn exec_rot_axis_source(r: CubeAxis, a: CubeAxis) -> (s: CubeAxis)
    ensures
        s == rot_axis_source(r, a),
{
    if a == r {
        a
    } else {
        match (r, a) {
            (CubeAxis::UD, CubeAxis::FB) => CubeAxis::LR,
            (CubeAxis::UD, _) => CubeAxis::FB,
            (CubeAxis::FB, CubeAxis::UD) => CubeAxis::LR,
            (CubeAxis::FB, _) => CubeAxis::UD,
            (_, CubeAxis::UD) => CubeAxis::FB,
            (_, _) => CubeAxis::UD,
        }
    }
}

/// The part of the orientation change about axis `a`, under a rotation about
/// `r`, that slot (or home slot) `k` contributes.
pub open spec fn edge_rot_offset(r: CubeAxis, a: CubeAxis, k: int) -> bool {
    (edge_rot_shift(r, k) == 1) ^ edge_ref(a, edge_rot_dst(r, k)) ^ edge_ref(
        rot_axis_source(r, a),
        k,
    )
}

pub(crate) fn exec_edge_rot_offset(r: CubeAxis, a: CubeAxis, k: usize) -> (o: bool)
    requires
        k < 12,
    ensures
        o == edge_rot_offset(r, a, k as int),
{
    let d = exec_edge_rot_dst(r, k);
    (exec_edge_rot_shift(r, k) == 1) ^ exec_edge_ref(a, d) ^ exec_edge_ref(
        exec_rot_axis_source(r, a),
        k,
    )
}

/// Slot whose edge a clockwise rotation about `a` brings to slot `i`.
pub open spec fn edge_rot_src(a: CubeAxis, i: int) -> int {
    match a {
        CubeAxis::LR => if i == 0 { 2 }
            else if i == 1 { 4 }
            else if i == 2 { 8 }
            else if i == 3 { 5 }
            else if i == 4 { 9 }
            else if i == 5 { 11 }
            else if i == 6 { 1 }
            else if i == 7 { 3 }
            else if i == 8 { 10 }
            else if i == 9 { 6 }
            else if i == 10 { 0 }
            else { 7 },
        CubeAxis::UD => if i == 0 { 3 }
            else if i == 1 { 0 }
            else if i == 2 { 1 }
            else if i == 3 { 2 }
            else if i == 4 { 6 }
            else if i == 5 { 4 }
            else if i == 6 { 7 }
            else if i == 7 { 5 }
            else if i == 8 { 9 }
            else if i == 9 { 10 }
            else if i == 10 { 11 }
            else { 8 },
        CubeAxis::FB => if i == 0 { 7 }
            else if i == 1 { 3 }
            else if i == 2 { 5 }
            else if i == 3 { 11 }
            else if i == 4 { 2 }
            else if i == 5 { 8 }
            else if i == 6 { 0 }
            else if i == 7 { 10 }
            else if i == 8 { 4 }
            else if i == 9 { 1 }
            else if i == 10 { 6 }
            else { 9 },
    }
}

pub(crate) fn exec_edge_rot_src(a: CubeAxis, i: usize) -> (r: usize)
    requires
        i < 12,
    ensures
        r == edge_rot_src(a, i as int),
{
    match a {
        CubeAxis::LR => if i == 0 { 2 }
            else if i == 1 { 4 }
            else if i == 2 { 8 }
            else if i == 3 { 5 }
            else if i == 4 { 9 }
            else if i == 5 { 11 }
            else if i == 6 { 1 }
            else if i == 7 { 3 }
            else if i == 8 { 10 }
            else if i == 9 { 6 }
            else if i == 10 { 0 }
            else { 7 },
        CubeAxis::UD => if i == 0 { 3 }
            else if i == 1 { 0 }
            else if i == 2 { 1 }
            else if i == 3 { 2 }
            else if i == 4 { 6 }
            else if i == 5 { 4 }
            else if i == 6 { 7 }
            else if i == 7 { 5 }
            else if i == 8 { 9 }
            else if i == 9 { 10 }
            else if i == 10 { 11 }
            else { 8 },
        CubeAxis::FB => if i == 0 { 7 }
            else if i == 1 { 3 }
            else if i == 2 { 5 }
            else if i == 3 { 11 }
            else if i == 4 { 2 }
            else if i == 5 { 8 }
            else if i == 6 { 0 }
            else if i == 7 { 10 }
            else if i == 8 { 4 }
            else if i == 9 { 1 }
            else if i == 10 { 6 }
            else { 9 },
    }
}

/// Slot to which a clockwise rotation about `a` carries the edge at slot `i`.
pub open spec fn edge_rot_dst(a: CubeAxis, i: int) -> int {
    match a {
        CubeAxis::LR => if i == 0 { 10 }
            else if i == 1 { 6 }
            else if i == 2 { 0 }
            else if i == 3 { 7 }
            else if i == 4 { 1 }
            else if i == 5 { 3 }
            else if i == 6 { 9 }
            else if i == 7 { 11 }
            else if i == 8 { 2 }
            else if i == 9 { 4 }
            else if i == 10 { 8 }
            else { 5 },
        CubeAxis::UD => if i == 0 { 1 }
            else if i == 1 { 2 }
            else if i == 2 { 3 }
            else if i == 3 { 0 }
            else if i == 4 { 5 }
            else if i == 5 { 7 }
            else if i == 6 { 4 }
            else if i == 7 { 6 }
            else if i == 8 { 11 }
            else if i == 9 { 8 }
            else if i == 10 { 9 }
            else { 10 },
        CubeAxis::FB => if i == 0 { 6 }
            else if i == 1 { 9 }
            else if i == 2 { 4 }
            else if i == 3 { 1 }
            else if i == 4 { 8 }
            else if i == 5 { 2 }
            else if i == 6 { 10 }
            else if i == 7 { 0 }
            else if i == 8 { 5 }
            else if i == 9 { 11 }
            else if i == 10 { 7 }
            else { 3 },
    }
}

pub(crate) fn exec_edge_rot_dst(a: CubeAxis, i: usize) -> (r: usize)
    requires
        i < 12,
    ensures
        r == edge_rot_dst(a, i as int),
{
    match a {
        CubeAxis::LR => if i == 0 { 10 }
            else if i == 1 { 6 }
            else if i == 2 { 0 }
            else if i == 3 { 7 }
            else if i == 4 { 1 }
            else if i == 5 { 3 }
            else if i == 6 { 9 }
            else if i == 7 { 11 }
            else if i == 8 { 2 }
            else if i == 9 { 4 }
            else if i == 10 { 8 }
            else { 5 },
        CubeAxis::UD => if i == 0 { 1 }
            else if i == 1 { 2 }
            else if i == 2 { 3 }
            else if i == 3 { 0 }
            else if i == 4 { 5 }
            else if i == 5 { 7 }
            else if i == 6 { 4 }
            else if i == 7 { 6 }
            else if i == 8 { 11 }
            else if i == 9 { 8 }
            else if i == 10 { 9 }
            else { 10 },
        CubeAxis::FB => if i == 0 { 6 }
            else if i == 1 { 9 }
            else if i == 2 { 4 }
            else if i == 3 { 1 }
            else if i == 4 { 8 }
            else if i == 5 { 2 }
            else if i == 6 { 10 }
            else if i == 7 { 0 }
            else if i == 8 { 5 }
            else if i == 9 { 11 }
            else if i == 10 { 7 }
            else { 3 },
    }
}

/// Whether a clockwise rotation about `a` carries the first facelet of edge slot `i` onto the second facelet of its image.
pub open spec fn edge_rot_shift(a: CubeAxis, i: int) -> int {
    match a {
        CubeAxis::LR => if i == 0 { 1 }
            else if i == 1 { 0 }
            else if i == 2 { 1 }
            else if i == 3 { 0 }
            else if i == 4 { 0 }
            else if i == 5 { 0 }
            else if i == 6 { 0 }
            else if i == 7 { 0 }
            else if i == 8 { 1 }
            else if i == 9 { 0 }
            else if i == 10 { 1 }
            else { 0 },
        CubeAxis::UD => if i == 0 { 0 }
            else if i == 1 { 0 }
            else if i == 2 { 0 }
            else if i == 3 { 0 }
            else if i == 4 { 1 }
            else if i == 5 { 1 }
            else if i == 6 { 1 }
            else if i == 7 { 1 }
            else if i == 8 { 0 }
            else if i == 9 { 0 }
            else if i == 10 { 0 }
            else { 0 },
        CubeAxis::FB => 1,
    }
}

pub(crate) fn exec_edge_rot_shift(a: CubeAxis, i: usize) -> (r: u8)
    requires
        i < 12,
    ensures
        r == edge_rot_shift(a, i as int),
{
    match a {
        CubeAxis::LR => if i == 0 { 1 }
            else if i == 1 { 0 }
            else if i == 2 { 1 }
            else if i == 3 { 0 }
            else if i == 4 { 0 }
            else if i == 5 { 0 }
            else if i == 6 { 0 }
            else if i == 7 { 0 }
            else if i == 8 { 1 }
            else if i == 9 { 0 }
            else if i == 10 { 1 }
            else { 0 },
        CubeAxis::UD => if i == 0 { 0 }
            else if i == 1 { 0 }
            else if i == 2 { 0 }
            else if i == 3 { 0 }
            else if i == 4 { 1 }
            else if i == 5 { 1 }
            else if i == 6 { 1 }
            else if i == 7 { 1 }
            else if i == 8 { 0 }
            else if i == 9 { 0 }
            else if i == 10 { 0 }
            else { 0 },
        CubeAxis::FB => 1,
    }
}

/// Slot whose corner a clockwise rotation about `a` brings to slot `i`.
pub open spec fn corner_rot_src(a: CubeAxis, i: int) -> int {
    match a {
        CubeAxis::LR => if i == 0 { 3 }
            else if i == 1 { 2 }
            else if i == 2 { 5 }
            else if i == 3 { 4 }
            else if i == 4 { 7 }
            else if i == 5 { 6 }
            else if i == 6 { 1 }
            else { 0 },
        CubeAxis::UD => if i == 0 { 3 }
            else if i == 1 { 0 }
            else if i == 2 { 1 }
            else if i == 3 { 2 }
            else if i == 4 { 5 }
            else if i == 5 { 6 }
            else if i == 6 { 7 }
            else { 4 },
        CubeAxis::FB => if i == 0 { 7 }
            else if i == 1 { 0 }
            else if i == 2 { 3 }
            else if i == 3 { 4 }
            else if i == 4 { 5 }
            else if i == 5 { 2 }
            else if i == 6 { 1 }
            else { 6 },
    }
}

pub(crate) fn exec_corner_rot_src(a: CubeAxis, i: usize) -> (r: usize)
    requires
        i < 8,
    ensures
        r == corner_rot_src(a, i as int),
{
    match a {
        CubeAxis::LR => if i == 0 { 3 }
            else if i == 1 { 2 }
            else if i == 2 { 5 }
            else if i == 3 { 4 }
            else if i == 4 { 7 }
            else if i == 5 { 6 }
            else if i == 6 { 1 }
            else { 0 },
        CubeAxis::UD => if i == 0 { 3 }
            else if i == 1 { 0 }
            else if i == 2 { 1 }
            else if i == 3 { 2 }
            else if i == 4 { 5 }
            else if i == 5 { 6 }
            else if i == 6 { 7 }
            else { 4 },
        CubeAxis::FB => if i == 0 { 7 }
            else if i == 1 { 0 }
            else if i == 2 { 3 }
            else if i == 3 { 4 }
            else if i == 4 { 5 }
            else if i == 5 { 2 }
            else if i == 6 { 1 }
            else { 6 },
    }
}

/// Slot to which a clockwise rotation about `a` carries the corner at slot `i`.
pub open spec fn corner_rot_dst(a: CubeAxis, i: int) -> int {
    match a {
        CubeAxis::LR => if i == 0 { 7 }
            else if i == 1 { 6 }
            else if i == 2 { 1 }
            else if i == 3 { 0 }
            else if i == 4 { 3 }
            else if i == 5 { 2 }
            else if i == 6 { 5 }
            else { 4 },
        CubeAxis::UD => if i == 0 { 1 }
            else if i == 1 { 2 }
            else if i == 2 { 3 }
            else if i == 3 { 0 }
            else if i == 4 { 7 }
            else if i == 5 { 4 }
            else if i == 6 { 5 }
            else { 6 },
        CubeAxis::FB => if i == 0 { 1 }
            else if i == 1 { 6 }
            else if i == 2 { 5 }
            else if i == 3 { 2 }
            else if i == 4 { 3 }
            else if i == 5 { 4 }
            else if i == 6 { 7 }
            else { 0 },
    }
}

pub(crate) fn exec_corner_rot_dst(a: CubeAxis, i: usize) -> (r: usize)
    requires
        i < 8,
    ensures
        r == corner_rot_dst(a, i as int),
{
    match a {
        CubeAxis::LR => if i == 0 { 7 }
            else if i == 1 { 6 }
            else if i == 2 { 1 }
            else if i == 3 { 0 }
            else if i == 4 { 3 }
            else if i == 5 { 2 }
            else if i == 6 { 5 }
            else { 4 },
        CubeAxis::UD => if i == 0 { 1 }
            else if i == 1 { 2 }
            else if i == 2 { 3 }
            else if i == 3 { 0 }
            else if i == 4 { 7 }
            else if i == 5 { 4 }
            else if i == 6 { 5 }
            else { 6 },
        CubeAxis::FB => if i == 0 { 1 }
            else if i == 1 { 6 }
            else if i == 2 { 5 }
            else if i == 3 { 2 }
            else if i == 4 { 3 }
            else if i == 5 { 4 }
            else if i == 6 { 7 }
            else { 0 },
    }
}

/// Clockwise position, at the image slot, of the U/D facelet of corner slot `i` under a clockwise rotation about `a`.
pub open spec fn corner_rot_shift(a: CubeAxis, i: int) -> int {
    match a {
        CubeAxis::LR => if i == 0 { 1 }
            else if i == 1 { 2 }
            else if i == 2 { 1 }
            else if i == 3 { 2 }
            else if i == 4 { 1 }
            else if i == 5 { 2 }
            else if i == 6 { 1 }
            else { 2 },
        CubeAxis::UD => 0,
        CubeAxis::FB => if i == 0 { 2 }
            else if i == 1 { 1 }
            else if i == 2 { 2 }
            else if i == 3 { 1 }
            else if i == 4 { 2 }
            else if i == 5 { 1 }
            else if i == 6 { 2 }
            else { 1 },
    }
}

pub(crate) fn exec_corner_rot_shift(a: CubeAxis, i: usize) -> (r: u8)
    requires
        i < 8,
    ensures
        r == corner_rot_shift(a, i as int),
{
    match a {
        CubeAxis::LR => if i == 0 { 1 }
            else if i == 1 { 2 }
            else if i == 2 { 1 }
            else if i == 3 { 2 }
            else if i == 4 { 1 }
            else if i == 5 { 2 }
            else if i == 6 { 1 }
            else { 2 },
        CubeAxis::UD => 0,
        CubeAxis::FB => if i == 0 { 2 }
            else if i == 1 { 1 }
            else if i == 2 { 2 }
            else if i == 3 { 1 }
            else if i == 4 { 2 }
            else if i == 5 { 1 }
            else if i == 6 { 2 }
            else { 1 },
    }
}

} // verus!
