use vstd::prelude::*;
use crate::corners::{c_id, c_tw, corner_bytes_ok, lemma_small_corner_byte, solved_corners};
use crate::cube::{Color, CubeAxis};
use crate::cubie::CubieCube;
use crate::edges::{e_bad, e_id, edge_bytes_ok, lemma_small_edge_byte, solved_edges};

verus! {

// Faces come in the order U D F B L R; each face's nine facelets in reading
// order, looking at the face with U on top for F, B, L and R, with B on top
// for U and with F on top for D.

/// What a facelet shows: a center, a sticker of the corner in a slot (by its
/// clockwise position from the slot's U/D facelet), or a sticker of the edge
/// in a slot (its first or second facelet).
#[derive(Clone, Copy, Debug, PartialEq, Eq, Structural)]
pub enum FaceletSource {
    Center(Color),
    CornerAt(u8, u8),
    EdgeAt(u8, bool),
}

/// Sticker `k` (clockwise from the U/D sticker) of corner `id`.
pub open spec fn corner_color(id: u8, k: u8) -> Color {
    match id {
        0 => if k == 0 { Color::White } else if k == 1 { Color::Orange } else { Color::Blue },
        1 => if k == 0 { Color::White } else if k == 1 { Color::Blue } else { Color::Red },
        2 => if k == 0 { Color::White } else if k == 1 { Color::Red } else { Color::Green },
        3 => if k == 0 { Color::White } else if k == 1 { Color::Green } else { Color::Orange },
        4 => if k == 0 { Color::Yellow } else if k == 1 { Color::Orange } else { Color::Green },
        5 => if k == 0 { Color::Yellow } else if k == 1 { Color::Green } else { Color::Red },
        6 => if k == 0 { Color::Yellow } else if k == 1 { Color::Red } else { Color::Blue },
        _ => if k == 0 { Color::Yellow } else if k == 1 { Color::Blue } else { Color::Orange },
    }
}

fn exec_corner_color(id: u8, k: u8) -> (r: Color)
    ensures
        r == corner_color(id, k),
{
    match id {
        0 => if k == 0 { Color::White } else if k == 1 { Color::Orange } else { Color::Blue },
        1 => if k == 0 { Color::White } else if k == 1 { Color::Blue } else { Color::Red },
        2 => if k == 0 { Color::White } else if k == 1 { Color::Red } else { Color::Green },
        3 => if k == 0 { Color::White } else if k == 1 { Color::Green } else { Color::Orange },
        4 => if k == 0 { Color::Yellow } else if k == 1 { Color::Orange } else { Color::Green },
        5 => if k == 0 { Color::Yellow } else if k == 1 { Color::Green } else { Color::Red },
        6 => if k == 0 { Color::Yellow } else if k == 1 { Color::Red } else { Color::Blue },
        _ => if k == 0 { Color::Yellow } else if k == 1 { Color::Blue } else { Color::Orange },
    }
}

/// Sticker `k` of edge `id`, the first being its U/D sticker, or its F/B sticker on a middle-layer edge.
pub open spec fn edge_color(id: u8, k: u8) -> Color {
    match id {
        0 => if k == 0 { Color::White } else { Color::Blue },
        1 => if k == 0 { Color::White } else { Color::Red },
        2 => if k == 0 { Color::White } else { Color::Green },
        3 => if k == 0 { Color::White } else { Color::Orange },
        4 => if k == 0 { Color::Green } else { Color::Red },
        5 => if k == 0 { Color::Green } else { Color::Orange },
        6 => if k == 0 { Color::Blue } else { Color::Red },
        7 => if k == 0 { Color::Blue } else { Color::Orange },
        8 => if k == 0 { Color::Yellow } else { Color::Green },
        9 => if k == 0 { Color::Yellow } else { Color::Red },
        10 => if k == 0 { Color::Yellow } else { Color::Blue },
        _ => if k == 0 { Color::Yellow } else { Color::Orange },
    }
}

fn exec_edge_color(id: u8, k: u8) -> (r: Color)
    ensures
        r == edge_color(id, k),
{
    match id {
        0 => if k == 0 { Color::White } else { Color::Blue },
        1 => if k == 0 { Color::White } else { Color::Red },
        2 => if k == 0 { Color::White } else { Color::Green },
        3 => if k == 0 { Color::White } else { Color::Orange },
        4 => if k == 0 { Color::Green } else { Color::Red },
        5 => if k == 0 { Color::Green } else { Color::Orange },
        6 => if k == 0 { Color::Blue } else { Color::Red },
        7 => if k == 0 { Color::Blue } else { Color::Orange },
        8 => if k == 0 { Color::Yellow } else { Color::Green },
        9 => if k == 0 { Color::Yellow } else { Color::Red },
        10 => if k == 0 { Color::Yellow } else { Color::Blue },
        _ => if k == 0 { Color::Yellow } else { Color::Orange },
    }
}

/// Where facelet `k` (reading order) of face `f` (face order) takes its color from.
pub open spec fn facelet_source(f: usize, k: usize) -> FaceletSource {
    match f {
        0 => if k == 0 {
            FaceletSource::CornerAt(0, 0)
        } else if k == 1 {
            FaceletSource::EdgeAt(0, false)
        } else if k == 2 {
            FaceletSource::CornerAt(1, 0)
        } else if k == 3 {
            FaceletSource::EdgeAt(3, false)
        } else if k == 4 {
            FaceletSource::Center(Color::White)
        } else if k == 5 {
            FaceletSource::EdgeAt(1, false)
        } else if k == 6 {
            FaceletSource::CornerAt(3, 0)
        } else if k == 7 {
            FaceletSource::EdgeAt(2, false)
        } else {
            FaceletSource::CornerAt(2, 0)
        },
        1 => if k == 0 {
            FaceletSource::CornerAt(4, 0)
        } else if k == 1 {
            FaceletSource::EdgeAt(8, false)
        } else if k == 2 {
            FaceletSource::CornerAt(5, 0)
        } else if k == 3 {
            FaceletSource::EdgeAt(11, false)
        } else if k == 4 {
            FaceletSource::Center(Color::Yellow)
        } else if k == 5 {
            FaceletSource::EdgeAt(9, false)
        } else if k == 6 {
            FaceletSource::CornerAt(7, 0)
        } else if k == 7 {
            FaceletSource::EdgeAt(10, false)
        } else {
            FaceletSource::CornerAt(6, 0)
        },
        2 => if k == 0 {
            FaceletSource::CornerAt(3, 1)
        } else if k == 1 {
            FaceletSource::EdgeAt(2, true)
        } else if k == 2 {
            FaceletSource::CornerAt(2, 2)
        } else if k == 3 {
            FaceletSource::EdgeAt(5, false)
        } else if k == 4 {
            FaceletSource::Center(Color::Green)
        } else if k == 5 {
            FaceletSource::EdgeAt(4, false)
        } else if k == 6 {
            FaceletSource::CornerAt(4, 2)
        } else if k == 7 {
            FaceletSource::EdgeAt(8, true)
        } else {
            FaceletSource::CornerAt(5, 1)
        },
        3 => if k == 0 {
            FaceletSource::CornerAt(1, 1)
        } else if k == 1 {
            FaceletSource::EdgeAt(0, true)
        } else if k == 2 {
            FaceletSource::CornerAt(0, 2)
        } else if k == 3 {
            FaceletSource::EdgeAt(6, false)
        } else if k == 4 {
            FaceletSource::Center(Color::Blue)
        } else if k == 5 {
            FaceletSource::EdgeAt(7, false)
        } else if k == 6 {
            FaceletSource::CornerAt(6, 2)
        } else if k == 7 {
            FaceletSource::EdgeAt(10, true)
        } else {
            FaceletSource::CornerAt(7, 1)
        },
        4 => if k == 0 {
            FaceletSource::CornerAt(0, 1)
        } else if k == 1 {
            FaceletSource::EdgeAt(3, true)
        } else if k == 2 {
            FaceletSource::CornerAt(3, 2)
        } else if k == 3 {
            FaceletSource::EdgeAt(7, true)
        } else if k == 4 {
            FaceletSource::Center(Color::Orange)
        } else if k == 5 {
            FaceletSource::EdgeAt(5, true)
        } else if k == 6 {
            FaceletSource::CornerAt(7, 2)
        } else if k == 7 {
            FaceletSource::EdgeAt(11, true)
        } else {
            FaceletSource::CornerAt(4, 1)
        },
        5 => if k == 0 {
            FaceletSource::CornerAt(2, 1)
        } else if k == 1 {
            FaceletSource::EdgeAt(1, true)
        } else if k == 2 {
            FaceletSource::CornerAt(1, 2)
        } else if k == 3 {
            FaceletSource::EdgeAt(4, true)
        } else if k == 4 {
            FaceletSource::Center(Color::Red)
        } else if k == 5 {
            FaceletSource::EdgeAt(6, true)
        } else if k == 6 {
            FaceletSource::CornerAt(5, 2)
        } else if k == 7 {
            FaceletSource::EdgeAt(9, true)
        } else {
            FaceletSource::CornerAt(6, 1)
        },
        _ => FaceletSource::Center(Color::Unset),
    }
}

fn exec_facelet_source(f: usize, k: usize) -> (r: FaceletSource)
    ensures
        r == facelet_source(f, k),
{
    match f {
        0 => if k == 0 {
            FaceletSource::CornerAt(0, 0)
        } else if k == 1 {
            FaceletSource::EdgeAt(0, false)
        } else if k == 2 {
            FaceletSource::CornerAt(1, 0)
        } else if k == 3 {
            FaceletSource::EdgeAt(3, false)
        } else if k == 4 {
            FaceletSource::Center(Color::White)
        } else if k == 5 {
            FaceletSource::EdgeAt(1, false)
        } else if k == 6 {
            FaceletSource::CornerAt(3, 0)
        } else if k == 7 {
            FaceletSource::EdgeAt(2, false)
        } else {
            FaceletSource::CornerAt(2, 0)
        },
        1 => if k == 0 {
            FaceletSource::CornerAt(4, 0)
        } else if k == 1 {
            FaceletSource::EdgeAt(8, false)
        } else if k == 2 {
            FaceletSource::CornerAt(5, 0)
        } else if k == 3 {
            FaceletSource::EdgeAt(11, false)
        } else if k == 4 {
            FaceletSource::Center(Color::Yellow)
        } else if k == 5 {
            FaceletSource::EdgeAt(9, false)
        } else if k == 6 {
            FaceletSource::CornerAt(7, 0)
        } else if k == 7 {
            FaceletSource::EdgeAt(10, false)
        } else {
            FaceletSource::CornerAt(6, 0)
        },
        2 => if k == 0 {
            FaceletSource::CornerAt(3, 1)
        } else if k == 1 {
            FaceletSource::EdgeAt(2, true)
        } else if k == 2 {
            FaceletSource::CornerAt(2, 2)
        } else if k == 3 {
            FaceletSource::EdgeAt(5, false)
        } else if k == 4 {
            FaceletSource::Center(Color::Green)
        } else if k == 5 {
            FaceletSource::EdgeAt(4, false)
        } else if k == 6 {
            FaceletSource::CornerAt(4, 2)
        } else if k == 7 {
            FaceletSource::EdgeAt(8, true)
        } else {
            FaceletSource::CornerAt(5, 1)
        },
        3 => if k == 0 {
            FaceletSource::CornerAt(1, 1)
        } else if k == 1 {
            FaceletSource::EdgeAt(0, true)
        } else if k == 2 {
            FaceletSource::CornerAt(0, 2)
        } else if k == 3 {
            FaceletSource::EdgeAt(6, false)
        } else if k == 4 {
            FaceletSource::Center(Color::Blue)
        } else if k == 5 {
            FaceletSource::EdgeAt(7, false)
        } else if k == 6 {
            FaceletSource::CornerAt(6, 2)
        } else if k == 7 {
            FaceletSource::EdgeAt(10, true)
        } else {
            FaceletSource::CornerAt(7, 1)
        },
        4 => if k == 0 {
            FaceletSource::CornerAt(0, 1)
        } else if k == 1 {
            FaceletSource::EdgeAt(3, true)
        } else if k == 2 {
            FaceletSource::CornerAt(3, 2)
        } else if k == 3 {
            FaceletSource::EdgeAt(7, true)
        } else if k == 4 {
            FaceletSource::Center(Color::Orange)
        } else if k == 5 {
            FaceletSource::EdgeAt(5, true)
        } else if k == 6 {
            FaceletSource::CornerAt(7, 2)
        } else if k == 7 {
            FaceletSource::EdgeAt(11, true)
        } else {
            FaceletSource::CornerAt(4, 1)
        },
        5 => if k == 0 {
            FaceletSource::CornerAt(2, 1)
        } else if k == 1 {
            FaceletSource::EdgeAt(1, true)
        } else if k == 2 {
            FaceletSource::CornerAt(1, 2)
        } else if k == 3 {
            FaceletSource::EdgeAt(4, true)
        } else if k == 4 {
            FaceletSource::Center(Color::Red)
        } else if k == 5 {
            FaceletSource::EdgeAt(6, true)
        } else if k == 6 {
            FaceletSource::CornerAt(5, 2)
        } else if k == 7 {
            FaceletSource::EdgeAt(9, true)
        } else {
            FaceletSource::CornerAt(6, 1)
        },
        _ => FaceletSource::Center(Color::Unset),
    }
}

/// The color of facelet `k` of face `f` on the cube with edge bytes `e` and
/// corner bytes `c`.
pub open spec fn facelet_color(e: Seq<u8>, c: Seq<u8>, f: int, k: int) -> Color {
    match facelet_source(f as usize, k as usize) {
        FaceletSource::Center(col) => col,
        FaceletSource::CornerAt(slot, twist) => {
            let b = c[slot as int];
            corner_color(c_id(b), ((3 - c_tw(b) + twist) % 3) as u8)
        },
        FaceletSource::EdgeAt(slot, flip) => {
            let b = e[slot as int];
            edge_color(
                e_id(b),
                if e_bad(b, CubeAxis::FB) ^ flip {
                    1u8
                } else {
                    0u8
                },
            )
        },
    }
}

/// The color of the center of face `f`.
pub open spec fn center_color(f: int) -> Color {
    if f == 0 {
        Color::White
    } else if f == 1 {
        Color::Yellow
    } else if f == 2 {
        Color::Green
    } else if f == 3 {
        Color::Blue
    } else if f == 4 {
        Color::Orange
    } else {
        Color::Red
    }
}

impl CubieCube {
    /// The six faces' nine colors each.
    pub fn get_facelets(&self) -> (r: [[Color; 9]; 6])
        requires
            edge_bytes_ok(self.edges@),
            corner_bytes_ok(self.corners@),
        ensures
            forall|f: int, k: int|
                0 <= f < 6 && 0 <= k < 9 ==> #[trigger] r@[f]@[k] == facelet_color(
                    self.edges@,
                    self.corners@,
                    f,
                    k,
                ),
    {
        let mut facelets = [[Color::Unset;9];6];
        let mut f: usize = 0;
        while f < 6
            invariant
                0 <= f <= 6,
                facelets@.len() == 6,
                edge_bytes_ok(self.edges@),
                corner_bytes_ok(self.corners@),
                forall|g: int, k: int|
                    0 <= g < f && 0 <= k < 9 ==> #[trigger] facelets@[g]@[k] == facelet_color(
                        self.edges@,
                        self.corners@,
                        g,
                        k,
                    ),
            decreases 6 - f,
        {
            let mut row = [Color::Unset;9];
            let mut k: usize = 0;
            while k < 9
                invariant
                    0 <= k <= 9,
                    f < 6,
                    row@.len() == 9,
                    edge_bytes_ok(self.edges@),
                    corner_bytes_ok(self.corners@),
                    forall|j: int|
                        0 <= j < k ==> #[trigger] row@[j] == facelet_color(
                            self.edges@,
                            self.corners@,
                            f as int,
                            j,
                        ),
                decreases 9 - k,
            {
                let col = match exec_facelet_source(f, k) {
                    FaceletSource::Center(col) => col,
                    FaceletSource::CornerAt(slot, twist) => {
                        let b = self.corners.0[slot as usize];
                        exec_corner_color(b & 0x07, (3 - (b >> 5u8) + twist) % 3)
                    },
                    FaceletSource::EdgeAt(slot, flip) => {
                        let b = self.edges.0[slot as usize];
                        exec_edge_color(
                            b & 0x0f,
                            if (b & 0x40 != 0) ^ flip {
                                1u8
                            } else {
                                0u8
                            },
                        )
                    },
                };
                row[k] = col;
                k += 1;
            }
            facelets[f] = row;
            f += 1;
        }
        facelets
    }
}

/// The solved cube shows one color per face, that of its center.
pub proof fn lemma_solved_facelets()
    ensures
        forall|f: int, k: int|
            0 <= f < 6 && 0 <= k < 9 ==> #[trigger] facelet_color(
                solved_edges(),
                solved_corners(),
                f,
                k,
            ) == center_color(f),
{
    assert forall|f: int, k: int| 0 <= f < 6 && 0 <= k < 9 implies #[trigger] facelet_color(
        solved_edges(),
        solved_corners(),
        f,
        k,
    ) == center_color(f) by {
        match facelet_source(f as usize, k as usize) {
            FaceletSource::CornerAt(slot, twist) => {
                lemma_small_corner_byte(slot);
            },
            FaceletSource::EdgeAt(slot, flip) => {
                lemma_small_edge_byte(slot);
            },
            _ => {},
        }
    }
}

} // verus!
