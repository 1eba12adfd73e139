use cubelib::cube::{Color, CubeAxis, Direction, Face, Transformation333, Turn333};
use cubelib::cubie::{CornerCubieCube, CubieCube, EdgeCubieCube};
use cubelib::validity::InvalidState;

const FACES: [Face; 6] = [Face::Up, Face::Down, Face::Front, Face::Back, Face::Left, Face::Right];
const DIRS: [Direction; 3] = [Direction::Clockwise, Direction::Half, Direction::CounterClockwise];

fn all_turns() -> Vec<Turn333> {
    let mut v = Vec::new();
    for f in FACES {
        for d in DIRS {
            v.push(Turn333::new(f, d));
        }
    }
    v
}

fn t(f: Face, d: Direction) -> Turn333 {
    Turn333::new(f, d)
}

fn apply(c: &mut CubieCube, ms: &[Turn333]) {
    for m in ms {
        c.turn(*m);
    }
}

fn scrambled() -> CubieCube {
    let mut c = CubieCube::new_solved();
    apply(
        &mut c,
        &[
            t(Face::Front, Direction::Clockwise),
            t(Face::Right, Direction::Clockwise),
            t(Face::Up, Direction::Half),
            t(Face::Down, Direction::CounterClockwise),
            t(Face::Back, Direction::Clockwise),
            t(Face::Left, Direction::Half),
        ],
    );
    c
}

fn centers() -> [Color; 6] {
    [Color::White, Color::Yellow, Color::Green, Color::Blue, Color::Orange, Color::Red]
}

#[test]
fn solved_cube_shows_one_color_per_face() {
    let f = CubieCube::new_solved().get_facelets();
    for (i, face) in f.iter().enumerate() {
        for col in face.iter() {
            assert_eq!(*col, centers()[i]);
        }
    }
}

#[test]
fn u_turn_moves_front_row_to_left() {
    let mut c = CubieCube::new_solved();
    c.turn(t(Face::Up, Direction::Clockwise));
    let f = c.get_facelets();
    // The top row of L now shows the front's colors.
    assert_eq!(f[4][0], Color::Green);
    assert_eq!(f[4][1], Color::Green);
    assert_eq!(f[4][2], Color::Green);
    assert_eq!(f[2][0], Color::Red);
    assert_eq!(f[2][4], Color::Green);
    assert_eq!(f[2][6], Color::Green);
    for k in 0..9 {
        assert_eq!(f[0][k], Color::White);
    }
}

#[test]
fn every_turn_four_times_is_identity() {
    let start = scrambled();
    for m in all_turns() {
        let mut c = start;
        apply(&mut c, &[m, m, m, m]);
        assert!(c == start);
        let mut once = start;
        once.turn(m);
        assert!(!(once == start));
    }
}

#[test]
fn half_turn_twice_is_identity() {
    let start = scrambled();
    for f in FACES {
        let mut c = start;
        apply(&mut c, &[t(f, Direction::Half), t(f, Direction::Half)]);
        assert!(c == start);
    }
}

#[test]
fn invert_twice_is_identity() {
    let start = scrambled();
    let mut c = start;
    c.invert();
    assert!(!(c == start));
    c.invert();
    assert!(c == start);
}

#[test]
fn inverse_composed_with_cube_is_solved() {
    let start = scrambled();
    let mut inv = start;
    inv.invert();
    // Applying the scramble's inverse sequence to solved gives the inverse state.
    let mut c = CubieCube::new_solved();
    apply(
        &mut c,
        &[
            t(Face::Left, Direction::Half),
            t(Face::Back, Direction::CounterClockwise),
            t(Face::Down, Direction::Clockwise),
            t(Face::Up, Direction::Half),
            t(Face::Right, Direction::CounterClockwise),
            t(Face::Front, Direction::CounterClockwise),
        ],
    );
    assert!(c == inv);
}

#[test]
fn sequence_then_reverse_inverse_restores() {
    let start = scrambled();
    let seq = [
        t(Face::Right, Direction::Clockwise),
        t(Face::Up, Direction::Clockwise),
        t(Face::Right, Direction::CounterClockwise),
        t(Face::Up, Direction::CounterClockwise),
    ];
    let mut c = start;
    apply(&mut c, &seq);
    assert!(!(c == start));
    for m in seq.iter().rev() {
        c.turn(m.inverse());
    }
    assert!(c == start);
}

#[test]
fn sexy_move_is_undone_by_its_inverse() {
    let mut c = CubieCube::new_solved();
    apply(
        &mut c,
        &[
            t(Face::Right, Direction::Clockwise),
            t(Face::Up, Direction::Clockwise),
            t(Face::Right, Direction::CounterClockwise),
            t(Face::Up, Direction::CounterClockwise),
        ],
    );
    apply(
        &mut c,
        &[
            t(Face::Up, Direction::Clockwise),
            t(Face::Right, Direction::Clockwise),
            t(Face::Up, Direction::CounterClockwise),
            t(Face::Right, Direction::CounterClockwise),
        ],
    );
    assert!(c == CubieCube::new_solved());
}

#[test]
fn empty_scramble_is_solved() {
    let c = CubieCube::new_solved();
    assert!(c == CubieCube::new_solved());
    assert_eq!(c.check_solvable(), Ok(()));
}

#[test]
fn u_four_times_is_solved() {
    let mut c = CubieCube::new_solved();
    let u = t(Face::Up, Direction::Clockwise);
    apply(&mut c, &[u, u, u, u]);
    assert!(c == CubieCube::new_solved());
}

#[test]
fn rotations_keep_solved_cube_solved() {
    for a in [CubeAxis::UD, CubeAxis::FB, CubeAxis::LR] {
        for d in DIRS {
            let mut c = CubieCube::new_solved();
            c.transform(Transformation333::new(a, d));
            assert!(c == CubieCube::new_solved());
        }
    }
}

fn rotated_then_turned(start: CubieCube, r: Transformation333, m: Turn333) -> CubieCube {
    let mut c = start;
    c.transform(r);
    c.turn(m);
    c
}

fn turned_then_rotated(start: CubieCube, m: Turn333, r: Transformation333) -> CubieCube {
    let mut c = start;
    c.turn(m);
    c.transform(r);
    c
}

#[test]
fn rotation_carries_faces_onto_faces() {
    let start = scrambled();
    let cw = Direction::Clockwise;
    // x brings F onto U, y brings F onto L, z brings U onto R.
    let x = Transformation333::new(CubeAxis::X, cw);
    let y = Transformation333::new(CubeAxis::Y, cw);
    let z = Transformation333::new(CubeAxis::Z, cw);
    assert!(turned_then_rotated(start, t(Face::Front, cw), x) == rotated_then_turned(start, x, t(Face::Up, cw)));
    assert!(turned_then_rotated(start, t(Face::Front, cw), y) == rotated_then_turned(start, y, t(Face::Left, cw)));
    assert!(turned_then_rotated(start, t(Face::Up, cw), z) == rotated_then_turned(start, z, t(Face::Right, cw)));
    assert!(turned_then_rotated(start, t(Face::Right, cw), y) == rotated_then_turned(start, y, t(Face::Front, cw)));
}

#[test]
fn rotation_four_times_is_identity() {
    let start = scrambled();
    for a in [CubeAxis::UD, CubeAxis::FB, CubeAxis::LR] {
        let mut c = start;
        for _ in 0..4 {
            c.transform(Transformation333::new(a, Direction::Clockwise));
        }
        assert!(c == start);
        let mut once = start;
        once.transform(Transformation333::new(a, Direction::Clockwise));
        assert!(!(once == start));
    }
}

#[test]
fn swapped_edges_are_a_parity_error() {
    let mut e = [0u8, 1, 2, 3, 4, 5, 6, 7, 8, 9, 10, 11, 0, 0, 0, 0];
    e.swap(0, 1);
    let c = CubieCube::new(EdgeCubieCube::new(e), CornerCubieCube::new_solved());
    assert_eq!(c.check_solvable(), Err(InvalidState::Parity));
}

#[test]
fn flipped_edge_is_an_orientation_error() {
    let mut e = [0u8, 1, 2, 3, 4, 5, 6, 7, 8, 9, 10, 11, 0, 0, 0, 0];
    e[2] |= 0xe0;
    let c = CubieCube::new(EdgeCubieCube::new(e), CornerCubieCube::new_solved());
    assert_eq!(c.check_solvable(), Err(InvalidState::EdgeOrientation));
}

#[test]
fn twisted_corner_is_an_orientation_error() {
    let mut k = [0u8, 1, 2, 3, 4, 5, 6, 7, 0, 0, 0, 0, 0, 0, 0, 0];
    k[3] |= 1 << 5;
    let c = CubieCube::new(EdgeCubieCube::new_solved(), CornerCubieCube::new(k));
    assert_eq!(c.check_solvable(), Err(InvalidState::CornerOrientation));
}

#[test]
fn repeated_identity_is_malformed() {
    let e = [0u8, 0, 2, 3, 4, 5, 6, 7, 8, 9, 10, 11, 0, 0, 0, 0];
    let c = CubieCube::new(EdgeCubieCube::new(e), CornerCubieCube::new_solved());
    assert_eq!(c.check_solvable(), Err(InvalidState::Malformed));
}

#[test]
fn scrambled_cube_is_solvable() {
    assert_eq!(scrambled().check_solvable(), Ok(()));
}

#[test]
fn raw_words_of_solved_cube() {
    let c = CubieCube::new_solved();
    assert_eq!(c.edges.get_edges_raw(), [0x0706050403020100, 0x0b0a0908]);
    assert_eq!(c.corners.get_corners_raw(), 0x0706050403020100);
}

#[test]
fn quarter_turns_flip_edges_about_their_axis() {
    let mut c = CubieCube::new_solved();
    c.turn(t(Face::Front, Direction::Clockwise));
    assert_eq!(c.count_bad_edges(), (0, 4, 0));
    let mut c = CubieCube::new_solved();
    c.turn(t(Face::Up, Direction::CounterClockwise));
    assert_eq!(c.count_bad_edges(), (4, 0, 0));
    let mut c = CubieCube::new_solved();
    c.turn(t(Face::Right, Direction::Clockwise));
    assert_eq!(c.count_bad_edges(), (0, 0, 4));
    let mut c = CubieCube::new_solved();
    c.turn(t(Face::Right, Direction::Half));
    assert_eq!(c.count_bad_edges(), (0, 0, 0));
}

#[test]
fn f_turn_moves_and_twists() {
    let mut c = CubieCube::new_solved();
    c.turn(t(Face::Front, Direction::Clockwise));
    let edges = c.edges.get_edges();
    // UF (2) now holds FL (5), flipped about F/B.
    assert_eq!(edges[2].id, 5);
    assert!(!edges[2].oriented_fb);
    assert!(edges[2].oriented_ud);
    assert_eq!(edges[0].id, 0);
    assert!(edges[0].oriented_fb);
    let corners = c.corners.get_corners();
    // UFR (2) now holds UFL (3) with a twist of 1.
    assert_eq!(corners[2].id, 3);
    assert_eq!(corners[2].orientation, 1);
    assert_eq!(corners[0].id, 0);
    assert_eq!(corners[0].orientation, 0);
}

#[test]
fn bytes_round_trip() {
    let c = scrambled();
    let e = EdgeCubieCube::from_bytes(&c.edges.to_bytes()).unwrap();
    let k = CornerCubieCube::from_bytes(&c.corners.to_bytes()).unwrap();
    assert!(e == c.edges);
    assert!(k == c.corners);
    assert!(EdgeCubieCube::from_bytes(&[0u8; 15]).is_none());
    assert!(CornerCubieCube::from_bytes(&[0u8; 17]).is_none());
}

#[test]
fn turn_index_and_inverse() {
    assert_eq!(t(Face::Up, Direction::Clockwise).to_id(), 0);
    assert_eq!(t(Face::Back, Direction::Half).to_id(), 10);
    assert_eq!(t(Face::Right, Direction::CounterClockwise).to_id(), 17);
    assert_eq!(t(Face::Left, Direction::Clockwise).inverse(), t(Face::Left, Direction::CounterClockwise));
    assert_eq!(t(Face::Left, Direction::Half).inverse(), t(Face::Left, Direction::Half));
}
