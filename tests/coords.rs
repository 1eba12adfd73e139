use cubelib::coords::{eo_fb_coord, eo_fb_decode, EO_FB_SIZE};
use cubelib::cube::{Direction, Face, Turn333};
use cubelib::cubie::{CornerCubieCube, CubieCube, EdgeCubieCube};

#[test]
fn solved_edges_have_coordinate_zero() {
    assert_eq!(eo_fb_coord(&EdgeCubieCube::new_solved()), 0);
    assert!(eo_fb_decode(0) == EdgeCubieCube::new_solved());
}

#[test]
fn front_turn_coordinate() {
    let mut c = CubieCube::new_solved();
    c.turn(Turn333::new(Face::Front, Direction::Clockwise));
    // UF, FR, FL and DF are flipped: bits 2, 4, 5 and 8.
    assert_eq!(eo_fb_coord(&c.edges), 4 + 16 + 32 + 256);
}

#[test]
fn every_coordinate_round_trips() {
    for v in 0..EO_FB_SIZE {
        let e = eo_fb_decode(v);
        assert_eq!(eo_fb_coord(&e), v);
        let c = CubieCube::new(e, CornerCubieCube::new_solved());
        assert_eq!(c.count_bad_edges().1 % 2, 0);
    }
}

#[test]
fn largest_coordinate() {
    let e = eo_fb_decode(EO_FB_SIZE - 1);
    let b = e.to_bytes();
    for (i, byte) in b.iter().enumerate().take(12) {
        assert_eq!(*byte, (i as u8) | 0xe0);
    }
}
