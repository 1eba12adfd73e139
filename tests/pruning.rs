use cubelib::cube::{Direction, Face, Turn333};
use cubelib::cubie::CubieCube;
use cubelib::pruning::{build_eo_fb_table, eo_fb_pattern, EO_FB_PATTERNS, MAX_DEPTH};
use cubelib::search::{solve, Goal};

const FACES: [Face; 6] = [Face::Up, Face::Down, Face::Front, Face::Back, Face::Left, Face::Right];
const DIRS: [Direction; 3] = [Direction::Clockwise, Direction::Half, Direction::CounterClockwise];

fn all_turns() -> Vec<Turn333> {
    let mut v = Vec::new();
    for f in FACES {
        for d in DIRS {
            v.push(Turn333::new(f, d));
        }
    }
    v
}

#[test]
fn eo_table_has_known_depths() {
    let t = build_eo_fb_table(&all_turns());
    assert_eq!(t.len(), EO_FB_PATTERNS as usize);
    assert_eq!(t[0], 0);
    let mut deepest = 0;
    for (c, d) in t.iter().enumerate() {
        if (c as u32).count_ones() % 2 == 0 {
            assert!(*d <= 7);
            deepest = deepest.max(*d);
        } else {
            assert_eq!(*d, MAX_DEPTH);
        }
    }
    assert_eq!(deepest, 7);
}

#[test]
fn eo_step_with_four_bad_edges_matches_table() {
    let t = build_eo_fb_table(&all_turns());
    let mut c = CubieCube::new_solved();
    c.turn(Turn333::new(Face::Front, Direction::Clockwise));
    let d = t[eo_fb_pattern(&c.edges) as usize];
    assert_eq!(d, 1);
    let sol = solve(&c, Goal::EdgesOrientedFB, &all_turns(), 10).unwrap().unwrap();
    assert_eq!(sol.len(), d as usize);
}

#[test]
fn eo_table_bounds_search_length() {
    let t = build_eo_fb_table(&all_turns());
    let mut c = CubieCube::new_solved();
    for m in [
        Turn333::new(Face::Front, Direction::Clockwise),
        Turn333::new(Face::Right, Direction::Clockwise),
        Turn333::new(Face::Back, Direction::CounterClockwise),
        Turn333::new(Face::Left, Direction::Clockwise),
    ] {
        c.turn(m);
    }
    let d = t[eo_fb_pattern(&c.edges) as usize];
    assert!(d > 0);
    let sol = solve(&c, Goal::EdgesOrientedFB, &all_turns(), 10).unwrap().unwrap();
    assert_eq!(sol.len(), d as usize);
}

#[test]
fn half_turns_never_leave_the_oriented_pattern() {
    let halves: Vec<Turn333> = FACES.iter().map(|f| Turn333::new(*f, Direction::Half)).collect();
    let t = build_eo_fb_table(&halves);
    assert_eq!(t[0], 0);
    assert!(t[1..].iter().all(|d| *d == MAX_DEPTH));
}

#[test]
fn eo_table_entries_descend_by_one() {
    let moves = all_turns();
    let t = build_eo_fb_table(&moves);
    for c in 1..EO_FB_PATTERNS as usize {
        if t[c] < MAX_DEPTH {
            assert!(t[c] >= 1);
        }
    }
    let mut c = CubieCube::new_solved();
    c.turn(Turn333::new(Face::Back, Direction::Clockwise));
    c.turn(Turn333::new(Face::Right, Direction::Clockwise));
    c.turn(Turn333::new(Face::Front, Direction::Clockwise));
    let d = t[eo_fb_pattern(&c.edges) as usize];
    let sol = solve(&c, Goal::EdgesOrientedFB, &moves, 10).unwrap().unwrap();
    assert_eq!(sol.len(), d as usize);
}
