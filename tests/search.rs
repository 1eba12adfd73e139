use cubelib::cube::{Direction, Face, Turn333};
use cubelib::cubie::{CornerCubieCube, CubieCube, EdgeCubieCube};
use cubelib::search::{solve, Goal};
use cubelib::validity::InvalidState;

const FACES: [Face; 6] = [Face::Up, Face::Down, Face::Front, Face::Back, Face::Left, Face::Right];
const DIRS: [Direction; 3] = [Direction::Clockwise, Direction::Half, Direction::CounterClockwise];

fn all_turns() -> Vec<Turn333> {
    let mut v = Vec::new();
    for f in FACES {
        for d in DIRS {
            v.push(Turn333::new(f, d));
        }
    }
    v
}

fn t(f: Face, d: Direction) -> Turn333 {
    Turn333::new(f, d)
}

fn scrambled(ms: &[Turn333]) -> CubieCube {
    let mut c = CubieCube::new_solved();
    for m in ms {
        c.turn(*m);
    }
    c
}

fn assert_canonical(sol: &[Turn333]) {
    for w in sol.windows(2) {
        assert_ne!(w[0].face, w[1].face);
        let bad = matches!(
            (w[0].face, w[1].face),
            (Face::Down, Face::Up) | (Face::Back, Face::Front) | (Face::Left, Face::Right)
        );
        assert!(!bad);
    }
}

#[test]
fn solves_sexy_move_in_four() {
    let c = scrambled(&[
        t(Face::Right, Direction::Clockwise),
        t(Face::Up, Direction::Clockwise),
        t(Face::Right, Direction::CounterClockwise),
        t(Face::Up, Direction::CounterClockwise),
    ]);
    let sol = solve(&c, Goal::Solved, &all_turns(), 4).unwrap().unwrap();
    assert!(sol.len() <= 4);
    assert_canonical(&sol);
    let mut d = c;
    for m in &sol {
        d.turn(*m);
    }
    assert!(d == CubieCube::new_solved());
}

#[test]
fn empty_scramble_gives_empty_solution() {
    let c = CubieCube::new_solved();
    assert_eq!(solve(&c, Goal::Solved, &all_turns(), 5), Ok(Some(vec![])));
}

#[test]
fn four_u_turns_give_empty_solution() {
    let u = t(Face::Up, Direction::Clockwise);
    let c = scrambled(&[u, u, u, u]);
    assert_eq!(solve(&c, Goal::Solved, &all_turns(), 5), Ok(Some(vec![])));
}

#[test]
fn swapped_edges_are_refused() {
    let c = CubieCube::new(
        EdgeCubieCube::new([1u8, 0, 2, 3, 4, 5, 6, 7, 8, 9, 10, 11, 0, 0, 0, 0]),
        CornerCubieCube::new_solved(),
    );
    assert_eq!(solve(&c, Goal::Solved, &all_turns(), 3), Err(InvalidState::Parity));
}

#[test]
fn edge_orientation_with_four_bad_edges_takes_one_turn() {
    let c = scrambled(&[t(Face::Front, Direction::Clockwise)]);
    assert_eq!(c.count_bad_edges().1, 4);
    let sol = solve(&c, Goal::EdgesOrientedFB, &all_turns(), 3).unwrap().unwrap();
    assert_eq!(sol.len(), 1);
    assert!(sol[0].face == Face::Front || sol[0].face == Face::Back);
    let mut d = c;
    d.turn(sol[0]);
    assert_eq!(d.count_bad_edges().1, 0);
}

#[test]
fn no_solution_within_bound() {
    let c = scrambled(&[t(Face::Right, Direction::Clockwise), t(Face::Up, Direction::Clockwise)]);
    assert_eq!(solve(&c, Goal::Solved, &all_turns(), 1), Ok(None));
}

#[test]
fn only_given_turns_are_used() {
    let c = scrambled(&[t(Face::Right, Direction::Half), t(Face::Up, Direction::Half)]);
    let halves: Vec<Turn333> = FACES.iter().map(|f| t(*f, Direction::Half)).collect();
    let sol = solve(&c, Goal::Solved, &halves, 3).unwrap().unwrap();
    assert_eq!(sol, vec![t(Face::Up, Direction::Half), t(Face::Right, Direction::Half)]);
}
