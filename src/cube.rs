use vstd::prelude::*;

verus! {

/// A face of the cube. Its index in `0..6` is the declaration order.
#[derive(Clone, Copy, Debug, PartialEq, Eq, Structural, Hash)]
pub enum Face {
    Up,
    Down,
    Front,
    Back,
    Left,
    Right,
}

/// How far a face or the whole cube is turned.
#[derive(Clone, Copy, Debug, PartialEq, Eq, Structural, Hash)]
pub enum Direction {
    Clockwise,
    Half,
    CounterClockwise,
}

/// An axis through two opposite centers.
#[derive(Clone, Copy, Debug, PartialEq, Eq, Structural, Hash)]
pub enum CubeAxis {
    UD,
    FB,
    LR,
}

impl CubeAxis {
    /// The axis of `x` rotations (the one an R turn rotates about).
    pub const X: CubeAxis = CubeAxis::LR;
    /// The axis of `y` rotations (the one a U turn rotates about).
    pub const Y: CubeAxis = CubeAxis::UD;
    /// The axis of `z` rotations (the one an F turn rotates about).
    pub const Z: CubeAxis = CubeAxis::FB;
}

/// The sticker colors, with the centers fixed as U white, D yellow, F green,
/// B blue, L orange and R red.
#[derive(Clone, Copy, Debug, PartialEq, Eq, Structural, Hash)]
pub enum Color {
    White,
    Yellow,
    Green,
    Blue,
    Orange,
    Red,
    Unset,
}

pub open spec fn face_index(f: Face) -> int {
    match f {
        Face::Up => 0,
        Face::Down => 1,
        Face::Front => 2,
        Face::Back => 3,
        Face::Left => 4,
        Face::Right => 5,
    }
}

/// Number of clockwise quarter turns that a direction stands for.
pub open spec fn quarters(d: Direction) -> nat {
    match d {
        Direction::Clockwise => 1,
        Direction::Half => 2,
        Direction::CounterClockwise => 3,
    }
}

pub open spec fn direction_index(d: Direction) -> int {
    match d {
        Direction::Clockwise => 0,
        Direction::Half => 1,
        Direction::CounterClockwise => 2,
    }
}

/// The direction that undoes `d`.
pub open spec fn inverse_direction(d: Direction) -> Direction {
    match d {
        Direction::Clockwise => Direction::CounterClockwise,
        Direction::Half => Direction::Half,
        Direction::CounterClockwise => Direction::Clockwise,
    }
}

pub open spec fn axis_of_face(f: Face) -> CubeAxis {
    match f {
        Face::Up | Face::Down => CubeAxis::UD,
        Face::Front | Face::Back => CubeAxis::FB,
        Face::Left | Face::Right => CubeAxis::LR,
    }
}

/// A turn of one face.
#[derive(Clone, Copy, Debug, PartialEq, Eq, Structural, Hash)]
pub struct Turn333 {
    pub face: Face,
    pub dir: Direction,
}

impl Turn333 {
    pub fn new(face: Face, dir: Direction) -> (r: Turn333)
        ensures
            r.face == face,
            r.dir == dir,
    {
        Turn333 { face, dir }
    }

    pub open spec fn spec_id(self) -> int {
        face_index(self.face) * 3 + direction_index(self.dir)
    }

    /// The turn's index in `0..18`: three per face, in face order.
    pub fn to_id(&self) -> (r: usize)
        ensures
            r == self.spec_id(),
            r < 18,
    {
        let f: usize = match self.face {
            Face::Up => 0,
            Face::Down => 1,
            Face::Front => 2,
            Face::Back => 3,
            Face::Left => 4,
            Face::Right => 5,
        };
        let d: usize = match self.dir {
            Direction::Clockwise => 0,
            Direction::Half => 1,
            Direction::CounterClockwise => 2,
        };
        f * 3 + d
    }

    pub open spec fn spec_inverse(self) -> Turn333 {
        Turn333 { face: self.face, dir: inverse_direction(self.dir) }
    }

    /// The turn that undoes this one.
    pub fn inverse(&self) -> (r: Turn333)
        ensures
            r == self.spec_inverse(),
    {
        let dir = match self.dir {
            Direction::Clockwise => Direction::CounterClockwise,
            Direction::Half => Direction::Half,
            Direction::CounterClockwise => Direction::Clockwise,
        };
        Turn333 { face: self.face, dir }
    }
}

/// A rotation of the whole cube about an axis.
#[derive(Clone, Copy, Debug, PartialEq, Eq, Structural, Hash)]
pub struct Transformation333 {
    pub axis: CubeAxis,
    pub dir: Direction,
}

impl Transformation333 {
    pub fn new(axis: CubeAxis, dir: Direction) -> (r: Transformation333)
        ensures
            r.axis == axis,
            r.dir == dir,
    {
        Transformation333 { axis, dir }
    }
}

/// One edge as read from the packed state: its identity and whether it is
/// well oriented about each of the three axes.
#[derive(Clone, Copy, Debug, PartialEq, Eq, Structural, Hash)]
pub struct Edge {
    pub id: u8,
    pub oriented_ud: bool,
    pub oriented_fb: bool,
    pub oriented_rl: bool,
}

/// One corner as read from the packed state: its identity and its twist
/// about the U/D axis.
#[derive(Clone, Copy, Debug, PartialEq, Eq, Structural, Hash)]
pub struct Corner {
    pub id: u8,
    pub orientation: u8,
}

} // verus!
