use vstd::prelude::*;
use crate::cube::{Face, Transformation333, Turn333};

verus! {

/// The phases of a solve, in the order they are usually chained.
#[derive(Clone, Copy, Debug, PartialEq, Eq, Structural, Hash)]
pub enum StepKind {
    EO,
    DR,
    HTR,
    FR,
    FIN,
}

/// When a search may switch between the cube and its inverse.
#[derive(Clone, Copy, Debug, PartialEq, Eq, Structural, Hash)]
pub enum NissSwitchType {
    Never,
    Before,
    Always,
}

/// A step as a user configures it; absent values take the step's defaults.
#[derive(Clone, Debug)]
pub struct StepConfig {
    pub kind: StepKind,
    pub substeps: Option<Vec<String>>,
    pub min: Option<u8>,
    pub max: Option<u8>,
    pub absolute_min: Option<u8>,
    pub absolute_max: Option<u8>,
    pub step_limit: Option<usize>,
    pub quality: usize,
    pub niss: Option<NissSwitchType>,
}

/// Search bounds of one step.
#[derive(Clone, Copy, Debug, PartialEq, Eq, Structural)]
pub struct DefaultStepOptions {
    pub min_moves: u8,
    pub max_moves: u8,
    pub absolute_min_moves: Option<u8>,
    pub absolute_max_moves: Option<u8>,
    pub niss_type: NissSwitchType,
    pub step_limit: Option<usize>,
}

impl DefaultStepOptions {
    pub fn new(
        min_moves: u8,
        max_moves: u8,
        absolute_min_moves: Option<u8>,
        absolute_max_moves: Option<u8>,
        niss_type: NissSwitchType,
        step_limit: Option<usize>,
    ) -> (r: DefaultStepOptions)
        ensures
            r == (DefaultStepOptions {
                min_moves,
                max_moves,
                absolute_min_moves,
                absolute_max_moves,
                niss_type,
                step_limit,
            }),
    {
        DefaultStepOptions {
            min_moves,
            max_moves,
            absolute_min_moves,
            absolute_max_moves,
            niss_type,
            step_limit,
        }
    }
}

/// Which turns may follow a turn (bit `id` for the turn with that index), and
/// which may end a solution.
#[derive(Clone, Copy, Debug, PartialEq, Eq, Structural)]
pub struct TransitionTable333 {
    pub allowed_moves: u32,
    pub can_end: u32,
}

/// Every one of the eighteen turns.
pub const ANY_TURN: u32 = 0x3ffff;

pub open spec fn bit_set(mask: u32, id: u32) -> bool {
    (mask >> id) & 1u32 == 1u32
}

/// Whether `next` may follow `prev` in a canonical sequence: never the same
/// face twice, and of two opposite faces U before D, F before B, R before L.
pub open spec fn canonical_pair(prev: Face, next: Face) -> bool {
    &&& next != prev
    &&& !(prev == Face::Down && next == Face::Up)
    &&& !(prev == Face::Back && next == Face::Front)
    &&& !(prev == Face::Left && next == Face::Right)
}

/// The face of the turn with index `id`.
pub open spec fn face_of_id(id: int) -> Face {
    if id < 3 {
        Face::Up
    } else if id < 6 {
        Face::Down
    } else if id < 9 {
        Face::Front
    } else if id < 12 {
        Face::Back
    } else if id < 15 {
        Face::Left
    } else {
        Face::Right
    }
}

pub open spec fn allowed_after_spec(f: Face) -> u32 {
    match f {
        Face::Up => 0x3fff8u32,
        Face::Down => 0x3ffc0u32,
        Face::Front => 0x3fe3fu32,
        Face::Back => 0x3f03fu32,
        Face::Left => 0x00fffu32,
        Face::Right => 0x07fffu32,
    }
}

impl TransitionTable333 {
    pub fn new(allowed_moves: u32, can_end: u32) -> (r: TransitionTable333)
        ensures
            r.allowed_moves == allowed_moves,
            r.can_end == can_end,
    {
        TransitionTable333 { allowed_moves, can_end }
    }

    /// The canonical successors of a turn of face `f`.
    pub fn default_allowed_after(f: Face) -> (r: u32)
        ensures
            r == allowed_after_spec(f),
    {
        match f {
            Face::Up => 0x3fff8,
            Face::Down => 0x3ffc0,
            Face::Front => 0x3fe3f,
            Face::Back => 0x3f03f,
            Face::Left => 0x00fff,
            Face::Right => 0x07fff,
        }
    }

    /// Whether the turn with index `id` may follow.
    pub fn allows(&self, id: u32) -> (r: bool)
        requires
            id < 18,
        ensures
            r == bit_set(self.allowed_moves, id),
    {
        (self.allowed_moves >> id) & 1 == 1
    }
}

/// The successor masks hold exactly the canonical pairs.
pub proof fn lemma_allowed_after(f: Face)
    ensures
        forall|id: u32| id < 18 ==> #[trigger] bit_set(allowed_after_spec(f), id) == canonical_pair(
            f,
            face_of_id(id as int),
        ),
{
    assert forall|id: u32| id < 18 implies #[trigger] bit_set(allowed_after_spec(f), id)
        == canonical_pair(f, face_of_id(id as int)) by {
        match f {
            Face::Up => {
                assert(id < 18 ==> (((0x3fff8u32 >> id) & 1u32 == 1u32) == (id >= 3)))
                    by (bit_vector);
            },
            Face::Down => {
                assert(id < 18 ==> (((0x3ffc0u32 >> id) & 1u32 == 1u32) == (id >= 6)))
                    by (bit_vector);
            },
            Face::Front => {
                assert(id < 18 ==> (((0x3fe3fu32 >> id) & 1u32 == 1u32) == (id < 6 || id >= 9)))
                    by (bit_vector);
            },
            Face::Back => {
                assert(id < 18 ==> (((0x3f03fu32 >> id) & 1u32 == 1u32) == (id < 6 || id >= 12)))
                    by (bit_vector);
            },
            Face::Left => {
                assert(id < 18 ==> (((0x00fffu32 >> id) & 1u32 == 1u32) == (id < 12)))
                    by (bit_vector);
            },
            Face::Right => {
                assert(id < 18 ==> (((0x07fffu32 >> id) & 1u32 == 1u32) == (id < 15)))
                    by (bit_vector);
            },
        }
    }
}

/// The turns a step searches with, the turns it may open with, and the
/// transition table that keeps its sequences canonical.
#[derive(Clone, Debug)]
pub struct MoveSet333 {
    pub st_moves: Vec<Turn333>,
    pub aux_moves: Vec<Turn333>,
    pub transitions: [TransitionTable333; 18],
}

/// A table of move-count lower bounds for one coordinate family.
#[derive(Clone, Debug)]
pub struct PruningTable {
    pub family: u32,
    pub depths: Vec<u8>,
}

impl PruningTable {
    pub fn new(family: u32, depths: Vec<u8>) -> (r: PruningTable)
        ensures
            r.family == family,
            r.depths@ == depths@,
    {
        PruningTable { family, depths }
    }
}

/// One orientation under which a step searches: its move set, the rotations
/// applied to the cube first, its table and its name.
#[derive(Clone, Debug)]
pub struct StepVariant<'a> {
    pub moveset: MoveSet333,
    pub pre_trans: Vec<Transformation333>,
    pub table: &'a PruningTable,
    pub name: String,
}

/// A step: the variants it tries, all of one kind.
#[derive(Clone, Debug)]
pub struct Step333<'a> {
    pub variants: Vec<StepVariant<'a>>,
    pub kind: StepKind,
    pub is_half_turn: bool,
}

impl<'a> Step333<'a> {
    pub fn new(variants: Vec<StepVariant<'a>>, kind: StepKind, is_half_turn: bool) -> (r: Step333<
        'a,
    >)
        ensures
            r.variants@ == variants@,
            r.kind == kind,
            r.is_half_turn == is_half_turn,
    {
        Step333 { variants, kind, is_half_turn }
    }
}

} // verus!
