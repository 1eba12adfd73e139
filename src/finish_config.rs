use vstd::prelude::*;
use vstd::string::StringExecFns;
use itertools::Itertools;
use crate::cube::{face_index, CubeAxis, Direction, Face, Transformation333, Turn333};
use crate::step::{
    allowed_after_spec, face_of_id, DefaultStepOptions, MoveSet333, NissSwitchType, PruningTable,
    Step333, StepConfig, StepKind, StepVariant, TransitionTable333, ANY_TURN,
};

verus! {

/// The pruning table of the finish after a float restore.
pub type FRFinishPruningTable = PruningTable;

/// The pruning table of the finish straight after a half-turn reduction.
pub type HTRFinishPruningTable = PruningTable;

/// What `str::to_lowercase` makes of a string.
pub uninterp spec fn lower_of(s: Seq<char>) -> Seq<char>;

/// Relies on `str::to_lowercase`: the lowercase form depends on the
/// characters alone.
#[verifier::external_body]
fn lowercase(s: &str) -> (r: String)
    ensures
        r@ == lower_of(s@),
{
    s.to_lowercase()
}

/// The axis that a lowercase finish substep name selects.
pub open spec fn finish_axis_of(l: Seq<char>) -> Option<CubeAxis> {
    if l == "finishud"@ || l == "finud"@ || l == "ud"@ {
        Some(CubeAxis::UD)
    } else if l == "finishfb"@ || l == "finfb"@ || l == "fb"@ {
        Some(CubeAxis::FB)
    } else if l == "finishlr"@ || l == "finlr"@ || l == "lr"@ {
        Some(CubeAxis::LR)
    } else {
        None
    }
}

/// The message for a substep name that selects no axis.
pub open spec fn substep_message(l: Seq<char>) -> Seq<char> {
    "Invalid HTR substep "@ + l
}

/// The axes that a list of substep names selects, in order, or the message
/// for the first name that selects none.
pub open spec fn substeps_result(names: Seq<String>) -> Result<Seq<CubeAxis>, Seq<char>>
    decreases names.len(),
{
    if names.len() == 0 {
        Ok(Seq::empty())
    } else {
        match substeps_result(names.drop_last()) {
            Err(m) => Err(m),
            Ok(axes) => match finish_axis_of(lower_of(names.last()@)) {
                Some(a) => Ok(axes.push(a)),
                None => Err(substep_message(lower_of(names.last()@))),
            },
        }
    }
}

/// Once a prefix of the names holds a bad one, so does the whole list, with
/// the same message.
proof fn lemma_substeps_err_extends(names: Seq<String>, k: int)
    requires
        0 <= k <= names.len(),
        substeps_result(names.take(k)).is_err(),
    ensures
        substeps_result(names) == substeps_result(names.take(k)),
    decreases names.len(),
{
    if names.len() == k {
        assert(names.take(k) =~= names);
    } else {
        assert(names.drop_last().take(k) =~= names.take(k));
        lemma_substeps_err_extends(names.drop_last(), k);
    }
}

/// The axis that a lowercase substep name selects, or the message that
/// names it.
pub fn finish_axis_of_lowercase(l: &String) -> (r: Result<CubeAxis, String>)
    ensures
        match finish_axis_of(l@) {
            Some(a) => r == Ok::<CubeAxis, String>(a),
            None => r.is_err() && r->Err_0@ == substep_message(l@),
        },
{
    if l.eq(&String::from_str("finishud")) || l.eq(&String::from_str("finud")) || l.eq(
        &String::from_str("ud"),
    ) {
        Ok(CubeAxis::UD)
    } else if l.eq(&String::from_str("finishfb")) || l.eq(&String::from_str("finfb")) || l.eq(
        &String::from_str("fb"),
    ) {
        Ok(CubeAxis::FB)
    } else if l.eq(&String::from_str("finishlr")) || l.eq(&String::from_str("finlr")) || l.eq(
        &String::from_str("lr"),
    ) {
        Ok(CubeAxis::LR)
    } else {
        Err(String::from_str("Invalid HTR substep ").concat(l.as_str()))
    }
}

/// The axis that a substep name selects, whatever its case.
pub fn parse_finish_substep(name: &String) -> (r: Result<CubeAxis, String>)
    ensures
        match finish_axis_of(lower_of(name@)) {
            Some(a) => r == Ok::<CubeAxis, String>(a),
            None => r.is_err() && r->Err_0@ == substep_message(lower_of(name@)),
        },
{
    let l = lowercase(name.as_str());
    finish_axis_of_lowercase(&l)
}

/// The axes that the substep names select, or the message for the first name
/// that selects none.
pub fn parse_finish_substeps(names: &Vec<String>) -> (r: Result<Vec<CubeAxis>, String>)
    ensures
        match substeps_result(names@) {
            Ok(axes) => r.is_ok() && r->Ok_0@ == axes,
            Err(m) => r.is_err() && r->Err_0@ == m,
        },
{
    let mut axes: Vec<CubeAxis> = Vec::new();
    let mut i: usize = 0;
    while i < names.len()
        invariant
            0 <= i <= names@.len(),
            substeps_result(names@.take(i as int)) == Ok::<Seq<CubeAxis>, Seq<char>>(axes@),
        decreases names@.len() - i,
    {
        let ghost prefix = names@.take(i + 1);
        assert(prefix.drop_last() =~= names@.take(i as int));
        assert(prefix.last() == names@[i as int]);
        match parse_finish_substep(&names[i]) {
            Ok(a) => {
                axes.push(a);
            },
            Err(m) => {
                proof {
                    lemma_substeps_err_extends(names@, i + 1);
                }
                return Err(m);
            },
        }
        i += 1;
    }
    assert(names@.take(names@.len() as int) =~= names@);
    Ok(axes)
}

/// Default search bounds of a finish step: 0 to 10 moves, no switch to the
/// inverse, and `quality` solutions unless a step limit is given.
pub open spec fn options_spec(config: StepConfig) -> DefaultStepOptions {
    DefaultStepOptions {
        min_moves: match config.min {
            Some(m) => m,
            None => 0,
        },
        max_moves: match config.max {
            Some(m) => m,
            None => 10,
        },
        absolute_min_moves: config.absolute_min,
        absolute_max_moves: config.absolute_max,
        niss_type: NissSwitchType::Never,
        step_limit: if config.quality == 0 {
            None
        } else {
            Some(
                match config.step_limit {
                    Some(l) => l,
                    None => config.quality,
                },
            )
        },
    }
}

fn options_from_config(config: &StepConfig) -> (r: DefaultStepOptions)
    ensures
        r == options_spec(*config),
{
    let min = match config.min {
        Some(m) => m,
        None => 0,
    };
    let max = match config.max {
        Some(m) => m,
        None => 10,
    };
    let step_limit = if config.quality == 0 {
        None
    } else {
        match config.step_limit {
            Some(l) => Some(l),
            None => Some(config.quality),
        }
    };
    DefaultStepOptions::new(
        min,
        max,
        config.absolute_min,
        config.absolute_max,
        NissSwitchType::Never,
        step_limit,
    )
}

/// The transition table of both finish move sets: canonical successors after
/// every turn, and every turn may end a solution.
pub open spec fn finish_transitions_spec() -> Seq<TransitionTable333> {
    Seq::new(
        18,
        |i: int|
            TransitionTable333 {
                allowed_moves: allowed_after_spec(face_of_id(i)),
                can_end: ANY_TURN,
            },
    )
}

pub fn finish_transitions() -> (r: [TransitionTable333; 18])
    ensures
        r@ == finish_transitions_spec(),
{
    let mut transitions = [TransitionTable333::new(0, 0);18];
    let can_end_mask = ANY_TURN;
    let faces = [Face::Up, Face::Down, Face::Front, Face::Back, Face::Left, Face::Right];
    let mut i: usize = 0;
    while i < 6
        invariant
            0 <= i <= 6,
            transitions@.len() == 18,
            can_end_mask == ANY_TURN,
            faces@ == seq![Face::Up, Face::Down, Face::Front, Face::Back, Face::Left, Face::Right],
            forall|j: int| 0 <= j < 3 * i ==> transitions@[j] == finish_transitions_spec()[j],
        decreases 6 - i,
    {
        let face = faces[i];
        let allowed = TransitionTable333::default_allowed_after(face);
        assert(face_index(face) == i as int);
        let cw = Turn333::new(face, Direction::Clockwise).to_id();
        let half = Turn333::new(face, Direction::Half).to_id();
        let ccw = Turn333::new(face, Direction::CounterClockwise).to_id();
        assert(cw == 3 * i && half == 3 * i + 1 && ccw == 3 * i + 2);
        transitions[cw] = TransitionTable333::new(allowed, can_end_mask);
        transitions[half] = TransitionTable333::new(allowed, can_end_mask);
        transitions[ccw] = TransitionTable333::new(allowed, can_end_mask);
        assert forall|j: int| 0 <= j < 3 * (i + 1) implies transitions@[j]
            == finish_transitions_spec()[j] by {
            if j >= 3 * i {
                assert(face_of_id(j) == face) by {
                    if i == 0 {
                    } else if i == 1 {
                    } else if i == 2 {
                    } else if i == 3 {
                    } else if i == 4 {
                    } else {
                    }
                }
            }
        }
        i += 1;
    }
    assert(transitions@ =~= finish_transitions_spec());
    transitions
}

pub open spec fn half(f: Face) -> Turn333 {
    Turn333 { face: f, dir: Direction::Half }
}

/// The turns that keep a float-restored cube float restored.
pub open spec fn frud_finish_moves() -> Seq<Turn333> {
    seq![half(Face::Right), half(Face::Left), half(Face::Front), half(Face::Back)]
}

/// The six half turns.
pub open spec fn htr_finish_moves() -> Seq<Turn333> {
    seq![
        half(Face::Up),
        half(Face::Down),
        half(Face::Right),
        half(Face::Left),
        half(Face::Front),
        half(Face::Back),
    ]
}

pub open spec fn moveset_is(m: MoveSet333, st: Seq<Turn333>) -> bool {
    &&& m.st_moves@ == st
    &&& m.aux_moves@.len() == 0
    &&& m.transitions@ == finish_transitions_spec()
}

/// The move set of the finish after a float restore about U/D.
pub fn frud_finish_moveset() -> (r: MoveSet333)
    ensures
        moveset_is(r, frud_finish_moves()),
{
    let st_moves = vec![
        Turn333::new(Face::Right, Direction::Half),
        Turn333::new(Face::Left, Direction::Half),
        Turn333::new(Face::Front, Direction::Half),
        Turn333::new(Face::Back, Direction::Half),
    ];
    assert(st_moves@ =~= frud_finish_moves());
    MoveSet333 { st_moves, aux_moves: Vec::new(), transitions: finish_transitions() }
}

/// The move set of the finish straight after a half-turn reduction.
pub fn htr_finish_moveset() -> (r: MoveSet333)
    ensures
        moveset_is(r, htr_finish_moves()),
{
    let st_moves = vec![
        Turn333::new(Face::Up, Direction::Half),
        Turn333::new(Face::Down, Direction::Half),
        Turn333::new(Face::Right, Direction::Half),
        Turn333::new(Face::Left, Direction::Half),
        Turn333::new(Face::Front, Direction::Half),
        Turn333::new(Face::Back, Direction::Half),
    ];
    assert(st_moves@ =~= htr_finish_moves());
    MoveSet333 { st_moves, aux_moves: Vec::new(), transitions: finish_transitions() }
}

/// The rotations that bring an axis onto U/D before a finish about it.
pub open spec fn finish_pre_trans(a: CubeAxis) -> Seq<Transformation333> {
    match a {
        CubeAxis::UD => Seq::empty(),
        CubeAxis::FB => seq![Transformation333 { axis: CubeAxis::LR, dir: Direction::Clockwise }],
        CubeAxis::LR => seq![Transformation333 { axis: CubeAxis::FB, dir: Direction::Clockwise }],
    }
}

pub open spec fn axis_name(a: CubeAxis) -> Seq<char> {
    match a {
        CubeAxis::UD => "ud"@,
        CubeAxis::FB => "fb"@,
        CubeAxis::LR => "lr"@,
    }
}

/// A finish variant about axis `a` on `table`, named after its axis or not.
pub open spec fn finish_variant_is(v: StepVariant, table: &PruningTable, a: CubeAxis, named: bool) -> bool {
    &&& moveset_is(v.moveset, frud_finish_moves())
    &&& v.pre_trans@ == finish_pre_trans(a)
    &&& v.table == table
    &&& v.name@ == if named {
        axis_name(a)
    } else {
        ""@
    }
}

/// A finish step whose variants are those about `axes`, in order.
pub open spec fn finish_step_is(s: Step333, table: &PruningTable, axes: Seq<CubeAxis>, named: bool) -> bool {
    &&& s.kind == StepKind::FIN
    &&& s.is_half_turn
    &&& s.variants@.len() == axes.len()
    &&& forall|i: int|
        0 <= i < axes.len() ==> finish_variant_is(#[trigger] s.variants@[i], table, axes[i], named)
}

pub open spec fn all_axes() -> Seq<CubeAxis> {
    seq![CubeAxis::UD, CubeAxis::FB, CubeAxis::LR]
}

fn finish_variant<'a>(table: &'a PruningTable, a: CubeAxis, named: bool) -> (r: StepVariant<'a>)
    ensures
        finish_variant_is(r, table, a, named),
{
    let pre_trans = match a {
        CubeAxis::UD => Vec::new(),
        CubeAxis::FB => vec![Transformation333::new(CubeAxis::X, Direction::Clockwise)],
        CubeAxis::LR => vec![Transformation333::new(CubeAxis::Z, Direction::Clockwise)],
    };
    assert(pre_trans@ =~= finish_pre_trans(a));
    let name = if named {
        match a {
            CubeAxis::UD => String::from_str("ud"),
            CubeAxis::FB => String::from_str("fb"),
            CubeAxis::LR => String::from_str("lr"),
        }
    } else {
        String::from_str("")
    };
    StepVariant { moveset: frud_finish_moveset(), pre_trans, table, name }
}

/// Relies on `itertools::Itertools::collect_vec`, which collects an
/// iterator's items into a `Vec` in the order they come.
#[verifier::external_body]
fn collect_finish_variants<'a>(axes: Vec<CubeAxis>, table: &'a PruningTable, named: bool) -> (r: Vec<
    StepVariant<'a>,
>)
    ensures
        r@.len() == axes@.len(),
        forall|i: int|
            0 <= i < axes@.len() ==> finish_variant_is(#[trigger] r@[i], table, axes@[i], named),
{
    axes.into_iter().map(|a| finish_variant(table, a, named)).collect_vec()
}

fn axes_ud_fb_lr() -> (r: Vec<CubeAxis>)
    ensures
        r@ == all_axes(),
{
    let r = vec![CubeAxis::UD, CubeAxis::FB, CubeAxis::LR];
    assert(r@ =~= all_axes());
    r
}

/// The finish after a float restore, one variant per axis of `fr_axis`.
pub fn fr_finish<'a>(table: &'a FRFinishPruningTable, fr_axis: Vec<CubeAxis>) -> (r: Step333<'a>)
    ensures
        finish_step_is(r, table, fr_axis@, false),
{
    let step_variants = collect_finish_variants(fr_axis, table, false);
    Step333::new(step_variants, StepKind::FIN, true)
}

/// The finish after a float restore about any axis.
pub fn fr_finish_any<'a>(table: &'a FRFinishPruningTable) -> (r: Step333<'a>)
    ensures
        finish_step_is(r, table, all_axes(), false),
{
    fr_finish(table, axes_ud_fb_lr())
}

/// The finish that leaves the slice, one variant per axis, each named after
/// its axis.
pub fn fr_finish_leave_slice<'a>(table: &'a FRFinishPruningTable, fr_axis: Vec<CubeAxis>) -> (r:
    Step333<'a>)
    ensures
        finish_step_is(r, table, fr_axis@, true),
{
    let step_variants = collect_finish_variants(fr_axis, table, true);
    Step333::new(step_variants, StepKind::FIN, true)
}

/// The finish that leaves the slice, about any axis.
pub fn fr_finish_leave_slice_any<'a>(table: &'a FRFinishPruningTable) -> (r: Step333<'a>)
    ensures
        finish_step_is(r, table, all_axes(), true),
{
    fr_finish_leave_slice(table, axes_ud_fb_lr())
}

/// The finish straight after a half-turn reduction: one variant, with all six
/// half turns.
pub fn htr_finish<'a>(table: &'a HTRFinishPruningTable) -> (r: Step333<'a>)
    ensures
        r.kind == StepKind::FIN,
        r.is_half_turn,
        r.variants@.len() == 1,
        moveset_is(r.variants@[0].moveset, htr_finish_moves()),
        r.variants@[0].pre_trans@.len() == 0,
        r.variants@[0].table == table,
        r.variants@[0].name@ == ""@,
{
    let v = StepVariant {
        moveset: htr_finish_moveset(),
        pre_trans: Vec::new(),
        table,
        name: String::from_str(""),
    };
    let variants = vec![v];
    Step333::new(variants, StepKind::FIN, true)
}

/// What a finish step configuration yields: the step over the configured
/// axes (all three when none are given) and its options, or the message for
/// the first substep name that selects no axis.
pub open spec fn fr_config_result_is(
    r: Result<(Step333, DefaultStepOptions), String>,
    table: &PruningTable,
    config: StepConfig,
    named: bool,
) -> bool {
    match config.substeps {
        None => r.is_ok() && finish_step_is(r->Ok_0.0, table, all_axes(), named) && r->Ok_0.1
            == options_spec(config),
        Some(names) => match substeps_result(names@) {
            Ok(axes) => r.is_ok() && finish_step_is(r->Ok_0.0, table, axes, named) && r->Ok_0.1
                == options_spec(config),
            Err(m) => r.is_err() && r->Err_0@ == m,
        },
    }
}

/// The finish after a float restore, as a step configuration asks for it.
pub fn from_step_config_fr<'a>(table: &'a FRFinishPruningTable, config: StepConfig) -> (r: Result<
    (Step333<'a>, DefaultStepOptions),
    String,
>)
    ensures
        fr_config_result_is(r, table, config, false),
{
    let search_opts = options_from_config(&config);
    let step = match config.substeps {
        Some(substeps) => {
            match parse_finish_substeps(&substeps) {
                Ok(axis) => fr_finish(table, axis),
                Err(m) => {
                    return Err(m);
                },
            }
        },
        None => fr_finish_any(table),
    };
    Ok((step, search_opts))
}

/// The finish that leaves the slice, as a step configuration asks for it.
pub fn from_step_config_fr_leave_slice<'a>(
    table: &'a FRFinishPruningTable,
    config: StepConfig,
) -> (r: Result<(Step333<'a>, DefaultStepOptions), String>)
    ensures
        fr_config_result_is(r, table, config, true),
{
    let search_opts = options_from_config(&config);
    let step = match config.substeps {
        Some(substeps) => {
            match parse_finish_substeps(&substeps) {
                Ok(axis) => fr_finish_leave_slice(table, axis),
                Err(m) => {
                    return Err(m);
                },
            }
        },
        None => fr_finish_leave_slice_any(table),
    };
    Ok((step, search_opts))
}

/// The finish straight after a half-turn reduction, as a step configuration
/// asks for it; substeps are not read.
pub fn from_step_config_htr<'a>(table: &'a HTRFinishPruningTable, config: StepConfig) -> (r:
    Result<(Step333<'a>, DefaultStepOptions), String>)
    ensures
        r.is_ok(),
        r->Ok_0.0.kind == StepKind::FIN,
        r->Ok_0.0.is_half_turn,
        r->Ok_0.0.variants@.len() == 1,
        moveset_is(r->Ok_0.0.variants@[0].moveset, htr_finish_moves()),
        r->Ok_0.0.variants@[0].pre_trans@.len() == 0,
        r->Ok_0.0.variants@[0].table == table,
        r->Ok_0.0.variants@[0].name@ == ""@,
        r->Ok_0.1 == options_spec(config),
{
    let search_opts = options_from_config(&config);
    Ok((htr_finish(table), search_opts))
}

} // verus!
