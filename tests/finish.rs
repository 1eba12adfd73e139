use cubelib::cube::{CubeAxis, Direction, Face, Transformation333, Turn333};
use cubelib::finish_config::{
    finish_axis_of_lowercase, finish_transitions, fr_finish, fr_finish_any, fr_finish_leave_slice,
    fr_finish_leave_slice_any, from_step_config_fr, from_step_config_fr_leave_slice,
    from_step_config_htr, htr_finish, parse_finish_substep,
};
use cubelib::step::{NissSwitchType, PruningTable, StepConfig, StepKind, TransitionTable333, ANY_TURN};

fn table() -> PruningTable {
    PruningTable::new(7, vec![0, 1, 2])
}

fn config(substeps: Option<Vec<&str>>, quality: usize, step_limit: Option<usize>) -> StepConfig {
    StepConfig {
        kind: StepKind::FIN,
        substeps: substeps.map(|v| v.into_iter().map(|s| s.to_string()).collect()),
        min: None,
        max: None,
        absolute_min: Some(2),
        absolute_max: None,
        step_limit,
        quality,
        niss: None,
    }
}

#[test]
fn transitions_forbid_same_face_and_reversed_opposites() {
    let tr = finish_transitions();
    for id in 0..18usize {
        assert_eq!(tr[id].can_end, ANY_TURN);
    }
    assert_eq!(tr[0].allowed_moves, 0x3fff8);
    let after_d = tr[Turn333::new(Face::Down, Direction::Half).to_id()];
    for id in 0..18u32 {
        assert_eq!(after_d.allows(id), id >= 6);
    }
    let after_l = tr[Turn333::new(Face::Left, Direction::Clockwise).to_id()];
    assert!(!after_l.allows(Turn333::new(Face::Right, Direction::Half).to_id() as u32));
    let after_r = tr[Turn333::new(Face::Right, Direction::Clockwise).to_id()];
    assert!(after_r.allows(Turn333::new(Face::Left, Direction::Half).to_id() as u32));
    assert!(!after_r.allows(Turn333::new(Face::Right, Direction::Half).to_id() as u32));
    assert_eq!(TransitionTable333::default_allowed_after(Face::Back), 0x3f03f);
}

#[test]
fn finish_any_has_three_rotated_variants() {
    let t = table();
    let s = fr_finish_any(&t);
    assert_eq!(s.kind, StepKind::FIN);
    assert!(s.is_half_turn);
    assert_eq!(s.variants.len(), 3);
    assert!(s.variants[0].pre_trans.is_empty());
    assert_eq!(s.variants[1].pre_trans, vec![Transformation333::new(CubeAxis::X, Direction::Clockwise)]);
    assert_eq!(s.variants[2].pre_trans, vec![Transformation333::new(CubeAxis::Z, Direction::Clockwise)]);
    for v in &s.variants {
        assert_eq!(v.name, "");
        assert_eq!(v.moveset.st_moves.len(), 4);
        assert!(v.moveset.aux_moves.is_empty());
        assert_eq!(v.table.family, 7);
    }
}

#[test]
fn leave_slice_variants_are_named_after_axes() {
    let t = table();
    let s = fr_finish_leave_slice_any(&t);
    let names: Vec<&str> = s.variants.iter().map(|v| v.name.as_str()).collect();
    assert_eq!(names, vec!["ud", "fb", "lr"]);
    let s = fr_finish_leave_slice(&t, vec![CubeAxis::LR]);
    assert_eq!(s.variants.len(), 1);
    assert_eq!(s.variants[0].name, "lr");
}

#[test]
fn finish_keeps_the_given_axes_in_order() {
    let t = table();
    let s = fr_finish(&t, vec![CubeAxis::LR, CubeAxis::UD]);
    assert_eq!(s.variants.len(), 2);
    assert_eq!(s.variants[0].pre_trans, vec![Transformation333::new(CubeAxis::Z, Direction::Clockwise)]);
    assert!(s.variants[1].pre_trans.is_empty());
    assert!(fr_finish(&t, vec![]).variants.is_empty());
}

#[test]
fn htr_finish_uses_all_half_turns() {
    let t = table();
    let s = htr_finish(&t);
    assert_eq!(s.variants.len(), 1);
    let st = &s.variants[0].moveset.st_moves;
    assert_eq!(st.len(), 6);
    assert!(st.iter().all(|m| m.dir == Direction::Half));
}

#[test]
fn substep_names_ignore_case() {
    assert_eq!(parse_finish_substep(&"FinUD".to_string()), Ok(CubeAxis::UD));
    assert_eq!(parse_finish_substep(&"FINISHFB".to_string()), Ok(CubeAxis::FB));
    assert_eq!(parse_finish_substep(&"lr".to_string()), Ok(CubeAxis::LR));
    assert_eq!(
        parse_finish_substep(&"XyZ".to_string()),
        Err("Invalid HTR substep xyz".to_string())
    );
    assert_eq!(finish_axis_of_lowercase(&"finlr".to_string()), Ok(CubeAxis::LR));
    assert_eq!(
        finish_axis_of_lowercase(&"UD".to_string()),
        Err("Invalid HTR substep UD".to_string())
    );
}

#[test]
fn config_defaults() {
    let t = table();
    let (step, opts) = from_step_config_fr(&t, config(None, 0, None)).unwrap();
    assert_eq!(step.variants.len(), 3);
    assert_eq!(opts.min_moves, 0);
    assert_eq!(opts.max_moves, 10);
    assert_eq!(opts.absolute_min_moves, Some(2));
    assert_eq!(opts.absolute_max_moves, None);
    assert_eq!(opts.niss_type, NissSwitchType::Never);
    assert_eq!(opts.step_limit, None);
}

#[test]
fn config_quality_sets_step_limit() {
    let t = table();
    let (_, opts) = from_step_config_fr(&t, config(None, 5, None)).unwrap();
    assert_eq!(opts.step_limit, Some(5));
    let (_, opts) = from_step_config_fr(&t, config(None, 5, Some(3))).unwrap();
    assert_eq!(opts.step_limit, Some(3));
    let (_, opts) = from_step_config_fr(&t, config(None, 0, Some(3))).unwrap();
    assert_eq!(opts.step_limit, None);
}

#[test]
fn config_substeps_select_variants() {
    let t = table();
    let (step, _) = from_step_config_fr(&t, config(Some(vec!["FinFB", "ud"]), 1, None)).unwrap();
    assert_eq!(step.variants.len(), 2);
    assert_eq!(step.variants[0].pre_trans, vec![Transformation333::new(CubeAxis::X, Direction::Clockwise)]);
    assert!(step.variants[1].pre_trans.is_empty());
    let (step, _) =
        from_step_config_fr_leave_slice(&t, config(Some(vec!["finishlr"]), 1, None)).unwrap();
    assert_eq!(step.variants.len(), 1);
    assert_eq!(step.variants[0].name, "lr");
}

#[test]
fn config_reports_first_bad_substep() {
    let t = table();
    let r = from_step_config_fr(&t, config(Some(vec!["ud", "Eo", "bad"]), 1, None));
    assert_eq!(r.err(), Some("Invalid HTR substep eo".to_string()));
    let r = from_step_config_fr_leave_slice(&t, config(Some(vec!["DR"]), 1, None));
    assert_eq!(r.err(), Some("Invalid HTR substep dr".to_string()));
}

#[test]
fn htr_config_ignores_substeps() {
    let t = table();
    let (step, opts) = from_step_config_htr(&t, config(Some(vec!["bad"]), 2, None)).unwrap();
    assert_eq!(step.variants.len(), 1);
    assert_eq!(step.kind, StepKind::FIN);
    assert!(step.is_half_turn);
    assert!(step.variants[0].pre_trans.is_empty());
    assert_eq!(step.variants[0].name, "");
    assert_eq!(opts.step_limit, Some(2));
}
