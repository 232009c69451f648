use lsystem_fractals::{
    fractal_plant_actions, fractal_plant_rules_object, fractal_tree_actions,
    fractal_tree_rules_object, interpret, koch_curve_actions, sierpinski_triangle_actions,
    sierpinski_triangle_rules_object, DrawPrimitive, LSystemError, PathPoint, TurtleAction,
};

fn chars(s: &str) -> Vec<char> {
    s.chars().collect()
}

fn lines(p: &[DrawPrimitive]) -> usize {
    p.iter().filter(|x| matches!(x, DrawPrimitive::Line { .. })).count()
}

#[test]
fn lone_restore_is_an_unbalanced_branch() {
    let r = interpret(&chars("]"), &fractal_plant_actions());
    assert_eq!(r.unwrap_err(), LSystemError::UnbalancedBranch { position: 0 });
}

#[test]
fn stray_restore_reports_its_position() {
    let r = interpret(&chars("F[F]]F"), &fractal_plant_actions());
    assert_eq!(r.unwrap_err(), LSystemError::UnbalancedBranch { position: 4 });
}

#[test]
fn sierpinski_first_generation_draws_five_lines() {
    let seq = sierpinski_triangle_rules_object().expand(1);
    assert_eq!(seq, chars("F-G+F+G-F"));
    let d = interpret(&seq, &sierpinski_triangle_actions()).unwrap();
    assert_eq!(lines(&d.primitives), 5);
    assert_eq!(d.primitives.len(), 5);
    assert_eq!(d.points.len(), 6);
}

#[test]
fn save_then_restore_changes_nothing() {
    let b = fractal_plant_actions();
    let plain = interpret(&chars("F+F"), &b).unwrap();
    let with_branch = interpret(&chars("F[]+F"), &b).unwrap();
    assert_eq!(plain.points, with_branch.points);
    assert_eq!(plain.primitives, with_branch.primitives);
}

#[test]
fn restore_returns_to_the_saved_point_and_heading() {
    let d = interpret(&chars("F[-F]F"), &fractal_plant_actions()).unwrap();
    assert_eq!(
        d.points,
        vec![
            PathPoint { from: 0, turns: 0 },
            PathPoint { from: 0, turns: 0 },
            PathPoint { from: 1, turns: 1 },
            PathPoint { from: 1, turns: 0 },
        ]
    );
    assert_eq!(
        d.primitives,
        vec![
            DrawPrimitive::Line { start: 0, end: 1 },
            DrawPrimitive::Line { start: 1, end: 2 },
            DrawPrimitive::Line { start: 1, end: 3 },
        ]
    );
}

#[test]
fn plant_generations_walk_without_stray_restore() {
    let g = fractal_plant_rules_object();
    let b = fractal_plant_actions();
    for n in 0..6 {
        let seq = g.expand(n);
        assert!(interpret(&seq, &b).is_ok());
    }
}

#[test]
fn tree_generations_walk_without_stray_restore() {
    let g = fractal_tree_rules_object();
    let b = fractal_tree_actions();
    for n in 0..7 {
        let seq = g.expand(n);
        assert!(interpret(&seq, &b).is_ok());
    }
}

#[test]
fn tree_leaf_draws_a_line_and_a_marker() {
    let d = interpret(&chars("1[0]0"), &fractal_tree_actions()).unwrap();
    assert_eq!(
        d.points,
        vec![
            PathPoint { from: 0, turns: 0 },
            PathPoint { from: 0, turns: 0 },
            PathPoint { from: 1, turns: 1 },
            PathPoint { from: 1, turns: -1 },
        ]
    );
    assert_eq!(
        d.primitives,
        vec![
            DrawPrimitive::Line { start: 0, end: 1 },
            DrawPrimitive::Line { start: 1, end: 2 },
            DrawPrimitive::Point { at: 2 },
            DrawPrimitive::Line { start: 1, end: 3 },
            DrawPrimitive::Point { at: 3 },
        ]
    );
}

#[test]
fn pen_up_move_records_a_point_without_drawing() {
    let d = interpret(&chars("FfF"), &koch_curve_actions()).unwrap();
    assert_eq!(d.points.len(), 4);
    assert_eq!(
        d.primitives,
        vec![DrawPrimitive::Line { start: 0, end: 1 }, DrawPrimitive::Line { start: 2, end: 3 }]
    );
}

#[test]
fn turns_accumulate_left_and_right() {
    let d = interpret(&chars("++F---F"), &koch_curve_actions()).unwrap();
    assert_eq!(d.points[1], PathPoint { from: 0, turns: 2 });
    assert_eq!(d.points[2], PathPoint { from: 1, turns: -1 });
}

#[test]
fn unbound_symbols_are_ignored() {
    let d = interpret(&chars("XYZ"), &koch_curve_actions()).unwrap();
    assert_eq!(d.points, vec![PathPoint { from: 0, turns: 0 }]);
    assert!(d.primitives.is_empty());
}

#[test]
fn empty_sequence_draws_nothing() {
    let d = interpret(&Vec::new(), &fractal_plant_actions()).unwrap();
    assert_eq!(d.points.len(), 1);
    assert!(d.primitives.is_empty());
}

#[test]
fn explicit_ignore_does_nothing() {
    let b = vec![('F', TurtleAction::DrawForward), ('X', TurtleAction::Ignore)];
    let d = interpret(&chars("XFX"), &b).unwrap();
    assert_eq!(d.primitives, vec![DrawPrimitive::Line { start: 0, end: 1 }]);
}

#[test]
fn primitives_follow_symbol_order() {
    let b = vec![('F', TurtleAction::DrawForward), ('M', TurtleAction::DrawForwardWithMarker)];
    let d = interpret(&chars("MF"), &b).unwrap();
    assert_eq!(
        d.primitives,
        vec![
            DrawPrimitive::Line { start: 0, end: 1 },
            DrawPrimitive::Point { at: 1 },
            DrawPrimitive::Line { start: 1, end: 2 },
        ]
    );
}
