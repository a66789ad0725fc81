use soft_body::soft_body::Constraint;
use soft_body::soft_body::SoftBody;
use soft_body::step::walls;
use soft_body::step::Action;

fn ring(n: usize) -> SoftBody<u32, u8> {
    SoftBody::circle((0..n as u32).collect(), 0, 1, 7)
}

#[test]
fn tick_plan_runs_ring_then_constraints_then_the_rest() {
    let mut body = ring(3);
    body.constraints = vec![Constraint { points: [2, 0], distance: 9 }];
    assert_eq!(
        body.tick_plan(),
        vec![
            Action::Ring { a: 0, b: 1 },
            Action::Ring { a: 1, b: 2 },
            Action::Ring { a: 2, b: 0 },
            Action::Auxiliary { a: 2, b: 0, distance: 9 },
            Action::ShapeMatch,
            Action::Integrate,
            Action::Clamp,
        ]
    );
}

#[test]
fn tick_plan_of_a_circle() {
    let body = SoftBody::circle(vec![(0.0f32, 0.0f32); 16], (0.0, 0.0), 1.0f32, 300.0);
    let plan = body.tick_plan();
    assert_eq!(plan.len(), 16 + 16 + 3);
    for i in 0..16 {
        assert_eq!(plan[i], Action::Ring { a: i, b: (i + 1) % 16 });
        assert_eq!(plan[16 + i], Action::Auxiliary { a: i, b: (i + 8) % 16, distance: 300.0 });
    }
    assert_eq!(plan[32..], [Action::ShapeMatch, Action::Integrate, Action::Clamp]);
}

#[test]
fn tick_plan_of_two_points_ties_them_both_ways() {
    let mut body = ring(2);
    body.constraints.clear();
    assert_eq!(
        body.tick_plan(),
        vec![
            Action::Ring { a: 0, b: 1 },
            Action::Ring { a: 1, b: 0 },
            Action::ShapeMatch,
            Action::Integrate,
            Action::Clamp,
        ]
    );
}

#[test]
fn tick_plan_of_an_empty_body_has_no_springs() {
    let body: SoftBody<u32, u8> = SoftBody { points: vec![], constraints: vec![], border: vec![] };
    assert_eq!(body.tick_plan(), vec![Action::ShapeMatch, Action::Integrate, Action::Clamp]);
}

#[test]
fn tick_plan_keeps_stored_constraints_in_their_order() {
    let mut body = ring(4);
    body.constraints = vec![
        Constraint { points: [3, 1], distance: 5 },
        Constraint { points: [0, 2], distance: 6 },
        Constraint { points: [3, 1], distance: 5 },
    ];
    let plan = body.tick_plan();
    assert_eq!(
        plan[4..7],
        [
            Action::Auxiliary { a: 3, b: 1, distance: 5 },
            Action::Auxiliary { a: 0, b: 2, distance: 6 },
            Action::Auxiliary { a: 3, b: 1, distance: 5 },
        ]
    );
}

#[test]
fn every_planned_spring_ties_two_different_points() {
    for n in 2..12 {
        let body = ring(n);
        for action in body.tick_plan() {
            match action {
                Action::Ring { a, b } | Action::Auxiliary { a, b, .. } => {
                    assert!(a < n && b < n && a != b);
                }
                _ => {}
            }
        }
    }
}

#[test]
fn walls_stand_on_both_sides_of_both_axes() {
    assert_eq!(walls(), vec![(0, -1), (0, 1), (1, -1), (1, 1)]);
}
