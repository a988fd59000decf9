use flipchart::{Glass, Tool};

type Point = (f32, f32);

fn a_stroke(glass: &mut Glass<Point>, points: &[Point]) {
    let mut points = points.iter().copied();
    glass.began(points.next().expect("a stroke has a first point"));
    for point in points {
        glass.continued(point);
    }
}

#[test]
fn a_sheet_is_born_with_clean_glass() {
    assert!(Glass::<Point>::default().is_empty());
}

#[test]
fn a_stroke_keeps_the_diagram_coordinates_it_was_given() {
    let mut glass = Glass::default();

    a_stroke(&mut glass, &[(10.0, 20.0), (30.0, 40.0)]);

    assert_eq!(glass.strokes(), &[vec![(10.0, 20.0), (30.0, 40.0)]]);
}

#[test]
fn a_second_stroke_is_a_second_stroke() {
    let mut glass = Glass::default();

    a_stroke(&mut glass, &[(1.0, 1.0)]);
    a_stroke(&mut glass, &[(2.0, 2.0)]);

    assert_eq!(glass.strokes().len(), 2);
}

#[test]
fn a_hand_that_holds_still_adds_nothing() {
    let mut glass = Glass::default();

    a_stroke(&mut glass, &[(5.0, 5.0), (5.0, 5.0)]);

    assert_eq!(glass.strokes(), &[vec![(5.0, 5.0)]]);
}

#[test]
fn a_point_without_a_pencil_down_before_it_starts_nothing() {
    let mut glass: Glass<Point> = Glass::default();

    glass.continued((1.0, 1.0));

    assert!(glass.is_empty());
}

#[test]
fn undo_takes_back_the_last_stroke() {
    let mut glass = Glass::default();
    a_stroke(&mut glass, &[(1.0, 1.0)]);
    a_stroke(&mut glass, &[(2.0, 2.0)]);

    glass.undo();

    assert_eq!(glass.strokes(), &[vec![(1.0, 1.0)]]);
}

#[test]
fn undo_goes_all_the_way_down_to_none() {
    let mut glass = Glass::default();
    a_stroke(&mut glass, &[(1.0, 1.0)]);

    glass.undo();
    glass.undo();

    assert!(glass.is_empty());
}

#[test]
fn a_stroke_that_returns_to_an_earlier_point_keeps_it() {
    let mut glass = Glass::default();

    a_stroke(&mut glass, &[(1.0, 1.0), (2.0, 2.0), (1.0, 1.0)]);

    assert_eq!(glass.strokes(), &[vec![(1.0, 1.0), (2.0, 2.0), (1.0, 1.0)]]);
}

#[test]
fn the_glass_is_held_in_the_hand_at_birth() {
    assert_eq!(Tool::default(), Tool::Hand);
    assert_ne!(Tool::default(), Tool::Pencil);
}
