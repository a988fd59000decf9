use flipchart::Zoom;

#[test]
fn a_sheet_is_born_at_the_fit() {
    assert_eq!(Zoom::default().of(0.27), 0.27);
}

#[test]
fn a_choice_holds_whatever_the_fit() {
    let mut zoom = Zoom::default();

    zoom.chose(1.0);

    assert_eq!(zoom.of(0.5), 1.0);
    assert_eq!(zoom.of(0.9), 1.0);
}

#[test]
fn a_reset_hands_the_sheet_back_to_the_fit() {
    let mut zoom = Zoom::default();
    zoom.chose(0.75);

    zoom.reset();

    assert_eq!(zoom.of(0.25), 0.25);
}

#[test]
fn the_latest_choice_is_the_one_that_holds() {
    let mut zoom = Zoom::default();
    zoom.chose(0.5);

    zoom.chose(2.0);

    assert_eq!(zoom.of(0.25), 2.0);
}
