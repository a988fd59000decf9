use flipchart::Window;

fn born() -> Window {
    let mut window = Window::default();
    window.a_show_arrived();
    window.a_frame_was_painted();
    window.born();
    window
}

#[test]
fn the_window_is_born_with_the_first_show() {
    let mut window = Window::default();

    window.a_show_arrived();
    window.a_frame_was_painted();

    assert!(window.born());
}

#[test]
fn the_first_show_does_not_front_a_window_that_has_not_painted_yet() {
    let mut window = Window::default();

    window.a_show_arrived();

    assert!(!window.born());
}

#[test]
fn a_show_that_arrived_before_the_first_frame_stays_pending() {
    let mut window = Window::default();

    window.a_show_arrived();
    window.born();

    assert!(window.waiting_to_be_born());
}

#[test]
fn a_window_already_at_the_front_leaves_nothing_pending() {
    let window = born();

    assert!(!window.waiting_to_be_born());
}

#[test]
fn a_show_on_a_standing_window_does_not_front_it_again() {
    let mut window = born();

    window.a_show_arrived();

    assert!(!window.born());
}

#[test]
fn after_a_cmd_w_the_next_show_reborns_the_window_and_there_it_does_go_to_the_front() {
    let mut window = born();

    window.hidden();
    window.a_show_arrived();

    assert!(window.born());
}

#[test]
fn a_hidden_window_is_not_reborn_without_a_show() {
    let mut window = born();

    window.hidden();

    assert!(!window.born());
}

#[test]
fn a_window_born_once_is_fronted_once_however_many_shows_follow() {
    let mut window = born();

    for _ in 0..5 {
        window.a_show_arrived();
        window.a_frame_was_painted();
        assert!(!window.born());
    }
    assert!(!window.waiting_to_be_born());
}

#[test]
fn the_pending_show_is_fronted_by_the_first_frame() {
    let mut window = Window::default();
    window.a_show_arrived();
    assert!(!window.born());

    window.a_frame_was_painted();

    assert!(window.born());
    assert!(!window.waiting_to_be_born());
}

#[test]
fn a_window_nobody_asked_for_is_not_waiting_and_not_born() {
    let mut window = Window::default();

    window.a_frame_was_painted();

    assert!(!window.waiting_to_be_born());
    assert!(!window.born());
}
