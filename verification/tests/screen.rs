use flipchart::{Command, DeckSnapshot, Drawn, Face, Front, Screen};

#[derive(Debug, Default)]
struct Nothing;

fn drawn(number: u64, id: &str) -> Drawn {
    Drawn {
        number,
        id: id.to_string(),
        svg: "<svg/>".to_string(),
    }
}

fn show(sheets: Vec<Drawn>, front: Option<usize>) -> Command {
    Command::Show(DeckSnapshot { sheets, front })
}

#[test]
fn the_first_show_goes_to_the_front_once_a_frame_is_painted() {
    let mut screen: Screen<Nothing> = Screen::new();
    let taken = screen.took(show(vec![drawn(1, "current")], Some(0)), Nothing::default);
    assert!(taken.is_some());

    assert_eq!(screen.to_the_front(), Front::Repaint);
    screen.window.a_frame_was_painted();
    assert_eq!(screen.to_the_front(), Front::BringForward);
    assert_eq!(screen.to_the_front(), Front::Nothing);
}

#[test]
fn an_update_does_not_bring_the_window_forward() {
    let mut screen: Screen<Nothing> = Screen::new();
    screen.took(show(vec![drawn(1, "current")], Some(0)), Nothing::default);
    screen.window.a_frame_was_painted();
    screen.to_the_front();

    screen.took(
        show(vec![drawn(1, "current"), drawn(2, "proposed")], Some(1)),
        Nothing::default,
    );

    assert_eq!(screen.to_the_front(), Front::Nothing);
    assert_eq!(screen.deck.showing().map(|sheet| sheet.id.as_str()), Some("proposed"));
}

#[test]
fn an_empty_snapshot_does_not_ask_for_the_window() {
    let mut screen: Screen<Nothing> = Screen::new();
    screen.window.a_frame_was_painted();

    screen.took(show(vec![], None), Nothing::default);

    assert_eq!(screen.to_the_front(), Front::Nothing);
}

#[test]
fn the_goodbye_ends_the_session_and_leaves_the_sheets() {
    let mut screen: Screen<Nothing> = Screen::new();
    screen.took(show(vec![drawn(1, "current")], Some(0)), Nothing::default);

    let taken = screen.took(Command::SessionOver, Nothing::default);

    assert!(taken.is_none());
    assert!(screen.session_over);
    assert_eq!(screen.deck.sheets().len(), 1);
}

#[test]
fn after_hiding_the_next_show_brings_the_window_back() {
    let mut screen: Screen<Nothing> = Screen::new();
    screen.took(show(vec![drawn(1, "current")], Some(0)), Nothing::default);
    screen.window.a_frame_was_painted();
    screen.to_the_front();

    screen.window.hidden();
    screen.took(show(vec![drawn(2, "current")], Some(0)), Nothing::default);

    assert_eq!(screen.to_the_front(), Front::BringForward);
}

#[test]
fn a_clear_after_hiding_does_not_bring_the_window_back() {
    let mut screen: Screen<Nothing> = Screen::new();
    screen.took(
        show(vec![drawn(1, "current"), drawn(2, "proposed")], Some(1)),
        Nothing::default,
    );
    screen.window.a_frame_was_painted();
    assert_eq!(screen.to_the_front(), Front::BringForward);

    screen.window.hidden();
    screen.took(show(vec![drawn(1, "current")], Some(0)), Nothing::default);

    assert_eq!(screen.to_the_front(), Front::Nothing);
}

#[test]
fn the_viewer_paints_the_empty_flipchart_the_sheets_or_the_goodbye() {
    let mut screen: Screen<Nothing> = Screen::new();
    assert_eq!(screen.face(), Face::Empty);

    screen.took(show(vec![drawn(1, "current")], Some(0)), Nothing::default);
    assert_eq!(screen.face(), Face::Sheets);

    screen.took(Command::SessionOver, Nothing::default);
    assert_eq!(screen.face(), Face::SessionOver);
}
