use flipchart::{Deck, DeckSnapshot, Drawn, Zoom};

#[derive(Debug, Default)]
struct Keep {
    natural: Option<(f32, f32)>,
    zoom: Zoom<f32>,
}

fn drawn(number: u64, id: &str) -> Drawn {
    Drawn {
        number,
        id: id.to_string(),
        svg: "<svg/>".to_string(),
    }
}

fn flipchart(sheets: Vec<Drawn>, front: Option<usize>) -> DeckSnapshot {
    DeckSnapshot { sheets, front }
}

fn three_sheets() -> Deck<Keep> {
    let mut deck = Deck::default();
    deck.accept(
        &flipchart(
            vec![
                drawn(1, "current"),
                drawn(2, "variant A"),
                drawn(3, "variant B"),
            ],
            Some(2),
        ),
        Keep::default,
    );
    deck
}

fn looking_at(deck: &Deck<Keep>) -> &str {
    &deck.showing().expect("there is a sheet at the front").id
}

#[test]
fn a_show_leaves_its_sheet_at_the_front() {
    let deck = three_sheets();

    assert_eq!(looking_at(&deck), "variant B");
}

#[test]
fn the_back_arrow_steps_back_one_sheet() {
    let mut deck = three_sheets();

    deck.back();

    assert_eq!(looking_at(&deck), "variant A");
}

#[test]
fn the_forward_arrow_returns_to_the_next_sheet() {
    let mut deck = three_sheets();
    deck.back();

    deck.forward();

    assert_eq!(looking_at(&deck), "variant B");
}

#[test]
fn the_first_sheet_has_no_previous() {
    let mut deck = three_sheets();

    deck.back();
    deck.back();
    deck.back();

    assert_eq!(looking_at(&deck), "current");
}

#[test]
fn the_last_sheet_has_no_next() {
    let mut deck = three_sheets();

    deck.forward();

    assert_eq!(looking_at(&deck), "variant B");
}

#[test]
fn the_next_show_overwrites_the_users_cursor() {
    let mut deck = three_sheets();
    deck.back();
    deck.back();

    deck.accept(
        &flipchart(
            vec![
                drawn(1, "current"),
                drawn(2, "variant A"),
                drawn(3, "variant B"),
                drawn(4, "variant C"),
            ],
            Some(3),
        ),
        Keep::default,
    );

    assert_eq!(looking_at(&deck), "variant C");
}

#[test]
fn removing_a_sheet_that_was_not_being_looked_at_leaves_the_user_where_they_were() {
    let mut deck = three_sheets();
    deck.back();

    deck.accept(
        &flipchart(vec![drawn(2, "variant A"), drawn(3, "variant B")], Some(1)),
        Keep::default,
    );

    assert_eq!(looking_at(&deck), "variant A");
}

#[test]
fn removing_the_sheet_being_looked_at_moves_to_the_one_at_the_front() {
    let mut deck = three_sheets();
    deck.back();

    deck.accept(
        &flipchart(vec![drawn(1, "current"), drawn(3, "variant B")], Some(1)),
        Keep::default,
    );

    assert_eq!(looking_at(&deck), "variant B");
}

#[test]
fn a_live_sheet_keeps_what_it_already_had_drawn() {
    let mut deck = three_sheets();
    deck.sheet_mut(1).expect("sheet 1 is on the deck").keep.natural = Some((300.0, 200.0));

    deck.accept(
        &flipchart(
            vec![
                drawn(1, "current"),
                drawn(2, "variant A"),
                drawn(3, "variant B"),
                drawn(4, "variant C"),
            ],
            Some(3),
        ),
        Keep::default,
    );

    assert_eq!(deck.sheets()[0].keep.natural, Some((300.0, 200.0)));
}

#[test]
fn replacing_a_view_gives_a_new_sheet_that_gets_drawn_again() {
    let mut deck = three_sheets();
    deck.sheet_mut(1).expect("sheet 1 is on the deck").keep.natural = Some((300.0, 200.0));

    deck.accept(
        &flipchart(
            vec![
                drawn(4, "current"),
                drawn(2, "variant A"),
                drawn(3, "variant B"),
            ],
            Some(0),
        ),
        Keep::default,
    );

    assert_eq!(deck.sheets()[0].keep.natural, None);
}

#[test]
fn the_emptied_flipchart_is_left_with_no_sheets_to_show() {
    let mut deck = three_sheets();

    deck.accept(&flipchart(vec![], None), Keep::default);

    assert!(deck.showing().is_none());
}

#[test]
fn a_replaced_view_starts_over_at_the_fit() {
    let mut deck = three_sheets();
    deck.sheet_mut(1).expect("sheet 1 is on the deck").keep.zoom.chose(1.0);

    deck.accept(
        &flipchart(
            vec![
                drawn(4, "current"),
                drawn(2, "variant A"),
                drawn(3, "variant B"),
            ],
            Some(0),
        ),
        Keep::default,
    );

    assert_eq!(deck.sheets()[0].keep.zoom.of(0.5), 0.5);
}

#[test]
fn a_show_over_another_view_leaves_another_sheets_choice_alone() {
    let mut deck = three_sheets();
    deck.back();
    deck.sheet_mut(2).expect("sheet 2 is on the deck").keep.zoom.chose(0.5);

    deck.accept(
        &flipchart(
            vec![
                drawn(1, "current"),
                drawn(2, "variant A"),
                drawn(3, "variant B"),
            ],
            Some(0),
        ),
        Keep::default,
    );

    assert_eq!(deck.sheets()[1].keep.zoom.of(0.25), 0.5);
}

#[test]
fn a_show_that_keeps_the_front_keeps_the_sheets_in_the_snapshots_order() {
    let mut deck = three_sheets();

    deck.accept(
        &flipchart(vec![drawn(3, "variant B"), drawn(1, "current")], Some(0)),
        Keep::default,
    );

    let numbers: Vec<u64> = deck.sheets().iter().map(|sheet| sheet.number).collect();
    assert_eq!(numbers, vec![3, 1]);
    assert_eq!(looking_at(&deck), "variant B");
    assert_eq!(deck.cursor(), 0);
}

#[test]
fn a_front_outside_the_snapshot_shows_nothing() {
    let mut deck = three_sheets();

    deck.accept(&flipchart(vec![drawn(5, "new")], Some(7)), Keep::default);

    assert!(deck.showing().is_none());
}

#[test]
fn the_position_of_a_sheet_is_found_by_its_number() {
    let deck = three_sheets();

    assert_eq!(deck.position(2), Some(1));
    assert_eq!(deck.position(9), None);
}

#[test]
fn an_empty_deck_shows_nothing_and_its_arrows_stay_at_the_start() {
    let mut deck: Deck<Keep> = Deck::default();

    deck.forward();
    deck.back();

    assert!(deck.showing().is_none());
    assert_eq!(deck.cursor(), 0);
}

#[test]
fn a_sheet_looked_at_keeps_its_zoom_across_a_show_that_leaves_it_there() {
    let mut deck = three_sheets();
    deck.back();
    deck.showing_mut().expect("a sheet is looked at").keep.zoom.chose(0.5);

    deck.accept(
        &flipchart(
            vec![
                drawn(1, "current"),
                drawn(2, "variant A"),
                drawn(3, "variant B"),
            ],
            Some(0),
        ),
        Keep::default,
    );

    assert_eq!(looking_at(&deck), "variant A");
    assert_eq!(deck.showing().expect("a sheet is looked at").keep.zoom.of(0.25), 0.5);
}

#[test]
fn the_arrows_are_live_only_where_there_is_a_sheet_to_go_to() {
    let mut deck = three_sheets();
    assert!(deck.has_previous());
    assert!(!deck.has_next());

    deck.back();
    deck.back();

    assert!(!deck.has_previous());
    assert!(deck.has_next());
}

#[test]
fn a_number_drawn_twice_keeps_the_sheet_once_and_draws_the_other_afresh() {
    let mut deck = three_sheets();
    deck.sheet_mut(1).expect("sheet 1 is on the deck").keep.natural = Some((300.0, 200.0));

    deck.accept(
        &flipchart(vec![drawn(1, "current"), drawn(1, "again")], Some(0)),
        Keep::default,
    );

    assert_eq!(deck.sheets()[0].keep.natural, Some((300.0, 200.0)));
    assert_eq!(deck.sheets()[1].keep.natural, None);
    assert_eq!(deck.sheets()[1].id, "again");
}
