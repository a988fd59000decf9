use flipchart::{
    bring_the_window_forward, keep_awake_while_the_session_lasts, stay_out_of_the_dock,
    the_first_show, title, Awaiting, ClearParams, Command, DeckSnapshot, Drawn, FrontRequest, Ink,
    ShowParams,
};

fn drawn(number: u64, id: &str) -> Drawn {
    Drawn {
        number,
        id: id.to_string(),
        svg: "<svg/>".to_string(),
    }
}

#[test]
fn a_show_with_sheets_opens_the_window() {
    let next = the_first_show(Some(Command::Show(DeckSnapshot {
        sheets: vec![drawn(1, "current")],
        front: Some(0),
    })));

    match next {
        Awaiting::Open(first) => assert_eq!(first.sheets.len(), 1),
        other => panic!("expected the window to open, got {other:?}"),
    }
}

#[test]
fn a_clear_alone_does_not_open_the_window() {
    let next = the_first_show(Some(Command::Show(DeckSnapshot {
        sheets: vec![],
        front: None,
    })));

    assert!(matches!(next, Awaiting::KeepWaiting));
}

#[test]
fn a_session_over_before_the_first_show_opens_no_window() {
    assert!(matches!(the_first_show(Some(Command::SessionOver)), Awaiting::NoWindow));
}

#[test]
fn a_closed_wire_opens_no_window() {
    assert!(matches!(the_first_show(None), Awaiting::NoWindow));
}

#[test]
fn the_title_carries_the_directory() {
    assert_eq!(title(Some("flipchart".to_string())), "Flipchart \u{2014} flipchart");
}

#[test]
fn without_a_directory_name_the_title_is_the_product() {
    assert_eq!(title(None), "Flipchart");
}

#[test]
fn the_machine_phrases_answer_without_failing() {
    let _activity = keep_awake_while_the_session_lasts();
    stay_out_of_the_dock();
}

#[test]
fn on_this_machine_the_window_is_asked_to_the_front() {
    assert_eq!(bring_the_window_forward(), FrontRequest::UserAttention);
}

#[test]
fn the_wire_carries_plain_values() {
    let ink = Ink {
        view_id: "current".to_string(),
        png: vec![1, 2, 3],
    };
    let show = ShowParams {
        view_id: "current".to_string(),
        diagram: "flowchart LR\n  A[One] --> B[Two]\n".to_string(),
    };
    let clear = ClearParams { view_id: None };

    assert_eq!(ink.png.len(), 3);
    assert_eq!(show.view_id, ink.view_id);
    assert!(clear.view_id.is_none());
}
