use flipchart::Loaded;
use resvg::usvg;

const SQUARE: &str = r#"<svg xmlns="http://www.w3.org/2000/svg" width="100" height="50"><rect width="100" height="50" fill="black"/></svg>"#;

fn parse(svg: &String) -> Option<usvg::Tree> {
    usvg::Tree::from_str(svg, &usvg::Options::default()).ok()
}

#[test]
fn a_sheet_already_read_is_not_read_again() {
    let mut loaded = Loaded::default();
    loaded.read(&[(1, SQUARE.to_string())], parse);

    let measured = loaded.read(&[(1, SQUARE.to_string()), (2, SQUARE.to_string())], parse);

    assert_eq!(measured, vec![2]);
}

#[test]
fn a_drawing_keeps_what_it_read_as() {
    let mut loaded = Loaded::default();

    loaded.read(&[(2, SQUARE.to_string())], parse);

    let tree = loaded.get(2).expect("the square reads");
    assert_eq!((tree.size().width(), tree.size().height()), (100.0, 50.0));
}

#[test]
fn a_number_that_did_not_read_the_first_time_is_read_where_it_comes_again() {
    let mut loaded: Loaded<usize> = Loaded::default();

    let measured = loaded.read(
        &[(1, "".to_string()), (2, "two".to_string()), (1, "one".to_string())],
        |svg: &String| if svg.is_empty() { None } else { Some(svg.len()) },
    );

    assert_eq!(measured, vec![2, 1]);
    assert_eq!(loaded.get(1), Some(&3));
}

#[test]
fn an_svg_that_does_not_read_is_left_out() {
    let mut loaded = Loaded::default();

    let measured = loaded.read(
        &[(1, "this is not an SVG".to_string()), (2, SQUARE.to_string())],
        parse,
    );

    assert_eq!(measured, vec![2]);
    assert!(!loaded.has(1));
    assert!(loaded.has(2));
}

#[test]
fn the_sheets_are_read_in_the_order_they_are_in() {
    let mut loaded: Loaded<usize> = Loaded::default();

    let measured = loaded.read(
        &[(7, "seven".to_string()), (3, "three".to_string()), (5, "five".to_string())],
        |svg: &String| Some(svg.len()),
    );

    assert_eq!(measured, vec![7, 3, 5]);
    assert_eq!(loaded.get(3), Some(&5));
}

#[test]
fn a_number_that_comes_twice_is_read_once() {
    let mut loaded: Loaded<usize> = Loaded::default();

    let measured = loaded.read(
        &[(1, "first".to_string()), (1, "second".to_string())],
        |svg: &String| Some(svg.len()),
    );

    assert_eq!(measured, vec![1]);
    assert_eq!(loaded.get(1), Some(&5));
}

#[test]
fn the_sheets_no_longer_coming_are_dropped_and_the_rest_kept() {
    let mut loaded: Loaded<usize> = Loaded::default();
    loaded.read(
        &[(1, "one".to_string()), (2, "two".to_string()), (3, "three".to_string())],
        |svg: &String| Some(svg.len()),
    );

    loaded.keep_only(&[(3, "three".to_string()), (1, "one".to_string())]);

    assert_eq!(loaded.get(1), Some(&3));
    assert!(!loaded.has(2));
    assert_eq!(loaded.get(3), Some(&5));
}

#[test]
fn a_dropped_sheet_that_comes_back_is_read_again() {
    let mut loaded: Loaded<usize> = Loaded::default();
    loaded.read(&[(1, "one".to_string())], |svg: &String| Some(svg.len()));
    loaded.keep_only(&[]);

    let measured = loaded.read(&[(1, "uno!".to_string())], |svg: &String| Some(svg.len()));

    assert_eq!(measured, vec![1]);
    assert_eq!(loaded.get(1), Some(&4));
}
