use typist::line::Line;

#[test]
fn new() {
    let line = Line::new(1, "    {");
    assert_eq!(line.head_space_text().unwrap(), "    ");
}

#[test]
fn has_next() {
    let input = Line::new(1, "      input test");
    assert_eq!(
        input
            .clone()
            .current_text()
            .map(String::from)
            .unwrap_or("".to_owned()),
        "i"
    );

    let next_input = input.next();

    assert_eq!(
        &next_input.head_space_text().unwrap(),
        &"      ".to_string()
    );
    assert_eq!(
        &next_input
            .current_text()
            .map(String::from)
            .unwrap_or("".to_owned()),
        &"n"
    );
    assert_eq!(&next_input.entered_text().unwrap(), &"      i".to_string());
    assert_eq!(&next_input.rest_text().unwrap(), &"put test".to_string());
}

#[test]
fn no_next() {
    let input = Line::new(0, "i");
    assert_eq!(
        input
            .clone()
            .current_text()
            .map(String::from)
            .unwrap_or("".to_owned()),
        "i"
    );
    let next_input = input.next();
    assert!(next_input.is_entered());
}

#[test]
fn new_line_only() {
    let input = Line::new(0, "\n");
    assert_eq!(
        input
            .clone()
            .current_text()
            .map(String::from)
            .unwrap_or("".to_owned()),
        ""
    );
    let next_input = input.next();
    assert!(next_input.is_entered());
}

#[test]
fn leading_space_line_fields() {
    let line = Line::new(1, "    {");
    assert_eq!(line.head_space_text().unwrap(), "    ");
    assert_eq!(line.current_text(), Some('{'));
    assert!(line.rest_text().is_none());
    assert_eq!(line.line_no(), 1);
}

#[test]
fn input_matches_current() {
    let line = Line::new(1, "ab");
    assert!(line.input('a'));
    assert!(!line.input('b'));
    let done = line.next().next();
    assert!(done.input('x'));
}

#[test]
fn empty_line_is_entered() {
    let line = Line::new(3, "");
    assert!(line.is_entered());
    assert!(line.current_text().is_none());
    assert!(line.entered_text().is_none());
}

#[test]
fn all_space_line_drops_head_space() {
    let line = Line::new(1, "   ");
    assert!(line.is_entered());
    assert!(line.head_space_text().is_none());
    assert!(line.current_text().is_none());
}

#[test]
fn next_at_end_is_idempotent() {
    // A one-character line has no queued rest: advancing returns an
    // unchanged copy, the current character staying in place.
    let line = Line::new(1, "x");
    let once = line.next();
    let twice = once.next();
    assert!(once.is_entered());
    assert!(twice.is_entered());
    assert_eq!(twice.current_text(), Some('x'));
    assert!(twice.entered_text().is_none());
}
