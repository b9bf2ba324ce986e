use typist::typing::Typing;

#[test]
fn multi_lines() {
    let typing = Typing::new("    line1\n  line2", 10, 10);
    let typing = typing.unwrap().start();
    assert_eq!(typing.display_lines().len(), 2);

    let typing = Typing::new(
        "    line1\n  line2\n line3\n line4\n line5\n line6\n line7\n line8\n line9\n line10\n line11",
        10,
        10,
    );
    let typing = typing.unwrap().start();
    assert_eq!(typing.display_lines().len(), 10);
}

#[test]
fn next_line() {
    let typing = Typing::new("    line1\n  line2", 10, 10);
    let typing = typing.unwrap().start();
    let next = typing.next();

    match next {
        Typing::Running(line) => {
            assert_eq!(line.current().rest_text().unwrap(), "ine2");
        }
        _ => (),
    }
}

#[test]
fn next_empty() {
    let typing = Typing::new("    line1\n  line2", 10, 10);
    let typing = typing.unwrap().start();
    let next = typing.next().next();
    assert!(next.is_finish());
}

#[test]
fn empty_lines() {
    assert!(Typing::new("", 0, 10).is_err());
}

#[test]
fn wpm() {
    let typing = Typing::new("    line1\n  line2", 10, 10);
    let typing = typing.unwrap().start();
    let typing = typing.input('l');
    let typing = typing.input('i');
    let typing = typing.input('n');
    let typing = typing.input('e');
    let typing = typing.finish();

    assert_eq!(typing.wpm(), 48);
}

#[test]
fn acc() {
    let typing = Typing::new("    line1\n  line2", 10, 10);
    let typing = typing.unwrap().start();
    let typing = typing.input('l');
    let typing = typing.input('2');
    let typing = typing.input('i');
    let typing = typing.input('n');
    let typing = typing.input('e');
    let typing = typing.finish();

    assert_eq!(typing.acc(), 80);
}

#[test]
fn new_starts_before_first_line() {
    let typing = Typing::new("abc\ndef", 30, 10).unwrap();
    assert!(typing.is_before_start());
    assert!(!typing.is_finish());
    assert_eq!(typing.current_line_index(), 0);
    assert_eq!(typing.typed(), 0);
    assert_eq!(typing.typo(), 0);
}

#[test]
fn correct_run_reaches_finish() {
    // Two two-character lines: every keystroke that matches a real character
    // is counted, so typing the whole document counts all four characters.
    let typing = Typing::new("ab\ncd", 30, 10).unwrap().start();
    let typing = typing.input('a');
    assert!(!typing.is_finish());
    assert_eq!(typing.typed(), 1);
    let typing = typing.input('b');
    assert!(!typing.is_finish());
    assert_eq!(typing.typed(), 2);
    assert_eq!(typing.current_line_index(), 1);
    let typing = typing.input('c');
    assert!(!typing.is_finish());
    assert_eq!(typing.typed(), 3);
    let typing = typing.input('d');
    assert!(typing.is_finish());
    assert_eq!(typing.typed(), 4);
}

#[test]
fn wrong_input_counts_typo_only() {
    let typing = Typing::new("abc", 30, 10).unwrap().start();
    let before = typing.display_lines();
    let typing = typing.input('z');
    assert_eq!(typing.typo(), 1);
    assert_eq!(typing.typed(), 0);
    assert!(typing.is_error());
    assert!(!typing.is_finish());
    let after = typing.display_lines();
    assert_eq!(after[0].current_text(), before[0].current_text());
    assert_eq!(after[0].rest_text(), before[0].rest_text());
}

#[test]
fn correct_input_clears_error() {
    let typing = Typing::new("abc", 30, 10).unwrap().start();
    let typing = typing.input('z');
    assert!(typing.is_error());
    let typing = typing.input('a');
    assert!(!typing.is_error());
    assert_eq!(typing.typed(), 1);
    assert_eq!(typing.typo(), 1);
}

#[test]
fn ticks_drive_running_to_finish() {
    let mut typing = Typing::new("abc", 10, 10).unwrap().start();
    for _ in 0..9 {
        typing = typing.tick();
        assert!(!typing.is_finish());
    }
    typing = typing.tick();
    assert!(typing.is_finish());
    assert_eq!(typing.get_remaining_time(), 0);
}

#[test]
fn acc_is_zero_without_keystrokes() {
    let typing = Typing::new("abc", 10, 10).unwrap().start();
    assert_eq!(typing.acc(), 0);
    let typing = typing.finish();
    assert_eq!(typing.acc(), 0);
}

#[test]
fn windowing_near_document_end() {
    // Eleven lines, ten visible: after moving to the last line the window
    // starts one line before the current one and runs to the end of the
    // document, so two lines remain visible.
    let text = "a\nb\nc\nd\ne\nf\ng\nh\ni\nj\nk";
    let mut typing = Typing::new(text, 10, 10).unwrap().start();
    for _ in 0..10 {
        typing = typing.next();
    }
    assert!(!typing.is_finish());
    assert_eq!(typing.current_line_index(), 10);
    let window = typing.display_lines();
    assert_eq!(window.len(), 2);
    assert_eq!(window[0].line_no(), 10);
    assert_eq!(window[1].line_no(), 11);
}

#[test]
fn restart_from_finish_resets_the_run() {
    let typing = Typing::new("ab", 10, 10).unwrap().start();
    let typing = typing.input('x').input('a').input('b');
    assert!(typing.is_finish());
    let restarted = typing.restart("new text", 30);
    assert!(restarted.is_before_start());
    assert_eq!(restarted.typed(), 0);
    assert_eq!(restarted.typo(), 0);
    assert_eq!(restarted.current_line_index(), 0);
    assert_eq!(restarted.get_remaining_time(), 30);
    let started = restarted.start();
    assert_eq!(
        started.display_lines()[0].rest_text().unwrap(),
        "ew text"
    );
}

#[test]
fn restart_from_running_is_noop() {
    let typing = Typing::new("ab", 10, 10).unwrap().start();
    let typing = typing.input('a');
    let restarted = typing.restart("other", 30);
    assert!(!restarted.is_before_start());
    assert!(!restarted.is_finish());
    assert_eq!(restarted.typed(), 1);
    assert_eq!(restarted.get_remaining_time(), 10);
}

#[test]
fn restart_from_before_start_is_noop() {
    let typing = Typing::new("ab", 10, 10).unwrap();
    let restarted = typing.restart("other", 30);
    assert!(restarted.is_before_start());
    assert_eq!(restarted.get_remaining_time(), 10);
    let started = restarted.start();
    assert_eq!(started.display_lines()[0].rest_text().unwrap(), "b");
}

#[test]
fn input_before_start_is_noop() {
    let typing = Typing::new("ab", 10, 10).unwrap();
    let typing = typing.input('a');
    assert!(typing.is_before_start());
    assert_eq!(typing.typed(), 0);
    assert_eq!(typing.typo(), 0);
}

#[test]
fn input_after_finish_is_noop() {
    let typing = Typing::new("a", 10, 10).unwrap().start().input('a');
    assert!(typing.is_finish());
    let typing = typing.input('x');
    assert!(typing.is_finish());
    assert_eq!(typing.typo(), 0);
}

#[test]
fn update_remaining_time_applies_everywhere() {
    let typing = Typing::new("ab", 10, 10).unwrap();
    assert_eq!(typing.update_remaining_time(99).get_remaining_time(), 99);
    let running = typing.start();
    assert_eq!(running.update_remaining_time(7).get_remaining_time(), 7);
}


#[test]
fn completing_keystroke_counts_and_clears_error() {
    // "a" then "bc": the keystroke that completes a line is counted and
    // clears the error flag like any other correct keystroke.
    let typing = Typing::new("a\nbc", 30, 10).unwrap().start();
    let typing = typing.input('x');
    assert!(typing.is_error());
    let typing = typing.input('a');
    assert!(!typing.is_error());
    assert_eq!(typing.typed(), 1);
    assert_eq!(typing.current_line_index(), 1);
}

#[test]
fn blank_line_passes_uncounted() {
    let typing = Typing::new("a\n\nb", 30, 10).unwrap().start();
    let typing = typing.input('a');
    assert_eq!(typing.typed(), 1);
    assert_eq!(typing.current_line_index(), 1);
    // Any keystroke moves past the blank line without being counted.
    let typing = typing.input('q');
    assert_eq!(typing.typed(), 1);
    assert_eq!(typing.typo(), 0);
    assert_eq!(typing.current_line_index(), 2);
    let typing = typing.input('b');
    assert!(typing.is_finish());
    assert_eq!(typing.typed(), 2);
}

#[test]
fn tick_from_one_unit_finishes() {
    let typing = Typing::new("abc", 1, 10).unwrap().start();
    let typing = typing.tick();
    assert!(typing.is_finish());
    assert_eq!(typing.get_remaining_time(), 0);
}

#[test]
fn tick_counts_down_one_unit() {
    let mut typing = Typing::new("abc", 3, 10).unwrap().start();
    typing = typing.tick();
    assert_eq!(typing.get_remaining_time(), 2);
    typing = typing.tick();
    assert_eq!(typing.get_remaining_time(), 1);
    assert!(!typing.is_finish());
    typing = typing.tick();
    assert!(typing.is_finish());
    assert_eq!(typing.get_remaining_time(), 0);
}

#[test]
fn restart_clears_error_flag() {
    let typing = Typing::new("ab", 10, 10).unwrap().start();
    let typing = typing.input('x').finish();
    assert!(typing.is_finish());
    let restarted = typing.restart("cd", 10).start();
    assert!(!restarted.is_error());
}
