use typist::app::App;
use typist::theme::Theme;
use typist::typing::TypingError;

#[test]
fn start() {
    let app = App::new("test", 10, 10).unwrap();
    assert_eq!(app.clone().start().typing.is_before_start(), false);
    assert_eq!(app.clone().start().typing.is_finish(), false);
}

#[test]
fn restart() {
    let app = App::new("test", 10, 10).unwrap();
    assert_eq!(
        app.clone()
            .start()
            .finish()
            .restart("vv")
            .typing
            .is_before_start(),
        true
    );
}

#[test]
fn selectable_time() {
    let app = App::new("test", 10, 10).unwrap();
    assert_eq!(app.clone().selectable_time().len(), 5);

    let app = App::new("test", 30, 10).unwrap();
    assert_eq!(app.clone().selectable_time().len(), 4);
}

#[test]
fn tick() {
    let app = App::new("test", 10, 10).unwrap();
    assert_eq!(app.start().tick().typing.get_remaining_time(), 9);
}

#[test]
fn elapsed_time() {
    let app = App::new("test", 10, 10).unwrap();
    assert_eq!(app.start().tick().elapsed_time(), 1);
}

#[test]
fn next_time_less_then_15() {
    let app = App::new("test", 10, 10).unwrap();
    let app = app.next_time();
    assert_eq!(app.time, 15);

    let app = app.next_time();
    assert_eq!(app.time, 30);

    let app = app.next_time();
    assert_eq!(app.time, 60);

    let app = app.next_time();
    assert_eq!(app.time, 120);

    let app = app.next_time();
    assert_eq!(app.time, 10);
}

#[test]
fn next_time_greater_than_120() {
    let app = App::new("test", 240, 10).unwrap();
    let app = app.next_time();
    assert_eq!(app.time, 15);

    let app = app.next_time();
    assert_eq!(app.time, 30);

    let app = app.next_time();
    assert_eq!(app.time, 60);

    let app = app.next_time();
    assert_eq!(app.time, 120);

    let app = app.next_time();
    assert_eq!(app.time, 240);
}

#[test]
fn prev_time_less_then_15() {
    let app = App::new("test", 10, 10).unwrap();
    let app = app.prev_time();
    assert_eq!(app.time, 120);

    let app = app.prev_time();
    assert_eq!(app.time, 60);

    let app = app.prev_time();
    assert_eq!(app.time, 30);

    let app = app.prev_time();
    assert_eq!(app.time, 15);

    let app = app.prev_time();
    assert_eq!(app.time, 10);
}

#[test]
fn prev_time_greater_than_120() {
    let app = App::new("test", 240, 10).unwrap();
    let app = app.prev_time();
    assert_eq!(app.time, 120);

    let app = app.prev_time();
    assert_eq!(app.time, 60);

    let app = app.prev_time();
    assert_eq!(app.time, 30);

    let app = app.prev_time();
    assert_eq!(app.time, 15);

    let app = app.prev_time();
    assert_eq!(app.time, 240);
}

#[test]
fn tabs_expand_to_four_spaces() {
    let app = App::new("\tx", 10, 10).unwrap();
    let lines = app.typing.display_lines();
    assert_eq!(lines[0].head_space_text().unwrap(), "    ");
    assert_eq!(lines[0].current_text(), Some('x'));
}

#[test]
fn unencodable_characters_are_dropped() {
    let app = App::new("\u{20AC}ab", 10, 10).unwrap();
    let lines = app.typing.display_lines();
    assert_eq!(lines[0].current_text(), Some('a'));
    assert_eq!(lines[0].rest_text().unwrap(), "b");
}

#[test]
fn empty_after_normalization_is_rejected() {
    let err = App::new("\u{20AC}", 10, 10).unwrap_err();
    assert_eq!(err, TypingError::EmptyText);
}

#[test]
fn progress_plots_start_at_origin() {
    let app = App::new("abc", 10, 10).unwrap().start().tick().tick();
    let wpm_plot = app.progress().wpm_plot();
    let acc_plot = app.progress().acc_plot();
    assert_eq!(wpm_plot.len(), 3);
    assert_eq!(acc_plot.len(), 3);
    assert_eq!(wpm_plot[0], (0, 0));
    assert_eq!(acc_plot[0], (0, 100));
    // No keystroke yet: both momentary readings are zero.
    assert_eq!(wpm_plot[1], (0, 0));
    assert_eq!(acc_plot[1], (0, 0));
    assert_eq!(app.progress().max_wpm(), 0);
}

#[test]
fn backspace_leaves_the_run_unchanged() {
    let app = App::new("abc", 10, 10).unwrap().start().input('a');
    let app = app.backspace();
    assert_eq!(app.typing.typed(), 1);
    assert_eq!(app.typing.typo(), 0);
    assert!(!app.typing.is_error());
}

#[test]
fn theme_new_picks_by_name() {
    assert!(matches!(Theme::new("dark"), Theme::Dark));
    assert!(matches!(Theme::new("light"), Theme::Light));
    assert!(matches!(Theme::new("anything"), Theme::Dark));
}

#[test]
fn keystrokes_show_up_in_samples() {
    let app = App::new("line one\nline two", 10, 10).unwrap().start();
    let app = app.input('l').input('i').input('n').input('e').tick();
    let wpm_plot = app.progress().wpm_plot();
    // Four keystrokes within the first second: 4 * 60 / 5 words per minute.
    assert_eq!(wpm_plot.len(), 2);
    assert_eq!(wpm_plot[1], (0, 48));
    assert_eq!(app.progress().max_wpm(), 48);
    assert_eq!(app.progress().acc_plot()[1], (0, 100));
}
