use typing_trainer::session::{AdvanceOutcome, App, InputEvent, Outcome, Save};
use typing_trainer::text::Program;

fn chars(s: &str) -> Vec<char> {
    s.chars().collect()
}

fn one_text_app(content: &str, typed: &str) -> App {
    let programs = vec![Program::new(String::from("text"), String::from(content))];
    App::restore(programs, 0, chars(typed))
}

#[test]
fn wrong_char_keeps_empty_progress() {
    let mut app = one_text_app("x", "");
    let outcome = app.check_char_guess('y');
    assert_eq!(outcome, Outcome::Incorrect);
    assert_eq!(app.typed.len(), 0);
    assert!(!app.finished);
}

#[test]
fn tab_event_matches_tab_character() {
    let mut app = one_text_app("a\tb", "a");
    let outcome = app.check_tab_guess();
    assert_eq!(outcome, Outcome::Correct);
    assert_eq!(app.typed.len(), 2);
    assert_eq!(app.typed, chars("a\t"));
}

#[test]
fn enter_event_matches_newline() {
    let mut app = one_text_app("ab\ncd", "ab");
    let outcome = app.check_enter_guess();
    assert_eq!(outcome, Outcome::Correct);
    assert_eq!(app.typed, chars("ab\n"));
}

#[test]
fn enter_event_against_other_character_is_incorrect() {
    let mut app = one_text_app("ab", "a");
    let outcome = app.check_enter_guess();
    assert_eq!(outcome, Outcome::Incorrect);
    assert_eq!(app.typed.len(), 0);
}

#[test]
fn matching_events_advance_one_by_one() {
    let mut app = one_text_app("hi\n\tz", "");
    let events = [
        InputEvent::Char('h'),
        InputEvent::Char('i'),
        InputEvent::Enter,
        InputEvent::Tab,
        InputEvent::Char('z'),
    ];
    for (i, ev) in events.iter().enumerate() {
        let outcome = app.handle_event(*ev);
        assert_eq!(outcome, Outcome::Correct);
        assert_eq!(app.typed.len(), i + 1);
    }
    assert_eq!(app.typed, chars("hi\n\tz"));
}

#[test]
fn mismatch_applies_removal_penalty() {
    let mut app = one_text_app("abc", "ab");
    let outcome = app.check_char_guess('x');
    assert_eq!(outcome, Outcome::Incorrect);
    assert_eq!(app.typed, chars("a"));
}

#[test]
fn events_after_completion_yield_completed_and_leave_progress() {
    let mut app = one_text_app("ok", "");
    assert_eq!(app.check_char_guess('o'), Outcome::Correct);
    assert_eq!(app.check_char_guess('k'), Outcome::Correct);
    for _ in 0..2 {
        let outcome = app.check_char_guess('z');
        assert_eq!(outcome, Outcome::Completed);
        assert_eq!(app.typed.len(), 2);
        assert!(app.finished);
    }
    assert_eq!(app.check_enter_guess(), Outcome::Completed);
    assert_eq!(app.check_tab_guess(), Outcome::Completed);
    assert_eq!(app.typed, chars("ok"));
}

#[test]
fn advance_moves_to_next_text_and_resets_progress() {
    let programs = vec![
        Program::new(String::from("a"), String::from("a")),
        Program::new(String::from("b"), String::from("b")),
    ];
    let mut app = App::restore(programs, 0, chars("a"));
    assert_eq!(app.check_char_guess('q'), Outcome::Completed);
    assert!(app.finished);
    let advanced = app.advance_on_finished();
    assert_eq!(advanced, AdvanceOutcome::Advanced);
    assert_eq!(app.current, 1);
    assert!(!app.finished);
    assert_eq!(app.typed.len(), 0);
}

#[test]
fn advance_on_last_text_ends_session() {
    let mut app = one_text_app("a", "a");
    assert_eq!(app.check_char_guess('a'), Outcome::Completed);
    let advanced = app.advance_on_finished();
    assert_eq!(advanced, AdvanceOutcome::SessionEnded);
    assert_eq!(app.current, 0);
}

#[test]
fn advance_before_finishing_changes_nothing() {
    let mut app = one_text_app("ab", "a");
    let advanced = app.advance_on_finished();
    assert_eq!(advanced, AdvanceOutcome::StillTyping);
    assert_eq!(app.current, 0);
    assert_eq!(app.typed, chars("a"));
}

#[test]
fn save_round_trip_preserves_progress() {
    let programs = vec![
        Program::new(String::from("alpha"), String::from("ab\ncd")),
        Program::new(String::from("beta"), String::from("xy")),
    ];
    let app = App::restore(programs, 1, chars("x"));
    let save = Save::new(&app);
    assert_eq!(save.programs, vec![String::from("alpha"), String::from("beta")]);
    assert_eq!(save.current, 1);
    assert_eq!(save.typed, chars("x"));
    assert!(save.time_saved >= 0);

    let reloaded = vec![
        Program::new(String::from("alpha"), String::from("ab\ncd")),
        Program::new(String::from("beta"), String::from("xy")),
    ];
    let restored = App::restore(reloaded, save.current, save.typed);
    assert_eq!(restored.typed.len(), app.typed.len());
    assert_eq!(restored.typed, app.typed);
    assert_eq!(restored.current, app.current);
    assert!(!restored.finished);
}

#[test]
fn expected_char_walks_the_content() {
    let app = one_text_app("a\tb", "a");
    assert_eq!(app.expected_char(), Some('\t'));
    let done = one_text_app("a", "a");
    assert_eq!(done.expected_char(), None);
}

#[test]
fn get_current_returns_active_text() {
    let app = one_text_app("abc", "");
    let current = app.get_current().unwrap();
    assert_eq!(current.name, String::from("text"));
    assert_eq!(current.content, chars("abc"));
}

#[test]
fn get_current_is_none_without_texts() {
    let app = App {
        programs: vec![],
        current: 0,
        finished: false,
        typed: vec![],
        wheel_pos: 0,
        rainbow: false,
        typed_color: typing_trainer::color::DisplayColor::Yellow,
        last_typed_millis: 0,
    };
    assert!(app.get_current().is_none());
}

#[test]
fn multibyte_content_is_counted_in_characters() {
    let mut app = one_text_app("héllo", "");
    assert_eq!(app.get_current().unwrap().content.len(), 5);
    assert_eq!(app.check_char_guess('h'), Outcome::Correct);
    assert_eq!(app.check_char_guess('é'), Outcome::Correct);
    assert_eq!(app.typed.len(), 2);
    assert_eq!(app.expected_char(), Some('l'));
}
