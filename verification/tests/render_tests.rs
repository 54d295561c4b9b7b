use typing_trainer::color::{rainbow_wheel, DisplayColor};
use typing_trainer::render::{render_lines, substitute, StyleTag};
use typing_trainer::session::App;
use typing_trainer::text::Program;

fn chars(s: &str) -> Vec<char> {
    s.chars().collect()
}

fn string_of(v: &[char]) -> String {
    v.iter().collect()
}

#[test]
fn split_line_boundary_tags_typed_then_remaining() {
    let content = chars("ab\ncd");
    let lines = render_lines(&content, 2, &chars("    "), &chars(" "));
    assert_eq!(lines.len(), 2);
    assert_eq!(lines[0].segments.len(), 1);
    assert_eq!(lines[0].segments[0].raw, chars("ab"));
    assert_eq!(lines[0].segments[0].tag, StyleTag::Typed);
    assert_eq!(lines[1].segments.len(), 1);
    assert_eq!(lines[1].segments[0].raw, chars("cd"));
    assert_eq!(lines[1].segments[0].tag, StyleTag::Remaining);
}

#[test]
fn scroll_row_counts_completed_lines() {
    // The same lines as above once the newline itself is typed: the scroll
    // row is the count of newline characters in the typed prefix.
    let app_before = App::restore(
        vec![Program::new(String::from("t"), String::from("ab\ncd"))],
        0,
        chars("ab"),
    );
    assert_eq!(app_before.get_cursor_position("    "), (0, 0));
    let app_after = App::restore(
        vec![Program::new(String::from("t"), String::from("ab\ncd"))],
        0,
        chars("ab\n"),
    );
    assert_eq!(app_after.get_cursor_position("    "), (1, 0));
    let lines = render_lines(&chars("ab\ncd"), 3, &chars("    "), &chars(" "));
    assert_eq!(lines[0].segments[0].tag, StyleTag::Typed);
    assert_eq!(lines[1].segments[0].tag, StyleTag::Remaining);
}

#[test]
fn mid_line_boundary_splits_a_line_in_two() {
    let content = chars("hello\nworld");
    let lines = render_lines(&content, 8, &chars("    "), &chars(" "));
    assert_eq!(lines.len(), 2);
    assert_eq!(lines[0].segments.len(), 1);
    assert_eq!(lines[0].segments[0].tag, StyleTag::Typed);
    assert_eq!(lines[1].segments.len(), 2);
    assert_eq!(lines[1].segments[0].raw, chars("wo"));
    assert_eq!(lines[1].segments[0].tag, StyleTag::Typed);
    assert_eq!(lines[1].segments[1].raw, chars("rld"));
    assert_eq!(lines[1].segments[1].tag, StyleTag::Remaining);
}

#[test]
fn concatenated_raw_segments_reconstruct_content() {
    let content = chars("a b\tc\nd e\n\nlast");
    for typed_len in 0..=content.len() {
        let lines = render_lines(&content, typed_len, &chars("<tab>"), &chars("_"));
        let mut rebuilt: Vec<char> = Vec::new();
        for (i, line) in lines.iter().enumerate() {
            if i > 0 {
                rebuilt.push('\n');
            }
            for segment in line.segments.iter() {
                rebuilt.extend(segment.raw.iter());
            }
        }
        assert_eq!(rebuilt, content, "typed_len {}", typed_len);
    }
}

#[test]
fn glyph_substitution_rewrites_spaces_and_tabs() {
    let display = substitute(&chars("a b\tc"), &chars("<tab>"), &chars("_"));
    assert_eq!(string_of(&display), "a_b<tab>c");
    let content = chars(" \t");
    let lines = render_lines(&content, 1, &chars("--"), &chars("."));
    assert_eq!(lines.len(), 1);
    assert_eq!(lines[0].segments.len(), 2);
    assert_eq!(string_of(&lines[0].segments[0].display), ".");
    assert_eq!(string_of(&lines[0].segments[1].display), "--");
}

#[test]
fn empty_content_renders_one_empty_line() {
    // An empty line whose start offset has been reached counts as typed,
    // exactly as the boundary arithmetic orders the three cases.
    let lines = render_lines(&chars(""), 0, &chars("    "), &chars(" "));
    assert_eq!(lines.len(), 1);
    assert_eq!(lines[0].segments.len(), 1);
    assert_eq!(lines[0].segments[0].raw, chars(""));
    assert_eq!(lines[0].segments[0].tag, StyleTag::Typed);
    let untouched = render_lines(&chars("a"), 0, &chars("    "), &chars(" "));
    assert_eq!(untouched[0].segments[0].tag, StyleTag::Remaining);
}

#[test]
fn trailing_newline_yields_final_empty_line() {
    let lines = render_lines(&chars("ab\n"), 3, &chars("    "), &chars(" "));
    assert_eq!(lines.len(), 2);
    assert_eq!(lines[0].segments[0].raw, chars("ab"));
    assert_eq!(lines[1].segments[0].raw, chars(""));
}

#[test]
fn rainbow_wheel_endpoints_are_pure_red() {
    assert_eq!(rainbow_wheel(0), DisplayColor::Rgb(255, 0, 0));
    assert_eq!(rainbow_wheel(255), DisplayColor::Rgb(255, 0, 0));
}

#[test]
fn rainbow_wheel_bands_interpolate() {
    // Position 171 inverts to 84: deep in the first band.
    assert_eq!(rainbow_wheel(171), DisplayColor::Rgb(255 - 84 * 3, 0, 84 * 3));
    // Position 85 inverts to 170: the start of the third band.
    assert_eq!(rainbow_wheel(85), DisplayColor::Rgb(0, 255, 0));
}

#[test]
fn tick_outside_reward_window_forces_yellow() {
    let mut app = App::restore(
        vec![Program::new(String::from("t"), String::from("abc"))],
        0,
        vec![],
    );
    app.rainbow = false;
    app.typed_color = DisplayColor::Rgb(1, 2, 3);
    app.last_typed_millis = 1000;
    app.tick(2000);
    assert_eq!(app.typed_color, DisplayColor::Yellow);
    assert!(!app.rainbow);
}

#[test]
fn tick_inside_reward_window_advances_the_wheel() {
    let mut app = App::restore(
        vec![Program::new(String::from("t"), String::from("abc"))],
        0,
        vec![],
    );
    app.rainbow = true;
    app.wheel_pos = 0;
    app.last_typed_millis = 1000;
    app.tick(1050);
    assert_eq!(app.wheel_pos, 10);
    assert_eq!(app.typed_color, rainbow_wheel(10));
    assert!(app.rainbow, "50ms after the last correct input is inside the window");
    app.tick(1081);
    assert_eq!(app.wheel_pos, 20);
    assert!(!app.rainbow, "81ms after the last correct input is outside the window");
}

#[test]
fn wheel_position_wraps_at_256() {
    let mut app = App::restore(
        vec![Program::new(String::from("t"), String::from("abc"))],
        0,
        vec![],
    );
    app.rainbow = true;
    app.wheel_pos = 250;
    app.last_typed_millis = 0;
    app.tick(0);
    assert_eq!(app.wheel_pos, 4);
}
