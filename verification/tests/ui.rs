use abot::ui::{
    clamp_scroll, log_window, lower, on_key, parse_input, push_log_line, raise, raw_mode_message,
    role_label, status_line, Command, Key, KeyAction, ViewState,
};

fn state(input: &str) -> ViewState {
    ViewState {
        input: input.to_string(),
        scroll: 20,
        log_scroll: 30,
        visible_height: 40,
        is_log_focused: false,
        raw_mode: false,
        follow_mode: true,
    }
}

#[test]
fn characters_are_typed_and_erased() {
    let mut s = state("ab");
    assert_eq!(on_key(&mut s, Key::Char('c')), KeyAction::Redraw);
    assert_eq!(s.input, "abc");
    assert_eq!(on_key(&mut s, Key::Backspace), KeyAction::Redraw);
    assert_eq!(on_key(&mut s, Key::Backspace), KeyAction::Redraw);
    assert_eq!(s.input, "a");
    on_key(&mut s, Key::Backspace);
    on_key(&mut s, Key::Backspace);
    assert_eq!(s.input, "");
    on_key(&mut s, Key::Char('ü'));
    on_key(&mut s, Key::Backspace);
    assert_eq!(s.input, "");
}

#[test]
fn enter_hands_in_the_line() {
    let mut s = state("hello");
    assert_eq!(on_key(&mut s, Key::Enter), KeyAction::Submit("hello".to_string()));
    assert_eq!(s.input, "");
    assert_eq!(on_key(&mut s, Key::Enter), KeyAction::Redraw);
}

#[test]
fn escape_quits() {
    let mut s = state("typed");
    assert_eq!(on_key(&mut s, Key::Esc), KeyAction::Quit);
    assert_eq!(s, state("typed"));
    assert_eq!(on_key(&mut s, Key::Other), KeyAction::Redraw);
    assert_eq!(s, state("typed"));
}

#[test]
fn arrows_scroll_the_focused_view() {
    let mut s = state("");
    on_key(&mut s, Key::Up);
    assert_eq!((s.scroll, s.log_scroll), (19, 30));
    on_key(&mut s, Key::Down);
    on_key(&mut s, Key::Down);
    assert_eq!((s.scroll, s.log_scroll), (21, 30));
    on_key(&mut s, Key::Tab);
    assert!(s.is_log_focused);
    assert_eq!(s.log_scroll, usize::MAX);
    on_key(&mut s, Key::Down);
    assert_eq!(s.log_scroll, usize::MAX);
    on_key(&mut s, Key::Up);
    assert_eq!((s.scroll, s.log_scroll), (21, usize::MAX - 1));
    on_key(&mut s, Key::Tab);
    assert!(!s.is_log_focused);
    assert_eq!(s.log_scroll, usize::MAX - 1);
}

#[test]
fn scrolling_stops_at_the_top() {
    let mut s = state("");
    s.scroll = 0;
    on_key(&mut s, Key::Up);
    assert_eq!(s.scroll, 0);
    s.scroll = 3;
    on_key(&mut s, Key::PageUp);
    assert_eq!(s.scroll, 0);
}

#[test]
fn pages_scroll_the_conversation_only() {
    let mut s = state("");
    on_key(&mut s, Key::PageUp);
    assert_eq!(s.scroll, 10);
    assert!(!s.follow_mode);
    on_key(&mut s, Key::PageDown);
    assert_eq!(s.scroll, 50);
    s.is_log_focused = true;
    s.follow_mode = true;
    on_key(&mut s, Key::PageUp);
    on_key(&mut s, Key::PageDown);
    assert_eq!(s.scroll, 50);
    assert!(s.follow_mode);
}

#[test]
fn lower_and_raise_saturate() {
    assert_eq!(lower(5, 3), 2);
    assert_eq!(lower(3, 5), 0);
    assert_eq!(raise(5, 3), 8);
    assert_eq!(raise(usize::MAX - 1, 3), usize::MAX);
}

#[test]
fn a_line_without_the_mark_is_a_message() {
    assert_eq!(parse_input("hello /save"), Command::Message("hello /save".to_string()));
    assert_eq!(parse_input(" /save"), Command::Message(" /save".to_string()));
    assert_eq!(parse_input(""), Command::Message(String::new()));
}

#[test]
fn commands_are_named_by_their_first_word() {
    assert_eq!(parse_input("/save"), Command::Save);
    assert_eq!(parse_input("/quit"), Command::Quit);
    assert_eq!(parse_input("/exit now"), Command::Quit);
    assert_eq!(parse_input("/saveall"), Command::SaveAll);
    assert_eq!(parse_input("/raw"), Command::ToggleRaw);
    assert_eq!(parse_input("/reset"), Command::Reset);
    assert_eq!(parse_input("///  save  "), Command::Save);
}

#[test]
fn commands_take_their_arguments() {
    assert_eq!(parse_input("/log debug"), Command::LogLevel(Some("debug".to_string())));
    assert_eq!(parse_input("/log"), Command::LogLevel(None));
    assert_eq!(parse_input("/model openai x"), Command::Model(Some("openai".to_string())));
    assert_eq!(parse_input("/model"), Command::Model(None));
    assert_eq!(
        parse_input("/topic  rust   async  book "),
        Command::Topic(Some("rust async book".to_string()))
    );
    assert_eq!(parse_input("/topic"), Command::Topic(None));
}

#[test]
fn other_commands_are_unknown() {
    assert_eq!(parse_input("/dance"), Command::Unknown("/dance".to_string()));
    assert_eq!(parse_input("/Save"), Command::Unknown("/Save".to_string()));
    assert_eq!(parse_input("/"), Command::Unknown("/".to_string()));
    assert_eq!(parse_input("/  "), Command::Unknown("/  ".to_string()));
}

#[test]
fn clamp_scroll_keeps_the_view_inside() {
    assert_eq!(clamp_scroll(5, 100, 20), 5);
    assert_eq!(clamp_scroll(80, 100, 20), 80);
    assert_eq!(clamp_scroll(81, 100, 20), 80);
    assert_eq!(clamp_scroll(usize::MAX, 100, 20), 80);
    assert_eq!(clamp_scroll(5, 10, 20), 0);
    assert_eq!(clamp_scroll(usize::MAX, 10, 20), 0);
    assert_eq!(clamp_scroll(0, 0, 0), 0);
}

#[test]
fn log_window_is_inside_the_log() {
    assert_eq!(log_window(100, 10, 20), (10, 30));
    assert_eq!(log_window(100, 90, 20), (90, 100));
    assert_eq!(log_window(100, 100, 20), (100, 100));
    assert_eq!(log_window(100, usize::MAX, usize::MAX), (100, 100));
    assert_eq!(log_window(100, 5, usize::MAX), (5, 100));
    assert_eq!(log_window(0, 0, 20), (0, 0));
    assert_eq!(log_window(10, 3, 0), (3, 3));
}

#[test]
fn push_log_line_keeps_the_log_short() {
    let mut log: Vec<String> = vec![];
    for i in 0..3 {
        push_log_line(&mut log, 2, format!("line {}", i));
    }
    assert_eq!(log, vec!["line 0", "line 1", "line 2"]);
    push_log_line(&mut log, 2, "line 3".to_string());
    assert_eq!(log, vec!["line 1", "line 2", "line 3"]);
    push_log_line(&mut log, 2, "line 4".to_string());
    assert_eq!(log, vec!["line 2", "line 3", "line 4"]);
    let mut none: Vec<String> = vec!["a".to_string()];
    push_log_line(&mut none, 0, "b".to_string());
    assert_eq!(none, vec!["b"]);
}

#[test]
fn labels_and_status() {
    assert_eq!(role_label("assistant"), "Assistant: ");
    assert_eq!(role_label("user"), "User: ");
    assert_eq!(role_label("system"), "System: ");
    assert_eq!(role_label("anything"), "System: ");
    assert_eq!(raw_mode_message(true), "Raw mode enabled");
    assert_eq!(raw_mode_message(false), "Raw mode disabled");
    assert_eq!(status_line("openai", "rust"), "Provider: openai | Topic: rust");
}
