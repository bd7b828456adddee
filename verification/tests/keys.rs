use shrimp::keys::UiState;
use shrimp::keys::Key;
use shrimp::keys::Modifiers;
use shrimp::keys::Screen;
use shrimp::keys::KeyAction;
use shrimp::keys::SlashCommand;
use shrimp::keys::parse_slash;
use shrimp::keys::user_line_text;

fn none() -> Modifiers {
    Modifiers { control: false, shift: false, super_key: false }
}

fn chat_state() -> UiState {
    let mut s = UiState::new(2);
    s.screen = Screen::Chat;
    s.agent_ready = true;
    s
}

#[test]
fn provider_list_moves_and_chooses() {
    let mut s = UiState::new(2);
    s.handle_key(Key::Down, none());
    s.handle_key(Key::Down, none());
    assert_eq!(s.provider_cursor, 1);
    match s.handle_key(Key::Enter, none()) {
        KeyAction::ChooseProvider(1) => {}
        _ => panic!("expected the provider to be chosen"),
    }
    assert_eq!(s.screen, Screen::ModelSelect);
    assert!(s.model_loading);
    assert!(matches!(s.handle_key(Key::Esc, none()), KeyAction::CancelModelFetch));
    assert_eq!(s.screen, Screen::ProviderSelect);
}

#[test]
fn typing_and_sending() {
    let mut s = chat_state();
    for c in " hi ".chars() {
        s.handle_key(Key::Char(c), none());
    }
    s.handle_key(Key::Backspace, none());
    match s.handle_key(Key::Enter, none()) {
        KeyAction::SendMessage(m) => assert_eq!(m, "hi"),
        _ => panic!("expected a message"),
    }
    assert!(s.input.is_empty());
    assert!(s.agent_running);
    assert!(matches!(s.handle_key(Key::Char('x'), none()), KeyAction::Nothing));
    assert!(s.input.is_empty());
}

#[test]
fn slash_commands() {
    let mut s = chat_state();
    for c in "/undo".chars() {
        s.handle_key(Key::Char(c), none());
    }
    assert!(matches!(s.handle_key(Key::Enter, none()), KeyAction::Command(SlashCommand::Undo)));
    match parse_slash("/nope") {
        SlashCommand::Unknown(c) => assert_eq!(c, "/nope"),
        _ => panic!("expected an unknown command"),
    }
    assert_eq!(user_line_text("hi"), "› hi");
}

#[test]
fn quitting_and_copying() {
    let mut s = chat_state();
    assert!(matches!(
        s.handle_key(Key::Char('c'), Modifiers { control: true, shift: true, super_key: false }),
        KeyAction::CopyTranscript
    ));
    assert!(!s.should_quit);
    s.handle_key(Key::Char('c'), Modifiers { control: true, shift: false, super_key: false });
    assert!(s.should_quit);
    let mut s = chat_state();
    s.handle_key(Key::Esc, none());
    assert!(s.should_quit);
}

#[test]
fn scrolling_the_chat() {
    let mut s = chat_state();
    s.scroll.view_rows = 50;
    s.scroll.view_height = 10;
    assert_eq!(s.scroll.effective_offset(), 40);
    s.handle_key(Key::PageUp, none());
    assert_eq!(s.scroll.effective_offset(), 30);
    s.handle_key(Key::Up, none());
    assert_eq!(s.scroll.effective_offset(), 29);
    s.handle_key(Key::Down, none());
    s.handle_key(Key::PageDown, none());
    assert_eq!(s.scroll.scroll_offset, usize::MAX);
    s.handle_key(Key::PageUp, none());
    s.handle_key(Key::End, none());
    assert_eq!(s.scroll.effective_offset(), 40);
}

#[test]
fn diff_keys() {
    let mut s = chat_state();
    s.diff_open = true;
    assert!(matches!(s.handle_key(Key::Char('n'), none()), KeyAction::RevertDiff));
    assert!(!s.diff_open);
}

#[test]
fn shift_c_types_a_capital() {
    let mut s = UiState::new(2);
    s.screen = Screen::Chat;
    s.agent_ready = true;
    let a = s.handle_key(Key::Char('C'), Modifiers { control: false, shift: true, super_key: false });
    assert!(matches!(a, KeyAction::Nothing));
    assert_eq!(s.input, "C");
    let b = s.handle_key(Key::Char('c'), Modifiers { control: false, shift: false, super_key: true });
    assert!(matches!(b, KeyAction::CopyTranscript));
}
