use tui_messenger::app::{App, CurrentScreen, MessageType};
use tui_messenger::dispatch::{Action, InputEvent, KeyCode, KeyEventKind, LoopEvent};

fn press(code: KeyCode) -> LoopEvent {
    LoopEvent::Input(InputEvent::Key { code, kind: KeyEventKind::Press })
}

fn type_text(app: &mut App, text: &str) {
    for c in text.chars() {
        assert_eq!(app.step(press(KeyCode::Char(c))), Action::Redraw);
    }
}

fn chat(sender: &str, content: &str) -> MessageType {
    MessageType::ChatMessage { sender: sender.to_string(), content: content.to_string() }
}

#[test]
fn new_app_is_empty_on_main() {
    let app = App::new();
    assert_eq!(app.current_screen, CurrentScreen::Main);
    assert!(app.messages.is_empty());
    assert_eq!(app.message_input, "");
    assert_eq!(app.scroll_offset, 0);
    assert_eq!(app.compose_scroll_offset, 0);
    assert_eq!(app.username, None);
}

#[test]
fn compose_and_send_scenario() {
    let mut app = App::new();
    assert_eq!(app.step(press(KeyCode::Enter)), Action::Redraw);
    assert_eq!(app.current_screen, CurrentScreen::ComposingMessage);
    assert_eq!(app.message_input, "");
    type_text(&mut app, "hi");
    assert_eq!(app.message_input, "hi");
    assert_eq!(app.step(press(KeyCode::Enter)), Action::Send("hi".to_string()));
    assert_eq!(app.message_input, "hi");
    assert_eq!(app.current_screen, CurrentScreen::ComposingMessage);
    assert_eq!(app.step(LoopEvent::SendResult { ok: true }), Action::Redraw);
    assert_eq!(app.message_input, "");
    assert_eq!(app.current_screen, CurrentScreen::Main);
}

#[test]
fn failed_write_keeps_the_message() {
    let mut app = App::new();
    app.step(LoopEvent::Inbound(chat("bob", "yo")));
    app.step(press(KeyCode::Enter));
    type_text(&mut app, "hi");
    assert_eq!(app.step(press(KeyCode::Enter)), Action::Send("hi".to_string()));
    assert_eq!(app.step(LoopEvent::SendResult { ok: false }), Action::Redraw);
    assert_eq!(app.message_input, "hi");
    assert_eq!(app.current_screen, CurrentScreen::ComposingMessage);
    assert_eq!(app.messages, vec![chat("bob", "yo")]);
    assert_eq!(app.step(press(KeyCode::Enter)), Action::Send("hi".to_string()));
    app.step(LoopEvent::SendResult { ok: true });
    assert_eq!(app.message_input, "");
    assert_eq!(app.current_screen, CurrentScreen::Main);
}

#[test]
fn failed_name_command_keeps_the_name() {
    let mut app = App::new();
    app.step(press(KeyCode::Char('n')));
    type_text(&mut app, "carol");
    assert_eq!(app.step(press(KeyCode::Enter)), Action::Send("/name carol".to_string()));
    app.step(LoopEvent::SendResult { ok: false });
    assert_eq!(app.username, None);
    assert_eq!(app.message_input, "carol");
    assert_eq!(app.current_screen, CurrentScreen::SetUser);
}

#[test]
fn inbound_chat_scenario() {
    let mut app = App::new();
    app.scroll_up();
    app.scroll_up();
    assert_eq!(app.step(LoopEvent::Inbound(chat("bob", "yo"))), Action::Redraw);
    assert_eq!(app.messages, vec![chat("bob", "yo")]);
    assert_eq!(app.scroll_offset, 0);
    assert_eq!(app.current_screen, CurrentScreen::Main);
}

#[test]
fn set_username_scenario() {
    let mut app = App::new();
    app.step(press(KeyCode::Char('n')));
    assert_eq!(app.current_screen, CurrentScreen::SetUser);
    type_text(&mut app, "alice");
    assert_eq!(app.step(press(KeyCode::Enter)), Action::Send("/name alice".to_string()));
    assert_eq!(app.step(LoopEvent::SendResult { ok: true }), Action::Redraw);
    assert_eq!(app.username, Some("alice".to_string()));
    assert_eq!(app.current_screen, CurrentScreen::Main);
    assert_eq!(app.message_input, "");
}

#[test]
fn arrivals_kept_in_order() {
    let mut app = App::new();
    let msgs = vec![
        chat("bob", "one"),
        MessageType::SystemMessage("joined".to_string()),
        chat("eve", "two"),
    ];
    for (n, m) in msgs.iter().enumerate() {
        app.scroll_up();
        app.step(LoopEvent::Inbound(m.clone()));
        assert_eq!(app.messages.len(), n + 1);
        assert_eq!(app.scroll_offset, 0);
    }
    assert_eq!(app.messages, msgs);
}

#[test]
fn typing_then_backspace_restores_buffer() {
    let mut app = App::new();
    app.step(press(KeyCode::Enter));
    type_text(&mut app, "ab");
    let before = app.message_input.clone();
    type_text(&mut app, "xyé!");
    for _ in 0..4 {
        app.step(press(KeyCode::Backspace));
    }
    assert_eq!(app.message_input, before);
    assert_eq!(app.current_screen, CurrentScreen::ComposingMessage);
}

#[test]
fn backspace_on_empty_buffer_is_harmless() {
    let mut app = App::new();
    app.step(press(KeyCode::Char('n')));
    app.step(press(KeyCode::Backspace));
    assert_eq!(app.message_input, "");
    assert_eq!(app.current_screen, CurrentScreen::SetUser);
}

#[test]
fn empty_submit_sends_nothing() {
    let mut app = App::new();
    app.step(press(KeyCode::Enter));
    assert_eq!(app.step(press(KeyCode::Enter)), Action::Redraw);
    assert_eq!(app.current_screen, CurrentScreen::Main);
}

#[test]
fn escape_discards_the_buffer() {
    let mut app = App::new();
    app.step(press(KeyCode::Enter));
    type_text(&mut app, "draft");
    assert_eq!(app.step(press(KeyCode::Esc)), Action::Redraw);
    assert_eq!(app.message_input, "");
    assert_eq!(app.current_screen, CurrentScreen::Main);
    assert!(app.messages.is_empty());
}

#[test]
fn help_is_a_one_step_detour() {
    for code in [KeyCode::Char('x'), KeyCode::Enter, KeyCode::Esc, KeyCode::Up, KeyCode::Char('q')] {
        let mut app = App::new();
        app.step(press(KeyCode::Char('h')));
        assert_eq!(app.current_screen, CurrentScreen::HelpMenu);
        assert_eq!(app.step(press(code)), Action::Redraw);
        assert_eq!(app.current_screen, CurrentScreen::Main);
        assert_eq!(app.scroll_offset, 0);
        assert_eq!(app.message_input, "");
    }
}

#[test]
fn exit_confirmation() {
    let mut app = App::new();
    app.step(LoopEvent::Inbound(chat("bob", "hey")));
    app.step(press(KeyCode::Char('q')));
    assert_eq!(app.current_screen, CurrentScreen::Exiting);
    assert_eq!(app.step(press(KeyCode::Char('x'))), Action::Redraw);
    assert_eq!(app.current_screen, CurrentScreen::Exiting);
    assert_eq!(app.step(press(KeyCode::Char('n'))), Action::Redraw);
    assert_eq!(app.current_screen, CurrentScreen::Main);
    app.step(press(KeyCode::Char('q')));
    assert_eq!(app.step(press(KeyCode::Char('q'))), Action::Redraw);
    assert_eq!(app.current_screen, CurrentScreen::Main);
    assert_eq!(app.messages, vec![chat("bob", "hey")]);
    assert_eq!(app.message_input, "");
    app.step(press(KeyCode::Char('q')));
    assert_eq!(app.step(press(KeyCode::Char('y'))), Action::Quit);
}

#[test]
fn relay_closure_disconnects_and_stops_writes() {
    let mut app = App::new();
    app.step(press(KeyCode::Enter));
    type_text(&mut app, "unsent");
    assert_eq!(app.step(LoopEvent::RelayClosed), Action::Redraw);
    assert_eq!(app.current_screen, CurrentScreen::Disconnected);
    assert_eq!(app.message_input, "");
    for code in [KeyCode::Enter, KeyCode::Char('q'), KeyCode::Char('y'), KeyCode::Char('n')] {
        assert_eq!(app.step(press(code)), Action::Redraw);
        assert_eq!(app.current_screen, CurrentScreen::Disconnected);
    }
    assert_eq!(app.step(LoopEvent::RelayClosed), Action::Idle);
    assert_eq!(app.current_screen, CurrentScreen::Disconnected);
}

#[test]
fn release_events_are_ignored() {
    let mut app = App::new();
    let ev = LoopEvent::Input(InputEvent::Key { code: KeyCode::Enter, kind: KeyEventKind::Release });
    assert_eq!(app.step(ev), Action::Idle);
    assert_eq!(app.current_screen, CurrentScreen::Main);
}

#[test]
fn resize_redraws_without_change() {
    let mut app = App::new();
    let ev = LoopEvent::Input(InputEvent::Resize { width: 80, height: 24 });
    assert_eq!(app.step(ev), Action::Redraw);
    assert_eq!(app.current_screen, CurrentScreen::Main);
}

#[test]
fn scrolling_saturates() {
    let mut app = App::new();
    app.step(press(KeyCode::Down));
    assert_eq!(app.scroll_offset, 0);
    app.step(press(KeyCode::Up));
    app.step(press(KeyCode::Up));
    assert_eq!(app.scroll_offset, 2);
    app.step(press(KeyCode::Down));
    assert_eq!(app.scroll_offset, 1);
    app.scroll_offset = usize::MAX;
    app.scroll_up();
    assert_eq!(app.scroll_offset, usize::MAX);
}

#[test]
fn repeat_presses_are_handled() {
    let mut app = App::new();
    let ev = LoopEvent::Input(InputEvent::Key { code: KeyCode::Char('h'), kind: KeyEventKind::Repeat });
    app.step(ev);
    assert_eq!(app.current_screen, CurrentScreen::HelpMenu);
}

#[test]
fn submit_compose_takes_the_text() {
    let mut app = App::new();
    app.step(press(KeyCode::Enter));
    type_text(&mut app, "abc");
    assert_eq!(app.submit_compose(), "abc");
    assert_eq!(app.message_input, "");
}
