//! The screen state machine and the per-event decisions of the dispatch loop.

use crate::app::{receive_model, sat_dec, sat_inc, App, AppModel, CurrentScreen, MessageType};
use vstd::prelude::*;
use vstd::string::StringExecFns;

verus! {

/// The key of a key event.
#[derive(Clone, Copy, Debug, PartialEq, Eq, Structural)]
pub enum KeyCode {
    Char(char),
    Enter,
    Backspace,
    Esc,
    Up,
    Down,
    /// Any other key: it never changes the state.
    Other,
}

#[derive(Clone, Copy, Debug, PartialEq, Eq, Structural)]
pub enum KeyEventKind {
    Press,
    Repeat,
    Release,
}

/// An event of the terminal's input source.
#[derive(Clone, Copy, Debug, PartialEq, Eq, Structural)]
pub enum InputEvent {
    Key { code: KeyCode, kind: KeyEventKind },
    Resize { width: u16, height: u16 },
}

/// Whatever became ready first in the dispatch loop.
#[derive(Clone, Debug, PartialEq, Eq)]
pub enum LoopEvent {
    /// A message arrived from the relay.
    Inbound(MessageType),
    /// The relay's inbound half closed or failed.
    RelayClosed,
    /// The terminal produced an input event.
    Input(InputEvent),
    /// The write that the last `Action::Send` asked for succeeded or failed.
    SendResult { ok: bool },
}

/// What the loop does after an event has been applied.
#[derive(Clone, Debug, PartialEq, Eq)]
pub enum Action {
    /// Nothing: the event was ignored.
    Idle,
    /// Draw the current state.
    Redraw,
    /// Write the payload to the relay, then draw.
    Send(String),
    /// End the process.
    Quit,
}

pub enum ActionView {
    Idle,
    Redraw,
    Send(Seq<char>),
    Quit,
}

impl View for Action {
    type V = ActionView;

    open spec fn view(&self) -> ActionView {
        match self {
            Action::Idle => ActionView::Idle,
            Action::Redraw => ActionView::Redraw,
            Action::Send(s) => ActionView::Send(s@),
            Action::Quit => ActionView::Quit,
        }
    }
}

/// The prefix of the command that sets the username on the relay.
pub open spec fn name_command(name: Seq<char>) -> Seq<char> {
    seq!['/', 'n', 'a', 'm', 'e', ' '] + name
}

/// The state once the relay has accepted what Enter submitted: the message is
/// sent, or the username is set; the buffer is cleared and the main screen
/// returns. On any other screen nothing was pending and nothing changes.
pub open spec fn sent_model(m: AppModel) -> AppModel {
    if m.screen == CurrentScreen::SetUser {
        AppModel { screen: CurrentScreen::Main, input: Seq::empty(), username: Some(m.input), ..m }
    } else if m.screen == CurrentScreen::ComposingMessage {
        AppModel { screen: CurrentScreen::Main, input: Seq::empty(), ..m }
    } else {
        m
    }
}

/// Editing of the compose buffer, shared by the composing and username screens.
/// Enter with text to send changes nothing yet: the state moves on only once
/// the write has succeeded (see `sent_model`). Enter on an empty message
/// buffer sends nothing and returns to the main screen.
pub open spec fn edit_model(m: AppModel, k: KeyCode) -> AppModel {
    match k {
        KeyCode::Enter => {
            if m.screen == CurrentScreen::ComposingMessage && m.input.len() == 0 {
                AppModel { screen: CurrentScreen::Main, ..m }
            } else {
                m
            }
        },
        KeyCode::Backspace => {
            if m.input.len() == 0 { m } else { AppModel { input: m.input.drop_last(), ..m } }
        },
        KeyCode::Esc => AppModel { screen: CurrentScreen::Main, input: Seq::empty(), ..m },
        KeyCode::Char(c) => AppModel { input: m.input.push(c), ..m },
        _ => m,
    }
}

/// The state after a key press: the transition table of the screens.
pub open spec fn key_model(m: AppModel, k: KeyCode) -> AppModel {
    match m.screen {
        CurrentScreen::Main => match k {
            KeyCode::Enter => AppModel { screen: CurrentScreen::ComposingMessage, input: Seq::empty(), ..m },
            KeyCode::Char(c) => {
                if c == 'h' {
                    AppModel { screen: CurrentScreen::HelpMenu, ..m }
                } else if c == 'q' {
                    AppModel { screen: CurrentScreen::Exiting, ..m }
                } else if c == 'n' {
                    AppModel { screen: CurrentScreen::SetUser, ..m }
                } else {
                    m
                }
            },
            KeyCode::Up => AppModel { scroll: sat_inc(m.scroll), ..m },
            KeyCode::Down => AppModel { scroll: sat_dec(m.scroll), ..m },
            _ => m,
        },
        CurrentScreen::ComposingMessage | CurrentScreen::SetUser => edit_model(m, k),
        CurrentScreen::HelpMenu => AppModel { screen: CurrentScreen::Main, ..m },
        CurrentScreen::Exiting => match k {
            KeyCode::Char(c) => {
                if c == 'n' || c == 'q' { AppModel { screen: CurrentScreen::Main, ..m } } else { m }
            },
            _ => m,
        },
        _ => m,
    }
}

/// What the loop does after a key press.
pub open spec fn key_action(m: AppModel, k: KeyCode) -> ActionView {
    if m.screen == CurrentScreen::Exiting && k == KeyCode::Char('y') {
        ActionView::Quit
    } else if m.screen == CurrentScreen::ComposingMessage && k == KeyCode::Enter && m.input.len() > 0 {
        ActionView::Send(m.input)
    } else if m.screen == CurrentScreen::SetUser && k == KeyCode::Enter {
        ActionView::Send(name_command(m.input))
    } else {
        ActionView::Redraw
    }
}

/// The state after one event of the loop.
pub open spec fn event_model(m: AppModel, e: LoopEvent) -> AppModel {
    match e {
        LoopEvent::Inbound(msg) => receive_model(m, msg),
        LoopEvent::RelayClosed => AppModel { screen: CurrentScreen::Disconnected, input: Seq::empty(), ..m },
        LoopEvent::Input(InputEvent::Key { code, kind }) => {
            if kind == KeyEventKind::Release { m } else { key_model(m, code) }
        },
        LoopEvent::Input(InputEvent::Resize { .. }) => m,
        LoopEvent::SendResult { ok } => if ok { sent_model(m) } else { m },
    }
}

/// What the loop does after one event.
pub open spec fn event_action(m: AppModel, e: LoopEvent) -> ActionView {
    match e {
        LoopEvent::Inbound(_) => ActionView::Redraw,
        LoopEvent::RelayClosed => {
            if m.screen == CurrentScreen::Disconnected { ActionView::Idle } else { ActionView::Redraw }
        },
        LoopEvent::Input(InputEvent::Key { code, kind }) => {
            if kind == KeyEventKind::Release { ActionView::Idle } else { key_action(m, code) }
        },
        LoopEvent::Input(InputEvent::Resize { .. }) => ActionView::Redraw,
        LoopEvent::SendResult { .. } => ActionView::Redraw,
    }
}

impl App {
    /// Applies one key press to the session through the screen's transition table.
    pub fn handle_key(&mut self, code: KeyCode) -> (r: Action)
        ensures
            final(self)@ == key_model(old(self)@, code),
            r@ == key_action(old(self)@, code),
            old(self)@.wf() ==> final(self)@.wf(),
    {
        match self.current_screen {
            CurrentScreen::Main => {
                match code {
                    KeyCode::Enter => {
                        self.current_screen = CurrentScreen::ComposingMessage;
                        self.message_input = String::new();
                    },
                    KeyCode::Char(c) => {
                        if c == 'h' {
                            self.current_screen = CurrentScreen::HelpMenu;
                        } else if c == 'q' {
                            self.current_screen = CurrentScreen::Exiting;
                        } else if c == 'n' {
                            self.current_screen = CurrentScreen::SetUser;
                        }
                    },
                    KeyCode::Up => self.scroll_up(),
                    KeyCode::Down => self.scroll_down(),
                    _ => {},
                }
                Action::Redraw
            },
            CurrentScreen::ComposingMessage | CurrentScreen::SetUser => {
                match code {
                    KeyCode::Enter => {
                        if self.current_screen == CurrentScreen::SetUser {
                            let cmd = <String as StringExecFns>::from_str("/name ").concat(
                                self.message_input.as_str(),
                            );
                            proof {
                                reveal_strlit("/name ");
                                assert(cmd@ =~= name_command(self.message_input@));
                            }
                            Action::Send(cmd)
                        } else if self.message_input.as_str().is_empty() {
                            self.current_screen = CurrentScreen::Main;
                            Action::Redraw
                        } else {
                            Action::Send(self.message_input.clone())
                        }
                    },
                    KeyCode::Backspace => {
                        self.pop_input();
                        Action::Redraw
                    },
                    KeyCode::Esc => {
                        self.current_screen = CurrentScreen::Main;
                        self.message_input = String::new();
                        Action::Redraw
                    },
                    KeyCode::Char(c) => {
                        self.push_input(c);
                        Action::Redraw
                    },
                    _ => Action::Redraw,
                }
            },
            CurrentScreen::HelpMenu => {
                self.current_screen = CurrentScreen::Main;
                Action::Redraw
            },
            CurrentScreen::Exiting => {
                match code {
                    KeyCode::Char(c) => {
                        if c == 'y' {
                            Action::Quit
                        } else {
                            if c == 'n' || c == 'q' {
                                self.current_screen = CurrentScreen::Main;
                            }
                            Action::Redraw
                        }
                    },
                    _ => Action::Redraw,
                }
            },
            _ => Action::Redraw,
        }
    }

    /// Handles one ready event of the dispatch loop: an inbound message, the
    /// relay's closure, a terminal input event, or the outcome of the write
    /// that the previous `Action::Send` asked for.
    pub fn step(&mut self, event: LoopEvent) -> (r: Action)
        ensures
            final(self)@ == event_model(old(self)@, event),
            r@ == event_action(old(self)@, event),
            old(self)@.wf() ==> final(self)@.wf(),
    {
        match event {
            LoopEvent::Inbound(msg) => {
                self.handle_websocket_message(msg);
                Action::Redraw
            },
            LoopEvent::RelayClosed => {
                let was_connected = self.current_screen != CurrentScreen::Disconnected;
                self.current_screen = CurrentScreen::Disconnected;
                self.message_input = String::new();
                if was_connected { Action::Redraw } else { Action::Idle }
            },
            LoopEvent::Input(InputEvent::Key { code, kind }) => {
                if kind == KeyEventKind::Release {
                    Action::Idle
                } else {
                    self.handle_key(code)
                }
            },
            LoopEvent::Input(InputEvent::Resize { .. }) => Action::Redraw,
            LoopEvent::SendResult { ok } => {
                if ok {
                    self.sent();
                }
                Action::Redraw
            },
        }
    }

    /// Completes a successful submission: as `sent_model` says.
    fn sent(&mut self)
        ensures
            final(self)@ == sent_model(old(self)@),
    {
        if self.current_screen == CurrentScreen::SetUser {
            let name = self.submit_compose();
            self.set_username(name);
            self.current_screen = CurrentScreen::Main;
        } else if self.current_screen == CurrentScreen::ComposingMessage {
            self.message_input = String::new();
            self.current_screen = CurrentScreen::Main;
        }
    }
}

} // verus!
