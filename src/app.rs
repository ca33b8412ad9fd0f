//! The session state of the chat client and its mutation helpers.

use vstd::prelude::*;

verus! {

/// The modal screens of the client.
#[derive(Clone, Copy, Debug, PartialEq, Eq, Structural)]
pub enum CurrentScreen {
    LoggingIn,
    Main,
    ComposingMessage,
    HelpMenu,
    SetUser,
    Exiting,
    Disconnected,
}

/// One entry of the message stream.
#[derive(Clone, Debug, PartialEq, Eq)]
pub enum MessageType {
    ChatMessage { sender: String, content: String },
    SystemMessage(String),
}

/// The whole session state, owned by the dispatch loop.
pub struct App {
    /// The compose buffer: the message being edited.
    pub message_input: String,
    pub current_screen: CurrentScreen,
    /// Every message received, in arrival order.
    pub messages: Vec<MessageType>,
    /// Lines scrolled up from the newest line of the message list.
    pub scroll_offset: usize,
    /// Lines scrolled within the compose area.
    pub compose_scroll_offset: usize,
    pub username: Option<String>,
}

/// The mathematical picture of an `App`.
pub struct AppModel {
    pub input: Seq<char>,
    pub screen: CurrentScreen,
    pub messages: Seq<MessageType>,
    pub scroll: usize,
    pub compose_scroll: usize,
    pub username: Option<Seq<char>>,
}

pub open spec fn name_view(n: Option<String>) -> Option<Seq<char>> {
    match n {
        Some(s) => Some(s@),
        None => None,
    }
}

/// The screens on which the compose buffer is edited.
pub open spec fn is_composing(s: CurrentScreen) -> bool {
    s == CurrentScreen::ComposingMessage || s == CurrentScreen::SetUser
}

impl AppModel {
    /// The compose buffer is empty on every screen that does not edit it.
    pub open spec fn wf(self) -> bool {
        !is_composing(self.screen) ==> self.input.len() == 0
    }
}

impl View for App {
    type V = AppModel;

    open spec fn view(&self) -> AppModel {
        AppModel {
            input: self.message_input@,
            screen: self.current_screen,
            messages: self.messages@,
            scroll: self.scroll_offset,
            compose_scroll: self.compose_scroll_offset,
            username: name_view(self.username),
        }
    }
}

pub open spec fn sat_inc(n: usize) -> usize {
    if n == usize::MAX { n } else { (n + 1) as usize }
}

pub open spec fn sat_dec(n: usize) -> usize {
    if n == 0 { 0 } else { (n - 1) as usize }
}

/// The model after one inbound message.
pub open spec fn receive_model(m: AppModel, msg: MessageType) -> AppModel {
    AppModel { messages: m.messages.push(msg), scroll: 0, ..m }
}

/// Relies on String::push: the character is appended at the end.
#[verifier::external_body]
pub(crate) fn push_char(s: &mut String, c: char)
    ensures
        final(s)@ == old(s)@.push(c),
{
    s.push(c)
}

/// Relies on String::pop: the last character is removed and returned.
#[verifier::external_body]
pub(crate) fn pop_char(s: &mut String) -> (r: Option<char>)
    ensures
        old(s)@.len() == 0 ==> r == None::<char> && final(s)@ == old(s)@,
        old(s)@.len() > 0 ==> r == Some(old(s)@.last()) && final(s)@ == old(s)@.drop_last(),
{
    s.pop()
}

impl App {
    /// A fresh session: no messages, no username, empty buffer, main screen.
    pub fn new() -> (r: App)
        ensures
            r@.input.len() == 0,
            r@.screen == CurrentScreen::Main,
            r@.messages.len() == 0,
            r@.scroll == 0,
            r@.compose_scroll == 0,
            r@.username == None::<Seq<char>>,
            r@.wf(),
    {
        App {
            message_input: String::new(),
            current_screen: CurrentScreen::Main,
            messages: Vec::new(),
            scroll_offset: 0,
            compose_scroll_offset: 0,
            username: None,
        }
    }

    /// Appends an inbound message and scrolls back to the newest line.
    pub fn handle_websocket_message(&mut self, message: MessageType)
        ensures
            final(self)@ == receive_model(old(self)@, message),
    {
        self.messages.push(message);
        self.scroll_offset = 0;
    }

    /// Scrolls the message list up by one line, saturating.
    pub fn scroll_up(&mut self)
        ensures
            final(self)@ == (AppModel { scroll: sat_inc(old(self)@.scroll), ..old(self)@ }),
    {
        self.scroll_offset = self.scroll_offset.saturating_add(1);
    }

    /// Scrolls the message list down by one line, stopping at the newest line.
    pub fn scroll_down(&mut self)
        ensures
            final(self)@ == (AppModel { scroll: sat_dec(old(self)@.scroll), ..old(self)@ }),
    {
        self.scroll_offset = self.scroll_offset.saturating_sub(1);
    }

    /// Records the chosen username.
    pub fn set_username(&mut self, name: String)
        ensures
            final(self)@ == (AppModel { username: Some(name@), ..old(self)@ }),
    {
        self.username = Some(name);
    }

    /// Takes the compose buffer's text, leaving the buffer empty.
    pub fn submit_compose(&mut self) -> (r: String)
        ensures
            r@ == old(self)@.input,
            final(self)@ == (AppModel { input: Seq::empty(), ..old(self)@ }),
    {
        let mut out = String::new();
        std::mem::swap(&mut out, &mut self.message_input);
        out
    }

    /// Appends a character to the compose buffer.
    pub fn push_input(&mut self, c: char)
        ensures
            final(self)@ == (AppModel { input: old(self)@.input.push(c), ..old(self)@ }),
    {
        push_char(&mut self.message_input, c);
    }

    /// Removes the last character of the compose buffer, if any.
    pub fn pop_input(&mut self)
        ensures
            final(self)@ == (AppModel {
                input: if old(self)@.input.len() == 0 {
                    old(self)@.input
                } else {
                    old(self)@.input.drop_last()
                },
                ..old(self)@
            }),
    {
        let _ = pop_char(&mut self.message_input);
    }
}

} // verus!
