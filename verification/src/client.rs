//! The terminal client, as a machine from events to commands.
//!
//! The client keeps the conversation, the line being typed and the size of
//! the screen. Each event changes them and says what to do next: draw, send
//! and draw, or leave. Reading the terminal and the connection, writing to
//! them and drawing are done by whoever runs the machine.

use crate::message::{is_clock_text, local_clock, Message};
use crate::screen::{draw_views, drawable, frame, message_views, try_layout, Draw};
use crate::text::{lossy_text, pop_char, push_char, utf8_lossy};
use vstd::prelude::*;
use vstd::string::{StrSliceExecFns, StringExecFns};
use vstd::utf8::encode_utf8;

verus! {

/// A key, as far as the client tells keys apart.
#[derive(Debug, Clone, Copy, PartialEq, Eq)]
pub enum Key {
    Enter,
    Backspace,
    /// A character key, and whether Control was held with it.
    Char { ch: char, control: bool },
    /// Any other key.
    Other,
}

/// What the terminal reports.
#[derive(Debug, Clone, Copy, PartialEq, Eq)]
pub enum TerminalEvent {
    /// The screen has this size now.
    Resize { width: u16, height: u16 },
    Key(Key),
    /// Anything else.
    Other,
}

/// What reaches the client's loop.
#[derive(Debug, Clone, PartialEq, Eq)]
pub enum AppEvent {
    /// The terminal has reported something.
    Terminal(TerminalEvent),
    /// The relay has sent this text.
    Network(String),
    /// The connection has ended, for this reason.
    NetworkError(String),
    /// The terminal can no longer be read, for this reason.
    InputError(String),
}

/// An event as contracts see it.
pub enum AppEventView {
    Terminal(TerminalEvent),
    Network(Seq<char>),
    NetworkError(Seq<char>),
    InputError(Seq<char>),
}

impl View for AppEvent {
    type V = AppEventView;

    open spec fn view(&self) -> AppEventView {
        match *self {
            AppEvent::Terminal(event) => AppEventView::Terminal(event),
            AppEvent::Network(text) => AppEventView::Network(text@),
            AppEvent::NetworkError(reason) => AppEventView::NetworkError(reason@),
            AppEvent::InputError(reason) => AppEventView::InputError(reason@),
        }
    }
}

/// What the loop is to do after an event.
#[derive(Debug, Clone, PartialEq, Eq)]
pub enum Command {
    /// Draw the screen.
    Redraw,
    /// Write these bytes to the connection, then draw the screen.
    Send(Vec<u8>),
    /// Leave the loop.
    Quit,
}

/// A command as contracts see it.
pub enum CommandView {
    Redraw,
    Send(Seq<u8>),
    Quit,
}

impl View for Command {
    type V = CommandView;

    open spec fn view(&self) -> CommandView {
        match *self {
            Command::Redraw => CommandView::Redraw,
            Command::Send(bytes) => CommandView::Send(bytes@),
            Command::Quit => CommandView::Quit,
        }
    }
}

/// What one read of the connection to the relay gave.
#[derive(Debug, Clone, PartialEq, Eq)]
pub enum StreamRead {
    /// The read returned these bytes; none means that the relay has closed
    /// the connection.
    Chunk(Vec<u8>),
    /// The read failed, for this reason.
    Failed(String),
}

/// A read of the connection as contracts see it.
pub enum StreamReadView {
    Chunk(Seq<u8>),
    Failed(Seq<char>),
}

impl View for StreamRead {
    type V = StreamReadView;

    open spec fn view(&self) -> StreamReadView {
        match *self {
            StreamRead::Chunk(bytes) => StreamReadView::Chunk(bytes@),
            StreamRead::Failed(reason) => StreamReadView::Failed(reason@),
        }
    }
}

/// The event that a read of the connection becomes, and whether it is the
/// last: text goes on; the end of the connection and a failure do not.
pub open spec fn event_of_stream(read: StreamReadView) -> (AppEventView, bool) {
    match read {
        StreamReadView::Chunk(bytes) => if bytes.len() == 0 {
            (AppEventView::NetworkError("Connection closed by server"@), true)
        } else {
            (AppEventView::Network(utf8_lossy(bytes)), false)
        },
        StreamReadView::Failed(reason) => (
            AppEventView::NetworkError("Read error: "@ + reason),
            true,
        ),
    }
}

/// Turns what a read of the connection gave into an event for the loop.
///
/// The second part of the result says whether to stop reading.
pub fn stream_event(read: StreamRead) -> (out: (AppEvent, bool))
    ensures
        (out.0@, out.1) == event_of_stream(read@),
{
    match read {
        StreamRead::Chunk(bytes) => {
            if bytes.len() == 0 {
                (AppEvent::NetworkError("Connection closed by server".to_owned()), true)
            } else {
                (AppEvent::Network(lossy_text(&bytes)), false)
            }
        },
        StreamRead::Failed(reason) => {
            let text = String::from_str("Read error: ").concat(reason.as_str());
            (AppEvent::NetworkError(text), true)
        },
    }
}

/// A read of the terminal as contracts see it.
pub open spec fn input_view(read: Result<TerminalEvent, String>) -> Result<
    TerminalEvent,
    Seq<char>,
> {
    match read {
        Ok(event) => Ok(event),
        Err(reason) => Err(reason@),
    }
}

/// The event that a read of the terminal becomes, and whether it is the
/// last: a failure is.
pub open spec fn event_of_input(read: Result<TerminalEvent, Seq<char>>) -> (AppEventView, bool) {
    match read {
        Ok(event) => (AppEventView::Terminal(event), false),
        Err(reason) => (AppEventView::InputError("Input error: "@ + reason), true),
    }
}

/// Turns what a read of the terminal gave into an event for the loop.
///
/// The second part of the result says whether to stop reading.
pub fn input_event(read: Result<TerminalEvent, String>) -> (out: (AppEvent, bool))
    ensures
        (out.0@, out.1) == event_of_input(input_view(read)),
{
    match read {
        Ok(event) => (AppEvent::Terminal(event), false),
        Err(reason) => {
            let text = String::from_str("Input error: ").concat(reason.as_str());
            (AppEvent::InputError(text), true)
        },
    }
}

/// What the client holds.
#[derive(Debug, Clone, PartialEq, Eq)]
pub struct ChatClient {
    /// The conversation so far, oldest first.
    pub messages: Vec<Message>,
    /// The line being typed.
    pub prompt: String,
    /// The columns of the screen.
    pub width: u16,
    /// The rows of the screen.
    pub height: u16,
}

/// A client as contracts see it.
pub struct ClientView {
    pub messages: Seq<(Seq<char>, Seq<char>)>,
    pub prompt: Seq<char>,
    pub width: u16,
    pub height: u16,
}

impl View for ChatClient {
    type V = ClientView;

    open spec fn view(&self) -> ClientView {
        ClientView {
            messages: message_views(self.messages@),
            prompt: self.prompt@,
            width: self.width,
            height: self.height,
        }
    }
}

/// Whether `key` is the request to leave: `c` with Control.
pub open spec fn is_quit_key(key: Key) -> bool {
    key matches Key::Char { ch, control } && ch == 'c' && control
}

/// `state` with one more message, taken at `time`.
pub open spec fn with_message(state: ClientView, time: Seq<char>, content: Seq<char>) -> ClientView {
    ClientView {
        messages: state.messages.push((time, content)),
        prompt: state.prompt,
        width: state.width,
        height: state.height,
    }
}

/// `state` with another typed line.
pub open spec fn with_prompt(state: ClientView, prompt: Seq<char>) -> ClientView {
    ClientView {
        messages: state.messages,
        prompt,
        width: state.width,
        height: state.height,
    }
}

/// The client after a key, where a message that the key makes is taken at
/// `time`.
pub open spec fn after_key(state: ClientView, key: Key, time: Seq<char>) -> ClientView {
    match key {
        Key::Enter => if state.prompt.len() == 0 {
            state
        } else {
            with_prompt(with_message(state, time, state.prompt), Seq::empty())
        },
        Key::Backspace => if state.prompt.len() == 0 {
            state
        } else {
            with_prompt(state, state.prompt.drop_last())
        },
        Key::Char { ch, control } => if is_quit_key(key) {
            state
        } else {
            with_prompt(state, state.prompt.push(ch))
        },
        Key::Other => state,
    }
}

/// The client after an event, where a message that the event makes is taken
/// at `time`.
pub open spec fn next_client(state: ClientView, event: AppEventView, time: Seq<char>) -> ClientView {
    match event {
        AppEventView::Terminal(TerminalEvent::Resize { width, height }) => ClientView {
            messages: state.messages,
            prompt: state.prompt,
            width,
            height,
        },
        AppEventView::Terminal(TerminalEvent::Key(key)) => after_key(state, key, time),
        AppEventView::Terminal(TerminalEvent::Other) => state,
        AppEventView::Network(text) => with_message(state, time, text),
        AppEventView::NetworkError(reason) => with_message(
            state,
            time,
            "Network error: "@ + reason,
        ),
        AppEventView::InputError(reason) => with_message(state, time, "Input error: "@ + reason),
    }
}

/// What the loop is to do after an event: leave on a lost connection, a
/// lost terminal and the request to leave; send the typed line on Enter,
/// if there is one; and draw in every other case.
pub open spec fn command_for(state: ClientView, event: AppEventView) -> CommandView {
    match event {
        AppEventView::Terminal(TerminalEvent::Key(key)) => if is_quit_key(key) {
            CommandView::Quit
        } else if key is Enter && state.prompt.len() > 0 {
            CommandView::Send(encode_utf8(state.prompt))
        } else {
            CommandView::Redraw
        },
        AppEventView::Terminal(_) => CommandView::Redraw,
        AppEventView::Network(_) => CommandView::Redraw,
        AppEventView::NetworkError(_) => CommandView::Quit,
        AppEventView::InputError(_) => CommandView::Quit,
    }
}

impl ChatClient {
    /// A client that has just connected, at `time`: the conversation holds
    /// the one line that says so, and nothing is typed.
    pub fn connected_at(width: u16, height: u16, time: String) -> (client: ChatClient)
        ensures
            client@ == (ClientView {
                messages: seq![(time@, "Connected to server"@)],
                prompt: Seq::empty(),
                width,
                height,
            }),
    {
        let mut messages: Vec<Message> = Vec::new();
        messages.push(Message::stamped(time, "Connected to server".to_owned()));
        let client = ChatClient { messages, prompt: String::new(), width, height };
        assert(client@.messages =~= seq![(time@, "Connected to server"@)]);
        client
    }

    /// A client that has just connected, now.
    pub fn new(width: u16, height: u16) -> (client: ChatClient)
        ensures
            client@.messages.len() == 1,
            is_clock_text(client@.messages[0].0),
            client@ == (ClientView {
                messages: seq![(client@.messages[0].0, "Connected to server"@)],
                prompt: Seq::empty(),
                width,
                height,
            }),
    {
        ChatClient::connected_at(width, height, local_clock())
    }

    /// Adds a message taken at `time`.
    fn push_message(&mut self, time: String, content: String)
        ensures
            final(self)@ == with_message(old(self)@, time@, content@),
    {
        self.messages.push(Message::stamped(time, content));
        assert(final(self)@.messages =~= old(self)@.messages.push((time@, content@)));
    }

    /// Takes a key.
    fn on_key(&mut self, key: Key, time: String) -> (command: Command)
        ensures
            final(self)@ == after_key(old(self)@, key, time@),
            command@ == command_for(
                old(self)@,
                AppEventView::Terminal(TerminalEvent::Key(key)),
            ),
    {
        match key {
            Key::Enter => {
                if self.prompt.as_str().is_empty() {
                    Command::Redraw
                } else {
                    let bytes = self.prompt.as_str().as_bytes_vec();
                    let mut line = String::new();
                    core::mem::swap(&mut self.prompt, &mut line);
                    self.push_message(time, line);
                    Command::Send(bytes)
                }
            },
            Key::Backspace => {
                let _ = pop_char(&mut self.prompt);
                Command::Redraw
            },
            Key::Char { ch, control } => {
                if ch == 'c' && control {
                    Command::Quit
                } else {
                    push_char(&mut self.prompt, ch);
                    Command::Redraw
                }
            },
            Key::Other => Command::Redraw,
        }
    }

    /// Takes an event; a message that it makes is taken at `time`.
    pub fn apply_at(&mut self, event: AppEvent, time: String) -> (command: Command)
        ensures
            final(self)@ == next_client(old(self)@, event@, time@),
            command@ == command_for(old(self)@, event@),
    {
        match event {
            AppEvent::Terminal(TerminalEvent::Resize { width, height }) => {
                self.width = width;
                self.height = height;
                Command::Redraw
            },
            AppEvent::Terminal(TerminalEvent::Key(key)) => self.on_key(key, time),
            AppEvent::Terminal(TerminalEvent::Other) => Command::Redraw,
            AppEvent::Network(text) => {
                self.push_message(time, text);
                Command::Redraw
            },
            AppEvent::NetworkError(reason) => {
                let text = String::from_str("Network error: ").concat(reason.as_str());
                self.push_message(time, text);
                Command::Quit
            },
            AppEvent::InputError(reason) => {
                let text = String::from_str("Input error: ").concat(reason.as_str());
                self.push_message(time, text);
                Command::Quit
            },
        }
    }

    /// Takes an event, now: a message that it makes gets the time of the
    /// local clock.
    pub fn apply(&mut self, event: AppEvent) -> (command: Command)
        ensures
            exists|time: Seq<char>|
                is_clock_text(time) && final(self)@ == #[trigger] next_client(
                    old(self)@,
                    event@,
                    time,
                ),
            command@ == command_for(old(self)@, event@),
    {
        let time = local_clock();
        let ghost at = time@;
        let command = self.apply_at(event, time);
        assert(final(self)@ == next_client(old(self)@, event@, at));
        command
    }

    /// The frame that shows the client, if one can be laid out.
    pub fn frame(&self) -> (out: Option<Vec<Draw>>)
        ensures
            match out {
                Some(list) => drawable(self@.width, self@.height, self@.messages, self@.prompt)
                    && draw_views(list@) == frame(
                    self@.width,
                    self@.height,
                    self@.messages,
                    self@.prompt,
                ),
                None => !drawable(self@.width, self@.height, self@.messages, self@.prompt),
            },
    {
        try_layout(self.width, self.height, &self.messages, self.prompt.as_str())
    }
}

} // verus!
