use chat_relay::client::{
    input_event, stream_event, AppEvent, ChatClient, Command, Key, StreamRead, TerminalEvent,
};
use chat_relay::message::Message;
use chat_relay::screen::Draw;

fn key(key: Key) -> AppEvent {
    AppEvent::Terminal(TerminalEvent::Key(key))
}

fn typed(ch: char) -> AppEvent {
    key(Key::Char { ch, control: false })
}

fn at(time: &str) -> String {
    time.to_string()
}

fn said(time: &str, content: &str) -> Message {
    Message::stamped(time.to_string(), content.to_string())
}

fn is_clock(text: &str) -> bool {
    let b = text.as_bytes();
    b.len() == 5
        && b[0].is_ascii_digit()
        && b[1].is_ascii_digit()
        && b[2] == b':'
        && b[3].is_ascii_digit()
        && b[4].is_ascii_digit()
        && (b[0] - b'0') * 10 + (b[1] - b'0') <= 23
        && (b[3] - b'0') * 10 + (b[4] - b'0') <= 59
}

#[test]
fn client_starts_with_one_line() {
    let client = ChatClient::connected_at(80, 24, at("08:15"));
    assert_eq!(client.messages, vec![said("08:15", "Connected to server")]);
    assert_eq!(client.prompt, "");
    assert_eq!((client.width, client.height), (80, 24));
}

#[test]
fn client_started_now_has_the_time_of_the_clock() {
    let client = ChatClient::new(80, 24);
    assert_eq!(client.messages.len(), 1);
    assert_eq!(client.messages[0].content, "Connected to server");
    assert!(is_clock(&client.messages[0].time));
    assert_eq!(client.prompt, "");
    assert_eq!((client.width, client.height), (80, 24));
}

#[test]
fn message_taken_now_has_the_time_of_the_clock() {
    let message = Message::new("hello".to_string());
    assert_eq!(message.content, "hello");
    assert!(is_clock(&message.time));
    assert_eq!(said("07:00", "x"), Message { time: at("07:00"), content: "x".to_string() });
}

#[test]
fn characters_are_typed_into_the_prompt() {
    let mut client = ChatClient::connected_at(80, 24, at("08:15"));
    assert_eq!(client.apply_at(typed('h'), at("08:16")), Command::Redraw);
    assert_eq!(client.apply_at(typed('i'), at("08:16")), Command::Redraw);
    assert_eq!(client.apply_at(typed('\u{e9}'), at("08:16")), Command::Redraw);
    assert_eq!(client.prompt, "hi\u{e9}");
    assert_eq!(client.messages.len(), 1);
}

#[test]
fn backspace_takes_the_last_character() {
    let mut client = ChatClient::connected_at(80, 24, at("08:15"));
    client.apply_at(typed('a'), at("08:16"));
    client.apply_at(typed('\u{20ac}'), at("08:16"));
    assert_eq!(client.apply_at(key(Key::Backspace), at("08:16")), Command::Redraw);
    assert_eq!(client.prompt, "a");
    assert_eq!(client.apply_at(key(Key::Backspace), at("08:16")), Command::Redraw);
    assert_eq!(client.prompt, "");
    assert_eq!(client.apply_at(key(Key::Backspace), at("08:16")), Command::Redraw);
    assert_eq!(client.prompt, "");
}

#[test]
fn enter_sends_the_typed_line() {
    let mut client = ChatClient::connected_at(80, 24, at("08:15"));
    client.apply_at(typed('h'), at("08:16"));
    client.apply_at(typed('i'), at("08:16"));
    assert_eq!(client.apply_at(key(Key::Enter), at("08:17")), Command::Send(b"hi".to_vec()));
    assert_eq!(client.prompt, "");
    assert_eq!(client.messages, vec![said("08:15", "Connected to server"), said("08:17", "hi")]);
}

#[test]
fn enter_on_an_empty_line_sends_nothing() {
    let mut client = ChatClient::connected_at(80, 24, at("08:15"));
    assert_eq!(client.apply_at(key(Key::Enter), at("08:17")), Command::Redraw);
    assert_eq!(client.messages.len(), 1);
    assert_eq!(client.prompt, "");
}

#[test]
fn control_c_leaves() {
    let mut client = ChatClient::connected_at(80, 24, at("08:15"));
    client.apply_at(typed('x'), at("08:16"));
    let quit = key(Key::Char { ch: 'c', control: true });
    assert_eq!(client.apply_at(quit, at("08:16")), Command::Quit);
    assert_eq!(client.prompt, "x");
    assert_eq!(client.messages.len(), 1);
}

#[test]
fn other_characters_with_control_are_typed() {
    let mut client = ChatClient::connected_at(80, 24, at("08:15"));
    assert_eq!(
        client.apply_at(key(Key::Char { ch: 'x', control: true }), at("08:16")),
        Command::Redraw
    );
    assert_eq!(client.apply_at(typed('c'), at("08:16")), Command::Redraw);
    assert_eq!(
        client.apply_at(key(Key::Char { ch: 'C', control: true }), at("08:16")),
        Command::Redraw
    );
    assert_eq!(client.prompt, "xcC");
}

#[test]
fn other_keys_and_events_only_redraw() {
    let mut client = ChatClient::connected_at(80, 24, at("08:15"));
    client.apply_at(typed('x'), at("08:16"));
    assert_eq!(client.apply_at(key(Key::Other), at("08:16")), Command::Redraw);
    assert_eq!(
        client.apply_at(AppEvent::Terminal(TerminalEvent::Other), at("08:16")),
        Command::Redraw
    );
    assert_eq!(client.prompt, "x");
    assert_eq!(client.messages.len(), 1);
    assert_eq!((client.width, client.height), (80, 24));
}

#[test]
fn resize_changes_the_screen() {
    let mut client = ChatClient::connected_at(80, 24, at("08:15"));
    let resize = AppEvent::Terminal(TerminalEvent::Resize { width: 120, height: 40 });
    assert_eq!(client.apply_at(resize, at("08:16")), Command::Redraw);
    assert_eq!((client.width, client.height), (120, 40));
    assert_eq!(client.messages.len(), 1);
}

#[test]
fn text_from_the_relay_joins_the_conversation() {
    let mut client = ChatClient::connected_at(80, 24, at("08:15"));
    let event = AppEvent::Network("127.0.0.1:5000: hello".to_string());
    assert_eq!(client.apply_at(event, at("08:20")), Command::Redraw);
    assert_eq!(
        client.messages,
        vec![said("08:15", "Connected to server"), said("08:20", "127.0.0.1:5000: hello")]
    );
}

#[test]
fn lost_connection_is_noted_and_ends_the_loop() {
    let mut client = ChatClient::connected_at(80, 24, at("08:15"));
    let event = AppEvent::NetworkError("Connection closed by server".to_string());
    assert_eq!(client.apply_at(event, at("08:21")), Command::Quit);
    assert_eq!(
        client.messages[1],
        said("08:21", "Network error: Connection closed by server")
    );
}

#[test]
fn lost_terminal_is_noted_and_ends_the_loop() {
    let mut client = ChatClient::connected_at(80, 24, at("08:15"));
    let event = AppEvent::InputError("Input error: gone".to_string());
    assert_eq!(client.apply_at(event, at("08:22")), Command::Quit);
    assert_eq!(client.messages[1], said("08:22", "Input error: Input error: gone"));
}

#[test]
fn apply_stamps_with_the_clock() {
    let mut client = ChatClient::connected_at(80, 24, at("08:15"));
    assert_eq!(client.apply(typed('o')), Command::Redraw);
    assert_eq!(client.apply(typed('k')), Command::Redraw);
    assert_eq!(client.apply(key(Key::Enter)), Command::Send(b"ok".to_vec()));
    assert_eq!(client.apply(AppEvent::Network("B: hi".to_string())), Command::Redraw);
    assert_eq!(client.messages.len(), 3);
    assert_eq!(client.messages[1].content, "ok");
    assert_eq!(client.messages[2].content, "B: hi");
    assert!(is_clock(&client.messages[1].time));
    assert!(is_clock(&client.messages[2].time));
    assert_eq!(client.prompt, "");
    assert_eq!(client.apply(key(Key::Char { ch: 'c', control: true })), Command::Quit);
}

#[test]
fn frame_shows_the_client() {
    let mut client = ChatClient::connected_at(30, 4, at("08:15"));
    client.apply_at(AppEvent::Network("A: one".to_string()), at("08:16"));
    client.apply_at(AppEvent::Network("A: two".to_string()), at("08:17"));
    client.apply_at(typed('y'), at("08:17"));
    let unit = "\u{e2}\u{201d}\u{20ac}";
    assert_eq!(
        client.frame(),
        Some(vec![
            Draw { column: 0, row: 0, bytes: b"[08:16] A: one".to_vec() },
            Draw { column: 0, row: 1, bytes: b"[08:17] A: two".to_vec() },
            Draw { column: 0, row: 2, bytes: unit.repeat(30).into_bytes() },
            Draw { column: 0, row: 3, bytes: b">>".to_vec() },
            Draw { column: 3, row: 3, bytes: b"y".to_vec() },
        ])
    );
    client.apply_at(AppEvent::Terminal(TerminalEvent::Resize { width: 30, height: 1 }), at("08:18"));
    assert_eq!(client.frame(), None);
}

#[test]
fn stream_text_goes_on() {
    match stream_event(StreamRead::Chunk(b"A: hello".to_vec())) {
        (AppEvent::Network(text), stop) => {
            assert_eq!(text, "A: hello");
            assert!(!stop);
        }
        _ => panic!("bytes from the relay are text"),
    }
}

#[test]
fn stream_text_replaces_what_is_not_text() {
    match stream_event(StreamRead::Chunk(vec![b'a', 0xff, b'b'])) {
        (AppEvent::Network(text), stop) => {
            assert_eq!(text, "a\u{fffd}b");
            assert!(!stop);
        }
        _ => panic!("bytes from the relay are text"),
    }
}

#[test]
fn stream_end_is_an_error_and_the_last_event() {
    match stream_event(StreamRead::Chunk(vec![])) {
        (AppEvent::NetworkError(reason), stop) => {
            assert_eq!(reason, "Connection closed by server");
            assert!(stop);
        }
        _ => panic!("no bytes means the relay has closed the connection"),
    }
}

#[test]
fn stream_failure_is_an_error_and_the_last_event() {
    match stream_event(StreamRead::Failed("connection reset".to_string())) {
        (AppEvent::NetworkError(reason), stop) => {
            assert_eq!(reason, "Read error: connection reset");
            assert!(stop);
        }
        _ => panic!("a failed read is an error"),
    }
}

#[test]
fn input_goes_on_until_it_fails() {
    match input_event(Ok(TerminalEvent::Resize { width: 3, height: 4 })) {
        (AppEvent::Terminal(TerminalEvent::Resize { width, height }), stop) => {
            assert_eq!((width, height), (3, 4));
            assert!(!stop);
        }
        _ => panic!("what the terminal reports is passed on"),
    }
    match input_event(Ok(TerminalEvent::Key(Key::Enter))) {
        (AppEvent::Terminal(TerminalEvent::Key(Key::Enter)), false) => {}
        _ => panic!("a key is passed on"),
    }
    match input_event(Err("broken pipe".to_string())) {
        (AppEvent::InputError(reason), stop) => {
            assert_eq!(reason, "Input error: broken pipe");
            assert!(stop);
        }
        _ => panic!("a failed read of the terminal is an error"),
    }
}
