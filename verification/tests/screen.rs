use chat_relay::message::Message;
use chat_relay::screen::{
    can_draw, get_border, layout, message_fits, message_line, prompt_tail, prompt_tail_fits,
    skip_count, try_layout, Draw,
};

fn line(time: &str, content: &str) -> Message {
    Message::stamped(time.to_string(), content.to_string())
}

fn draw(column: u16, row: u16, text: &str) -> Draw {
    Draw { column, row, bytes: text.as_bytes().to_vec() }
}

const UNIT: &str = "\u{e2}\u{201d}\u{20ac}";

#[test]
fn border_repeats_its_unit_once_per_column() {
    assert_eq!(get_border(0), "");
    assert_eq!(get_border(1), UNIT);
    assert_eq!(get_border(3), UNIT.repeat(3));
    assert_eq!(get_border(80), UNIT.repeat(80));
    assert_eq!(get_border(80).chars().count(), 240);
    assert_eq!(get_border(2).as_bytes(), b"\xc3\xa2\xe2\x80\x9d\xe2\x82\xac\xc3\xa2\xe2\x80\x9d\xe2\x82\xac");
}

#[test]
fn skip_count_keeps_two_rows_free() {
    assert_eq!(skip_count(0, 2), 0);
    assert_eq!(skip_count(3, 2), 3);
    assert_eq!(skip_count(5, 10), 0);
    assert_eq!(skip_count(8, 10), 0);
    assert_eq!(skip_count(9, 10), 1);
    assert_eq!(skip_count(100, 24), 78);
    assert_eq!(skip_count(65533, 65535), 0);
    assert_eq!(skip_count(65534, 65535), 1);
}

#[test]
fn message_line_is_cut_to_the_width() {
    let message = line("12:30", "hello");
    assert_eq!(message_line(&message, 80), b"[12:30] hello".to_vec());
    assert_eq!(message_line(&message, 13), b"[12:30] hello".to_vec());
    assert_eq!(message_line(&message, 12), b"[12:30] hell".to_vec());
    assert_eq!(message_line(&message, 5), b"[12:3".to_vec());
    assert_eq!(message_line(&message, 0), Vec::<u8>::new());
    assert_eq!(message_line(&line("", ""), 80), b"[] ".to_vec());
}

#[test]
fn message_line_is_cut_by_bytes_between_characters() {
    let message = line("09:05", "\u{e9}t\u{e9}");
    assert!(message_fits(&message, 80));
    assert!(message_fits(&message, 8));
    assert!(!message_fits(&message, 9));
    assert!(message_fits(&message, 10));
    assert!(message_fits(&message, 11));
    assert!(!message_fits(&message, 12));
    assert!(message_fits(&message, 13));
    assert_eq!(message_line(&message, 8), b"[09:05] ".to_vec());
    assert_eq!(message_line(&message, 10), "[09:05] \u{e9}".as_bytes().to_vec());
    assert_eq!(message_line(&message, 13), "[09:05] \u{e9}t\u{e9}".as_bytes().to_vec());
}

#[test]
fn prompt_tail_shows_the_end_of_a_long_line() {
    assert_eq!(prompt_tail("hello", 10), b"hello".to_vec());
    assert_eq!(prompt_tail("hello", 5), b"hello".to_vec());
    assert_eq!(prompt_tail("hello", 4), b"llo".to_vec());
    assert_eq!(prompt_tail("hello", 2), b"o".to_vec());
    assert_eq!(prompt_tail("hello", 1), Vec::<u8>::new());
    assert_eq!(prompt_tail("", 0), Vec::<u8>::new());
    assert_eq!(prompt_tail("", 7), Vec::<u8>::new());
}

#[test]
fn prompt_tail_fits_between_characters_only() {
    assert!(!prompt_tail_fits("hello", 0));
    assert!(prompt_tail_fits("", 0));
    assert!(prompt_tail_fits("hello", 1));
    assert!(prompt_tail_fits("hello", 3));
    // five bytes: a, two for e-acute, b, c
    let text = "a\u{e9}bc";
    assert!(prompt_tail_fits(text, 5));
    assert!(!prompt_tail_fits(text, 4));
    assert!(prompt_tail_fits(text, 3));
    assert_eq!(prompt_tail(text, 3), b"bc".to_vec());
    assert!(prompt_tail_fits(text, 2));
    assert_eq!(prompt_tail(text, 2), b"c".to_vec());
}

#[test]
fn frame_of_a_small_screen() {
    let messages = vec![line("10:00", "one"), line("10:01", "two"), line("10:02", "three")];
    let frame = layout(20, 4, &messages, "typing");
    assert_eq!(
        frame,
        vec![
            draw(0, 0, "[10:01] two"),
            draw(0, 1, "[10:02] three"),
            draw(0, 2, &UNIT.repeat(20)),
            draw(0, 3, ">>"),
            draw(3, 3, "typing"),
        ]
    );
}

#[test]
fn frame_with_room_to_spare() {
    let messages = vec![line("10:00", "one")];
    let frame = layout(10, 24, &messages, "");
    assert_eq!(
        frame,
        vec![
            draw(0, 0, "[10:00] on"),
            draw(0, 22, &UNIT.repeat(10)),
            draw(0, 23, ">>"),
            draw(3, 23, ""),
        ]
    );
}

#[test]
fn frame_of_two_rows_shows_no_message() {
    let messages = vec![line("10:00", "one"), line("10:01", "two")];
    let frame = layout(8, 2, &messages, "a long line");
    assert_eq!(frame, vec![draw(0, 0, &UNIT.repeat(8)), draw(0, 1, ">>"), draw(3, 1, "ng line")]);
}

#[test]
fn frame_without_messages() {
    let frame = layout(4, 3, &Vec::new(), "hi");
    assert_eq!(frame, vec![draw(0, 1, &UNIT.repeat(4)), draw(0, 2, ">>"), draw(3, 2, "hi")]);
}

#[test]
fn no_frame_for_a_screen_of_fewer_than_two_rows() {
    let messages = vec![line("10:00", "one")];
    assert!(!can_draw(80, 1, &messages, ""));
    assert!(!can_draw(80, 0, &messages, ""));
    assert_eq!(try_layout(80, 1, &messages, ""), None);
    assert_eq!(try_layout(80, 0, &Vec::new(), ""), None);
    assert!(can_draw(80, 2, &messages, ""));
}

#[test]
fn no_frame_where_a_character_would_be_cut() {
    let messages = vec![line("10:00", "caf\u{e9}")];
    // "[10:00] caf" is 11 bytes, the accented letter takes bytes 11 and 12
    assert!(can_draw(11, 5, &messages, ""));
    assert!(!can_draw(12, 5, &messages, ""));
    assert!(can_draw(13, 5, &messages, ""));
    assert_eq!(try_layout(12, 5, &messages, ""), None);
    assert!(can_draw(80, 5, &messages, "\u{e9}\u{e9}\u{e9}"));
    assert!(!can_draw(4, 5, &Vec::new(), "\u{e9}\u{e9}\u{e9}"));
    assert_eq!(try_layout(4, 5, &Vec::new(), "\u{e9}\u{e9}\u{e9}"), None);
    assert!(can_draw(5, 5, &Vec::new(), "\u{e9}\u{e9}\u{e9}"));
}

#[test]
fn message_that_has_scrolled_off_is_not_looked_at() {
    let messages = vec![line("10:00", "caf\u{e9}"), line("10:01", "ok")];
    assert!(!can_draw(12, 4, &messages, ""));
    assert!(can_draw(12, 3, &messages, ""));
    assert_eq!(
        try_layout(12, 3, &messages, ""),
        Some(vec![
            draw(0, 0, "[10:01] ok"),
            draw(0, 1, &UNIT.repeat(12)),
            draw(0, 2, ">>"),
            draw(3, 2, ""),
        ])
    );
}

#[test]
fn try_layout_agrees_with_layout() {
    let messages = vec![line("23:59", "late"), line("00:00", "early")];
    assert_eq!(try_layout(9, 10, &messages, "abc"), Some(layout(9, 10, &messages, "abc")));
    assert!(can_draw(9, 10, &messages, "abc"));
}
