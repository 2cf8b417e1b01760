//! Where the terminal client puts what on its screen.
//!
//! The screen is `width` columns by `height` rows. The last messages fill it
//! from the top; the row before the last holds a border, and the last row a
//! marker and the end of the line being typed. Nothing here writes to a
//! terminal: a frame is a list of places and the bytes that go there.
//!
//! Text is cut by bytes to the width of the screen. A cut inside the
//! encoding of one character cannot be drawn, so `layout` asks that every
//! cut falls between characters; `try_layout` tests it.

use crate::message::Message;
use vstd::prelude::*;
use vstd::string::{StrSliceExecFns, StringExecFns};
use vstd::utf8::{
    encode_utf8, encode_utf8_valid_utf8, is_char_boundary, is_char_boundary_start_end_of_seq,
};

verus! {

/// The characters that one column of the border is drawn with:
/// U+00E2, U+201D and U+20AC.
pub open spec fn border_unit() -> Seq<char> {
    "\u{e2}\u{201d}\u{20ac}"@
}

/// `unit`, written `times` times over.
pub open spec fn repeated(unit: Seq<char>, times: nat) -> Seq<char>
    decreases times,
{
    if times == 0 {
        Seq::empty()
    } else {
        repeated(unit, (times - 1) as nat) + unit
    }
}

/// The border of a screen that is `width` columns wide.
pub fn get_border(width: u16) -> (border: String)
    ensures
        border@ == repeated(border_unit(), width as nat),
{
    let mut border = String::new();
    let mut i: u16 = 0;
    while i < width
        invariant
            i <= width,
            border@ == repeated(border_unit(), i as nat),
        decreases width - i,
    {
        border.append("\u{e2}\u{201d}\u{20ac}");
        i = i + 1;
    }
    border
}

/// One piece of a frame: `bytes`, to be written from `column` in `row`.
#[derive(Debug, Clone, PartialEq, Eq)]
pub struct Draw {
    pub column: u16,
    pub row: u16,
    pub bytes: Vec<u8>,
}

impl View for Draw {
    type V = (u16, u16, Seq<u8>);

    open spec fn view(&self) -> (u16, u16, Seq<u8>) {
        (self.column, self.row, self.bytes@)
    }
}

/// A frame as contracts see it.
pub open spec fn draw_views(frame: Seq<Draw>) -> Seq<(u16, u16, Seq<u8>)> {
    frame.map_values(|draw: Draw| draw@)
}

/// Messages as contracts see them: `(time, content)` pairs.
pub open spec fn message_views(messages: Seq<Message>) -> Seq<(Seq<char>, Seq<char>)> {
    messages.map_values(|message: Message| message@)
}

/// How a message reads on the screen: its time in brackets, a space, and
/// what was said.
pub open spec fn line_text(message: (Seq<char>, Seq<char>)) -> Seq<char> {
    "["@ + message.0 + "] "@ + message.1
}

/// How many of `count` messages have scrolled off a screen of `height` rows,
/// two of which are not for messages.
pub open spec fn skipped(count: nat, height: u16) -> nat {
    if count <= height - 2 {
        0
    } else {
        (count - (height - 2)) as nat
    }
}

/// How many bytes of a line of `len` bytes fit in `width` columns.
pub open spec fn cut_at(len: nat, width: u16) -> nat {
    if len <= width {
        len
    } else {
        width as nat
    }
}

/// Where the shown end of a typed line of `len` bytes starts: at its first
/// byte if the line fits in `width` columns, else so that one byte less
/// than the width is shown.
pub open spec fn tail_from(len: nat, width: u16) -> nat {
    if len <= width {
        0
    } else {
        (len - width + 1) as nat
    }
}

/// The bytes of a message's line that are drawn.
pub open spec fn line_bytes(message: (Seq<char>, Seq<char>), width: u16) -> Seq<u8> {
    let bytes = encode_utf8(line_text(message));
    bytes.subrange(0, cut_at(bytes.len(), width) as int)
}

/// The bytes of the typed line that are drawn.
pub open spec fn prompt_bytes(prompt: Seq<char>, width: u16) -> Seq<u8> {
    let bytes = encode_utf8(prompt);
    bytes.subrange(tail_from(bytes.len(), width) as int, bytes.len() as int)
}

/// Whether a message's line can be cut to `width` between two characters.
pub open spec fn line_fits(message: (Seq<char>, Seq<char>), width: u16) -> bool {
    let bytes = encode_utf8(line_text(message));
    is_char_boundary(bytes, cut_at(bytes.len(), width) as int)
}

/// Whether the shown end of the typed line starts between two characters.
pub open spec fn prompt_fits(prompt: Seq<char>, width: u16) -> bool {
    let bytes = encode_utf8(prompt);
    is_char_boundary(bytes, tail_from(bytes.len(), width) as int)
}

/// Whether a frame can be laid out: the screen has its two last rows, and
/// no text that is shown is cut inside a character.
pub open spec fn drawable(
    width: u16,
    height: u16,
    messages: Seq<(Seq<char>, Seq<char>)>,
    prompt: Seq<char>,
) -> bool {
    &&& height >= 2
    &&& forall|i: int|
        skipped(messages.len(), height) <= i < messages.len() ==> line_fits(
            #[trigger] messages[i],
            width,
        )
    &&& prompt_fits(prompt, width)
}

/// The first `count` message rows of a frame: row `k` shows message
/// `skip + k`.
pub open spec fn message_rows(
    width: u16,
    messages: Seq<(Seq<char>, Seq<char>)>,
    skip: nat,
    count: nat,
) -> Seq<(u16, u16, Seq<u8>)> {
    Seq::new(count, |k: int| (0u16, k as u16, line_bytes(messages[skip + k], width)))
}

/// The frame: the messages that have not scrolled off, one per row from the
/// top; the border in the row before the last; in the last row the marker
/// `>>`, and from column 3 the end of the typed line.
pub open spec fn frame(
    width: u16,
    height: u16,
    messages: Seq<(Seq<char>, Seq<char>)>,
    prompt: Seq<char>,
) -> Seq<(u16, u16, Seq<u8>)> {
    let skip = skipped(messages.len(), height);
    message_rows(width, messages, skip, (messages.len() - skip) as nat) + seq![
        (0u16, (height - 2) as u16, encode_utf8(repeated(border_unit(), width as nat))),
        (0u16, (height - 1) as u16, encode_utf8(">>"@)),
        (3u16, (height - 1) as u16, prompt_bytes(prompt, width)),
    ]
}

/// How many of `count` messages have scrolled off.
pub fn skip_count(count: usize, height: u16) -> (skip: usize)
    requires
        height >= 2,
    ensures
        skip == skipped(count as nat, height),
{
    let rows: usize = (height - 2) as usize;
    if count <= rows {
        0
    } else {
        count - rows
    }
}

/// The number of bytes that `text` is encoded in.
fn byte_len(text: &str) -> (len: usize)
    ensures
        len == encode_utf8(text@).len(),
{
    text.as_bytes().len()
}

/// The line of a message, whole.
fn whole_line(message: &Message) -> (line: String)
    ensures
        line@ == line_text(message@),
{
    let mut line = String::from_str("[");
    line.append(message.time.as_str());
    line.append("] ");
    line.append(message.content.as_str());
    line
}

/// Whether the line of `message` can be cut to `width`.
pub fn message_fits(message: &Message, width: u16) -> (fits: bool)
    ensures
        fits == line_fits(message@, width),
{
    let line = whole_line(message);
    let text = line.as_str();
    if byte_len(text) <= width as usize {
        proof {
            encode_utf8_valid_utf8(text@);
            is_char_boundary_start_end_of_seq(encode_utf8(text@));
        }
        true
    } else {
        text.is_char_boundary(width as usize)
    }
}

/// The bytes of the line of `message` that fit in `width` columns.
pub fn message_line(message: &Message, width: u16) -> (bytes: Vec<u8>)
    requires
        line_fits(message@, width),
    ensures
        bytes@ == line_bytes(message@, width),
{
    let line = whole_line(message);
    let text = line.as_str();
    if byte_len(text) <= width as usize {
        let bytes = text.as_bytes_vec();
        assert(bytes@ =~= line_bytes(message@, width));
        bytes
    } else {
        let (head, _) = text.split_at(width as usize);
        head.as_bytes_vec()
    }
}

/// Whether the shown end of `prompt` starts between two characters.
pub fn prompt_tail_fits(prompt: &str, width: u16) -> (fits: bool)
    ensures
        fits == prompt_fits(prompt@, width),
{
    let len = byte_len(prompt);
    proof {
        encode_utf8_valid_utf8(prompt@);
        is_char_boundary_start_end_of_seq(encode_utf8(prompt@));
    }
    if len <= width as usize {
        true
    } else if width == 0 {
        assert(!is_char_boundary(encode_utf8(prompt@), len + 1));
        false
    } else {
        prompt.is_char_boundary(len - width as usize + 1)
    }
}

/// The bytes of `prompt` that are shown in `width` columns: its end.
pub fn prompt_tail(prompt: &str, width: u16) -> (bytes: Vec<u8>)
    requires
        prompt_fits(prompt@, width),
    ensures
        bytes@ == prompt_bytes(prompt@, width),
{
    let len = byte_len(prompt);
    if len <= width as usize {
        let bytes = prompt.as_bytes_vec();
        assert(bytes@ =~= prompt_bytes(prompt@, width));
        bytes
    } else {
        proof {
            encode_utf8_valid_utf8(prompt@);
            if width == 0 {
                assert(!is_char_boundary(encode_utf8(prompt@), len + 1));
            }
        }
        let (_, tail) = prompt.split_at(len - width as usize + 1);
        tail.as_bytes_vec()
    }
}

/// Whether a frame can be laid out for this screen and this text.
pub fn can_draw(width: u16, height: u16, messages: &Vec<Message>, prompt: &str) -> (ok: bool)
    ensures
        ok == drawable(width, height, message_views(messages@), prompt@),
{
    if height < 2 {
        return false;
    }
    let ghost views = message_views(messages@);
    let skip = skip_count(messages.len(), height);
    let mut i: usize = skip;
    while i < messages.len()
        invariant
            skip <= i <= messages.len(),
            skip == skipped(views.len(), height),
            views == message_views(messages@),
            forall|j: int| skip <= j < i ==> line_fits(#[trigger] views[j], width),
        decreases messages.len() - i,
    {
        if !message_fits(&messages[i], width) {
            assert(!line_fits(views[i as int], width));
            return false;
        }
        i = i + 1;
    }
    prompt_tail_fits(prompt, width)
}

/// Lays out one frame.
pub fn layout(width: u16, height: u16, messages: &Vec<Message>, prompt: &str) -> (out: Vec<Draw>)
    requires
        drawable(width, height, message_views(messages@), prompt@),
    ensures
        draw_views(out@) == frame(width, height, message_views(messages@), prompt@),
{
    let ghost views = message_views(messages@);
    let skip = skip_count(messages.len(), height);
    let mut out: Vec<Draw> = Vec::new();
    let mut row: u16 = 0;
    assert(draw_views(out@) =~= message_rows(width, views, skip as nat, 0));
    while (row as usize) < messages.len() - skip
        invariant
            height >= 2,
            skip == skipped(views.len(), height),
            skip <= messages.len(),
            views == message_views(messages@),
            row <= messages.len() - skip,
            forall|i: int| skip <= i < views.len() ==> line_fits(#[trigger] views[i], width),
            draw_views(out@) == message_rows(width, views, skip as nat, row as nat),
        decreases messages.len() - skip - row,
    {
        let ghost before = draw_views(out@);
        let message = &messages[skip + row as usize];
        assert(message@ == views[skip + row]);
        let bytes = message_line(message, width);
        out.push(Draw { column: 0, row, bytes });
        assert(draw_views(out@) =~= before.push((0u16, row, line_bytes(views[skip + row], width))));
        assert(draw_views(out@) =~= message_rows(width, views, skip as nat, (row + 1) as nat));
        row = row + 1;
    }
    let ghost rows = draw_views(out@);
    let border = get_border(width);
    out.push(Draw { column: 0, row: height - 2, bytes: border.as_str().as_bytes_vec() });
    out.push(Draw { column: 0, row: height - 1, bytes: ">>".as_bytes_vec() });
    out.push(Draw { column: 3, row: height - 1, bytes: prompt_tail(prompt, width) });
    assert(draw_views(out@) =~= frame(width, height, views, prompt@));
    out
}

/// Lays out one frame if that can be done.
///
/// Gives `None` exactly where `layout` cannot be called: for a screen of
/// fewer than two rows, and where a text would be cut inside a character.
pub fn try_layout(width: u16, height: u16, messages: &Vec<Message>, prompt: &str) -> (out: Option<
    Vec<Draw>,
>)
    ensures
        match out {
            Some(list) => drawable(width, height, message_views(messages@), prompt@)
                && draw_views(list@) == frame(width, height, message_views(messages@), prompt@),
            None => !drawable(width, height, message_views(messages@), prompt@),
        },
{
    if can_draw(width, height, messages, prompt) {
        Some(layout(width, height, messages, prompt))
    } else {
        None
    }
}

} // verus!
