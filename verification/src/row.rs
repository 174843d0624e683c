//! The text of one row: offset, hexadecimal columns and ASCII column.
//!
//! A row of width `w` that shows the bytes `chunk` from byte offset `o` reads
//!
//! ```text
//! <o in hex, 8 digits or more>  <w hex columns>  |<w ASCII columns>|
//! ```
//!
//! Columns past the end of `chunk` are blank, neighbouring hex columns are
//! parted by one space, and the column `w / 2` is preceded by one space more.

use vstd::prelude::*;
use crate::hex::{
    digit_char, digit_value, lemma_digit_value, lemma_upper_hex_byte, lemma_upper_hex_shape,
    push_upper_hex, upper_hex,
};

verus! {

/// The bytes shown as themselves in the ASCII column: the space and the
/// graphic characters of ASCII.
pub open spec fn is_printable(byte: u8) -> bool {
    0x20 <= byte <= 0x7e
}

/// What the ASCII column shows for a byte.
pub open spec fn printable_char(byte: u8) -> char {
    if is_printable(byte) {
        byte as char
    } else {
        '.'
    }
}

/// The two characters of a hex column: the byte at `idx`, or blanks past the
/// end of `chunk`.
pub open spec fn hex_pair(chunk: Seq<u8>, idx: int) -> Seq<char> {
    if 0 <= idx < chunk.len() {
        upper_hex(chunk[idx] as nat, 2)
    } else {
        seq![' ', ' ']
    }
}

/// Hex column `idx` with what parts it from its neighbours: one space more
/// before the column `width / 2`, one space after every column but the last.
pub open spec fn hex_cell(chunk: Seq<u8>, width: nat, idx: int) -> Seq<char> {
    let gap = if idx == width / 2 { seq![' '] } else { Seq::<char>::empty() };
    let sep = if idx + 1 != width { seq![' '] } else { Seq::<char>::empty() };
    gap + hex_pair(chunk, idx) + sep
}

/// The first `n` hex columns of a row of `width` columns.
pub open spec fn hex_block(chunk: Seq<u8>, width: nat, n: nat) -> Seq<char>
    decreases n,
{
    if n == 0 {
        Seq::<char>::empty()
    } else {
        hex_block(chunk, width, (n - 1) as nat) + hex_cell(chunk, width, n - 1)
    }
}

/// ASCII column `idx`: the byte's character, or a blank past the end of `chunk`.
pub open spec fn ascii_cell(chunk: Seq<u8>, idx: int) -> char {
    if 0 <= idx < chunk.len() {
        printable_char(chunk[idx])
    } else {
        ' '
    }
}

/// The first `n` ASCII columns of a row.
pub open spec fn ascii_block(chunk: Seq<u8>, n: nat) -> Seq<char> {
    Seq::new(n, |idx: int| ascii_cell(chunk, idx))
}

/// The whole text of the row of `width` columns that shows `chunk` from
/// byte offset `offset`.
pub open spec fn row_text(offset: nat, chunk: Seq<u8>, width: nat) -> Seq<char> {
    upper_hex(offset, 8) + seq![' ', ' '] + hex_block(chunk, width, width) + seq![' ', ' ', '|']
        + ascii_block(chunk, width) + seq!['|']
}

/// Where hex column `idx` starts within the hex columns of a row.
pub open spec fn hex_column_start(width: nat, idx: nat) -> nat {
    if idx >= width / 2 {
        3 * idx + 1
    } else {
        3 * idx
    }
}

/// How many characters the first `n` hex columns take.
pub open spec fn hex_block_len(width: nat, n: nat) -> nat {
    if n == 0 {
        0
    } else if n == width {
        (3 * n) as nat
    } else if n > width / 2 {
        3 * n + 1
    } else {
        3 * n
    }
}

/// The byte read back from hex column `idx` of a row's text. The columns are
/// found from the end of the text, which the offset's length does not move.
pub open spec fn parsed_hex_byte(text: Seq<char>, width: nat, idx: nat) -> nat {
    let at: int = text.len() - 4 * width - 4 + hex_column_start(width, idx);
    16 * digit_value(text[at]) + digit_value(text[at + 1])
}

/// The character in ASCII column `idx` of a row's text.
pub open spec fn parsed_ascii_char(text: Seq<char>, width: nat, idx: nat) -> char {
    text[text.len() - width - 1 + idx]
}

/// The bytes read back from the first `count` hex columns of a row's text.
pub open spec fn parsed_hex_bytes(text: Seq<char>, width: nat, count: nat) -> Seq<nat> {
    Seq::new(count, |idx: int| parsed_hex_byte(text, width, idx as nat))
}

/// A character that a terminal prints as itself: the space or a graphic
/// character of ASCII.
pub open spec fn is_text_char(c: char) -> bool {
    ' ' <= c <= '~'
}

/// The first `n` hex columns take `hex_block_len` characters.
pub proof fn lemma_hex_block_len(chunk: Seq<u8>, width: nat, n: nat)
    requires
        n <= width,
    ensures
        hex_block(chunk, width, n).len() == hex_block_len(width, n),
    decreases n,
{
    if n > 0 {
        lemma_hex_block_len(chunk, width, (n - 1) as nat);
        if n - 1 < chunk.len() {
            lemma_upper_hex_byte(chunk[n - 1]);
        }
    }
}

/// Within the first `n` hex columns, column `idx` holds its two characters at
/// `hex_column_start`.
pub proof fn lemma_hex_block_column(chunk: Seq<u8>, width: nat, n: nat, idx: nat)
    requires
        idx < n <= width,
    ensures
        hex_column_start(width, idx) + 2 <= hex_block(chunk, width, n).len(),
        hex_block(chunk, width, n).subrange(
            hex_column_start(width, idx) as int,
            hex_column_start(width, idx) as int + 2,
        ) =~= hex_pair(chunk, idx as int),
    decreases n,
{
    lemma_hex_block_len(chunk, width, (n - 1) as nat);
    lemma_hex_block_len(chunk, width, n);
    if n - 1 < chunk.len() {
        lemma_upper_hex_byte(chunk[n - 1]);
    }
    if idx + 1 < n {
        lemma_hex_block_column(chunk, width, (n - 1) as nat, idx);
    }
}

/// A row's text is as long as its offset and `4 * width + 6` characters more.
pub proof fn lemma_row_text_len(offset: nat, chunk: Seq<u8>, width: nat)
    ensures
        row_text(offset, chunk, width).len() == upper_hex(offset, 8).len() + 4 * width + 6,
        upper_hex(offset, 8).len() >= 8,
{
    lemma_hex_block_len(chunk, width, width);
    lemma_upper_hex_shape(offset, 8);
}

/// Column by column: the hex column of a byte reads back as that byte and its
/// ASCII column shows the byte's character; a column past the end of `chunk`
/// is blank in both.
pub proof fn lemma_row_column(offset: nat, chunk: Seq<u8>, width: nat, idx: nat)
    requires
        idx < width,
    ensures
        ({
            let text = row_text(offset, chunk, width);
            let at: int = text.len() - 4 * width - 4 + hex_column_start(width, idx);
            &&& 0 <= at && at + 1 < text.len()
            &&& text.subrange(at, at + 2) =~= hex_pair(chunk, idx as int)
            &&& parsed_ascii_char(text, width, idx) == ascii_cell(chunk, idx as int)
            &&& idx < chunk.len() ==> parsed_hex_byte(text, width, idx) == chunk[idx as int]
        }),
{
    let text = row_text(offset, chunk, width);
    let head = upper_hex(offset, 8) + seq![' ', ' '];
    let block = hex_block(chunk, width, width);
    let at: int = text.len() - 4 * width - 4 + hex_column_start(width, idx);
    lemma_row_text_len(offset, chunk, width);
    lemma_hex_block_len(chunk, width, width);
    lemma_hex_block_column(chunk, width, width, idx);
    let start: int = hex_column_start(width, idx) as int;
    assert(at == head.len() + start);
    assert(text.subrange(at, at + 2) =~= block.subrange(start, start + 2));
    assert(text[at] == block.subrange(start, start + 2)[0]);
    assert(text[at + 1] == block.subrange(start, start + 2)[1]);
    if idx < chunk.len() {
        let byte: u8 = chunk[idx as int];
        lemma_upper_hex_byte(byte);
        lemma_digit_value(byte as nat / 16);
        lemma_digit_value(byte as nat % 16);
    }
}

/// Reading a row back. The hex columns of a formatted row, parsed, are the
/// row's bytes. The ASCII column of every printable byte is that byte, and of
/// every other byte a dot.
pub proof fn lemma_row_round_trip(offset: nat, chunk: Seq<u8>, width: nat)
    requires
        chunk.len() <= width,
    ensures
        parsed_hex_bytes(row_text(offset, chunk, width), width, chunk.len()) =~= chunk.map_values(
            |byte: u8| byte as nat,
        ),
        forall|idx: nat|
            idx < chunk.len() && is_printable(chunk[idx as int]) ==> #[trigger] parsed_ascii_char(
                row_text(offset, chunk, width),
                width,
                idx,
            ) as nat == chunk[idx as int],
        forall|idx: nat|
            idx < chunk.len() && !is_printable(chunk[idx as int]) ==> #[trigger] parsed_ascii_char(
                row_text(offset, chunk, width),
                width,
                idx,
            ) == '.',
{
    let text = row_text(offset, chunk, width);
    assert forall|idx: nat| idx < chunk.len() implies #[trigger] parsed_hex_byte(text, width, idx)
        == chunk[idx as int] && parsed_ascii_char(text, width, idx) == printable_char(
        chunk[idx as int],
    ) by {
        lemma_row_column(offset, chunk, width, idx);
    }
}

/// A row's text holds nothing but spaces and graphic characters of ASCII: no
/// line break and no control character.
pub proof fn lemma_row_text_chars(offset: nat, chunk: Seq<u8>, width: nat)
    ensures
        forall|i: int|
            0 <= i < row_text(offset, chunk, width).len() ==> is_text_char(
                #[trigger] row_text(offset, chunk, width)[i],
            ),
{
    lemma_upper_hex_shape(offset, 8);
    lemma_hex_block_chars(chunk, width, width);
}

/// The hex columns hold nothing but spaces and digits.
proof fn lemma_hex_block_chars(chunk: Seq<u8>, width: nat, n: nat)
    ensures
        forall|i: int|
            0 <= i < hex_block(chunk, width, n).len() ==> is_text_char(
                #[trigger] hex_block(chunk, width, n)[i],
            ),
    decreases n,
{
    if n > 0 {
        let before = hex_block(chunk, width, (n - 1) as nat);
        let cell = hex_cell(chunk, width, n - 1);
        lemma_hex_block_chars(chunk, width, (n - 1) as nat);
        assert forall|j: int| 0 <= j < cell.len() implies is_text_char(#[trigger] cell[j]) by {
            if n - 1 < chunk.len() {
                lemma_upper_hex_byte(chunk[n - 1]);
                lemma_digit_value(chunk[n - 1] as nat / 16);
                lemma_digit_value(chunk[n - 1] as nat % 16);
            }
        }
        assert forall|i: int| 0 <= i < (before + cell).len() implies is_text_char(
            #[trigger] (before + cell)[i],
        ) by {
            if i >= before.len() {
                assert((before + cell)[i] == cell[i - before.len()]);
            }
        }
    }
}

/// What the ASCII column shows for `byte`.
pub fn printable(byte: u8) -> (c: char)
    ensures
        c == printable_char(byte),
{
    if 0x20 <= byte && byte <= 0x7e {
        byte as char
    } else {
        '.'
    }
}

/// Formats one row: `chunk` shown from byte offset `offset` in `width` columns.
pub fn format_line(offset: usize, chunk: &[u8], width: usize) -> (text: String)
    ensures
        text@ == row_text(offset as nat, chunk@, width as nat),
{
    let mut out = String::new();
    push_upper_hex(&mut out, offset, 8);
    out.push(' ');
    out.push(' ');
    let ghost head = out@;
    assert(head =~= upper_hex(offset as nat, 8) + seq![' ', ' ']);

    let mut idx: usize = 0;
    while idx < width
        invariant
            idx <= width,
            out@ == head + hex_block(chunk@, width as nat, idx as nat),
        decreases width - idx,
    {
        let ghost before = out@;
        if idx == width / 2 {
            out.push(' ');
        }
        if idx < chunk.len() {
            push_upper_hex(&mut out, chunk[idx] as usize, 2);
        } else {
            out.push(' ');
            out.push(' ');
        }
        if idx + 1 != width {
            out.push(' ');
        }
        assert(out@ =~= before + hex_cell(chunk@, width as nat, idx as int));
        idx += 1;
        assert(out@ =~= head + hex_block(chunk@, width as nat, idx as nat));
    }
    out.push(' ');
    out.push(' ');
    out.push('|');
    let ghost middle = out@;
    assert(middle =~= head + hex_block(chunk@, width as nat, width as nat) + seq![' ', ' ', '|']);

    let mut idx: usize = 0;
    while idx < width
        invariant
            idx <= width,
            out@ == middle + ascii_block(chunk@, idx as nat),
        decreases width - idx,
    {
        if idx < chunk.len() {
            out.push(printable(chunk[idx]));
        } else {
            out.push(' ');
        }
        idx += 1;
        assert(out@ =~= middle + ascii_block(chunk@, idx as nat));
    }
    out.push('|');
    assert(out@ =~= row_text(offset as nat, chunk@, width as nat));
    out
}

} // verus!
