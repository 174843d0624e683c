use hexview::app::{App, RowText};
use hexview::args::Args;
use hexview::step::{step_by, step_down, step_up};
use std::path::PathBuf;

fn grid(len: usize, width: usize) -> App {
    let bytes: Vec<u8> = (0..len).map(|i| i as u8).collect();
    App::new("sample.bin".to_string(), bytes, width)
}

#[test]
fn twenty_bytes_in_rows_of_sixteen() {
    let app = grid(20, 16);
    assert_eq!(app.total_rows(), 2);
    let rows: Vec<RowText> = app.lines_for_range(0, 2);
    assert_eq!(rows.len(), 2);
    assert_eq!(rows[0].offset, 0x0000_0000);
    assert_eq!(rows[0].bytes, (0u8..16).collect::<Vec<u8>>());
    assert_eq!(
        rows[0].text,
        "00000000  00 01 02 03 04 05 06 07  08 09 0A 0B 0C 0D 0E 0F  |................|"
    );
    assert_eq!(rows[1].offset, 0x0000_0010);
    assert_eq!(rows[1].bytes, vec![16u8, 17, 18, 19]);
    assert_eq!(
        rows[1].text,
        "00000010  10 11 12 13                                       |....            |"
    );
}

#[test]
fn empty_buffer_has_no_rows() {
    let app = grid(0, 16);
    assert_eq!(app.total_rows(), 0);
    assert_eq!(app.bytes_len(), 0);
    assert!(app.lines_for_range(0, 5).is_empty());
    assert_eq!(app.current_offset(), 0);
}

#[test]
fn total_rows_is_length_over_width_rounded_up() {
    for width in 8usize..=32 {
        for len in 0usize..200 {
            let app = grid(len, width);
            let expected = if len == 0 { 0 } else { (len + width - 1) / width };
            assert_eq!(app.total_rows(), expected, "len {len}, width {width}");
            assert_eq!(app.total_rows() == 0, len == 0);
        }
    }
    assert_eq!(grid(1, 8).total_rows(), 1);
    assert_eq!(grid(8, 8).total_rows(), 1);
    assert_eq!(grid(9, 8).total_rows(), 2);
    assert_eq!(grid(64, 32).total_rows(), 2);
    assert_eq!(grid(65, 32).total_rows(), 3);
}

#[test]
fn each_row_starts_at_index_times_width() {
    for width in [8usize, 13, 16, 32] {
        for len in [1usize, 7, 8, 9, 31, 32, 33, 100] {
            let app = grid(len, width);
            let total = app.total_rows();
            for row in 0..total {
                let got = app.lines_for_range(row, 1);
                assert_eq!(got.len(), 1);
                assert_eq!(got[0].offset, row * width);
                let expected_len = if row + 1 == total { len - row * width } else { width };
                assert_eq!(got[0].bytes.len(), expected_len);
                assert!(expected_len > 0 && expected_len <= width);
                let expected: Vec<u8> =
                    (row * width..row * width + expected_len).map(|i| i as u8).collect();
                assert_eq!(got[0].bytes, expected);
            }
        }
    }
}

#[test]
fn range_is_cut_at_the_last_row() {
    let app = grid(100, 16);
    assert_eq!(app.total_rows(), 7);
    assert_eq!(app.lines_for_range(0, 100).len(), 7);
    assert_eq!(app.lines_for_range(5, 5).len(), 2);
    assert_eq!(app.lines_for_range(6, 1).len(), 1);
    assert_eq!(app.lines_for_range(7, 1).len(), 0);
    assert_eq!(app.lines_for_range(3, 0).len(), 0);
    assert_eq!(app.lines_for_range(usize::MAX, usize::MAX).len(), 0);
    assert_eq!(app.lines_for_range(2, usize::MAX).len(), 5);
    let rows = app.lines_for_range(5, 5);
    assert_eq!(rows[0].offset, 80);
    assert_eq!(rows[1].offset, 96);
    assert_eq!(rows[1].bytes, vec![96u8, 97, 98, 99]);
}

#[test]
fn rows_do_not_depend_on_earlier_calls_or_scrolling() {
    let mut app = grid(100, 16);
    let first = app.lines_for_range(2, 3);
    app.scroll_rows(4);
    let second = app.lines_for_range(2, 3);
    assert_eq!(first.len(), second.len());
    for (a, b) in first.iter().zip(&second) {
        assert_eq!(a.offset, b.offset);
        assert_eq!(a.text, b.text);
        assert_eq!(a.bytes, b.bytes);
    }
    assert_eq!(app.current_offset(), 64);
}

#[test]
fn new_starts_at_the_top_with_a_view_of_one_row() {
    let app = grid(50, 16);
    assert_eq!(app.file_name(), "sample.bin");
    assert_eq!(app.bytes_len(), 50);
    assert_eq!(app.bytes_per_row(), 16);
    assert_eq!(app.view_rows(), 1);
    assert_eq!(app.current_offset(), 0);
}

#[test]
fn width_of_zero_counts_as_one() {
    let app = grid(3, 0);
    assert_eq!(app.bytes_per_row(), 1);
    assert_eq!(app.total_rows(), 3);
    let rows = app.lines_for_range(1, 1);
    assert_eq!(rows[0].offset, 1);
    assert_eq!(rows[0].text, "00000001   01  |.|");
}

#[test]
fn view_rows_of_zero_counts_as_one() {
    let mut app = grid(10, 8);
    app.set_view_rows(0);
    assert_eq!(app.view_rows(), 1);
    app.set_view_rows(25);
    assert_eq!(app.view_rows(), 25);
    assert_eq!(app.bytes_per_row(), 8);
    assert_eq!(app.bytes_len(), 10);
}

#[test]
fn scroll_stops_at_both_ends() {
    let mut app = grid(100, 16);
    app.scroll_rows(3);
    assert_eq!(app.current_offset(), 48);
    app.scroll_rows(-1);
    assert_eq!(app.current_offset(), 32);
    app.scroll_rows(1000);
    assert_eq!(app.current_offset(), 96);
    app.scroll_rows(-1000);
    assert_eq!(app.current_offset(), 0);
    app.scroll_rows(0);
    assert_eq!(app.current_offset(), 0);
}

#[test]
fn scroll_past_an_end_is_scroll_to_that_end() {
    for start in 0isize..7 {
        for delta in [7isize, 8, 100, isize::MAX, -7, -8, -100, isize::MIN, isize::MIN + 1] {
            let mut wide = grid(100, 16);
            wide.scroll_rows(start);
            wide.scroll_rows(delta);
            let mut exact = grid(100, 16);
            exact.scroll_rows(start);
            exact.scroll_rows(if delta > 0 { 6 - start } else { -start });
            assert_eq!(wide.current_offset(), exact.current_offset(), "{start} {delta}");
            assert_eq!(wide.current_offset(), if delta > 0 { 96 } else { 0 });
            wide.scroll_rows(0);
            assert_eq!(wide.current_offset(), exact.current_offset());
        }
    }
}

#[test]
fn scroll_on_an_empty_buffer_stays_at_zero() {
    let mut app = grid(0, 16);
    app.scroll_rows(5);
    assert_eq!(app.current_offset(), 0);
    app.scroll_rows(-5);
    assert_eq!(app.current_offset(), 0);
    app.scroll_to_end();
    assert_eq!(app.current_offset(), 0);
    app.scroll_to_start();
    assert_eq!(app.current_offset(), 0);
    app.scroll_by(true, usize::MAX);
    assert_eq!(app.current_offset(), 0);
}

#[test]
fn scroll_to_start_and_end() {
    let mut app = grid(100, 16);
    app.scroll_to_end();
    assert_eq!(app.current_offset(), 96);
    app.scroll_to_start();
    assert_eq!(app.current_offset(), 0);
    let mut one = grid(5, 16);
    one.scroll_to_end();
    assert_eq!(one.current_offset(), 0);
}

#[test]
fn scroll_by_takes_any_amount() {
    let mut app = grid(100, 16);
    app.scroll_by(true, 2);
    assert_eq!(app.current_offset(), 32);
    app.scroll_by(true, usize::MAX);
    assert_eq!(app.current_offset(), 96);
    app.scroll_by(false, 1);
    assert_eq!(app.current_offset(), 80);
    app.scroll_by(false, usize::MAX);
    assert_eq!(app.current_offset(), 0);
}

#[test]
fn status_line_of_a_scrolled_grid() {
    let mut app = grid(100, 16);
    assert_eq!(
        app.status_line(),
        "sample.bin | bytes: 100 | row: 1/7 | offset: 0x00000000 | press q to quit"
    );
    app.scroll_rows(2);
    assert_eq!(
        app.status_line(),
        "sample.bin | bytes: 100 | row: 3/7 | offset: 0x00000020 | press q to quit"
    );
    app.scroll_to_end();
    assert_eq!(
        app.status_line(),
        "sample.bin | bytes: 100 | row: 7/7 | offset: 0x00000060 | press q to quit"
    );
}

#[test]
fn status_line_of_an_empty_buffer() {
    let app = App::new(String::new(), Vec::new(), 16);
    assert_eq!(
        app.status_line(),
        " | bytes: 0 | row: 1/1 | offset: 0x00000000 | press q to quit"
    );
}

#[test]
fn steps_hold_to_the_range() {
    assert_eq!(step_up(3, 4, 10), 7);
    assert_eq!(step_up(3, 7, 10), 10);
    assert_eq!(step_up(3, usize::MAX, 10), 10);
    assert_eq!(step_up(12, 0, 10), 10);
    assert_eq!(step_down(7, 4, 10), 3);
    assert_eq!(step_down(7, 7, 10), 0);
    assert_eq!(step_down(7, usize::MAX, 10), 0);
    assert_eq!(step_down(20, 3, 10), 10);
    assert_eq!(step_by(5, 2, 10), 7);
    assert_eq!(step_by(5, -2, 10), 3);
    assert_eq!(step_by(5, isize::MAX, 10), 10);
    assert_eq!(step_by(5, isize::MIN, 10), 0);
    assert_eq!(step_by(usize::MAX, isize::MIN, usize::MAX), usize::MAX - (isize::MAX as usize) - 1);
    assert_eq!(step_by(0, 0, 0), 0);
}

#[test]
fn row_width_is_held_to_eight_through_thirty_two() {
    let args = |bytes_per_row: usize| Args {
        path: PathBuf::from("sample.bin"),
        bytes_per_row,
        gui: false,
        debug: false,
    };
    assert_eq!(args(0).clamped_bytes_per_row(), 8);
    assert_eq!(args(7).clamped_bytes_per_row(), 8);
    assert_eq!(args(8).clamped_bytes_per_row(), 8);
    assert_eq!(args(16).clamped_bytes_per_row(), 16);
    assert_eq!(args(32).clamped_bytes_per_row(), 32);
    assert_eq!(args(33).clamped_bytes_per_row(), 32);
    assert_eq!(args(usize::MAX).clamped_bytes_per_row(), 32);
}
