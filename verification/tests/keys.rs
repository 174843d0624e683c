use hexview::app::App;
use hexview::tui::{handle_key, Key};

fn grid(len: usize, width: usize) -> App {
    let bytes: Vec<u8> = (0..len).map(|i| i as u8).collect();
    App::new("sample.bin".to_string(), bytes, width)
}

#[test]
fn quit_keys_end_the_session_and_change_nothing() {
    let mut app = grid(100, 16);
    app.scroll_rows(2);
    assert!(!handle_key(&mut app, Key::Char('q')));
    assert_eq!(app.current_offset(), 32);
    assert!(!handle_key(&mut app, Key::Esc));
    assert_eq!(app.current_offset(), 32);
}

#[test]
fn line_keys_scroll_by_one_row() {
    let mut app = grid(100, 16);
    assert!(handle_key(&mut app, Key::Down));
    assert_eq!(app.current_offset(), 16);
    assert!(handle_key(&mut app, Key::Char('j')));
    assert_eq!(app.current_offset(), 32);
    assert!(handle_key(&mut app, Key::Up));
    assert_eq!(app.current_offset(), 16);
    assert!(handle_key(&mut app, Key::Char('k')));
    assert_eq!(app.current_offset(), 0);
    assert!(handle_key(&mut app, Key::Up));
    assert_eq!(app.current_offset(), 0);
}

#[test]
fn page_keys_scroll_by_the_rows_of_the_view() {
    let mut app = grid(1000, 16);
    app.set_view_rows(10);
    assert!(handle_key(&mut app, Key::PageDown));
    assert_eq!(app.current_offset(), 160);
    assert!(handle_key(&mut app, Key::Char(' ')));
    assert_eq!(app.current_offset(), 320);
    assert!(handle_key(&mut app, Key::PageUp));
    assert_eq!(app.current_offset(), 160);
    app.set_view_rows(60);
    assert!(handle_key(&mut app, Key::PageDown));
    assert_eq!(app.current_offset(), 62 * 16);
    assert!(handle_key(&mut app, Key::PageUp));
    assert_eq!(app.current_offset(), 2 * 16);
    assert!(handle_key(&mut app, Key::PageUp));
    assert_eq!(app.current_offset(), 0);
}

#[test]
fn page_down_with_a_huge_view_goes_to_the_last_row() {
    let mut app = grid(100, 16);
    app.set_view_rows(usize::MAX);
    assert!(handle_key(&mut app, Key::PageDown));
    assert_eq!(app.current_offset(), 96);
    assert!(handle_key(&mut app, Key::PageUp));
    assert_eq!(app.current_offset(), 0);
}

#[test]
fn home_and_end_keys_jump() {
    let mut app = grid(100, 16);
    assert!(handle_key(&mut app, Key::End));
    assert_eq!(app.current_offset(), 96);
    assert!(handle_key(&mut app, Key::Home));
    assert_eq!(app.current_offset(), 0);
    assert!(handle_key(&mut app, Key::Char('G')));
    assert_eq!(app.current_offset(), 96);
    assert!(handle_key(&mut app, Key::Char('g')));
    assert_eq!(app.current_offset(), 0);
}

#[test]
fn other_keys_change_nothing() {
    let mut app = grid(100, 16);
    app.scroll_rows(3);
    for key in [Key::Other, Key::Char('x'), Key::Char('Q'), Key::Char('J'), Key::Char('\n')] {
        assert!(handle_key(&mut app, key));
        assert_eq!(app.current_offset(), 48);
    }
}

#[test]
fn keys_on_an_empty_buffer_stay_at_zero() {
    let mut app = grid(0, 16);
    for key in [Key::Down, Key::Up, Key::PageDown, Key::PageUp, Key::Home, Key::End] {
        assert!(handle_key(&mut app, key));
        assert_eq!(app.current_offset(), 0);
        assert_eq!(app.total_rows(), 0);
    }
}
