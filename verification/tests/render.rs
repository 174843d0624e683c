use hexview::app::App;
use ratatui::text::Text;

fn shown(text: &Text<'static>) -> Vec<String> {
    text.lines
        .iter()
        .map(|line| line.spans.iter().map(|span| span.content.as_ref()).collect::<String>())
        .collect()
}

#[test]
fn empty_buffer_renders_the_sentinel() {
    let app = App::new("empty.bin".to_string(), Vec::new(), 16);
    let text = app.render_lines(5);
    assert_eq!(shown(&text), vec!["File is empty.".to_string()]);
    assert_eq!(text.to_string(), "File is empty.");
}

#[test]
fn no_rows_asked_for_renders_end_of_file() {
    let app = App::new("some.bin".to_string(), vec![1, 2, 3], 16);
    let text = app.render_lines(0);
    assert_eq!(shown(&text), vec!["(End of file)".to_string()]);
}

#[test]
fn rows_render_from_the_scroll_position() {
    let bytes: Vec<u8> = (0u8..40).collect();
    let mut app = App::new("some.bin".to_string(), bytes, 16);
    app.scroll_rows(1);
    let text = app.render_lines(10);
    assert_eq!(
        shown(&text),
        vec![
            "00000010  10 11 12 13 14 15 16 17  18 19 1A 1B 1C 1D 1E 1F  |................|"
                .to_string(),
            "00000020  20 21 22 23 24 25 26 27                           | !\"#$%&'        |"
                .to_string(),
        ]
    );
    assert_eq!(text.lines.len(), 2);
    assert_eq!(text.lines[0].spans.len(), 1);
}

#[test]
fn render_shows_no_more_rows_than_asked_for() {
    let bytes: Vec<u8> = (0u8..200).collect();
    let app = App::new("some.bin".to_string(), bytes, 8);
    let text = app.render_lines(3);
    let lines = shown(&text);
    assert_eq!(lines.len(), 3);
    let rows = app.lines_for_range(0, 3);
    for (line, row) in lines.iter().zip(&rows) {
        assert_eq!(line, &row.text);
    }
}
