use editor_core::buffer::{Buffer, BufferId};
use editor_core::cursor::{column_at, line_bounds, Cursor};
use editor_core::text::width;
use editor_core::window::{Area, Window, WindowId};
use ropey::Rope;
use unicode_width::UnicodeWidthStr;

/// Whether a line starts at `i`: at the start of the text and after each
/// line break, where a CR before an LF is no break by itself.
fn line_starts_at(text: &[char], i: usize) -> bool {
    if i == 0 {
        return true;
    }
    let c = text[i - 1];
    let breaks = matches!(
        c,
        '\n' | '\u{0B}' | '\u{0C}' | '\r' | '\u{85}' | '\u{2028}' | '\u{2029}'
    );
    breaks && !(c == '\r' && i < text.len() && text[i] == '\n')
}

fn line_of_char(text: &[char], i: usize) -> usize {
    (1..=i).filter(|k| line_starts_at(text, *k)).count()
}

fn line_starts(text: &[char]) -> Vec<usize> {
    (0..=text.len()).filter(|k| line_starts_at(text, *k)).collect()
}

fn texts() -> Vec<String> {
    vec![
        String::new(),
        "abc".to_string(),
        "\n".to_string(),
        "a\nb\n".to_string(),
        "a\r\nb\rc\n\rd".to_string(),
        "\r\n\r\n".to_string(),
        "\r".to_string(),
        "x\u{0B}y\u{0C}z\u{85}w\u{2028}v\u{2029}u".to_string(),
        "\u{4f60}\u{597d}\n\u{1F1F7}\u{1F1F8}e\u{301}\r\n\u{e9}".to_string(),
    ]
}

#[test]
fn lines_are_where_the_breaks_are() {
    for s in texts() {
        let text: Vec<char> = s.chars().collect();
        let content = Rope::from_str(&s);
        let starts = line_starts(&text);
        assert_eq!(content.len_lines(), starts.len(), "{:?}", s);
        for (line, start) in starts.iter().enumerate() {
            let end = if line + 1 < starts.len() { starts[line + 1] } else { text.len() };
            assert_eq!(line_bounds(&content, line), (*start, end), "{:?} line {}", s, line);
        }
        for i in 0..=text.len() {
            let cursor = Cursor::with_range(i, i);
            let line = line_of_char(&text, i);
            assert_eq!(cursor.screen_position(&content).1 as usize, line, "{:?} at {}", s, i);
        }
    }
}

#[test]
fn columns_are_the_widths_of_what_lies_before() {
    for s in texts() {
        let text: Vec<char> = s.chars().collect();
        let content = Rope::from_str(&s);
        let starts = line_starts(&text);
        for i in 0..=text.len() {
            let first = starts[line_of_char(&text, i)];
            let before: String = text[first..i].iter().collect();
            assert_eq!(column_at(&content, i), before.as_str().width(), "{:?} at {}", s, i);
            assert_eq!(width(&content, first, i), before.as_str().width());
        }
    }
}

#[test]
fn the_bytes_shown_start_and_end_with_lines() {
    for s in texts() {
        let text: Vec<char> = s.chars().collect();
        let starts = line_starts(&text);
        let byte_of = |c: usize| text[..c].iter().map(|ch| ch.len_utf8()).sum::<usize>();
        let buf = Buffer::new(BufferId::new(0), Rope::from_str(&s), None);
        for vertical in 0..starts.len() + 2 {
            for height in 0..4u16 {
                let mut window = Window::new(WindowId(0), BufferId::new(0), Area::new(0, 0, 9, height));
                window.offset.vertical = vertical;
                let last = starts.len() - 1;
                let first_line = vertical.min(last);
                let last_line = (vertical + height as usize).saturating_sub(1).min(last);
                let end = if last_line + 1 < starts.len() { starts[last_line + 1] } else { text.len() };
                assert_eq!(
                    window.visible_byte_range(&buf),
                    (byte_of(starts[first_line]), byte_of(end)),
                    "{:?} from {} high {}",
                    s,
                    vertical,
                    height
                );
                let from = if vertical < starts.len() { starts[vertical] } else { text.len() };
                let below = vertical + height as usize;
                let to = if below < starts.len() { starts[below] } else { text.len() };
                assert_eq!(window.visible_char_range(&buf), (from, to));
            }
        }
    }
}
