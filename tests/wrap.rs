use tui_messenger::wrap::wrap_single_line;

#[test]
fn wraps_greedily_by_words() {
    assert_eq!(wrap_single_line("hello world foo", 10), vec!["hello", "world foo"]);
    assert_eq!(wrap_single_line("a bbbbbbbbb", 10), vec!["a", "bbbbbbbbb"]);
    assert_eq!(wrap_single_line("a bbbbbbbb", 10), vec!["a bbbbbbbb"]);
}

#[test]
fn width_below_ten_counts_as_ten() {
    assert_eq!(wrap_single_line("aaaa bbbb ccc", 3), vec!["aaaa bbbb", "ccc"]);
}

#[test]
fn empty_text_gives_one_empty_line() {
    assert_eq!(wrap_single_line("", 20), vec![""]);
}

#[test]
fn newlines_split_lines() {
    assert_eq!(wrap_single_line("a\nb\n", 20), vec!["a", "b", ""]);
}

#[test]
fn white_space_collapses() {
    assert_eq!(wrap_single_line("  a \t  b  ", 20), vec!["a b"]);
    assert_eq!(wrap_single_line("a\u{3000}b", 20), vec!["a b"]);
}

#[test]
fn long_word_stands_alone() {
    assert_eq!(wrap_single_line("abcdefghijkl", 10), vec!["abcdefghijkl"]);
    assert_eq!(wrap_single_line("ab abcdefghijkl cd", 10), vec!["ab", "abcdefghijkl", "cd"]);
}

#[test]
fn width_counts_bytes() {
    assert_eq!(wrap_single_line("éééé ééé", 10), vec!["éééé", "ééé"]);
    assert_eq!(wrap_single_line("eeee eee", 10), vec!["eeee eee"]);
}

use tui_messenger::app::MessageType;
use tui_messenger::view::{first_visible_line, input_area_height};
use tui_messenger::wrap::{wrap_text, LineStyle, StyledLine};

fn styled(text: &str, style: LineStyle) -> StyledLine {
    StyledLine { text: text.to_string(), style }
}

#[test]
fn messages_are_laid_out_by_sender() {
    let msgs = vec![
        MessageType::ChatMessage { sender: "bob".to_string(), content: "hi there".to_string() },
        MessageType::SystemMessage("joined".to_string()),
        MessageType::ChatMessage { sender: "alice".to_string(), content: "yo".to_string() },
    ];
    let me = "alice".to_string();
    assert_eq!(
        wrap_text(&msgs, 10, Some(&me)),
        vec![
            styled("bob: hi there", LineStyle::Other),
            styled("joined", LineStyle::System),
            styled("        yo", LineStyle::Own),
        ]
    );
    assert_eq!(wrap_text(&msgs, 10, None)[2], styled("alice: yo", LineStyle::Other));
}

#[test]
fn long_messages_give_several_lines() {
    let msgs = vec![MessageType::ChatMessage { sender: "bob".to_string(), content: "one two three four".to_string() }];
    assert_eq!(
        wrap_text(&msgs, 10, None),
        vec![styled("bob: one two", LineStyle::Other), styled("bob: three four", LineStyle::Other)]
    );
    assert!(wrap_text(&Vec::new(), 10, None).is_empty());
}

#[test]
fn visible_window() {
    assert_eq!(first_visible_line(30, 10, 0), 20);
    assert_eq!(first_visible_line(30, 10, 5), 15);
    assert_eq!(first_visible_line(30, 10, 50), 0);
    assert_eq!(first_visible_line(5, 10, 0), 0);
    assert_eq!(input_area_height(3, 24), 3);
    assert_eq!(input_area_height(9, 24), 5);
    assert_eq!(input_area_height(9, 6), 2);
    assert_eq!(input_area_height(9, 3), 0);
}

#[test]
fn newline_parts_wrap_on_their_own() {
    let a = "alpha beta gamma";
    let b = "delta epsilon";
    let mut both = wrap_single_line(a, 10);
    both.extend(wrap_single_line(b, 10));
    assert_eq!(wrap_single_line("alpha beta gamma\ndelta epsilon", 10), both);
}

#[test]
fn lines_fit_unless_single_word() {
    let text = "a bb ccc dddd eeeee ffffff ggggggggggggggg h i";
    let lines = wrap_single_line(text, 10);
    for l in &lines {
        assert!(l.len() <= 10 || !l.contains(' '));
    }
    let kept: String = lines.concat().chars().filter(|c| !c.is_whitespace()).collect();
    let original: String = text.chars().filter(|c| !c.is_whitespace()).collect();
    assert_eq!(kept, original);
}
