use softwrap::content::Content;
use softwrap::render::{
    convert_char_to_render_term, get_unicode_string, CharType, RenderContent, RenderLine,
    RenderTerm,
};
use softwrap::viewport::Viewport;

#[test]
fn test_render_content1() {
    let src_content = "hello\nworld.\niam\na\nvery\nhappy\nperson";
    let content = Content::from(src_content);

    assert_eq!(content.lines.len(), 7);
    assert_eq!(content.line_feed, Some("\n".into()));

    let viewport = Viewport {
        width: 3,
        height: 5,
        ..Default::default()
    };

    let render_content = RenderContent::from_src_content_with_view_break(&content, &viewport, 4);
    assert_eq!(render_content.lines.len(), 5);
    assert_eq!(render_content.lines[0].terms.len(), 3);
}

#[test]
fn test_render_content2() {
    let src_content = r#"hello
你好，我的世界
im a happy boy"#;
    let content = Content::from(src_content);
    assert_eq!(content.lines.len(), 3);

    let viewport = Viewport {
        width: 3,
        height: 5,
        ..Default::default()
    };

    let render_content = RenderContent::from_src_content_with_view_break(&content, &viewport, 4);
    // ["hel", "lo", "你", "好", "，"]
    assert_eq!(render_content.lines.len(), 5);
    assert_eq!(render_content.lines[0].terms.len(), 3);
    assert_eq!(render_content.lines[1].terms.len(), 2);
    assert_eq!(render_content.lines[2].terms.len(), 1);
}

fn line_text(line: &RenderLine) -> String {
    line.terms.iter().map(|term| term.render_text.as_str()).collect()
}

fn shown(text: &str, viewport: Viewport, tab_width: usize) -> Vec<(usize, String)> {
    let content = Content::from(text);
    RenderContent::from_src_content_with_view_break(&content, &viewport, tab_width)
        .lines
        .iter()
        .map(|line| (line.src_line_index, line_text(line)))
        .collect()
}

fn rows(expected: &[(usize, &str)]) -> Vec<(usize, String)> {
    expected.iter().map(|(index, text)| (*index, text.to_string())).collect()
}

fn window(anchor_row: i32, width: u16, height: u16) -> Viewport {
    Viewport { anchor_col: 0, anchor_row, width, height }
}

#[test]
fn wrap_example_rows() {
    let text = "hello\nworld.\niam\na\nvery\nhappy\nperson";
    assert_eq!(
        shown(text, window(0, 3, 5), 4),
        rows(&[(0, "hel"), (0, "lo"), (1, "wor"), (1, "ld."), (2, "iam")])
    );
}

#[test]
fn wide_character_wrap_example_rows() {
    let text = "hello\n你好，我的世界\nim a happy boy";
    assert_eq!(
        shown(text, window(0, 3, 5), 4),
        rows(&[(0, "hel"), (0, "lo"), (1, "你"), (1, "好"), (1, "，")])
    );
}

#[test]
fn zero_height_shows_nothing() {
    for text in ["", "a", "hello\nworld", "\n\n\n", "你好\t\u{1}"] {
        for width in [0, 1, 3, 80] {
            for anchor_row in [-5, 0, 1, 100] {
                assert_eq!(shown(text, window(anchor_row, width, 0), 4), rows(&[]));
            }
        }
    }
}

#[test]
fn empty_document_shows_nothing() {
    assert_eq!(shown("", window(0, 80, 24), 4), rows(&[]));
    let content = Content::new();
    let layout = RenderContent::from_src_content_with_view_break(&content, &window(3, 80, 24), 4);
    assert!(layout.lines.is_empty());
}

#[test]
fn layout_never_exceeds_the_height() {
    let text = "hello\nworld.\n\n你好，我的世界\n\tx\u{7f}\nlast row of the text";
    for width in 0..12 {
        for height in 0..12 {
            for anchor_row in -3..9 {
                let lines = shown(text, window(anchor_row, width, height), 4);
                assert!(lines.len() <= height as usize);
            }
        }
    }
}

#[test]
fn layout_twice_gives_the_same_rows() {
    let content = Content::from("hello\n你好，我的世界\n\tim a happy boy\u{1}");
    for width in 0..8 {
        let viewport = window(0, width, 6);
        let first = RenderContent::from_src_content_with_view_break(&content, &viewport, 4);
        let second = RenderContent::from_src_content_with_view_break(&content, &viewport, 4);
        assert_eq!(first, second);
    }
}

#[test]
fn column_anchor_has_no_part_in_the_layout() {
    let content = Content::from("hello\nworld");
    let at_origin = window(0, 3, 4);
    let moved = Viewport { anchor_col: 2, ..at_origin };
    assert_eq!(
        RenderContent::from_src_content_with_view_break(&content, &at_origin, 4),
        RenderContent::from_src_content_with_view_break(&content, &moved, 4)
    );
}

#[test]
fn row_that_ends_at_the_width_takes_one_display_row() {
    assert_eq!(shown("abc\ndef", window(0, 3, 5), 4), rows(&[(0, "abc"), (1, "def")]));
}

#[test]
fn empty_source_rows_take_one_display_row_each() {
    assert_eq!(
        shown("\n\nx\n", window(0, 3, 5), 4),
        rows(&[(0, ""), (1, ""), (2, "x")])
    );
}

#[test]
fn negative_anchor_starts_at_the_first_row() {
    let text = "a\nb\nc\nd";
    assert_eq!(shown(text, window(-1, 3, 3), 4), rows(&[(0, "a"), (1, "b"), (2, "c")]));
    // The last row reached is row -10 + 5, moved to the first row.
    assert_eq!(shown(text, window(-10, 3, 5), 4), rows(&[(0, "a")]));
    assert_eq!(shown(text, window(i32::MIN, 3, 5), 4), rows(&[(0, "a")]));
}

#[test]
fn anchor_past_the_end_shows_the_last_row() {
    let text = "a\nb\nc\nd";
    assert_eq!(shown(text, window(4, 3, 3), 4), rows(&[(3, "d")]));
    assert_eq!(shown(text, window(100, 3, 3), 4), rows(&[(3, "d")]));
    assert_eq!(shown(text, window(i32::MAX, 3, u16::MAX), 4), rows(&[(3, "d")]));
}

#[test]
fn anchor_inside_the_document() {
    let text = "a\nb\nc\nd";
    assert_eq!(shown(text, window(1, 3, 2), 4), rows(&[(1, "b"), (2, "c")]));
    assert_eq!(shown(text, window(2, 3, 10), 4), rows(&[(2, "c"), (3, "d")]));
    assert_eq!(shown(text, window(0, 3, 4), 4), rows(&[(0, "a"), (1, "b"), (2, "c"), (3, "d")]));
    assert_eq!(shown(text, window(3, 3, 1), 4), rows(&[(3, "d")]));
}

#[test]
fn height_runs_out_in_the_middle_of_a_row() {
    assert_eq!(shown("abcdefgh\nxyz", window(0, 3, 2), 4), rows(&[(0, "abc"), (0, "def")]));
    assert_eq!(shown("abcdefgh\nxyz", window(0, 3, 1), 4), rows(&[(0, "abc")]));
    assert_eq!(
        shown("abcdefgh\nxyz", window(0, 3, 4), 4),
        rows(&[(0, "abc"), (0, "def"), (0, "gh"), (1, "xyz")])
    );
}

#[test]
fn term_wider_than_the_viewport_stands_alone() {
    // The row in progress is closed, empty as it is, before the wide term.
    assert_eq!(
        shown("世a界", window(0, 1, 6), 4),
        rows(&[(0, ""), (0, "世"), (0, "a"), (0, "界")])
    );
    assert_eq!(shown("a世", window(0, 1, 6), 4), rows(&[(0, "a"), (0, "世")]));
}

#[test]
fn zero_width_places_each_character_alone() {
    assert_eq!(
        shown("ab\nc", window(0, 0, 8), 4),
        rows(&[(0, ""), (0, "a"), (0, "b"), (1, ""), (1, "c")])
    );
}

#[test]
fn nothing_joins_a_term_wider_than_the_viewport() {
    // A combining mark has no width, yet the row of the wide term is over full.
    assert_eq!(
        shown("世\u{301}", window(0, 1, 6), 4),
        rows(&[(0, ""), (0, "世"), (0, "\u{301}")])
    );
    assert_eq!(shown("a\u{301}", window(0, 1, 6), 4), rows(&[(0, "a\u{301}")]));
}

#[test]
fn tabs_and_control_codes_take_their_painted_width() {
    assert_eq!(
        shown("a\tb", window(0, 5, 6), 4),
        rows(&[(0, "a    "), (0, "b")])
    );
    assert_eq!(
        shown("a\u{1}b\u{7f}", window(0, 4, 6), 4),
        rows(&[(0, "aU+1"), (0, "b"), (0, "U+7F")])
    );
    assert_eq!(shown("\t\t", window(0, 4, 6), 2), rows(&[(0, "    ")]));
    assert_eq!(shown("\ta", window(0, 1, 6), 0), rows(&[(0, "a")]));
}

#[test]
fn every_display_row_fits_or_holds_one_term() {
    let text = "hello\nworld.\n\n你好，我的世界\n\tx\u{7f}\nlast row of the text";
    let content = Content::from(text);
    for width in 0..12u16 {
        let layout =
            RenderContent::from_src_content_with_view_break(&content, &window(0, width, 40), 4);
        let mut last_index = 0;
        for line in &layout.lines {
            let total: usize = line.terms.iter().map(|term| term.render_width).sum();
            assert!(total <= width as usize || line.terms.len() == 1);
            assert!(last_index <= line.src_line_index);
            last_index = line.src_line_index;
        }
    }
}

#[test]
fn display_rows_of_a_source_row_keep_its_characters() {
    let text = "hello\nworld.\n\n你好，我的世界\n\tx\u{7f}\nlast row of the text";
    let content = Content::from(text);
    for width in 0..12u16 {
        let layout =
            RenderContent::from_src_content_with_view_break(&content, &window(0, width, 200), 4);
        for (index, row) in content.lines.iter().enumerate() {
            let joined: Vec<char> = layout
                .lines
                .iter()
                .filter(|line| line.src_line_index == index)
                .flat_map(|line| line.terms.iter().map(|term| term.src_char))
                .collect();
            assert_eq!(&joined, row);
        }
    }
}

#[test]
fn wrap_packs_given_terms() {
    let terms: Vec<RenderTerm> = ['a', 'b', 'c', 'd', 'e']
        .iter()
        .map(|c| convert_char_to_render_term(*c, 4, Some(1)))
        .collect();
    let lines = RenderLine::wrap(terms.clone(), 3, 7, 10);
    assert_eq!(lines.len(), 2);
    assert_eq!(line_text(&lines[0]), "abc");
    assert_eq!(line_text(&lines[1]), "de");
    assert_eq!(lines[0].src_line_index, 7);
    assert_eq!(lines[1].src_line_index, 7);

    let lines = RenderLine::wrap(terms.clone(), 3, 7, 1);
    assert_eq!(lines.len(), 1);
    assert_eq!(line_text(&lines[0]), "abc");

    assert!(RenderLine::wrap(terms, 3, 7, 0).is_empty());

    let lines = RenderLine::wrap(Vec::new(), 3, 2, 4);
    assert_eq!(lines.len(), 1);
    assert!(lines[0].terms.is_empty());
    assert_eq!(lines[0].src_line_index, 2);
}

#[test]
fn wrap_goes_by_the_width_of_each_term() {
    let widths = [2usize, 2, 1, 3, 0, 4, 1];
    let terms: Vec<RenderTerm> =
        widths.iter().map(|w| convert_char_to_render_term('x', 4, Some(*w))).collect();
    let lines = RenderLine::wrap(terms, 3, 0, 10);
    let packed: Vec<Vec<usize>> = lines
        .iter()
        .map(|line| line.terms.iter().map(|term| term.render_width).collect())
        .collect();
    assert_eq!(packed, vec![vec![2], vec![2, 1], vec![3, 0], vec![4], vec![1]]);
}

#[test]
fn term_of_a_tab() {
    let term = RenderTerm::from_char('\t', 4);
    assert_eq!(term.src_char, '\t');
    assert_eq!(term.char_type, CharType::Invisible);
    assert_eq!(term.render_text, "    ");
    assert_eq!(term.render_width, 4);

    let term = RenderTerm::from_char('\t', 0);
    assert_eq!(term.render_text, "");
    assert_eq!(term.render_width, 0);
}

#[test]
fn term_of_a_control_code() {
    for (c, text) in [
        ('\u{0}', "U+0"),
        ('\u{1}', "U+1"),
        ('\r', "U+D"),
        ('\n', "U+A"),
        ('\u{1b}', "U+1B"),
        ('\u{1f}', "U+1F"),
        ('\u{7f}', "U+7F"),
        ('\u{85}', "U+85"),
        ('\u{9f}', "U+9F"),
    ] {
        let term = RenderTerm::from_char(c, 4);
        assert_eq!(term.src_char, c);
        assert_eq!(term.char_type, CharType::Invisible);
        assert_eq!(term.render_text, text);
        assert_eq!(term.render_width, text.len());
    }
}

#[test]
fn term_of_an_ordinary_character() {
    for (c, width) in [('a', 1), (' ', 1), ('~', 1), ('\u{a0}', 1), ('世', 2), ('，', 2), ('\u{301}', 0)]
    {
        let term = RenderTerm::from_char(c, 4);
        assert_eq!(term.src_char, c);
        assert_eq!(term.char_type, CharType::Normal);
        assert_eq!(term.render_text, c.to_string());
        assert_eq!(term.render_width, width);
    }
}

#[test]
fn term_with_a_given_width() {
    let term = convert_char_to_render_term('x', 4, None);
    assert_eq!(term.char_type, CharType::Normal);
    assert_eq!(term.render_text, "x");
    assert_eq!(term.render_width, 1);

    let term = convert_char_to_render_term('x', 4, Some(0));
    assert_eq!(term.render_width, 0);

    // Neither a tab nor a control code goes by the width handed in.
    let term = convert_char_to_render_term('\t', 3, Some(9));
    assert_eq!(term.render_text, "   ");
    assert_eq!(term.render_width, 3);
    let term = convert_char_to_render_term('\u{2}', 3, Some(9));
    assert_eq!(term.render_text, "U+2");
    assert_eq!(term.render_width, 3);
}

#[test]
fn escape_is_upper_case_hexadecimal() {
    assert_eq!(get_unicode_string('\u{0}'), "U+0");
    assert_eq!(get_unicode_string('\u{f}'), "U+F");
    assert_eq!(get_unicode_string('\u{10}'), "U+10");
    assert_eq!(get_unicode_string('A'), "U+41");
    assert_eq!(get_unicode_string('\u{ab}'), "U+AB");
    assert_eq!(get_unicode_string('世'), "U+4E16");
    assert_eq!(get_unicode_string('\u{10ffff}'), "U+10FFFF");
    for c in ['\u{9}', '\u{7f}', 'z', '\u{e000}', '\u{1f600}'] {
        assert_eq!(get_unicode_string(c), format!("U+{:X}", c as u32));
    }
}

#[test]
fn terms_of_a_row() {
    let row: Vec<char> = "a\t世".chars().collect();
    let terms = RenderTerm::from_row(&row, 2);
    assert_eq!(terms.len(), 3);
    assert_eq!(terms[0], RenderTerm::from_char('a', 2));
    assert_eq!(terms[1], RenderTerm::from_char('\t', 2));
    assert_eq!(terms[2], RenderTerm::from_char('世', 2));
    assert!(RenderTerm::from_row(&Vec::new(), 2).is_empty());
}

#[test]
fn display_rows_are_closed_only_for_want_of_room() {
    let text = "hello\nworld.\n\n你好，我的世界\n\tx\u{7f}\nlast row of the text";
    let content = Content::from(text);
    for width in 0..12u16 {
        let layout =
            RenderContent::from_src_content_with_view_break(&content, &window(0, width, 200), 4);
        for pair in layout.lines.windows(2) {
            if pair[0].src_line_index != pair[1].src_line_index {
                continue;
            }
            let total: usize = pair[0].terms.iter().map(|term| term.render_width).sum();
            assert!(!pair[1].terms.is_empty());
            assert!(total + pair[1].terms[0].render_width > width as usize);
        }
    }
}
