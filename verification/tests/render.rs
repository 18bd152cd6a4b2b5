use otree::parse::render::{indent_text, RenderOptions, Rendered, Span, Style, TextWrapper};
use otree::parse::syntax::SyntaxToken;

fn span(text: &str, style: Option<Style>) -> Span {
    Span { text: text.to_string(), style }
}

fn plain() -> RenderOptions {
    RenderOptions { disable_highlight: false, wrap: false }
}

fn wrapping() -> RenderOptions {
    RenderOptions { disable_highlight: false, wrap: true }
}

fn line_text(line: &[Span]) -> String {
    line.iter().map(|s| s.text.as_str()).collect()
}

#[test]
fn render_without_wrap() {
    let tokens = vec![
        SyntaxToken::Symbol("{"),
        SyntaxToken::Break,
        SyntaxToken::Indent(1),
        SyntaxToken::Name("\"key\"".to_string()),
        SyntaxToken::Symbol(": "),
        SyntaxToken::String("\"value\"".to_string()),
        SyntaxToken::Break,
        SyntaxToken::Symbol("}"),
    ];
    let rendered = SyntaxToken::render(&plain(), &tokens, 10);
    assert_eq!(
        rendered,
        Rendered {
            lines: vec![
                vec![span("{", Some(Style::Symbol))],
                vec![
                    span("  ", None),
                    span("\"key\"", Some(Style::Name)),
                    span(": ", Some(Style::Symbol)),
                    span("\"value\"", Some(Style::Str)),
                ],
                vec![span("}", Some(Style::Symbol))],
            ],
            rows: 2,
            columns: 16,
        }
    );
}

#[test]
fn render_styles_follow_the_tokens() {
    let tokens = vec![
        SyntaxToken::Tag("<a>".to_string()),
        SyntaxToken::Number("1".to_string()),
        SyntaxToken::Null("null"),
        SyntaxToken::Bool("true"),
        SyntaxToken::Section("[s]".to_string()),
    ];
    let rendered = SyntaxToken::render(&plain(), &tokens, 80);
    assert_eq!(
        rendered.lines,
        vec![vec![
            span("<a>", Some(Style::Tag)),
            span("1", Some(Style::Num)),
            span("null", Some(Style::Null)),
            span("true", Some(Style::Bool)),
            span("[s]", Some(Style::Section)),
        ]]
    );
    assert_eq!((rendered.rows, rendered.columns), (0, 0));

    let options = RenderOptions { disable_highlight: true, wrap: false };
    let rendered = SyntaxToken::render(&options, &tokens, 80);
    assert!(rendered.lines[0].iter().all(|s| s.style.is_none()));
}

#[test]
fn render_is_repeatable() {
    let tokens = vec![
        SyntaxToken::String("some longer text that has to be wrapped somewhere".to_string()),
        SyntaxToken::Break,
        SyntaxToken::Indent(3),
        SyntaxToken::Name("名前".to_string()),
    ];
    for options in [plain(), wrapping()] {
        for width in [0usize, 1, 5, 13, 14, 20, 80] {
            let first = SyntaxToken::render(&options, &tokens, width);
            let second = SyntaxToken::render(&options, &tokens, width);
            assert_eq!(first, second);
        }
    }
}

#[test]
fn render_wraps_at_separators() {
    let tokens = vec![SyntaxToken::String("hello wonderful world".to_string())];
    // Three columns are kept free: the area is 15 wide.
    let rendered = SyntaxToken::render(&wrapping(), &tokens, 18);
    let lines: Vec<String> = rendered.lines.iter().map(|l| line_text(l)).collect();
    // The separator at byte 15 is not before the width, so the one at byte 5 is taken.
    assert_eq!(lines, vec!["hello ", "\u{2937} wonderful ", "\u{2937} world"]);
    assert_eq!(rendered.lines[1][0], span("\u{2937} ", Some(Style::Symbol)));
    assert_eq!(rendered.lines[1][1], span("wonderful ", Some(Style::Str)));
    assert_eq!(rendered.rows, 2);
    assert_eq!(rendered.columns, 14);
}

#[test]
fn render_wraps_without_marker_in_a_narrow_area() {
    let tokens = vec![SyntaxToken::String("abcdefghij".to_string())];
    // The area is 4 wide: too narrow for the marker.
    let rendered = SyntaxToken::render(&wrapping(), &tokens, 7);
    let lines: Vec<String> = rendered.lines.iter().map(|l| line_text(l)).collect();
    assert_eq!(lines, vec!["abcd", "efgh", "ij"]);
    assert_eq!(rendered.rows, 2);
    assert_eq!(rendered.columns, 4);
}

#[test]
fn render_wrapped_parts_fit_the_area() {
    let text = "a long line of text, with several words, that needs more than one row";
    let tokens = vec![SyntaxToken::String(text.to_string())];
    let rendered = SyntaxToken::render(&wrapping(), &tokens, 23);
    let mut joined = String::new();
    for line in &rendered.lines {
        let mut width = 0;
        for span in line {
            width += span.text.chars().count();
            if span.style != Some(Style::Symbol) {
                joined.push_str(&span.text);
            }
        }
        assert!(width <= 20);
    }
    assert_eq!(joined, text);
    assert_eq!(rendered.rows + 1, rendered.lines.len());
}

#[test]
fn render_wrap_does_not_split_characters() {
    let tokens = vec![SyntaxToken::String("日本語のテキスト".to_string())];
    let rendered = SyntaxToken::render(&wrapping(), &tokens, 8);
    let mut joined = String::new();
    for line in &rendered.lines {
        joined.push_str(&line_text(line));
    }
    assert_eq!(joined, "日本語のテキスト");
}

#[test]
fn render_with_no_room_drops_text_when_wrapping() {
    let tokens = vec![SyntaxToken::String("text".to_string()), SyntaxToken::Break];
    let rendered = SyntaxToken::render(&wrapping(), &tokens, 3);
    assert_eq!(rendered, Rendered { lines: vec![vec![]], rows: 1, columns: 0 });
    let rendered = SyntaxToken::render(&plain(), &tokens, 3);
    assert_eq!(
        rendered,
        Rendered { lines: vec![vec![span("text", Some(Style::Str))]], rows: 1, columns: 4 }
    );
}

#[test]
fn render_leaves_out_a_last_line_without_width() {
    let tokens = vec![SyntaxToken::Symbol("x"), SyntaxToken::Break, SyntaxToken::Indent(0)];
    let rendered = SyntaxToken::render(&plain(), &tokens, 80);
    assert_eq!(rendered.lines, vec![vec![span("x", Some(Style::Symbol))]]);
    assert_eq!((rendered.rows, rendered.columns), (1, 1));
    assert_eq!(
        SyntaxToken::render(&plain(), &[], 80),
        Rendered { lines: vec![], rows: 0, columns: 0 }
    );
}

#[test]
fn render_counts_wide_characters() {
    let tokens = vec![SyntaxToken::String("日本".to_string()), SyntaxToken::Break];
    let rendered = SyntaxToken::render(&plain(), &tokens, 80);
    assert_eq!((rendered.rows, rendered.columns), (1, 4));
}

#[test]
fn text_wrapper_steps() {
    let mut wrapper = TextWrapper::new();
    wrapper.push("ab".to_string(), None, 2);
    wrapper.end_line();
    wrapper.push("abc".to_string(), Some(Style::Name), 3);
    wrapper.wrap_new_line(20);
    assert_eq!(wrapper.rows, 2);
    assert_eq!(wrapper.max_text_width, 3);
    assert_eq!(wrapper.current_width, 4);
    assert_eq!(wrapper.current_line, vec![span("\u{2937} ", Some(Style::Symbol))]);
    assert!(wrapper.current_has_width());
    wrapper.wrap_new_line(9);
    assert_eq!(wrapper.current_width, 0);
    assert!(wrapper.current_line.is_empty());
    assert!(!wrapper.current_has_width());
    wrapper.add_text_with_wrap("", None, 9);
    wrapper.add_text_with_wrap("x", None, 0);
    assert!(wrapper.current_line.is_empty());
    assert_eq!(wrapper.lines.len(), 3);
}

#[test]
fn indentation_is_two_spaces_a_level() {
    assert_eq!(indent_text(0), "");
    assert_eq!(indent_text(1), "  ");
    assert_eq!(indent_text(3), "      ");
}
