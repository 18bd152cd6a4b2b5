use otree::config::keys::{Action, Key, KeyAction};
use otree::doc::Node;
use otree::parse::ContentType;
use otree::ui::filter::{on_key, title, FilterAction, FilterOptions, FilterTarget, TextEdit};
use otree::ui::header::HeaderContext;
use otree::ui::scroll::{DataBlock, ScrollDirection};

fn options(text: &str, target: FilterTarget, ignore_case: bool) -> FilterOptions {
    FilterOptions { text: text.to_string(), target, ignore_case }
}

#[test]
fn filter_contains() {
    assert!(options("ell", FilterTarget::All, false).contains("hello"));
    assert!(!options("ELL", FilterTarget::All, false).contains("hello"));
    assert!(options("ELL", FilterTarget::All, true).contains("hello"));
    assert!(options("ell", FilterTarget::All, true).contains("HELLO"));
    assert!(!options("", FilterTarget::All, false).contains("hello"));
    assert!(!options("a", FilterTarget::All, false).contains(""));
    assert!(!options("hello!", FilterTarget::All, false).contains("hello"));
    assert!(options("hello", FilterTarget::All, false).contains("hello"));
}

#[test]
fn filter_targets() {
    let value = Node::String("needle in the hay".to_string());
    let number = Node::Number("1234".to_string());
    assert!(options("name", FilterTarget::Key, false).filter("my-name", &value));
    assert!(!options("needle", FilterTarget::Key, false).filter("my-name", &value));
    assert!(options("needle", FilterTarget::Value, false).filter("my-name", &value));
    assert!(!options("name", FilterTarget::Value, false).filter("my-name", &value));
    assert!(options("name", FilterTarget::All, false).filter("my-name", &value));
    assert!(options("needle", FilterTarget::All, false).filter("my-name", &value));
    assert!(!options("other", FilterTarget::All, false).filter("my-name", &value));
    assert!(options("23", FilterTarget::Value, false).filter("n", &number));
    assert!(!options("true", FilterTarget::Value, false).filter("n", &Node::Bool(true)));
    assert!(!options("null", FilterTarget::All, false).filter("n", &Node::Null));
}

fn pressed(key: Key, action: Option<Action>) -> KeyAction {
    KeyAction { key, action }
}

#[test]
fn filter_keys() {
    assert_eq!(
        on_key(pressed(Key::Char('x'), Some(Action::Quit)), true),
        (FilterAction::Edit, Some(TextEdit::Insert('x')))
    );
    assert_eq!(on_key(pressed(Key::Enter, None), false), (FilterAction::Skip, None));
    assert_eq!(
        on_key(pressed(Key::Enter, Some(Action::SelectFocus)), false),
        (FilterAction::Confirm, None)
    );
    assert_eq!(
        on_key(pressed(Key::Enter, Some(Action::SelectFocus)), true),
        (FilterAction::Quit, None)
    );
    assert_eq!(on_key(pressed(Key::Tab, Some(Action::Switch)), false), (FilterAction::Confirm, None));
    assert_eq!(
        on_key(pressed(Key::Backspace, Some(Action::CloseParent)), false),
        (FilterAction::Edit, Some(TextEdit::Delete))
    );
    assert_eq!(
        on_key(pressed(Key::Left, Some(Action::MoveLeft)), false),
        (FilterAction::Edit, Some(TextEdit::Back))
    );
    assert_eq!(
        on_key(pressed(Key::Right, Some(Action::MoveRight)), false),
        (FilterAction::Edit, Some(TextEdit::Forward))
    );
    assert_eq!(
        on_key(pressed(Key::Ctrl('a'), Some(Action::SelectFirst)), false),
        (FilterAction::Edit, Some(TextEdit::Head))
    );
    assert_eq!(
        on_key(pressed(Key::Ctrl('l'), Some(Action::SelectLast)), false),
        (FilterAction::Edit, Some(TextEdit::End))
    );
    assert_eq!(on_key(pressed(Key::Esc, Some(Action::Reset)), false), (FilterAction::Quit, None));
    assert_eq!(on_key(pressed(Key::Up, Some(Action::MoveUp)), false), (FilterAction::Skip, None));
}

#[test]
fn header_format() {
    let ctx = HeaderContext::new(
        "otree 1".to_string(),
        Some("data.json".to_string()),
        ContentType::Json,
        "2 KiB".to_string(),
    );
    assert_eq!(
        ctx.format("{version} - {data_source} ({content_type}) - {data_size}"),
        "otree 1 - data.json (json) - 2 KiB"
    );
    assert_eq!(ctx.format("{data_size}{data_size} {unknown}"), "2 KiB2 KiB {unknown}");
    assert_eq!(ctx.format(""), "");

    let ctx = HeaderContext::new("v".to_string(), None, ContentType::Jsonl, "0 B".to_string());
    assert_eq!(ctx.data_source, "stdin");
    assert_eq!(ctx.content_type, "jsonl");
    // A value that holds a later placeholder is filled in turn.
    let ctx = HeaderContext::new(
        "{data_size}".to_string(),
        None,
        ContentType::Toml,
        "9".to_string(),
    );
    assert_eq!(ctx.format("{version}"), "9");
}

fn block() -> DataBlock {
    let mut block = DataBlock::new();
    block.update_scroll("a/b".to_string(), 100, 200, 20, 80, false);
    block
}

#[test]
fn scroll_extents() {
    let block = block();
    assert!(block.can_vertical_scroll);
    assert_eq!(block.vertical_scroll_last, 85);
    assert!(block.can_horizontal_scroll);
    assert_eq!(block.horizontal_scroll_last, 125);
    assert_eq!(block.identify, "a/b");

    let mut fits = DataBlock::new();
    fits.update_scroll("x".to_string(), 15, 75, 20, 80, false);
    assert!(!fits.can_vertical_scroll);
    assert!(!fits.can_horizontal_scroll);
    fits.update_scroll("x".to_string(), 16, 76, 20, 80, false);
    assert!(fits.can_vertical_scroll);
    assert_eq!(fits.vertical_scroll_last, 1);
    assert!(fits.can_horizontal_scroll);
    assert_eq!(fits.horizontal_scroll_last, 1);

    let mut wrapped = DataBlock::new();
    wrapped.update_scroll("x".to_string(), 100, 200, 20, 80, true);
    assert!(wrapped.can_vertical_scroll);
    assert!(!wrapped.can_horizontal_scroll);

    let mut huge = DataBlock::new();
    huge.update_scroll("x".to_string(), usize::MAX, 0, 20, 80, false);
    assert_eq!(huge.vertical_scroll_last, usize::MAX - 20);
}

#[test]
fn scroll_moves() {
    let mut block = block();
    assert!(!block.scroll_up(1));
    assert!(block.scroll_down(10));
    assert_eq!(block.vertical_scroll, 10);
    assert!(block.scroll_up(3));
    assert_eq!(block.vertical_scroll, 7);
    assert!(block.scroll_up(100));
    assert_eq!(block.vertical_scroll, 0);
    assert!(block.scroll_down(usize::MAX));
    assert_eq!(block.vertical_scroll, 85);
    assert!(!block.scroll_down(1));
    assert!(!block.scroll_last());
    assert!(block.scroll_right(200));
    assert_eq!(block.horizontal_scroll, 125);
    assert!(!block.scroll_right(1));
    assert!(block.scroll_left(5));
    assert_eq!(block.horizontal_scroll, 120);
    assert!(block.scroll_first());
    assert_eq!((block.vertical_scroll, block.horizontal_scroll), (0, 0));
    assert!(!block.scroll_first());
    assert!(!block.scroll_left(1));
    assert!(block.scroll_last());
    assert_eq!(block.vertical_scroll, 85);
}

#[test]
fn scroll_by_key_and_wheel() {
    let mut block = block();
    assert!(block.on_key(Action::MoveDown));
    assert!(block.on_key(Action::MoveRight));
    assert_eq!((block.vertical_scroll, block.horizontal_scroll), (1, 1));
    assert!(block.on_key(Action::MoveLeft));
    assert!(block.on_key(Action::MoveUp));
    assert_eq!((block.vertical_scroll, block.horizontal_scroll), (0, 0));
    assert!(block.on_key(Action::SelectLast));
    assert!(block.on_key(Action::SelectFirst));
    assert!(!block.on_key(Action::Quit));
    assert!(block.on_scroll(ScrollDirection::Down));
    assert_eq!(block.vertical_scroll, 3);
    assert!(block.on_scroll(ScrollDirection::Up));
    assert_eq!(block.vertical_scroll, 0);
    assert!(!block.on_scroll(ScrollDirection::Up));
}

#[test]
fn scroll_starts_anew_for_another_node() {
    let mut block = block();
    block.scroll_down(10);
    block.scroll_right(10);
    block.update_scroll("a/b".to_string(), 100, 200, 20, 80, false);
    assert_eq!((block.vertical_scroll, block.horizontal_scroll), (10, 10));
    block.update_scroll("a/c".to_string(), 100, 200, 20, 80, false);
    assert_eq!((block.vertical_scroll, block.horizontal_scroll), (0, 0));
    block.scroll_down(10);
    block.reset();
    assert_eq!(block, DataBlock::new());
}

#[test]
fn filter_titles() {
    assert_eq!(title(FilterTarget::All, false), "Filter (*)");
    assert_eq!(title(FilterTarget::Key, false), "Filter (K)");
    assert_eq!(title(FilterTarget::Value, true), "Filter (I,V)");
    assert_eq!(title(FilterTarget::All, true), "Filter (I,*)");
}
