use otree::config::keys::{Action, Key, KeyAction};
use otree::ui::filter::{FilterAction, FilterTarget};
use otree::ui::screen::{Area, ClickEffect, KeyEffect, Screen, ScrollTarget};
use otree::config::LayoutDirection;
use otree::edit::{command_args, file_name};
use otree::live_reload::Data;
use otree::parse::ContentType;
use otree::ui::focus::{
    change_layout, divide_rows, get_row_inside, tree_scale_down, tree_scale_up, ElementInFocus,
    Focus, Rows,
};
use otree::ui::footer::{footer_line, FooterSpan, FooterStyle, FooterText};
use otree::ui::popup::Popup;
use otree::ui::scroll::ScrollDirection;

fn span(text: &str, style: FooterStyle) -> FooterSpan {
    FooterSpan { text: text.to_string(), style }
}

#[test]
fn footer_message_and_nothing() {
    assert_eq!(
        footer_line(&FooterText::Message("done".to_string()), 10),
        vec![span("done", FooterStyle::Message)]
    );
    assert_eq!(footer_line(&FooterText::Empty, 10), vec![]);
}

#[test]
fn footer_that_fits() {
    let roots = vec!["first".to_string(), "second".to_string()];
    let text = FooterText::Identify(&roots, Some("a/b".to_string()));
    assert_eq!(
        footer_line(&text, 80),
        vec![
            span(" /first ", FooterStyle::Root),
            span(" ", FooterStyle::Plain),
            span(" /second ", FooterStyle::Root),
            span(" ", FooterStyle::Plain),
            span(" /a/b ", FooterStyle::Identify),
        ]
    );
    let text = FooterText::Identify(&[], Some("x".to_string()));
    assert_eq!(footer_line(&text, 80), vec![span(" /x ", FooterStyle::Identify)]);
    let text = FooterText::Identify(&roots, None);
    assert_eq!(footer_line(&text, 80).len(), 4);
}

#[test]
fn footer_shortens_roots_from_the_left() {
    let roots = vec!["first".to_string(), "second".to_string()];
    let text = FooterText::Identify(&roots, Some("a/b".to_string()));
    // In full the footer is 9 + 10 + 6 = 25 wide.
    assert_eq!(footer_line(&text, 26)[0], span(" /first ", FooterStyle::Root));
    assert_eq!(
        footer_line(&text, 25),
        vec![
            span(" /f.. ", FooterStyle::Root),
            span(" ", FooterStyle::Plain),
            span(" /second ", FooterStyle::Root),
            span(" ", FooterStyle::Plain),
            span(" /a/b ", FooterStyle::Identify),
        ]
    );
    assert_eq!(
        footer_line(&text, 23),
        vec![
            span(" /f.. ", FooterStyle::Root),
            span(" ", FooterStyle::Plain),
            span(" /s.. ", FooterStyle::Root),
            span(" ", FooterStyle::Plain),
            span(" /a/b ", FooterStyle::Identify),
        ]
    );
}

#[test]
fn footer_leaves_roots_out() {
    let roots = vec!["first".to_string(), "second".to_string(), "".to_string()];
    let text = FooterText::Identify(&roots, Some("a/b".to_string()));
    // In full: 9 + 10 + 4 + 6 = 29. Two roots in short: 7 + 7 + 4 + 6 = 24.
    assert_eq!(
        footer_line(&text, 26),
        vec![
            span(" /f.. ", FooterStyle::Root),
            span(" ", FooterStyle::Plain),
            span(" /s.. ", FooterStyle::Root),
            span(" ", FooterStyle::Plain),
            span(" / ", FooterStyle::Root),
            span(" ", FooterStyle::Plain),
            span(" /a/b ", FooterStyle::Identify),
        ]
    );
    // All roots in short: 7 + 7 + 7 + 6 = 27, with room for the count 31.
    assert_eq!(
        footer_line(&text, 22),
        vec![
            span("2..", FooterStyle::Root),
            span(" ", FooterStyle::Plain),
            span(" /?.. ", FooterStyle::Root),
            span(" ", FooterStyle::Plain),
            span(" /a/b ", FooterStyle::Identify),
        ]
    );
    assert_eq!(
        footer_line(&text, 20),
        vec![
            span("3..", FooterStyle::Root),
            span(" ", FooterStyle::Plain),
            span(" /a/b ", FooterStyle::Identify),
        ]
    );
    assert_eq!(footer_line(&text, 0), footer_line(&text, 20));
}

#[test]
fn tree_share() {
    assert_eq!(tree_scale_up(40), Some(42));
    assert_eq!(tree_scale_up(79), Some(80));
    assert_eq!(tree_scale_up(80), None);
    assert_eq!(tree_scale_up(90), Some(80));
    assert_eq!(tree_scale_down(40), Some(38));
    assert_eq!(tree_scale_down(11), Some(10));
    assert_eq!(tree_scale_down(10), None);
    assert_eq!(tree_scale_down(0), Some(10));
    assert_eq!(change_layout(LayoutDirection::Vertical), LayoutDirection::Horizontal);
    assert_eq!(change_layout(LayoutDirection::Horizontal), LayoutDirection::Vertical);
}

#[test]
fn rows_inside_an_area() {
    assert_eq!(get_row_inside(5, 5, 0, 0, 10, 10), Some(4));
    assert_eq!(get_row_inside(0, 0, 0, 0, 10, 10), Some(0));
    assert_eq!(get_row_inside(9, 9, 0, 0, 10, 10), Some(8));
    assert_eq!(get_row_inside(10, 5, 0, 0, 10, 10), None);
    assert_eq!(get_row_inside(5, 10, 0, 0, 10, 10), None);
    assert_eq!(get_row_inside(5, 5, 6, 0, 10, 10), None);
    assert_eq!(get_row_inside(5, 5, 0, 0, 0, 0), None);
    assert_eq!(get_row_inside(5, 7, 2, 3, 10, 10), Some(3));
    assert_eq!(get_row_inside(u16::MAX, 0, u16::MAX - 1, 0, 10, 1), None);
    assert_eq!(get_row_inside(u16::MAX - 1, 0, u16::MAX - 1, 0, 10, 1), Some(0));
}

#[test]
fn rows_of_the_screen() {
    assert_eq!(
        divide_rows(24, true, true),
        Rows { skip_header: false, skip_footer: false, main_y: 1, main_height: 22, footer_y: 23 }
    );
    assert_eq!(
        divide_rows(24, false, false),
        Rows { skip_header: false, skip_footer: false, main_y: 0, main_height: 24, footer_y: 0 }
    );
    assert_eq!(
        divide_rows(2, true, true),
        Rows { skip_header: true, skip_footer: true, main_y: 0, main_height: 2, footer_y: 0 }
    );
    assert_eq!(
        divide_rows(3, true, true),
        Rows { skip_header: false, skip_footer: true, main_y: 1, main_height: 2, footer_y: 0 }
    );
    assert_eq!(
        divide_rows(3, false, true),
        Rows { skip_header: false, skip_footer: false, main_y: 0, main_height: 2, footer_y: 3 }
    );
}

#[test]
fn focus_moves() {
    let mut focus = Focus::new();
    assert_eq!(focus.focus, ElementInFocus::TreeOverview);
    assert!(focus.can_switch_to_data_block(true));
    assert!(!focus.can_switch_to_data_block(false));

    assert!(!focus.on_focus_changed(true));
    assert!(focus.on_focus_changed(false));
    assert_eq!(focus.focus, ElementInFocus::Nothing);
    assert_eq!(focus.last_focus, Some(ElementInFocus::TreeOverview));
    assert!(focus.can_switch_to_data_block(false));
    assert!(!focus.on_focus_changed(false));
    focus.last_focus = Some(ElementInFocus::DataBlock);
    assert!(focus.on_focus_changed(true));
    assert_eq!(focus.focus, ElementInFocus::DataBlock);
    assert_eq!(focus.last_focus, None);
    assert!(!focus.can_switch_to_data_block(true));

    focus.popup();
    assert_eq!(focus.focus, ElementInFocus::Popup);
    assert_eq!(focus.before_popup_focus, ElementInFocus::DataBlock);
    focus.popup();
    assert_eq!(focus.before_popup_focus, ElementInFocus::DataBlock);
    focus.disable_popup();
    assert_eq!(focus.focus, ElementInFocus::DataBlock);

    let mut focus = Focus::new();
    focus.focus = ElementInFocus::Popup;
    focus.disable_popup();
    assert_eq!(focus.focus, ElementInFocus::TreeOverview);
    focus.focus = ElementInFocus::Filter;
    assert!(focus.can_switch_to_data_block(false));
}

#[test]
fn popup_scrolls() {
    let mut popup = Popup::new();
    assert!(popup.is_disabled());
    assert!(!popup.scroll_down(1));
    assert!(!popup.on_key(Action::MoveDown));
    assert!(!popup.disable());
    popup.set_data();
    assert!(!popup.is_disabled());
    assert!(!popup.scroll_up(1));
    assert!(popup.on_key(Action::MoveDown));
    assert!(popup.on_scroll(ScrollDirection::Down));
    assert_eq!(popup.scroll, 4);
    assert!(popup.on_scroll(ScrollDirection::Up));
    assert_eq!(popup.scroll, 1);
    assert!(popup.on_key(Action::MoveUp));
    assert_eq!(popup.scroll, 0);
    assert!(!popup.on_key(Action::MoveUp));
    assert!(!popup.on_key(Action::Quit));
    assert!(popup.scroll_down(usize::MAX));
    assert!(popup.scroll_down(1));
    assert_eq!(popup.scroll, usize::MAX);
    assert!(popup.on_key(Action::Reset));
    assert_eq!(popup, Popup::new());
    popup.set_data();
    assert!(popup.on_key(Action::SelectFocus));
    assert!(popup.is_disabled());
}

#[test]
fn files_for_the_editor() {
    assert_eq!(file_name("a/b/c", "json"), "otree_a_b_c.json");
    assert_eq!(file_name("plain", "txt"), "otree_plain.txt");
    assert_eq!(file_name("", "yaml"), "otree_.yaml");
    let args = vec!["-n".to_string(), "{file}".to_string(), "+{file}:{file}".to_string()];
    assert_eq!(command_args(&args, "/tmp/x"), vec!["-n", "/tmp/x", "+/tmp/x:/tmp/x"]);
    assert_eq!(command_args(&vec![], "/tmp/x"), Vec::<String>::new());
}

#[test]
fn reloaded_data() {
    let mut data = Data::new();
    assert_eq!(data.get_data(), None);
    assert!(data.parse_tree(ContentType::Json, 100).is_none());
    assert_eq!(data.get_err(), None);

    data.set_data("{\"a\": 1}".to_string());
    let tree = data.parse_tree(ContentType::Json, 100).unwrap();
    assert_eq!(*tree.identifies(), vec!["a"]);
    assert_eq!(data.get_data(), None);
    assert_eq!(data.get_err(), None);

    data.set_data("{\"a\": 1}".to_string());
    assert!(data.parse_tree(ContentType::Json, 7).is_none());
    assert_eq!(data.get_err(), Some("file size exceeds the limit".to_string()));
    assert_eq!(data.get_err(), None);

    data.set_data("{\"a\": 1}".to_string());
    assert!(data.parse_tree(ContentType::Json, 8).is_some());

    data.set_data("[".to_string());
    assert!(data.parse_tree(ContentType::Json, 100).is_none());
    assert!(data.get_err().unwrap().starts_with("parse JSON: "));

    data.set_err("kept".to_string());
    data.set_data("x".to_string());
    assert_eq!(data.get_data(), Some("x".to_string()));
    assert_eq!(data.get_err(), Some("kept".to_string()));
}

fn screen() -> Screen {
    Screen {
        focus: Focus::new(),
        layout_direction: LayoutDirection::Horizontal,
        layout_tree_size: 40,
        filter_open: false,
        tree_area: Area { x: 0, y: 1, width: 40, height: 20 },
        data_area: Area { x: 40, y: 1, width: 60, height: 20 },
        filter_area: Area { x: 0, y: 1, width: 40, height: 0 },
    }
}

fn key(action: Option<Action>) -> KeyAction {
    KeyAction { key: Key::Tab, action }
}

#[test]
fn keys_on_the_screen() {

    let mut s = screen();
    assert_eq!(s.on_key(key(None), None, true, false), KeyEffect::Skip);
    assert_eq!(s.on_key(key(Some(Action::Quit)), None, true, false), KeyEffect::Quit);
    assert_eq!(s.on_key(key(Some(Action::Switch)), None, false, false), KeyEffect::Skip);
    assert_eq!(s.on_key(key(Some(Action::Switch)), None, true, false), KeyEffect::Update);
    assert_eq!(s.focus.focus, ElementInFocus::DataBlock);
    assert_eq!(s.on_key(key(Some(Action::MoveDown)), None, true, false), KeyEffect::DataBlock);
    assert_eq!(s.on_key(key(Some(Action::Edit)), None, true, false), KeyEffect::Edit);
    assert_eq!(s.on_key(key(Some(Action::Switch)), None, true, false), KeyEffect::Update);
    assert_eq!(s.focus.focus, ElementInFocus::TreeOverview);

    assert_eq!(s.on_key(key(Some(Action::ChangeLayout)), None, true, false), KeyEffect::Update);
    assert_eq!(s.layout_direction, LayoutDirection::Vertical);
    assert_eq!(s.on_key(key(Some(Action::TreeScaleUp)), None, true, false), KeyEffect::Update);
    assert_eq!(s.layout_tree_size, 42);
    s.layout_tree_size = 80;
    assert_eq!(s.on_key(key(Some(Action::TreeScaleUp)), None, true, false), KeyEffect::Skip);
    s.layout_tree_size = 10;
    assert_eq!(s.on_key(key(Some(Action::TreeScaleDown)), None, true, false), KeyEffect::Skip);
    assert_eq!(s.on_key(key(Some(Action::CopyName)), None, true, false), KeyEffect::CopyName);
    assert_eq!(s.on_key(key(Some(Action::CopyValue)), None, true, false), KeyEffect::CopyValue);
    assert_eq!(
        s.on_key(key(Some(Action::MoveUp)), None, true, false),
        KeyEffect::Tree { close_filter: false }
    );

    // The filter.
    assert_eq!(s.on_key(key(Some(Action::Filter)), None, true, true), KeyEffect::Skip);
    assert_eq!(
        s.on_key(key(Some(Action::FilterSwitchIgnoreCase)), None, true, false),
        KeyEffect::Skip
    );
    assert_eq!(
        s.on_key(key(Some(Action::FilterKey)), None, true, false),
        KeyEffect::OpenFilter(FilterTarget::Key)
    );
    assert!(s.filter_open);
    assert_eq!(s.focus.focus, ElementInFocus::Filter);
    assert_eq!(
        s.on_key(key(Some(Action::Quit)), Some(FilterAction::Edit), true, false),
        KeyEffect::ApplyFilter
    );
    assert_eq!(
        s.on_key(key(Some(Action::FilterValue)), Some(FilterAction::Skip), true, false),
        KeyEffect::RetargetFilter(FilterTarget::Value)
    );
    assert_eq!(
        s.on_key(key(None), Some(FilterAction::Confirm), true, false),
        KeyEffect::ApplyFilter
    );
    assert_eq!(s.focus.focus, ElementInFocus::TreeOverview);
    assert_eq!(
        s.on_key(key(Some(Action::FilterSwitchIgnoreCase)), None, true, false),
        KeyEffect::SwitchFilterCase
    );
    assert_eq!(
        s.on_key(key(Some(Action::ChangeRoot)), None, true, false),
        KeyEffect::Tree { close_filter: true }
    );
    assert!(!s.filter_open);
    s.filter_open = true;
    assert_eq!(s.on_key(key(Some(Action::Reset)), None, true, false), KeyEffect::CloseFilter);
    assert!(!s.filter_open);
    s.filter_open = true;
    s.focus.focus = ElementInFocus::Filter;
    assert_eq!(
        s.on_key(key(None), Some(FilterAction::Quit), true, false),
        KeyEffect::CloseFilter
    );
    assert!(!s.filter_open);
    assert_eq!(s.focus.focus, ElementInFocus::TreeOverview);

    // The popup.
    s.focus.popup();
    assert_eq!(s.on_key(key(Some(Action::MoveDown)), None, true, false), KeyEffect::Popup);
    assert_eq!(s.on_key(key(Some(Action::Edit)), None, true, false), KeyEffect::Skip);
    assert_eq!(s.on_key(key(Some(Action::Quit)), None, true, false), KeyEffect::Update);
    assert_eq!(s.focus.focus, ElementInFocus::TreeOverview);
    s.focus.focus = ElementInFocus::Nothing;
    assert_eq!(s.on_key(key(Some(Action::MoveDown)), None, true, false), KeyEffect::Skip);
}

#[test]
fn clicks_and_the_wheel() {

    let mut s = screen();
    assert_eq!(s.on_click(50, 5, false), ClickEffect::Skip);
    assert_eq!(s.on_click(50, 5, true), ClickEffect::Update);
    assert_eq!(s.focus.focus, ElementInFocus::DataBlock);
    assert_eq!(s.on_click(50, 5, true), ClickEffect::Skip);
    assert_eq!(s.on_click(5, 5, true), ClickEffect::Tree);
    assert_eq!(s.focus.focus, ElementInFocus::TreeOverview);
    assert_eq!(s.on_click(5, 0, true), ClickEffect::Skip);
    assert_eq!(s.on_click(100, 5, true), ClickEffect::Skip);

    s.filter_open = true;
    s.filter_area = Area { x: 0, y: 1, width: 40, height: 3 };
    s.tree_area = Area { x: 0, y: 4, width: 40, height: 17 };
    assert_eq!(s.on_click(5, 2, true), ClickEffect::Update);
    assert_eq!(s.focus.focus, ElementInFocus::Filter);
    assert_eq!(s.on_click(50, 5, false), ClickEffect::Update);
    assert_eq!(s.focus.focus, ElementInFocus::DataBlock);
    s.filter_open = false;
    assert_eq!(s.on_click(5, 2, true), ClickEffect::Skip);

    assert_eq!(s.on_scroll(5, 5), ScrollTarget::Tree);
    assert_eq!(s.on_scroll(50, 5), ScrollTarget::DataBlock);
    assert_eq!(s.on_scroll(5, 0), ScrollTarget::Nothing);
    s.focus.popup();
    assert_eq!(s.on_scroll(5, 5), ScrollTarget::Popup);
    assert_eq!(s.on_click(5, 5, true), ClickEffect::ClosePopup);
    assert_eq!(s.focus.focus, ElementInFocus::Popup);
    assert!(Area { x: 1, y: 1, width: 2, height: 2 }.contains(2, 2));
    assert!(!Area { x: 1, y: 1, width: 2, height: 2 }.contains(3, 2));
}
