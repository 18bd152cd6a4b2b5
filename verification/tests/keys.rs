use otree::config::keys::{
    bytes_eq, Action, Key, KeyAction, KeyError, Keys, Modifiers, Pressed,
};

#[test]
fn plain_keys() {
    assert_eq!(Key::parse("a"), Ok(Key::Char('a')));
    assert_eq!(Key::parse("G"), Ok(Key::Char('G')));
    assert_eq!(Key::parse("/"), Ok(Key::Char('/')));
    assert_eq!(Key::parse(">"), Ok(Key::Char('>')));
    assert_eq!(Key::parse(""), Err(KeyError::Length));
    assert_eq!(Key::parse("ab"), Err(KeyError::Length));
    assert_eq!(Key::parse("é"), Err(KeyError::Length));
}

#[test]
fn keys_with_modifiers() {
    assert_eq!(Key::parse("<ctrl-a>"), Ok(Key::Ctrl('a')));
    assert_eq!(Key::parse("<ctrl->>"), Ok(Key::Ctrl('>')));
    assert_eq!(Key::parse("<alt-x>"), Ok(Key::Alt('x')));
    assert_eq!(Key::parse("<ctrl-ab>"), Err(KeyError::Ctrl));
    assert_eq!(Key::parse("<ctrl->"), Err(KeyError::Ctrl));
    assert_eq!(Key::parse("<alt->"), Err(KeyError::Alt));
    assert_eq!(Key::parse("<alt-xy>"), Err(KeyError::Alt));
}

#[test]
fn function_keys() {
    assert_eq!(Key::parse("<f1>"), Ok(Key::F(1)));
    assert_eq!(Key::parse("<f12>"), Ok(Key::F(12)));
    assert_eq!(Key::parse("<f+3>"), Ok(Key::F(3)));
    assert_eq!(Key::parse("<f007>"), Ok(Key::F(7)));
    assert_eq!(Key::parse("<f0>"), Err(KeyError::FunctionRange));
    assert_eq!(Key::parse("<f13>"), Err(KeyError::FunctionRange));
    assert_eq!(Key::parse("<f255>"), Err(KeyError::FunctionRange));
    assert_eq!(Key::parse("<f256>"), Err(KeyError::Function));
    assert_eq!(Key::parse("<f>"), Err(KeyError::Function));
    assert_eq!(Key::parse("<f+>"), Err(KeyError::Function));
    assert_eq!(Key::parse("<f-1>"), Err(KeyError::Function));
    assert_eq!(Key::parse("<fx>"), Err(KeyError::Function));
    assert_eq!(Key::parse("<f1x>"), Err(KeyError::Function));
}

#[test]
fn named_keys() {
    let cases = [
        ("<backspace>", Key::Backspace),
        ("<enter>", Key::Enter),
        ("<left>", Key::Left),
        ("<right>", Key::Right),
        ("<up>", Key::Up),
        ("<down>", Key::Down),
        ("<pageup>", Key::PageUp),
        ("<page-up>", Key::PageUp),
        ("<page_up>", Key::PageUp),
        ("<pagedown>", Key::PageDown),
        ("<page-down>", Key::PageDown),
        ("<tab>", Key::Tab),
        ("<esc>", Key::Esc),
        ("<e-s_c>", Key::Esc),
    ];
    for (text, key) in cases {
        assert_eq!(Key::parse(text), Ok(key), "text: {text}");
    }
    assert_eq!(Key::parse("<escape>"), Err(KeyError::Unsupported));
    assert_eq!(Key::parse("<>"), Err(KeyError::Unsupported));
    assert_eq!(Key::parse("<Enter>"), Err(KeyError::Unsupported));
    assert_eq!(Key::parse("<enter"), Err(KeyError::Unclosed));
    assert_eq!(Key::parse("<"), Err(KeyError::Unclosed));
}

#[test]
fn keys_of_one_action() {
    let mut unique = vec!["q".to_string()];
    let raw = vec!["k".to_string(), "<up>".to_string()];
    assert_eq!(Key::parse_keys(&raw, &mut unique), Ok(vec![Key::Char('k'), Key::Up]));
    assert_eq!(unique, vec!["q".to_string(), "k".to_string(), "<up>".to_string()]);

    let again = vec!["j".to_string(), "k".to_string()];
    assert_eq!(Key::parse_keys(&again, &mut unique), Err(KeyError::Duplicate));

    let mut unique = Vec::new();
    let bad = vec!["x".to_string(), "<nope>".to_string(), "y".to_string()];
    assert_eq!(Key::parse_keys(&bad, &mut unique), Err(KeyError::Unsupported));
    assert_eq!(unique, vec!["x".to_string(), "<nope>".to_string()]);
}

#[test]
fn default_bindings() {
    let keys = Keys::default();
    assert_eq!(keys.move_up, vec!["k", "<up>"]);
    assert_eq!(keys.move_down, vec!["j", "<down>"]);
    assert_eq!(keys.select_first, vec!["g", "<ctrl-a>"]);
    assert_eq!(keys.page_down, vec!["<page-down>", "<ctrl-e>"]);
    assert_eq!(keys.filter_switch_ignore_case, vec!["I"]);
    assert_eq!(keys.quit, vec!["<ctrl-c>", "q"]);
    assert_eq!(Keys::default_tree_scale_up(), vec!["["]);
    assert!(keys.actions.is_empty());
}

#[test]
fn default_bindings_parse() {
    let mut keys = Keys::default();
    assert_eq!(keys.parse(), Ok(()));
    assert_eq!(keys.actions.len(), 25);
    assert_eq!(keys.actions[0], (vec![Key::Char('k'), Key::Up], Action::MoveUp));
    assert_eq!(keys.actions[24], (vec![Key::Ctrl('c'), Key::Char('q')], Action::Quit));
    assert_eq!(
        keys.get_key_action(Key::Char('j')),
        KeyAction { key: Key::Char('j'), action: Some(Action::MoveDown) }
    );
    assert_eq!(
        keys.get_key_action(Key::Ctrl('l')),
        KeyAction { key: Key::Ctrl('l'), action: Some(Action::SelectLast) }
    );
    assert_eq!(
        keys.get_key_action(Key::Char('z')),
        KeyAction { key: Key::Char('z'), action: None }
    );
}

#[test]
fn bindings_with_a_key_bound_twice() {
    let mut keys = Keys::default();
    keys.move_down = vec!["k".to_string()];
    assert_eq!(keys.parse(), Err((1, KeyError::Duplicate)));
    assert!(keys.actions.is_empty());

    let mut keys = Keys::default();
    keys.quit = vec!["<quit>".to_string()];
    assert_eq!(keys.parse(), Err((24, KeyError::Unsupported)));
}

#[test]
fn the_last_binding_of_a_key_wins() {
    let mut keys = Keys::default();
    keys.actions = vec![
        (vec![Key::Char('a')], Action::MoveUp),
        (vec![Key::Char('b'), Key::Char('a')], Action::Quit),
        (vec![Key::Char('c')], Action::Edit),
    ];
    assert_eq!(keys.get_key_action(Key::Char('a')).action, Some(Action::Quit));
    assert_eq!(keys.get_key_action(Key::Char('c')).action, Some(Action::Edit));
    assert_eq!(keys.get_key_action(Key::Tab).action, None);
}

#[test]
fn byte_strings() {
    assert!(bytes_eq(b"", b""));
    assert!(bytes_eq(b"abc", b"abc"));
    assert!(!bytes_eq(b"abc", b"abd"));
    assert!(!bytes_eq(b"abc", b"abcd"));
}

#[test]
fn key_presses() {
    assert_eq!(Key::from_event(Modifiers::Plain, Pressed::Char('a')), Some(Key::Char('a')));
    assert_eq!(Key::from_event(Modifiers::Shift, Pressed::Char('A')), Some(Key::Char('A')));
    assert_eq!(Key::from_event(Modifiers::Control, Pressed::Char('c')), Some(Key::Ctrl('c')));
    assert_eq!(Key::from_event(Modifiers::Alt, Pressed::Char('x')), Some(Key::Alt('x')));
    assert_eq!(Key::from_event(Modifiers::Control, Pressed::Enter), None);
    assert_eq!(Key::from_event(Modifiers::Alt, Pressed::Tab), None);
    assert_eq!(Key::from_event(Modifiers::Shift, Pressed::Tab), None);
    assert_eq!(Key::from_event(Modifiers::Other, Pressed::Char('a')), None);
    assert_eq!(Key::from_event(Modifiers::Plain, Pressed::Other), None);
    let plain = [
        (Pressed::Backspace, Key::Backspace),
        (Pressed::Enter, Key::Enter),
        (Pressed::Left, Key::Left),
        (Pressed::Right, Key::Right),
        (Pressed::Up, Key::Up),
        (Pressed::Down, Key::Down),
        (Pressed::PageUp, Key::PageUp),
        (Pressed::PageDown, Key::PageDown),
        (Pressed::Tab, Key::Tab),
        (Pressed::Esc, Key::Esc),
        (Pressed::F(5), Key::F(5)),
    ];
    for (code, key) in plain {
        assert_eq!(Key::from_event(Modifiers::Plain, code), Some(key));
    }
}
