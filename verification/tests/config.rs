use otree::cmd::CommandArgs;
use otree::config::types::Types;
use otree::config::{
    Config, ConfigError, Data, Editor, Filter, Footer, Header, Layout, LayoutDirection,
    MAX_LAYOUT_TREE_SIZE, MIN_LAYOUT_TREE_SIZE,
};
use otree::config::keys::KeyError;
use otree::parse::ContentType;

fn args() -> CommandArgs {
    CommandArgs {
        path: None,
        config: None,
        content_type: None,
        to: None,
        disable_header: false,
        disable_footer: false,
        disable_filter: false,
        tree_disable_selected_highlight: false,
        tree_selected_symbol: None,
        filter_ignore_case: false,
        filter_exclude_mode: false,
        header_format: None,
        vertical: false,
        horizontal: false,
        size: None,
        disable_highlight: false,
        show_config: false,
        ignore_config: false,
        build_info: false,
        max_data_size: None,
        live_reload: false,
        debug: None,
        version: false,
    }
}

#[test]
fn defaults() {
    let cfg = Config::default("nano".to_string());
    assert_eq!(
        cfg.editor,
        Editor { program: "nano".to_string(), args: vec!["{file}".to_string()], dir: "/tmp".to_string() }
    );
    assert_eq!(Editor::default_program(), "vim");
    assert_eq!(cfg.data, Data { disable_highlight: false, wrap: false, max_data_size: 30 });
    assert_eq!(cfg.layout, Layout { direction: LayoutDirection::Horizontal, tree_size: 40 });
    assert_eq!(
        cfg.header,
        Header {
            disable: false,
            format: "{version} - {data_source} ({content_type}) - {data_size}".to_string(),
        }
    );
    assert_eq!(cfg.footer, Footer { disable: false });
    assert_eq!(cfg.filter, Filter { disable: false, ignore_case: false, exclude_mode: false });
    assert_eq!(
        cfg.types,
        Types {
            str: "str".to_string(),
            null: "null".to_string(),
            bool: "bool".to_string(),
            num: "num".to_string(),
            arr: "arr".to_string(),
            obj: "obj".to_string(),
        }
    );
    assert_eq!(Layout::default_tree_size(), 40);
    assert_eq!(Layout::default_direction(), LayoutDirection::Horizontal);
    assert_eq!(Config::default_max_data_size(), 30);
}

#[test]
fn settings_are_checked() {
    let mut cfg = Config::default("vim".to_string());
    assert_eq!(cfg.parse(), Ok(()));
    assert_eq!(cfg.keys.actions.len(), 25);

    for size in [MIN_LAYOUT_TREE_SIZE, MAX_LAYOUT_TREE_SIZE, 50] {
        let mut cfg = Config::default("vim".to_string());
        cfg.layout.tree_size = size;
        assert_eq!(cfg.parse(), Ok(()));
    }
    for size in [0, MIN_LAYOUT_TREE_SIZE - 1, MAX_LAYOUT_TREE_SIZE + 1, u16::MAX] {
        let mut cfg = Config::default("vim".to_string());
        cfg.layout.tree_size = size;
        assert_eq!(cfg.parse(), Err(ConfigError::TreeSize));
        assert!(cfg.keys.actions.is_empty());
    }

    let mut cfg = Config::default("vim".to_string());
    cfg.keys.edit = vec!["<nothing>".to_string()];
    assert_eq!(cfg.parse(), Err(ConfigError::Key(17, KeyError::Unsupported)));
    assert_eq!(cfg.check_tree_size(), Ok(()));
    assert_eq!(cfg.parse_keys(), Err(ConfigError::Key(17, KeyError::Unsupported)));
    cfg.layout.tree_size = 9;
    assert_eq!(cfg.check_tree_size(), Err(ConfigError::TreeSize));
}

#[test]
fn arguments_change_the_settings() {
    let mut cfg = Config::default("vim".to_string());
    let mut given = args();
    given.vertical = true;
    given.disable_header = true;
    given.disable_footer = true;
    given.disable_filter = true;
    given.tree_disable_selected_highlight = true;
    given.tree_selected_symbol = Some(">".to_string());
    given.filter_ignore_case = true;
    given.filter_exclude_mode = true;
    given.disable_highlight = true;
    given.header_format = Some("{version}".to_string());
    given.size = Some(55);
    given.update_config(&mut cfg);
    assert_eq!(cfg.layout, Layout { direction: LayoutDirection::Vertical, tree_size: 55 });
    assert!(cfg.header.disable);
    assert_eq!(cfg.header.format, "{version}");
    assert!(cfg.footer.disable);
    assert_eq!(cfg.filter, Filter { disable: true, ignore_case: true, exclude_mode: true });
    assert!(cfg.tree.disable_selected_highlight);
    assert_eq!(cfg.tree.selected_symbol, ">");
    assert!(cfg.data.disable_highlight);
    assert_eq!(cfg.data.max_data_size, 30);
}

#[test]
fn arguments_that_are_not_given_change_nothing() {
    let mut cfg = Config::default("vim".to_string());
    cfg.layout.direction = LayoutDirection::Vertical;
    cfg.header.disable = true;
    let before = Config::default("vim".to_string());
    args().update_config(&mut cfg);
    assert_eq!(cfg.layout.direction, LayoutDirection::Vertical);
    assert!(cfg.header.disable);
    assert_eq!(cfg.editor, before.editor);
    assert_eq!(cfg.header.format, before.header.format);
    assert_eq!(cfg.filter, before.filter);
}

#[test]
fn horizontal_wins_over_vertical() {
    let mut cfg = Config::default("vim".to_string());
    let mut given = args();
    given.vertical = true;
    given.horizontal = true;
    assert!(!given.check_layout());
    given.update_config(&mut cfg);
    assert_eq!(cfg.layout.direction, LayoutDirection::Horizontal);
    given.horizontal = false;
    assert!(given.check_layout());
}

#[test]
fn the_size_limit_in_bytes() {
    let cfg = Config::default("vim".to_string());
    let mut given = args();
    assert_eq!(given.max_data_bytes(&cfg), Some(30 * 1024 * 1024));
    given.max_data_size = Some(2);
    assert_eq!(given.max_data_bytes(&cfg), Some(2 * 1024 * 1024));
    given.max_data_size = Some(usize::MAX / 1024);
    assert_eq!(given.max_data_bytes(&cfg), None);
    given.max_data_size = Some(0);
    assert_eq!(given.max_data_bytes(&cfg), Some(0));
    given.content_type = Some(ContentType::Json);
    assert_eq!(given.content_type, Some(ContentType::Json));
}
