use speq::app::{decode_key, handle_key, App, Command, Key, Modifiers, Pane, SCROLL_STEP};
use speq::document::{LoadedSpec, SpecVersion};
use speq::tree::{NodeInfo, NodeKind, TreeNode};

fn node(name: &str, children: Vec<TreeNode>) -> TreeNode {
    TreeNode {
        name: name.to_string(),
        info: NodeInfo {
            kind: NodeKind::Object,
            format: None,
            description: None,
            required: false,
            constraints: Vec::new(),
            enum_values: Vec::new(),
            example: None,
            default_val: None,
        },
        children,
        expanded: false,
    }
}

fn app() -> App {
    let a = node("A", vec![node("a1", vec![node("a1x", vec![])]), node("a2", vec![])]);
    let b = node("B", vec![]);
    App::new(LoadedSpec {
        title: "T".to_string(),
        openapi_version: "3.0.0".to_string(),
        version: SpecVersion::V30,
        schema_names: vec!["A".to_string(), "B".to_string()],
        schema_nodes: vec![a, b],
    })
}

fn press(app: &mut App, c: char) {
    handle_key(app, Key::Char(c), Modifiers::Plain);
}

#[test]
fn new_app_starts_on_the_list() {
    let app = app();
    assert_eq!(app.focused_pane, Pane::SchemaList);
    assert!(!app.should_quit);
    assert_eq!(app.detail_scroll, 0);
    assert_eq!(app.pending_key, None);
    assert_eq!(app.tree.cursor, 0);
    assert_eq!(app.tree.roots.len(), 2);
    assert_eq!(app.tree.roots[0].children[0].children[0].name, "a1x");
    assert_eq!(app.spec.schema_nodes.len(), 2);
    assert_eq!(app.tree.visible_count(), 2);
}

#[test]
fn moves_reset_the_detail_scroll() {
    let mut app = app();
    app.scroll_detail_down();
    assert_eq!(app.detail_scroll, 3);
    app.move_down();
    assert_eq!(app.tree.cursor, 1);
    assert_eq!(app.detail_scroll, 0);
    app.scroll_detail_down();
    app.move_up();
    assert_eq!((app.tree.cursor, app.detail_scroll), (0, 0));
    app.scroll_detail_down();
    app.goto_bottom();
    assert_eq!((app.tree.cursor, app.detail_scroll), (1, 0));
    app.scroll_detail_down();
    app.goto_top();
    assert_eq!((app.tree.cursor, app.detail_scroll), (0, 0));
}

#[test]
fn expanding_and_collapsing_reset_the_detail_scroll() {
    let mut app = app();
    app.scroll_detail_down();
    app.toggle_expand();
    assert!(app.tree.roots[0].expanded);
    assert_eq!(app.detail_scroll, 0);
    app.scroll_detail_down();
    app.collapse_node();
    assert!(!app.tree.roots[0].expanded);
    assert_eq!(app.detail_scroll, 0);
    app.scroll_detail_down();
    app.expand_node();
    assert!(app.tree.roots[0].expanded);
    assert_eq!(app.detail_scroll, 0);
    app.scroll_detail_down();
    app.expand_all();
    assert_eq!(app.tree.visible_count(), 5);
    assert_eq!(app.detail_scroll, 0);
    app.scroll_detail_down();
    app.collapse_all();
    assert_eq!(app.tree.visible_count(), 2);
    assert_eq!(app.detail_scroll, 0);
}

#[test]
fn scrolling_saturates_at_both_ends() {
    let mut app = app();
    app.scroll_detail_up();
    assert_eq!(app.detail_scroll, 0);
    app.detail_scroll = 2;
    app.scroll_detail_up();
    assert_eq!(app.detail_scroll, 0);
    app.detail_scroll = 10;
    app.scroll_detail_up();
    assert_eq!(app.detail_scroll, 7);
    app.detail_scroll = u16::MAX - 1;
    app.scroll_detail_down();
    assert_eq!(app.detail_scroll, u16::MAX);
    app.scroll_detail_down();
    assert_eq!(app.detail_scroll, u16::MAX);
    assert_eq!(SCROLL_STEP, 3);
}

#[test]
fn toggle_pane_switches_back_and_forth() {
    let mut app = app();
    app.toggle_pane();
    assert_eq!(app.focused_pane, Pane::Detail);
    app.toggle_pane();
    assert_eq!(app.focused_pane, Pane::SchemaList);
}

#[test]
fn single_keys() {
    let plain = |c: char| decode_key(None, Key::Char(c), Modifiers::Plain);
    assert_eq!(plain('q'), Command::Quit);
    assert_eq!(plain('j'), Command::MoveDown);
    assert_eq!(plain('k'), Command::MoveUp);
    assert_eq!(plain('g'), Command::Pending('g'));
    assert_eq!(plain('z'), Command::Pending('z'));
    assert_eq!(plain('l'), Command::ToggleExpand);
    assert_eq!(plain('h'), Command::CollapseNode);
    assert_eq!(plain('x'), Command::Nothing);
    assert_eq!(plain('G'), Command::Nothing);
    assert_eq!(plain('c'), Command::Nothing);
    assert_eq!(decode_key(None, Key::Down, Modifiers::Plain), Command::MoveDown);
    assert_eq!(decode_key(None, Key::Up, Modifiers::Plain), Command::MoveUp);
    assert_eq!(decode_key(None, Key::Tab, Modifiers::Plain), Command::TogglePane);
    assert_eq!(decode_key(None, Key::Other, Modifiers::Plain), Command::Nothing);
    assert_eq!(decode_key(None, Key::Char('G'), Modifiers::Shift), Command::GotoBottom);
    assert_eq!(decode_key(None, Key::Char('c'), Modifiers::Control), Command::Quit);
    assert_eq!(decode_key(None, Key::Char('d'), Modifiers::Control), Command::ScrollDetailDown);
    assert_eq!(decode_key(None, Key::Char('u'), Modifiers::Control), Command::ScrollDetailUp);
    assert_eq!(decode_key(None, Key::Char('q'), Modifiers::Control), Command::Nothing);
    assert_eq!(decode_key(None, Key::Char('j'), Modifiers::Shift), Command::Nothing);
    assert_eq!(decode_key(None, Key::Down, Modifiers::Shift), Command::Nothing);
    assert_eq!(decode_key(None, Key::Tab, Modifiers::Control), Command::Nothing);
    assert_eq!(decode_key(None, Key::Char('q'), Modifiers::Other), Command::Nothing);
}

#[test]
fn key_sequences() {
    let after = |first: char, c: char, m: Modifiers| decode_key(Some(first), Key::Char(c), m);
    assert_eq!(after('g', 'g', Modifiers::Plain), Command::GotoTop);
    assert_eq!(after('z', 'o', Modifiers::Plain), Command::ExpandNode);
    assert_eq!(after('z', 'c', Modifiers::Plain), Command::CollapseNode);
    assert_eq!(after('z', 'R', Modifiers::Shift), Command::ExpandAll);
    assert_eq!(after('z', 'M', Modifiers::Shift), Command::CollapseAll);
    // a second key that ends no sequence counts on its own
    assert_eq!(after('g', 'j', Modifiers::Plain), Command::MoveDown);
    assert_eq!(after('z', 'g', Modifiers::Plain), Command::Pending('g'));
    assert_eq!(after('g', 'o', Modifiers::Plain), Command::Nothing);
    assert_eq!(after('z', 'R', Modifiers::Plain), Command::Nothing);
    assert_eq!(after('z', 'c', Modifiers::Control), Command::Quit);
    assert_eq!(decode_key(Some('g'), Key::Down, Modifiers::Plain), Command::MoveDown);
}

#[test]
fn handle_key_walks_through_a_session() {
    let mut app = app();
    press(&mut app, 'l');
    assert!(app.tree.roots[0].expanded);
    press(&mut app, 'j');
    assert_eq!(app.tree.selected_node().unwrap().name, "a1");
    press(&mut app, 'z');
    assert_eq!(app.pending_key, Some('z'));
    press(&mut app, 'o');
    assert_eq!(app.pending_key, None);
    assert!(app.tree.roots[0].children[0].expanded);
    assert_eq!(app.tree.visible_count(), 5);
    handle_key(&mut app, Key::Char('G'), Modifiers::Shift);
    assert_eq!(app.tree.cursor, 4);
    press(&mut app, 'g');
    press(&mut app, 'g');
    assert_eq!(app.tree.cursor, 0);
    press(&mut app, 'z');
    handle_key(&mut app, Key::Char('M'), Modifiers::Shift);
    assert_eq!(app.tree.visible_count(), 2);
    press(&mut app, 'z');
    handle_key(&mut app, Key::Char('R'), Modifiers::Shift);
    assert_eq!(app.tree.visible_count(), 5);
    press(&mut app, 'h');
    assert_eq!(app.tree.visible_count(), 2);
    handle_key(&mut app, Key::Tab, Modifiers::Plain);
    assert_eq!(app.focused_pane, Pane::Detail);
    handle_key(&mut app, Key::Char('d'), Modifiers::Control);
    assert_eq!(app.detail_scroll, 3);
    handle_key(&mut app, Key::Char('u'), Modifiers::Control);
    assert_eq!(app.detail_scroll, 0);
    assert!(!app.should_quit);
    press(&mut app, 'q');
    assert!(app.should_quit);
}

#[test]
fn a_kept_key_is_used_up_by_any_key() {
    let mut app = app();
    press(&mut app, 'g');
    assert_eq!(app.pending_key, Some('g'));
    press(&mut app, 'x');
    assert_eq!(app.pending_key, None);
    assert_eq!(app.tree.cursor, 0);
    press(&mut app, 'g');
    press(&mut app, 'j');
    assert_eq!(app.pending_key, None);
    assert_eq!(app.tree.cursor, 1);
    press(&mut app, 'z');
    press(&mut app, 'z');
    assert_eq!(app.pending_key, Some('z'));
    handle_key(&mut app, Key::Char('c'), Modifiers::Control);
    assert!(app.should_quit);
    assert_eq!(app.pending_key, None);
}

#[test]
fn apply_carries_out_each_command() {
    let mut app = app();
    app.apply(Command::ExpandAll);
    assert_eq!(app.tree.visible_count(), 5);
    app.apply(Command::GotoBottom);
    assert_eq!(app.tree.cursor, 4);
    app.apply(Command::Nothing);
    assert_eq!(app.tree.cursor, 4);
    app.apply(Command::Pending('z'));
    assert_eq!(app.pending_key, Some('z'));
    app.apply(Command::CollapseAll);
    assert_eq!(app.tree.cursor, 0);
    app.apply(Command::Quit);
    assert!(app.should_quit);
}
