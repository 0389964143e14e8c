//! The state of the application: the loaded document, the navigator, which
//! pane has the focus and how far the detail pane is scrolled; and the
//! commands that keys give.

use crate::document::LoadedSpec;
use crate::laws::law_cursor_stays_valid;
use crate::model::{FlagAction, TreeModel};
use crate::tree::{clone_forest, forest_view, TreeState};
use vstd::prelude::*;

verus! {

/// The two panes.
#[derive(Debug, Clone, Copy, PartialEq, Eq, Structural)]
pub enum Pane {
    SchemaList,
    Detail,
}

/// The state of the application.
pub struct App {
    pub spec: LoadedSpec,
    pub tree: TreeState,
    pub focused_pane: Pane,
    pub should_quit: bool,
    pub detail_scroll: u16,
    pub pending_key: Option<char>,
}

/// A key, as far as the key bindings tell keys apart.
#[derive(Debug, Clone, Copy, PartialEq, Eq, Structural)]
pub enum Key {
    Char(char),
    Up,
    Down,
    Tab,
    Other,
}

/// The modifiers held with a key: none, Shift alone, Control alone, or
/// anything else.
#[derive(Debug, Clone, Copy, PartialEq, Eq, Structural)]
pub enum Modifiers {
    Plain,
    Shift,
    Control,
    Other,
}

/// What a key asks for.
#[derive(Debug, Clone, Copy, PartialEq, Eq, Structural)]
pub enum Command {
    Quit,
    MoveDown,
    MoveUp,
    GotoTop,
    GotoBottom,
    ToggleExpand,
    ExpandNode,
    CollapseNode,
    ExpandAll,
    CollapseAll,
    TogglePane,
    ScrollDetailDown,
    ScrollDetailUp,
    /// The first key of a sequence of two: it is kept for the next key.
    Pending(char),
    Nothing,
}

/// How many lines one scroll command moves the detail pane.
pub const SCROLL_STEP: u16 = 3;

/// The state of the application without the loaded document.
pub struct AppModel {
    pub tree: TreeModel,
    pub focused_pane: Pane,
    pub should_quit: bool,
    pub detail_scroll: nat,
    pub pending_key: Option<char>,
}

impl View for App {
    type V = AppModel;

    open spec fn view(&self) -> AppModel {
        AppModel {
            tree: self.tree@,
            focused_pane: self.focused_pane,
            should_quit: self.should_quit,
            detail_scroll: self.detail_scroll as nat,
            pending_key: self.pending_key,
        }
    }
}

/// A plain character with the given modifiers.
pub open spec fn is_key(key: Key, modifiers: Modifiers, c: char, held: Modifiers) -> bool {
    key == Key::Char(c) && modifiers == held
}

/// What a key asks for when no sequence is under way.
pub open spec fn single_command(key: Key, modifiers: Modifiers) -> Command {
    if is_key(key, modifiers, 'q', Modifiers::Plain) {
        Command::Quit
    } else if is_key(key, modifiers, 'c', Modifiers::Control) {
        Command::Quit
    } else if is_key(key, modifiers, 'j', Modifiers::Plain) || (key == Key::Down && modifiers
        == Modifiers::Plain) {
        Command::MoveDown
    } else if is_key(key, modifiers, 'k', Modifiers::Plain) || (key == Key::Up && modifiers
        == Modifiers::Plain) {
        Command::MoveUp
    } else if is_key(key, modifiers, 'g', Modifiers::Plain) {
        Command::Pending('g')
    } else if is_key(key, modifiers, 'G', Modifiers::Shift) {
        Command::GotoBottom
    } else if is_key(key, modifiers, 'l', Modifiers::Plain) {
        Command::ToggleExpand
    } else if is_key(key, modifiers, 'h', Modifiers::Plain) {
        Command::CollapseNode
    } else if is_key(key, modifiers, 'z', Modifiers::Plain) {
        Command::Pending('z')
    } else if key == Key::Tab && modifiers == Modifiers::Plain {
        Command::TogglePane
    } else if is_key(key, modifiers, 'd', Modifiers::Control) {
        Command::ScrollDetailDown
    } else if is_key(key, modifiers, 'u', Modifiers::Control) {
        Command::ScrollDetailUp
    } else {
        Command::Nothing
    }
}

/// What a key asks for after the key `pending`, if one is kept: the
/// sequences `gg`, `zo`, `zc`, `zR` and `zM`; any other key counts as if
/// no key had been kept.
pub open spec fn command_for(pending: Option<char>, key: Key, modifiers: Modifiers) -> Command {
    if pending == Some('g') && is_key(key, modifiers, 'g', Modifiers::Plain) {
        Command::GotoTop
    } else if pending == Some('z') && is_key(key, modifiers, 'o', Modifiers::Plain) {
        Command::ExpandNode
    } else if pending == Some('z') && is_key(key, modifiers, 'c', Modifiers::Plain) {
        Command::CollapseNode
    } else if pending == Some('z') && is_key(key, modifiers, 'R', Modifiers::Shift) {
        Command::ExpandAll
    } else if pending == Some('z') && is_key(key, modifiers, 'M', Modifiers::Shift) {
        Command::CollapseAll
    } else {
        single_command(key, modifiers)
    }
}

impl AppModel {
    /// The state with another tree and the detail pane scrolled to its top.
    pub open spec fn with_tree(self, tree: TreeModel) -> AppModel {
        AppModel { tree, detail_scroll: 0, ..self }
    }

    /// The focus on the other pane.
    pub open spec fn pane_toggled(self) -> AppModel {
        AppModel {
            focused_pane: match self.focused_pane {
                Pane::SchemaList => Pane::Detail,
                Pane::Detail => Pane::SchemaList,
            },
            ..self
        }
    }

    /// The detail pane one step further down, as far as the offset counts.
    pub open spec fn scrolled_down(self) -> AppModel {
        AppModel {
            detail_scroll: if self.detail_scroll + SCROLL_STEP > u16::MAX {
                u16::MAX as nat
            } else {
                self.detail_scroll + SCROLL_STEP as nat
            },
            ..self
        }
    }

    /// The detail pane one step further up, not above its top.
    pub open spec fn scrolled_up(self) -> AppModel {
        AppModel {
            detail_scroll: if self.detail_scroll < SCROLL_STEP {
                0
            } else {
                (self.detail_scroll - SCROLL_STEP) as nat
            },
            ..self
        }
    }

    /// The state after a command.
    pub open spec fn applied(self, command: Command) -> AppModel {
        match command {
            Command::Quit => AppModel { should_quit: true, ..self },
            Command::MoveDown => self.with_tree(self.tree.moved_down()),
            Command::MoveUp => self.with_tree(self.tree.moved_up()),
            Command::GotoTop => self.with_tree(self.tree.at_top()),
            Command::GotoBottom => self.with_tree(self.tree.at_bottom()),
            Command::ToggleExpand => self.with_tree(self.tree.acted(FlagAction::Toggle)),
            Command::ExpandNode => self.with_tree(self.tree.acted(FlagAction::Expand)),
            Command::CollapseNode => self.with_tree(self.tree.acted(FlagAction::Collapse)),
            Command::ExpandAll => self.with_tree(self.tree.expanded_all()),
            Command::CollapseAll => self.with_tree(self.tree.collapsed_all()),
            Command::TogglePane => self.pane_toggled(),
            Command::ScrollDetailDown => self.scrolled_down(),
            Command::ScrollDetailUp => self.scrolled_up(),
            Command::Pending(c) => AppModel { pending_key: Some(c), ..self },
            Command::Nothing => self,
        }
    }

    /// The state after a key: a kept key is used up, whatever the key is.
    pub open spec fn after_key(self, key: Key, modifiers: Modifiers) -> AppModel {
        (AppModel { pending_key: None, ..self }).applied(
            command_for(self.pending_key, key, modifiers),
        )
    }
}

/// What a key asks for when no sequence is under way.
fn single_key(key: Key, modifiers: Modifiers) -> (command: Command)
    ensures
        command == single_command(key, modifiers),
{
    match modifiers {
        Modifiers::Plain => match key {
            Key::Char(c) => {
                if c == 'q' {
                    Command::Quit
                } else if c == 'j' {
                    Command::MoveDown
                } else if c == 'k' {
                    Command::MoveUp
                } else if c == 'g' {
                    Command::Pending('g')
                } else if c == 'l' {
                    Command::ToggleExpand
                } else if c == 'h' {
                    Command::CollapseNode
                } else if c == 'z' {
                    Command::Pending('z')
                } else {
                    Command::Nothing
                }
            },
            Key::Down => Command::MoveDown,
            Key::Up => Command::MoveUp,
            Key::Tab => Command::TogglePane,
            Key::Other => Command::Nothing,
        },
        Modifiers::Shift => match key {
            Key::Char(c) => {
                if c == 'G' {
                    Command::GotoBottom
                } else {
                    Command::Nothing
                }
            },
            _ => Command::Nothing,
        },
        Modifiers::Control => match key {
            Key::Char(c) => {
                if c == 'c' {
                    Command::Quit
                } else if c == 'd' {
                    Command::ScrollDetailDown
                } else if c == 'u' {
                    Command::ScrollDetailUp
                } else {
                    Command::Nothing
                }
            },
            _ => Command::Nothing,
        },
        Modifiers::Other => Command::Nothing,
    }
}

/// What a key asks for, after the key `pending` if one is kept.
pub fn decode_key(pending: Option<char>, key: Key, modifiers: Modifiers) -> (command: Command)
    ensures
        command == command_for(pending, key, modifiers),
{
    if let Some(first) = pending {
        if let Key::Char(c) = key {
            match modifiers {
                Modifiers::Plain => {
                    if first == 'g' && c == 'g' {
                        return Command::GotoTop;
                    }
                    if first == 'z' && c == 'o' {
                        return Command::ExpandNode;
                    }
                    if first == 'z' && c == 'c' {
                        return Command::CollapseNode;
                    }
                },
                Modifiers::Shift => {
                    if first == 'z' && c == 'R' {
                        return Command::ExpandAll;
                    }
                    if first == 'z' && c == 'M' {
                        return Command::CollapseAll;
                    }
                },
                _ => {},
            }
        }
    }
    single_key(key, modifiers)
}

impl App {
    /// The state at the start: a navigator over a copy of the document's
    /// trees, the focus on the list, nothing scrolled.
    pub fn new(spec: LoadedSpec) -> (app: Self)
        ensures
            app.spec == spec,
            app@ == (AppModel {
                tree: TreeModel { roots: forest_view(spec.schema_nodes@), cursor: 0 },
                focused_pane: Pane::SchemaList,
                should_quit: false,
                detail_scroll: 0,
                pending_key: None,
            }),
            app@.tree.wf(),
    {
        let tree = TreeState::new(clone_forest(&spec.schema_nodes));
        App {
            spec,
            tree,
            focused_pane: Pane::SchemaList,
            should_quit: false,
            detail_scroll: 0,
            pending_key: None,
        }
    }

    /// Moves the selection one row up.
    pub fn move_up(&mut self)
        ensures
            final(self)@ == old(self)@.applied(Command::MoveUp),
            final(self).spec == old(self).spec,
    {
        self.tree.move_up();
        self.detail_scroll = 0;
    }

    /// Moves the selection one row down.
    pub fn move_down(&mut self)
        ensures
            final(self)@ == old(self)@.applied(Command::MoveDown),
            final(self).spec == old(self).spec,
    {
        self.tree.move_down();
        self.detail_scroll = 0;
    }

    /// Selects the first row.
    pub fn goto_top(&mut self)
        ensures
            final(self)@ == old(self)@.applied(Command::GotoTop),
            final(self).spec == old(self).spec,
    {
        self.tree.goto_top();
        self.detail_scroll = 0;
    }

    /// Selects the last row.
    pub fn goto_bottom(&mut self)
        ensures
            final(self)@ == old(self)@.applied(Command::GotoBottom),
            final(self).spec == old(self).spec,
    {
        self.tree.goto_bottom();
        self.detail_scroll = 0;
    }

    /// Gives the focus to the other pane.
    pub fn toggle_pane(&mut self)
        ensures
            final(self)@ == old(self)@.applied(Command::TogglePane),
            final(self).spec == old(self).spec,
    {
        self.focused_pane = match self.focused_pane {
            Pane::SchemaList => Pane::Detail,
            Pane::Detail => Pane::SchemaList,
        };
    }

    /// Expands the selected node if it is collapsed, collapses it if not.
    pub fn toggle_expand(&mut self)
        ensures
            final(self)@ == old(self)@.applied(Command::ToggleExpand),
            final(self).spec == old(self).spec,
    {
        self.tree.toggle_at_cursor();
        self.detail_scroll = 0;
    }

    /// Expands the selected node.
    pub fn expand_node(&mut self)
        ensures
            final(self)@ == old(self)@.applied(Command::ExpandNode),
            final(self).spec == old(self).spec,
    {
        self.tree.expand_at_cursor();
        self.detail_scroll = 0;
    }

    /// Collapses the selected node.
    pub fn collapse_node(&mut self)
        ensures
            final(self)@ == old(self)@.applied(Command::CollapseNode),
            final(self).spec == old(self).spec,
    {
        self.tree.collapse_at_cursor();
        self.detail_scroll = 0;
    }

    /// Expands every node of the tree.
    pub fn expand_all(&mut self)
        ensures
            final(self)@ == old(self)@.applied(Command::ExpandAll),
            final(self).spec == old(self).spec,
    {
        self.tree.expand_all();
        self.detail_scroll = 0;
    }

    /// Collapses every node of the tree and selects the first row.
    pub fn collapse_all(&mut self)
        ensures
            final(self)@ == old(self)@.applied(Command::CollapseAll),
            final(self).spec == old(self).spec,
    {
        self.tree.collapse_all();
        self.detail_scroll = 0;
    }

    /// Scrolls the detail pane down by one step, as far as the offset can
    /// count.
    pub fn scroll_detail_down(&mut self)
        ensures
            final(self)@ == old(self)@.applied(Command::ScrollDetailDown),
            final(self).spec == old(self).spec,
    {
        self.detail_scroll = if self.detail_scroll > u16::MAX - SCROLL_STEP {
            u16::MAX
        } else {
            self.detail_scroll + SCROLL_STEP
        };
    }

    /// Scrolls the detail pane up by one step, not above its top.
    pub fn scroll_detail_up(&mut self)
        ensures
            final(self)@ == old(self)@.applied(Command::ScrollDetailUp),
            final(self).spec == old(self).spec,
    {
        self.detail_scroll = if self.detail_scroll < SCROLL_STEP {
            0
        } else {
            self.detail_scroll - SCROLL_STEP
        };
    }

    /// Carries out a command.
    pub fn apply(&mut self, command: Command)
        ensures
            final(self)@ == old(self)@.applied(command),
            final(self).spec == old(self).spec,
    {
        match command {
            Command::Quit => {
                self.should_quit = true;
            },
            Command::MoveDown => self.move_down(),
            Command::MoveUp => self.move_up(),
            Command::GotoTop => self.goto_top(),
            Command::GotoBottom => self.goto_bottom(),
            Command::ToggleExpand => self.toggle_expand(),
            Command::ExpandNode => self.expand_node(),
            Command::CollapseNode => self.collapse_node(),
            Command::ExpandAll => self.expand_all(),
            Command::CollapseAll => self.collapse_all(),
            Command::TogglePane => self.toggle_pane(),
            Command::ScrollDetailDown => self.scroll_detail_down(),
            Command::ScrollDetailUp => self.scroll_detail_up(),
            Command::Pending(c) => {
                self.pending_key = Some(c);
            },
            Command::Nothing => {},
        }
    }
}

/// Handles one key: uses up the kept key, if there is one, and carries out
/// what the key asks for.
pub fn handle_key(app: &mut App, key: Key, modifiers: Modifiers)
    ensures
        final(app)@ == old(app)@.after_key(key, modifiers),
        final(app).spec == old(app).spec,
{
    let pending = app.pending_key;
    app.pending_key = None;
    let command = decode_key(pending, key, modifiers);
    app.apply(command);
}

/// Whatever the keys, the cursor stays on a visible row (or on 0 where no
/// row is visible).
pub proof fn law_keys_keep_cursor_valid(app: AppModel, key: Key, modifiers: Modifiers)
    requires
        app.tree.wf(),
    ensures
        app.after_key(key, modifiers).tree.wf(),
{
    law_cursor_stays_valid(app.tree, FlagAction::Toggle);
    law_cursor_stays_valid(app.tree, FlagAction::Expand);
    law_cursor_stays_valid(app.tree, FlagAction::Collapse);
}

} // verus!
