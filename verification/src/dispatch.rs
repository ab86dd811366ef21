//! Action dispatch: recognising a menu item's bracketed tag, mapping a
//! confirmed item to the action the caller must perform, matching a typed
//! command name, and resolving which editor to invoke.

use vstd::prelude::*;
use vstd::string::StrSliceExecFns;
use crate::config::ConfigMap;
use crate::strutil::{has_prefix, starts_with, str_eq, trim, trim_spec};

verus! {

/// A menu item's recognised category, parsed from its bracketed prefix.
#[derive(Debug, Clone, PartialEq, Eq)]
pub enum Tag {
    List(String),
    Quickmark(String),
    History,
    Config,
    File(String),
    Plug(String),
    Command(String),
    Untagged,
}

/// The mathematical shape of a [`Tag`].
pub enum TagV {
    List(Seq<char>),
    Quickmark(Seq<char>),
    History,
    Config,
    File(Seq<char>),
    Plug(Seq<char>),
    Command(Seq<char>),
    Untagged,
}

impl DeepView for Tag {
    type V = TagV;

    open spec fn deep_view(&self) -> TagV {
        match self {
            Tag::List(s) => TagV::List(s@),
            Tag::Quickmark(s) => TagV::Quickmark(s@),
            Tag::History => TagV::History,
            Tag::Config => TagV::Config,
            Tag::File(s) => TagV::File(s@),
            Tag::Plug(s) => TagV::Plug(s@),
            Tag::Command(s) => TagV::Command(s@),
            Tag::Untagged => TagV::Untagged,
        }
    }
}

/// The payload of a tagged item: what follows the tag, trimmed.
pub open spec fn tag_rest(item: Seq<char>, tag: Seq<char>) -> Seq<char> {
    trim_spec(item.skip(tag.len() as int))
}

/// The tag of a menu item, decided by prefix: `[list]`, `[history]`,
/// `[config]`, `[quickmark]`, `[file]`, `[plug]`, `[command]`, in that
/// order, else untagged.  A synced entry such as `[list-repo]` matches
/// none of these and stays untagged.
pub open spec fn tag_of(item: Seq<char>) -> TagV {
    if has_prefix(item, "[list]"@) {
        TagV::List(tag_rest(item, "[list]"@))
    } else if has_prefix(item, "[history]"@) {
        TagV::History
    } else if has_prefix(item, "[config]"@) {
        TagV::Config
    } else if has_prefix(item, "[quickmark]"@) {
        TagV::Quickmark(tag_rest(item, "[quickmark]"@))
    } else if has_prefix(item, "[file]"@) {
        TagV::File(tag_rest(item, "[file]"@))
    } else if has_prefix(item, "[plug]"@) {
        TagV::Plug(tag_rest(item, "[plug]"@))
    } else if has_prefix(item, "[command]"@) {
        TagV::Command(tag_rest(item, "[command]"@))
    } else {
        TagV::Untagged
    }
}

fn rest_of(item: &str, tag: &str) -> (r: String)
    requires
        has_prefix(item@, tag@),
    ensures
        r@ == tag_rest(item@, tag@),
{
    let n = item.unicode_len();
    let tl = tag.unicode_len();
    trim(item.substring_char(tl, n))
}

/// Parses the tag of a menu item.
pub fn parse_tag(item: &str) -> (r: Tag)
    ensures
        r.deep_view() == tag_of(item@),
{
    if starts_with(item, "[list]") {
        Tag::List(rest_of(item, "[list]"))
    } else if starts_with(item, "[history]") {
        Tag::History
    } else if starts_with(item, "[config]") {
        Tag::Config
    } else if starts_with(item, "[quickmark]") {
        Tag::Quickmark(rest_of(item, "[quickmark]"))
    } else if starts_with(item, "[file]") {
        Tag::File(rest_of(item, "[file]"))
    } else if starts_with(item, "[plug]") {
        Tag::Plug(rest_of(item, "[plug]"))
    } else if starts_with(item, "[command]") {
        Tag::Command(rest_of(item, "[command]"))
    } else {
        Tag::Untagged
    }
}

/// What the caller must do for a confirmed menu item.
#[derive(Debug, Clone, PartialEq, Eq)]
pub enum MenuAction {
    /// Open the named file inside the list directory.
    OpenList(String),
    /// Open the history file.
    OpenHistory,
    /// Open the configuration file.
    OpenConfig,
    /// Open the quickmarks file.
    OpenQuickmarks,
    /// Nothing: the item's tag is unrecognised or has no handler.
    NoOp,
}

/// The mathematical shape of a [`MenuAction`].
pub enum MenuActionV {
    OpenList(Seq<char>),
    OpenHistory,
    OpenConfig,
    OpenQuickmarks,
    NoOp,
}

impl DeepView for MenuAction {
    type V = MenuActionV;

    open spec fn deep_view(&self) -> MenuActionV {
        match self {
            MenuAction::OpenList(s) => MenuActionV::OpenList(s@),
            MenuAction::OpenHistory => MenuActionV::OpenHistory,
            MenuAction::OpenConfig => MenuActionV::OpenConfig,
            MenuAction::OpenQuickmarks => MenuActionV::OpenQuickmarks,
            MenuAction::NoOp => MenuActionV::NoOp,
        }
    }
}

/// The action a confirmed item stands for, decided by its tag alone.
/// Items tagged `file`, `plug` or `command`, and untagged items, have no
/// handler and dispatch to nothing.
pub open spec fn action_of(item: Seq<char>) -> MenuActionV {
    match tag_of(item) {
        TagV::List(name) => MenuActionV::OpenList(name),
        TagV::History => MenuActionV::OpenHistory,
        TagV::Config => MenuActionV::OpenConfig,
        TagV::Quickmark(_) => MenuActionV::OpenQuickmarks,
        _ => MenuActionV::NoOp,
    }
}

/// Decides the action for a confirmed menu item.
pub fn dispatch_item(item: &str) -> (r: MenuAction)
    ensures
        r.deep_view() == action_of(item@),
{
    match parse_tag(item) {
        Tag::List(name) => MenuAction::OpenList(name),
        Tag::History => MenuAction::OpenHistory,
        Tag::Config => MenuAction::OpenConfig,
        Tag::Quickmark(_) => MenuAction::OpenQuickmarks,
        _ => MenuAction::NoOp,
    }
}

/// A maintenance command reachable from Command mode.
#[derive(Debug, Clone, Copy, PartialEq, Eq, Structural)]
pub enum CommandId {
    CreateSampleRepo,
    ConfigEdit,
    HistoryEdit,
    ListAdd,
    Indexwp,
}

/// The command a trimmed name denotes, by exact match against the
/// command menu's entries.
pub open spec fn command_of(name: Seq<char>) -> Option<CommandId> {
    if name == "create-sample-repo"@ {
        Some(CommandId::CreateSampleRepo)
    } else if name == "config-edit"@ {
        Some(CommandId::ConfigEdit)
    } else if name == "history-edit"@ {
        Some(CommandId::HistoryEdit)
    } else if name == "list-add"@ {
        Some(CommandId::ListAdd)
    } else if name == "indexwp"@ {
        Some(CommandId::Indexwp)
    } else {
        None
    }
}

/// Matches a typed command: the input is trimmed and compared exactly
/// against the command menu's entries (exact match, not prefix match).
pub fn match_command(input: &str) -> (r: Option<CommandId>)
    ensures
        r == command_of(trim_spec(input@)),
{
    let t = trim(input);
    if str_eq(t.as_str(), "create-sample-repo") {
        Some(CommandId::CreateSampleRepo)
    } else if str_eq(t.as_str(), "config-edit") {
        Some(CommandId::ConfigEdit)
    } else if str_eq(t.as_str(), "history-edit") {
        Some(CommandId::HistoryEdit)
    } else if str_eq(t.as_str(), "list-add") {
        Some(CommandId::ListAdd)
    } else if str_eq(t.as_str(), "indexwp") {
        Some(CommandId::Indexwp)
    } else {
        None
    }
}

/// Which editor to invoke.
#[derive(Debug, Clone, PartialEq, Eq)]
pub enum EditorChoice {
    /// Run the named external program.
    Program(String),
    /// Fall back to the built-in editor.
    BuiltIn,
}

/// The mathematical shape of an [`EditorChoice`].
pub enum EditorChoiceV {
    Program(Seq<char>),
    BuiltIn,
}

impl DeepView for EditorChoice {
    type V = EditorChoiceV;

    open spec fn deep_view(&self) -> EditorChoiceV {
        match self {
            EditorChoice::Program(s) => EditorChoiceV::Program(s@),
            EditorChoice::BuiltIn => EditorChoiceV::BuiltIn,
        }
    }
}

/// The editor resolution order: the configuration's `editor` value, then
/// `VISUAL`, then `EDITOR`, then the built-in editor.  Empty values are
/// skipped.
pub open spec fn resolve_editor_spec(
    cfg: Map<Seq<char>, Seq<char>>,
    visual: Option<Seq<char>>,
    editor: Option<Seq<char>>,
) -> EditorChoiceV {
    if cfg.contains_key("editor"@) && cfg["editor"@].len() > 0 {
        EditorChoiceV::Program(cfg["editor"@])
    } else if visual matches Some(v) && v.len() > 0 {
        EditorChoiceV::Program(visual->0)
    } else if editor matches Some(e) && e.len() > 0 {
        EditorChoiceV::Program(editor->0)
    } else {
        EditorChoiceV::BuiltIn
    }
}

/// Resolves which editor the caller should invoke, from the configuration
/// and the values of the `VISUAL` and `EDITOR` environment variables.
pub fn resolve_editor(cfg: &ConfigMap, visual: Option<&String>, editor: Option<&String>) -> (r:
    EditorChoice)
    requires
        cfg.wf(),
    ensures
        r.deep_view() == resolve_editor_spec(
            cfg@,
            match visual {
                Some(v) => Some(v@),
                None => None,
            },
            match editor {
                Some(e) => Some(e@),
                None => None,
            },
        ),
{
    match cfg.get("editor") {
        Some(v) => {
            if v.as_str().unicode_len() > 0 {
                return EditorChoice::Program(v.clone());
            }
        },
        None => {},
    }
    match visual {
        Some(v) => {
            if v.as_str().unicode_len() > 0 {
                return EditorChoice::Program(v.clone());
            }
        },
        None => {},
    }
    match editor {
        Some(e) => {
            if e.as_str().unicode_len() > 0 {
                return EditorChoice::Program(e.clone());
            }
        },
        None => {},
    }
    EditorChoice::BuiltIn
}

} // verus!
