//! The navigator core: a modal, vim-like state machine over the menu
//! list.  Every key event maps to exactly one new state and one effect;
//! the caller performs the effect (quit, edit, dispatch, run a command)
//! and the state machine never touches the outside world itself.
//!
//! Contract choices this library pins down:
//! - `Esc` in Filter mode resets the view to the master list;
//! - Help mode exits on `Esc` (not on `q`);
//! - a command name is matched exactly (after trimming), not by prefix;
//! - entering Filter mode keeps the current view until the first edit of
//!   the query recomputes it.

use vstd::prelude::*;
use vstd::string::StrSliceExecFns;
use crate::dispatch::{command_of, match_command, CommandId};
use crate::filter::{filter_items, filter_spec};
use crate::menu::{
    command_menu_spec, generate_command_menu_content, generate_help_menu_content, help_menu_spec,
};
use crate::strutil::{clone_string_vec, pop_char, push_char, str_eq, trim, trim_spec};

verus! {

/// The interaction mode.
#[derive(Debug, Clone, Copy, PartialEq, Eq, Structural)]
pub enum Mode {
    Normal,
    Command,
    Filter,
    Help,
}

/// An abstract key event.  The input source maps its own events onto
/// these; everything it cannot map is `Other` and is ignored.
#[derive(Debug, Clone, Copy, PartialEq, Eq, Structural)]
pub enum Key {
    Char(char),
    Enter,
    Backspace,
    Esc,
    Tab,
    Other,
}

/// What the caller must do after a key was handled.
#[derive(Debug, Clone, PartialEq, Eq)]
pub enum Effect {
    /// Nothing to do.
    Nothing,
    /// Leave the navigator loop.
    Quit,
    /// Open the given item in an editor (the `e` binding).
    Edit(String),
    /// The given item was confirmed twice: dispatch its action.
    Dispatch(String),
    /// Run the given maintenance command (Command-mode confirmation).
    Run(CommandId),
}

/// The mathematical shape of an [`Effect`].
pub enum EffectV {
    Nothing,
    Quit,
    Edit(Seq<char>),
    Dispatch(Seq<char>),
    Run(CommandId),
}

impl DeepView for Effect {
    type V = EffectV;

    open spec fn deep_view(&self) -> EffectV {
        match self {
            Effect::Nothing => EffectV::Nothing,
            Effect::Quit => EffectV::Quit,
            Effect::Edit(s) => EffectV::Edit(s@),
            Effect::Dispatch(s) => EffectV::Dispatch(s@),
            Effect::Run(c) => EffectV::Run(*c),
        }
    }
}

/// The navigator's state.
pub struct NavState {
    pub mode: Mode,
    pub master_items: Vec<String>,
    pub filtered_items: Vec<String>,
    pub input_buffer: String,
    pub selected: usize,
}

/// The mathematical shape of a [`NavState`].
#[verifier::ext_equal]
pub struct NavV {
    pub mode: Mode,
    pub master: Seq<Seq<char>>,
    pub filtered: Seq<Seq<char>>,
    pub buffer: Seq<char>,
    pub selected: int,
}

impl View for NavState {
    type V = NavV;

    open spec fn view(&self) -> NavV {
        NavV {
            mode: self.mode,
            master: self.master_items.deep_view(),
            filtered: self.filtered_items.deep_view(),
            buffer: self.input_buffer@,
            selected: self.selected as int,
        }
    }
}

/// The selection invariant: the index is inside a non-empty filtered
/// list, and pinned to zero when the list is empty.
pub open spec fn inv(s: NavV) -> bool {
    &&& s.filtered.len() > 0 ==> 0 <= s.selected < s.filtered.len()
    &&& s.filtered.len() == 0 ==> s.selected == 0
}

/// The last selectable index of a list of the given length.
pub open spec fn last_index(len: int) -> int {
    if len == 0 {
        0
    } else {
        len - 1
    }
}

/// The selection-repair rule applied whenever the filtered list is
/// replaced: an unchanged length keeps the index, a changed length resets
/// it to the first item.
pub open spec fn repair(sel: int, old_len: int, new_len: int) -> int {
    if new_len == 0 {
        0
    } else if new_len == old_len {
        sel
    } else {
        0
    }
}

/// One Normal-mode transition.
pub open spec fn step_normal(s: NavV, key: Key) -> NavV {
    match key {
        Key::Enter => {
            if s.filtered.len() == 0 {
                s
            } else if trim_spec(s.buffer) == s.filtered[s.selected] {
                NavV {
                    filtered: s.master,
                    buffer: Seq::empty(),
                    selected: repair(s.selected, s.filtered.len() as int, s.master.len() as int),
                    ..s
                }
            } else {
                NavV { buffer: s.filtered[s.selected], ..s }
            }
        },
        Key::Char(c) => {
            if c == 'j' {
                if s.filtered.len() > 0 && s.selected < s.filtered.len() - 1 {
                    NavV { selected: s.selected + 1, ..s }
                } else {
                    s
                }
            } else if c == 'k' {
                if s.selected > 0 {
                    NavV { selected: s.selected - 1, ..s }
                } else {
                    s
                }
            } else if c == 'g' {
                NavV { selected: 0, ..s }
            } else if c == 'G' {
                NavV { selected: last_index(s.filtered.len() as int), ..s }
            } else if c == '/' {
                NavV { mode: Mode::Filter, buffer: Seq::empty(), ..s }
            } else if c == ':' {
                NavV {
                    mode: Mode::Command,
                    buffer: Seq::empty(),
                    filtered: command_menu_spec(),
                    selected: 0,
                    ..s
                }
            } else if c == '?' {
                NavV {
                    mode: Mode::Help,
                    buffer: Seq::empty(),
                    filtered: help_menu_spec(),
                    selected: 0,
                    ..s
                }
            } else {
                s
            }
        },
        Key::Esc => NavV {
            filtered: s.master,
            selected: last_index(s.master.len() as int),
            buffer: Seq::empty(),
            ..s
        },
        _ => s,
    }
}

/// The state after leaving a synthetic view (Command or Help) or a
/// cancelled filter: Normal mode, empty buffer, the master list restored.
pub open spec fn back_to_master(s: NavV) -> NavV {
    NavV {
        mode: Mode::Normal,
        buffer: Seq::empty(),
        filtered: s.master,
        selected: repair(s.selected, s.filtered.len() as int, s.master.len() as int),
        ..s
    }
}

/// One Command-mode transition.
pub open spec fn step_command(s: NavV, key: Key) -> NavV {
    match key {
        Key::Char(c) => NavV { buffer: s.buffer.push(c), ..s },
        Key::Backspace => NavV {
            buffer: if s.buffer.len() > 0 {
                s.buffer.drop_last()
            } else {
                s.buffer
            },
            ..s
        },
        Key::Enter => back_to_master(s),
        Key::Esc => back_to_master(s),
        _ => s,
    }
}

/// One Filter-mode transition.  Every edit of the buffer recomputes the
/// filtered view and repairs the selection.
pub open spec fn step_filter(s: NavV, key: Key) -> NavV {
    match key {
        Key::Char(c) => {
            let b = s.buffer.push(c);
            let f = filter_spec(s.master, b);
            NavV {
                buffer: b,
                filtered: f,
                selected: repair(s.selected, s.filtered.len() as int, f.len() as int),
                ..s
            }
        },
        Key::Backspace => {
            let b = if s.buffer.len() > 0 {
                s.buffer.drop_last()
            } else {
                s.buffer
            };
            let f = filter_spec(s.master, b);
            NavV {
                buffer: b,
                filtered: f,
                selected: repair(s.selected, s.filtered.len() as int, f.len() as int),
                ..s
            }
        },
        Key::Enter => {
            if s.filtered.len() > 0 {
                NavV { mode: Mode::Normal, buffer: s.filtered[s.selected], ..s }
            } else {
                back_to_master(s)
            }
        },
        Key::Esc => back_to_master(s),
        _ => s,
    }
}

/// One Help-mode transition: only `Esc` leaves.
pub open spec fn step_help(s: NavV, key: Key) -> NavV {
    match key {
        Key::Esc => back_to_master(s),
        _ => s,
    }
}

/// The navigator's transition function: one key event, one new state.
pub open spec fn nav_step(s: NavV, key: Key) -> NavV {
    match s.mode {
        Mode::Normal => step_normal(s, key),
        Mode::Command => step_command(s, key),
        Mode::Filter => step_filter(s, key),
        Mode::Help => step_help(s, key),
    }
}

/// The effect a key event asks the caller to perform.
pub open spec fn step_effect(s: NavV, key: Key) -> EffectV {
    match s.mode {
        Mode::Normal => match key {
            Key::Enter => {
                if s.filtered.len() > 0 && trim_spec(s.buffer) == s.filtered[s.selected] {
                    EffectV::Dispatch(s.filtered[s.selected])
                } else {
                    EffectV::Nothing
                }
            },
            Key::Char(c) => {
                if c == 'e' {
                    if s.filtered.len() > 0 {
                        EffectV::Edit(s.filtered[s.selected])
                    } else {
                        EffectV::Nothing
                    }
                } else if c == 'q' {
                    EffectV::Quit
                } else {
                    EffectV::Nothing
                }
            },
            _ => EffectV::Nothing,
        },
        Mode::Command => match key {
            Key::Enter => match command_of(trim_spec(s.buffer)) {
                Some(c) => EffectV::Run(c),
                None => EffectV::Nothing,
            },
            _ => EffectV::Nothing,
        },
        _ => EffectV::Nothing,
    }
}

/// Every single step keeps the selection invariant.
pub proof fn lemma_step_preserves_inv(s: NavV, key: Key)
    requires
        inv(s),
    ensures
        inv(nav_step(s, key)),
{
}

/// The state after a whole sequence of key events.
pub open spec fn nav_steps(s: NavV, keys: Seq<Key>) -> NavV
    decreases keys.len(),
{
    if keys.len() == 0 {
        s
    } else {
        nav_steps(nav_step(s, keys[0]), keys.drop_first())
    }
}

/// After any sequence of key events the selection invariant still holds:
/// whenever the filtered list is non-empty the selected index is inside it.
pub proof fn lemma_inv_after_any_keys(s: NavV, keys: Seq<Key>)
    requires
        inv(s),
    ensures
        inv(nav_steps(s, keys)),
    decreases keys.len(),
{
    if keys.len() > 0 {
        lemma_step_preserves_inv(s, keys[0]);
        lemma_inv_after_any_keys(nav_step(s, keys[0]), keys.drop_first());
    }
}

/// Mode transitions are deterministic: equal states and equal keys give
/// equal successor states and equal effects.
pub proof fn lemma_step_deterministic(s1: NavV, s2: NavV, k1: Key, k2: Key)
    requires
        s1 == s2,
        k1 == k2,
    ensures
        nav_step(s1, k1) == nav_step(s2, k2),
        step_effect(s1, k1) == step_effect(s2, k2),
{
}

/// With an empty list in view, the Normal-mode motions and the
/// confirmation are no-ops: the state is unchanged and nothing is
/// dispatched.
pub proof fn lemma_empty_list_noop(s: NavV, key: Key)
    requires
        inv(s),
        s.mode == Mode::Normal,
        s.filtered.len() == 0,
        key == Key::Enter || key == Key::Char('j') || key == Key::Char('k') || key == Key::Char(
            'g',
        ) || key == Key::Char('G'),
    ensures
        nav_step(s, key) == s,
        step_effect(s, key) == EffectV::Nothing,
{
    assert(s.selected == 0);
    assert(nav_step(s, key) =~= s);
}

fn repair_index(sel: usize, old_len: usize, new_len: usize) -> (r: usize)
    ensures
        r == repair(sel as int, old_len as int, new_len as int),
{
    if new_len == 0 {
        0
    } else if new_len == old_len {
        sel
    } else {
        0
    }
}

impl NavState {
    /// The selection invariant on the executable state.
    pub open spec fn wf(&self) -> bool {
        inv(self@)
    }

    /// A navigator over the given master list: Normal mode, empty buffer,
    /// the full list in view, the last item selected.
    pub fn init(master: Vec<String>) -> (r: NavState)
        ensures
            r.wf(),
            r@.mode == Mode::Normal,
            r@.master == master.deep_view(),
            r@.filtered == master.deep_view(),
            r@.buffer == Seq::<char>::empty(),
            r@.selected == last_index(master.deep_view().len() as int),
    {
        let n = master.len();
        let filtered = clone_string_vec(&master);
        let selected: usize = if n == 0 {
            0
        } else {
            n - 1
        };
        NavState {
            mode: Mode::Normal,
            master_items: master,
            filtered_items: filtered,
            input_buffer: String::new(),
            selected,
        }
    }

    fn handle_normal(&mut self, key: Key) -> (eff: Effect)
        requires
            old(self).wf(),
            old(self)@.mode == Mode::Normal,
        ensures
            final(self)@ == step_normal(old(self)@, key),
            eff.deep_view() == step_effect(old(self)@, key),
    {
        match key {
            Key::Enter => {
                if self.filtered_items.len() == 0 {
                    Effect::Nothing
                } else {
                    let t = trim(self.input_buffer.as_str());
                    if str_eq(t.as_str(), self.filtered_items[self.selected].as_str()) {
                        let item = self.filtered_items[self.selected].clone();
                        let old_len = self.filtered_items.len();
                        self.filtered_items = clone_string_vec(&self.master_items);
                        self.input_buffer = String::new();
                        self.selected = repair_index(
                            self.selected,
                            old_len,
                            self.filtered_items.len(),
                        );
                        proof {
                            assert(self@ =~~= step_normal(old(self)@, key));
                        }
                        Effect::Dispatch(item)
                    } else {
                        self.input_buffer = self.filtered_items[self.selected].clone();
                        proof {
                            assert(self@ =~~= step_normal(old(self)@, key));
                        }
                        Effect::Nothing
                    }
                }
            },
            Key::Char(c) => {
                if c == 'e' {
                    if self.filtered_items.len() > 0 {
                        Effect::Edit(self.filtered_items[self.selected].clone())
                    } else {
                        Effect::Nothing
                    }
                } else if c == 'q' {
                    Effect::Quit
                } else if c == 'j' {
                    if self.filtered_items.len() > 0 && self.selected < self.filtered_items.len()
                        - 1 {
                        self.selected = self.selected + 1;
                    }
                    Effect::Nothing
                } else if c == 'k' {
                    if self.selected > 0 {
                        self.selected = self.selected - 1;
                    }
                    Effect::Nothing
                } else if c == 'g' {
                    self.selected = 0;
                    Effect::Nothing
                } else if c == 'G' {
                    let n = self.filtered_items.len();
                    self.selected = if n == 0 {
                        0
                    } else {
                        n - 1
                    };
                    Effect::Nothing
                } else if c == '/' {
                    self.mode = Mode::Filter;
                    self.input_buffer = String::new();
                    Effect::Nothing
                } else if c == ':' {
                    self.mode = Mode::Command;
                    self.input_buffer = String::new();
                    self.filtered_items = generate_command_menu_content();
                    self.selected = 0;
                    proof {
                        assert(self@ =~~= step_normal(old(self)@, key));
                    }
                    Effect::Nothing
                } else if c == '?' {
                    self.mode = Mode::Help;
                    self.input_buffer = String::new();
                    self.filtered_items = generate_help_menu_content();
                    self.selected = 0;
                    proof {
                        assert(self@ =~~= step_normal(old(self)@, key));
                    }
                    Effect::Nothing
                } else {
                    Effect::Nothing
                }
            },
            Key::Esc => {
                self.filtered_items = clone_string_vec(&self.master_items);
                let n = self.filtered_items.len();
                self.selected = if n == 0 {
                    0
                } else {
                    n - 1
                };
                self.input_buffer = String::new();
                proof {
                    assert(self@ =~~= step_normal(old(self)@, key));
                }
                Effect::Nothing
            },
            _ => Effect::Nothing,
        }
    }

    fn back_to_master_exec(&mut self)
        ensures
            final(self)@ == back_to_master(old(self)@),
    {
        self.mode = Mode::Normal;
        self.input_buffer = String::new();
        let old_len = self.filtered_items.len();
        self.filtered_items = clone_string_vec(&self.master_items);
        self.selected = repair_index(self.selected, old_len, self.filtered_items.len())
            ;
        proof {
            assert(self@ =~~= back_to_master(old(self)@));
        }
    }

    fn handle_command(&mut self, key: Key) -> (eff: Effect)
        requires
            old(self).wf(),
            old(self)@.mode == Mode::Command,
        ensures
            final(self)@ == step_command(old(self)@, key),
            eff.deep_view() == step_effect(old(self)@, key),
    {
        match key {
            Key::Char(c) => {
                push_char(&mut self.input_buffer, c);
                Effect::Nothing
            },
            Key::Backspace => {
                let _ = pop_char(&mut self.input_buffer);
                Effect::Nothing
            },
            Key::Enter => {
                let cmd = match_command(self.input_buffer.as_str());
                self.back_to_master_exec();
                match cmd {
                    Some(c) => Effect::Run(c),
                    None => Effect::Nothing,
                }
            },
            Key::Esc => {
                self.back_to_master_exec();
                Effect::Nothing
            },
            _ => Effect::Nothing,
        }
    }

    fn handle_filter(&mut self, key: Key) -> (eff: Effect)
        requires
            old(self).wf(),
            old(self)@.mode == Mode::Filter,
        ensures
            final(self)@ == step_filter(old(self)@, key),
            eff.deep_view() == step_effect(old(self)@, key),
    {
        match key {
            Key::Char(c) => {
                push_char(&mut self.input_buffer, c);
                self.refilter(Ghost(old(self)@));
                Effect::Nothing
            },
            Key::Backspace => {
                let _ = pop_char(&mut self.input_buffer);
                self.refilter(Ghost(old(self)@));
                Effect::Nothing
            },
            Key::Enter => {
                if self.filtered_items.len() > 0 {
                    self.input_buffer = self.filtered_items[self.selected].clone();
                    self.mode = Mode::Normal;
                    proof {
                        assert(self@ =~~= step_filter(old(self)@, key));
                    }
                } else {
                    self.back_to_master_exec();
                }
                Effect::Nothing
            },
            Key::Esc => {
                self.back_to_master_exec();
                Effect::Nothing
            },
            _ => Effect::Nothing,
        }
    }

    fn refilter(&mut self, Ghost(base): Ghost<NavV>)
        requires
            old(self)@.master == base.master,
            old(self)@.filtered == base.filtered,
            old(self)@.mode == base.mode,
            base.filtered.len() > 0 ==> 0 <= base.selected < base.filtered.len(),
            base.filtered.len() == 0 ==> base.selected == 0,
            old(self)@.selected == base.selected,
        ensures
            final(self)@ == (NavV {
                filtered: filter_spec(base.master, old(self)@.buffer),
                selected: repair(
                    base.selected,
                    base.filtered.len() as int,
                    filter_spec(base.master, old(self)@.buffer).len() as int,
                ),
                buffer: old(self)@.buffer,
                ..base
            }),
    {
        let f = filter_items(&self.master_items, self.input_buffer.as_str());
        let old_len = self.filtered_items.len();
        self.selected = repair_index(self.selected, old_len, f.len());
        self.filtered_items = f;
        proof {
            assert(self@ =~~= NavV {
                filtered: filter_spec(base.master, old(self)@.buffer),
                selected: repair(
                    base.selected,
                    base.filtered.len() as int,
                    filter_spec(base.master, old(self)@.buffer).len() as int,
                ),
                buffer: old(self)@.buffer,
                ..base
            });
        }
    }

    fn handle_help(&mut self, key: Key) -> (eff: Effect)
        requires
            old(self).wf(),
            old(self)@.mode == Mode::Help,
        ensures
            final(self)@ == step_help(old(self)@, key),
            eff.deep_view() == step_effect(old(self)@, key),
    {
        match key {
            Key::Esc => {
                self.back_to_master_exec();
                Effect::Nothing
            },
            _ => Effect::Nothing,
        }
    }

    /// Handles one key event: mutates the state exactly as the transition
    /// function [`nav_step`] says, and returns the effect the caller must
    /// perform.  The selection invariant is preserved.
    pub fn handle_key(&mut self, key: Key) -> (eff: Effect)
        requires
            old(self).wf(),
        ensures
            final(self).wf(),
            final(self)@ == nav_step(old(self)@, key),
            eff.deep_view() == step_effect(old(self)@, key),
    {
        proof {
            lemma_step_preserves_inv(old(self)@, key);
        }
        match self.mode {
            Mode::Normal => self.handle_normal(key),
            Mode::Command => self.handle_command(key),
            Mode::Filter => self.handle_filter(key),
            Mode::Help => self.handle_help(key),
        }
    }
}

/// What one frame shows, independent of any drawing backend.
pub struct RenderModel {
    pub mode_label: String,
    pub input_buffer: String,
    pub visible_items: Vec<String>,
    pub highlighted_index: Option<usize>,
}

/// The bottom-bar title of each mode.
pub open spec fn mode_label_spec(m: Mode) -> Seq<char> {
    match m {
        Mode::Normal => "NORMAL"@,
        Mode::Command => "COMMAND"@,
        Mode::Filter => "FILTER"@,
        Mode::Help => "HELP"@,
    }
}

/// Translates the navigator state into the backend-agnostic description
/// of one frame: the mode's label, the buffer, the visible items, and
/// the highlighted row (absent exactly when the view is empty).
pub fn render_model(s: &NavState) -> (r: RenderModel)
    ensures
        r.mode_label@ == mode_label_spec(s@.mode),
        r.input_buffer@ == s@.buffer,
        r.visible_items.deep_view() == s@.filtered,
        (match r.highlighted_index {
            Some(i) => s@.filtered.len() > 0 && i == s@.selected,
            None => s@.filtered.len() == 0,
        }),
{
    let label: String = match s.mode {
        Mode::Normal => "NORMAL".to_owned(),
        Mode::Command => "COMMAND".to_owned(),
        Mode::Filter => "FILTER".to_owned(),
        Mode::Help => "HELP".to_owned(),
    };
    RenderModel {
        mode_label: label,
        input_buffer: s.input_buffer.clone(),
        visible_items: clone_string_vec(&s.filtered_items),
        highlighted_index: if s.filtered_items.len() == 0 {
            None
        } else {
            Some(s.selected)
        },
    }
}

} // verus!
