//! The interaction state machine: modes, focus, and one transition per input
//! key. `App::step` consumes a key and yields the effect the surrounding
//! program must perform (persist, run a command, open a shell, quit); the
//! whole transition table is stated as the spec function [`step_spec`], and
//! `step` is proved to follow it exactly.

use vstd::prelude::*;
use crate::alias::{AliasV, AliasStore, copy_text, first_keybind_index};
use crate::selection::{
    move_up_spec, move_down_spec, after_insert_spec, after_remove_spec, move_up, move_down,
    after_insert, after_remove,
};

verus! {

/// Number of entries in the fixed action menu:
/// add, edit, remove, go to shell, quit.
pub const ACTION_COUNT: usize = 5;

/// Minimum terminal size at which the interface accepts input.
pub const MIN_WIDTH: u16 = 40;

pub const MIN_HEIGHT: u16 = 10;

/// Whether a terminal of the given size is large enough to be used; below
/// the minimum only a warning is drawn and no transition is accepted.
pub fn size_ok(width: u16, height: u16) -> (r: bool)
    ensures
        r == (width >= MIN_WIDTH && height >= MIN_HEIGHT),
{
    width >= MIN_WIDTH && height >= MIN_HEIGHT
}

/// Which panel receives directional input while in `Main` mode.
#[derive(Clone, Copy, Debug, PartialEq, Eq, Structural)]
pub enum Focus {
    Actions,
    Aliases,
}

/// One keyboard event, reduced to what the state machine distinguishes.
#[derive(Clone, Copy, Debug)]
pub enum KeyInput {
    Up,
    Down,
    Enter,
    Esc,
    Backspace,
    Tab,
    Char(char),
    Other,
}

/// The active interaction mode, with exactly the state that mode needs.
pub enum UiMode {
    Main,
    Adding { step: u8, name: Vec<char>, command: Vec<char>, keybind: Option<char> },
    EditingSelect,
    Editing { index: usize, command: Vec<char> },
    RemovingSelect,
    Message { text: Vec<char> },
}

/// Mathematical value of a [`UiMode`].
#[verifier::ext_equal]
pub enum ModeV {
    Main,
    Adding { step: u8, name: Seq<char>, command: Seq<char>, keybind: Option<char> },
    EditingSelect,
    Editing { index: usize, command: Seq<char> },
    RemovingSelect,
    Message { text: Seq<char> },
}

impl View for UiMode {
    type V = ModeV;

    open spec fn view(&self) -> ModeV {
        match self {
            UiMode::Main => ModeV::Main,
            UiMode::Adding { step, name, command, keybind } => ModeV::Adding {
                step: *step,
                name: name@,
                command: command@,
                keybind: *keybind,
            },
            UiMode::EditingSelect => ModeV::EditingSelect,
            UiMode::Editing { index, command } => ModeV::Editing {
                index: *index,
                command: command@,
            },
            UiMode::RemovingSelect => ModeV::RemovingSelect,
            UiMode::Message { text } => ModeV::Message { text: text@ },
        }
    }
}

/// What the surrounding program must do after a transition.
pub enum Effect {
    /// Nothing beyond redrawing.
    Quiet,
    /// The store changed: write the configuration back to disk.
    Persist,
    /// Suspend the interface, run `command` through the configured shell,
    /// wait for one key press, resume.
    Run { command: Vec<char> },
    /// Suspend the interface, open the default shell interactively, resume
    /// when it exits.
    OpenShell,
    /// Leave the program, restoring the terminal.
    Quit,
}

/// Mathematical value of an [`Effect`].
#[verifier::ext_equal]
pub enum EffectV {
    Quiet,
    Persist,
    Run { command: Seq<char> },
    OpenShell,
    Quit,
}

impl View for Effect {
    type V = EffectV;

    open spec fn view(&self) -> EffectV {
        match self {
            Effect::Quiet => EffectV::Quiet,
            Effect::Persist => EffectV::Persist,
            Effect::Run { command } => EffectV::Run { command: command@ },
            Effect::OpenShell => EffectV::OpenShell,
            Effect::Quit => EffectV::Quit,
        }
    }
}

/// The whole interface state.
pub struct App {
    pub store: AliasStore,
    pub cursor: Option<usize>,
    pub focus: Focus,
    pub mode: UiMode,
    pub action: usize,
}

/// Mathematical value of an [`App`].
#[verifier::ext_equal]
pub struct AppV {
    pub aliases: Seq<AliasV>,
    pub cursor: Option<usize>,
    pub focus: Focus,
    pub mode: ModeV,
    pub action: usize,
}

impl View for App {
    type V = AppV;

    open spec fn view(&self) -> AppV {
        AppV {
            aliases: self.store@,
            cursor: self.cursor,
            focus: self.focus,
            mode: self.mode@,
            action: self.action,
        }
    }
}

impl AppV {
    /// Well-formedness: the cursor is `None` exactly on an empty store and
    /// in range otherwise, the action cursor points into the fixed menu, an
    /// adding dialog is at one of its three steps, and an editing dialog
    /// points at an existing alias.
    pub open spec fn wf(self) -> bool {
        &&& self.aliases.len() <= usize::MAX
        &&& match self.cursor {
            Option::None => self.aliases.len() == 0,
            Option::Some(i) => (i as int) < self.aliases.len(),
        }
        &&& self.action < ACTION_COUNT
        &&& match self.mode {
            ModeV::Adding { step, .. } => 1 <= step <= 3,
            ModeV::Editing { index, .. } => (index as int) < self.aliases.len(),
            _ => true,
        }
    }
}

/// Text of the message shown when removal is requested on an empty store.
pub open spec fn no_aliases_text() -> Seq<char> {
    seq!['N', 'o', ' ', 'a', 'l', 'i', 'a', 's', 'e', 's', ' ', 't', 'o', ' ', 'r', 'e', 'm', 'o', 'v', 'e']
}

pub fn message_no_aliases() -> (r: Vec<char>)
    ensures
        r@ == no_aliases_text(),
{
    let mut r: Vec<char> = Vec::new();
    r.push('N');
    r.push('o');
    r.push(' ');
    r.push('a');
    r.push('l');
    r.push('i');
    r.push('a');
    r.push('s');
    r.push('e');
    r.push('s');
    r.push(' ');
    r.push('t');
    r.push('o');
    r.push(' ');
    r.push('r');
    r.push('e');
    r.push('m');
    r.push('o');
    r.push('v');
    r.push('e');
    proof {
        assert(r@ =~= no_aliases_text());
    }
    r
}

pub open spec fn toggle_focus(f: Focus) -> Focus {
    match f {
        Focus::Actions => Focus::Aliases,
        Focus::Aliases => Focus::Actions,
    }
}

/// Transitions while in `Main` mode (other than focus switching).
pub open spec fn step_main(m: AppV, key: KeyInput) -> (AppV, EffectV) {
    let len: usize = m.aliases.len() as usize;
    match m.focus {
        Focus::Actions => match key {
            KeyInput::Up => (
                AppV {
                    action: if m.action == 0 {
                        (ACTION_COUNT - 1) as usize
                    } else {
                        (m.action - 1) as usize
                    },
                    ..m
                },
                EffectV::Quiet,
            ),
            KeyInput::Down => (
                AppV {
                    action: if m.action >= (ACTION_COUNT - 1) as usize {
                        0usize
                    } else {
                        (m.action + 1) as usize
                    },
                    ..m
                },
                EffectV::Quiet,
            ),
            KeyInput::Enter => if m.action == 0 {
                (
                    AppV {
                        mode: ModeV::Adding {
                            step: 1u8,
                            name: Seq::empty(),
                            command: Seq::empty(),
                            keybind: Option::None,
                        },
                        ..m
                    },
                    EffectV::Quiet,
                )
            } else if m.action == 1 {
                (
                    AppV { mode: if len == 0 { ModeV::Main } else { ModeV::EditingSelect }, ..m },
                    EffectV::Quiet,
                )
            } else if m.action == 2 {
                if len == 0 {
                    (AppV { mode: ModeV::Message { text: no_aliases_text() }, ..m }, EffectV::Quiet)
                } else {
                    (AppV { mode: ModeV::RemovingSelect, ..m }, EffectV::Quiet)
                }
            } else if m.action == 3 {
                (m, EffectV::OpenShell)
            } else if m.action == 4 {
                (m, EffectV::Quit)
            } else {
                (m, EffectV::Quiet)
            },
            KeyInput::Char(c) => match first_keybind_index(m.aliases, c) {
                Option::Some(i) => (m, EffectV::Run { command: m.aliases[i].command }),
                Option::None => (m, EffectV::Quiet),
            },
            _ => (m, EffectV::Quiet),
        },
        Focus::Aliases => match key {
            KeyInput::Up => (AppV { cursor: move_up_spec(len, m.cursor), ..m }, EffectV::Quiet),
            KeyInput::Down => (AppV { cursor: move_down_spec(len, m.cursor), ..m }, EffectV::Quiet),
            KeyInput::Enter => match m.cursor {
                Option::Some(i) => if (i as int) < m.aliases.len() {
                    (m, EffectV::Run { command: m.aliases[i as int].command })
                } else {
                    (m, EffectV::Quiet)
                },
                Option::None => (m, EffectV::Quiet),
            },
            _ => (m, EffectV::Quiet),
        },
    }
}

/// Transitions while the adding dialog is open.
pub open spec fn step_adding(m: AppV, key: KeyInput) -> (AppV, EffectV) {
    match m.mode {
        ModeV::Adding { step, name, command, keybind } => match key {
            KeyInput::Esc => (AppV { mode: ModeV::Main, ..m }, EffectV::Quiet),
            KeyInput::Enter => if step == 1 {
                (
                    AppV { mode: ModeV::Adding { step: 2u8, name, command, keybind }, ..m },
                    EffectV::Quiet,
                )
            } else if step == 2 {
                (
                    AppV { mode: ModeV::Adding { step: 3u8, name, command, keybind }, ..m },
                    EffectV::Quiet,
                )
            } else {
                let aliases2 = m.aliases.push(AliasV { name, command, keybind });
                let len2: usize = aliases2.len() as usize;
                (
                    AppV {
                        aliases: aliases2,
                        cursor: after_insert_spec(len2, m.cursor),
                        mode: ModeV::Main,
                        ..m
                    },
                    EffectV::Persist,
                )
            },
            KeyInput::Backspace => if step == 1 {
                (
                    AppV {
                        mode: ModeV::Adding {
                            step,
                            name: if name.len() > 0 {
                                name.drop_last()
                            } else {
                                name
                            },
                            command,
                            keybind,
                        },
                        ..m
                    },
                    EffectV::Quiet,
                )
            } else if step == 2 {
                (
                    AppV {
                        mode: ModeV::Adding {
                            step,
                            name,
                            command: if command.len() > 0 {
                                command.drop_last()
                            } else {
                                command
                            },
                            keybind,
                        },
                        ..m
                    },
                    EffectV::Quiet,
                )
            } else {
                (m, EffectV::Quiet)
            },
            KeyInput::Char(c) => if step == 1 {
                (
                    AppV { mode: ModeV::Adding { step, name: name.push(c), command, keybind }, ..m },
                    EffectV::Quiet,
                )
            } else if step == 2 {
                (
                    AppV {
                        mode: ModeV::Adding { step, name, command: command.push(c), keybind },
                        ..m
                    },
                    EffectV::Quiet,
                )
            } else {
                (
                    AppV {
                        mode: ModeV::Adding { step, name, command, keybind: Option::Some(c) },
                        ..m
                    },
                    EffectV::Quiet,
                )
            },
            _ => (m, EffectV::Quiet),
        },
        _ => (m, EffectV::Quiet),
    }
}

/// Transitions while choosing which alias to edit.
pub open spec fn step_editing_select(m: AppV, key: KeyInput) -> (AppV, EffectV) {
    let len: usize = m.aliases.len() as usize;
    match key {
        KeyInput::Up => (AppV { cursor: move_up_spec(len, m.cursor), ..m }, EffectV::Quiet),
        KeyInput::Down => (AppV { cursor: move_down_spec(len, m.cursor), ..m }, EffectV::Quiet),
        KeyInput::Enter => match m.cursor {
            Option::Some(i) => if (i as int) < m.aliases.len() {
                (
                    AppV {
                        mode: ModeV::Editing { index: i, command: m.aliases[i as int].command },
                        ..m
                    },
                    EffectV::Quiet,
                )
            } else {
                (m, EffectV::Quiet)
            },
            Option::None => (m, EffectV::Quiet),
        },
        KeyInput::Esc => (AppV { mode: ModeV::Main, ..m }, EffectV::Quiet),
        _ => (m, EffectV::Quiet),
    }
}

/// Transitions while the command-editing buffer is open.
pub open spec fn step_editing(m: AppV, key: KeyInput) -> (AppV, EffectV) {
    match m.mode {
        ModeV::Editing { index, command } => match key {
            KeyInput::Esc => (AppV { mode: ModeV::Main, ..m }, EffectV::Quiet),
            KeyInput::Enter => {
                let aliases2 = if (index as int) < m.aliases.len() {
                    m.aliases.update(
                        index as int,
                        AliasV {
                            name: m.aliases[index as int].name,
                            command,
                            keybind: m.aliases[index as int].keybind,
                        },
                    )
                } else {
                    m.aliases
                };
                (AppV { aliases: aliases2, mode: ModeV::Main, ..m }, EffectV::Persist)
            },
            KeyInput::Backspace => (
                AppV {
                    mode: ModeV::Editing {
                        index,
                        command: if command.len() > 0 {
                            command.drop_last()
                        } else {
                            command
                        },
                    },
                    ..m
                },
                EffectV::Quiet,
            ),
            KeyInput::Char(c) => (
                AppV { mode: ModeV::Editing { index, command: command.push(c) }, ..m },
                EffectV::Quiet,
            ),
            _ => (m, EffectV::Quiet),
        },
        _ => (m, EffectV::Quiet),
    }
}

/// Transitions while choosing which alias to remove.
pub open spec fn step_removing_select(m: AppV, key: KeyInput) -> (AppV, EffectV) {
    let len: usize = m.aliases.len() as usize;
    match key {
        KeyInput::Up => (AppV { cursor: move_up_spec(len, m.cursor), ..m }, EffectV::Quiet),
        KeyInput::Down => (AppV { cursor: move_down_spec(len, m.cursor), ..m }, EffectV::Quiet),
        KeyInput::Enter => match m.cursor {
            Option::Some(i) => if (i as int) < m.aliases.len() {
                let aliases2 = m.aliases.remove(i as int);
                let len2: usize = (len - 1) as usize;
                (
                    AppV {
                        aliases: aliases2,
                        cursor: after_remove_spec(len2),
                        mode: ModeV::Main,
                        ..m
                    },
                    EffectV::Persist,
                )
            } else {
                (m, EffectV::Quiet)
            },
            Option::None => (m, EffectV::Quiet),
        },
        KeyInput::Esc => (AppV { mode: ModeV::Main, ..m }, EffectV::Quiet),
        _ => (m, EffectV::Quiet),
    }
}

/// The full transition table, one input event at a time. `small` reports a
/// terminal below the minimum usable size: while it holds, no transition is
/// accepted. Otherwise the focus-switch key acts first and only in `Main`
/// mode; every other key is dispatched to the active mode.
pub open spec fn step_spec(m: AppV, key: KeyInput, small: bool) -> (AppV, EffectV) {
    if small {
        (m, EffectV::Quiet)
    } else {
        match key {
            KeyInput::Tab => match m.mode {
                ModeV::Main => {
                    let f2 = toggle_focus(m.focus);
                    let len: usize = m.aliases.len() as usize;
                    let c2 = if f2 is Aliases && m.cursor is None && len > 0 {
                        Option::Some(0usize)
                    } else {
                        m.cursor
                    };
                    (AppV { focus: f2, cursor: c2, ..m }, EffectV::Quiet)
                },
                _ => (m, EffectV::Quiet),
            },
            _ => match m.mode {
                ModeV::Main => step_main(m, key),
                ModeV::Adding { .. } => step_adding(m, key),
                ModeV::EditingSelect => step_editing_select(m, key),
                ModeV::Editing { .. } => step_editing(m, key),
                ModeV::RemovingSelect => step_removing_select(m, key),
                ModeV::Message { .. } => (AppV { mode: ModeV::Main, ..m }, EffectV::Quiet),
            },
        }
    }
}

impl App {
    /// The initial state: `Main` mode, focus on the action menu, the first
    /// alias selected when there is one.
    pub fn new(store: AliasStore) -> (r: App)
        ensures
            r@.aliases == store@,
            r@.cursor == (if store@.len() == 0 {
                Option::None::<usize>
            } else {
                Option::Some(0usize)
            }),
            r@.focus == Focus::Actions,
            r@.mode == ModeV::Main,
            r@.action == 0,
            r@.wf(),
    {
        let len = store.len();
        let cursor = if len == 0 {
            Option::None
        } else {
            Option::Some(0)
        };
        App { store, cursor, focus: Focus::Actions, mode: UiMode::Main, action: 0 }
    }

    /// One transition of the state machine: follows [`step_spec`] exactly
    /// and keeps the state well-formed.
    pub fn step(&mut self, key: KeyInput, small: bool) -> (eff: Effect)
        requires
            old(self)@.wf(),
        ensures
            final(self)@.wf(),
            (final(self)@, eff@) == step_spec(old(self)@, key, small),
    {
        if small {
            return Effect::Quiet;
        }
        let is_tab = match key {
            KeyInput::Tab => true,
            _ => false,
        };
        if is_tab {
            let in_main = match &self.mode {
                UiMode::Main => true,
                _ => false,
            };
            if in_main {
                self.focus = match self.focus {
                    Focus::Actions => Focus::Aliases,
                    Focus::Aliases => Focus::Actions,
                };
                let to_aliases = match self.focus {
                    Focus::Aliases => true,
                    _ => false,
                };
                if to_aliases {
                    let none_selected = match self.cursor {
                        Option::None => true,
                        _ => false,
                    };
                    if none_selected && self.store.len() > 0 {
                        self.cursor = Option::Some(0);
                    }
                }
            }
            return Effect::Quiet;
        }
        let tag: u8 = match &self.mode {
            UiMode::Main => 0,
            UiMode::Adding { .. } => 1,
            UiMode::EditingSelect => 2,
            UiMode::Editing { .. } => 3,
            UiMode::RemovingSelect => 4,
            UiMode::Message { .. } => 5,
        };
        if tag == 0 {
            self.step_in_main(key)
        } else if tag == 1 {
            self.step_in_adding(key)
        } else if tag == 2 {
            self.step_in_editing_select(key)
        } else if tag == 3 {
            self.step_in_editing(key)
        } else if tag == 4 {
            self.step_in_removing_select(key)
        } else {
            self.mode = UiMode::Main;
            Effect::Quiet
        }
    }

    fn step_in_main(&mut self, key: KeyInput) -> (eff: Effect)
        requires
            old(self)@.wf(),
            old(self)@.mode is Main,
        ensures
            final(self)@.wf(),
            (final(self)@, eff@) == step_main(old(self)@, key),
    {
        match self.focus {
            Focus::Actions => match key {
                KeyInput::Up => {
                    self.action = if self.action == 0 {
                        ACTION_COUNT - 1
                    } else {
                        self.action - 1
                    };
                    Effect::Quiet
                },
                KeyInput::Down => {
                    self.action = if self.action >= ACTION_COUNT - 1 {
                        0
                    } else {
                        self.action + 1
                    };
                    Effect::Quiet
                },
                KeyInput::Enter => {
                    if self.action == 0 {
                        self.mode = UiMode::Adding {
                            step: 1,
                            name: Vec::new(),
                            command: Vec::new(),
                            keybind: Option::None,
                        };
                        Effect::Quiet
                    } else if self.action == 1 {
                        if self.store.len() == 0 {
                            self.mode = UiMode::Main;
                        } else {
                            self.mode = UiMode::EditingSelect;
                        }
                        Effect::Quiet
                    } else if self.action == 2 {
                        if self.store.len() == 0 {
                            self.mode = UiMode::Message { text: message_no_aliases() };
                        } else {
                            self.mode = UiMode::RemovingSelect;
                        }
                        Effect::Quiet
                    } else if self.action == 3 {
                        Effect::OpenShell
                    } else {
                        Effect::Quit
                    }
                },
                KeyInput::Char(c) => match self.store.find_by_keybind(c) {
                    Option::Some(i) => {
                        let command = copy_text(&self.store.get(i).command);
                        Effect::Run { command }
                    },
                    Option::None => Effect::Quiet,
                },
                _ => Effect::Quiet,
            },
            Focus::Aliases => match key {
                KeyInput::Up => {
                    self.cursor = move_up(self.store.len(), self.cursor);
                    Effect::Quiet
                },
                KeyInput::Down => {
                    self.cursor = move_down(self.store.len(), self.cursor);
                    Effect::Quiet
                },
                KeyInput::Enter => match self.cursor {
                    Option::Some(i) => {
                        let command = copy_text(&self.store.get(i).command);
                        Effect::Run { command }
                    },
                    Option::None => Effect::Quiet,
                },
                _ => Effect::Quiet,
            },
        }
    }

    fn step_in_adding(&mut self, key: KeyInput) -> (eff: Effect)
        requires
            old(self)@.wf(),
            old(self)@.mode is Adding,
        ensures
            final(self)@.wf(),
            (final(self)@, eff@) == step_adding(old(self)@, key),
    {
        let mut taken = UiMode::Main;
        core::mem::swap(&mut self.mode, &mut taken);
        match taken {
            UiMode::Adding { step, mut name, mut command, keybind } => {
                match key {
                    KeyInput::Esc => Effect::Quiet,
                    KeyInput::Enter => {
                        if step == 1 {
                            self.mode = UiMode::Adding { step: 2, name, command, keybind };
                            Effect::Quiet
                        } else if step == 2 {
                            self.mode = UiMode::Adding { step: 3, name, command, keybind };
                            Effect::Quiet
                        } else {
                            self.store.add(name, command, keybind);
                            let len2 = self.store.len();
                            self.cursor = after_insert(len2, self.cursor);
                            Effect::Persist
                        }
                    },
                    KeyInput::Backspace => {
                        if step == 1 {
                            name.pop();
                        } else if step == 2 {
                            command.pop();
                        }
                        self.mode = UiMode::Adding { step, name, command, keybind };
                        Effect::Quiet
                    },
                    KeyInput::Char(c) => {
                        if step == 1 {
                            name.push(c);
                            self.mode = UiMode::Adding { step, name, command, keybind };
                        } else if step == 2 {
                            command.push(c);
                            self.mode = UiMode::Adding { step, name, command, keybind };
                        } else {
                            self.mode = UiMode::Adding {
                                step,
                                name,
                                command,
                                keybind: Option::Some(c),
                            };
                        }
                        Effect::Quiet
                    },
                    _ => {
                        self.mode = UiMode::Adding { step, name, command, keybind };
                        Effect::Quiet
                    },
                }
            },
            _ => {
                proof {
                    assert(false);
                }
                Effect::Quiet
            },
        }
    }

    fn step_in_editing_select(&mut self, key: KeyInput) -> (eff: Effect)
        requires
            old(self)@.wf(),
            old(self)@.mode is EditingSelect,
        ensures
            final(self)@.wf(),
            (final(self)@, eff@) == step_editing_select(old(self)@, key),
    {
        match key {
            KeyInput::Up => {
                self.cursor = move_up(self.store.len(), self.cursor);
                Effect::Quiet
            },
            KeyInput::Down => {
                self.cursor = move_down(self.store.len(), self.cursor);
                Effect::Quiet
            },
            KeyInput::Enter => match self.cursor {
                Option::Some(i) => {
                    let command = copy_text(&self.store.get(i).command);
                    self.mode = UiMode::Editing { index: i, command };
                    Effect::Quiet
                },
                Option::None => Effect::Quiet,
            },
            KeyInput::Esc => {
                self.mode = UiMode::Main;
                Effect::Quiet
            },
            _ => Effect::Quiet,
        }
    }

    fn step_in_editing(&mut self, key: KeyInput) -> (eff: Effect)
        requires
            old(self)@.wf(),
            old(self)@.mode is Editing,
        ensures
            final(self)@.wf(),
            (final(self)@, eff@) == step_editing(old(self)@, key),
    {
        let mut taken = UiMode::Main;
        core::mem::swap(&mut self.mode, &mut taken);
        match taken {
            UiMode::Editing { index, mut command } => {
                match key {
                    KeyInput::Esc => Effect::Quiet,
                    KeyInput::Enter => {
                        let _ = self.store.update_command(index, command);
                        Effect::Persist
                    },
                    KeyInput::Backspace => {
                        command.pop();
                        self.mode = UiMode::Editing { index, command };
                        Effect::Quiet
                    },
                    KeyInput::Char(c) => {
                        command.push(c);
                        self.mode = UiMode::Editing { index, command };
                        Effect::Quiet
                    },
                    _ => {
                        self.mode = UiMode::Editing { index, command };
                        Effect::Quiet
                    },
                }
            },
            _ => {
                proof {
                    assert(false);
                }
                Effect::Quiet
            },
        }
    }

    fn step_in_removing_select(&mut self, key: KeyInput) -> (eff: Effect)
        requires
            old(self)@.wf(),
            old(self)@.mode is RemovingSelect,
        ensures
            final(self)@.wf(),
            (final(self)@, eff@) == step_removing_select(old(self)@, key),
    {
        match key {
            KeyInput::Up => {
                self.cursor = move_up(self.store.len(), self.cursor);
                Effect::Quiet
            },
            KeyInput::Down => {
                self.cursor = move_down(self.store.len(), self.cursor);
                Effect::Quiet
            },
            KeyInput::Enter => match self.cursor {
                Option::Some(i) => {
                    let _ = self.store.remove(i);
                    let len2 = self.store.len();
                    self.cursor = after_remove(len2);
                    self.mode = UiMode::Main;
                    Effect::Persist
                },
                Option::None => Effect::Quiet,
            },
            KeyInput::Esc => {
                self.mode = UiMode::Main;
                Effect::Quiet
            },
            _ => Effect::Quiet,
        }
    }
}

/// Every transition from a well-formed state (with room for one more alias)
/// yields a well-formed state: in particular the selection cursor is `None`
/// exactly when the store is empty and in range otherwise, after any
/// sequence of add, edit and remove operations.
pub proof fn lemma_step_preserves_wf(m: AppV, key: KeyInput, small: bool)
    requires
        m.wf(),
        m.aliases.len() < usize::MAX,
    ensures
        step_spec(m, key, small).0.wf(),
{
}

} // verus!
