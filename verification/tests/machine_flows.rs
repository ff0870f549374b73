use tuish::alias::AliasStore;
use tuish::config::Config;
use tuish::machine::{App, Effect, Focus, KeyInput, UiMode};

fn chars_of(s: &str) -> Vec<char> {
    s.chars().collect()
}

fn cursor_invariant_holds(app: &App) -> bool {
    match app.cursor {
        None => app.store.len() == 0,
        Some(i) => i < app.store.len(),
    }
}

fn type_text(app: &mut App, s: &str) {
    for c in s.chars() {
        let eff = app.step(KeyInput::Char(c), false);
        assert!(matches!(eff, Effect::Quiet));
    }
}

fn snapshot_config(app: &App, shell: &str) -> Config {
    Config {
        aliases: AliasStore { items: app.store.items.clone() },
        default_shell: chars_of(shell),
    }
}

#[test]
fn add_flow_then_keybind_runs_and_persists() {
    let mut app = App::new(AliasStore::new());
    assert!(matches!(app.mode, UiMode::Main));
    assert_eq!(app.cursor, None);

    // Enter on the "add" action opens the dialog at step 1.
    let eff = app.step(KeyInput::Enter, false);
    assert!(matches!(eff, Effect::Quiet));
    assert!(matches!(app.mode, UiMode::Adding { step: 1, .. }));

    type_text(&mut app, "build");
    app.step(KeyInput::Enter, false);
    assert!(matches!(app.mode, UiMode::Adding { step: 2, .. }));
    type_text(&mut app, "cargo build");
    app.step(KeyInput::Enter, false);
    assert!(matches!(app.mode, UiMode::Adding { step: 3, .. }));
    app.step(KeyInput::Char('b'), false);

    // Enter at step 3 commits and asks for a save.
    let eff = app.step(KeyInput::Enter, false);
    assert!(matches!(eff, Effect::Persist));
    assert!(matches!(app.mode, UiMode::Main));
    assert_eq!(app.store.len(), 1);
    assert_eq!(app.cursor, Some(0));
    assert!(cursor_invariant_holds(&app));

    // Pressing the keybind from Main/Actions runs the stored command.
    let eff = app.step(KeyInput::Char('b'), false);
    match eff {
        Effect::Run { command } => assert_eq!(command, chars_of("cargo build")),
        _ => panic!("expected a run effect"),
    }

    // The persisted text holds exactly the one alias and its keybind.
    let cfg = snapshot_config(&app, "/bin/bash");
    let text = cfg.save_to_text();
    assert_eq!(text, chars_of("/bin/bash\nbuild\tcargo build\tb"));
}

#[test]
fn remove_flow_empties_store_and_cursor() {
    let mut store = AliasStore::new();
    store.add(chars_of("x"), chars_of("echo x"), None);
    let mut app = App::new(store);
    assert_eq!(app.cursor, Some(0));

    app.step(KeyInput::Down, false);
    app.step(KeyInput::Down, false);
    let eff = app.step(KeyInput::Enter, false);
    assert!(matches!(eff, Effect::Quiet));
    assert!(matches!(app.mode, UiMode::RemovingSelect));

    let eff = app.step(KeyInput::Enter, false);
    assert!(matches!(eff, Effect::Persist));
    assert!(matches!(app.mode, UiMode::Main));
    assert_eq!(app.store.len(), 0);
    assert_eq!(app.cursor, None);
    assert!(cursor_invariant_holds(&app));

    let cfg = snapshot_config(&app, "sh");
    assert_eq!(cfg.save_to_text(), chars_of("sh"));
}

#[test]
fn edit_flow_commits_an_empty_command() {
    let mut store = AliasStore::new();
    store.add(chars_of("x"), chars_of("abc"), None);
    let mut app = App::new(store);

    app.step(KeyInput::Down, false);
    let eff = app.step(KeyInput::Enter, false);
    assert!(matches!(eff, Effect::Quiet));
    assert!(matches!(app.mode, UiMode::EditingSelect));

    let eff = app.step(KeyInput::Enter, false);
    assert!(matches!(eff, Effect::Quiet));
    match &app.mode {
        UiMode::Editing { index, command } => {
            assert_eq!(*index, 0);
            assert_eq!(command, &chars_of("abc"));
        },
        _ => panic!("expected the editing buffer"),
    }

    app.step(KeyInput::Backspace, false);
    app.step(KeyInput::Backspace, false);
    app.step(KeyInput::Backspace, false);
    let eff = app.step(KeyInput::Enter, false);
    assert!(matches!(eff, Effect::Persist));
    assert!(matches!(app.mode, UiMode::Main));
    assert_eq!(app.store.get(0).command, chars_of(""));
    assert_eq!(app.store.get(0).name, chars_of("x"));
}

#[test]
fn cursor_invariant_holds_through_a_mixed_session() {
    let mut app = App::new(AliasStore::new());
    assert!(cursor_invariant_holds(&app));

    // Add two aliases through the dialog.
    for name in ["a", "b"] {
        app.step(KeyInput::Enter, false);
        type_text(&mut app, name);
        app.step(KeyInput::Enter, false);
        type_text(&mut app, "echo hi");
        app.step(KeyInput::Enter, false);
        let eff = app.step(KeyInput::Enter, false);
        assert!(matches!(eff, Effect::Persist));
        assert!(cursor_invariant_holds(&app));
    }
    assert_eq!(app.store.len(), 2);
    assert_eq!(app.cursor, Some(1));

    // Edit the first one.
    app.step(KeyInput::Down, false);
    app.step(KeyInput::Enter, false);
    app.step(KeyInput::Up, false);
    assert!(cursor_invariant_holds(&app));
    app.step(KeyInput::Enter, false);
    type_text(&mut app, "!");
    let eff = app.step(KeyInput::Enter, false);
    assert!(matches!(eff, Effect::Persist));
    assert!(cursor_invariant_holds(&app));

    // Remove both.
    app.step(KeyInput::Down, false);
    app.step(KeyInput::Enter, false);
    let eff = app.step(KeyInput::Enter, false);
    assert!(matches!(eff, Effect::Persist));
    assert!(cursor_invariant_holds(&app));
    assert_eq!(app.store.len(), 1);
    assert_eq!(app.cursor, Some(0));

    app.step(KeyInput::Enter, false);
    let eff = app.step(KeyInput::Enter, false);
    assert!(matches!(eff, Effect::Persist));
    assert!(cursor_invariant_holds(&app));
    assert_eq!(app.store.len(), 0);
    assert_eq!(app.cursor, None);
}

#[test]
fn remove_on_empty_store_shows_message_and_any_key_dismisses() {
    let mut app = App::new(AliasStore::new());
    app.step(KeyInput::Down, false);
    app.step(KeyInput::Down, false);
    let eff = app.step(KeyInput::Enter, false);
    assert!(matches!(eff, Effect::Quiet));
    match &app.mode {
        UiMode::Message { text } => assert_eq!(text, &chars_of("No aliases to remove")),
        _ => panic!("expected the informational message"),
    }
    app.step(KeyInput::Char('q'), false);
    assert!(matches!(app.mode, UiMode::Main));
}

#[test]
fn edit_on_empty_store_stays_in_main() {
    let mut app = App::new(AliasStore::new());
    app.step(KeyInput::Down, false);
    let eff = app.step(KeyInput::Enter, false);
    assert!(matches!(eff, Effect::Quiet));
    assert!(matches!(app.mode, UiMode::Main));
}

#[test]
fn shell_and_quit_actions_emit_their_effects() {
    let mut app = App::new(AliasStore::new());
    app.step(KeyInput::Down, false);
    app.step(KeyInput::Down, false);
    app.step(KeyInput::Down, false);
    let eff = app.step(KeyInput::Enter, false);
    assert!(matches!(eff, Effect::OpenShell));
    app.step(KeyInput::Down, false);
    let eff = app.step(KeyInput::Enter, false);
    assert!(matches!(eff, Effect::Quit));
}

#[test]
fn action_menu_wraps_both_ways() {
    let mut app = App::new(AliasStore::new());
    assert_eq!(app.action, 0);
    app.step(KeyInput::Up, false);
    assert_eq!(app.action, 4);
    app.step(KeyInput::Down, false);
    assert_eq!(app.action, 0);
}

#[test]
fn tab_switches_focus_only_in_main() {
    // An empty store keeps the cursor empty even after switching focus.
    let mut app = App::new(AliasStore::new());
    app.step(KeyInput::Tab, false);
    assert_eq!(app.focus, Focus::Aliases);
    assert_eq!(app.cursor, None);
    app.step(KeyInput::Tab, false);
    assert_eq!(app.focus, Focus::Actions);

    // With an alias present, switching keeps the valid selection.
    let mut store = AliasStore::new();
    store.add(chars_of("x"), chars_of("echo x"), None);
    let mut app = App::new(store);
    app.step(KeyInput::Tab, false);
    assert_eq!(app.focus, Focus::Aliases);
    assert_eq!(app.cursor, Some(0));

    // Outside Main the focus key is inert.
    app.step(KeyInput::Tab, false);
    assert_eq!(app.focus, Focus::Actions);
    app.step(KeyInput::Enter, false);
    assert!(matches!(app.mode, UiMode::Adding { .. }));
    app.step(KeyInput::Tab, false);
    assert_eq!(app.focus, Focus::Actions);
    assert!(matches!(app.mode, UiMode::Adding { .. }));
}

#[test]
fn aliases_focus_navigates_and_runs_selection() {
    let mut store = AliasStore::new();
    store.add(chars_of("a"), chars_of("echo a"), None);
    store.add(chars_of("b"), chars_of("echo b"), None);
    let mut app = App::new(store);
    app.step(KeyInput::Tab, false);
    assert_eq!(app.focus, Focus::Aliases);
    app.step(KeyInput::Down, false);
    assert_eq!(app.cursor, Some(1));
    let eff = app.step(KeyInput::Enter, false);
    match eff {
        Effect::Run { command } => assert_eq!(command, chars_of("echo b")),
        _ => panic!("expected a run effect"),
    }
    app.step(KeyInput::Down, false);
    assert_eq!(app.cursor, Some(0));
    app.step(KeyInput::Up, false);
    assert_eq!(app.cursor, Some(1));
}

#[test]
fn unknown_keybind_is_a_silent_no_op() {
    let mut store = AliasStore::new();
    store.add(chars_of("a"), chars_of("echo a"), Some('a'));
    let mut app = App::new(store);
    let eff = app.step(KeyInput::Char('z'), false);
    assert!(matches!(eff, Effect::Quiet));
    assert!(matches!(app.mode, UiMode::Main));
}

#[test]
fn adding_dialog_esc_discards_without_saving() {
    let mut app = App::new(AliasStore::new());
    app.step(KeyInput::Enter, false);
    type_text(&mut app, "half");
    let eff = app.step(KeyInput::Esc, false);
    assert!(matches!(eff, Effect::Quiet));
    assert!(matches!(app.mode, UiMode::Main));
    assert_eq!(app.store.len(), 0);
}

#[test]
fn adding_backspace_edits_the_current_field() {
    let mut app = App::new(AliasStore::new());
    app.step(KeyInput::Enter, false);
    type_text(&mut app, "ab");
    app.step(KeyInput::Backspace, false);
    match &app.mode {
        UiMode::Adding { name, .. } => assert_eq!(name, &chars_of("a")),
        _ => panic!("expected the adding dialog"),
    }
    // Backspace on an empty field stays put.
    app.step(KeyInput::Backspace, false);
    app.step(KeyInput::Backspace, false);
    match &app.mode {
        UiMode::Adding { step, name, .. } => {
            assert_eq!(*step, 1);
            assert_eq!(name, &chars_of(""));
        },
        _ => panic!("expected the adding dialog"),
    }
}

#[test]
fn too_small_terminal_accepts_no_transition() {
    let mut store = AliasStore::new();
    store.add(chars_of("a"), chars_of("echo a"), Some('a'));
    let mut app = App::new(store);
    let eff = app.step(KeyInput::Enter, true);
    assert!(matches!(eff, Effect::Quiet));
    assert!(matches!(app.mode, UiMode::Main));
    let eff = app.step(KeyInput::Char('a'), true);
    assert!(matches!(eff, Effect::Quiet));
    let eff = app.step(KeyInput::Tab, true);
    assert!(matches!(eff, Effect::Quiet));
    assert_eq!(app.focus, Focus::Actions);
}
