use macroman::app::{App, EditField, Pane, StepEditField};
use macroman::executor::ExecutorCommand;
use macroman::input::{
    cycle_kind, edit_text, handle_event, handle_key, is_editing_text, Event, KeyCode, KeyEvent,
    KeyModifiers, TextEditCommand,
};
use macroman::model::{MacroStyle, StepAction};

fn key(code: KeyCode) -> KeyEvent {
    KeyEvent { code, modifiers: KeyModifiers { bits: 0 } }
}

fn ctrl(code: KeyCode) -> KeyEvent {
    KeyEvent { code, modifiers: KeyModifiers { bits: 2 } }
}

fn ch(c: char) -> KeyEvent {
    key(KeyCode::Char(c))
}

fn press(app: &mut App, k: KeyEvent) -> Option<ExecutorCommand> {
    handle_event(app, Event::Key(k))
}

fn steps(app: &App) -> Vec<String> {
    app.editor.as_ref().unwrap().steps.iter().map(|s| s.display()).collect()
}

fn macro_steps(app: &App, i: usize) -> Vec<String> {
    app.macros[i].steps.iter().map(|s| s.display()).collect()
}

/// The sample app with the editor open on "Test 1" and the steps focused.
fn in_steps() -> App {
    let mut app = App::new();
    press(&mut app, key(KeyCode::Enter));
    for _ in 0..3 {
        press(&mut app, key(KeyCode::Tab));
    }
    assert_eq!(app.editor.as_ref().unwrap().focused_field, EditField::Steps);
    app
}

#[test]
fn q_quits_and_stops_all() {
    let mut app = App::new();
    let cmd = press(&mut app, ch('q'));
    assert!(app.should_quit);
    assert!(matches!(cmd, Some(ExecutorCommand::StopAll)));
}

#[test]
fn ctrl_q_does_not_quit() {
    let mut app = App::new();
    assert!(press(&mut app, ctrl(KeyCode::Char('q'))).is_none());
    assert!(!app.should_quit);
}

#[test]
fn f5_triggers_selected() {
    let mut app = App::new();
    press(&mut app, key(KeyCode::Down));
    let cmd = press(&mut app, key(KeyCode::F(5)));
    match cmd {
        Some(ExecutorCommand::Trigger(m)) => assert_eq!(m.name, "Test 2"),
        _ => panic!("expected a trigger"),
    }
    assert_eq!(app.status_msg, "Triggered 'Test 2'");
}

#[test]
fn other_events_do_nothing() {
    let mut app = App::new();
    assert!(handle_event(&mut app, Event::Other).is_none());
    assert_eq!(app.list_cursor, 0);
}

#[test]
fn focus_keys() {
    let mut app = App::new();
    press(&mut app, ctrl(KeyCode::Char('l')));
    assert_eq!(app.active_pane, Pane::Editor);
    press(&mut app, ctrl(KeyCode::Char('h')));
    assert_eq!(app.active_pane, Pane::MacroList);
}

#[test]
fn list_keys() {
    let mut app = App::new();
    press(&mut app, ch('j'));
    assert_eq!(app.list_cursor, 1);
    press(&mut app, ch('k'));
    assert_eq!(app.list_cursor, 0);
    press(&mut app, ch('u'));
    assert_eq!(app.macros[1].name, "Test 1 (copy)");
    assert_eq!(app.list_cursor, 1);
    press(&mut app, ch('d'));
    assert_eq!(app.macros.len(), 2);
    press(&mut app, ch('n'));
    assert_eq!(app.macros[2].name, "Macro 3");
    assert_eq!(app.active_pane, Pane::Editor);
}

#[test]
fn tab_cycles_fields() {
    let mut app = App::new();
    press(&mut app, key(KeyCode::Enter));
    let order = [EditField::TriggerKey, EditField::Style, EditField::Steps, EditField::Name];
    for f in order {
        press(&mut app, key(KeyCode::Tab));
        assert_eq!(app.editor.as_ref().unwrap().focused_field, f);
    }
}

#[test]
fn rename_macro() {
    let mut app = App::new();
    press(&mut app, key(KeyCode::Enter));
    press(&mut app, key(KeyCode::Enter));
    assert!(app.editor.as_ref().unwrap().editing_name);
    assert!(is_editing_text(&app));
    press(&mut app, key(KeyCode::Backspace));
    press(&mut app, ch('q'));
    assert!(!app.should_quit);
    assert_eq!(app.editor.as_ref().unwrap().name_buf, "Test q");
    assert_eq!(app.macros[0].name, "Test 1");
    press(&mut app, key(KeyCode::Esc));
    assert!(!app.editor.as_ref().unwrap().editing_name);
    assert_eq!(app.macros[0].name, "Test q");
}

#[test]
fn edit_trigger_key() {
    let mut app = App::new();
    press(&mut app, key(KeyCode::Enter));
    press(&mut app, key(KeyCode::Tab));
    press(&mut app, key(KeyCode::Enter));
    assert!(app.editor.as_ref().unwrap().editing_trigger);
    for _ in 0..7 {
        press(&mut app, key(KeyCode::Backspace));
    }
    for c in "alt+x".chars() {
        press(&mut app, ch(c));
    }
    press(&mut app, key(KeyCode::Enter));
    assert_eq!(app.macros[0].trigger.display(), "alt+x");
    assert_eq!(app.status_msg, "Trigger key saved — format: [mod+]key  e.g. ctrl+F5");
}

#[test]
fn toggle_style() {
    let mut app = App::new();
    press(&mut app, key(KeyCode::Enter));
    press(&mut app, key(KeyCode::Tab));
    press(&mut app, key(KeyCode::Tab));
    press(&mut app, ch(' '));
    assert_eq!(app.macros[0].style, MacroStyle::ToggleLoop);
    press(&mut app, key(KeyCode::Left));
    assert_eq!(app.macros[0].style, MacroStyle::Trigger);
}

#[test]
fn steps_navigation() {
    let mut app = in_steps();
    press(&mut app, ch('j'));
    press(&mut app, key(KeyCode::Down));
    assert_eq!(app.editor.as_ref().unwrap().step_cursor, 2);
    press(&mut app, ch('k'));
    assert_eq!(app.editor.as_ref().unwrap().step_cursor, 1);
    for _ in 0..10 {
        press(&mut app, ch('j'));
    }
    assert_eq!(app.editor.as_ref().unwrap().step_cursor, 4);
}

#[test]
fn add_step_then_cancel_keeps_new_wait() {
    let mut app = in_steps();
    press(&mut app, ch('a'));
    {
        let ed = app.editor.as_ref().unwrap();
        assert_eq!(ed.step_cursor, 1);
        let se = ed.step_edit.as_ref().unwrap();
        assert_eq!(se.field, StepEditField::Kind);
        assert_eq!(se.kind_buf, "Wait");
        assert_eq!(se.value_buf, "100");
    }
    assert_eq!(app.status_msg, "[←/→] change type  [Space] edit value  [Enter] confirm  [Esc] cancel");
    press(&mut app, key(KeyCode::Esc));
    assert!(app.editor.as_ref().unwrap().step_edit.is_none());
    assert_eq!(macro_steps(&app, 0)[1], "Wait     100 ms");
    assert_eq!(macro_steps(&app, 0).len(), 6);
}

#[test]
fn edit_step_kind_and_value() {
    let mut app = in_steps();
    press(&mut app, ch('e'));
    press(&mut app, key(KeyCode::Right));
    assert_eq!(app.editor.as_ref().unwrap().step_edit.as_ref().unwrap().kind_buf, "ReleaseKey");
    assert_eq!(app.editor.as_ref().unwrap().step_edit.as_ref().unwrap().value_buf, "a");
    press(&mut app, ctrl(KeyCode::Right));
    assert_eq!(app.editor.as_ref().unwrap().step_edit.as_ref().unwrap().field, StepEditField::Value);
    press(&mut app, key(KeyCode::Backspace));
    press(&mut app, ch('z'));
    press(&mut app, ch('q'));
    assert!(!app.should_quit);
    press(&mut app, key(KeyCode::Enter));
    assert_eq!(steps(&app)[0], "Release  zq");
    assert_eq!(macro_steps(&app, 0)[0], "Release  zq");
    assert_eq!(app.status_msg, "Step saved");
}

#[test]
fn edit_wait_value() {
    let mut app = in_steps();
    press(&mut app, ch('j'));
    press(&mut app, ch('j'));
    press(&mut app, key(KeyCode::Enter));
    press(&mut app, ctrl(KeyCode::Right));
    press(&mut app, key(KeyCode::Backspace));
    press(&mut app, key(KeyCode::Backspace));
    for c in "75".chars() {
        press(&mut app, ch(c));
    }
    press(&mut app, key(KeyCode::Enter));
    assert_eq!(macro_steps(&app, 0)[2], "Wait     75 ms");
}

#[test]
fn open_and_confirm_step_changes_nothing() {
    let mut app = in_steps();
    let before = macro_steps(&app, 0);
    press(&mut app, ch('j'));
    press(&mut app, ch('e'));
    press(&mut app, key(KeyCode::Enter));
    assert_eq!(macro_steps(&app, 0), before);
}

#[test]
fn delete_and_move_steps() {
    let mut app = in_steps();
    press(&mut app, ch('J'));
    assert_eq!(macro_steps(&app, 0)[..2], ["Press    c".to_string(), "Press    ctrl".to_string()]);
    assert_eq!(app.editor.as_ref().unwrap().step_cursor, 1);
    press(&mut app, ch('K'));
    assert_eq!(macro_steps(&app, 0)[0], "Press    ctrl");
    press(&mut app, ch('K'));
    assert_eq!(macro_steps(&app, 0)[0], "Press    ctrl");
    for _ in 0..4 {
        press(&mut app, ch('j'));
    }
    press(&mut app, ch('d'));
    assert_eq!(app.editor.as_ref().unwrap().step_cursor, 3);
    assert_eq!(macro_steps(&app, 0).len(), 4);
    assert_eq!(app.status_msg, "Step deleted");
}

#[test]
fn delete_on_empty_steps_does_nothing() {
    let mut app = App::new();
    press(&mut app, ch('n'));
    for _ in 0..3 {
        press(&mut app, key(KeyCode::Tab));
    }
    press(&mut app, ch('d'));
    assert!(app.editor.as_ref().unwrap().steps.is_empty());
    press(&mut app, ch('a'));
    assert_eq!(steps(&app), vec!["Wait     100 ms"]);
    assert_eq!(app.editor.as_ref().unwrap().step_cursor, 0);
}

#[test]
fn cycle_kind_wraps() {
    assert_eq!(cycle_kind("PressKey", 1), "ReleaseKey");
    assert_eq!(cycle_kind("Wait", 1), "PressKey");
    assert_eq!(cycle_kind("PressKey", -1), "Wait");
    assert_eq!(cycle_kind("unknown", 1), "ReleaseKey");
    assert_eq!(cycle_kind("ReleaseKey", i32::MIN), cycle_kind("ReleaseKey", (i32::MIN % 3 + 3) % 3));
}

#[test]
fn text_edit_keys() {
    assert_eq!(edit_text(&ch('x')), Some(TextEditCommand::Append('x')));
    assert_eq!(edit_text(&key(KeyCode::Backspace)), Some(TextEditCommand::Delete));
    assert_eq!(edit_text(&key(KeyCode::Esc)), Some(TextEditCommand::ExitEdit));
    assert_eq!(edit_text(&key(KeyCode::Tab)), None);
}

#[test]
fn handle_key_directly() {
    let mut app = App::new();
    handle_key(&mut app, &ch('j'));
    assert_eq!(app.list_cursor, 1);
}

#[test]
fn new_step_is_wait() {
    assert!(matches!(StepAction::build("Wait", "100"), StepAction::Wait(100)));
}

#[test]
fn step_up_then_down_restores() {
    let mut app = in_steps();
    press(&mut app, ch('j'));
    press(&mut app, ch('j'));
    let before = steps(&app);
    press(&mut app, ch('K'));
    press(&mut app, ch('J'));
    assert_eq!(steps(&app), before);
    assert_eq!(app.editor.as_ref().unwrap().step_cursor, 2);
    assert_eq!(macro_steps(&app, 0), before);
}

#[test]
fn confirming_twice_is_confirming_once() {
    let mut app = in_steps();
    press(&mut app, ch('e'));
    press(&mut app, key(KeyCode::Enter));
    let once = macro_steps(&app, 0);
    press(&mut app, key(KeyCode::Enter));
    press(&mut app, key(KeyCode::Esc));
    assert_eq!(macro_steps(&app, 0), once);
}
