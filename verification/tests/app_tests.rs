use macroman::app::{App, EditField, EditorState, Pane};
use macroman::executor::ExecutorEvent;
use macroman::model::{KeyCombo, MacroDef, MacroStyle, StepAction};

fn mac(id: &str, name: &str) -> MacroDef {
    MacroDef {
        id: id.to_string(),
        name: name.to_string(),
        trigger: KeyCombo::parse("ctrl+F3"),
        style: MacroStyle::Trigger,
        steps: vec![StepAction::PressKey("a".into()), StepAction::Wait(10)],
    }
}

fn app_with(names: &[&str]) -> App {
    App {
        macros: names.iter().enumerate().map(|(i, n)| mac(&format!("id{i}"), n)).collect(),
        list_cursor: 0,
        active_pane: Pane::MacroList,
        editor: None,
        running_ids: vec![],
        status_msg: String::new(),
        should_quit: false,
    }
}

fn names(app: &App) -> Vec<String> {
    app.macros.iter().map(|m| m.name.clone()).collect()
}

#[test]
fn new_app_has_samples() {
    let app = App::new();
    assert_eq!(names(&app), vec!["Test 1", "Test 2"]);
    assert_eq!(app.list_cursor, 0);
    assert_eq!(app.active_pane, Pane::MacroList);
    assert!(app.editor.is_none());
    assert!(app.running_ids.is_empty());
    assert!(!app.should_quit);
    assert_eq!(app.status_msg, "Ready — [n] new  [Enter] edit  [F5] run  [q] quit");
    assert_eq!(app.macros[0].trigger.display(), "ctrl+F1");
    assert_eq!(app.macros[1].trigger.display(), "F2");
    assert_eq!(app.macros[0].style, MacroStyle::Trigger);
    assert_eq!(app.macros[1].style, MacroStyle::ToggleLoop);
    let s: Vec<String> = app.macros[0].steps.iter().map(|s| s.display()).collect();
    assert_eq!(s, vec!["Press    ctrl", "Press    c", "Wait     50 ms", "Release  c", "Release  ctrl"]);
    let s: Vec<String> = app.macros[1].steps.iter().map(|s| s.display()).collect();
    assert_eq!(s, vec!["Press    num_0", "Wait     30 ms", "Release  num_0", "Wait     30 ms"]);
    assert_ne!(app.macros[0].id, app.macros[1].id);
}

#[test]
fn add_macro_names_by_count_and_opens_editor() {
    let mut app = App::new();
    app.add_macro();
    assert_eq!(names(&app), vec!["Test 1", "Test 2", "Macro 3"]);
    assert_eq!(app.list_cursor, 2);
    assert_eq!(app.active_pane, Pane::Editor);
    let ed = app.editor.as_ref().unwrap();
    assert_eq!(ed.macro_id, app.macros[2].id);
    assert_eq!(ed.name_buf, "Macro 3");
    assert_eq!(ed.trigger_buf, "(unset)");
    assert_eq!(ed.focused_field, EditField::Name);
}

#[test]
fn remove_macro_keeps_cursor_in_range() {
    let mut app = app_with(&["a", "b", "c"]);
    app.list_cursor = 2;
    app.remove_macro();
    assert_eq!(names(&app), vec!["a", "b"]);
    assert_eq!(app.list_cursor, 1);
    app.list_cursor = 0;
    app.remove_macro();
    assert_eq!(names(&app), vec!["b"]);
    assert_eq!(app.list_cursor, 0);
    app.remove_macro();
    assert!(app.macros.is_empty());
    assert_eq!(app.list_cursor, 0);
    app.remove_macro();
    assert!(app.macros.is_empty());
}

#[test]
fn remove_macro_closes_its_editor_only() {
    let mut app = app_with(&["a", "b"]);
    app.list_cursor = 1;
    app.open_editor();
    app.list_cursor = 0;
    app.remove_macro();
    assert!(app.editor.is_some());
    app.remove_macro();
    assert!(app.editor.is_none());
}

#[test]
fn duplicate_inserts_copy_after() {
    let mut app = app_with(&["a", "b"]);
    app.duplicate_macro();
    assert_eq!(names(&app), vec!["a", "a (copy)", "b"]);
    assert_eq!(app.list_cursor, 1);
    assert_ne!(app.macros[1].id, app.macros[0].id);
    assert_eq!(app.macros[1].trigger, app.macros[0].trigger);
    assert_eq!(app.macros[1].steps.len(), 2);
    let mut empty = app_with(&[]);
    empty.duplicate_macro();
    assert!(empty.macros.is_empty());
}

#[test]
fn open_editor_copies_macro() {
    let mut app = app_with(&["a", "b"]);
    app.list_cursor = 1;
    app.open_editor();
    assert_eq!(app.active_pane, Pane::Editor);
    let ed = app.editor.as_ref().unwrap();
    assert_eq!(ed.macro_id, "id1");
    assert_eq!(ed.name_buf, "b");
    assert_eq!(ed.trigger_buf, "ctrl+F3");
    assert_eq!(ed.steps.len(), 2);
    assert_eq!(ed.step_cursor, 0);
    assert!(ed.step_edit.is_none());
    let mut none = app_with(&[]);
    none.open_editor();
    assert!(none.editor.is_none());
    assert_eq!(none.active_pane, Pane::MacroList);
}

#[test]
fn from_macro_and_apply_to() {
    let m = mac("x", "name");
    let mut ed = EditorState::from_macro(&m);
    assert_eq!(ed.trigger_buf, "ctrl+F3");
    ed.name_buf = "renamed".into();
    ed.trigger_buf = " alt + q ".into();
    ed.style = MacroStyle::ToggleLoop;
    ed.steps.pop();
    let mut target = mac("x", "name");
    ed.apply_to(&mut target);
    assert_eq!(target.name, "renamed");
    assert_eq!(target.trigger.display(), "alt+q");
    assert_eq!(target.style, MacroStyle::ToggleLoop);
    assert_eq!(target.steps.len(), 1);
    assert_eq!(target.id, "x");
}

#[test]
fn commit_writes_to_macro_with_editor_id() {
    let mut app = app_with(&["a", "b"]);
    app.list_cursor = 1;
    app.open_editor();
    app.editor.as_mut().unwrap().name_buf = "B!".into();
    app.list_cursor = 0;
    app.commit_editor();
    assert_eq!(names(&app), vec!["a", "B!"]);
}

#[test]
fn open_then_commit_changes_nothing() {
    let mut app = app_with(&["a", "b"]);
    app.open_editor();
    let before: Vec<String> = app.macros.iter().map(|m| format!("{:?}", m)).collect();
    app.commit_editor();
    let after: Vec<String> = app.macros.iter().map(|m| format!("{:?}", m)).collect();
    assert_eq!(before, after);
}

#[test]
fn commit_of_unset_trigger_reads_it_as_key() {
    let mut app = app_with(&[]);
    app.add_macro();
    app.commit_editor();
    assert_eq!(app.macros[0].trigger.key, "(unset)");
}

#[test]
fn commit_without_editor_or_macro_does_nothing() {
    let mut app = app_with(&["a"]);
    app.commit_editor();
    assert_eq!(names(&app), vec!["a"]);
    app.open_editor();
    app.macros[0].id = "other".into();
    app.editor.as_mut().unwrap().name_buf = "zzz".into();
    app.commit_editor();
    assert_eq!(names(&app), vec!["a"]);
}

#[test]
fn list_up_and_down_stay_in_range() {
    let mut app = app_with(&["a", "b", "c"]);
    app.list_up();
    assert_eq!(app.list_cursor, 0);
    app.list_down();
    app.list_down();
    assert_eq!(app.list_cursor, 2);
    app.list_down();
    assert_eq!(app.list_cursor, 2);
    app.list_up();
    assert_eq!(app.list_cursor, 1);
    let mut empty = app_with(&[]);
    empty.list_down();
    assert_eq!(empty.list_cursor, 0);
}

#[test]
fn set_status_replaces_message() {
    let mut app = app_with(&[]);
    app.set_status("hello".to_string());
    assert_eq!(app.status_msg, "hello");
}

#[test]
fn executor_events_track_running() {
    let mut app = app_with(&["a"]);
    app.handle_executor_event(ExecutorEvent::MacroStarted("id0".into()));
    assert!(app.is_running(&"id0".to_string()));
    assert_eq!(app.running_count(), 1);
    assert_eq!(app.status_msg, "Macro started");
    app.handle_executor_event(ExecutorEvent::MacroStarted("id0".into()));
    assert_eq!(app.running_count(), 1);
    app.handle_executor_event(ExecutorEvent::MacroStarted("other".into()));
    assert_eq!(app.running_count(), 2);
    app.handle_executor_event(ExecutorEvent::MacroStopped("id0".into()));
    assert!(!app.is_running(&"id0".to_string()));
    assert_eq!(app.running_count(), 1);
    assert_eq!(app.status_msg, "Macro stopped");
    app.handle_executor_event(ExecutorEvent::MacroError { id: "other".into(), msg: "no device".into() });
    assert_eq!(app.running_count(), 0);
    assert_eq!(app.status_msg, "Error: no device");
    app.handle_executor_event(ExecutorEvent::CommandThreadTerminated);
    assert_eq!(app.status_msg, "Error: no device");
}

#[test]
fn trigger_selected_reports_macro() {
    let mut app = app_with(&["a", "b"]);
    app.list_cursor = 1;
    let m = app.trigger_selected().unwrap();
    assert_eq!(m.id, "id1");
    assert_eq!(app.status_msg, "Triggered 'b'");
    let mut empty = app_with(&[]);
    assert!(empty.trigger_selected().is_none());
    assert_eq!(empty.status_msg, "");
}

#[test]
fn down_then_up_returns() {
    let mut app = app_with(&["a", "b", "c"]);
    app.list_cursor = 1;
    app.list_down();
    app.list_up();
    assert_eq!(app.list_cursor, 1);
}

#[test]
fn add_then_remove_restores_list() {
    let mut app = app_with(&["a", "b"]);
    app.add_macro();
    app.remove_macro();
    assert_eq!(names(&app), vec!["a", "b"]);
    assert_eq!(app.list_cursor, 1);
    assert!(app.editor.is_none());
}
