use macroman::app::{EditorState, StepEditField, StepEditState};
use macroman::model::{KeyCombo, MacroDef, MacroStyle, StepAction};
use macroman::screen::{field_text, macro_meta, running_label, step_body, step_number, style_choices};

#[test]
fn meta_line() {
    let m = MacroDef {
        id: "i".into(),
        name: "n".into(),
        trigger: KeyCombo::parse("ctrl+F1"),
        style: MacroStyle::ToggleLoop,
        steps: vec![],
    };
    assert_eq!(macro_meta(&m), "  ctrl+F1 · Toggle Loop");
}

#[test]
fn field_texts() {
    assert_eq!(field_text(&"abc".to_string(), true), "abc▌");
    assert_eq!(field_text(&"abc".to_string(), false), "abc");
}

#[test]
fn style_lines() {
    assert_eq!(style_choices(MacroStyle::Trigger), ("▶ Trigger", "  Toggle Loop"));
    assert_eq!(style_choices(MacroStyle::ToggleLoop), ("  Trigger", "▶ Toggle Loop"));
}

#[test]
fn step_numbers_match_format() {
    for i in [0usize, 8, 9, 98, 99, 1000] {
        assert_eq!(step_number(i, true), format!("▶ {:>2}. ", i + 1));
        assert_eq!(step_number(i, false), format!("  {:>2}. ", i + 1));
    }
}

#[test]
fn step_bodies() {
    let m = MacroDef {
        id: "i".into(),
        name: "n".into(),
        trigger: KeyCombo::empty(),
        style: MacroStyle::Trigger,
        steps: vec![StepAction::PressKey("a".into()), StepAction::Wait(3)],
    };
    let mut ed = EditorState::from_macro(&m);
    assert_eq!(step_body(&ed, 1, true), ("Wait     3 ms".to_string(), false));
    ed.step_cursor = 1;
    ed.step_edit = Some(StepEditState {
        field: StepEditField::Value,
        kind_buf: "Wait".into(),
        value_buf: "9".into(),
    });
    assert_eq!(step_body(&ed, 1, true), ("Wait     9 ms".to_string(), true));
    assert_eq!(step_body(&ed, 1, false), ("Wait     3 ms".to_string(), false));
    assert_eq!(step_body(&ed, 0, true), ("Press    a".to_string(), false));
}

#[test]
fn running_labels() {
    assert_eq!(running_label(2), "● 2 running");
    assert_eq!(running_label(10), "● 10 running");
}
