use macroman::model::{KeyCombo, MacroDef, MacroStyle, StepAction};

fn combo(mods: &[&str], key: &str) -> KeyCombo {
    KeyCombo { modifiers: mods.iter().map(|s| s.to_string()).collect(), key: key.to_string() }
}

#[test]
fn empty_combo_is_unset() {
    let k = KeyCombo::empty();
    assert!(k.modifiers.is_empty());
    assert_eq!(k.key, "");
    assert_eq!(k.display(), "(unset)");
}

#[test]
fn parse_simple_combo() {
    assert_eq!(KeyCombo::parse("ctrl+F1"), combo(&["ctrl"], "F1"));
    assert_eq!(KeyCombo::parse("F2"), combo(&[], "F2"));
}

#[test]
fn parse_ignores_spaces_and_empty_parts() {
    assert_eq!(KeyCombo::parse("  ctrl + shift +  a "), combo(&["ctrl", "shift"], "a"));
    assert_eq!(KeyCombo::parse("ctrl++a"), combo(&["ctrl"], "a"));
    assert_eq!(KeyCombo::parse("ctrl+"), combo(&[], "ctrl"));
}

#[test]
fn parse_nothing_gives_unset() {
    assert_eq!(KeyCombo::parse(""), KeyCombo::empty());
    assert_eq!(KeyCombo::parse(" + + "), KeyCombo::empty());
}

#[test]
fn display_joins_parts() {
    assert_eq!(combo(&["ctrl", "alt"], "Del").display(), "ctrl+alt+Del");
    assert_eq!(combo(&[], "F5").display(), "F5");
    assert_eq!(combo(&["ctrl"], "").display(), "(unset)");
}

#[test]
fn display_parse_roundtrip() {
    for k in [combo(&["ctrl"], "F1"), combo(&[], "x"), combo(&["a", "b", "c"], "d")] {
        assert_eq!(KeyCombo::parse(&k.display()), k);
    }
}

#[test]
fn unset_does_not_roundtrip() {
    // The text of the unset combination reads back as the key "(unset)".
    assert_eq!(KeyCombo::parse(&KeyCombo::empty().display()), combo(&[], "(unset)"));
}

#[test]
fn clone_keeps_combo() {
    let k = combo(&["ctrl"], "F1");
    assert_eq!(k.clone(), k);
}

#[test]
fn style_labels() {
    assert_eq!(MacroStyle::Trigger.label(), "Trigger");
    assert_eq!(MacroStyle::ToggleLoop.label(), "Toggle Loop");
}

#[test]
fn step_display_lines() {
    assert_eq!(StepAction::PressKey("a".into()).display(), "Press    a");
    assert_eq!(StepAction::ReleaseKey("ctrl".into()).display(), "Release  ctrl");
    assert_eq!(StepAction::Wait(50).display(), "Wait     50 ms");
}

#[test]
fn step_kind_and_value() {
    assert_eq!(StepAction::PressKey("a".into()).kind_label(), "PressKey");
    assert_eq!(StepAction::ReleaseKey("b".into()).kind_label(), "ReleaseKey");
    assert_eq!(StepAction::Wait(3).kind_label(), "Wait");
    assert_eq!(StepAction::PressKey("a".into()).value_string(), "a");
    assert_eq!(StepAction::Wait(250).value_string(), "250");
}

#[test]
fn build_steps() {
    assert!(matches!(StepAction::build("PressKey", "  x "), StepAction::PressKey(k) if k == "x"));
    assert!(matches!(StepAction::build("ReleaseKey", "y"), StepAction::ReleaseKey(k) if k == "y"));
    assert!(matches!(StepAction::build("Wait", " 75 "), StepAction::Wait(75)));
    assert!(matches!(StepAction::build("Wait", "soon"), StepAction::Wait(100)));
    assert!(matches!(StepAction::build("Jump", "1"), StepAction::Wait(0)));
    assert!(matches!(StepAction::build("wait", "5"), StepAction::Wait(0)));
}

#[test]
fn build_roundtrip() {
    for s in [StepAction::PressKey("a".into()), StepAction::ReleaseKey("num_0".into()), StepAction::Wait(30)] {
        let b = StepAction::build(s.kind_label(), &s.value_string());
        assert_eq!(b.display(), s.display());
    }
}

#[test]
fn default_values() {
    assert_eq!(StepAction::default_value_for_kind("PressKey"), "a");
    assert_eq!(StepAction::default_value_for_kind("ReleaseKey"), "a");
    assert_eq!(StepAction::default_value_for_kind("Wait"), "100");
    assert_eq!(StepAction::default_value_for_kind("other"), "100");
}

#[test]
fn new_empty_macro() {
    let m = MacroDef::new_empty("Hello".to_string());
    assert_eq!(m.name, "Hello");
    assert_eq!(m.trigger, KeyCombo::empty());
    assert_eq!(m.style, MacroStyle::Trigger);
    assert!(m.steps.is_empty());
    assert_eq!(m.id.chars().count(), 36);
    for (i, c) in m.id.chars().enumerate() {
        if [8, 13, 18, 23].contains(&i) {
            assert_eq!(c, '-');
        } else {
            assert!(c.is_ascii_digit() || ('a'..='f').contains(&c));
        }
    }
    assert_eq!(m.id.chars().nth(14), Some('4'));
    assert!(['8', '9', 'a', 'b'].contains(&m.id.chars().nth(19).unwrap()));
    let other = MacroDef::new_empty("Hello".to_string());
    assert_ne!(m.id, other.id);
}
