use macroman::executor::{Dispatch, ExecutorCommand, ExecutorEvent, ExecutorState, MacroRun, RunAction};
use macroman::model::{KeyCombo, MacroDef, MacroStyle, StepAction};

fn mac(id: &str, style: MacroStyle, steps: Vec<StepAction>) -> MacroDef {
    MacroDef { id: id.into(), name: "m".into(), trigger: KeyCombo::empty(), style, steps }
}

#[test]
fn trigger_style_starts_once() {
    let mut ex = ExecutorState::new();
    let m = mac("a", MacroStyle::Trigger, vec![]);
    assert!(matches!(ex.decide(ExecutorCommand::Trigger(m.clone())), Dispatch::Start { looping: false, .. }));
    assert!(matches!(ex.decide(ExecutorCommand::Trigger(m)), Dispatch::Ignore));
}

#[test]
fn toggle_style_starts_then_stops() {
    let mut ex = ExecutorState::new();
    let m = mac("b", MacroStyle::ToggleLoop, vec![]);
    assert!(matches!(ex.decide(ExecutorCommand::Trigger(m.clone())), Dispatch::Start { looping: true, .. }));
    match ex.decide(ExecutorCommand::Trigger(m.clone())) {
        Dispatch::Stop(id) => assert_eq!(id, "b"),
        _ => panic!("expected a stop"),
    }
    assert!(matches!(ex.decide(ExecutorCommand::Trigger(m)), Dispatch::Start { looping: true, .. }));
}

#[test]
fn stop_all_lists_running() {
    let mut ex = ExecutorState::new();
    ex.decide(ExecutorCommand::Trigger(mac("a", MacroStyle::Trigger, vec![])));
    ex.decide(ExecutorCommand::Trigger(mac("b", MacroStyle::ToggleLoop, vec![])));
    match ex.decide(ExecutorCommand::StopAll) {
        Dispatch::Shutdown(mut ids) => {
            ids.sort();
            assert_eq!(ids, vec!["a".to_string(), "b".to_string()]);
        },
        _ => panic!("expected a shutdown"),
    }
    match ex.decide(ExecutorCommand::StopAll) {
        Dispatch::Shutdown(ids) => assert!(ids.is_empty()),
        _ => panic!("expected a shutdown"),
    }
}

fn label(a: &RunAction) -> String {
    match a {
        RunAction::Perform(s) => s.display(),
        RunAction::Idle => "idle".into(),
        RunAction::Finish => "finish".into(),
    }
}

#[test]
fn plain_run_plays_steps_then_finishes() {
    let m = mac("a", MacroStyle::Trigger, vec![StepAction::PressKey("x".into()), StepAction::Wait(5)]);
    let mut run = MacroRun::new(&m, false);
    let mut seen = vec![];
    for _ in 0..4 {
        seen.push(label(&run.next_action(false)));
    }
    assert_eq!(seen, vec!["Press    x", "Wait     5 ms", "finish", "finish"]);
    assert_eq!(run.id, "a");
}

#[test]
fn looping_run_repeats_until_stopped() {
    let m = mac("a", MacroStyle::ToggleLoop, vec![StepAction::PressKey("x".into()), StepAction::Wait(5)]);
    let mut run = MacroRun::new(&m, true);
    let mut seen = vec![];
    for _ in 0..5 {
        seen.push(label(&run.next_action(false)));
    }
    seen.push(label(&run.next_action(true)));
    seen.push(label(&run.next_action(false)));
    assert_eq!(seen, vec!["Press    x", "Wait     5 ms", "Press    x", "Wait     5 ms", "Press    x", "finish", "finish"]);
}

#[test]
fn stop_before_a_step() {
    let m = mac("a", MacroStyle::Trigger, vec![StepAction::Wait(1)]);
    let mut run = MacroRun::new(&m, false);
    assert_eq!(label(&run.next_action(true)), "finish");
}

#[test]
fn plain_run_ignores_stop_after_last_step() {
    let m = mac("a", MacroStyle::Trigger, vec![StepAction::Wait(1)]);
    let mut run = MacroRun::new(&m, false);
    assert_eq!(label(&run.next_action(false)), "Wait     1 ms");
    assert_eq!(label(&run.next_action(true)), "finish");
}

#[test]
fn empty_looping_run_idles() {
    let m = mac("a", MacroStyle::ToggleLoop, vec![]);
    let mut run = MacroRun::new(&m, true);
    assert_eq!(label(&run.next_action(true)), "idle");
    assert_eq!(label(&run.next_action(false)), "idle");
}

#[test]
fn failed_step_ends_run_with_error() {
    let m = mac("a", MacroStyle::ToggleLoop, vec![StepAction::PressKey("x".into())]);
    let mut run = MacroRun::new(&m, true);
    assert_eq!(label(&run.next_action(false)), "Press    x");
    match run.fail("no device".to_string()) {
        ExecutorEvent::MacroError { id, msg } => {
            assert_eq!(id, "a");
            assert_eq!(msg, "no device");
        },
        _ => panic!("expected an error report"),
    }
    assert_eq!(label(&run.next_action(false)), "finish");
}
