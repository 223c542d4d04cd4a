//! Keyboard input: what each key does to the application state.
use vstd::prelude::*;

use crate::app::{
    add_macro_model, app_wf, commit_editor_model, duplicate_macro_model, first_with_id,
    lemma_commit_without_macro, lemma_commit_writes_editor, list_down_model, list_up_model,
    open_editor_model, remove_macro_model, selected_macro, trigger_selected_model, with_status,
    App, AppView, EditField, EditorView, Pane, StepEditField, StepEditState, StepEditView,
};
use crate::executor::{CommandView, ExecutorCommand};
use crate::model::{
    build_step, default_value, id_shape, is_hyphen_position, lemma_step_text_roundtrip,
    parse_combo, step_kind, step_kinds, step_text_exact, step_value, MacroStyle, MacroView,
    StepAction, StepView,
};
use crate::text::{owned, pop_char, push_char};

verus! {

// ---------------------------------------------------------------------------
// Keys
// ---------------------------------------------------------------------------

/// The keys that the application tells apart.
#[derive(Debug, Clone, Copy, PartialEq, Eq, Structural)]
pub enum KeyCode {
    Char(char),
    Enter,
    Esc,
    Backspace,
    Tab,
    Up,
    Down,
    Left,
    Right,
    F(u8),
    Other,
}

/// The modifier keys held, as bits: shift 1, control 2, alt 4, super 8,
/// hyper 16, meta 32.
#[derive(Debug, Clone, Copy, PartialEq, Eq, Structural)]
pub struct KeyModifiers {
    pub bits: u8,
}

/// A key press.
#[derive(Debug, Clone, Copy, PartialEq, Eq, Structural)]
pub struct KeyEvent {
    pub code: KeyCode,
    pub modifiers: KeyModifiers,
}

/// An input event: a key, or anything else (mouse, resize, ...).
#[derive(Debug, Clone, Copy, PartialEq, Eq, Structural)]
pub enum Event {
    Key(KeyEvent),
    Other,
}

/// No modifier is held.
pub open spec fn plain(k: KeyEvent) -> bool {
    k.modifiers.bits == 0
}

/// Control and no other modifier is held.
pub open spec fn with_ctrl(k: KeyEvent) -> bool {
    k.modifiers.bits == 2
}

/// A change to a text field.
#[derive(Debug, Clone, Copy, PartialEq, Eq, Structural)]
pub enum TextEditCommand {
    Append(char),
    Delete,
    ExitEdit,
}

/// What a key does to a text field under edit, if anything.
pub open spec fn text_edit_of(k: KeyEvent) -> Option<TextEditCommand> {
    match k.code {
        KeyCode::Char(c) => Some(TextEditCommand::Append(c)),
        KeyCode::Backspace => Some(TextEditCommand::Delete),
        KeyCode::Enter => Some(TextEditCommand::ExitEdit),
        KeyCode::Esc => Some(TextEditCommand::ExitEdit),
        _ => None,
    }
}

/// A text with a character appended or the last one deleted.
pub open spec fn edited_text(buf: Seq<char>, t: TextEditCommand) -> Seq<char> {
    match t {
        TextEditCommand::Append(c) => buf.push(c),
        TextEditCommand::Delete => if buf.len() > 0 {
            buf.drop_last()
        } else {
            buf
        },
        TextEditCommand::ExitEdit => buf,
    }
}

// ---------------------------------------------------------------------------
// Models
// ---------------------------------------------------------------------------

pub open spec fn with_editor(a: AppView, e: EditorView) -> AppView {
    AppView { editor: Some(e), ..a }
}

/// A text field or the value of a step is under edit: the global keys are off.
pub open spec fn editing_text_model(a: AppView) -> bool {
    match a.editor {
        None => false,
        Some(e) => e.editing_name || e.editing_trigger || match e.step_edit {
            Some(se) => se.field == StepEditField::Value,
            None => false,
        },
    }
}

/// The field that `Tab` moves the focus to.
pub open spec fn next_field(f: EditField) -> EditField {
    match f {
        EditField::Name => EditField::TriggerKey,
        EditField::TriggerKey => EditField::Style,
        EditField::Style => EditField::Steps,
        EditField::Steps => EditField::Name,
    }
}

/// The keys that work in every pane: `q` quits, `ctrl+h` and `ctrl+l` focus
/// the list and the editor, `Tab` moves between the editor's fields. `None`
/// for any other key.
pub open spec fn global_model(a: AppView, k: KeyEvent) -> Option<AppView> {
    if k.code == KeyCode::Char('q') && plain(k) {
        Some(AppView { should_quit: true, ..a })
    } else if k.code == KeyCode::Char('h') && with_ctrl(k) {
        Some(AppView { active_pane: Pane::MacroList, ..a })
    } else if k.code == KeyCode::Char('l') && with_ctrl(k) {
        Some(AppView { active_pane: Pane::Editor, ..a })
    } else if k.code == KeyCode::Tab && plain(k) && a.active_pane == Pane::Editor
        && a.editor is Some {
        let e = a.editor->0;
        Some(with_editor(a, EditorView { focused_field: next_field(e.focused_field), ..e }))
    } else {
        None
    }
}

/// The keys of the macro list; `fresh` is the identifier a new macro gets.
pub open spec fn list_model(a: AppView, k: KeyEvent, fresh: Seq<char>) -> AppView {
    if k.code == KeyCode::Up || k.code == KeyCode::Char('k') {
        list_up_model(a)
    } else if k.code == KeyCode::Down || k.code == KeyCode::Char('j') {
        list_down_model(a)
    } else if k.code == KeyCode::Enter {
        open_editor_model(a)
    } else if k.code == KeyCode::Char('n') {
        add_macro_model(a, fresh)
    } else if k.code == KeyCode::Char('d') {
        remove_macro_model(a)
    } else if k.code == KeyCode::Char('u') {
        duplicate_macro_model(a, fresh)
    } else {
        a
    }
}

pub open spec fn swapped<A>(s: Seq<A>, i: int, j: int) -> Seq<A> {
    s.update(i, s[j]).update(j, s[i])
}

/// The step under edit as the editor first shows it.
pub open spec fn step_edit_of(s: StepView) -> StepEditView {
    StepEditView { field: StepEditField::Kind, kind_buf: step_kind(s), value_buf: step_value(s) }
}

/// The hint shown while a new step is under edit.
pub open spec fn add_step_hint() -> Seq<char> {
    "[←/→] change type  [Space] edit value  [Enter] confirm  [Esc] cancel"@
}

/// A new step `Wait 100` after the one under the cursor (or first, in an
/// empty list), under the cursor and open in the step editor.
pub open spec fn add_step_model(a: AppView, e: EditorView) -> AppView {
    let at: int = if e.steps.len() == 0 {
        0
    } else {
        e.step_cursor + 1
    };
    let w = StepView::Wait(100);
    with_status(
        with_editor(
            a,
            EditorView {
                steps: e.steps.insert(at, w),
                step_cursor: at as usize,
                step_edit: Some(step_edit_of(w)),
                ..e
            },
        ),
        add_step_hint(),
    )
}

/// The step under the cursor removed (the cursor kept in range), and the
/// editor written into its macro.
pub open spec fn delete_step_model(a: AppView, e: EditorView) -> AppView {
    let c = e.step_cursor;
    if e.steps.len() > 0 {
        let steps = e.steps.remove(c as int);
        let c2: int = if c > 0 && c >= steps.len() {
            c - 1
        } else {
            c as int
        };
        with_status(
            commit_editor_model(with_editor(a, EditorView { steps, step_cursor: c2 as usize, ..e })),
            "Step deleted"@,
        )
    } else {
        a
    }
}

/// The step under the cursor swapped with the one before (`up`) or after it,
/// the cursor following it, and the editor written into its macro.
pub open spec fn move_step_model(a: AppView, e: EditorView, up: bool) -> AppView {
    let c = e.step_cursor;
    let other: int = if up {
        c - 1
    } else {
        c + 1
    };
    if 0 <= other < e.steps.len() {
        commit_editor_model(
            with_editor(
                a,
                EditorView {
                    steps: swapped(e.steps, c as int, other),
                    step_cursor: other as usize,
                    ..e
                },
            ),
        )
    } else {
        a
    }
}

/// The keys of the step list: move, add, edit, delete, and move a step up or down.
pub open spec fn steps_nav_model(a: AppView, e: EditorView, k: KeyEvent) -> AppView {
    let c = e.step_cursor;
    let n = e.steps.len();
    if k.code == KeyCode::Up || k.code == KeyCode::Char('k') {
        if c > 0 {
            with_editor(a, EditorView { step_cursor: (c - 1) as usize, ..e })
        } else {
            a
        }
    } else if k.code == KeyCode::Down || k.code == KeyCode::Char('j') {
        if n > 0 && c + 1 < n {
            with_editor(a, EditorView { step_cursor: (c + 1) as usize, ..e })
        } else {
            a
        }
    } else if k.code == KeyCode::Char('a') {
        add_step_model(a, e)
    } else if k.code == KeyCode::Char('e') || k.code == KeyCode::Enter {
        if n > 0 {
            with_editor(a, EditorView { step_edit: Some(step_edit_of(e.steps[c as int])), ..e })
        } else {
            a
        }
    } else if k.code == KeyCode::Char('d') {
        delete_step_model(a, e)
    } else if k.code == KeyCode::Char('K') {
        move_step_model(a, e, true)
    } else if k.code == KeyCode::Char('J') {
        move_step_model(a, e, false)
    } else {
        a
    }
}

/// The position of a kind name among the kinds; 0 for an unknown name.
pub open spec fn kind_position(kind: Seq<char>) -> int {
    if kind == step_kinds()[1] {
        1
    } else if kind == step_kinds()[2] {
        2
    } else {
        0
    }
}

/// The kind `delta` places after `current` in the cyclic order of the kinds.
pub open spec fn cycle_kind_model(current: Seq<char>, delta: int) -> Seq<char> {
    step_kinds()[(kind_position(current) + delta) % 3]
}

/// Writes the step under edit into the step under the cursor, closes the step
/// editor and writes the editor into its macro.
pub open spec fn commit_step_model(a: AppView) -> AppView {
    match a.editor {
        None => a,
        Some(e) => match e.step_edit {
            None => a,
            Some(se) => {
                let steps = if e.step_cursor < e.steps.len() {
                    e.steps.update(e.step_cursor as int, build_step(se.kind_buf, se.value_buf))
                } else {
                    e.steps
                };
                commit_editor_model(with_editor(a, EditorView { steps, step_edit: None, ..e }))
            },
        },
    }
}

/// Closes the step editor without writing the step, and writes the editor
/// into its macro.
pub open spec fn cancel_step_model(a: AppView) -> AppView {
    match a.editor {
        None => a,
        Some(e) => commit_editor_model(with_editor(a, EditorView { step_edit: None, ..e })),
    }
}

pub open spec fn with_step_edit(a: AppView, e: EditorView, se: StepEditView) -> AppView {
    with_editor(a, EditorView { step_edit: Some(se), ..e })
}

/// The keys of the step editor. On the kind: left and right change the kind
/// (and reset the value), `ctrl+right` moves to the value. On the value:
/// characters and backspace edit it, `ctrl+right` moves back. Enter saves the
/// step, Esc drops the edit.
pub open spec fn edit_step_model(a: AppView, e: EditorView, se: StepEditView, k: KeyEvent) -> AppView {
    if se.field == StepEditField::Kind {
        if k.code == KeyCode::Left && plain(k) {
            let kind = cycle_kind_model(se.kind_buf, -1);
            with_step_edit(a, e, StepEditView { kind_buf: kind, value_buf: default_value(kind), ..se })
        } else if k.code == KeyCode::Right && plain(k) {
            let kind = cycle_kind_model(se.kind_buf, 1);
            with_step_edit(a, e, StepEditView { kind_buf: kind, value_buf: default_value(kind), ..se })
        } else if k.code == KeyCode::Right && with_ctrl(k) {
            with_step_edit(a, e, StepEditView { field: StepEditField::Value, ..se })
        } else if k.code == KeyCode::Enter && plain(k) {
            with_status(commit_step_model(a), "Step saved"@)
        } else if k.code == KeyCode::Esc && plain(k) {
            cancel_step_model(a)
        } else {
            a
        }
    } else {
        if k.code is Char {
            with_step_edit(a, e, StepEditView { value_buf: se.value_buf.push(k.code->Char_0), ..se })
        } else if k.code == KeyCode::Backspace {
            with_step_edit(
                a,
                e,
                StepEditView {
                    value_buf: edited_text(se.value_buf, TextEditCommand::Delete),
                    ..se
                },
            )
        } else if k.code == KeyCode::Enter && plain(k) {
            with_status(commit_step_model(a), "Step saved"@)
        } else if k.code == KeyCode::Esc && plain(k) {
            cancel_step_model(a)
        } else if k.code == KeyCode::Right && with_ctrl(k) {
            with_step_edit(a, e, StepEditView { field: StepEditField::Kind, ..se })
        } else {
            a
        }
    }
}

/// The status shown when the trigger text is saved.
pub open spec fn trigger_saved_hint() -> Seq<char> {
    "Trigger key saved — format: [mod+]key  e.g. ctrl+F5"@
}

/// A change to the name under edit; leaving the edit writes the editor into its macro.
pub open spec fn name_edit_model(a: AppView, e: EditorView, t: TextEditCommand) -> AppView {
    if t == TextEditCommand::ExitEdit {
        commit_editor_model(with_editor(a, EditorView { editing_name: false, ..e }))
    } else {
        with_editor(a, EditorView { name_buf: edited_text(e.name_buf, t), ..e })
    }
}

/// A change to the trigger text under edit; leaving the edit writes the editor
/// into its macro and shows the format of a trigger.
pub open spec fn trigger_edit_model(a: AppView, e: EditorView, t: TextEditCommand) -> AppView {
    if t == TextEditCommand::ExitEdit {
        with_status(
            commit_editor_model(with_editor(a, EditorView { editing_trigger: false, ..e })),
            trigger_saved_hint(),
        )
    } else {
        with_editor(a, EditorView { trigger_buf: edited_text(e.trigger_buf, t), ..e })
    }
}

pub open spec fn toggled(s: MacroStyle) -> MacroStyle {
    match s {
        MacroStyle::Trigger => MacroStyle::ToggleLoop,
        MacroStyle::ToggleLoop => MacroStyle::Trigger,
    }
}

/// The keys of the editor pane.
pub open spec fn editor_model(a: AppView, k: KeyEvent) -> AppView {
    match a.editor {
        None => a,
        Some(e) => if e.step_edit is Some {
            edit_step_model(a, e, e.step_edit->0, k)
        } else if (e.editing_name || e.editing_trigger) && text_edit_of(k) is Some
            && e.focused_field == EditField::Name {
            name_edit_model(a, e, text_edit_of(k)->0)
        } else if (e.editing_name || e.editing_trigger) && text_edit_of(k) is Some
            && e.focused_field == EditField::TriggerKey {
            trigger_edit_model(a, e, text_edit_of(k)->0)
        } else if (e.editing_name || e.editing_trigger) && text_edit_of(k) is Some {
            a
        } else if e.focused_field == EditField::Name && k.code == KeyCode::Enter {
            with_editor(a, EditorView { editing_name: true, ..e })
        } else if e.focused_field == EditField::TriggerKey && k.code == KeyCode::Enter {
            with_editor(a, EditorView { editing_trigger: true, ..e })
        } else if e.focused_field == EditField::Style && (k.code == KeyCode::Left || k.code
            == KeyCode::Right || k.code == KeyCode::Enter || k.code == KeyCode::Char(' ')) {
            commit_editor_model(with_editor(a, EditorView { style: toggled(e.style), ..e }))
        } else if e.focused_field == EditField::Steps {
            steps_nav_model(a, e, k)
        } else {
            a
        }
    }
}

/// What a key does: the global keys first (unless text is under edit), then
/// the keys of the focused pane. `fresh` is the identifier a new macro gets.
pub open spec fn key_model(a: AppView, k: KeyEvent, fresh: Seq<char>) -> AppView {
    if !editing_text_model(a) && global_model(a, k) is Some {
        global_model(a, k)->0
    } else if a.active_pane == Pane::MacroList {
        list_model(a, k, fresh)
    } else {
        editor_model(a, k)
    }
}

/// The key that runs the selected macro.
pub open spec fn is_run_key(k: KeyEvent) -> bool {
    k.code == KeyCode::F(5)
}

/// What an event does to the state.
pub open spec fn event_model(a: AppView, ev: Event, fresh: Seq<char>) -> AppView {
    match ev {
        Event::Key(k) => if is_run_key(k) {
            trigger_selected_model(a)
        } else {
            key_model(a, k, fresh)
        },
        Event::Other => a,
    }
}

/// What an event asks of the executor: `F5` runs the selected macro; once the
/// application is to quit, every run is stopped.
pub open spec fn event_command(before: AppView, ev: Event, after: AppView) -> Option<CommandView> {
    match ev {
        Event::Key(k) if is_run_key(k) => match selected_macro(before) {
            Some(m) => Some(CommandView::Trigger(m)),
            None => None,
        },
        _ => if after.should_quit {
            Some(CommandView::StopAll)
        } else {
            None
        },
    }
}

pub open spec fn command_view(c: Option<ExecutorCommand>) -> Option<CommandView> {
    match c {
        Some(x) => Some(x@),
        None => None,
    }
}


// ---------------------------------------------------------------------------
// Handlers
// ---------------------------------------------------------------------------

/// Some text of the shape of an identifier, for the keys that make none.
spec fn any_id() -> Seq<char> {
    Seq::new(
        36,
        |i: int|
            if is_hyphen_position(i) {
                '-'
            } else if i == 14 {
                '4'
            } else if i == 19 {
                '8'
            } else {
                '0'
            },
    )
}

/// What a key does to a text field under edit, if anything.
pub fn edit_text(key: &KeyEvent) -> (res: Option<TextEditCommand>)
    ensures
        res == text_edit_of(*key),
{
    match key.code {
        KeyCode::Char(c) => Some(TextEditCommand::Append(c)),
        KeyCode::Backspace => Some(TextEditCommand::Delete),
        KeyCode::Enter => Some(TextEditCommand::ExitEdit),
        KeyCode::Esc => Some(TextEditCommand::ExitEdit),
        _ => None,
    }
}

/// Whether text is under edit, so that the global keys are off.
pub fn is_editing_text(app: &App) -> (res: bool)
    ensures
        res == editing_text_model(app@),
{
    match &app.editor {
        None => false,
        Some(ed) => {
            if ed.editing_name || ed.editing_trigger {
                return true;
            }
            match &ed.step_edit {
                Some(se) => se.field == StepEditField::Value,
                None => false,
            }
        },
    }
}

/// The kind `delta` places after `current` in the cyclic order
/// `PressKey`, `ReleaseKey`, `Wait`; an unknown kind counts as the first.
pub fn cycle_kind(current: &str, delta: i32) -> (res: String)
    ensures
        res@ == cycle_kind_model(current@, delta as int),
{
    let pos: i64 = if crate::model::same_text(current, "ReleaseKey") {
        1
    } else if crate::model::same_text(current, "Wait") {
        2
    } else {
        0
    };
    assert(pos == kind_position(current@));
    let r = (pos + delta as i64).checked_rem_euclid(3).unwrap();
    assert(0 <= r < 3);
    if r == 0 {
        owned("PressKey")
    } else if r == 1 {
        owned("ReleaseKey")
    } else {
        owned("Wait")
    }
}

/// The keys that work in every pane; `false` when `key` is not one of them.
fn handle_global(app: &mut App, key: &KeyEvent) -> (res: bool)
    requires
        old(app).wf(),
    ensures
        res == global_model(old(app)@, *key) is Some,
        res ==> final(app)@ == global_model(old(app)@, *key)->0,
        !res ==> final(app)@ == old(app)@,
        final(app).wf(),
        final(app).running_ids == old(app).running_ids,
{
    let plain = key.modifiers.bits == 0;
    let ctrl = key.modifiers.bits == 2;
    if key.code == KeyCode::Char('q') && plain {
        app.should_quit = true;
        true
    } else if key.code == KeyCode::Char('h') && ctrl {
        app.active_pane = Pane::MacroList;
        true
    } else if key.code == KeyCode::Char('l') && ctrl {
        app.active_pane = Pane::Editor;
        true
    } else if key.code == KeyCode::Tab && plain && app.active_pane == Pane::Editor
        && app.editor.is_some() {
        let mut ed = app.editor.take().unwrap();
        ed.focused_field = match ed.focused_field {
            EditField::Name => EditField::TriggerKey,
            EditField::TriggerKey => EditField::Style,
            EditField::Style => EditField::Steps,
            EditField::Steps => EditField::Name,
        };
        app.editor = Some(ed);
        true
    } else {
        false
    }
}

/// The keys of the macro list.
fn handle_list(app: &mut App, key: &KeyEvent)
    requires
        old(app).wf(),
    ensures
        exists|fresh: Seq<char>| id_shape(fresh) && final(app)@ == #[trigger] list_model(old(app)@, *key, fresh),
        final(app).wf(),
        final(app).running_ids == old(app).running_ids,
{
    let ghost a = app@;
    match key.code {
        KeyCode::Up | KeyCode::Char('k') => {
            app.list_up();
            assert(app@ == list_model(a, *key, any_id()));
        },
        KeyCode::Down | KeyCode::Char('j') => {
            app.list_down();
            assert(app@ == list_model(a, *key, any_id()));
        },
        KeyCode::Enter => {
            app.open_editor();
            assert(app@ == list_model(a, *key, any_id()));
        },
        KeyCode::Char('n') => {
            app.add_macro();
            assert(app@ == list_model(a, *key, app@.macros.last().id));
        },
        KeyCode::Char('d') => {
            app.remove_macro();
            assert(app@ == list_model(a, *key, any_id()));
        },
        KeyCode::Char('u') => {
            app.duplicate_macro();
            proof {
                if a.macros.len() > 0 {
                    assert(app@ == list_model(a, *key, app@.macros[app@.list_cursor as int].id));
                } else {
                    assert(app@ == list_model(a, *key, any_id()));
                }
            }
        },
        _ => {
            assert(app@ == list_model(a, *key, any_id()));
        },
    }
}


/// Writes the step under edit into the step under the cursor, closes the
/// step editor and writes the editor into its macro.
fn commit_step(app: &mut App)
    requires
        old(app).wf(),
        old(app)@.editor is Some,
    ensures
        final(app)@ == commit_step_model(old(app)@),
        final(app).wf(),
        final(app).running_ids == old(app).running_ids,
{
    let mut ed = app.editor.take().unwrap();
    let se_opt = ed.step_edit.take();
    match se_opt {
        Some(se) => {
            let step = StepAction::build(se.kind_buf.as_str(), se.value_buf.as_str());
            if ed.step_cursor < ed.steps.len() {
                let ghost before = ed.steps.deep_view();
                ed.steps.set(ed.step_cursor, step);
                assert(ed.steps.deep_view() =~= before.update(
                    ed.step_cursor as int,
                    build_step(se.kind_buf@, se.value_buf@),
                ));
            }
            app.editor = Some(ed);
            app.commit_editor();
        },
        None => {
            app.editor = Some(ed);
        },
    }
}

/// Closes the step editor without writing the step, and writes the editor
/// into its macro.
fn cancel_step(app: &mut App)
    requires
        old(app).wf(),
        old(app)@.editor is Some,
    ensures
        final(app)@ == cancel_step_model(old(app)@),
        final(app).wf(),
        final(app).running_ids == old(app).running_ids,
{
    let mut ed = app.editor.take().unwrap();
    ed.step_edit = None;
    app.editor = Some(ed);
    app.commit_editor();
}

/// The keys of the step editor.
fn edit_step(app: &mut App, key: &KeyEvent)
    requires
        old(app).wf(),
        old(app)@.editor is Some,
        old(app)@.editor->0.step_edit is Some,
    ensures
        final(app)@ == edit_step_model(
            old(app)@,
            old(app)@.editor->0,
            old(app)@.editor->0.step_edit->0,
            *key,
        ),
        final(app).wf(),
        final(app).running_ids == old(app).running_ids,
{
    let plain = key.modifiers.bits == 0;
    let ctrl = key.modifiers.bits == 2;
    let mut ed = app.editor.take().unwrap();
    let mut se = ed.step_edit.take().unwrap();
    match se.field {
        StepEditField::Kind => {
            if key.code == KeyCode::Left && plain {
                se.kind_buf = cycle_kind(se.kind_buf.as_str(), -1);
                se.value_buf = owned(StepAction::default_value_for_kind(se.kind_buf.as_str()));
                ed.step_edit = Some(se);
                app.editor = Some(ed);
            } else if key.code == KeyCode::Right && plain {
                se.kind_buf = cycle_kind(se.kind_buf.as_str(), 1);
                se.value_buf = owned(StepAction::default_value_for_kind(se.kind_buf.as_str()));
                ed.step_edit = Some(se);
                app.editor = Some(ed);
            } else if key.code == KeyCode::Right && ctrl {
                se.field = StepEditField::Value;
                ed.step_edit = Some(se);
                app.editor = Some(ed);
            } else if key.code == KeyCode::Enter && plain {
                ed.step_edit = Some(se);
                app.editor = Some(ed);
                commit_step(app);
                app.set_status(owned("Step saved"));
            } else if key.code == KeyCode::Esc && plain {
                ed.step_edit = Some(se);
                app.editor = Some(ed);
                cancel_step(app);
            } else {
                ed.step_edit = Some(se);
                app.editor = Some(ed);
            }
        },
        StepEditField::Value => {
            match key.code {
                KeyCode::Char(c) => {
                    push_char(&mut se.value_buf, c);
                    ed.step_edit = Some(se);
                    app.editor = Some(ed);
                },
                KeyCode::Backspace => {
                    pop_char(&mut se.value_buf);
                    ed.step_edit = Some(se);
                    app.editor = Some(ed);
                },
                _ => {
                    if key.code == KeyCode::Enter && plain {
                        ed.step_edit = Some(se);
                        app.editor = Some(ed);
                        commit_step(app);
                        app.set_status(owned("Step saved"));
                    } else if key.code == KeyCode::Esc && plain {
                        ed.step_edit = Some(se);
                        app.editor = Some(ed);
                        cancel_step(app);
                    } else if key.code == KeyCode::Right && ctrl {
                        se.field = StepEditField::Kind;
                        ed.step_edit = Some(se);
                        app.editor = Some(ed);
                    } else {
                        ed.step_edit = Some(se);
                        app.editor = Some(ed);
                    }
                },
            }
        },
    }
}


/// The step editor as it opens on `s`.
fn step_edit_for(s: &StepAction) -> (res: StepEditState)
    ensures
        res@ == step_edit_of(s@),
{
    StepEditState {
        field: StepEditField::Kind,
        kind_buf: owned(s.kind_label()),
        value_buf: s.value_string(),
    }
}

fn add_step(app: &mut App)
    requires
        old(app).wf(),
        old(app)@.editor is Some,
    ensures
        final(app)@ == add_step_model(old(app)@, old(app)@.editor->0),
        final(app).wf(),
        final(app).running_ids == old(app).running_ids,
{
    let mut ed = app.editor.take().unwrap();
    let ghost e = ed@;
    let at = if ed.steps.len() == 0 {
        0
    } else {
        ed.step_cursor + 1
    };
    let w = StepAction::Wait(100);
    let se = step_edit_for(&w);
    ed.steps.insert(at, w);
    assert(ed.steps.deep_view() =~= e.steps.insert(at as int, StepView::Wait(100)));
    ed.step_cursor = at;
    ed.step_edit = Some(se);
    app.editor = Some(ed);
    app.set_status(owned("[←/→] change type  [Space] edit value  [Enter] confirm  [Esc] cancel"));
}

fn delete_step(app: &mut App)
    requires
        old(app).wf(),
        old(app)@.editor is Some,
    ensures
        final(app)@ == delete_step_model(old(app)@, old(app)@.editor->0),
        final(app).wf(),
        final(app).running_ids == old(app).running_ids,
{
    let mut ed = app.editor.take().unwrap();
    let ghost e = ed@;
    let c = ed.step_cursor;
    if ed.steps.len() > 0 {
        ed.steps.remove(c);
        assert(ed.steps.deep_view() =~= e.steps.remove(c as int));
        if c > 0 && c >= ed.steps.len() {
            ed.step_cursor = c - 1;
        }
        app.editor = Some(ed);
        app.commit_editor();
        app.set_status(owned("Step deleted"));
    } else {
        app.editor = Some(ed);
    }
}

fn move_step(app: &mut App, up: bool)
    requires
        old(app).wf(),
        old(app)@.editor is Some,
    ensures
        final(app)@ == move_step_model(old(app)@, old(app)@.editor->0, up),
        final(app).wf(),
        final(app).running_ids == old(app).running_ids,
{
    let mut ed = app.editor.take().unwrap();
    let ghost e = ed@;
    let c = ed.step_cursor;
    let n = ed.steps.len();
    let ok = if up {
        c > 0
    } else {
        c + 1 < n
    };
    if ok {
        let other = if up {
            c - 1
        } else {
            c + 1
        };
        let x = ed.steps.remove(c);
        ed.steps.insert(other, x);
        assert(ed.steps.deep_view() =~= swapped(e.steps, c as int, other as int));
        ed.step_cursor = other;
        app.editor = Some(ed);
        app.commit_editor();
    } else {
        app.editor = Some(ed);
    }
}

/// The keys of the step list.
fn steps_nav(app: &mut App, key: &KeyEvent)
    requires
        old(app).wf(),
        old(app)@.editor is Some,
    ensures
        final(app)@ == steps_nav_model(old(app)@, old(app)@.editor->0, *key),
        final(app).wf(),
        final(app).running_ids == old(app).running_ids,
{
    match key.code {
        KeyCode::Up | KeyCode::Char('k') => {
            let mut ed = app.editor.take().unwrap();
            if ed.step_cursor > 0 {
                ed.step_cursor = ed.step_cursor - 1;
            }
            app.editor = Some(ed);
        },
        KeyCode::Down | KeyCode::Char('j') => {
            let mut ed = app.editor.take().unwrap();
            if ed.steps.len() > 0 && ed.step_cursor + 1 < ed.steps.len() {
                ed.step_cursor = ed.step_cursor + 1;
            }
            app.editor = Some(ed);
        },
        KeyCode::Char('a') => add_step(app),
        KeyCode::Char('e') | KeyCode::Enter => {
            let mut ed = app.editor.take().unwrap();
            if ed.steps.len() > 0 {
                let se = step_edit_for(&ed.steps[ed.step_cursor]);
                ed.step_edit = Some(se);
            }
            app.editor = Some(ed);
        },
        KeyCode::Char('d') => delete_step(app),
        KeyCode::Char('K') => move_step(app, true),
        KeyCode::Char('J') => move_step(app, false),
        _ => {},
    }
}


/// Applies a text change to `buf`.
fn apply_text_edit(buf: &mut String, t: TextEditCommand)
    ensures
        final(buf)@ == edited_text(old(buf)@, t),
{
    match t {
        TextEditCommand::Append(c) => push_char(buf, c),
        TextEditCommand::Delete => {
            pop_char(buf);
        },
        TextEditCommand::ExitEdit => {},
    }
}

/// A change to the name under edit.
fn edit_name(app: &mut App, t: TextEditCommand)
    requires
        old(app).wf(),
        old(app)@.editor is Some,
    ensures
        final(app)@ == name_edit_model(old(app)@, old(app)@.editor->0, t),
        final(app).wf(),
        final(app).running_ids == old(app).running_ids,
{
    let mut ed = app.editor.take().unwrap();
    if t == TextEditCommand::ExitEdit {
        ed.editing_name = false;
        app.editor = Some(ed);
        app.commit_editor();
    } else {
        apply_text_edit(&mut ed.name_buf, t);
        app.editor = Some(ed);
    }
}

/// A change to the trigger text under edit.
fn edit_trigger(app: &mut App, t: TextEditCommand)
    requires
        old(app).wf(),
        old(app)@.editor is Some,
    ensures
        final(app)@ == trigger_edit_model(old(app)@, old(app)@.editor->0, t),
        final(app).wf(),
        final(app).running_ids == old(app).running_ids,
{
    let mut ed = app.editor.take().unwrap();
    if t == TextEditCommand::ExitEdit {
        ed.editing_trigger = false;
        app.editor = Some(ed);
        app.commit_editor();
        app.set_status(owned("Trigger key saved — format: [mod+]key  e.g. ctrl+F5"));
    } else {
        apply_text_edit(&mut ed.trigger_buf, t);
        app.editor = Some(ed);
    }
}

/// The keys of the editor pane.
fn handle_editor(app: &mut App, key: &KeyEvent)
    requires
        old(app).wf(),
    ensures
        final(app)@ == editor_model(old(app)@, *key),
        final(app).wf(),
        final(app).running_ids == old(app).running_ids,
{
    let (has_step_edit, text_editing, focus) = match &app.editor {
        None => {
            return ;
        },
        Some(ed) => (ed.step_edit.is_some(), ed.editing_name || ed.editing_trigger, ed.focused_field),
    };
    if has_step_edit {
        edit_step(app, key);
        return ;
    }
    let te = edit_text(key);
    if text_editing && te.is_some() {
        let t = te.unwrap();
        match focus {
            EditField::Name => edit_name(app, t),
            EditField::TriggerKey => edit_trigger(app, t),
            _ => {},
        }
        return ;
    }
    match focus {
        EditField::Name => {
            if key.code == KeyCode::Enter {
                let mut ed = app.editor.take().unwrap();
                ed.editing_name = true;
                app.editor = Some(ed);
            }
        },
        EditField::TriggerKey => {
            if key.code == KeyCode::Enter {
                let mut ed = app.editor.take().unwrap();
                ed.editing_trigger = true;
                app.editor = Some(ed);
            }
        },
        EditField::Style => {
            if key.code == KeyCode::Left || key.code == KeyCode::Right || key.code == KeyCode::Enter
                || key.code == KeyCode::Char(' ') {
                let mut ed = app.editor.take().unwrap();
                ed.style = match ed.style {
                    MacroStyle::Trigger => MacroStyle::ToggleLoop,
                    MacroStyle::ToggleLoop => MacroStyle::Trigger,
                };
                app.editor = Some(ed);
                app.commit_editor();
            }
        },
        EditField::Steps => steps_nav(app, key),
    }
}

/// What a key does: the global keys first (unless text is under edit), then
/// the keys of the focused pane.
pub fn handle_key(app: &mut App, key: &KeyEvent)
    requires
        old(app).wf(),
    ensures
        exists|fresh: Seq<char>| id_shape(fresh) && final(app)@ == #[trigger] key_model(old(app)@, *key, fresh),
        final(app).wf(),
        final(app).running_ids == old(app).running_ids,
{
    let ghost a = app@;
    if !is_editing_text(app) {
        if handle_global(app, key) {
            assert(app@ == key_model(a, *key, any_id()));
            return ;
        }
    }
    match app.active_pane {
        Pane::MacroList => {
            handle_list(app, key);
            proof {
                let fresh = choose|fresh: Seq<char>| id_shape(fresh) && app@ == #[trigger] list_model(a, *key, fresh);
                assert(app@ == key_model(a, *key, fresh));
            }
        },
        Pane::Editor => {
            handle_editor(app, key);
            assert(app@ == key_model(a, *key, any_id()));
        },
    }
}

/// Takes in an input event; returns what, if anything, the executor is to do:
/// run the selected macro on `F5`, stop every run once the application is to quit.
pub fn handle_event(app: &mut App, event: Event) -> (res: Option<ExecutorCommand>)
    requires
        old(app).wf(),
    ensures
        exists|fresh: Seq<char>| id_shape(fresh) && final(app)@ == #[trigger] event_model(old(app)@, event, fresh),
        command_view(res) == event_command(old(app)@, event, final(app)@),
        final(app).wf(),
        final(app).running_ids == old(app).running_ids,
{
    let ghost a = app@;
    match event {
        Event::Key(k) => {
            if k.code == KeyCode::F(5) {
                let m = app.trigger_selected();
                assert(app@ == event_model(a, event, any_id()));
                return match m {
                    Some(m) => Some(ExecutorCommand::Trigger(m)),
                    None => None,
                };
            }
            handle_key(app, &k);
            proof {
                let fresh = choose|fresh: Seq<char>| id_shape(fresh) && app@ == #[trigger] key_model(a, k, fresh);
                assert(app@ == event_model(a, event, fresh));
            }
        },
        Event::Other => {
            assert(app@ == event_model(a, event, any_id()));
        },
    }
    if app.should_quit {
        Some(ExecutorCommand::StopAll)
    } else {
        None
    }
}


// ---------------------------------------------------------------------------
// Laws
// ---------------------------------------------------------------------------

/// Unless text is under edit, a plain `q` quits, and the executor is told
/// to stop every run.
pub proof fn lemma_q_quits(a: AppView, k: KeyEvent, fresh: Seq<char>)
    requires
        k.code == KeyCode::Char('q'),
        plain(k),
        !editing_text_model(a),
    ensures
        key_model(a, k, fresh).should_quit,
        event_command(a, Event::Key(k), event_model(a, Event::Key(k), fresh)) == Some(
            CommandView::StopAll,
        ),
{
}

/// While a text field is under edit, keys go to the text: a `q` is typed,
/// it does not quit.
pub proof fn lemma_q_typed_while_editing_name(a: AppView, k: KeyEvent, fresh: Seq<char>)
    requires
        k.code == KeyCode::Char('q'),
        a.active_pane == Pane::Editor,
        a.editor matches Some(e) && e.editing_name && e.focused_field == EditField::Name
            && e.step_edit is None,
    ensures
        key_model(a, k, fresh) == with_editor(
            a,
            EditorView { name_buf: a.editor->0.name_buf.push('q'), ..a.editor->0 },
        ),
{
}

/// Typing a character and deleting it leaves the text as it was.
pub proof fn lemma_type_then_delete(buf: Seq<char>, c: char)
    ensures
        edited_text(edited_text(buf, TextEditCommand::Append(c)), TextEditCommand::Delete) == buf,
{
    assert(buf.push(c).drop_last() =~= buf);
}

proof fn lemma_kind_names_differ()
    ensures
        step_kinds()[0] != step_kinds()[1],
        step_kinds()[0] != step_kinds()[2],
        step_kinds()[1] != step_kinds()[2],
{
    reveal_strlit("PressKey");
    reveal_strlit("ReleaseKey");
    reveal_strlit("Wait");
    assert("PressKey"@[0] != "ReleaseKey"@[0]);
    assert("PressKey"@[0] != "Wait"@[0]);
    assert("ReleaseKey"@[0] != "Wait"@[0]);
}

/// Cycling a kind back and forth gives the kind back.
pub proof fn lemma_cycle_kind_inverse(i: int)
    requires
        0 <= i < 3,
    ensures
        cycle_kind_model(cycle_kind_model(step_kinds()[i], -1), 1) == step_kinds()[i],
        cycle_kind_model(cycle_kind_model(step_kinds()[i], 1), -1) == step_kinds()[i],
{
    lemma_kind_names_differ();
}

/// Moving a step up and then down again leaves the steps as they were.
pub proof fn lemma_move_up_then_down(a: AppView)
    requires
        app_wf(a),
        a.editor matches Some(e) && e.step_cursor > 0,
    ensures
        ({
            let b = move_step_model(a, a.editor->0, true);
            move_step_model(b, b.editor->0, false).editor->0.steps == a.editor->0.steps
        }),
{
    let e = a.editor->0;
    let c = e.step_cursor as int;
    let b = move_step_model(a, e, true);
    let s1 = swapped(e.steps, c, c - 1);
    assert(b.editor->0.steps == s1);
    assert(b.editor->0.step_cursor == c - 1);
    assert(swapped(s1, c - 1, c) =~= e.steps);
}

/// Opening the step editor on a step and confirming it without a change
/// leaves the steps as they were.
pub proof fn lemma_edit_step_unchanged(a: AppView, open: KeyEvent, confirm: KeyEvent)
    requires
        app_wf(a),
        a.editor matches Some(e) && e.steps.len() > 0 && e.step_edit is None && step_text_exact(
            e.steps[e.step_cursor as int],
        ),
        open.code == KeyCode::Char('e'),
        confirm.code == KeyCode::Enter,
        plain(confirm),
    ensures
        ({
            let b = steps_nav_model(a, a.editor->0, open);
            let eb = b.editor->0;
            edit_step_model(b, eb, eb.step_edit->0, confirm).editor->0.steps == a.editor->0.steps
        }),
{
    let e = a.editor->0;
    let s = e.steps[e.step_cursor as int];
    lemma_step_text_roundtrip(s);
    assert(e.steps.update(e.step_cursor as int, s) =~= e.steps);
}


/// Keys go to the step list: the editor pane is focused, and in it the step
/// list, with no text and no step under edit.
pub open spec fn in_step_list(a: AppView) -> bool {
    &&& a.active_pane == Pane::Editor
    &&& a.editor matches Some(e) && e.focused_field == EditField::Steps && e.step_edit is None
        && !e.editing_name && !e.editing_trigger
}

/// Moving a step up with `K` and down again with `J` gives back the editor's
/// steps and cursor; the macro that the editor writes into then holds those
/// steps, and the other macros are unchanged.
pub proof fn lemma_step_up_then_down(
    a: AppView,
    up: KeyEvent,
    down: KeyEvent,
    fresh1: Seq<char>,
    fresh2: Seq<char>,
)
    requires
        app_wf(a),
        in_step_list(a),
        0 < a.editor->0.step_cursor < a.editor->0.steps.len(),
        up.code == KeyCode::Char('K'),
        down.code == KeyCode::Char('J'),
    ensures
        ({
            let e = a.editor->0;
            let b = key_model(a, up, fresh1);
            let c = key_model(b, down, fresh2);
            &&& in_step_list(c)
            &&& c.editor->0 == e
            &&& c.macros.len() == a.macros.len()
            &&& forall|i: int|
                first_with_id(a.macros, e.macro_id, i) ==> c.macros[i].steps == e.steps && forall|
                    j: int,
                |
                    0 <= j < a.macros.len() && j != i ==> #[trigger] c.macros[j] == a.macros[j]
            &&& (!exists|i: int| first_with_id(a.macros, e.macro_id, i)) ==> c.macros == a.macros
        }),
{
    let e = a.editor->0;
    let cur = e.step_cursor as int;
    let e1 = EditorView { steps: swapped(e.steps, cur, cur - 1), step_cursor: (cur - 1) as usize, ..e };
    let a1 = with_editor(a, e1);
    let b = key_model(a, up, fresh1);
    assert(b == commit_editor_model(a1));
    let e2 = EditorView {
        steps: swapped(e1.steps, cur - 1, cur),
        step_cursor: cur as usize,
        ..e1
    };
    assert(swapped(e1.steps, cur - 1, cur) =~= e.steps);
    assert(e2 == e);
    if exists|i: int| first_with_id(a.macros, e.macro_id, i) {
        let i = choose|i: int| first_with_id(a.macros, e.macro_id, i);
        lemma_commit_writes_editor(a1, i);
        assert(b.editor == Some(e1));
        let b2 = with_editor(b, e2);
        assert(key_model(b, down, fresh2) == commit_editor_model(b2));
        lemma_commit_writes_editor(b2, i);
        assert forall|k: int| first_with_id(a.macros, e.macro_id, k) implies k == i by {}
    } else {
        assert(!exists|k: int| first_with_id(a1.macros, e.macro_id, k));
        assert(b == a1);
        let b2 = with_editor(b, e2);
        assert(key_model(b, down, fresh2) == commit_editor_model(b2));
        assert(!exists|k: int| first_with_id(b2.macros, e.macro_id, k));
    }
}

/// In the step list, `Up`/`k` and `Down`/`j` move the cursor by one where
/// there is a step to move to, change nothing else, and keep the cursor in
/// range.
pub proof fn lemma_step_cursor_keys(a: AppView, k: KeyEvent, fresh: Seq<char>)
    requires
        app_wf(a),
        in_step_list(a),
        k.code == KeyCode::Up || k.code == KeyCode::Char('k') || k.code == KeyCode::Down
            || k.code == KeyCode::Char('j'),
    ensures
        ({
            let e = a.editor->0;
            let c = e.step_cursor;
            let n = e.steps.len();
            let moved: usize = if k.code == KeyCode::Up || k.code == KeyCode::Char('k') {
                if c > 0 {
                    (c - 1) as usize
                } else {
                    c
                }
            } else if c + 1 < n {
                (c + 1) as usize
            } else {
                c
            };
            &&& key_model(a, k, fresh) == with_editor(a, EditorView { step_cursor: moved, ..e })
            &&& app_wf(key_model(a, k, fresh))
        }),
{
    let e = a.editor->0;
    assert(with_editor(a, EditorView { step_cursor: e.step_cursor, ..e }) == a);
}

/// `after` is `before` with the first macro whose identifier is `id` (if
/// there is one) now holding `steps`, and nothing else changed.
pub open spec fn steps_written(
    before: Seq<MacroView>,
    after: Seq<MacroView>,
    id: Seq<char>,
    steps: Seq<StepView>,
) -> bool {
    &&& after.len() == before.len()
    &&& forall|i: int|
        first_with_id(before, id, i) ==> after[i].steps == steps && forall|j: int|
            0 <= j < before.len() && j != i ==> #[trigger] after[j] == before[j]
    &&& (!exists|i: int| first_with_id(before, id, i)) ==> after == before
}

/// Writing back an editor `e` changes the macros of `a` as `steps_written`
/// says, with the editor's steps, and nothing else of `a`.
proof fn lemma_commit_steps_written(a: AppView)
    requires
        a.editor is Some,
    ensures
        ({
            let e = a.editor->0;
            let c = commit_editor_model(a);
            &&& c == (AppView { macros: c.macros, ..a })
            &&& steps_written(a.macros, c.macros, e.macro_id, e.steps)
        }),
{
    let e = a.editor->0;
    if exists|i: int| first_with_id(a.macros, e.macro_id, i) {
        let i = choose|i: int| first_with_id(a.macros, e.macro_id, i);
        lemma_commit_writes_editor(a, i);
        assert forall|k: int| first_with_id(a.macros, e.macro_id, k) implies k == i by {}
    } else {
        lemma_commit_without_macro(a);
    }
}

/// In the step list, `d` removes exactly the step under the cursor: the
/// steps before it and after it stay, in order. The cursor stays where it
/// is, or moves back one when it stood on the last step, and the macro that
/// the editor writes into gets the new steps.
pub proof fn lemma_delete_step_key(a: AppView, k: KeyEvent, fresh: Seq<char>)
    requires
        app_wf(a),
        in_step_list(a),
        a.editor->0.steps.len() > 0,
        k.code == KeyCode::Char('d'),
    ensures
        ({
            let e = a.editor->0;
            let c = e.step_cursor as int;
            let n = e.steps.len() as int;
            let rest = e.steps.subrange(0, c) + e.steps.subrange(c + 1, n);
            let b = key_model(a, k, fresh);
            &&& rest.len() == n - 1
            &&& b.editor == Some(
                EditorView {
                    steps: rest,
                    step_cursor: (if c > 0 && c == n - 1 {
                        c - 1
                    } else {
                        c
                    }) as usize,
                    ..e
                },
            )
            &&& steps_written(a.macros, b.macros, e.macro_id, rest)
            &&& b == (AppView {
                macros: b.macros,
                editor: b.editor,
                status_msg: "Step deleted"@,
                ..a
            })
        }),
{
    let e = a.editor->0;
    let c = e.step_cursor as int;
    let n = e.steps.len() as int;
    let rest = e.steps.subrange(0, c) + e.steps.subrange(c + 1, n);
    assert(e.steps.remove(c) =~= rest);
    let c2: int = if c > 0 && c == n - 1 {
        c - 1
    } else {
        c
    };
    let e1 = EditorView { steps: rest, step_cursor: c2 as usize, ..e };
    let a1 = with_editor(a, e1);
    assert(key_model(a, k, fresh) == with_status(commit_editor_model(a1), "Step deleted"@));
    lemma_commit_steps_written(a1);
}

/// While a step is under edit, no key but a plain `Enter` changes the
/// editor's steps.
pub proof fn lemma_step_edit_keys_keep_steps(a: AppView, k: KeyEvent, fresh: Seq<char>)
    requires
        a.active_pane == Pane::Editor,
        a.editor matches Some(e) && e.step_edit is Some,
        !(k.code == KeyCode::Enter && plain(k)),
    ensures
        key_model(a, k, fresh).editor matches Some(e2) && e2.steps == a.editor->0.steps,
{
}

/// A plain `Esc` in the step editor, on the kind or on the value, closes it
/// and drops what was typed: the editor's steps stay as they were, and the
/// macro that the editor writes into gets those steps.
pub proof fn lemma_esc_drops_step_edit(a: AppView, k: KeyEvent, fresh: Seq<char>)
    requires
        a.active_pane == Pane::Editor,
        a.editor matches Some(e) && e.step_edit is Some,
        k.code == KeyCode::Esc,
        plain(k),
    ensures
        ({
            let e = a.editor->0;
            let b = key_model(a, k, fresh);
            &&& b.editor == Some(EditorView { step_edit: None, ..e })
            &&& steps_written(a.macros, b.macros, e.macro_id, e.steps)
            &&& b == (AppView { macros: b.macros, editor: b.editor, ..a })
        }),
{
    let e = a.editor->0;
    let a1 = with_editor(a, EditorView { step_edit: None, ..e });
    assert(key_model(a, k, fresh) == commit_editor_model(a1));
    lemma_commit_steps_written(a1);
}

/// Leaving the trigger text with `Enter` or `Esc` sets the trigger of the
/// macro that the editor writes into to what the text reads as, whatever
/// trigger it had before (an empty text gives the unset combination).
pub proof fn lemma_trigger_text_saved(a: AppView, k: KeyEvent, fresh: Seq<char>)
    requires
        a.active_pane == Pane::Editor,
        a.editor matches Some(e) && e.step_edit is None && e.editing_trigger && e.focused_field
            == EditField::TriggerKey,
        k.code == KeyCode::Enter || k.code == KeyCode::Esc,
    ensures
        ({
            let e = a.editor->0;
            let b = key_model(a, k, fresh);
            &&& b.editor == Some(EditorView { editing_trigger: false, ..e })
            &&& b.macros.len() == a.macros.len()
            &&& forall|i: int|
                first_with_id(a.macros, e.macro_id, i) ==> b.macros[i].trigger == parse_combo(
                    e.trigger_buf,
                )
        }),
{
    let e = a.editor->0;
    let a1 = with_editor(a, EditorView { editing_trigger: false, ..e });
    assert(key_model(a, k, fresh) == with_status(commit_editor_model(a1), trigger_saved_hint()));
    assert forall|i: int| first_with_id(a.macros, e.macro_id, i) implies key_model(
        a,
        k,
        fresh,
    ).macros[i].trigger == parse_combo(e.trigger_buf) by {
        lemma_commit_writes_editor(a1, i);
    }
    if !exists|i: int| first_with_id(a.macros, e.macro_id, i) {
        lemma_commit_without_macro(a1);
    } else {
        let i = choose|i: int| first_with_id(a.macros, e.macro_id, i);
        lemma_commit_writes_editor(a1, i);
    }
}

/// In the step list, `K` swaps the step under the cursor with the one before
/// it and `J` with the one after it, the cursor following the step; the other
/// steps stay in place and the macro that the editor writes into gets the new
/// steps. Where there is no step to swap with, nothing changes.
pub proof fn lemma_move_step_keys(a: AppView, k: KeyEvent, fresh: Seq<char>)
    requires
        app_wf(a),
        in_step_list(a),
        k.code == KeyCode::Char('K') || k.code == KeyCode::Char('J'),
    ensures
        ({
            let e = a.editor->0;
            let s = e.steps;
            let c = e.step_cursor as int;
            let o: int = if k.code == KeyCode::Char('K') {
                c - 1
            } else {
                c + 1
            };
            let b = key_model(a, k, fresh);
            if 0 <= o < s.len() {
                let t = b.editor->0.steps;
                &&& b.editor == Some(EditorView { steps: t, step_cursor: o as usize, ..e })
                &&& t.len() == s.len()
                &&& t[o] == s[c]
                &&& t[c] == s[o]
                &&& forall|j: int| 0 <= j < s.len() && j != c && j != o ==> t[j] == s[j]
                &&& steps_written(a.macros, b.macros, e.macro_id, t)
                &&& b == (AppView { macros: b.macros, editor: b.editor, ..a })
            } else {
                b == a
            }
        }),
{
    let e = a.editor->0;
    let c = e.step_cursor as int;
    let o: int = if k.code == KeyCode::Char('K') {
        c - 1
    } else {
        c + 1
    };
    if 0 <= o < e.steps.len() {
        let e1 = EditorView { steps: swapped(e.steps, c, o), step_cursor: o as usize, ..e };
        let a1 = with_editor(a, e1);
        assert(key_model(a, k, fresh) == commit_editor_model(a1));
        lemma_commit_steps_written(a1);
    }
}

/// In the step list, `a` inserts a step `Wait 100` right after the step under
/// the cursor (first, in an empty list), puts the cursor on it and opens it in
/// the step editor on its kind; the steps around it keep their order, and the
/// macros are not written.
pub proof fn lemma_add_step_key(a: AppView, k: KeyEvent, fresh: Seq<char>)
    requires
        app_wf(a),
        in_step_list(a),
        k.code == KeyCode::Char('a'),
    ensures
        ({
            let e = a.editor->0;
            let s = e.steps;
            let at: int = if s.len() == 0 {
                0
            } else {
                e.step_cursor + 1
            };
            let b = key_model(a, k, fresh);
            &&& b.editor == Some(
                EditorView {
                    steps: s.subrange(0, at) + seq![StepView::Wait(100)] + s.subrange(at, s.len() as int),
                    step_cursor: at as usize,
                    step_edit: Some(
                        StepEditView {
                            field: StepEditField::Kind,
                            kind_buf: step_kind(StepView::Wait(100)),
                            value_buf: step_value(StepView::Wait(100)),
                        },
                    ),
                    ..e
                },
            )
            &&& b == (AppView { editor: b.editor, status_msg: add_step_hint(), ..a })
        }),
{
    let e = a.editor->0;
    let s = e.steps;
    let at: int = if s.len() == 0 {
        0
    } else {
        e.step_cursor + 1
    };
    assert(s.insert(at, StepView::Wait(100)) =~= s.subrange(0, at) + seq![StepView::Wait(100)]
        + s.subrange(at, s.len() as int));
}

/// In the step list, `e` or `Enter` opens the step editor on the step under
/// the cursor, on its kind, with the step's kind name and value as text; the
/// steps and the macros are unchanged.
pub proof fn lemma_open_step_editor_key(a: AppView, k: KeyEvent, fresh: Seq<char>)
    requires
        app_wf(a),
        in_step_list(a),
        a.editor->0.steps.len() > 0,
        k.code == KeyCode::Char('e') || k.code == KeyCode::Enter,
    ensures
        ({
            let e = a.editor->0;
            let s = e.steps[e.step_cursor as int];
            key_model(a, k, fresh) == with_editor(
                a,
                EditorView {
                    step_edit: Some(
                        StepEditView {
                            field: StepEditField::Kind,
                            kind_buf: step_kind(s),
                            value_buf: step_value(s),
                        },
                    ),
                    ..e
                },
            )
        }),
{
}

/// A plain `Enter` in the step editor replaces the step under the cursor by
/// the step that the kind and value texts make, leaves the other steps as
/// they were, closes the step editor, and the macro that the editor writes
/// into gets the new steps.
pub proof fn lemma_confirm_step_key(a: AppView, k: KeyEvent, fresh: Seq<char>)
    requires
        app_wf(a),
        a.active_pane == Pane::Editor,
        a.editor matches Some(e) && e.step_edit is Some && e.steps.len() > 0,
        k.code == KeyCode::Enter,
        plain(k),
    ensures
        ({
            let e = a.editor->0;
            let se = e.step_edit->0;
            let c = e.step_cursor as int;
            let b = key_model(a, k, fresh);
            let t = b.editor->0.steps;
            &&& b.editor == Some(EditorView { steps: t, step_edit: None, ..e })
            &&& t.len() == e.steps.len()
            &&& t[c] == build_step(se.kind_buf, se.value_buf)
            &&& forall|j: int| 0 <= j < t.len() && j != c ==> t[j] == e.steps[j]
            &&& steps_written(a.macros, b.macros, e.macro_id, t)
            &&& b == (AppView { macros: b.macros, editor: b.editor, status_msg: "Step saved"@, ..a })
        }),
{
    let e = a.editor->0;
    let se = e.step_edit->0;
    let c = e.step_cursor as int;
    let t = e.steps.update(c, build_step(se.kind_buf, se.value_buf));
    let a1 = with_editor(a, EditorView { steps: t, step_edit: None, ..e });
    assert(key_model(a, k, fresh) == with_status(commit_editor_model(a1), "Step saved"@));
    lemma_commit_steps_written(a1);
}

/// On the style field, `Left`, `Right`, `Enter` or space switches the style
/// to the other one and writes it into the macro that the editor writes into.
pub proof fn lemma_style_key(a: AppView, k: KeyEvent, fresh: Seq<char>)
    requires
        a.active_pane == Pane::Editor,
        a.editor matches Some(e) && e.step_edit is None && !e.editing_name && !e.editing_trigger
            && e.focused_field == EditField::Style,
        k.code == KeyCode::Left || k.code == KeyCode::Right || k.code == KeyCode::Enter || k.code
            == KeyCode::Char(' '),
    ensures
        ({
            let e = a.editor->0;
            let b = key_model(a, k, fresh);
            &&& b.editor matches Some(e2) && e2 == (EditorView { style: e2.style, ..e })
                && e2.style != e.style
            &&& b.macros.len() == a.macros.len()
            &&& forall|i: int|
                first_with_id(a.macros, e.macro_id, i) ==> b.macros[i].style == b.editor->0.style
        }),
{
    let e = a.editor->0;
    let a1 = with_editor(a, EditorView { style: toggled(e.style), ..e });
    assert(key_model(a, k, fresh) == commit_editor_model(a1));
    assert forall|i: int| first_with_id(a.macros, e.macro_id, i) implies key_model(
        a,
        k,
        fresh,
    ).macros[i].style == toggled(e.style) by {
        lemma_commit_writes_editor(a1, i);
    }
    lemma_commit_steps_written(a1);
}

/// `Tab` moves the focus through all four fields of the editor and back.
pub proof fn lemma_tab_cycles(f: EditField)
    ensures
        next_field(f) != f,
        next_field(next_field(f)) != f,
        next_field(next_field(next_field(f))) != f,
        next_field(next_field(next_field(next_field(f)))) == f,
{
}

/// In the step editor, on the value: a character is added at the end of the
/// value and `Backspace` takes its last character away; on the kind: plain
/// `Left` and `Right` change the kind and put the new kind's default value in
/// place of the old one. The steps and the macros stay as they were.
pub proof fn lemma_step_edit_typing(a: AppView, k: KeyEvent, fresh: Seq<char>)
    requires
        a.active_pane == Pane::Editor,
        a.editor matches Some(e) && e.step_edit is Some,
    ensures
        ({
            let e = a.editor->0;
            let se = e.step_edit->0;
            let b = key_model(a, k, fresh);
            let with_se = |x: StepEditView| with_editor(a, EditorView { step_edit: Some(x), ..e });
            &&& se.field == StepEditField::Value && k.code is Char ==> b == with_se(
                StepEditView { value_buf: se.value_buf.push(k.code->Char_0), ..se },
            )
            &&& se.field == StepEditField::Value && k.code == KeyCode::Backspace ==> b == with_se(
                StepEditView {
                    value_buf: if se.value_buf.len() > 0 {
                        se.value_buf.subrange(0, se.value_buf.len() - 1)
                    } else {
                        se.value_buf
                    },
                    ..se
                },
            )
            &&& se.field == StepEditField::Kind && plain(k) && (k.code == KeyCode::Left || k.code
                == KeyCode::Right) ==> {
                let kind = b.editor->0.step_edit->0.kind_buf;
                &&& b == with_se(StepEditView { kind_buf: kind, value_buf: default_value(kind), ..se })
                &&& step_kinds().contains(kind)
            }
        }),
{
    let e = a.editor->0;
    let se = e.step_edit->0;
    if se.field == StepEditField::Value && k.code == KeyCode::Backspace && se.value_buf.len() > 0 {
        assert(se.value_buf.drop_last() =~= se.value_buf.subrange(0, se.value_buf.len() - 1));
    }
    if se.field == StepEditField::Kind && plain(k) && (k.code == KeyCode::Left || k.code
        == KeyCode::Right) {
        let d: int = if k.code == KeyCode::Left {
            -1
        } else {
            1
        };
        let kind = cycle_kind_model(se.kind_buf, d);
        let j = (kind_position(se.kind_buf) + d) % 3;
        assert(0 <= j < 3);
        assert(step_kinds()[j] == kind);
    }
}

/// Leaving the name with `Enter` or `Esc` writes the name text into the
/// macro that the editor writes into, as its name.
pub proof fn lemma_name_saved(a: AppView, k: KeyEvent, fresh: Seq<char>)
    requires
        a.active_pane == Pane::Editor,
        a.editor matches Some(e) && e.step_edit is None && e.editing_name && e.focused_field
            == EditField::Name,
        k.code == KeyCode::Enter || k.code == KeyCode::Esc,
    ensures
        ({
            let e = a.editor->0;
            let b = key_model(a, k, fresh);
            &&& b.editor == Some(EditorView { editing_name: false, ..e })
            &&& b.macros.len() == a.macros.len()
            &&& forall|i: int|
                first_with_id(a.macros, e.macro_id, i) ==> b.macros[i].name == e.name_buf
        }),
{
    let e = a.editor->0;
    let a1 = with_editor(a, EditorView { editing_name: false, ..e });
    assert(key_model(a, k, fresh) == commit_editor_model(a1));
    assert forall|i: int| first_with_id(a.macros, e.macro_id, i) implies key_model(
        a,
        k,
        fresh,
    ).macros[i].name == e.name_buf by {
        lemma_commit_writes_editor(a1, i);
    }
    lemma_commit_steps_written(a1);
}

/// Unless text is under edit, `ctrl+h` focuses the macro list and `ctrl+l`
/// the editor, and nothing else changes.
pub proof fn lemma_focus_keys(a: AppView, k: KeyEvent, fresh: Seq<char>)
    requires
        !editing_text_model(a),
        with_ctrl(k),
        k.code == KeyCode::Char('h') || k.code == KeyCode::Char('l'),
    ensures
        key_model(a, k, fresh) == (AppView {
            active_pane: if k.code == KeyCode::Char('h') {
                Pane::MacroList
            } else {
                Pane::Editor
            },
            ..a
        }),
{
}

/// Committing a step when none is under edit changes nothing.
pub proof fn lemma_commit_step_without_edit(a: AppView)
    requires
        a.editor matches Some(e) && e.step_edit is None,
    ensures
        commit_step_model(a) == a,
{
}

/// Committing a step twice does what committing it once does.
pub proof fn lemma_commit_step_twice(a: AppView)
    ensures
        commit_step_model(commit_step_model(a)) == commit_step_model(a),
{
}

} // verus!
