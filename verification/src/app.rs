//! The application state: the list of macros, the editor open on one of them,
//! the set of running macros and the status line.
use vstd::prelude::*;
use vstd::string::StringExecFns;

use crate::executor::ExecutorEvent;
use crate::ids::{lemma_push_id, lemma_remove_id, position_of};
use crate::model::{
    clone_steps, display_combo, empty_macro, id_shape, lemma_combo_text_roundtrip, parse_combo,
    unset_combo, well_formed_combo, KeyCombo, MacroDef, MacroStyle, MacroView, StepAction,
    StepView,
};
use crate::text::{split_on, trim, trimmed_nonempty};
use crate::text::{decimal_digits, owned, push_decimal};

verus! {

/// The field of the editor that has the focus.
#[derive(Debug, Clone, Copy, PartialEq, Eq, Structural)]
pub enum EditField {
    Name,
    TriggerKey,
    Style,
    Steps,
}

/// The part of a step under edit that takes the keys.
#[derive(Debug, Clone, Copy, PartialEq, Eq, Structural)]
pub enum StepEditField {
    Kind,
    Value,
}

/// A step being edited: its kind and value as text.
#[derive(Debug, Clone)]
pub struct StepEditState {
    pub field: StepEditField,
    pub kind_buf: String,
    pub value_buf: String,
}

pub struct StepEditView {
    pub field: StepEditField,
    pub kind_buf: Seq<char>,
    pub value_buf: Seq<char>,
}

impl View for StepEditState {
    type V = StepEditView;

    open spec fn view(&self) -> StepEditView {
        StepEditView { field: self.field, kind_buf: self.kind_buf@, value_buf: self.value_buf@ }
    }
}

/// The editor's working copy of one macro.
#[derive(Debug, Clone)]
pub struct EditorState {
    pub macro_id: String,
    pub name_buf: String,
    pub trigger_buf: String,
    pub style: MacroStyle,
    pub steps: Vec<StepAction>,
    pub focused_field: EditField,
    pub step_cursor: usize,
    pub step_edit: Option<StepEditState>,
    pub editing_name: bool,
    pub editing_trigger: bool,
}

pub struct EditorView {
    pub macro_id: Seq<char>,
    pub name_buf: Seq<char>,
    pub trigger_buf: Seq<char>,
    pub style: MacroStyle,
    pub steps: Seq<StepView>,
    pub focused_field: EditField,
    pub step_cursor: usize,
    pub step_edit: Option<StepEditView>,
    pub editing_name: bool,
    pub editing_trigger: bool,
}

pub open spec fn step_edit_view(se: Option<StepEditState>) -> Option<StepEditView> {
    match se {
        Some(s) => Some(s@),
        None => None,
    }
}

impl View for EditorState {
    type V = EditorView;

    open spec fn view(&self) -> EditorView {
        EditorView {
            macro_id: self.macro_id@,
            name_buf: self.name_buf@,
            trigger_buf: self.trigger_buf@,
            style: self.style,
            steps: self.steps.deep_view(),
            focused_field: self.focused_field,
            step_cursor: self.step_cursor,
            step_edit: step_edit_view(self.step_edit),
            editing_name: self.editing_name,
            editing_trigger: self.editing_trigger,
        }
    }
}

/// The step cursor stands on a step, or at 0 when there is none.
pub open spec fn editor_wf(e: EditorView) -> bool {
    &&& e.steps.len() == 0 ==> e.step_cursor == 0
    &&& e.steps.len() > 0 ==> e.step_cursor < e.steps.len()
}

/// The editor as it opens on macro `m`: its fields copied, the name focused,
/// nothing under edit.
pub open spec fn editor_from(m: MacroView) -> EditorView {
    EditorView {
        macro_id: m.id,
        name_buf: m.name,
        trigger_buf: display_combo(m.trigger),
        style: m.style,
        steps: m.steps,
        focused_field: EditField::Name,
        step_cursor: 0,
        step_edit: None,
        editing_name: false,
        editing_trigger: false,
    }
}

/// Macro `m` with the editor's fields written into it; the trigger is read
/// back from its text.
pub open spec fn applied(e: EditorView, m: MacroView) -> MacroView {
    MacroView {
        id: m.id,
        name: e.name_buf,
        trigger: parse_combo(e.trigger_buf),
        style: e.style,
        steps: e.steps,
    }
}

impl EditorState {
    /// The editor opened on `m`.
    pub fn from_macro(m: &MacroDef) -> (res: EditorState)
        ensures
            res@ == editor_from(m@),
    {
        EditorState {
            macro_id: m.id.clone(),
            name_buf: m.name.clone(),
            trigger_buf: m.trigger.display(),
            style: m.style,
            steps: clone_steps(&m.steps),
            focused_field: EditField::Name,
            step_cursor: 0,
            step_edit: None,
            editing_name: false,
            editing_trigger: false,
        }
    }

    /// Writes the editor's name, style, steps and trigger into `m`.
    pub fn apply_to(&self, m: &mut MacroDef)
        ensures
            final(m)@ == applied(self@, old(m)@),
    {
        m.name = self.name_buf.clone();
        m.style = self.style;
        m.steps = clone_steps(&self.steps);
        m.trigger = KeyCombo::parse(self.trigger_buf.as_str());
    }
}

/// The pane that has the focus.
#[derive(Debug, Clone, Copy, PartialEq, Eq, Structural)]
pub enum Pane {
    MacroList,
    Editor,
}

/// The whole application state.
pub struct App {
    pub macros: Vec<MacroDef>,
    pub list_cursor: usize,
    pub active_pane: Pane,
    pub editor: Option<EditorState>,
    pub running_ids: Vec<String>,
    pub status_msg: String,
    pub should_quit: bool,
}

pub struct AppView {
    pub macros: Seq<MacroView>,
    pub list_cursor: usize,
    pub active_pane: Pane,
    pub editor: Option<EditorView>,
    pub running: Set<Seq<char>>,
    pub status_msg: Seq<char>,
    pub should_quit: bool,
}

pub open spec fn editor_view(e: Option<EditorState>) -> Option<EditorView> {
    match e {
        Some(ed) => Some(ed@),
        None => None,
    }
}

impl View for App {
    type V = AppView;

    open spec fn view(&self) -> AppView {
        AppView {
            macros: self.macros.deep_view(),
            list_cursor: self.list_cursor,
            active_pane: self.active_pane,
            editor: editor_view(self.editor),
            running: self.running_ids.deep_view().to_set(),
            status_msg: self.status_msg@,
            should_quit: self.should_quit,
        }
    }
}

/// The list cursor stands on a macro, or at 0 when there is none.
pub open spec fn cursor_wf(a: AppView) -> bool {
    &&& a.macros.len() == 0 ==> a.list_cursor == 0
    &&& a.macros.len() > 0 ==> a.list_cursor < a.macros.len()
}

/// The invariant of the application state, over its view.
pub open spec fn app_wf(a: AppView) -> bool {
    &&& cursor_wf(a)
    &&& match a.editor {
        Some(e) => editor_wf(e),
        None => true,
    }
}

impl App {
    /// The invariant of the application state: the cursors in range and no
    /// identifier twice among the running ones.
    pub open spec fn wf(&self) -> bool {
        &&& app_wf(self@)
        &&& self.running_ids.deep_view().no_duplicates()
    }
}

// ---------------------------------------------------------------------------
// Models of the operations
// ---------------------------------------------------------------------------

pub open spec fn with_status(a: AppView, msg: Seq<char>) -> AppView {
    AppView { status_msg: msg, ..a }
}

pub open spec fn open_editor_model(a: AppView) -> AppView {
    if a.list_cursor < a.macros.len() {
        AppView {
            editor: Some(editor_from(a.macros[a.list_cursor as int])),
            active_pane: Pane::Editor,
            ..a
        }
    } else {
        a
    }
}

/// The name of the `n`-th macro made with "new".
pub open spec fn new_macro_name(n: nat) -> Seq<char> {
    "Macro "@ + decimal_digits(n)
}

pub open spec fn add_macro_model(a: AppView, id: Seq<char>) -> AppView {
    let m = empty_macro(id, new_macro_name(a.macros.len() + 1));
    open_editor_model(
        AppView { macros: a.macros.push(m), list_cursor: a.macros.len() as usize, ..a },
    )
}

pub open spec fn remove_macro_model(a: AppView) -> AppView {
    if a.macros.len() == 0 {
        a
    } else {
        let i = a.list_cursor;
        let id = a.macros[i as int].id;
        let macros = a.macros.remove(i as int);
        let cursor = if i > 0 && i >= macros.len() {
            (macros.len() - 1) as usize
        } else {
            i
        };
        let editor = match a.editor {
            Some(e) => if e.macro_id == id {
                None
            } else {
                Some(e)
            },
            None => None,
        };
        AppView { macros, list_cursor: cursor, editor, ..a }
    }
}

/// The copy that "duplicate" makes of `m`: a new identifier, ` (copy)` after the name.
pub open spec fn copy_of(m: MacroView, id: Seq<char>) -> MacroView {
    MacroView { id, name: m.name + " (copy)"@, ..m }
}

pub open spec fn duplicate_macro_model(a: AppView, id: Seq<char>) -> AppView {
    if a.macros.len() == 0 {
        a
    } else {
        let at = a.list_cursor + 1;
        AppView {
            macros: a.macros.insert(at, copy_of(a.macros[a.list_cursor as int], id)),
            list_cursor: at as usize,
            ..a
        }
    }
}

/// `i` is the first position of a macro with identifier `id`.
pub open spec fn first_with_id(ms: Seq<MacroView>, id: Seq<char>, i: int) -> bool {
    &&& 0 <= i < ms.len()
    &&& ms[i].id == id
    &&& forall|j: int| 0 <= j < i ==> ms[j].id != id
}

pub open spec fn commit_editor_model(a: AppView) -> AppView {
    match a.editor {
        None => a,
        Some(e) => if exists|i: int| first_with_id(a.macros, e.macro_id, i) {
            let i = choose|i: int| first_with_id(a.macros, e.macro_id, i);
            AppView { macros: a.macros.update(i, applied(e, a.macros[i])), ..a }
        } else {
            a
        },
    }
}

pub open spec fn list_up_model(a: AppView) -> AppView {
    if a.list_cursor > 0 {
        AppView { list_cursor: (a.list_cursor - 1) as usize, ..a }
    } else {
        a
    }
}

pub open spec fn list_down_model(a: AppView) -> AppView {
    if a.macros.len() > 0 && a.list_cursor < a.macros.len() - 1 {
        AppView { list_cursor: (a.list_cursor + 1) as usize, ..a }
    } else {
        a
    }
}

/// What an event from the executor does to the state.
pub open spec fn executor_event_model(a: AppView, ev: ExecutorEvent) -> AppView {
    match ev {
        ExecutorEvent::MacroStarted(id) => AppView {
            running: a.running.insert(id@),
            status_msg: "Macro started"@,
            ..a
        },
        ExecutorEvent::MacroStopped(id) => AppView {
            running: a.running.remove(id@),
            status_msg: "Macro stopped"@,
            ..a
        },
        ExecutorEvent::MacroError { id, msg } => AppView {
            running: a.running.remove(id@),
            status_msg: "Error: "@ + msg@,
            ..a
        },
        ExecutorEvent::CommandThreadTerminated => a,
    }
}

/// The macro under the list cursor, if any.
pub open spec fn selected_macro(a: AppView) -> Option<MacroView> {
    if a.list_cursor < a.macros.len() {
        Some(a.macros[a.list_cursor as int])
    } else {
        None
    }
}

pub open spec fn trigger_selected_model(a: AppView) -> AppView {
    match selected_macro(a) {
        Some(m) => with_status(a, "Triggered '"@ + m.name + "'"@),
        None => a,
    }
}

/// The two sample macros that the application starts with.
pub open spec fn sample_macros(id1: Seq<char>, id2: Seq<char>) -> Seq<MacroView> {
    seq![
        MacroView {
            id: id1,
            name: "Test 1"@,
            trigger: parse_combo("ctrl+F1"@),
            style: MacroStyle::Trigger,
            steps: seq![
                StepView::PressKey("ctrl"@),
                StepView::PressKey("c"@),
                StepView::Wait(50),
                StepView::ReleaseKey("c"@),
                StepView::ReleaseKey("ctrl"@),
            ],
        },
        MacroView {
            id: id2,
            name: "Test 2"@,
            trigger: parse_combo("F2"@),
            style: MacroStyle::ToggleLoop,
            steps: seq![
                StepView::PressKey("num_0"@),
                StepView::Wait(30),
                StepView::ReleaseKey("num_0"@),
                StepView::Wait(30),
            ],
        },
    ]
}

pub open spec fn initial_app(id1: Seq<char>, id2: Seq<char>) -> AppView {
    AppView {
        macros: sample_macros(id1, id2),
        list_cursor: 0,
        active_pane: Pane::MacroList,
        editor: None,
        running: Set::empty(),
        status_msg: "Ready — [n] new  [Enter] edit  [F5] run  [q] quit"@,
        should_quit: false,
    }
}

// ---------------------------------------------------------------------------
// Operations
// ---------------------------------------------------------------------------

fn key_step(press: bool, k: &str) -> (res: StepAction)
    ensures
        res@ == (if press {
            StepView::PressKey(k@)
        } else {
            StepView::ReleaseKey(k@)
        }),
{
    if press {
        StepAction::PressKey(owned(k))
    } else {
        StepAction::ReleaseKey(owned(k))
    }
}

impl App {
    /// The application as it starts: two sample macros, the list focused.
    pub fn new() -> (res: App)
        ensures
            res@ == initial_app(res@.macros[0].id, res@.macros[1].id),
            id_shape(res@.macros[0].id),
            id_shape(res@.macros[1].id),
            res.wf(),
    {
        let mut app = App {
            macros: Vec::new(),
            list_cursor: 0,
            active_pane: Pane::MacroList,
            editor: None,
            running_ids: Vec::new(),
            status_msg: owned("Ready — [n] new  [Enter] edit  [F5] run  [q] quit"),
            should_quit: false,
        };
        let mut m1 = MacroDef::new_empty(owned("Test 1"));
        m1.trigger = KeyCombo::parse("ctrl+F1");
        m1.style = MacroStyle::Trigger;
        let mut s1: Vec<StepAction> = Vec::new();
        s1.push(key_step(true, "ctrl"));
        s1.push(key_step(true, "c"));
        s1.push(StepAction::Wait(50));
        s1.push(key_step(false, "c"));
        s1.push(key_step(false, "ctrl"));
        assert(s1.deep_view() =~= seq![
            StepView::PressKey("ctrl"@),
            StepView::PressKey("c"@),
            StepView::Wait(50),
            StepView::ReleaseKey("c"@),
            StepView::ReleaseKey("ctrl"@),
        ]);
        m1.steps = s1;
        let ghost v1 = m1@;
        app.macros.push(m1);
        let mut m2 = MacroDef::new_empty(owned("Test 2"));
        m2.trigger = KeyCombo::parse("F2");
        m2.style = MacroStyle::ToggleLoop;
        let mut s2: Vec<StepAction> = Vec::new();
        s2.push(key_step(true, "num_0"));
        s2.push(StepAction::Wait(30));
        s2.push(key_step(false, "num_0"));
        s2.push(StepAction::Wait(30));
        assert(s2.deep_view() =~= seq![
            StepView::PressKey("num_0"@),
            StepView::Wait(30),
            StepView::ReleaseKey("num_0"@),
            StepView::Wait(30),
        ]);
        m2.steps = s2;
        let ghost v2 = m2@;
        app.macros.push(m2);
        proof {
            assert(app@.macros =~= seq![v1, v2]);
            assert(app@.macros =~= sample_macros(v1.id, v2.id));
            assert(app.running_ids.deep_view() =~= Seq::<Seq<char>>::empty());
            assert(app@.running =~= Set::<Seq<char>>::empty());
        }
        app
    }

    /// Opens the editor on the macro under the cursor and focuses it.
    pub fn open_editor(&mut self)
        ensures
            final(self)@ == open_editor_model(old(self)@),
            old(self).wf() ==> final(self).wf(),
            final(self).running_ids == old(self).running_ids,
    {
        if self.list_cursor < self.macros.len() {
            let ed = EditorState::from_macro(&self.macros[self.list_cursor]);
            self.editor = Some(ed);
            self.active_pane = Pane::Editor;
        }
    }

    /// Adds a macro named `Macro <n>` (n the new count) at the end, selects it
    /// and opens the editor on it.
    pub fn add_macro(&mut self)
        ensures
            final(self)@ == add_macro_model(old(self)@, final(self)@.macros.last().id),
            id_shape(final(self)@.macros.last().id),
            old(self).wf() ==> final(self).wf(),
            final(self).running_ids == old(self).running_ids,
    {
        let m = MacroDef::new_empty(String::new());
        self.macros.push(m);
        let n = self.macros.len();
        let mut m = self.macros.pop().unwrap();
        let mut name = owned("Macro ");
        push_decimal(&mut name, n as u64);
        m.name = name;
        self.macros.push(m);
        self.list_cursor = self.macros.len() - 1;
        proof {
            let old_macros = old(self)@.macros;
            let mv = self@.macros.last();
            assert(self@.macros =~= old_macros.push(
                empty_macro(mv.id, new_macro_name(old_macros.len() + 1)),
            ));
        }
        self.open_editor();
    }

    /// Removes the macro under the cursor, keeps the cursor in range, and
    /// closes the editor if it was open on that macro.
    pub fn remove_macro(&mut self)
        requires
            cursor_wf(old(self)@),
        ensures
            final(self)@ == remove_macro_model(old(self)@),
            old(self).wf() ==> final(self).wf(),
            final(self).running_ids == old(self).running_ids,
    {
        if self.macros.len() == 0 {
            return;
        }
        let removed = self.macros.remove(self.list_cursor);
        if self.list_cursor > 0 && self.list_cursor >= self.macros.len() {
            self.list_cursor = if self.macros.len() > 0 {
                self.macros.len() - 1
            } else {
                0
            };
        }
        let clear = match &self.editor {
            Some(ed) => ed.macro_id == removed.id,
            None => false,
        };
        if clear {
            self.editor = None;
        }
        proof {
            assert(self@.macros =~= old(self)@.macros.remove(old(self)@.list_cursor as int));
        }
    }

    /// Inserts a copy of the macro under the cursor right after it, with a
    /// fresh identifier and ` (copy)` after its name, and selects the copy.
    pub fn duplicate_macro(&mut self)
        requires
            cursor_wf(old(self)@),
        ensures
            old(self)@.macros.len() > 0 ==> final(self)@ == duplicate_macro_model(
                old(self)@,
                final(self)@.macros[final(self)@.list_cursor as int].id,
            ) && id_shape(final(self)@.macros[final(self)@.list_cursor as int].id),
            old(self)@.macros.len() == 0 ==> final(self)@ == old(self)@,
            old(self).wf() ==> final(self).wf(),
            final(self).running_ids == old(self).running_ids,
    {
        if self.macros.len() == 0 {
            return;
        }
        let fresh = MacroDef::new_empty(String::new());
        let mut m = self.macros[self.list_cursor].clone();
        m.id = fresh.id;
        m.name.append(" (copy)");
        let at = self.list_cursor + 1;
        self.macros.insert(at, m);
        self.list_cursor = at;
        proof {
            let a = old(self)@;
            let mv = self@.macros[at as int];
            assert(self@.macros =~= a.macros.insert(at as int, copy_of(a.macros[a.list_cursor as int], mv.id)));
        }
    }

    /// Writes the editor into the first macro that has the editor's
    /// identifier; does nothing without an editor or such a macro.
    pub fn commit_editor(&mut self)
        ensures
            final(self)@ == commit_editor_model(old(self)@),
            old(self).wf() ==> final(self).wf(),
            final(self).running_ids == old(self).running_ids,
    {
        let ghost a = self@;
        match &self.editor {
            None => {},
            Some(ed) => {
                let ghost e = ed@;
                let mut i: usize = 0;
                while i < self.macros.len()
                    invariant
                        self@ == a,
                        a.editor == Some(e),
                        ed@ == e,
                        i <= self.macros.len(),
                        forall|j: int| 0 <= j < i ==> a.macros[j].id != e.macro_id,
                    ensures
                        i <= self.macros.len(),
                        forall|j: int| 0 <= j < i ==> a.macros[j].id != e.macro_id,
                        i < self.macros.len() ==> a.macros[i as int].id == e.macro_id,
                    decreases self.macros.len() - i,
                {
                    if self.macros[i].id == ed.macro_id {
                        break;
                    }
                    i = i + 1;
                }
                if i < self.macros.len() {
                    let mut m = self.macros.remove(i);
                    ed.apply_to(&mut m);
                    self.macros.insert(i, m);
                    proof {
                        assert(first_with_id(a.macros, e.macro_id, i as int));
                        let k = choose|k: int| first_with_id(a.macros, e.macro_id, k);
                        assert(k == i);
                        assert(self@.macros =~= a.macros.update(i as int, applied(e, a.macros[i as int])));
                    }
                } else {
                    proof {
                        assert(!exists|k: int| first_with_id(a.macros, e.macro_id, k));
                    }
                }
            },
        }
    }

    /// Moves the list cursor up one macro, if it can.
    pub fn list_up(&mut self)
        ensures
            final(self)@ == list_up_model(old(self)@),
            final(self).running_ids == old(self).running_ids,
    {
        if self.list_cursor > 0 {
            self.list_cursor = self.list_cursor - 1;
        }
    }

    /// Moves the list cursor down one macro, if it can.
    pub fn list_down(&mut self)
        ensures
            final(self)@ == list_down_model(old(self)@),
            final(self).running_ids == old(self).running_ids,
    {
        if self.macros.len() > 0 && self.list_cursor < self.macros.len() - 1 {
            self.list_cursor = self.list_cursor + 1;
        }
    }

    /// Replaces the status line.
    pub fn set_status(&mut self, msg: String)
        ensures
            final(self)@ == with_status(old(self)@, msg@),
            final(self).running_ids == old(self).running_ids,
    {
        self.status_msg = msg;
    }

    /// Whether the macro with identifier `id` is running.
    pub fn is_running(&self, id: &String) -> (res: bool)
        ensures
            res == self@.running.contains(id@),
    {
        position_of(&self.running_ids, id).is_some()
    }

    /// How many macros are running.
    pub fn running_count(&self) -> (res: usize)
        requires
            self.wf(),
        ensures
            res == self@.running.len(),
    {
        proof {
            self.running_ids.deep_view().unique_seq_to_set();
        }
        self.running_ids.len()
    }

    fn mark_running(&mut self, id: String)
        requires
            old(self).wf(),
        ensures
            final(self)@ == (AppView { running: old(self)@.running.insert(id@), ..old(self)@ }),
            final(self).wf(),
    {
        match position_of(&self.running_ids, &id) {
            Some(i) => {
                assert(self@.running =~= self@.running.insert(id@));
            },
            None => {
                let ghost before = self.running_ids.deep_view();
                self.running_ids.push(id);
                proof {
                    assert(self.running_ids.deep_view() =~= before.push(id@));
                    lemma_push_id(before, id@);
                }
            },
        }
    }

    fn mark_stopped(&mut self, id: &String)
        requires
            old(self).wf(),
        ensures
            final(self)@ == (AppView { running: old(self)@.running.remove(id@), ..old(self)@ }),
            final(self).wf(),
    {
        match position_of(&self.running_ids, id) {
            Some(i) => {
                let ghost before = self.running_ids.deep_view();
                self.running_ids.remove(i);
                proof {
                    assert(self.running_ids.deep_view() =~= before.remove(i as int));
                    lemma_remove_id(before, i as int);
                }
            },
            None => {
                assert(self@.running =~= self@.running.remove(id@));
            },
        }
    }

    /// Takes in a report from the executor: the set of running macros and
    /// the status line follow it.
    pub fn handle_executor_event(&mut self, ev: ExecutorEvent)
        requires
            old(self).wf(),
        ensures
            final(self)@ == executor_event_model(old(self)@, ev),
            final(self).wf(),
    {
        match ev {
            ExecutorEvent::MacroStarted(id) => {
                self.mark_running(id);
                self.status_msg = owned("Macro started");
            },
            ExecutorEvent::MacroStopped(id) => {
                self.mark_stopped(&id);
                self.status_msg = owned("Macro stopped");
            },
            ExecutorEvent::MacroError { id, msg } => {
                self.mark_stopped(&id);
                let mut s = owned("Error: ");
                s.append(msg.as_str());
                self.status_msg = s;
            },
            ExecutorEvent::CommandThreadTerminated => {},
        }
    }

    /// The macro under the cursor, to be run; the status line says so.
    pub fn trigger_selected(&mut self) -> (res: Option<MacroDef>)
        ensures
            match res {
                Some(m) => selected_macro(old(self)@) == Some(m@),
                None => selected_macro(old(self)@) is None,
            },
            final(self)@ == trigger_selected_model(old(self)@),
            final(self).running_ids == old(self).running_ids,
    {
        if self.list_cursor < self.macros.len() {
            let m = self.macros[self.list_cursor].clone();
            let mut s = owned("Triggered '");
            s.append(m.name.as_str());
            s.append("'");
            self.status_msg = s;
            Some(m)
        } else {
            None
        }
    }
}


// ---------------------------------------------------------------------------
// Laws
// ---------------------------------------------------------------------------

/// Writing back an editor opened on a macro leaves the macro unchanged, when
/// its trigger is well formed.
pub proof fn lemma_editor_roundtrip(m: MacroView)
    requires
        well_formed_combo(m.trigger),
    ensures
        applied(editor_from(m), m) == m,
{
    lemma_combo_text_roundtrip(m.trigger);
}

/// Opening the editor on the selected macro and committing it without a
/// change leaves the state as the opening left it, when the macro's trigger
/// is well formed and no macro before it has the same identifier.
pub proof fn lemma_open_then_commit(a: AppView)
    requires
        app_wf(a),
        a.macros.len() > 0,
        well_formed_combo(a.macros[a.list_cursor as int].trigger),
        forall|j: int| 0 <= j < a.list_cursor ==> (#[trigger] a.macros[j]).id != a.macros[a.list_cursor as int].id,
    ensures
        commit_editor_model(open_editor_model(a)) == open_editor_model(a),
{
    let b = open_editor_model(a);
    let c = a.list_cursor as int;
    let m = a.macros[c];
    lemma_editor_roundtrip(m);
    assert(first_with_id(b.macros, m.id, c));
    let i = choose|i: int| first_with_id(b.macros, m.id, i);
    assert(i == c);
    assert(b.macros.update(c, applied(editor_from(m), m)) =~= b.macros);
}

/// Moving the list cursor down and then up brings it back.
pub proof fn lemma_list_down_then_up(a: AppView)
    requires
        cursor_wf(a),
        a.list_cursor + 1 < a.macros.len(),
        a.macros.len() <= usize::MAX,
    ensures
        list_up_model(list_down_model(a)) == a,
{
    assert(list_down_model(a).list_cursor == a.list_cursor + 1);
}

/// Moving the list cursor up and then down brings it back.
pub proof fn lemma_list_up_then_down(a: AppView)
    requires
        cursor_wf(a),
        a.list_cursor > 0,
    ensures
        list_down_model(list_up_model(a)) == a,
{
}

/// Adding a macro and removing it again leaves the list of macros as it was.
pub proof fn lemma_add_then_remove(a: AppView, id: Seq<char>)
    requires
        app_wf(a),
        a.macros.len() < usize::MAX,
    ensures
        remove_macro_model(add_macro_model(a, id)).macros == a.macros,
{
    let b = add_macro_model(a, id);
    assert(b.macros.remove(a.macros.len() as int) =~= a.macros);
}

/// A run that starts and then stops leaves the set of running macros as it was.
pub proof fn lemma_started_then_stopped(a: AppView, ev1: ExecutorEvent, ev2: ExecutorEvent)
    requires
        ev1 matches ExecutorEvent::MacroStarted(id1) && ev2 matches ExecutorEvent::MacroStopped(id2)
            && id1@ == id2@ && !a.running.contains(id1@),
    ensures
        executor_event_model(executor_event_model(a, ev1), ev2).running == a.running,
{
    let id = ev1->MacroStarted_0@;
    assert(a.running.insert(id).remove(id) =~= a.running);
}

/// Writing the editor into its macro replaces the first macro with the
/// editor's identifier by one that keeps its identifier and takes the
/// editor's name, style and steps, and the combination that the editor's
/// trigger text reads as, whatever trigger the macro had; the other macros
/// and the rest of the state stay as they were.
pub proof fn lemma_commit_writes_editor(a: AppView, i: int)
    requires
        a.editor is Some,
        first_with_id(a.macros, a.editor->0.macro_id, i),
    ensures
        ({
            let e = a.editor->0;
            let c = commit_editor_model(a);
            &&& c == (AppView { macros: c.macros, ..a })
            &&& c.macros.len() == a.macros.len()
            &&& first_with_id(c.macros, e.macro_id, i)
            &&& c.macros[i] == (MacroView {
                id: a.macros[i].id,
                name: e.name_buf,
                trigger: parse_combo(e.trigger_buf),
                style: e.style,
                steps: e.steps,
            })
            &&& forall|j: int| 0 <= j < a.macros.len() && j != i ==> c.macros[j] == a.macros[j]
        }),
{
    let e = a.editor->0;
    let k = choose|k: int| first_with_id(a.macros, e.macro_id, k);
    assert(k == i);
}

/// Without a macro that has the editor's identifier, writing the editor back
/// changes nothing.
pub proof fn lemma_commit_without_macro(a: AppView)
    requires
        a.editor is Some,
        !exists|i: int| first_with_id(a.macros, a.editor->0.macro_id, i),
    ensures
        commit_editor_model(a) == a,
{
}

/// An empty trigger text reads as the unset combination.
pub proof fn lemma_parse_empty_combo()
    ensures
        parse_combo(Seq::<char>::empty()) == unset_combo(),
{
    let s = Seq::<char>::empty();
    let pieces = split_on(s, '+');
    assert(pieces == seq![Seq::<char>::empty()]);
    assert(trim(Seq::<char>::empty()) == Seq::<char>::empty());
    assert(pieces.drop_last() =~= Seq::<Seq<char>>::empty());
    assert(trimmed_nonempty(pieces.drop_last()) == Seq::<Seq<char>>::empty());
    assert(trimmed_nonempty(pieces) == Seq::<Seq<char>>::empty());
}

/// The trigger that writing an editor into a macro gives is what the
/// editor's trigger text reads as, and nothing of the macro's old trigger:
/// two macros written from the same editor get the same trigger, and an
/// empty text gives the unset combination.
pub proof fn lemma_applied_trigger(e: EditorView, m1: MacroView, m2: MacroView)
    ensures
        applied(e, m1).trigger == parse_combo(e.trigger_buf),
        applied(e, m1).trigger == applied(e, m2).trigger,
        e.trigger_buf.len() == 0 ==> applied(e, m1).trigger == unset_combo(),
{
    if e.trigger_buf.len() == 0 {
        assert(e.trigger_buf =~= Seq::<char>::empty());
        lemma_parse_empty_combo();
    }
}

/// Duplicating inserts, right after the selected macro, a copy that differs
/// from it only in its identifier and in ` (copy)` after its name (its
/// trigger, style and steps are the same), and selects the copy; the other
/// macros keep their order and the rest of the state stays as it was.
pub proof fn lemma_duplicate_copies(a: AppView, id: Seq<char>)
    requires
        cursor_wf(a),
        0 < a.macros.len() <= usize::MAX,
    ensures
        ({
            let b = duplicate_macro_model(a, id);
            let c = a.list_cursor as int;
            let m = a.macros[c];
            let d = b.macros[c + 1];
            &&& b == (AppView { macros: b.macros, list_cursor: b.list_cursor, ..a })
            &&& b.macros.len() == a.macros.len() + 1
            &&& b.list_cursor == c + 1
            &&& d.id == id
            &&& d.name == m.name + " (copy)"@
            &&& d.trigger == m.trigger
            &&& d.style == m.style
            &&& d.steps == m.steps
            &&& forall|j: int| 0 <= j <= c ==> b.macros[j] == a.macros[j]
            &&& forall|j: int| c < j < a.macros.len() ==> b.macros[j + 1] == a.macros[j]
        }),
{
    let c = a.list_cursor as int;
    let ms = a.macros.insert(c + 1, copy_of(a.macros[c], id));
    assert(duplicate_macro_model(a, id).macros == ms);
    assert(ms[c + 1] == copy_of(a.macros[c], id));
    assert forall|j: int| 0 <= j <= c implies ms[j] == a.macros[j] by {}
    assert forall|j: int| c < j < a.macros.len() implies ms[j + 1] == a.macros[j] by {}
}

/// Removing takes out exactly the selected macro: the macros before and
/// after it stay, in order. The cursor stays, or moves back one when it stood
/// on the last macro; the editor closes if it was open on the removed macro;
/// nothing else changes.
pub proof fn lemma_remove_selected(a: AppView)
    requires
        cursor_wf(a),
        a.macros.len() > 0,
    ensures
        ({
            let b = remove_macro_model(a);
            let c = a.list_cursor as int;
            let n = a.macros.len() as int;
            &&& b.macros == a.macros.subrange(0, c) + a.macros.subrange(c + 1, n)
            &&& b.list_cursor == (if c > 0 && c == n - 1 {
                c - 1
            } else {
                c
            })
            &&& b.editor == (if a.editor matches Some(e) && e.macro_id == a.macros[c].id {
                None
            } else {
                a.editor
            })
            &&& b == (AppView {
                macros: b.macros,
                list_cursor: b.list_cursor,
                editor: b.editor,
                ..a
            })
        }),
{
    let c = a.list_cursor as int;
    let n = a.macros.len() as int;
    assert(a.macros.remove(c) =~= a.macros.subrange(0, c) + a.macros.subrange(c + 1, n));
}

/// Adding puts at the end of the list a macro with the given identifier,
/// named `Macro <n>` for the new count `n`, with no trigger, the `Trigger`
/// style and no steps; it selects it and opens the editor on it.
pub proof fn lemma_add_appends(a: AppView, id: Seq<char>)
    requires
        a.macros.len() < usize::MAX,
    ensures
        ({
            let b = add_macro_model(a, id);
            let n = a.macros.len();
            let m = b.macros[n as int];
            &&& b.macros.len() == n + 1
            &&& b.macros.subrange(0, n as int) == a.macros
            &&& m.id == id
            &&& m.name == "Macro "@ + decimal_digits(n + 1)
            &&& m.trigger == unset_combo()
            &&& m.style == MacroStyle::Trigger
            &&& m.steps.len() == 0
            &&& b.list_cursor == n
            &&& b.active_pane == Pane::Editor
            &&& b.editor == Some(editor_from(m))
            &&& b == (AppView {
                macros: b.macros,
                list_cursor: b.list_cursor,
                active_pane: b.active_pane,
                editor: b.editor,
                ..a
            })
        }),
{
    let n = a.macros.len();
    let b = add_macro_model(a, id);
    assert(b.macros.subrange(0, n as int) =~= a.macros);
}

/// Opening the editor copies the selected macro into it (identifier, name,
/// style, steps, and the trigger as text), with the name focused, the step
/// cursor on the first step and nothing under edit, and focuses the editor.
pub proof fn lemma_open_editor_copies(a: AppView)
    requires
        cursor_wf(a),
        a.macros.len() > 0,
    ensures
        ({
            let m = a.macros[a.list_cursor as int];
            let b = open_editor_model(a);
            let e = b.editor->0;
            &&& b == (AppView { editor: b.editor, active_pane: Pane::Editor, ..a })
            &&& b.editor is Some
            &&& e.macro_id == m.id
            &&& e.name_buf == m.name
            &&& e.trigger_buf == display_combo(m.trigger)
            &&& e.style == m.style
            &&& e.steps == m.steps
            &&& e.focused_field == EditField::Name
            &&& e.step_cursor == 0
            &&& e.step_edit is None
            &&& !e.editing_name && !e.editing_trigger
        }),
{
}

/// A report that a macro started puts it among the running ones; a report
/// that it stopped or failed takes it out; the other macros' running state is
/// untouched.
pub proof fn lemma_executor_events_track(a: AppView, ev: ExecutorEvent, x: Seq<char>)
    ensures
        ({
            let b = executor_event_model(a, ev);
            &&& ev matches ExecutorEvent::MacroStarted(id) ==> b.running.contains(id@)
            &&& ev matches ExecutorEvent::MacroStopped(id) ==> !b.running.contains(id@)
            &&& ev matches ExecutorEvent::MacroError { id, .. } ==> !b.running.contains(id@)
            &&& (ev matches ExecutorEvent::MacroStarted(id) && id@ != x) ==> (b.running.contains(x)
                == a.running.contains(x))
            &&& (ev matches ExecutorEvent::MacroStopped(id) && id@ != x) ==> (b.running.contains(x)
                == a.running.contains(x))
            &&& (ev matches ExecutorEvent::MacroError { id, .. } && id@ != x) ==> (
            b.running.contains(x) == a.running.contains(x))
            &&& ev is CommandThreadTerminated ==> b == a
            &&& b == (AppView { running: b.running, status_msg: b.status_msg, ..a })
        }),
{
}

/// Every operation keeps the invariant of the state (stated over the models).
pub proof fn lemma_operations_keep_wf(a: AppView, id: Seq<char>)
    requires
        app_wf(a),
    ensures
        app_wf(open_editor_model(a)),
        app_wf(add_macro_model(a, id)),
        app_wf(remove_macro_model(a)),
        app_wf(duplicate_macro_model(a, id)),
        app_wf(commit_editor_model(a)),
        app_wf(list_up_model(a)),
        app_wf(list_down_model(a)),
        app_wf(trigger_selected_model(a)),
{
}

} // verus!
