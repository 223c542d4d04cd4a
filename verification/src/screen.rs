//! The texts that the screen shows for the state: list rows, editor fields,
//! step rows and the running count.
use vstd::prelude::*;
use vstd::string::StringExecFns;

use crate::app::EditorState;
use crate::model::{
    build_step, display_combo, step_display, style_label, MacroDef, MacroStyle, StepAction,
};
use crate::text::{decimal_digits, owned, push_char, push_decimal};

verus! {

/// The second line of a macro's row in the list: its trigger and its style.
pub open spec fn macro_meta_model(m: crate::model::MacroView) -> Seq<char> {
    "  "@ + display_combo(m.trigger) + " · "@ + style_label(m.style)
}

/// The second line of a macro's row in the list, e.g. `  ctrl+F1 · Trigger`.
pub fn macro_meta(m: &MacroDef) -> (res: String)
    ensures
        res@ == macro_meta_model(m@),
{
    let mut s = owned("  ");
    let t = m.trigger.display();
    s.append(t.as_str());
    s.append(" · ");
    s.append(m.style.label());
    s
}

/// A text field as shown: with a block cursor after it while under edit.
pub fn field_text(buf: &String, editing: bool) -> (res: String)
    ensures
        res@ == (if editing {
            buf@.push('▌')
        } else {
            buf@
        }),
{
    let mut s = buf.clone();
    if editing {
        push_char(&mut s, '▌');
    }
    s
}

/// The two lines of the style field; the chosen style is marked.
pub fn style_choices(style: MacroStyle) -> (res: (&'static str, &'static str))
    ensures
        style == MacroStyle::Trigger ==> res.0@ == "▶ Trigger"@ && res.1@ == "  Toggle Loop"@,
        style == MacroStyle::ToggleLoop ==> res.0@ == "  Trigger"@ && res.1@ == "▶ Toggle Loop"@,
{
    match style {
        MacroStyle::Trigger => ("▶ Trigger", "  Toggle Loop"),
        MacroStyle::ToggleLoop => ("  Trigger", "▶ Toggle Loop"),
    }
}

/// `s` padded on the left with spaces to at least `width` characters.
pub open spec fn pad_left(s: Seq<char>, width: nat) -> Seq<char> {
    if s.len() >= width {
        s
    } else {
        Seq::new((width - s.len()) as nat, |i: int| ' ') + s
    }
}

/// The number column of a step row: a marker on the current row, then the
/// position counted from 1, right-aligned in two columns.
pub open spec fn step_number_model(index: nat, current: bool) -> Seq<char> {
    (if current {
        "▶"@
    } else {
        " "@
    }) + " "@ + pad_left(decimal_digits(index + 1), 2) + ". "@
}

/// The number column of the step row at `index`, e.g. `▶  3. `.
pub fn step_number(index: usize, current: bool) -> (res: String)
    requires
        index < usize::MAX,
    ensures
        res@ == step_number_model(index as nat, current),
{
    let mut s = if current {
        owned("▶")
    } else {
        owned(" ")
    };
    s.append(" ");
    let ghost before = s@;
    let n = index + 1;
    if n < 10 {
        push_char(&mut s, ' ');
    }
    push_decimal(&mut s, n as u64);
    proof {
        let d = decimal_digits(n as nat);
        reveal_with_fuel(decimal_digits, 2);
        if n < 10 {
            assert(d.len() == 1);
            assert(Seq::new(1, |i: int| ' ') =~= seq![' ']);
            assert(s@ =~= before + (Seq::new(1, |i: int| ' ') + d));
        } else {
            assert(d.len() >= 2);
            assert(s@ =~= before + d);
        }
    }
    s.append(". ");
    s
}

/// The text of the step row at `index`, and whether it shows the step under
/// edit: that is the case for the current row of a focused step list while
/// the step editor is open, and then the row shows the step being built.
pub open spec fn step_body_model(
    steps: Seq<crate::model::StepView>,
    cursor: usize,
    edit: Option<crate::app::StepEditView>,
    index: int,
    focused: bool,
) -> (Seq<char>, bool) {
    if index == cursor && focused && edit is Some {
        (step_display(build_step(edit->0.kind_buf, edit->0.value_buf)), true)
    } else {
        (step_display(steps[index]), false)
    }
}

/// The text of the step row at `index` in the editor.
pub fn step_body(ed: &EditorState, index: usize, focused: bool) -> (res: (String, bool))
    requires
        index < ed.steps@.len(),
    ensures
        (res.0@, res.1) == step_body_model(
            ed@.steps,
            ed.step_cursor,
            ed@.step_edit,
            index as int,
            focused,
        ),
{
    if index == ed.step_cursor && focused {
        match &ed.step_edit {
            Some(se) => {
                let temp = StepAction::build(se.kind_buf.as_str(), se.value_buf.as_str());
                return (temp.display(), true);
            },
            None => {},
        }
    }
    (ed.steps[index].display(), false)
}

/// The running count in the footer, e.g. `● 2 running`.
pub fn running_label(n: usize) -> (res: String)
    ensures
        res@ == "● "@ + decimal_digits(n as nat) + " running"@,
{
    let mut s = owned("● ");
    push_decimal(&mut s, n as u64);
    s.append(" running");
    s
}

} // verus!
