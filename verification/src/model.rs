//! Macros and their parts: trigger key combinations, run styles and steps.
use vstd::prelude::*;
use vstd::string::StringExecFns;

use crate::text::{
    chars_of, clean_piece, decimal_digits, decimal_string, join_strings, join_with,
    lemma_parse_decimal_roundtrip, lemma_split_join, lemma_split_pieces_clean,
    lemma_trimmed_nonempty_clean, lemma_trimmed_nonempty_of_clean, owned, parse_u64,
    parse_u64_model, push_decimal, split_on, split_trimmed, trim, trimmed, trimmed_nonempty,
};

verus! {

// ---------------------------------------------------------------------------
// Key combinations
// ---------------------------------------------------------------------------

/// A key combination such as `ctrl+shift+F5`: the modifiers, then the key.
#[derive(Debug, PartialEq, Eq)]
pub struct KeyCombo {
    pub modifiers: Vec<String>,
    pub key: String,
}

/// The mathematical value of a `KeyCombo`.
pub struct KeyComboView {
    pub modifiers: Seq<Seq<char>>,
    pub key: Seq<char>,
}

impl View for KeyCombo {
    type V = KeyComboView;

    open spec fn view(&self) -> KeyComboView {
        KeyComboView { modifiers: self.modifiers.deep_view(), key: self.key@ }
    }
}

impl DeepView for KeyCombo {
    type V = KeyComboView;

    open spec fn deep_view(&self) -> KeyComboView {
        self@
    }
}

/// The combination with no modifiers and no key ("unset").
pub open spec fn unset_combo() -> KeyComboView {
    KeyComboView { modifiers: Seq::empty(), key: Seq::empty() }
}

/// The `+`-separated parts of a combination as written: trimmed, empty ones dropped.
pub open spec fn combo_parts(s: Seq<char>) -> Seq<Seq<char>> {
    trimmed_nonempty(split_on(s, '+'))
}

/// What `KeyCombo::parse` makes of `s`: the last part is the key, the parts
/// before it the modifiers; with no parts, the unset combination.
pub open spec fn parse_combo(s: Seq<char>) -> KeyComboView {
    let parts = combo_parts(s);
    if parts.len() == 0 {
        unset_combo()
    } else {
        KeyComboView { modifiers: parts.drop_last(), key: parts.last() }
    }
}

/// How a combination is shown: `(unset)` when it has no key, else its parts
/// joined with `+`.
pub open spec fn display_combo(k: KeyComboView) -> Seq<char> {
    if k.key.len() == 0 {
        "(unset)"@
    } else {
        join_with(k.modifiers.push(k.key), "+"@)
    }
}

/// A combination whose text shows it exactly: it has a key, and every part
/// is non-empty, trimmed and free of `+`.
pub open spec fn well_formed_combo(k: KeyComboView) -> bool {
    &&& k.key.len() > 0
    &&& forall|i: int| 0 <= i < k.modifiers.len() ==> clean_piece(#[trigger] k.modifiers[i], '+')
    &&& clean_piece(k.key, '+')
}

/// A copy of each string of `v`.
pub fn clone_strings(v: &Vec<String>) -> (res: Vec<String>)
    ensures
        res.deep_view() == v.deep_view(),
{
    let mut res: Vec<String> = Vec::new();
    let mut i: usize = 0;
    while i < v.len()
        invariant
            i <= v.len(),
            res.deep_view() == v.deep_view().subrange(0, i as int),
        decreases v.len() - i,
    {
        let x = v[i].clone();
        let ghost before = res.deep_view();
        res.push(x);
        proof {
            assert(res.deep_view() =~= before.push(v@[i as int].deep_view()));
            assert(res.deep_view() =~= v.deep_view().subrange(0, i + 1));
        }
        i = i + 1;
    }
    proof {
        assert(v.deep_view().subrange(0, v.len() as int) =~= v.deep_view());
    }
    res
}

impl Clone for KeyCombo {
    fn clone(&self) -> (res: Self)
        ensures
            res@ == self@,
    {
        KeyCombo { modifiers: clone_strings(&self.modifiers), key: self.key.clone() }
    }
}

impl KeyCombo {
    /// The unset combination.
    pub fn empty() -> (res: KeyCombo)
        ensures
            res@ == unset_combo(),
    {
        let res = KeyCombo { modifiers: Vec::new(), key: String::new() };
        assert(res@.modifiers =~= Seq::<Seq<char>>::empty());
        res
    }

    /// The text of the combination: `(unset)` without a key, else e.g. `ctrl+F1`.
    pub fn display(&self) -> (res: String)
        ensures
            res@ == display_combo(self@),
    {
        if self.key.as_str().is_empty() {
            return owned("(unset)");
        }
        let mut parts = clone_strings(&self.modifiers);
        parts.push(self.key.clone());
        assert(parts.deep_view() =~= self@.modifiers.push(self@.key));
        join_strings(&parts, "+")
    }

    /// Reads a combination written as `[mod+]...key`; spaces around the parts
    /// and empty parts are ignored.
    pub fn parse(s: &str) -> (res: KeyCombo)
        ensures
            res@ == parse_combo(s@),
    {
        let mut parts = split_trimmed(s, '+');
        if parts.len() == 0 {
            return KeyCombo::empty();
        }
        let ghost all = parts.deep_view();
        let key = parts.pop().unwrap();
        assert(parts.deep_view() =~= all.drop_last());
        KeyCombo { modifiers: parts, key }
    }
}

// ---------------------------------------------------------------------------
// Styles
// ---------------------------------------------------------------------------

/// How a macro runs when triggered: once, or looping until triggered again.
#[derive(Debug, Clone, Copy, PartialEq, Eq, Structural)]
pub enum MacroStyle {
    Trigger,
    ToggleLoop,
}

pub open spec fn style_label(s: MacroStyle) -> Seq<char> {
    match s {
        MacroStyle::Trigger => "Trigger"@,
        MacroStyle::ToggleLoop => "Toggle Loop"@,
    }
}

impl MacroStyle {
    /// The name of the style as shown to the user.
    pub fn label(&self) -> (res: &'static str)
        ensures
            res@ == style_label(*self),
    {
        match self {
            MacroStyle::Trigger => "Trigger",
            MacroStyle::ToggleLoop => "Toggle Loop",
        }
    }
}

// ---------------------------------------------------------------------------
// Steps
// ---------------------------------------------------------------------------

/// One step of a macro.
#[derive(Debug)]
pub enum StepAction {
    PressKey(String),
    ReleaseKey(String),
    Wait(u64),
}

/// The mathematical value of a `StepAction`.
pub enum StepView {
    PressKey(Seq<char>),
    ReleaseKey(Seq<char>),
    Wait(u64),
}

impl View for StepAction {
    type V = StepView;

    open spec fn view(&self) -> StepView {
        match self {
            StepAction::PressKey(k) => StepView::PressKey(k@),
            StepAction::ReleaseKey(k) => StepView::ReleaseKey(k@),
            StepAction::Wait(ms) => StepView::Wait(*ms),
        }
    }
}

impl DeepView for StepAction {
    type V = StepView;

    open spec fn deep_view(&self) -> StepView {
        self@
    }
}

impl Clone for StepAction {
    fn clone(&self) -> (res: Self)
        ensures
            res@ == self@,
    {
        match self {
            StepAction::PressKey(k) => StepAction::PressKey(k.clone()),
            StepAction::ReleaseKey(k) => StepAction::ReleaseKey(k.clone()),
            StepAction::Wait(ms) => StepAction::Wait(*ms),
        }
    }
}

/// The names of the step kinds, in the order in which the editor cycles them.
pub open spec fn step_kinds() -> Seq<Seq<char>> {
    seq!["PressKey"@, "ReleaseKey"@, "Wait"@]
}

/// How a step is shown in a list.
pub open spec fn step_display(s: StepView) -> Seq<char> {
    match s {
        StepView::PressKey(k) => "Press    "@ + k,
        StepView::ReleaseKey(k) => "Release  "@ + k,
        StepView::Wait(ms) => "Wait     "@ + decimal_digits(ms as nat) + " ms"@,
    }
}

pub open spec fn step_kind(s: StepView) -> Seq<char> {
    match s {
        StepView::PressKey(_) => "PressKey"@,
        StepView::ReleaseKey(_) => "ReleaseKey"@,
        StepView::Wait(_) => "Wait"@,
    }
}

/// The editable value of a step: the key, or the milliseconds in decimal.
pub open spec fn step_value(s: StepView) -> Seq<char> {
    match s {
        StepView::PressKey(k) => k,
        StepView::ReleaseKey(k) => k,
        StepView::Wait(ms) => decimal_digits(ms as nat),
    }
}

/// The step that a kind name and a value text make: keys are trimmed; a wait
/// whose text is not a number waits 100 ms; an unknown kind waits 0 ms.
pub open spec fn build_step(kind: Seq<char>, value: Seq<char>) -> StepView {
    if kind == "PressKey"@ {
        StepView::PressKey(trim(value))
    } else if kind == "ReleaseKey"@ {
        StepView::ReleaseKey(trim(value))
    } else if kind == "Wait"@ {
        match parse_u64_model(trim(value)) {
            Some(ms) => StepView::Wait(ms),
            None => StepView::Wait(100),
        }
    } else {
        StepView::Wait(0)
    }
}

/// The value a step of the given kind starts with in the editor.
pub open spec fn default_value(kind: Seq<char>) -> Seq<char> {
    if kind == "PressKey"@ || kind == "ReleaseKey"@ {
        "a"@
    } else {
        "100"@
    }
}

/// Whether two texts hold the same characters.
pub fn same_text(a: &str, b: &str) -> (res: bool)
    ensures
        res == (a@ == b@),
{
    let va = chars_of(a);
    let vb = chars_of(b);
    if va.len() != vb.len() {
        return false;
    }
    let mut i: usize = 0;
    while i < va.len()
        invariant
            va@ == a@,
            vb@ == b@,
            va.len() == vb.len(),
            i <= va.len(),
            forall|j: int| 0 <= j < i ==> va@[j] == vb@[j],
        decreases va.len() - i,
    {
        if va[i] != vb[i] {
            return false;
        }
        i = i + 1;
    }
    assert(va@ =~= vb@);
    true
}

impl StepAction {
    /// The line that shows the step in a list, e.g. `Wait     50 ms`.
    pub fn display(&self) -> (res: String)
        ensures
            res@ == step_display(self@),
    {
        match self {
            StepAction::PressKey(k) => {
                let mut s = owned("Press    ");
                s.append(k.as_str());
                s
            },
            StepAction::ReleaseKey(k) => {
                let mut s = owned("Release  ");
                s.append(k.as_str());
                s
            },
            StepAction::Wait(ms) => {
                let mut s = owned("Wait     ");
                push_decimal(&mut s, *ms);
                s.append(" ms");
                s
            },
        }
    }

    /// The name of the step's kind.
    pub fn kind_label(&self) -> (res: &'static str)
        ensures
            res@ == step_kind(self@),
    {
        match self {
            StepAction::PressKey(_) => "PressKey",
            StepAction::ReleaseKey(_) => "ReleaseKey",
            StepAction::Wait(_) => "Wait",
        }
    }

    /// The step's value as editable text.
    pub fn value_string(&self) -> (res: String)
        ensures
            res@ == step_value(self@),
    {
        match self {
            StepAction::PressKey(k) => k.clone(),
            StepAction::ReleaseKey(k) => k.clone(),
            StepAction::Wait(ms) => decimal_string(*ms),
        }
    }

    /// The step made from a kind name and a value text.
    pub fn build(kind: &str, value: &str) -> (res: StepAction)
        ensures
            res@ == build_step(kind@, value@),
    {
        if same_text(kind, "PressKey") {
            StepAction::PressKey(trimmed(value))
        } else if same_text(kind, "ReleaseKey") {
            StepAction::ReleaseKey(trimmed(value))
        } else if same_text(kind, "Wait") {
            let t = trimmed(value);
            match parse_u64(t.as_str()) {
                Some(ms) => StepAction::Wait(ms),
                None => StepAction::Wait(100),
            }
        } else {
            StepAction::Wait(0)
        }
    }

    /// The value text a new step of the given kind starts with.
    pub fn default_value_for_kind(kind: &str) -> (res: &'static str)
        ensures
            res@ == default_value(kind@),
    {
        if same_text(kind, "PressKey") || same_text(kind, "ReleaseKey") {
            "a"
        } else {
            "100"
        }
    }
}

/// A copy of each step of `v`.
pub fn clone_steps(v: &Vec<StepAction>) -> (res: Vec<StepAction>)
    ensures
        res.deep_view() == v.deep_view(),
{
    let mut res: Vec<StepAction> = Vec::new();
    let mut i: usize = 0;
    while i < v.len()
        invariant
            i <= v.len(),
            res.deep_view() == v.deep_view().subrange(0, i as int),
        decreases v.len() - i,
    {
        let x = v[i].clone();
        let ghost before = res.deep_view();
        res.push(x);
        proof {
            assert(res.deep_view() =~= before.push(v@[i as int].deep_view()));
            assert(res.deep_view() =~= v.deep_view().subrange(0, i + 1));
        }
        i = i + 1;
    }
    proof {
        assert(v.deep_view().subrange(0, v.len() as int) =~= v.deep_view());
    }
    res
}


// ---------------------------------------------------------------------------
// Macros
// ---------------------------------------------------------------------------

/// A named macro: a trigger, a run style and the steps it plays.
#[derive(Debug)]
pub struct MacroDef {
    pub id: String,
    pub name: String,
    pub trigger: KeyCombo,
    pub style: MacroStyle,
    pub steps: Vec<StepAction>,
}

/// The mathematical value of a `MacroDef`.
pub struct MacroView {
    pub id: Seq<char>,
    pub name: Seq<char>,
    pub trigger: KeyComboView,
    pub style: MacroStyle,
    pub steps: Seq<StepView>,
}

impl View for MacroDef {
    type V = MacroView;

    open spec fn view(&self) -> MacroView {
        MacroView {
            id: self.id@,
            name: self.name@,
            trigger: self.trigger@,
            style: self.style,
            steps: self.steps.deep_view(),
        }
    }
}

impl DeepView for MacroDef {
    type V = MacroView;

    open spec fn deep_view(&self) -> MacroView {
        self@
    }
}

impl Clone for MacroDef {
    fn clone(&self) -> (res: Self)
        ensures
            res@ == self@,
    {
        MacroDef {
            id: self.id.clone(),
            name: self.name.clone(),
            trigger: self.trigger.clone(),
            style: self.style,
            steps: clone_steps(&self.steps),
        }
    }
}

/// A lowercase hexadecimal digit.
pub open spec fn is_lower_hex(c: char) -> bool {
    ('0' <= c && c <= '9') || ('a' <= c && c <= 'f')
}

/// Where the hyphenated form of a UUID has its hyphens.
pub open spec fn is_hyphen_position(i: int) -> bool {
    i == 8 || i == 13 || i == 18 || i == 23
}

/// The shape of a macro identifier: the lowercase hyphenated form of a
/// version 4 UUID. It has 36 characters, `-` at positions 8, 13, 18 and 23
/// and lowercase hex digits elsewhere; the version digit at position 14 is
/// `4`, and the variant digit at position 19 is one of `8`, `9`, `a`, `b`.
pub open spec fn id_shape(id: Seq<char>) -> bool {
    &&& id.len() == 36
    &&& forall|i: int|
        0 <= i < 36 ==> if is_hyphen_position(i) {
            id[i] == '-'
        } else {
            is_lower_hex(#[trigger] id[i])
        }
    &&& id[14] == '4'
    &&& (id[19] == '8' || id[19] == '9' || id[19] == 'a' || id[19] == 'b')
}

/// `uuid::Uuid::new_v4` followed by `to_string`: a fresh random (version 4,
/// RFC 4122 variant) UUID in its lowercase hyphenated form. The contract
/// states the form of the text;
/// which identifier comes out rests on the random number generator and is
/// not stated, nor that it differs from earlier ones. The call panics when
/// the operating system cannot supply random bytes.
#[verifier::external_body]
fn fresh_id() -> (id: String)
    ensures
        id_shape(id@),
{
    uuid::Uuid::new_v4().to_string()
}

/// A macro that has only a name: no trigger, the `Trigger` style and no steps.
pub open spec fn empty_macro(id: Seq<char>, name: Seq<char>) -> MacroView {
    MacroView { id, name, trigger: unset_combo(), style: MacroStyle::Trigger, steps: Seq::empty() }
}

impl MacroDef {
    /// A new macro with the given name and a fresh identifier.
    pub fn new_empty(name: String) -> (res: MacroDef)
        ensures
            res@ == empty_macro(res@.id, name@),
            id_shape(res@.id),
    {
        let res = MacroDef {
            id: fresh_id(),
            name,
            trigger: KeyCombo::empty(),
            style: MacroStyle::Trigger,
            steps: Vec::new(),
        };
        assert(res@.steps =~= Seq::<StepView>::empty());
        res
    }
}


// ---------------------------------------------------------------------------
// Laws
// ---------------------------------------------------------------------------

/// A combination read from text is well formed whenever it has a key.
pub proof fn lemma_parsed_combo_well_formed(s: Seq<char>)
    ensures
        parse_combo(s).key.len() > 0 ==> well_formed_combo(parse_combo(s)),
{
    let pieces = split_on(s, '+');
    lemma_split_pieces_clean(s, '+');
    lemma_trimmed_nonempty_clean(pieces, '+');
    let parts = combo_parts(s);
    if parts.len() > 0 {
        let k = parse_combo(s);
        assert forall|i: int| 0 <= i < k.modifiers.len() implies clean_piece(#[trigger] k.modifiers[i], '+') by {
            assert(k.modifiers[i] == parts[i]);
        }
        assert(clean_piece(parts[parts.len() - 1], '+'));
    }
}

/// The text of a well-formed combination reads back as the same combination.
pub proof fn lemma_combo_text_roundtrip(k: KeyComboView)
    requires
        well_formed_combo(k),
    ensures
        parse_combo(display_combo(k)) == k,
{
    reveal_strlit("+");
    let parts = k.modifiers.push(k.key);
    assert forall|i: int| 0 <= i < parts.len() implies clean_piece(#[trigger] parts[i], '+') by {
        if i < k.modifiers.len() {
            assert(parts[i] == k.modifiers[i]);
        }
    }
    assert("+"@ == seq!['+']);
    assert(display_combo(k) == join_with(parts, seq!['+']));
    lemma_split_join(parts, '+');
    lemma_trimmed_nonempty_of_clean(parts, '+');
    assert(combo_parts(display_combo(k)) == parts);
    assert(parts.drop_last() =~= k.modifiers);
}

/// Reading a combination, showing it and reading the text again gives the
/// first reading, whenever the first reading has a key.
pub proof fn lemma_parse_display_parse(s: Seq<char>)
    requires
        parse_combo(s).key.len() > 0,
    ensures
        parse_combo(display_combo(parse_combo(s))) == parse_combo(s),
{
    lemma_parsed_combo_well_formed(s);
    lemma_combo_text_roundtrip(parse_combo(s));
}

/// A step whose text shows it exactly: its key, if it has one, is trimmed.
pub open spec fn step_text_exact(s: StepView) -> bool {
    match s {
        StepView::PressKey(k) => trim(k) == k,
        StepView::ReleaseKey(k) => trim(k) == k,
        StepView::Wait(_) => true,
    }
}

/// Building a step from its kind name and its value text gives it back.
pub proof fn lemma_step_text_roundtrip(s: StepView)
    requires
        step_text_exact(s),
    ensures
        build_step(step_kind(s), step_value(s)) == s,
{
    reveal_strlit("PressKey");
    reveal_strlit("ReleaseKey");
    reveal_strlit("Wait");
    assert("PressKey"@ != "ReleaseKey"@) by {
        assert("PressKey"@[0] != "ReleaseKey"@[0]);
    }
    assert("PressKey"@ != "Wait"@) by {
        assert("PressKey"@[0] != "Wait"@[0]);
    }
    assert("ReleaseKey"@ != "Wait"@) by {
        assert("ReleaseKey"@[0] != "Wait"@[0]);
    }
    match s {
        StepView::Wait(ms) => {
            lemma_parse_decimal_roundtrip(ms);
            crate::text::lemma_decimal_digits_trimmed(ms as nat);
        },
        _ => {},
    }
}

} // verus!
