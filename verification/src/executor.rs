//! The decisions of the macro executor: which runs to start and stop, and
//! what a run does next.
use vstd::prelude::*;

use crate::ids::{lemma_push_id, lemma_remove_id, position_of};
use crate::model::{clone_steps, MacroDef, MacroStyle, MacroView, StepAction, StepView};

verus! {

/// A request to the executor.
pub enum ExecutorCommand {
    Trigger(MacroDef),
    StopAll,
}

pub enum CommandView {
    Trigger(MacroView),
    StopAll,
}

impl View for ExecutorCommand {
    type V = CommandView;

    open spec fn view(&self) -> CommandView {
        match self {
            ExecutorCommand::Trigger(m) => CommandView::Trigger(m@),
            ExecutorCommand::StopAll => CommandView::StopAll,
        }
    }
}

/// A report from the executor.
pub enum ExecutorEvent {
    MacroStarted(String),
    MacroStopped(String),
    MacroError { id: String, msg: String },
    CommandThreadTerminated,
}

/// What the executor does about a command.
pub enum Dispatch {
    /// Start a run of the macro; a looping run goes on until it is stopped.
    Start { def: MacroDef, looping: bool },
    /// Tell the run of the macro with this identifier to stop.
    Stop(String),
    /// Tell each of these runs to stop, then take no more commands.
    Shutdown(Vec<String>),
    /// Nothing to do.
    Ignore,
}

pub enum DispatchView {
    Start { def: MacroView, looping: bool },
    Stop(Seq<char>),
    Shutdown(Set<Seq<char>>),
    Ignore,
}

impl View for Dispatch {
    type V = DispatchView;

    open spec fn view(&self) -> DispatchView {
        match self {
            Dispatch::Start { def, looping } => DispatchView::Start { def: def@, looping: *looping },
            Dispatch::Stop(id) => DispatchView::Stop(id@),
            Dispatch::Shutdown(ids) => DispatchView::Shutdown(ids.deep_view().to_set()),
            Dispatch::Ignore => DispatchView::Ignore,
        }
    }
}

/// The identifiers of the macros that the executor has started and not stopped.
pub struct ExecutorState {
    running: Vec<String>,
}

impl View for ExecutorState {
    type V = Set<Seq<char>>;

    closed spec fn view(&self) -> Set<Seq<char>> {
        self.running.deep_view().to_set()
    }
}

/// The decision on a command, given the set of macros started so far and not
/// stopped: the new set and what to do. A `Trigger` macro in the set is left
/// alone (its identifier stays in the set after its run ends, so each such
/// macro plays once); a `ToggleLoop` macro in the set is stopped and leaves
/// it; `StopAll` stops them all and empties the set.
pub open spec fn decide_model(running: Set<Seq<char>>, cmd: ExecutorCommand) -> (Set<Seq<char>>, DispatchView) {
    match cmd {
        ExecutorCommand::Trigger(m) => {
            let id = m@.id;
            match m@.style {
                MacroStyle::Trigger => if running.contains(id) {
                    (running, DispatchView::Ignore)
                } else {
                    (running.insert(id), DispatchView::Start { def: m@, looping: false })
                },
                MacroStyle::ToggleLoop => if running.contains(id) {
                    (running.remove(id), DispatchView::Stop(id))
                } else {
                    (running.insert(id), DispatchView::Start { def: m@, looping: true })
                },
            }
        },
        ExecutorCommand::StopAll => (Set::empty(), DispatchView::Shutdown(running)),
    }
}

impl ExecutorState {
    /// No identifier is held twice.
    #[verifier::type_invariant]
    closed spec fn no_duplicate_ids(&self) -> bool {
        self.running.deep_view().no_duplicates()
    }

    /// Nothing running.
    pub fn new() -> (res: ExecutorState)
        ensures
            res@ == Set::<Seq<char>>::empty(),
    {
        let res = ExecutorState { running: Vec::new() };
        assert(res.running.deep_view() =~= Seq::<Seq<char>>::empty());
        assert(res@ =~= Set::<Seq<char>>::empty());
        res
    }

    /// Decides what to do about a command, and records the runs it starts and stops.
    pub fn decide(&mut self, cmd: ExecutorCommand) -> (res: Dispatch)
        ensures
            (final(self)@, res@) == decide_model(old(self)@, cmd),
    {
        proof {
            use_type_invariant(&*self);
        }
        let ghost before = self.running.deep_view();
        match cmd {
            ExecutorCommand::Trigger(m) => {
                match position_of(&self.running, &m.id) {
                    Some(i) => {
                        match m.style {
                            MacroStyle::Trigger => Dispatch::Ignore,
                            MacroStyle::ToggleLoop => {
                                proof {
                                    lemma_remove_id(before, i as int);
                                }
                                let mut ids: Vec<String> = Vec::new();
                                std::mem::swap(&mut ids, &mut self.running);
                                ids.remove(i);
                                assert(ids.deep_view() =~= before.remove(i as int));
                                self.running = ids;
                                Dispatch::Stop(m.id)
                            },
                        }
                    },
                    None => {
                        let looping = match m.style {
                            MacroStyle::Trigger => false,
                            MacroStyle::ToggleLoop => true,
                        };
                        proof {
                            lemma_push_id(before, m@.id);
                        }
                        let mut ids: Vec<String> = Vec::new();
                        std::mem::swap(&mut ids, &mut self.running);
                        ids.push(m.id.clone());
                        assert(ids.deep_view() =~= before.push(m@.id));
                        self.running = ids;
                        Dispatch::Start { def: m, looping }
                    },
                }
            },
            ExecutorCommand::StopAll => {
                let mut ids: Vec<String> = Vec::new();
                std::mem::swap(&mut ids, &mut self.running);
                proof {
                    assert(self.running.deep_view() =~= Seq::<Seq<char>>::empty());
                    assert(self@ =~= Set::<Seq<char>>::empty());
                }
                Dispatch::Shutdown(ids)
            },
        }
    }
}

// ---------------------------------------------------------------------------
// A run of one macro
// ---------------------------------------------------------------------------

/// What a run does next.
pub enum RunAction {
    /// Play this step.
    Perform(StepAction),
    /// Nothing this time (a looping run without steps).
    Idle,
    /// The run is over.
    Finish,
}

pub enum RunActionView {
    Perform(StepView),
    Idle,
    Finish,
}

impl View for RunAction {
    type V = RunActionView;

    open spec fn view(&self) -> RunActionView {
        match self {
            RunAction::Perform(s) => RunActionView::Perform(s@),
            RunAction::Idle => RunActionView::Idle,
            RunAction::Finish => RunActionView::Finish,
        }
    }
}

/// One run of a macro: its steps, whether it loops, the next step to play,
/// and whether it is over.
pub struct MacroRun {
    pub id: String,
    steps: Vec<StepAction>,
    looping: bool,
    pos: usize,
    finished: bool,
}

pub struct RunView {
    pub id: Seq<char>,
    pub steps: Seq<StepView>,
    pub looping: bool,
    pub pos: nat,
    pub finished: bool,
}

impl View for MacroRun {
    type V = RunView;

    closed spec fn view(&self) -> RunView {
        RunView {
            id: self.id@,
            steps: self.steps.deep_view(),
            looping: self.looping,
            pos: self.pos as nat,
            finished: self.finished,
        }
    }
}

/// A run of `m` that has not played anything yet.
pub open spec fn fresh_run(m: MacroView, looping: bool) -> RunView {
    RunView { id: m.id, steps: m.steps, looping, pos: 0, finished: false }
}

/// One move of a run: before each step it looks at whether it is asked to
/// stop; after the last step a plain run is over and a looping one starts
/// again from the first step.
pub open spec fn run_step(r: RunView, stop_requested: bool) -> (RunView, RunActionView) {
    if r.finished {
        (r, RunActionView::Finish)
    } else if r.pos < r.steps.len() {
        if stop_requested {
            (RunView { finished: true, ..r }, RunActionView::Finish)
        } else {
            (RunView { pos: r.pos + 1, ..r }, RunActionView::Perform(r.steps[r.pos as int]))
        }
    } else if !r.looping {
        (RunView { finished: true, ..r }, RunActionView::Finish)
    } else if r.steps.len() == 0 {
        (RunView { pos: 0, ..r }, RunActionView::Idle)
    } else if stop_requested {
        (RunView { finished: true, ..r }, RunActionView::Finish)
    } else {
        (RunView { pos: 1, ..r }, RunActionView::Perform(r.steps[0]))
    }
}

/// A run whose current step could not be played: it is over.
pub open spec fn run_fail(r: RunView) -> RunView {
    RunView { finished: true, ..r }
}

impl MacroRun {
    /// The next step to play stands within the steps.
    #[verifier::type_invariant]
    closed spec fn pos_in_range(&self) -> bool {
        self.pos <= self.steps@.len()
    }

    /// A run of `m` that has not started.
    pub fn new(m: &MacroDef, looping: bool) -> (res: MacroRun)
        ensures
            res@ == fresh_run(m@, looping),
    {
        MacroRun { id: m.id.clone(), steps: clone_steps(&m.steps), looping, pos: 0, finished: false }
    }

    /// Ends the run because a step could not be played, and gives the report
    /// of the failure to send; no `MacroStopped` follows it.
    pub fn fail(&mut self, msg: String) -> (res: ExecutorEvent)
        ensures
            final(self)@ == run_fail(old(self)@),
            res matches ExecutorEvent::MacroError { id, msg: m } && id@ == old(self)@.id && m@
                == msg@,
    {
        proof {
            use_type_invariant(&*self);
        }
        self.finished = true;
        ExecutorEvent::MacroError { id: self.id.clone(), msg }
    }

    /// What the run does next, given whether it has been asked to stop.
    pub fn next_action(&mut self, stop_requested: bool) -> (res: RunAction)
        ensures
            (final(self)@, res@) == run_step(old(self)@, stop_requested),
    {
        proof {
            use_type_invariant(&*self);
        }
        if self.finished {
            return RunAction::Finish;
        }
        if self.pos < self.steps.len() {
            if stop_requested {
                self.finished = true;
                return RunAction::Finish;
            }
            let s = self.steps[self.pos].clone();
            self.pos = self.pos + 1;
            return RunAction::Perform(s);
        }
        if !self.looping {
            self.finished = true;
            return RunAction::Finish;
        }
        if self.steps.len() == 0 {
            return RunAction::Idle;
        }
        if stop_requested {
            self.finished = true;
            return RunAction::Finish;
        }
        let s = self.steps[0].clone();
        self.pos = 1;
        RunAction::Perform(s)
    }
}


// ---------------------------------------------------------------------------
// Laws
// ---------------------------------------------------------------------------

/// A run that `decide` starts is a run of the triggered macro exactly as it
/// was given, its steps included: once for a `Trigger` macro, looping for a
/// `ToggleLoop` one. A run is started exactly when the macro is not among
/// those started and not stopped, and it then joins them.
pub proof fn lemma_decide_starts_given_macro(running: Set<Seq<char>>, m: MacroDef)
    ensures
        ({
            let (after, d) = decide_model(running, ExecutorCommand::Trigger(m));
            &&& (d is Start) == !running.contains(m@.id)
            &&& d matches DispatchView::Start { def, looping } ==> {
                &&& def == m@
                &&& def.steps == m@.steps
                &&& looping == (m@.style == MacroStyle::ToggleLoop)
                &&& after == running.insert(m@.id)
            }
        }),
{
}

/// A `Trigger` macro that was started before is not started a second time.
pub proof fn lemma_trigger_not_doubled(running: Set<Seq<char>>, m: MacroDef)
    requires
        m@.style == MacroStyle::Trigger,
        running.contains(m@.id),
    ensures
        decide_model(running, ExecutorCommand::Trigger(m)) == (running, DispatchView::Ignore),
{
}

/// Triggering a `ToggleLoop` macro twice starts a looping run and then
/// stops it, leaving the set of running macros as it was.
pub proof fn lemma_toggle_twice(running: Set<Seq<char>>, m1: MacroDef, m2: MacroDef)
    requires
        m1@ == m2@,
        m1@.style == MacroStyle::ToggleLoop,
        !running.contains(m1@.id),
    ensures
        decide_model(running, ExecutorCommand::Trigger(m1)).1 == (DispatchView::Start {
            def: m1@,
            looping: true,
        }),
        decide_model(decide_model(running, ExecutorCommand::Trigger(m1)).0, ExecutorCommand::Trigger(m2))
            == (running, DispatchView::Stop(m1@.id)),
{
    assert(running.insert(m1@.id).remove(m1@.id) =~= running);
}

/// `StopAll` stops every running macro and leaves none running.
pub proof fn lemma_stop_all(running: Set<Seq<char>>)
    ensures
        decide_model(running, ExecutorCommand::StopAll) == (
        Set::<Seq<char>>::empty(),
        DispatchView::Shutdown(running),
        ),
{
}

/// The state of a run after `k` moves in which no stop was asked for.
pub open spec fn run_unstopped(r: RunView, k: nat) -> RunView
    decreases k,
{
    if k == 0 {
        r
    } else {
        run_step(run_unstopped(r, (k - 1) as nat), false).0
    }
}

/// A run that is not asked to stop plays the macro's steps in order; after
/// the last one a plain run is over, and a looping one plays the first step
/// again.
pub proof fn lemma_run_plays_steps(m: MacroView, looping: bool, k: nat)
    requires
        k <= m.steps.len(),
    ensures
        run_unstopped(fresh_run(m, looping), k) == (RunView { pos: k, ..fresh_run(m, looping) }),
        k < m.steps.len() ==> run_step(run_unstopped(fresh_run(m, looping), k), false).1
            == RunActionView::Perform(m.steps[k as int]),
        k == m.steps.len() && !looping ==> run_step(run_unstopped(fresh_run(m, looping), k), false).1
            == RunActionView::Finish,
        k == m.steps.len() && looping && k > 0 ==> run_step(
            run_unstopped(fresh_run(m, looping), k),
            false,
        ).1 == RunActionView::Perform(m.steps[0]),
    decreases k,
{
    if k > 0 {
        lemma_run_plays_steps(m, looping, (k - 1) as nat);
    }
}

/// Once over, a run stays over.
pub proof fn lemma_finished_stays(r: RunView, stop_requested: bool)
    requires
        r.finished,
    ensures
        run_step(r, stop_requested) == (r, RunActionView::Finish),
{
}


/// Moves that are not asked to stop can be taken in two batches.
pub proof fn lemma_run_unstopped_split(r: RunView, a: nat, b: nat)
    ensures
        run_unstopped(r, a + b) == run_unstopped(run_unstopped(r, a), b),
    decreases b,
{
    if b > 0 {
        lemma_run_unstopped_split(r, a, (b - 1) as nat);
        assert((a + b - 1) as nat == a + (b - 1) as nat);
    }
}

/// From the end of its steps, a looping run that is not asked to stop goes
/// through them once more and is back at the end.
proof fn lemma_one_more_cycle(t: RunView, j: nat)
    requires
        t.looping,
        !t.finished,
        t.steps.len() > 0,
        t.pos == t.steps.len(),
        1 <= j <= t.steps.len(),
    ensures
        run_unstopped(t, j) == (RunView { pos: j, ..t }),
    decreases j,
{
    assert(run_unstopped(t, 0) == t);
    if j > 1 {
        lemma_one_more_cycle(t, (j - 1) as nat);
        assert(run_unstopped(t, j) == run_step(run_unstopped(t, (j - 1) as nat), false).0);
    } else {
        assert(run_unstopped(t, 1) == run_step(run_unstopped(t, 0), false).0);
    }
}

/// After `n` full passes (n > 0), a looping run that is not asked to stop is
/// at the end of its steps.
proof fn lemma_after_passes(m: MacroView, n: nat)
    requires
        m.steps.len() > 0,
        n > 0,
    ensures
        run_unstopped(fresh_run(m, true), n * m.steps.len()) == (RunView {
            pos: m.steps.len(),
            ..fresh_run(m, true)
        }),
    decreases n,
{
    let len = m.steps.len();
    if n == 1 {
        assert(n * len == len);
        lemma_run_plays_steps(m, true, len);
    } else {
        lemma_after_passes(m, (n - 1) as nat);
        assert(n * len == (n - 1) * len + len) by (nonlinear_arith);
        lemma_run_unstopped_split(fresh_run(m, true), ((n - 1) * len) as nat, len);
        lemma_one_more_cycle(RunView { pos: len, ..fresh_run(m, true) }, len);
    }
}

/// A looping run that is not asked to stop plays its steps over and over in
/// order: in pass `n`, the `j`-th move plays step `j`.
pub proof fn lemma_looping_run_cycles(m: MacroView, n: nat, j: nat)
    requires
        m.steps.len() > 0,
        j < m.steps.len(),
    ensures
        !run_unstopped(fresh_run(m, true), n * m.steps.len() + j).finished,
        run_step(run_unstopped(fresh_run(m, true), n * m.steps.len() + j), false).1
            == RunActionView::Perform(m.steps[j as int]),
{
    let len = m.steps.len();
    if n == 0 {
        assert(n * len + j == j) by (nonlinear_arith)
            requires
                n == 0,
        ;
        lemma_run_plays_steps(m, true, j);
    } else {
        lemma_after_passes(m, n);
        lemma_run_unstopped_split(fresh_run(m, true), n * len, j);
        let t = RunView { pos: len, ..fresh_run(m, true) };
        if j > 0 {
            lemma_one_more_cycle(t, j);
        }
    }
}

/// A run that is not over ends as soon as it is asked to stop, before it
/// plays another step, unless it is a looping run without steps.
pub proof fn lemma_stop_ends_run(r: RunView)
    requires
        !r.finished,
        r.pos <= r.steps.len(),
        r.steps.len() > 0 || !r.looping,
    ensures
        run_step(r, true) == (RunView { finished: true, ..r }, RunActionView::Finish),
{
}

} // verus!
