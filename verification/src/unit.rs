//! The compilation of a codegen unit.
//!
//! The work itself (lowering an item to MLIR, running passes, running Triton)
//! is done outside. This module says what is to be done next, takes the
//! outcome, and keeps the module that comes of it.
use crate::module::{CleanupPass, MlirError, MlirModule, ModuleCodegen, ModuleView, TritonOutput};
use crate::options::CompileOptions;
use crate::target::Session;
use crate::text::NulFree;
use crate::output::{CompiledModule, Destination, OutputFile};
use crate::{module, output, selection, target};
use vstd::prelude::*;
use vstd::string::*;

verus! {

/// How far the compilation of a codegen unit has come.
#[derive(Debug, Copy, Clone, PartialEq, Eq, Structural)]
pub enum UnitState {
    /// The items before `next` are lowered to MLIR.
    Lowering { next: usize },
    /// All items are lowered.
    CleaningUp,
    /// The module is tidied up.
    Rendering,
    /// The text of the module is captured.
    Compiling,
    /// The module is compiled.
    Finished,
    /// Some step failed.
    Failed,
}

/// What is to be done next for a codegen unit.
#[derive(Debug)]
pub enum UnitAction {
    /// Lower the item at this place in the unit's deterministic order.
    LowerItem { index: usize },
    /// Run these passes on the module, in this order.
    RunPasses { passes: Vec<CleanupPass> },
    /// Print the module as MLIR.
    RenderSource,
    /// Let Triton compile the module.
    RunTriton,
    /// Nothing; the unit is done.
    Finish,
    /// Nothing; give up.
    Abort,
}

/// The outcome of an action.
#[derive(Debug)]
pub enum UnitEvent {
    ItemLowered(Result<(), MlirError>),
    PassesRan(Result<(), String>),
    SourceRendered(String),
    TritonRan(TritonOutput),
}

/// Which action an event belongs to, and whether it succeeded.
pub enum Outcome {
    ItemLowered { ok: bool },
    PassesRan { ok: bool },
    SourceRendered,
    TritonRan { ok: bool },
}

impl UnitEvent {
    /// Which action the event belongs to, and whether it succeeded.
    pub open spec fn outcome(self) -> Outcome {
        match self {
            UnitEvent::ItemLowered(res) => Outcome::ItemLowered { ok: res is Ok },
            UnitEvent::PassesRan(res) => Outcome::PassesRan { ok: res is Ok },
            UnitEvent::SourceRendered(_) => Outcome::SourceRendered,
            UnitEvent::TritonRan(out) => Outcome::TritonRan {
                ok: module::triton_failure(out) is None,
            },
        }
    }
}

/// The state in which the items before `next` of `count` are lowered.
pub open spec fn lowered_to(next: usize, count: usize) -> UnitState {
    if next < count {
        UnitState::Lowering { next }
    } else {
        UnitState::CleaningUp
    }
}

/// Whether an outcome is one that the state waits for.
pub open spec fn awaited(state: UnitState, outcome: Outcome) -> bool {
    match (state, outcome) {
        (UnitState::Lowering { .. }, Outcome::ItemLowered { .. }) => true,
        (UnitState::CleaningUp, Outcome::PassesRan { .. }) => true,
        (UnitState::Rendering, Outcome::SourceRendered) => true,
        (UnitState::Compiling, Outcome::TritonRan { .. }) => true,
        _ => false,
    }
}

/// The state after an outcome. An outcome that the state does not wait for
/// changes nothing.
pub open spec fn next_state(state: UnitState, count: usize, outcome: Outcome) -> UnitState {
    match (state, outcome) {
        (UnitState::Lowering { next }, Outcome::ItemLowered { ok }) => if ok {
            lowered_to((next + 1) as usize, count)
        } else {
            UnitState::Failed
        },
        (UnitState::CleaningUp, Outcome::PassesRan { ok }) => if ok {
            UnitState::Rendering
        } else {
            UnitState::Failed
        },
        (UnitState::Rendering, Outcome::SourceRendered) => UnitState::Compiling,
        (UnitState::Compiling, Outcome::TritonRan { ok }) => if ok {
            UnitState::Finished
        } else {
            UnitState::Failed
        },
        _ => state,
    }
}

/// What a failed step has to report.
#[derive(Debug)]
pub struct UnitFailure {
    /// What was being done.
    pub context: &'static str,
    /// What went wrong.
    pub error: MlirError,
}

/// The report of a step that failed: what was being done and what went wrong.
pub open spec fn failure_text(event: UnitEvent) -> Option<(Seq<char>, Seq<char>)> {
    match event {
        UnitEvent::ItemLowered(Err(error)) => Some(
            ("Failed to generate MLIR for instance"@, error@),
        ),
        UnitEvent::PassesRan(Err(text)) => Some(("MLIR cleanup passes failed"@, text@)),
        UnitEvent::TritonRan(out) => match module::triton_failure(out) {
            Some(text) => Some(("Triton passes failed"@, text)),
            None => None,
        },
        _ => None,
    }
}

/// A codegen unit that is being compiled. `K` describes the kernels in its
/// assembly.
#[derive(Debug)]
pub struct CodegenUnit<K> {
    item_count: usize,
    state: UnitState,
    module: MlirModule<K>,
    failure: Option<UnitFailure>,
}

/// A `CodegenUnit` as a mathematical value.
#[verifier::ext_equal]
pub struct UnitView<K> {
    pub item_count: usize,
    pub state: UnitState,
    pub module: ModuleView<K>,
    pub failure: Option<(Seq<char>, Seq<char>)>,
}

impl<K> View for CodegenUnit<K> {
    type V = UnitView<K>;

    closed spec fn view(&self) -> UnitView<K> {
        UnitView {
            item_count: self.item_count,
            state: self.state,
            module: self.module@,
            failure: match self.failure {
                Some(failure) => Some((failure.context@, failure.error@)),
                None => None,
            },
        }
    }
}

impl<K> UnitView<K> {
    /// A unit that nothing has been done for yet.
    pub open spec fn initial(name: Seq<char>, item_count: usize) -> UnitView<K> {
        UnitView {
            item_count,
            state: lowered_to(0, item_count),
            module: ModuleView::fresh(name),
            failure: None,
        }
    }

    /// What is known of a unit in each state: the MLIR text is captured before
    /// Triton runs, nothing else is there before Triton has run, a finished
    /// unit has assembly and kernel metadata, and a failed one has a report.
    pub open spec fn well_formed(self) -> bool {
        &&& self.state matches UnitState::Lowering { next } ==> next < self.item_count
        &&& (self.state is Lowering || self.state is CleaningUp || self.state is Rendering)
            ==> self.module == ModuleView::<K>::fresh(self.module.name)
        &&& self.state is Compiling ==> self.module == (ModuleView {
            mlir_source: self.module.mlir_source,
            ..ModuleView::<K>::fresh(self.module.name)
        })
        &&& (self.state is Compiling || self.state is Finished)
            ==> self.module.mlir_source is Some
        &&& self.state is Finished ==> self.module.assembly is Some
            && self.module.kernel_metadata is Some
        &&& self.state is Failed <==> self.failure is Some
    }

    /// How many more outcomes the unit can take, at most.
    pub open spec fn steps_left(self) -> int {
        match self.state {
            UnitState::Lowering { next } => self.item_count - next + 3,
            UnitState::CleaningUp => 3,
            UnitState::Rendering => 2,
            UnitState::Compiling => 1,
            UnitState::Finished => 0,
            UnitState::Failed => 0,
        }
    }
}

/// Whether an action is what a unit in the given state needs next.
pub open spec fn is_action_for(action: UnitAction, state: UnitState) -> bool {
    match state {
        UnitState::Lowering { next } => action matches UnitAction::LowerItem { index } && index
            == next,
        UnitState::CleaningUp => action matches UnitAction::RunPasses { passes } && passes@
            == seq![CleanupPass::Canonicalizer, CleanupPass::SymbolDce],
        UnitState::Rendering => action is RenderSource,
        UnitState::Compiling => action is RunTriton,
        UnitState::Finished => action is Finish,
        UnitState::Failed => action is Abort,
    }
}

/// Whether `after` is the unit `before` after `event`, where `metadata_of`
/// reads the kernel metadata out of assembly.
pub open spec fn follows<K, F: Fn(&String) -> K>(
    before: UnitView<K>,
    event: UnitEvent,
    metadata_of: F,
    after: UnitView<K>,
) -> bool {
    &&& after.item_count == before.item_count
    &&& after.state == next_state(before.state, before.item_count, event.outcome())
    &&& if !awaited(before.state, event.outcome()) {
        after == before
    } else {
        &&& after.failure == failure_text(event)
        &&& match event {
            UnitEvent::SourceRendered(source) => after.module == (ModuleView {
                mlir_source: Some(source@),
                ..before.module
            }),
            UnitEvent::TritonRan(out) => if module::triton_failure(out) is None {
                &&& after.module.kernel_metadata is Some
                &&& call_ensures(
                    metadata_of,
                    (&out.assembly->0,),
                    after.module.kernel_metadata->0,
                )
                &&& after.module == module::with_output(
                    before.module,
                    out.assembly->0@,
                    after.module.kernel_metadata->0,
                    module::bytes_view(out.bin),
                )
            } else {
                after.module == before.module
            },
            _ => after.module == before.module,
        }
    }
}

impl<K> CodegenUnit<K> {
    /// A unit of `item_count` items that nothing has been done for yet.
    pub fn new(name: &str, item_count: usize) -> (res: CodegenUnit<K>)
        ensures
            res@ == UnitView::<K>::initial(name@, item_count),
            res@.well_formed(),
    {
        let state = if 0 < item_count {
            UnitState::Lowering { next: 0 }
        } else {
            UnitState::CleaningUp
        };
        CodegenUnit { item_count, state, module: MlirModule::new(name), failure: None }
    }

    /// A unit for the session: it comes with what the session resolves to, or
    /// is refused with the message of the resolution.
    pub fn new_for_session<F: Fn(i32) -> i32>(
        name: &str,
        item_count: usize,
        sess: &Session,
        ptx_version_for: F,
    ) -> (res: Result<(CodegenUnit<K>, (CompileOptions, &'static str, Vec<NulFree>)), String>)
        requires
            sess@.arch is Nvptx64 ==> (target::sm_version(sess@.target_cpu) matches Some(c)
                ==> call_requires(ptx_version_for, (c,))),
        ensures
            target::resolves_to(
                sess@,
                ptx_version_for,
                target::resolution_view(
                    match res {
                        Ok((unit, resolved)) => Ok(resolved),
                        Err(message) => Err(message),
                    },
                ),
            ),
            res matches Ok((unit, resolved)) ==> unit@ == UnitView::<K>::initial(name@, item_count)
                && unit@.well_formed() && resolved.0@.well_formed(),
    {
        match target::resolve(sess, ptx_version_for) {
            Ok(resolved) => Ok((CodegenUnit::new(name, item_count), resolved)),
            Err(message) => Err(message),
        }
    }

    /// How far the unit has come.
    pub fn state(&self) -> (res: UnitState)
        ensures
            res == self@.state,
    {
        self.state
    }

    /// The unit's module.
    pub fn module(&self) -> (res: &MlirModule<K>)
        ensures
            res@ == self@.module,
    {
        &self.module
    }

    /// The report of the step that failed, if one did.
    pub fn failure(&self) -> (res: Option<&UnitFailure>)
        ensures
            match self@.failure {
                Some((context, error)) => res matches Some(failure) && failure.context@ == context
                    && failure.error@ == error,
                None => res is None,
            },
    {
        self.failure.as_ref()
    }

    /// What is to be done next.
    pub fn action(&self) -> (res: UnitAction)
        ensures
            is_action_for(res, self@.state),
    {
        match self.state {
            UnitState::Lowering { next } => UnitAction::LowerItem { index: next },
            UnitState::CleaningUp => UnitAction::RunPasses { passes: module::cleanup_passes() },
            UnitState::Rendering => UnitAction::RenderSource,
            UnitState::Compiling => UnitAction::RunTriton,
            UnitState::Finished => UnitAction::Finish,
            UnitState::Failed => UnitAction::Abort,
        }
    }

    /// Takes the outcome of an action. `metadata_of` reads the kernel metadata
    /// out of assembly. Returns whether the unit waited for that outcome.
    pub fn handle<F: Fn(&String) -> K>(&mut self, event: UnitEvent, metadata_of: F) -> (res: bool)
        requires
            old(self)@.well_formed(),
            event matches UnitEvent::TritonRan(out) ==> out.ok ==> (out.assembly matches Some(
                assembly,
            ) ==> call_requires(metadata_of, (&assembly,))),
        ensures
            res == awaited(old(self)@.state, event.outcome()),
            follows(old(self)@, event, metadata_of, final(self)@),
            final(self)@.well_formed(),
            res ==> final(self)@.steps_left() < old(self)@.steps_left(),
    {
        match (self.state, event) {
            (UnitState::Lowering { next }, UnitEvent::ItemLowered(lowered)) => {
                match lowered {
                    Ok(()) => {
                        self.state = if next + 1 < self.item_count {
                            UnitState::Lowering { next: next + 1 }
                        } else {
                            UnitState::CleaningUp
                        };
                    },
                    Err(error) => {
                        self.fail("Failed to generate MLIR for instance", error);
                    },
                }
                true
            },
            (UnitState::CleaningUp, UnitEvent::PassesRan(ran)) => {
                match module::cleanup_mlir_module(ran) {
                    Ok(()) => {
                        self.state = UnitState::Rendering;
                    },
                    Err(error) => {
                        self.fail("MLIR cleanup passes failed", error);
                    },
                }
                true
            },
            (UnitState::Rendering, UnitEvent::SourceRendered(source)) => {
                self.module.mlir_source = Some(source);
                self.state = UnitState::Compiling;
                true
            },
            (UnitState::Compiling, UnitEvent::TritonRan(out)) => {
                match module::compile_module(&mut self.module, out, metadata_of) {
                    Ok(()) => {
                        self.state = UnitState::Finished;
                    },
                    Err(error) => {
                        self.fail("Triton passes failed", error);
                    },
                }
                true
            },
            _ => false,
        }
    }

    /// Gives the unit up.
    fn fail(&mut self, context: &'static str, error: MlirError)
        ensures
            final(self)@ == (UnitView {
                state: UnitState::Failed,
                failure: Some((context@, error@)),
                ..old(self)@
            }),
    {
        self.failure = Some(UnitFailure { context, error });
        self.state = UnitState::Failed;
    }

    /// The compiled module of a finished unit.
    pub fn finish(self) -> (res: ModuleCodegen<K>)
        requires
            self@.well_formed(),
            self@.state is Finished,
        ensures
            finished_as(self@, res),
            output::artifact(res.module_llvm@) is Some,
    {
        let name = self.module.name.clone();
        ModuleCodegen::new_regular(name, self.module)
    }
}

/// Whether `done` is what a finished unit is handed on as.
pub open spec fn finished_as<K>(unit: UnitView<K>, done: ModuleCodegen<K>) -> bool {
    &&& done.name@ == unit.module.name
    &&& done.kind == module::ModuleKind::Regular
    &&& done.module_llvm@ == unit.module
}

/// Whether an event is the outcome of an action.
pub open spec fn answers(action: UnitAction, event: UnitEvent) -> bool {
    ||| action is LowerItem && event is ItemLowered
    ||| action is RunPasses && event is PassesRan
    ||| action is RenderSource && event is SourceRendered
    ||| action is RunTriton && event is TritonRan
}

/// One step of a unit that asks for `action` and gets `event`. An event that is
/// no answer changes nothing, whether the unit waits for another or is done. A
/// failed answer is reported with what was being done and with its own words,
/// and leaves the module as it was.
pub proof fn law_unit_step<K, F: Fn(&String) -> K>(
    before: UnitView<K>,
    action: UnitAction,
    event: UnitEvent,
    metadata_of: F,
    after: UnitView<K>,
)
    requires
        is_action_for(action, before.state),
        follows(before, event, metadata_of, after),
    ensures
        awaited(before.state, event.outcome()) <==> answers(action, event),
        !answers(action, event) ==> after == before,
        answers(action, event) ==> match event {
            UnitEvent::ItemLowered(Err(MlirError::CodegenFailed { err })) => {
                &&& after.state is Failed
                &&& after.failure == Some(("Failed to generate MLIR for instance"@, err@))
                &&& after.module == before.module
            },
            UnitEvent::PassesRan(Err(err)) => {
                &&& after.state is Failed
                &&& after.failure == Some(("MLIR cleanup passes failed"@, err@))
                &&& after.module == before.module
            },
            UnitEvent::TritonRan(out) => if !out.ok {
                &&& after.state is Failed
                &&& after.failure == Some(("Triton passes failed"@, "Triton compilation failed"@))
                &&& after.module == before.module
            } else if out.assembly is None {
                &&& after.state is Failed
                &&& after.failure == Some(("Triton passes failed"@, "Triton returned no ASM"@))
                &&& after.module == before.module
            } else {
                !(after.state is Failed) && after.failure is None
            },
            _ => !(after.state is Failed) && after.failure is None,
        },
{
}

/// Whether a unit of `count` items goes through `units`: it starts with nothing
/// done, each time asks for the action at the same place, and gets the event at
/// that place.
pub open spec fn is_run<K, F: Fn(&String) -> K>(
    name: Seq<char>,
    count: usize,
    metadata_of: F,
    units: Seq<UnitView<K>>,
    actions: Seq<UnitAction>,
    events: Seq<UnitEvent>,
) -> bool {
    &&& units.len() == events.len() + 1
    &&& actions.len() == units.len()
    &&& units[0] == UnitView::<K>::initial(name, count)
    &&& forall|i: int|
        0 <= i < actions.len() ==> is_action_for(#[trigger] actions[i], units[i].state)
    &&& forall|i: int|
        0 <= i < events.len() ==> follows(
            units[i],
            #[trigger] events[i],
            metadata_of,
            units[i + 1],
        )
}

/// Whether an event says that an item was lowered.
pub open spec fn item_lowered(event: UnitEvent) -> bool {
    event matches UnitEvent::ItemLowered(lowered) && lowered is Ok
}

/// How many of the first `n` events say that an item was lowered.
pub open spec fn lowered_among(events: Seq<UnitEvent>, n: nat) -> nat {
    selection::places(n, |i: int| item_lowered(events[i])).len()
}

/// Each item is lowered once and in order: wherever a run asks for an item, it
/// asks for the one whose place is the number of items lowered so far. It asks
/// for something else only when all items are lowered, or when it gave up.
pub proof fn law_items_lowered_in_order<K, F: Fn(&String) -> K>(
    name: Seq<char>,
    count: usize,
    metadata_of: F,
    units: Seq<UnitView<K>>,
    actions: Seq<UnitAction>,
    events: Seq<UnitEvent>,
    n: nat,
)
    requires
        is_run(name, count, metadata_of, units, actions, events),
        n < actions.len(),
    ensures
        actions[n as int] matches UnitAction::LowerItem { index } ==> index == lowered_among(
            events,
            n,
        ) && index < count,
        !(actions[n as int] is LowerItem) && !(actions[n as int] is Abort) ==> lowered_among(
            events,
            n,
        ) >= count,
{
    lemma_run_lowering(name, count, metadata_of, units, actions, events, n);
    assert(is_action_for(actions[n as int], units[n as int].state));
}

proof fn lemma_run_lowering<K, F: Fn(&String) -> K>(
    name: Seq<char>,
    count: usize,
    metadata_of: F,
    units: Seq<UnitView<K>>,
    actions: Seq<UnitAction>,
    events: Seq<UnitEvent>,
    n: nat,
)
    requires
        is_run(name, count, metadata_of, units, actions, events),
        n < units.len(),
    ensures
        units[n as int].item_count == count,
        match units[n as int].state {
            UnitState::Lowering { next } => next < count && next == lowered_among(events, n),
            UnitState::Failed => true,
            _ => lowered_among(events, n) >= count,
        },
    decreases n,
{
    let wanted = |i: int| item_lowered(events[i]);
    assert(selection::places(0, wanted).len() == 0);
    if n > 0 {
        let m = n - 1;
        lemma_run_lowering(name, count, metadata_of, units, actions, events, m as nat);
        assert(follows(units[m], events[m], metadata_of, units[m + 1]));
        assert(wanted(m) == item_lowered(events[m]));
    }
}

/// Whether everything succeeds: each of `count` items is lowered, the passes
/// run, the module is printed as `source`, and Triton gives `out` with
/// assembly.
pub open spec fn all_succeed(
    count: usize,
    events: Seq<UnitEvent>,
    source: String,
    out: TritonOutput,
) -> bool {
    &&& events.len() == count + 3
    &&& forall|i: int| 0 <= i < count ==> item_lowered(#[trigger] events[i])
    &&& events[count as int] matches UnitEvent::PassesRan(ran) && ran is Ok
    &&& events[count + 1] == UnitEvent::SourceRendered(source)
    &&& events[count + 2] == UnitEvent::TritonRan(out)
    &&& out.ok && out.assembly is Some
}

/// A run in which everything succeeds asks for each item in order, then for the
/// two passes, for the MLIR text and for Triton, and is done. Its module has
/// the unit's name, that MLIR text, and exactly what Triton gave.
pub proof fn law_successful_run<K, F: Fn(&String) -> K>(
    name: Seq<char>,
    count: usize,
    metadata_of: F,
    units: Seq<UnitView<K>>,
    actions: Seq<UnitAction>,
    events: Seq<UnitEvent>,
    source: String,
    out: TritonOutput,
)
    requires
        is_run(name, count, metadata_of, units, actions, events),
        all_succeed(count, events, source, out),
    ensures
        forall|i: int|
            0 <= i < count ==> (#[trigger] actions[i] matches UnitAction::LowerItem { index }
                && index == i),
        actions[count as int] matches UnitAction::RunPasses { passes } && passes@ == seq![
            CleanupPass::Canonicalizer,
            CleanupPass::SymbolDce,
        ],
        actions[count + 1] is RenderSource,
        actions[count + 2] is RunTriton,
        actions[count + 3] is Finish,
        ({
            let done = units[count + 3];
            &&& done.failure is None
            &&& done.module.name == name
            &&& done.module.mlir_source == Some(source@)
            &&& done.module.assembly == Some(out.assembly->0@)
            &&& out.bin matches Some(bin) ==> done.module.compiled_bin == Some(bin@)
            &&& out.bin is None ==> done.module.compiled_bin is None
            &&& done.module.kernel_metadata is Some
            &&& call_ensures(
                metadata_of,
                (&out.assembly->0,),
                done.module.kernel_metadata->0,
            )
        }),
{
    assert forall|i: int| 0 <= i <= count implies #[trigger] units[i].state == lowered_to(
        i as usize,
        count,
    ) && units[i].item_count == count && units[i].module == ModuleView::<K>::fresh(name)
        && units[i].failure is None by {
        lemma_run_succeeds(name, count, metadata_of, units, actions, events, i as nat);
    }
    let n = count as int;
    assert(units[n].state is CleaningUp);
    assert(follows(units[n], events[n], metadata_of, units[n + 1]));
    assert(follows(units[n + 1], events[n + 1], metadata_of, units[n + 2]));
    assert(follows(units[n + 2], events[n + 2], metadata_of, units[n + 3]));
    assert forall|i: int| 0 <= i < count implies (#[trigger] actions[i] matches UnitAction::LowerItem {
        index,
    } && index == i) by {
        assert(is_action_for(actions[i], units[i].state));
    }
    assert(is_action_for(actions[n], units[n].state));
    assert(is_action_for(actions[n + 1], units[n + 1].state));
    assert(is_action_for(actions[n + 2], units[n + 2].state));
    assert(is_action_for(actions[n + 3], units[n + 3].state));
}

proof fn lemma_run_succeeds<K, F: Fn(&String) -> K>(
    name: Seq<char>,
    count: usize,
    metadata_of: F,
    units: Seq<UnitView<K>>,
    actions: Seq<UnitAction>,
    events: Seq<UnitEvent>,
    n: nat,
)
    requires
        is_run(name, count, metadata_of, units, actions, events),
        n <= count,
        n < units.len(),
        forall|i: int| 0 <= i < n ==> item_lowered(#[trigger] events[i]),
    ensures
        units[n as int].state == lowered_to(n as usize, count),
        units[n as int].item_count == count,
        units[n as int].module == ModuleView::<K>::fresh(name),
        units[n as int].failure is None,
    decreases n,
{
    if n > 0 {
        let m = n - 1;
        lemma_run_succeeds(name, count, metadata_of, units, actions, events, m as nat);
        assert(item_lowered(events[m]));
        assert(follows(units[m], events[m], metadata_of, units[m + 1]));
    }
}

/// What is written for a unit after a run in which everything succeeds: the
/// object is the binary that Triton's backend linked, or its assembly where it
/// linked none, and the MLIR text that Triton was given is written last. The
/// record has the unit's name.
pub proof fn law_successful_run_written<K, F: Fn(&String) -> K>(
    name: Seq<char>,
    count: usize,
    metadata_of: F,
    units: Seq<UnitView<K>>,
    actions: Seq<UnitAction>,
    events: Seq<UnitEvent>,
    source: String,
    out: TritonOutput,
    done: ModuleCodegen<K>,
    emit_assembly: bool,
    written: (Vec<OutputFile>, CompiledModule<Destination>),
)
    requires
        is_run(name, count, metadata_of, units, actions, events),
        all_succeed(count, events, source, out),
        finished_as(units.last(), done),
        output::written(done.name@, done.kind, done.module_llvm@, emit_assembly, written),
    ensures
        written.1.name@ == name,
        written.1.kind == module::ModuleKind::Regular,
        written.0@.len() >= 2,
        written.0@[0].destination == Destination::CguTemp(output::OutputType::Object),
        match out.bin {
            Some(bin) => written.0@[0].bytes@ == bin@,
            None => written.0@[0].bytes@ == vstd::utf8::encode_utf8(out.assembly->0@),
        },
        written.0@.last().bytes@ == vstd::utf8::encode_utf8(source@),
{
    law_successful_run(name, count, metadata_of, units, actions, events, source, out);
    let module = units[count + 3].module;
    assert(units.last() == units[count + 3]);
    assert(done.module_llvm@ == module);
    assert(module::bytes_view(done.module_llvm.compiled_bin) == module.compiled_bin);
    assert(module::string_view(done.module_llvm.assembly) == module.assembly);
    assert(module::string_view(done.module_llvm.mlir_source) == module.mlir_source);
    output::law_binary_is_the_object(done, emit_assembly, written);
    output::law_written_files(done, emit_assembly, written);
}

/// The state of a unit of `count` items after the first `n` outcomes.
pub open spec fn state_after(count: usize, outcomes: Seq<Outcome>, n: nat) -> UnitState
    decreases n,
{
    if n == 0 {
        lowered_to(0, count)
    } else {
        next_state(state_after(count, outcomes, (n - 1) as nat), count, outcomes[n - 1])
    }
}

/// Whether each outcome is one that the unit waits for when it comes.
pub open spec fn all_awaited(count: usize, outcomes: Seq<Outcome>) -> bool {
    forall|n: nat|
        n < outcomes.len() ==> awaited(
            #[trigger] state_after(count, outcomes, n),
            outcomes[n as int],
        )
}

/// The outcomes of a compilation in which everything succeeds: each item is
/// lowered, once and in order; then the module is tidied up, printed and
/// compiled by Triton.
pub open spec fn success(count: usize) -> Seq<Outcome> {
    Seq::new(
        (count + 3) as nat,
        |i: int|
            if i < count {
                Outcome::ItemLowered { ok: true }
            } else if i == count {
                Outcome::PassesRan { ok: true }
            } else if i == count + 1 {
                Outcome::SourceRendered
            } else {
                Outcome::TritonRan { ok: true }
            },
    )
}

/// The state of a unit of `count` items after `n` successful outcomes.
pub open spec fn milestone(count: usize, n: nat) -> UnitState {
    if n < count {
        UnitState::Lowering { next: n as usize }
    } else if n == count {
        UnitState::CleaningUp
    } else if n == count + 1 {
        UnitState::Rendering
    } else if n == count + 2 {
        UnitState::Compiling
    } else {
        UnitState::Finished
    }
}

/// A unit that takes awaited outcomes passes its milestones one by one until it
/// fails, and takes at most three more outcomes than it has items. It finishes
/// exactly where everything succeeds, and fails exactly where the last outcome
/// is not that of a success.
pub proof fn law_unit_steps(count: usize, outcomes: Seq<Outcome>)
    requires
        all_awaited(count, outcomes),
    ensures
        outcomes.len() <= count + 3,
        state_after(count, outcomes, outcomes.len()) is Finished <==> outcomes == success(count),
        state_after(count, outcomes, outcomes.len()) is Failed <==> outcomes.len() > 0
            && outcomes.last() != success(count)[outcomes.len() - 1],
        !(state_after(count, outcomes, outcomes.len()) is Failed) ==> state_after(
            count,
            outcomes,
            outcomes.len(),
        ) == milestone(count, outcomes.len()),
{
    lemma_unit_prefix(count, outcomes, outcomes.len());
    if outcomes == success(count) {
        assert(outcomes.len() == count + 3);
        assert(outcomes.last() == success(count)[outcomes.len() - 1]);
    }
    if state_after(count, outcomes, outcomes.len()) is Finished {
        assert forall|i: int| 0 <= i < outcomes.len() implies #[trigger] outcomes[i] == success(
            count,
        )[i] by {
            if i == outcomes.len() - 1 {
                assert(outcomes[i] == outcomes.last());
            }
        }
        assert(outcomes =~= success(count));
    }
}

proof fn lemma_unit_prefix(count: usize, outcomes: Seq<Outcome>, n: nat)
    requires
        all_awaited(count, outcomes),
        n <= outcomes.len(),
    ensures
        n <= count + 3,
        forall|i: int| 0 <= i < n - 1 ==> #[trigger] outcomes[i] == success(count)[i],
        if n > 0 && outcomes[n - 1] != success(count)[n - 1] {
            state_after(count, outcomes, n) is Failed
        } else {
            state_after(count, outcomes, n) == milestone(count, n)
        },
    decreases n,
{
    if n > 0 {
        let m = (n - 1) as nat;
        lemma_unit_prefix(count, outcomes, m);
        assert(awaited(state_after(count, outcomes, m), outcomes[m as int]));
        if m > 0 {
            assert(outcomes[m - 1] == success(count)[m - 1]);
        }
    }
}

} // verus!
