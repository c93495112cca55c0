//! Thin LTO as a pass-through.
//!
//! Each codegen unit is already compiled to its final artifact when thin LTO
//! runs, so nothing is merged: a module that needs work is wrapped unchanged,
//! and a cached one is handed on as it is.
use crate::backend::MlirCodegenBackend;
use crate::module::{MlirModule, ModuleCodegen};
use crate::output::{CompiledModule, Destination, ModuleBuffer, OutputFile};
use crate::text::NulFree;
use crate::{module, output, selection, text};
use std::sync::Arc;
use vstd::prelude::*;
use vstd::slice::*;
use vstd::string::*;

verus! {

/// A module as thin LTO gets it. `W` stands for a cached work product.
#[derive(Debug)]
pub enum ThinLtoInput<W> {
    /// A module that needs work, serialized.
    Red { name: String, buffer: ModuleBuffer },
    /// A module that is cached.
    Green { wp: W },
}

/// What the backend knows of all modules together: nothing.
#[derive(Debug)]
pub struct ThinData {}

/// The modules that go through thin LTO together.
#[derive(Debug)]
pub struct ThinShared {
    pub data: ThinData,
    pub modules: Vec<ModuleBuffer>,
    pub module_names: Vec<NulFree>,
}

/// One of the modules that go through thin LTO together.
#[derive(Debug)]
pub struct ThinModule {
    pub shared: Arc<ThinShared>,
    pub idx: usize,
}

impl ThinModule {
    /// The module is one of those in `shared`.
    pub open spec fn well_formed(self) -> bool {
        &&& self.shared.modules@.len() == self.shared.module_names@.len()
        &&& self.idx < self.shared.modules@.len()
    }

    /// The name of the module.
    pub open spec fn name_view(self) -> Seq<char> {
        self.shared.module_names@[self.idx as int]@
    }

    /// The bytes of the module.
    pub open spec fn data_view(self) -> Seq<u8> {
        self.shared.modules@[self.idx as int]@
    }

    /// The name of the module.
    pub fn name(&self) -> (res: &str)
        requires
            self.well_formed(),
        ensures
            res@ == self.name_view(),
    {
        self.shared.module_names[self.idx].as_str()
    }

    /// The bytes of the module.
    pub fn data(&self) -> (res: &[u8])
        requires
            self.well_formed(),
        ensures
            res@ == self.data_view(),
    {
        self.shared.modules[self.idx].data()
    }
}

/// The names and bytes of the modules among the first `count` inputs that need
/// work, in order.
pub open spec fn red_prefix<W>(inputs: Seq<ThinLtoInput<W>>, count: nat) -> Seq<
    (Seq<char>, Seq<u8>),
>
    decreases count,
{
    if count == 0 {
        Seq::empty()
    } else {
        let before = red_prefix(inputs, (count - 1) as nat);
        match inputs[count - 1] {
            ThinLtoInput::Red { name, buffer } => before.push((name@, buffer@)),
            ThinLtoInput::Green { wp } => before,
        }
    }
}

/// The cached work products among the first `count` inputs, in order.
pub open spec fn green_prefix<W>(inputs: Seq<ThinLtoInput<W>>, count: nat) -> Seq<W>
    decreases count,
{
    if count == 0 {
        Seq::empty()
    } else {
        let before = green_prefix(inputs, (count - 1) as nat);
        match inputs[count - 1] {
            ThinLtoInput::Red { name, buffer } => before,
            ThinLtoInput::Green { wp } => before.push(wp),
        }
    }
}

/// The modules that need work, in order.
pub open spec fn red<W>(inputs: Seq<ThinLtoInput<W>>) -> Seq<(Seq<char>, Seq<u8>)> {
    red_prefix(inputs, inputs.len())
}

/// The cached work products, in order.
pub open spec fn green<W>(inputs: Seq<ThinLtoInput<W>>) -> Seq<W> {
    green_prefix(inputs, inputs.len())
}

/// Whether every module that needs work has a name that can be a C string.
pub open spec fn names_nul_free<W>(inputs: Seq<ThinLtoInput<W>>) -> bool {
    forall|i: int|
        0 <= i < inputs.len() ==> (#[trigger] inputs[i] matches ThinLtoInput::Red { name, .. }
            ==> text::nul_free(name@))
}

/// Whether `thin` are the modules that need work, in order and all with the
/// same shared data, and `work_products` those that are cached, in order.
pub open spec fn passed_through<W>(
    inputs: Seq<ThinLtoInput<W>>,
    thin: Seq<ThinModule>,
    work_products: Seq<W>,
) -> bool {
    &&& thin.len() == red(inputs).len()
    &&& forall|i: int|
        #![trigger thin[i]]
        0 <= i < thin.len() ==> {
            &&& thin[i].well_formed()
            &&& thin[i].idx == i
            &&& thin[i].shared == thin[0].shared
            &&& (thin[i].name_view(), thin[i].data_view()) == red(inputs)[i]
        }
    &&& thin.len() > 0 ==> thin[0].shared.modules@.len() == thin.len()
    &&& work_products == green(inputs)
}

/// Each module that needs work is wrapped with its own name and its own bytes,
/// and nothing else is, in the order of the inputs: the result gives the
/// places of these modules. All of them share one list of modules, in which
/// they stand in this order.
pub proof fn law_thin_lto_wraps_each_module<W>(
    inputs: Seq<ThinLtoInput<W>>,
    thin: Seq<ThinModule>,
    work_products: Seq<W>,
) -> (places: Seq<int>)
    requires
        passed_through(inputs, thin, work_products),
    ensures
        selection::selects(places, inputs.len(), |i: int| inputs[i] is Red),
        thin.len() == places.len(),
        forall|i: int|
            #![trigger thin[i]]
            0 <= i < thin.len() ==> {
                &&& thin[i].idx == i
                &&& thin[i].shared == thin[0].shared
                &&& thin[i].shared.modules@.len() == thin.len()
                &&& thin[i].shared.module_names@.len() == thin.len()
                &&& thin[i].shared.module_names@[i]@ == inputs[places[i]]->name@
                &&& thin[i].shared.modules@[i]@ == inputs[places[i]]->buffer@
            },
{
    let wanted = |i: int| inputs[i] is Red;
    selection::law_places_select(inputs.len(), wanted);
    lemma_red_selected(inputs, wanted, inputs.len());
    let places = selection::places(inputs.len(), wanted);
    assert forall|i: int| #![trigger thin[i]] 0 <= i < thin.len() implies {
        &&& thin[i].shared.module_names@[i]@ == inputs[places[i]]->name@
        &&& thin[i].shared.modules@[i]@ == inputs[places[i]]->buffer@
    } by {
        assert((thin[i].name_view(), thin[i].data_view()) == red(inputs)[i]);
    }
    places
}

proof fn lemma_red_selected<W>(
    inputs: Seq<ThinLtoInput<W>>,
    wanted: spec_fn(int) -> bool,
    count: nat,
)
    requires
        wanted == (|i: int| inputs[i] is Red),
        count <= inputs.len(),
    ensures
        ({
            let found = red_prefix(inputs, count);
            let places = selection::places(count, wanted);
            &&& found.len() == places.len()
            &&& forall|i: int|
                0 <= i < found.len() ==> #[trigger] found[i] == (
                    inputs[places[i]]->name@,
                    inputs[places[i]]->buffer@,
                )
        }),
    decreases count,
{
    if count > 0 {
        lemma_red_selected(inputs, wanted, (count - 1) as nat);
    }
}

/// The work product of each cached module is handed on, and nothing else is,
/// in the order of the inputs: the result gives the places of these modules.
pub proof fn law_thin_lto_hands_on_each_work_product<W>(
    inputs: Seq<ThinLtoInput<W>>,
    thin: Seq<ThinModule>,
    work_products: Seq<W>,
) -> (places: Seq<int>)
    requires
        passed_through(inputs, thin, work_products),
    ensures
        selection::selects(places, inputs.len(), |i: int| inputs[i] is Green),
        work_products.len() == places.len(),
        forall|i: int|
            0 <= i < work_products.len() ==> #[trigger] work_products[i] == inputs[places[i]]->wp,
{
    let wanted = |i: int| inputs[i] is Green;
    selection::law_places_select(inputs.len(), wanted);
    lemma_green_selected(inputs, wanted, inputs.len());
    selection::places(inputs.len(), wanted)
}

proof fn lemma_green_selected<W>(
    inputs: Seq<ThinLtoInput<W>>,
    wanted: spec_fn(int) -> bool,
    count: nat,
)
    requires
        wanted == (|i: int| inputs[i] is Green),
        count <= inputs.len(),
    ensures
        ({
            let found = green_prefix(inputs, count);
            let places = selection::places(count, wanted);
            &&& found.len() == places.len()
            &&& forall|i: int|
                0 <= i < found.len() ==> #[trigger] found[i] == inputs[places[i]]->wp
        }),
    decreases count,
{
    if count > 0 {
        lemma_green_selected(inputs, wanted, (count - 1) as nat);
    }
}

/// Every input comes out again: as a module or as a work product.
pub proof fn law_thin_lto_loses_nothing<W>(inputs: Seq<ThinLtoInput<W>>)
    ensures
        red(inputs).len() + green(inputs).len() == inputs.len(),
{
    lemma_prefix_lengths(inputs, inputs.len());
}

proof fn lemma_prefix_lengths<W>(inputs: Seq<ThinLtoInput<W>>, count: nat)
    ensures
        red_prefix(inputs, count).len() + green_prefix(inputs, count).len() == count,
    decreases count,
{
    if count > 0 {
        lemma_prefix_lengths(inputs, (count - 1) as nat);
    }
}

impl MlirCodegenBackend {
    /// Wraps each module that needs work, and hands on the work product of each
    /// module that is cached.
    pub fn run_thin_lto<W>(inputs: Vec<ThinLtoInput<W>>) -> (res: (Vec<ThinModule>, Vec<W>))
        requires
            names_nul_free(inputs@),
        ensures
            passed_through(inputs@, res.0@, res.1@),
    {
        let ghost all = inputs@;
        let mut work_products: Vec<W> = Vec::new();
        let mut modules: Vec<ModuleBuffer> = Vec::new();
        let mut module_names: Vec<NulFree> = Vec::new();
        for input in it: inputs
            invariant
                it.seq() == all,
                names_nul_free(all),
                modules.len() == module_names.len(),
                modules.len() == red_prefix(all, it.index() as nat).len(),
                forall|i: int|
                    0 <= i < modules.len() ==> (module_names@[i]@, (#[trigger] modules@[i])@)
                        == red_prefix(all, it.index() as nat)[i],
                work_products@ == green_prefix(all, it.index() as nat),
        {
            assert(all[it.index() as int] == input);
            match input {
                ThinLtoInput::Red { name, buffer } => {
                    if let Some(name) = NulFree::new(name.as_str()) {
                        module_names.push(name);
                        modules.push(buffer);
                    }
                },
                ThinLtoInput::Green { wp } => {
                    work_products.push(wp);
                },
            }
        }
        let count = modules.len();
        let shared = Arc::new(ThinShared { data: ThinData {}, modules, module_names });
        let mut thin_modules: Vec<ThinModule> = Vec::new();
        for idx in 0..count
            invariant
                thin_modules.len() == idx,
                forall|i: int|
                    0 <= i < idx ==> (#[trigger] thin_modules@[i]).idx == i && thin_modules@[i].shared
                        == shared,
        {
            thin_modules.push(ThinModule { shared: Arc::clone(&shared), idx });
        }
        (thin_modules, work_products)
    }
}

/// The module that thin LTO hands on to be written: a fresh one with the
/// serialized bytes as its binary.
pub fn thin_module<K>(name: &str, data: &[u8]) -> (res: ModuleCodegen<K>)
    ensures
        res.name@ == name@,
        res.kind == module::ModuleKind::Regular,
        res.module_llvm@ == (module::ModuleView {
            compiled_bin: Some(data@),
            ..module::ModuleView::<K>::fresh(name@)
        }),
{
    let mut module: MlirModule<K> = MlirModule::new(name);
    module.compiled_bin = Some(slice_to_vec(data));
    ModuleCodegen::new_regular(name.to_owned(), module)
}

/// The files for a module that went through thin LTO: its bytes as the object
/// of its codegen unit.
pub open spec fn thin_files(bytes: Seq<u8>) -> Seq<(Destination, Seq<u8>)> {
    seq![(output::object_destination(), bytes)]
}

/// Whether `written` is what is written for a module that went through thin
/// LTO, and its record: the object is there, and nothing else.
pub open spec fn thin_written(
    thin: ThinModule,
    written: (Vec<OutputFile>, CompiledModule<Destination>),
) -> bool {
    let (files, compiled) = written;
    &&& output::file_list(files@) == thin_files(thin.data_view())
    &&& compiled.name@ == thin.name_view()
    &&& compiled.kind == module::ModuleKind::Regular
    &&& compiled.object == Some(output::object_destination())
    &&& compiled.assembly is None
    &&& compiled.dwarf_object is None
    &&& compiled.bytecode is None
    &&& compiled.llvm_ir is None
    &&& compiled.links_from_incr_cache@.len() == 0
}

/// What is written for a module that went through thin LTO is one file: the
/// object, with the module's own bytes. The record has the module's own name.
pub proof fn law_thin_object(
    thin: ThinModule,
    out: (Vec<OutputFile>, CompiledModule<Destination>),
)
    requires
        thin_written(thin, out),
    ensures
        out.0@.len() == 1,
        out.0@[0].destination == output::Destination::CguTemp(output::OutputType::Object),
        out.0@[0].bytes@ == thin.shared.modules@[thin.idx as int]@,
        out.1.name@ == thin.shared.module_names@[thin.idx as int]@,
        out.1.kind == module::ModuleKind::Regular,
        out.1.object == Some(output::Destination::CguTemp(output::OutputType::Object)),
        out.1.assembly is None && out.1.dwarf_object is None && out.1.bytecode is None
            && out.1.llvm_ir is None,
        out.1.links_from_incr_cache@.len() == 0,
{
    let listed = output::file_list(out.0@);
    assert(listed.len() == out.0@.len());
    assert(listed[0] == (out.0@[0].destination, out.0@[0].bytes@));
}

/// A module that is serialized and goes through thin LTO under a name ends in
/// an object of that name: its binary wherever it has one, else its assembly.
/// The result gives the place of the thin module.
pub proof fn law_thin_lto_round_trip<K, W>(
    module: MlirModule<K>,
    buffer: ModuleBuffer,
    inputs: Seq<ThinLtoInput<W>>,
    place: int,
    thin: Seq<ThinModule>,
    work_products: Seq<W>,
) -> (at: int)
    requires
        buffer@ == output::serialized(module@),
        0 <= place < inputs.len(),
        inputs[place] is Red,
        inputs[place]->buffer == buffer,
        passed_through(inputs, thin, work_products),
    ensures
        0 <= at < thin.len(),
        forall|out: (Vec<OutputFile>, CompiledModule<Destination>)| #[trigger]
            thin_written(thin[at], out) ==> {
                &&& out.1.name@ == inputs[place]->name@
                &&& match (module.compiled_bin, module.assembly) {
                    (Some(bin), _) => out.0@[0].bytes@ == bin@,
                    (None, Some(assembly)) => out.0@[0].bytes@ == vstd::utf8::encode_utf8(
                        assembly@,
                    ),
                    (None, None) => out.0@[0].bytes@.len() == 0,
                }
            },
{
    let places = law_thin_lto_wraps_each_module(inputs, thin, work_products);
    let wanted = |i: int| inputs[i] is Red;
    assert(wanted(place));
    assert(places.contains(place));
    let at = places.index_of(place);
    assert(thin[at].idx == at);
    assert forall|out: (Vec<OutputFile>, CompiledModule<Destination>)| #[trigger]
        thin_written(thin[at], out) implies out.1.name@ == inputs[place]->name@ && out.0@[0].bytes@
        == buffer@ by {
        law_thin_object(thin[at], out);
    }
    at
}

/// A module with a final artifact that is serialized and goes through thin LTO
/// ends in the same object as one that is written directly.
pub proof fn law_thin_lto_keeps_object<K, W>(
    module: module::ModuleView<K>,
    emit_assembly: bool,
    direct: Seq<(Destination, Seq<u8>)>,
    inputs: Seq<ThinLtoInput<W>>,
    i: int,
)
    requires
        output::artifact(module) is Some,
        output::files_for(module, emit_assembly, direct),
        0 <= i < red(inputs).len(),
        red(inputs)[i].1 == output::serialized(module),
    ensures
        thin_files(red(inputs)[i].1)[0] == direct[0],
        thin_files(red(inputs)[i].1)[0].1 == output::artifact(module)->0,
{
}

impl MlirCodegenBackend {
    /// Decides which files to write for a module that went through thin LTO.
    pub fn optimize_and_codegen_thin(thin: ThinModule) -> (res: (
        Vec<OutputFile>,
        CompiledModule<Destination>,
    ))
        requires
            thin.well_formed(),
        ensures
            thin_written(thin, res),
    {
        let module: ModuleCodegen<()> = thin_module(thin.name(), thin.data());
        let res = output::write_compiled_module(module, false);
        assert(output::file_list(res.0@) =~= thin_files(thin.data_view()));
        res
    }
}

} // verus!
