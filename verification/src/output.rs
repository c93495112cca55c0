//! What becomes of a compiled module: its final artifact, the files to write
//! and the copies that stand in for linking.
use crate::backend::MlirCodegenBackend;
use crate::module::{MlirModule, ModuleCodegen, ModuleKind, ModuleView};
use crate::{selection, text};
use vstd::prelude::*;
use vstd::string::*;

verus! {

/// The bytes of a serialized module.
#[derive(Debug)]
pub struct ModuleBuffer {
    data: Vec<u8>,
}

impl View for ModuleBuffer {
    type V = Seq<u8>;

    closed spec fn view(&self) -> Seq<u8> {
        self.data@
    }
}

impl ModuleBuffer {
    /// An empty buffer.
    pub fn new() -> (res: ModuleBuffer)
        ensures
            res@ == Seq::<u8>::empty(),
    {
        ModuleBuffer { data: Vec::new() }
    }

    /// The bytes of the buffer.
    pub fn data(&self) -> (res: &[u8])
        ensures
            res@ == self@,
    {
        self.data.as_slice()
    }
}

/// The final artifact of a module: the linked binary where there is one, else
/// the text of the assembly where there is one.
pub open spec fn artifact<K>(module: ModuleView<K>) -> Option<Seq<u8>> {
    match (module.compiled_bin, module.assembly) {
        (Some(bin), _) => Some(bin),
        (None, Some(assembly)) => Some(vstd::utf8::encode_utf8(assembly)),
        (None, None) => None,
    }
}

/// Whether a module has a final artifact.
pub fn has_output<K>(module: &MlirModule<K>) -> (res: bool)
    ensures
        res == (artifact(module@) is Some),
{
    module.compiled_bin.is_some() || module.assembly.is_some()
}

/// The bytes that a module is serialized to: its final artifact, or nothing.
pub open spec fn serialized<K>(module: ModuleView<K>) -> Seq<u8> {
    match artifact(module) {
        Some(bytes) => bytes,
        None => Seq::empty(),
    }
}

impl MlirCodegenBackend {
    /// Serializes a module to its final artifact, or to nothing where it has none.
    /// It makes no difference whether the buffer is for thin or fat LTO.
    pub fn serialize_module<K>(module: MlirModule<K>, _is_thin: bool) -> (res: ModuleBuffer)
        ensures
            res@ == serialized(module@),
    {
        let data = match module.compiled_bin {
            Some(bin) => bin,
            None => match module.assembly {
                Some(assembly) => assembly.as_str().as_bytes_vec(),
                None => Vec::new(),
            },
        };
        ModuleBuffer { data }
    }
}

/// The kinds of output file that the backend deals in.
#[derive(Debug, Copy, Clone, PartialEq, Eq, Structural)]
pub enum OutputType {
    Object,
    Assembly,
}

/// Where a file goes, in terms of the compiler's output file names.
#[derive(Debug, Copy, Clone)]
pub enum Destination {
    /// The temporary file of the given type of the module's codegen unit.
    CguTemp(OutputType),
    /// The output of the given type of the whole crate, with another
    /// extension.
    CrateOutput { flavor: OutputType, extension: &'static str },
}

/// A file to write.
#[derive(Debug)]
pub struct OutputFile {
    pub destination: Destination,
    pub bytes: Vec<u8>,
}

/// A list of files as destinations and contents.
pub open spec fn file_list(files: Seq<OutputFile>) -> Seq<(Destination, Seq<u8>)> {
    Seq::new(files.len(), |i: int| (files[i].destination, files[i].bytes@))
}

/// The record of a compiled module. `P` tells where a file is.
#[derive(Debug)]
pub struct CompiledModule<P> {
    pub name: String,
    pub kind: ModuleKind,
    pub object: Option<P>,
    pub dwarf_object: Option<P>,
    pub bytecode: Option<P>,
    pub assembly: Option<P>,
    pub llvm_ir: Option<P>,
    pub links_from_incr_cache: Vec<P>,
}

/// The temporary object file of a codegen unit.
pub open spec fn object_destination() -> Destination {
    Destination::CguTemp(OutputType::Object)
}

/// The temporary assembly file of a codegen unit.
pub open spec fn assembly_destination() -> Destination {
    Destination::CguTemp(OutputType::Assembly)
}

/// Whether a file is what a module's MLIR source goes to: beside the crate's
/// output, with the extension `mlir`.
pub open spec fn is_mlir_destination(destination: Destination) -> bool {
    destination matches Destination::CrateOutput { flavor, extension } && flavor
        == OutputType::Object && extension@ == "mlir"@
}

/// The files for a module with a final artifact: the artifact as the object of
/// its codegen unit; its assembly too, where that is asked for and there is
/// any; and its MLIR source where it was captured.
pub open spec fn files_for<K>(
    module: ModuleView<K>,
    emit_assembly: bool,
    files: Seq<(Destination, Seq<u8>)>,
) -> bool {
    let with_assembly = emit_assembly && module.assembly is Some;
    let first = if with_assembly {
        2int
    } else {
        1int
    };
    &&& files.len() == first + if module.mlir_source is Some {
        1int
    } else {
        0int
    }
    &&& files[0] == (object_destination(), artifact(module)->0)
    &&& with_assembly ==> files[1] == (
        assembly_destination(),
        vstd::utf8::encode_utf8(module.assembly->0),
    )
    &&& module.mlir_source matches Some(source) ==> is_mlir_destination(files[first].0)
        && files[first].1 == vstd::utf8::encode_utf8(source)
}

/// Whether `written` is what is written for a module of a codegen unit, and
/// its record: the object is the artifact, the assembly is there where it was
/// written, and there is nothing else.
pub open spec fn written<K>(
    name: Seq<char>,
    kind: ModuleKind,
    module: ModuleView<K>,
    emit_assembly: bool,
    written: (Vec<OutputFile>, CompiledModule<Destination>),
) -> bool {
    let (files, compiled) = written;
    &&& files_for(module, emit_assembly, file_list(files@))
    &&& compiled.name@ == name
    &&& compiled.kind == kind
    &&& compiled.object == Some(object_destination())
    &&& compiled.assembly == if emit_assembly && module.assembly is Some {
        Some(assembly_destination())
    } else {
        None
    }
    &&& compiled.dwarf_object is None
    &&& compiled.bytecode is None
    &&& compiled.llvm_ir is None
    &&& compiled.links_from_incr_cache@.len() == 0
}

/// The object of a module is its binary wherever it has one, whatever else it
/// has, and the module is serialized to the same bytes. Only without a binary
/// are both the assembly.
pub proof fn law_binary_is_the_object<K>(
    module: ModuleCodegen<K>,
    emit_assembly: bool,
    out: (Vec<OutputFile>, CompiledModule<Destination>),
)
    requires
        written(module.name@, module.kind, module.module_llvm@, emit_assembly, out),
    ensures
        out.0@.len() > 0,
        out.0@[0].destination == Destination::CguTemp(OutputType::Object),
        out.1.object == Some(Destination::CguTemp(OutputType::Object)),
        module.module_llvm.compiled_bin matches Some(bin) ==> out.0@[0].bytes@ == bin@
            && serialized(module.module_llvm@) == bin@,
        module.module_llvm.compiled_bin is None ==> (module.module_llvm.assembly matches Some(
            assembly,
        ) ==> out.0@[0].bytes@ == vstd::utf8::encode_utf8(assembly@) && serialized(
            module.module_llvm@,
        ) == vstd::utf8::encode_utf8(assembly@)),
{
    let listed = file_list(out.0@);
    assert(listed[0] == (out.0@[0].destination, out.0@[0].bytes@));
}

/// A module has a final artifact exactly where it has a binary or assembly;
/// without either it is serialized to nothing.
pub proof fn law_artifact_exists<K>(module: MlirModule<K>)
    ensures
        artifact(module@) is Some <==> module.compiled_bin is Some || module.assembly is Some,
        module.compiled_bin is None && module.assembly is None ==> serialized(module@)
            == Seq::<u8>::empty(),
{
}

/// The files beside the object: the text of the assembly where it is asked for
/// and there is any, and the text of the MLIR source where it was captured;
/// each once, and nothing else. The record names the unit and says what was
/// written.
pub proof fn law_written_files<K>(
    module: ModuleCodegen<K>,
    emit_assembly: bool,
    out: (Vec<OutputFile>, CompiledModule<Destination>),
)
    requires
        written(module.name@, module.kind, module.module_llvm@, emit_assembly, out),
    ensures
        ({
            let files = out.0@;
            let compiled = out.1;
            &&& forall|i: int|
                1 <= i < files.len() ==> (#[trigger] files[i]).destination != Destination::CguTemp(
                    OutputType::Object,
                )
            &&& match (emit_assembly, module.module_llvm.assembly) {
                (true, Some(assembly)) => {
                    &&& files.len() >= 2
                    &&& files[1].destination == Destination::CguTemp(OutputType::Assembly)
                    &&& files[1].bytes@ == vstd::utf8::encode_utf8(assembly@)
                    &&& compiled.assembly == Some(Destination::CguTemp(OutputType::Assembly))
                },
                _ => {
                    &&& forall|i: int|
                        0 <= i < files.len() ==> (#[trigger] files[i]).destination
                            != Destination::CguTemp(OutputType::Assembly)
                    &&& compiled.assembly is None
                },
            }
            &&& match module.module_llvm.mlir_source {
                Some(source) => {
                    &&& files.len() >= 2
                    &&& files.last().destination matches Destination::CrateOutput {
                        flavor,
                        extension,
                    } && flavor == OutputType::Object && extension@ == "mlir"@
                    &&& files.last().bytes@ == vstd::utf8::encode_utf8(source@)
                    &&& forall|i: int|
                        0 <= i < files.len() - 1 ==> (#[trigger] files[i]).destination is CguTemp
                },
                None => forall|i: int|
                    0 <= i < files.len() ==> (#[trigger] files[i]).destination is CguTemp,
            }
            &&& files.len() <= 3
            &&& compiled.name@ == module.name@
            &&& compiled.kind == module.kind
            &&& compiled.dwarf_object is None && compiled.bytecode is None && compiled.llvm_ir is None
            &&& compiled.links_from_incr_cache@.len() == 0
        }),
{
    let files = out.0@;
    let listed = file_list(files);
    assert forall|i: int| 0 <= i < files.len() implies #[trigger] listed[i] == (
        files[i].destination,
        files[i].bytes@,
    ) by {}
    assert forall|i: int| 0 <= i < files.len() implies (#[trigger] files[i]).destination
        == listed[i].0 && files[i].bytes@ == listed[i].1 by {}
    let with_assembly = emit_assembly && module.module_llvm.assembly is Some;
    if with_assembly && module.module_llvm.mlir_source is Some {
        assert(files.len() == 3);
    } else if with_assembly || module.module_llvm.mlir_source is Some {
        assert(files.len() == 2);
    } else {
        assert(files.len() == 1);
    }
    assert(files.last() == files[files.len() - 1]);
}

/// Decides which files to write for a compiled module, and records the module
/// as compiled. `emit_assembly` asks for the assembly beside the object.
pub fn write_compiled_module<K>(module: ModuleCodegen<K>, emit_assembly: bool) -> (res: (
    Vec<OutputFile>,
    CompiledModule<Destination>,
))
    requires
        artifact(module.module_llvm@) is Some,
    ensures
        written(module.name@, module.kind, module.module_llvm@, emit_assembly, res),
{
    let ModuleCodegen { name, module_llvm, kind } = module;
    let mut files: Vec<OutputFile> = Vec::new();
    let object = Destination::CguTemp(OutputType::Object);
    let mut assembly: Option<Destination> = None;
    let bytes = match module_llvm.compiled_bin {
        Some(bin) => bin,
        None => match &module_llvm.assembly {
            Some(text) => text.as_str().as_bytes_vec(),
            None => Vec::new(),
        },
    };
    files.push(OutputFile { destination: object, bytes });
    if emit_assembly {
        if let Some(text) = &module_llvm.assembly {
            let destination = Destination::CguTemp(OutputType::Assembly);
            files.push(OutputFile { destination, bytes: text.as_str().as_bytes_vec() });
            assembly = Some(destination);
        }
    }
    if let Some(source) = &module_llvm.mlir_source {
        files.push(
            OutputFile {
                destination: Destination::CrateOutput {
                    flavor: OutputType::Object,
                    extension: "mlir",
                },
                bytes: source.as_str().as_bytes_vec(),
            },
        );
    }
    let compiled = CompiledModule {
        name,
        kind,
        object: Some(object),
        dwarf_object: None,
        bytecode: None,
        assembly,
        llvm_ir: None,
        links_from_incr_cache: Vec::new(),
    };
    (files, compiled)
}

/// The objects of the first `count` modules that have one, in order.
pub open spec fn objects_prefix<P>(modules: Seq<CompiledModule<P>>, count: nat) -> Seq<P>
    decreases count,
{
    if count == 0 {
        Seq::empty()
    } else {
        let before = objects_prefix(modules, (count - 1) as nat);
        match modules[count - 1].object {
            Some(object) => before.push(object),
            None => before,
        }
    }
}

/// The objects of the modules that have one, in order.
pub open spec fn objects<P>(modules: Seq<CompiledModule<P>>) -> Seq<P> {
    objects_prefix(modules, modules.len())
}

/// Whether `copied` are the objects of the modules that have one, in order.
pub open spec fn linked<P>(modules: Seq<CompiledModule<P>>, copied: Seq<&P>) -> bool {
    &&& copied.len() == objects(modules).len()
    &&& forall|i: int| 0 <= i < copied.len() ==> *(#[trigger] copied[i]) == objects(modules)[i]
}

impl MlirCodegenBackend {
    /// Decides what is copied to the output of the compilation, in place of
    /// linking: the object of each module that has one, one after the other.
    /// `first_link_step` and `next_link_step` say how the copying goes on.
    pub fn link<'a, P>(&self, modules: &'a Vec<CompiledModule<P>>) -> (res: Vec<&'a P>)
        ensures
            linked(modules@, res@),
    {
        let mut res: Vec<&'a P> = Vec::new();
        for i in 0..modules.len()
            invariant
                res.len() == objects_prefix(modules@, i as nat).len(),
                forall|k: int|
                    0 <= k < res.len() ==> *(#[trigger] res[k]) == objects_prefix(modules@, i as nat)[k],
        {
            if let Some(object) = &modules[i].object {
                res.push(object);
            }
        }
        res
    }
}

/// The files after copying each of the first `count` sources to `output`.
pub open spec fn after_copies<P>(
    files: Map<P, Seq<u8>>,
    sources: Seq<P>,
    output: P,
    count: nat,
) -> Map<P, Seq<u8>>
    decreases count,
{
    if count == 0 {
        files
    } else {
        let before = after_copies(files, sources, output, (count - 1) as nat);
        before.insert(output, before[sources[count - 1]])
    }
}

/// Where all objects exist and none is the output itself, the output ends up
/// as the object of the last module that has one, and no other file changes.
pub proof fn law_link_keeps_last_object<P>(
    files: Map<P, Seq<u8>>,
    modules: Seq<CompiledModule<P>>,
    output: P,
    other: P,
)
    requires
        !objects(modules).contains(output),
        forall|i: int|
            0 <= i < objects(modules).len() ==> files.contains_key(#[trigger] objects(modules)[i]),
    ensures
        ({
            let sources = objects(modules);
            let after = after_copies(files, sources, output, sources.len());
            &&& sources.len() > 0 ==> after.contains_key(output) && after[output]
                == files[sources.last()]
            &&& sources.len() == 0 ==> after == files
            &&& other != output ==> after[other] == files[other] && (after.contains_key(other)
                <==> files.contains_key(other))
        }),
{
    let sources = objects(modules);
    lemma_copies_leave_others(files, sources, output, other, sources.len());
    if sources.len() > 0 {
        let count = (sources.len() - 1) as nat;
        assert(sources[count as int] == sources.last());
        assert(sources.contains(sources.last()));
        lemma_copies_leave_others(files, sources, output, sources.last(), count);
    }
}

proof fn lemma_copies_leave_others<P>(
    files: Map<P, Seq<u8>>,
    sources: Seq<P>,
    output: P,
    other: P,
    count: nat,
)
    ensures
        other != output ==> {
            let after = after_copies(files, sources, output, count);
            &&& after[other] == files[other]
            &&& after.contains_key(other) <==> files.contains_key(other)
        },
    decreases count,
{
    if count > 0 {
        lemma_copies_leave_others(files, sources, output, other, (count - 1) as nat);
    }
}

/// Exactly the objects of the modules that have one are copied, in the order of
/// the modules: the result gives the places of these modules.
pub proof fn law_link_copies_every_object<P>(
    modules: Seq<CompiledModule<P>>,
    copied: Seq<&P>,
) -> (places: Seq<int>)
    requires
        linked(modules, copied),
    ensures
        selection::selects(places, modules.len(), |i: int| modules[i].object is Some),
        copied.len() == places.len(),
        forall|i: int|
            0 <= i < copied.len() ==> modules[places[i]].object == Some(*(#[trigger] copied[i])),
{
    let wanted = |i: int| modules[i].object is Some;
    selection::law_places_select(modules.len(), wanted);
    lemma_objects_selected(modules, wanted, modules.len());
    selection::places(modules.len(), wanted)
}

proof fn lemma_objects_selected<P>(
    modules: Seq<CompiledModule<P>>,
    wanted: spec_fn(int) -> bool,
    count: nat,
)
    requires
        wanted == (|i: int| modules[i].object is Some),
        count <= modules.len(),
    ensures
        ({
            let found = objects_prefix(modules, count);
            let places = selection::places(count, wanted);
            &&& found.len() == places.len()
            &&& forall|i: int|
                0 <= i < found.len() ==> modules[places[i]].object == Some(#[trigger] found[i])
        }),
    decreases count,
{
    if count > 0 {
        lemma_objects_selected(modules, wanted, (count - 1) as nat);
    }
}

/// Where all objects exist and none is the output itself, the output ends up
/// with the contents of the object of the module at `last`, if that is the
/// last one with an object. Without any object no file changes.
pub proof fn law_link_output<P>(
    files: Map<P, Seq<u8>>,
    modules: Seq<CompiledModule<P>>,
    copied: Seq<&P>,
    output: P,
    last: int,
)
    requires
        linked(modules, copied),
        forall|i: int|
            0 <= i < modules.len() ==> ((#[trigger] modules[i]).object matches Some(object)
                ==> object != output && files.contains_key(object)),
        -1 <= last < modules.len(),
        last >= 0 ==> modules[last].object is Some,
        forall|i: int| last < i < modules.len() ==> (#[trigger] modules[i]).object is None,
    ensures
        ({
            let sources = Seq::new(copied.len(), |i: int| *copied[i]);
            let after = after_copies(files, sources, output, sources.len());
            &&& last >= 0 ==> after.contains_key(output) && after[output]
                == files[modules[last].object->0]
            &&& last < 0 ==> after == files
        }),
{
    let places = law_link_copies_every_object(modules, copied);
    let sources = Seq::new(copied.len(), |i: int| *copied[i]);
    let wanted = |i: int| modules[i].object is Some;
    if last >= 0 {
        assert(wanted(last));
        assert(places.contains(last));
        let at = places.index_of(last);
        let end = places.len() - 1;
        assert(places[end] == last) by {
            if at < end {
                assert(places[at] < places[end]);
                assert(modules[places[end]].object is None);
            }
        }
        assert(modules[last].object == Some(*copied[end]));
        assert(sources[end] == modules[last].object->0);
        lemma_copies_leave_others(files, sources, output, sources[end], end as nat);
    } else {
        assert(places.len() == 0) by {
            if places.len() > 0 {
                assert(wanted(places[0]));
                assert(modules[places[0]].object is None);
            }
        }
    }
}

/// The message for an object that could not be copied to the output.
pub open spec fn link_failure_text(output: Seq<char>, error: Seq<char>) -> Seq<char> {
    "failed to write output to "@ + output + ": "@ + error
}

/// The messages for two failed copies say the same, each of its own output and
/// its own error.
pub proof fn law_link_failure_text(
    output: Seq<char>,
    other_output: Seq<char>,
    error: Seq<char>,
    other_error: Seq<char>,
)
    ensures
        text::alike_but_for(
            link_failure_text(output, error),
            output,
            link_failure_text(other_output, error),
            other_output,
        ),
        text::alike_but_for(
            link_failure_text(output, error),
            error,
            link_failure_text(output, other_error),
            other_error,
        ),
{
    let start = "failed to write output to "@;
    let empty = Seq::<char>::empty();
    assert(link_failure_text(output, error) =~= start + output + (": "@ + error));
    assert(link_failure_text(other_output, error) =~= start + other_output + (": "@ + error));
    text::law_alike(start, output, other_output, ": "@ + error);
    let upto = start + output + ": "@;
    assert(link_failure_text(output, error) =~= upto + error + empty);
    assert(link_failure_text(output, other_error) =~= upto + other_error + empty);
    text::law_alike(upto, error, other_error, empty);
}

/// Says that an object could not be copied to the output of the compilation.
pub fn link_failure(output: &str, error: &str) -> (res: String)
    ensures
        res@ == link_failure_text(output@, error@),
{
    "failed to write output to ".to_owned().concat(output).concat(": ").concat(error)
}

/// What is to be done next while objects are copied to the output.
#[derive(Debug)]
pub enum LinkStep {
    /// Copy the object at this place.
    Copy { index: usize },
    /// Nothing; every object is copied.
    Done,
    /// Nothing; give up with this message.
    Fail { message: String },
}

/// A `LinkStep` as a mathematical value.
#[verifier::ext_equal]
pub enum LinkStepView {
    Copy { index: usize },
    Done,
    Fail { message: Seq<char> },
}

impl View for LinkStep {
    type V = LinkStepView;

    open spec fn view(&self) -> LinkStepView {
        match *self {
            LinkStep::Copy { index } => LinkStepView::Copy { index },
            LinkStep::Done => LinkStepView::Done,
            LinkStep::Fail { message } => LinkStepView::Fail { message: message@ },
        }
    }
}

/// The step when the objects before `index` of `count` are copied.
pub open spec fn link_from(count: usize, index: usize) -> LinkStepView {
    if index < count {
        LinkStepView::Copy { index }
    } else {
        LinkStepView::Done
    }
}

/// The step after the copy of the object at `index`: the next object where the
/// copy succeeded, else the end with a message.
pub open spec fn link_after(
    count: usize,
    index: usize,
    copied: Result<(), Seq<char>>,
    output: Seq<char>,
) -> LinkStepView {
    match copied {
        Ok(()) => link_from(count, (index + 1) as usize),
        Err(error) => LinkStepView::Fail { message: link_failure_text(output, error) },
    }
}

/// The first step of copying `count` objects.
pub fn first_link_step(count: usize) -> (res: LinkStep)
    ensures
        res@ == link_from(count, 0),
{
    if 0 < count {
        LinkStep::Copy { index: 0 }
    } else {
        LinkStep::Done
    }
}

/// Takes the outcome of the copy of the object at `index` of `count` to
/// `output`: no object is copied after one that could not be copied.
pub fn next_link_step(
    count: usize,
    index: usize,
    copied: Result<(), String>,
    output: &str,
) -> (res: LinkStep)
    requires
        index < count,
    ensures
        res@ == link_after(
            count,
            index,
            match copied {
                Ok(()) => Ok(()),
                Err(error) => Err(error@),
            },
            output@,
        ),
{
    match copied {
        Ok(()) => if index + 1 < count {
            LinkStep::Copy { index: index + 1 }
        } else {
            LinkStep::Done
        },
        Err(error) => LinkStep::Fail { message: link_failure(output, error.as_str()) },
    }
}

/// The step after the first `n` copies had the given outcomes. Once there is
/// nothing to copy, no outcome changes that.
pub open spec fn link_progress(
    count: usize,
    outcomes: Seq<Result<(), Seq<char>>>,
    output: Seq<char>,
    n: nat,
) -> LinkStepView
    decreases n,
{
    if n == 0 {
        link_from(count, 0)
    } else {
        let before = link_progress(count, outcomes, output, (n - 1) as nat);
        match before {
            LinkStepView::Copy { index } => link_after(count, index, outcomes[n - 1], output),
            _ => before,
        }
    }
}

/// Where the first `n` copies succeed, the objects are copied one by one, each
/// once and in order, until none is left.
pub proof fn law_link_copies_in_order(
    count: usize,
    outcomes: Seq<Result<(), Seq<char>>>,
    output: Seq<char>,
    n: nat,
)
    requires
        n <= count,
        n <= outcomes.len(),
        forall|i: int| 0 <= i < n ==> (#[trigger] outcomes[i]) is Ok,
    ensures
        link_progress(count, outcomes, output, n) == link_from(count, n as usize),
        n < count ==> link_progress(count, outcomes, output, n) == (LinkStepView::Copy {
            index: n as usize,
        }),
        n == count ==> link_progress(count, outcomes, output, n) is Done,
    decreases n,
{
    if n > 0 {
        law_link_copies_in_order(count, outcomes, output, (n - 1) as nat);
        assert(outcomes[n - 1] is Ok);
    }
}

/// The first copy that fails ends the linking with its message, and no later
/// object is copied.
pub proof fn law_link_stops_at_first_failure(
    count: usize,
    outcomes: Seq<Result<(), Seq<char>>>,
    output: Seq<char>,
    failed: nat,
    n: nat,
)
    requires
        failed < count,
        failed < n <= outcomes.len(),
        forall|i: int| 0 <= i < failed ==> (#[trigger] outcomes[i]) is Ok,
        outcomes[failed as int] is Err,
    ensures
        link_progress(count, outcomes, output, n) == (LinkStepView::Fail {
            message: link_failure_text(output, outcomes[failed as int]->Err_0),
        }),
    decreases n,
{
    if n == failed + 1 {
        law_link_copies_in_order(count, outcomes, output, failed);
    } else {
        law_link_stops_at_first_failure(count, outcomes, output, failed, (n - 1) as nat);
    }
}

} // verus!
