//! Modules on their way through the Triton pipeline.
use vstd::prelude::*;
use vstd::string::*;

verus! {

/// What can go wrong while a module is compiled.
#[derive(Debug)]
pub enum MlirError {
    CodegenFailed { err: String },
}

impl View for MlirError {
    type V = Seq<char>;

    /// The text of the error.
    open spec fn view(&self) -> Seq<char> {
        match *self {
            MlirError::CodegenFailed { err } => err@,
        }
    }
}

/// A module and what the pipeline has made of it so far. `K` describes the
/// kernels in the module's assembly.
#[derive(Debug)]
pub struct MlirModule<K> {
    pub name: String,
    /// The MLIR that was handed to Triton.
    pub mlir_source: Option<String>,
    /// The assembly that Triton produced.
    pub assembly: Option<String>,
    pub kernel_metadata: Option<K>,
    /// The binary that the backend linked, where it links one.
    pub compiled_bin: Option<Vec<u8>>,
}

/// An `MlirModule` as a mathematical value.
#[verifier::ext_equal]
pub struct ModuleView<K> {
    pub name: Seq<char>,
    pub mlir_source: Option<Seq<char>>,
    pub assembly: Option<Seq<char>>,
    pub kernel_metadata: Option<K>,
    pub compiled_bin: Option<Seq<u8>>,
}

/// The contents of an optional string.
pub open spec fn string_view(text: Option<String>) -> Option<Seq<char>> {
    match text {
        Some(t) => Some(t@),
        None => None,
    }
}

/// The contents of an optional byte vector.
pub open spec fn bytes_view(bytes: Option<Vec<u8>>) -> Option<Seq<u8>> {
    match bytes {
        Some(b) => Some(b@),
        None => None,
    }
}

impl<K> View for MlirModule<K> {
    type V = ModuleView<K>;

    open spec fn view(&self) -> ModuleView<K> {
        ModuleView {
            name: self.name@,
            mlir_source: string_view(self.mlir_source),
            assembly: string_view(self.assembly),
            kernel_metadata: self.kernel_metadata,
            compiled_bin: bytes_view(self.compiled_bin),
        }
    }
}

impl<K> ModuleView<K> {
    /// A module that nothing has been made of yet.
    pub open spec fn fresh(name: Seq<char>) -> ModuleView<K> {
        ModuleView {
            name,
            mlir_source: None,
            assembly: None,
            kernel_metadata: None,
            compiled_bin: None,
        }
    }
}

impl<K> MlirModule<K> {
    /// A module that nothing has been made of yet.
    pub fn new(name: &str) -> (res: MlirModule<K>)
        ensures
            res@ == ModuleView::<K>::fresh(name@),
    {
        MlirModule {
            name: name.to_owned(),
            mlir_source: None,
            assembly: None,
            kernel_metadata: None,
            compiled_bin: None,
        }
    }
}

/// A module that nothing has been made of has its name and nothing else.
pub proof fn law_fresh_module<K>(module: MlirModule<K>, name: Seq<char>)
    requires
        module@ == ModuleView::<K>::fresh(name),
    ensures
        module.name@ == name,
        module.mlir_source is None && module.assembly is None,
        module.kernel_metadata is None && module.compiled_bin is None,
{
    let view = module@;
    assert(view.mlir_source == string_view(module.mlir_source));
    assert(view.assembly == string_view(module.assembly));
    assert(view.compiled_bin == bytes_view(module.compiled_bin));
}

/// The passes that tidy a module up before Triton gets it.
#[derive(Debug, Copy, Clone, PartialEq, Eq, Structural)]
pub enum CleanupPass {
    Canonicalizer,
    SymbolDce,
}

/// The tidying passes in the order in which they run.
pub fn cleanup_passes() -> (res: Vec<CleanupPass>)
    ensures
        res@ == seq![CleanupPass::Canonicalizer, CleanupPass::SymbolDce],
{
    vec![CleanupPass::Canonicalizer, CleanupPass::SymbolDce]
}

/// Whether `res` is what a run of the tidying passes means for the module.
pub open spec fn cleaned_up(ran: Result<(), String>, res: Result<(), MlirError>) -> bool {
    match ran {
        Ok(()) => res is Ok,
        Err(text) => res matches Err(error) && error@ == text@,
    }
}

/// Tidying up succeeds exactly where the passes do, and their error reaches the
/// caller word for word.
pub proof fn law_cleanup(ran: Result<(), String>, res: Result<(), MlirError>)
    requires
        cleaned_up(ran, res),
    ensures
        res is Ok <==> ran is Ok,
        res matches Err(MlirError::CodegenFailed { err }) ==> err@ == ran->Err_0@,
{
}

/// What the run of the tidying passes means for the module: the text of the
/// pass manager's error becomes that of the backend's error.
pub fn cleanup_mlir_module(ran: Result<(), String>) -> (res: Result<(), MlirError>)
    ensures
        cleaned_up(ran, res),
{
    match ran {
        Ok(()) => Ok(()),
        Err(err) => Err(MlirError::CodegenFailed { err }),
    }
}

/// What Triton's compilation of a module gave.
#[derive(Debug)]
pub struct TritonOutput {
    /// Whether the compilation succeeded.
    pub ok: bool,
    /// The assembly, where there is one.
    pub assembly: Option<String>,
    /// The linked binary, where the backend links one.
    pub bin: Option<Vec<u8>>,
}

/// The error of a compilation that failed or gave no assembly.
pub open spec fn triton_failure(output: TritonOutput) -> Option<Seq<char>> {
    if !output.ok {
        Some("Triton compilation failed"@)
    } else if output.assembly is None {
        Some("Triton returned no ASM"@)
    } else {
        None
    }
}

/// A module after a compilation that gave `assembly`.
pub open spec fn with_output<K>(
    module: ModuleView<K>,
    assembly: Seq<char>,
    metadata: K,
    bin: Option<Seq<u8>>,
) -> ModuleView<K> {
    ModuleView {
        assembly: Some(assembly),
        kernel_metadata: Some(metadata),
        compiled_bin: bin,
        ..module
    }
}

/// Whether `after` is the module `before` with what Triton's compilation gave,
/// or the module as it was with an error.
pub open spec fn compiled_into<K, F: Fn(&String) -> K>(
    before: MlirModule<K>,
    output: TritonOutput,
    metadata_of: F,
    res: Result<(), MlirError>,
    after: MlirModule<K>,
) -> bool {
    match triton_failure(output) {
        Some(text) => {
            &&& res matches Err(error) && error@ == text
            &&& after == before
        },
        None => {
            &&& res is Ok
            &&& after@ == with_output(
                before@,
                output.assembly->0@,
                after.kernel_metadata->0,
                bytes_view(output.bin),
            )
            &&& call_ensures(metadata_of, (&output.assembly->0,), after.kernel_metadata->0)
        },
    }
}

/// A compilation counts exactly where Triton succeeded and gave assembly. The
/// module then has that assembly, that binary (or none), and metadata read out
/// of that assembly, and keeps its name and its MLIR; otherwise it stays as it
/// was, and the error says which of the two was missing.
pub proof fn law_compile_module<K, F: Fn(&String) -> K>(
    before: MlirModule<K>,
    output: TritonOutput,
    metadata_of: F,
    res: Result<(), MlirError>,
    after: MlirModule<K>,
)
    requires
        compiled_into(before, output, metadata_of, res, after),
    ensures
        res is Ok <==> output.ok && output.assembly is Some,
        res is Ok ==> {
            &&& after.assembly is Some && after.assembly->0@ == output.assembly->0@
            &&& output.bin is Some <==> after.compiled_bin is Some
            &&& output.bin is Some ==> after.compiled_bin->0@ == output.bin->0@
            &&& after.kernel_metadata is Some
            &&& call_ensures(metadata_of, (&output.assembly->0,), after.kernel_metadata->0)
            &&& after.name@ == before.name@
            &&& after.mlir_source is Some <==> before.mlir_source is Some
            &&& before.mlir_source is Some ==> after.mlir_source->0@ == before.mlir_source->0@
        },
        res is Err ==> after == before,
        !output.ok ==> res->Err_0@ == "Triton compilation failed"@,
        output.ok && output.assembly is None ==> res->Err_0@ == "Triton returned no ASM"@,
{
    if res is Ok {
        let view = after@;
        assert(view.assembly == string_view(after.assembly));
        assert(view.compiled_bin == bytes_view(after.compiled_bin));
        assert(view.mlir_source == string_view(after.mlir_source));
        assert(view.kernel_metadata == after.kernel_metadata);
        assert(view.name == after.name@);
    }
}

/// Records in the module what Triton's compilation gave. `metadata_of` reads
/// the kernel metadata out of the assembly.
pub fn compile_module<K, F: Fn(&String) -> K>(
    module: &mut MlirModule<K>,
    output: TritonOutput,
    metadata_of: F,
) -> (res: Result<(), MlirError>)
    requires
        output.ok ==> (output.assembly matches Some(assembly) ==> call_requires(
            metadata_of,
            (&assembly,),
        )),
    ensures
        compiled_into(*old(module), output, metadata_of, res, *final(module)),
{
    if !output.ok {
        return Err(MlirError::CodegenFailed { err: "Triton compilation failed".to_owned() });
    }
    let assembly = match output.assembly {
        Some(assembly) => assembly,
        None => {
            return Err(MlirError::CodegenFailed { err: "Triton returned no ASM".to_owned() });
        },
    };
    let metadata = metadata_of(&assembly);
    module.kernel_metadata = Some(metadata);
    module.assembly = Some(assembly);
    module.compiled_bin = output.bin;
    Ok(())
}

/// A stage of the pipeline with the IR it ended in.
#[derive(Debug)]
pub struct StageIr {
    pub stage: &'static str,
    pub ir: String,
}

/// The contents of an optional text, or nothing.
pub open spec fn text_or_empty(text: Option<Seq<char>>) -> Seq<char> {
    match text {
        Some(t) => t,
        None => Seq::empty(),
    }
}

/// A list of stages as names and texts.
pub open spec fn stage_list(stages: Seq<StageIr>) -> Seq<(Seq<char>, Seq<char>)> {
    Seq::new(stages.len(), |i: int| (stages[i].stage@, stages[i].ir@))
}

/// Whether `stages` are the stages of the pipeline, each with its text.
pub open spec fn staged(
    mlir: Option<String>,
    ttir: Option<String>,
    ttgir: Option<String>,
    llir: Option<String>,
    llvmir: Option<String>,
    assembly: Seq<char>,
    stages: Seq<StageIr>,
) -> bool {
    stage_list(stages) == seq![
        ("mlir"@, text_or_empty(string_view(mlir))),
        ("ttir"@, text_or_empty(string_view(ttir))),
        ("ttgir"@, text_or_empty(string_view(ttgir))),
        ("llir"@, text_or_empty(string_view(llir))),
        ("llvmir"@, text_or_empty(string_view(llvmir))),
        ("asm"@, assembly),
    ]
}

/// There are six stages. The texts that were captured stand in the order of the
/// pipeline, each whole and under the name of its own stage; the others are
/// empty, and the assembly is always there.
pub proof fn law_stages(
    mlir: Option<String>,
    ttir: Option<String>,
    ttgir: Option<String>,
    llir: Option<String>,
    llvmir: Option<String>,
    assembly: Seq<char>,
    stages: Seq<StageIr>,
)
    requires
        staged(mlir, ttir, ttgir, llir, llvmir, assembly, stages),
    ensures
        stages.len() == 6,
        stages[0].stage@ == "mlir"@ && stages[1].stage@ == "ttir"@ && stages[2].stage@ == "ttgir"@,
        stages[3].stage@ == "llir"@ && stages[4].stage@ == "llvmir"@ && stages[5].stage@ == "asm"@,
        ({
            let captured = seq![mlir, ttir, ttgir, llir, llvmir];
            forall|i: int|
                0 <= i < 5 ==> match #[trigger] captured[i] {
                    Some(ir) => stages[i].ir@ == ir@,
                    None => stages[i].ir@.len() == 0,
                }
        }),
        stages[5].ir@ == assembly,
{
    let listed = stage_list(stages);
    assert(listed.len() == 6);
    assert(listed[0] == (stages[0].stage@, stages[0].ir@));
    assert(listed[1] == (stages[1].stage@, stages[1].ir@));
    assert(listed[2] == (stages[2].stage@, stages[2].ir@));
    assert(listed[3] == (stages[3].stage@, stages[3].ir@));
    assert(listed[4] == (stages[4].stage@, stages[4].ir@));
    assert(listed[5] == (stages[5].stage@, stages[5].ir@));
}

/// The IR of each stage of the pipeline, from the MLIR that Triton was given
/// to the assembly, each stage once and with empty text where nothing was
/// captured.
pub fn pipeline_stages<K>(
    module: &MlirModule<K>,
    ttir: Option<String>,
    ttgir: Option<String>,
    llir: Option<String>,
    llvmir: Option<String>,
    assembly: &str,
) -> (res: Vec<StageIr>)
    ensures
        staged(module.mlir_source, ttir, ttgir, llir, llvmir, assembly@, res@),
{
    let ghost expected = seq![
        ("mlir"@, text_or_empty(string_view(module.mlir_source))),
        ("ttir"@, text_or_empty(string_view(ttir))),
        ("ttgir"@, text_or_empty(string_view(ttgir))),
        ("llir"@, text_or_empty(string_view(llir))),
        ("llvmir"@, text_or_empty(string_view(llvmir))),
        ("asm"@, assembly@),
    ];
    let source = match &module.mlir_source {
        Some(source) => source.clone(),
        None => String::new(),
    };
    let stages = vec![
        StageIr { stage: "mlir", ir: source },
        StageIr { stage: "ttir", ir: ttir.unwrap_or(String::new()) },
        StageIr { stage: "ttgir", ir: ttgir.unwrap_or(String::new()) },
        StageIr { stage: "llir", ir: llir.unwrap_or(String::new()) },
        StageIr { stage: "llvmir", ir: llvmir.unwrap_or(String::new()) },
        StageIr { stage: "asm", ir: assembly.to_owned() },
    ];
    assert(stage_list(stages@) =~~= expected);
    stages
}

/// The kinds of module that the compiler hands to a backend.
#[derive(Debug, Copy, Clone, PartialEq, Eq, Structural)]
pub enum ModuleKind {
    Regular,
    Allocator,
}

/// A module with the codegen unit that it belongs to.
#[derive(Debug)]
pub struct ModuleCodegen<K> {
    pub name: String,
    pub module_llvm: MlirModule<K>,
    pub kind: ModuleKind,
}

impl<K> ModuleCodegen<K> {
    /// A regular module of the codegen unit `name`.
    pub fn new_regular(name: String, module: MlirModule<K>) -> (res: ModuleCodegen<K>)
        ensures
            res == (ModuleCodegen { name, module_llvm: module, kind: ModuleKind::Regular }),
    {
        ModuleCodegen { name, module_llvm: module, kind: ModuleKind::Regular }
    }
}

} // verus!
