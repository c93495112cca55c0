use mlir_backend::backend::MlirCodegenBackend;
use mlir_backend::lto::ThinLtoInput;
use mlir_backend::module::{
    cleanup_mlir_module, cleanup_passes, compile_module, pipeline_stages, CleanupPass, MlirError,
    MlirModule, ModuleCodegen, ModuleKind, TritonOutput,
};
use mlir_backend::output::{
    first_link_step, has_output, link_failure, next_link_step, write_compiled_module,
    CompiledModule, Destination, LinkStep, ModuleBuffer, OutputFile, OutputType,
};
use mlir_backend::target::{Arch, Session};
use mlir_backend::unit::{CodegenUnit, UnitAction, UnitEvent, UnitState};

fn error_text(error: &MlirError) -> &str {
    match error {
        MlirError::CodegenFailed { err } => err,
    }
}

fn length(assembly: &String) -> usize {
    assembly.len()
}

fn output(ok: bool, assembly: Option<&str>, bin: Option<&[u8]>) -> TritonOutput {
    TritonOutput { ok, assembly: assembly.map(|s| s.to_string()), bin: bin.map(|b| b.to_vec()) }
}

fn module(assembly: Option<&str>, bin: Option<&[u8]>, source: Option<&str>) -> MlirModule<usize> {
    let mut module = MlirModule::new("unit");
    module.assembly = assembly.map(|s| s.to_string());
    module.compiled_bin = bin.map(|b| b.to_vec());
    module.mlir_source = source.map(|s| s.to_string());
    module
}

fn describe(file: &OutputFile) -> (&'static str, &[u8]) {
    let place = match file.destination {
        Destination::CguTemp(OutputType::Object) => "object",
        Destination::CguTemp(OutputType::Assembly) => "assembly",
        Destination::CrateOutput { flavor: OutputType::Object, extension } => extension,
        Destination::CrateOutput { flavor: OutputType::Assembly, .. } => "other",
    };
    (place, &file.bytes)
}

#[test]
fn cleanup_runs_two_passes() {
    assert_eq!(cleanup_passes(), [CleanupPass::Canonicalizer, CleanupPass::SymbolDce]);
    assert!(cleanup_mlir_module(Ok(())).is_ok());
    let error = cleanup_mlir_module(Err("pass failed".to_string())).unwrap_err();
    assert_eq!(error_text(&error), "pass failed");
}

#[test]
fn compile_module_records_the_output() {
    let mut m = module(None, None, Some("src"));
    compile_module(&mut m, output(true, Some("ptx"), None), length).unwrap();
    assert_eq!(m.assembly.as_deref(), Some("ptx"));
    assert_eq!(m.kernel_metadata, Some(3));
    assert!(m.compiled_bin.is_none());
    assert_eq!(m.mlir_source.as_deref(), Some("src"));

    compile_module(&mut m, output(true, Some("riscv"), Some(&[0, 1])), length).unwrap();
    assert_eq!(m.assembly.as_deref(), Some("riscv"));
    assert_eq!(m.kernel_metadata, Some(5));
    assert_eq!(m.compiled_bin.as_deref(), Some(&[0u8, 1][..]));
}

#[test]
fn compile_module_errors_leave_the_module() {
    let mut m = module(None, None, Some("src"));
    let error = compile_module(&mut m, output(false, Some("ptx"), Some(&[1])), length).unwrap_err();
    assert_eq!(error_text(&error), "Triton compilation failed");
    let error = compile_module(&mut m, output(true, None, Some(&[1])), length).unwrap_err();
    assert_eq!(error_text(&error), "Triton returned no ASM");
    assert!(m.assembly.is_none());
    assert!(m.kernel_metadata.is_none());
    assert!(m.compiled_bin.is_none());
    assert_eq!(m.mlir_source.as_deref(), Some("src"));
}

#[test]
fn stages_come_once_and_in_order() {
    let m = module(None, None, Some("src"));
    let text = |s: &str| Some(s.to_string());
    let stages = pipeline_stages(&m, text("1"), None, text("3"), text("4"), "ptx");
    let seen: Vec<(&str, &str)> = stages.iter().map(|s| (s.stage, s.ir.as_str())).collect();
    assert_eq!(
        seen,
        [("mlir", "src"), ("ttir", "1"), ("ttgir", ""), ("llir", "3"), ("llvmir", "4"), ("asm", "ptx")]
    );
    let stages = pipeline_stages(&module(None, None, None), None, None, None, None, "");
    assert!(stages.iter().all(|s| s.ir.is_empty()));
    assert_eq!(stages.len(), 6);
}

#[test]
fn new_buffer_is_empty() {
    assert!(ModuleBuffer::new().data().is_empty());
}

#[test]
fn serialization_prefers_the_binary() {
    let bytes = |m| MlirCodegenBackend::serialize_module(m, true).data().to_vec();
    assert_eq!(bytes(module(Some("é"), Some(&[7, 0]), None)), [7, 0]);
    assert_eq!(bytes(module(Some("é"), None, None)), "é".as_bytes());
    assert_eq!(bytes(module(Some("x"), Some(&[]), None)), [0u8; 0]);
    assert_eq!(bytes(module(None, None, Some("src"))), [0u8; 0]);
}

#[test]
fn module_without_artifact_has_no_output() {
    assert!(!has_output(&module(None, None, Some("src"))));
    assert!(has_output(&module(Some(""), None, None)));
    assert!(has_output(&module(None, Some(&[]), None)));
}

#[test]
fn object_is_the_artifact() {
    let unit = ModuleCodegen::new_regular("unit".to_string(), module(Some("ptx"), None, None));
    let (files, compiled) = write_compiled_module(unit, false);
    assert_eq!(files.iter().map(describe).collect::<Vec<_>>(), [("object", &b"ptx"[..])]);
    assert_eq!(compiled.name, "unit");
    assert_eq!(compiled.kind, ModuleKind::Regular);
    assert!(matches!(compiled.object, Some(Destination::CguTemp(OutputType::Object))));
    assert!(compiled.assembly.is_none());
    assert!(compiled.dwarf_object.is_none());
    assert!(compiled.bytecode.is_none());
    assert!(compiled.llvm_ir.is_none());
    assert!(compiled.links_from_incr_cache.is_empty());
}

#[test]
fn source_is_written_beside_the_output() {
    let m = module(Some("ptx"), Some(&[9]), Some("source"));
    let unit = ModuleCodegen { name: "alloc".to_string(), module_llvm: m, kind: ModuleKind::Allocator };
    let (files, compiled) = MlirCodegenBackend::codegen(unit, false);
    assert_eq!(
        files.iter().map(describe).collect::<Vec<_>>(),
        [("object", &[9u8][..]), ("mlir", &b"source"[..])]
    );
    assert_eq!(compiled.kind, ModuleKind::Allocator);
}

#[test]
fn assembly_is_handed_back_where_asked_for() {
    let unit = ModuleCodegen::new_regular("k".to_string(), module(Some("asm"), Some(&[9]), Some("s")));
    let (files, compiled) = write_compiled_module(unit, true);
    assert_eq!(
        files.iter().map(describe).collect::<Vec<_>>(),
        [("object", &[9u8][..]), ("assembly", &b"asm"[..]), ("mlir", &b"s"[..])]
    );
    assert!(matches!(compiled.assembly, Some(Destination::CguTemp(OutputType::Assembly))));
    let unit = ModuleCodegen::new_regular("k".to_string(), module(None, Some(&[9]), None));
    let (files, compiled) = write_compiled_module(unit, true);
    assert_eq!(files.iter().map(describe).collect::<Vec<_>>(), [("object", &[9u8][..])]);
    assert!(compiled.assembly.is_none());
}

#[test]
fn thin_lto_passes_modules_through() {
    let red = |name: &str, bytes: &[u8]| ThinLtoInput::Red {
        name: name.to_string(),
        buffer: MlirCodegenBackend::serialize_module(module(None, Some(bytes), None), true),
    };
    let inputs = vec![red("a", &[1]), ThinLtoInput::Green { wp: 10 }, red("b", &[2, 3]), ThinLtoInput::Green { wp: 20 }];
    let (modules, work_products) = MlirCodegenBackend::run_thin_lto(inputs);
    assert_eq!(work_products, [10, 20]);
    let seen: Vec<(usize, &str, &[u8])> = modules.iter().map(|m| (m.idx, m.name(), m.data())).collect();
    assert_eq!(seen, [(0, "a", &[1u8][..]), (1, "b", &[2u8, 3][..])]);
    assert!(std::sync::Arc::ptr_eq(&modules[0].shared, &modules[1].shared));
    assert_eq!(modules[0].shared.modules.len(), 2);
}

#[test]
fn thin_lto_of_nothing_is_nothing() {
    let (modules, work_products) = MlirCodegenBackend::run_thin_lto(Vec::<ThinLtoInput<u8>>::new());
    assert!(modules.is_empty());
    assert!(work_products.is_empty());
}

#[test]
fn thin_lto_ends_in_the_object_that_direct_codegen_writes() {
    for (assembly, bin) in [(Some("asm"), None), (Some("asm"), Some(&[4u8, 0, 5][..])), (None, Some(&[6u8][..]))] {
        let unit = ModuleCodegen::new_regular("k".to_string(), module(assembly, bin, Some("s")));
        let (direct, _) = MlirCodegenBackend::codegen(unit, false);
        let buffer = MlirCodegenBackend::serialize_module(module(assembly, bin, Some("s")), true);
        let inputs = vec![ThinLtoInput::<u8>::Red { name: "k".to_string(), buffer }];
        let (mut modules, _) = MlirCodegenBackend::run_thin_lto(inputs);
        let (files, compiled) =
            MlirCodegenBackend::optimize_and_codegen_thin(modules.remove(0));
        assert_eq!(files.len(), 1);
        assert_eq!(describe(&files[0]), describe(&direct[0]));
        assert_eq!(compiled.name, "k");
        assert_eq!(compiled.kind, ModuleKind::Regular);
    }
}

#[test]
fn optimizing_changes_nothing() {
    let mut unit = ModuleCodegen::new_regular("k".to_string(), module(Some("a"), None, None));
    MlirCodegenBackend::optimize(&mut unit);
    assert_eq!(unit.name, "k");
    assert_eq!(unit.module_llvm.assembly.as_deref(), Some("a"));
    assert!(unit.module_llvm.compiled_bin.is_none());
}

fn compiled(object: Option<&'static str>) -> CompiledModule<&'static str> {
    CompiledModule {
        name: "k".to_string(),
        kind: ModuleKind::Regular,
        object,
        dwarf_object: None,
        bytecode: None,
        assembly: None,
        llvm_ir: None,
        links_from_incr_cache: Vec::new(),
    }
}

#[test]
fn link_copies_every_object_in_order() {
    let modules = vec![compiled(Some("a.o")), compiled(None), compiled(Some("b.o"))];
    assert_eq!(MlirCodegenBackend::new().link(&modules), [&"a.o", &"b.o"]);
    assert!(MlirCodegenBackend::new().link(&vec![compiled(None)]).is_empty());
}

#[test]
fn link_failure_message() {
    assert_eq!(link_failure("out.o", "disk full"), "failed to write output to out.o: disk full");
}

/// Which objects are copied to `out` and with which message that ends, if the
/// object at `bad` cannot be copied.
fn linked(count: usize, bad: Option<usize>) -> (Vec<usize>, Option<String>) {
    let mut tried = Vec::new();
    let mut step = first_link_step(count);
    loop {
        match step {
            LinkStep::Copy { index } => {
                tried.push(index);
                let copied =
                    if Some(index) == bad { Err("disk full".to_string()) } else { Ok(()) };
                step = next_link_step(count, index, copied, "out");
            }
            LinkStep::Done => return (tried, None),
            LinkStep::Fail { message } => return (tried, Some(message)),
        }
    }
}

#[test]
fn linking_copies_each_object_once() {
    assert_eq!(linked(3, None), (vec![0, 1, 2], None));
    assert_eq!(linked(0, None), (vec![], None));
}

#[test]
fn linking_stops_at_the_first_failed_copy() {
    let message = Some("failed to write output to out: disk full".to_string());
    assert_eq!(linked(3, Some(0)), (vec![0], message.clone()));
    assert_eq!(linked(3, Some(1)), (vec![0, 1], message.clone()));
    assert_eq!(linked(3, Some(2)), (vec![0, 1, 2], message));
}

fn cuda_session(cpu: &str) -> Session {
    Session {
        arch: Arch::Nvptx64,
        target_cpu: cpu.to_string(),
        llvm_target: "nvptx64-nvidia-cuda".to_string(),
        llvm_features: Vec::new(),
        spec_features: String::new(),
        feature_flag: String::new(),
        known_features: Vec::new(),
        trace: false,
    }
}

#[test]
fn unit_goes_through_all_steps() {
    let (mut unit, resolved) =
        CodegenUnit::<usize>::new_for_session("cgu", 2, &cuda_session("sm_90"), |_| 80).unwrap();
    assert_eq!(resolved.1, "cuda");
    for expected in 0..2 {
        assert!(matches!(unit.action(), UnitAction::LowerItem { index } if index == expected));
        assert!(unit.handle(UnitEvent::ItemLowered(Ok(())), length));
    }
    match unit.action() {
        UnitAction::RunPasses { passes } => assert_eq!(passes, cleanup_passes()),
        other => panic!("unexpected action {other:?}"),
    }
    assert!(unit.handle(UnitEvent::PassesRan(Ok(())), length));
    assert!(matches!(unit.action(), UnitAction::RenderSource));
    assert!(unit.handle(UnitEvent::SourceRendered("source".to_string()), length));
    assert!(matches!(unit.action(), UnitAction::RunTriton));
    assert_eq!(unit.module().mlir_source.as_deref(), Some("source"));
    assert!(unit.handle(UnitEvent::TritonRan(output(true, Some("ptx"), None)), length));
    assert!(matches!(unit.action(), UnitAction::Finish));
    assert!(unit.failure().is_none());
    assert!(!unit.handle(UnitEvent::ItemLowered(Ok(())), length));
    assert_eq!(unit.state(), UnitState::Finished);
    let done = unit.finish();
    assert_eq!(done.name, "cgu");
    assert_eq!(done.kind, ModuleKind::Regular);
    assert_eq!(done.module_llvm.assembly.as_deref(), Some("ptx"));
    assert_eq!(done.module_llvm.mlir_source.as_deref(), Some("source"));
    assert_eq!(done.module_llvm.kernel_metadata, Some(3));
}

#[test]
fn unit_is_refused_with_the_session() {
    let refused = CodegenUnit::<usize>::new_for_session("cgu", 1, &cuda_session("k3"), |_| 80);
    assert_eq!(refused.unwrap_err(), mlir_backend::target::invalid_cuda_cpu("k3"));
}

#[test]
fn unit_ignores_outcomes_it_does_not_wait_for() {
    let mut unit = CodegenUnit::<usize>::new("cgu", 1);
    assert!(!unit.handle(UnitEvent::PassesRan(Ok(())), length));
    assert!(!unit.handle(UnitEvent::SourceRendered("s".to_string()), length));
    assert!(!unit.handle(UnitEvent::TritonRan(output(true, Some("a"), None)), length));
    assert_eq!(unit.state(), UnitState::Lowering { next: 0 });
    assert!(unit.module().mlir_source.is_none());
}

#[test]
fn unit_without_items_is_tidied_up_at_once() {
    assert_eq!(CodegenUnit::<usize>::new("cgu", 0).state(), UnitState::CleaningUp);
}

#[test]
fn unit_reports_each_failure() {
    let mut unit = CodegenUnit::<usize>::new("cgu", 1);
    let error = MlirError::CodegenFailed { err: "unsupported cast".to_string() };
    assert!(unit.handle(UnitEvent::ItemLowered(Err(error)), length));
    assert!(matches!(unit.action(), UnitAction::Abort));
    let failure = unit.failure().unwrap();
    assert_eq!(failure.context, "Failed to generate MLIR for instance");
    assert_eq!(error_text(&failure.error), "unsupported cast");

    let mut unit = CodegenUnit::<usize>::new("cgu", 0);
    assert!(unit.handle(UnitEvent::PassesRan(Err("no".to_string())), length));
    let failure = unit.failure().unwrap();
    assert_eq!(failure.context, "MLIR cleanup passes failed");
    assert_eq!(error_text(&failure.error), "no");

    let mut unit = CodegenUnit::<usize>::new("cgu", 0);
    assert!(unit.handle(UnitEvent::PassesRan(Ok(())), length));
    assert!(unit.handle(UnitEvent::SourceRendered("s".to_string()), length));
    assert!(unit.handle(UnitEvent::TritonRan(output(false, None, None)), length));
    assert_eq!(unit.state(), UnitState::Failed);
    let failure = unit.failure().unwrap();
    assert_eq!(failure.context, "Triton passes failed");
    assert_eq!(error_text(&failure.error), "Triton compilation failed");
}
