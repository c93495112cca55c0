use mlir_backend::options::{CompileOptions, CompileOptionsData, TargetBackend};
use mlir_backend::target::{
    cuda_options, invalid_cuda_cpu, parse_cuda_capability, resolve, resolve_cuda, resolve_riscv,
    Arch, Session,
};
use mlir_backend::text::NulFree;

fn session(arch: Arch, cpu: &str) -> Session {
    Session {
        arch,
        target_cpu: cpu.to_string(),
        llvm_target: "riscv64".to_string(),
        llvm_features: vec!["+m".to_string(), "+v".to_string()],
        spec_features: "+m,+v".to_string(),
        feature_flag: String::new(),
        known_features: Vec::new(),
        trace: false,
    }
}

fn text(text: &Option<NulFree>) -> Option<&str> {
    text.as_ref().map(|t| t.as_str())
}

fn kept(texts: &[NulFree]) -> Vec<&str> {
    texts.iter().map(|t| t.as_str()).collect()
}

fn no_ptx(_: i32) -> i32 {
    panic!("no PTX version is needed")
}

#[test]
fn parses_bare_sm_version() {
    assert_eq!(parse_cuda_capability("sm_90"), Ok(90));
}

#[test]
fn parses_a_suffixed_sm_version() {
    assert_eq!(parse_cuda_capability("sm_120a"), Ok(120));
}

#[test]
fn rejects_missing_sm_prefix() {
    assert!(parse_cuda_capability("spacemit-k3").is_err());
}

#[test]
fn rejects_non_numeric_suffix() {
    assert!(parse_cuda_capability("sm_ninety").is_err());
}

#[test]
fn rejects_riscv_cpu_string_instead_of_defaulting() {
    // A RISC-V target-cpu string must not be read as some CUDA capability.
    assert!(parse_cuda_capability("generic-rvv1.0").is_err());
}

#[test]
fn sm_version_needs_digits_and_nothing_else() {
    for cpu in [
        "", "sm", "sm_", "sm_a", "sm_90aa", "sm_90b", "SM_90", "sm_+90", "sm_-90", "sm_ 90", "sm_9 0",
        " sm_90", "sm_90 ",
    ] {
        let message = parse_cuda_capability(cpu).unwrap_err();
        assert_eq!(message, invalid_cuda_cpu(cpu));
    }
}

#[test]
fn sm_version_fits_an_i32() {
    assert_eq!(parse_cuda_capability("sm_2147483647"), Ok(2147483647));
    assert_eq!(parse_cuda_capability("sm_2147483647a"), Ok(2147483647));
    assert!(parse_cuda_capability("sm_2147483648").is_err());
    assert!(parse_cuda_capability("sm_99999999999999999999").is_err());
    assert_eq!(parse_cuda_capability("sm_0"), Ok(0));
    assert_eq!(parse_cuda_capability("sm_00090"), Ok(90));
}

#[test]
fn sm_version_round_trip() {
    for version in [0, 7, 75, 86, 90, 100, 107, 121, 99999] {
        assert_eq!(parse_cuda_capability(&format!("sm_{version}")), Ok(version));
        assert_eq!(parse_cuda_capability(&format!("sm_{version}a")), Ok(version));
    }
}

#[test]
fn invalid_cpu_message() {
    assert_eq!(
        invalid_cuda_cpu("spacemit-k3"),
        "invalid `-C target-cpu` value `spacemit-k3` for the `mlir` codegen backend's CUDA target: \
         expected an NVIDIA SM version in the form `sm_<NN>` or `sm_<NN>a` (e.g. `sm_90`, `sm_90a`)"
    );
}

#[test]
fn cuda_options_change_three_defaults() {
    let options: CompileOptions = cuda_options(100, 86, true);
    assert_eq!(options.backend, TargetBackend::Cuda);
    match options.data {
        CompileOptionsData::Cuda(cuda) => {
            assert_eq!(cuda.capability, 100);
            assert!(cuda.ptx_version.has_value);
            assert_eq!(cuda.ptx_version.value, 86);
            assert!(cuda.debug);
            assert_eq!(cuda.num_warps, 4);
            assert!(cuda.sanitize_overflow);
        }
        CompileOptionsData::Riscv(_) => panic!("RISC-V options for a CUDA target"),
    }
}

#[test]
fn cuda_target_resolves_with_the_ptx_version_of_its_capability() {
    let sess = session(Arch::Nvptx64, "sm_120a");
    let (options, name, texts) = resolve(&sess, |capability| capability - 33).unwrap();
    assert_eq!(options.backend, TargetBackend::Cuda);
    assert_eq!(name, "cuda");
    assert!(texts.is_empty());
    match options.data {
        CompileOptionsData::Cuda(cuda) => {
            assert_eq!(cuda.capability, 120);
            assert_eq!(cuda.ptx_version.value, 87);
            assert!(!cuda.debug);
        }
        CompileOptionsData::Riscv(_) => panic!("RISC-V options for a CUDA target"),
    }
}

#[test]
fn cuda_target_rejects_a_riscv_cpu() {
    let sess = session(Arch::Nvptx64, "generic-rvv1.0");
    assert_eq!(resolve_cuda(&sess, no_ptx).unwrap_err(), invalid_cuda_cpu("generic-rvv1.0"));
    assert_eq!(resolve(&sess, no_ptx).unwrap_err(), invalid_cuda_cpu("generic-rvv1.0"));
}

#[test]
fn riscv_target_resolves_to_its_texts() {
    for arch in [Arch::RiscV32, Arch::RiscV64] {
        let mut sess = session(arch, "spacemit-k3");
        sess.trace = true;
        let (options, name, texts) = resolve(&sess, no_ptx).unwrap();
        assert_eq!(options.backend, TargetBackend::Riscv);
        assert_eq!(name, "riscv");
        assert_eq!(kept(&texts), ["spacemit-k3", "+m,+v", "riscv64"]);
        match options.data {
            CompileOptionsData::Riscv(riscv) => {
                assert_eq!(text(&riscv.cpu), Some("spacemit-k3"));
                assert_eq!(text(&riscv.features), Some("+m,+v"));
                assert_eq!(text(&riscv.target_triple), Some("riscv64"));
                assert!(riscv.debug);
            }
            CompileOptionsData::Cuda(_) => panic!("CUDA options for a RISC-V target"),
        }
    }
}

#[test]
fn riscv_target_without_features_sets_an_empty_list() {
    let mut sess = session(Arch::RiscV64, "generic-rvv1.0");
    sess.llvm_features = Vec::new();
    let (options, texts) = resolve_riscv(&sess).unwrap();
    assert_eq!(kept(&texts), ["generic-rvv1.0", "", "riscv64"]);
    match options.data {
        CompileOptionsData::Riscv(riscv) => assert_eq!(text(&riscv.features), Some("")),
        CompileOptionsData::Cuda(_) => panic!("CUDA options for a RISC-V target"),
    }
}

#[test]
fn riscv_triple_with_nul_is_left_out() {
    let mut sess = session(Arch::RiscV64, "spacemit-k3");
    sess.llvm_target = "riscv\0".to_string();
    let (options, texts) = resolve_riscv(&sess).unwrap();
    assert_eq!(kept(&texts), ["spacemit-k3", "+m,+v"]);
    match options.data {
        CompileOptionsData::Riscv(riscv) => assert!(riscv.target_triple.is_none()),
        CompileOptionsData::Cuda(_) => panic!("CUDA options for a RISC-V target"),
    }
}

#[test]
fn riscv_errors_in_order() {
    let mut sess = session(Arch::RiscV64, "");
    sess.llvm_features = vec!["+\0".to_string()];
    assert_eq!(
        resolve_riscv(&sess).unwrap_err(),
        "the `mlir` codegen backend's RISC-V target requires a non-empty `-C target-cpu` \
         (e.g. `spacemit-k3`, `generic-rvv1.0`)"
    );
    sess.target_cpu = "k\0".to_string();
    assert_eq!(
        resolve_riscv(&sess).unwrap_err(),
        "`-C target-cpu` value `k\0` contains a NUL byte"
    );
    sess.target_cpu = "k3".to_string();
    assert_eq!(
        resolve(&sess, no_ptx).unwrap_err(),
        "RISC-V target features contain a NUL byte"
    );
}

#[test]
fn riscv_target_rejects_a_cuda_cpu() {
    for cpu in ["sm_90", "sm_90a", "sm_120a"] {
        for arch in [Arch::RiscV32, Arch::RiscV64] {
            let sess = session(arch, cpu);
            let message = format!(
                "invalid `-C target-cpu` value `{cpu}` for the `mlir` codegen backend's RISC-V \
                 target: it names an NVIDIA SM version; expected a RISC-V chip identifier (e.g. \
                 `spacemit-k3`, `generic-rvv1.0`)"
            );
            assert_eq!(resolve_riscv(&sess).unwrap_err(), message);
            assert_eq!(resolve(&sess, no_ptx).unwrap_err(), message);
        }
    }
}

#[test]
fn no_cpu_resolves_for_both_backends() {
    for cpu in ["", "sm_90", "sm_90a", "sm_", "sm_ninety", "spacemit-k3", "generic-rvv1.0"] {
        let nvidia = resolve(&session(Arch::Nvptx64, cpu), |c| c).is_ok();
        let riscv = resolve(&session(Arch::RiscV64, cpu), |c| c).is_ok();
        assert!(!(nvidia && riscv), "`{cpu}`");
    }
}

#[test]
fn other_architectures_are_refused() {
    let sess = session(Arch::Other("x86_64".to_string()), "sm_90");
    assert_eq!(
        resolve(&sess, no_ptx).unwrap_err(),
        "the `mlir` codegen backend does not support target architecture `x86_64`; supported \
         architectures are `nvptx64` (via the `nvptx64-nvidia-cuda` target) and \
         `riscv32`/`riscv64` (via the `riscv64-generic` target)"
    );
}
