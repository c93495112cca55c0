use mlir_backend::backend::{MlirCodegenBackend, PrintKind};
use mlir_backend::features::{shown_in_cfg, target_features, KnownFeature};
use mlir_backend::target::{Arch, Session};

fn feature(name: &str, implied: &[&str], in_cfg: bool) -> KnownFeature {
    KnownFeature {
        name: name.to_string(),
        implied: implied.iter().map(|s| s.to_string()).collect(),
        in_cfg,
    }
}

/// The RISC-V features that the tests speak of, with what they imply.
fn riscv_features() -> Vec<KnownFeature> {
    vec![
        feature("a", &["zaamo", "zalrsc"], true),
        feature("c", &["zca"], true),
        feature("d", &["f"], false),
        feature("f", &["zicsr"], false),
        feature("m", &[], true),
        feature("v", &["zvl128b", "zve64d"], false),
        feature("zaamo", &[], true),
        feature("zalrsc", &[], true),
        feature("zca", &[], true),
        feature("zicsr", &[], true),
        feature("zve32f", &["zve32x", "f"], false),
        feature("zve32x", &["zvl32b", "zicsr"], false),
        feature("zve64d", &["zve64f", "d"], false),
        feature("zve64f", &["zve32f", "zve64x", "f"], false),
        feature("zve64x", &["zve32x", "zvl64b"], false),
        feature("zvl128b", &["zvl64b"], false),
        feature("zvl32b", &[], false),
        feature("zvl64b", &["zvl32b"], false),
    ]
}

/// A session for the target `riscv64-generic`, with the given value of
/// `-C target-feature`.
fn riscv64_generic(flag: &str) -> Session {
    Session {
        arch: Arch::RiscV64,
        target_cpu: "generic-rvv1.0".to_string(),
        llvm_target: "riscv64".to_string(),
        llvm_features: Vec::new(),
        spec_features: "+m,+a,+f,+d,+c,+v".to_string(),
        feature_flag: flag.to_string(),
        known_features: riscv_features(),
        trace: false,
    }
}

fn reported_target_features(flag: &str) -> Vec<String> {
    MlirCodegenBackend::new().target_config(&riscv64_generic(flag)).unstable_target_features
}

#[test]
fn riscv_target_reports_its_spec_target_features() {
    // The target's ABI requires `d`, so the compiler warns when it is missing
    // from the features the codegen backend reports. The target enables
    // m/a/f/d/c/v; the reported set must hold them and what they imply.
    let features = reported_target_features("");
    for feature in ["m", "a", "f", "d", "c", "v", "zve64d", "zvl128b"] {
        assert!(
            features.iter().any(|f| f == feature),
            "`{feature}` missing from reported target features {features:?}"
        );
    }
}

#[test]
fn riscv_target_feature_flag_overrides_spec_features() {
    let features = reported_target_features("-v");
    assert!(!features.iter().any(|f| f == "v"), "`-v` left `v` enabled: {features:?}");
    assert!(features.iter().any(|f| f == "d"), "`-v` removed `d`: {features:?}");
}

#[test]
fn disabling_a_feature_disables_what_needs_it() {
    let features = reported_target_features("-d");
    for feature in ["d", "zve64d", "v"] {
        assert!(!features.iter().any(|f| f == feature), "`-d` left `{feature}` enabled");
    }
    for feature in ["f", "zve64f", "zvl128b", "m"] {
        assert!(features.iter().any(|f| f == feature), "`-d` removed `{feature}`");
    }
}

#[test]
fn target_config_lists_features_in_table_order() {
    let mut sess = riscv64_generic("");
    sess.spec_features = "+v,-m".to_string();
    let config = MlirCodegenBackend::new().target_config(&sess);
    assert_eq!(
        config.unstable_target_features,
        [
            "d", "f", "v", "zicsr", "zve32f", "zve32x", "zve64d", "zve64f", "zve64x", "zvl128b",
            "zvl32b", "zvl64b"
        ]
    );
    assert_eq!(config.target_features, ["zicsr"]);
    assert!(!config.has_reliable_f16);
    assert!(!config.has_reliable_f16_math);
    assert!(!config.has_reliable_f128);
    assert!(!config.has_reliable_f128_math);
}

#[test]
fn feature_lists_are_read_in_order() {
    let known = riscv_features();
    let (_, all) = target_features(&known, "+d", "-f,+f");
    assert_eq!(all, ["f", "zicsr"]);
    let (_, all) = target_features(&known, "", "");
    assert!(all.is_empty());
    let (_, all) = target_features(&known, "m,,+,-,+unknown", "+m,-zvl32b");
    assert_eq!(all, ["m"]);
}

#[test]
fn unknown_features_still_count_as_implied() {
    let known = vec![feature("x", &["hidden"], true), feature("y", &["x"], true)];
    let (_, all) = target_features(&known, "+y", "");
    assert_eq!(all, ["x", "y"]);
    let (_, all) = target_features(&known, "+y", "-hidden");
    assert!(all.is_empty());
}

#[test]
fn gated_features_are_shown_on_nightly_only() {
    assert!(shown_in_cfg(true, false, false));
    assert!(shown_in_cfg(true, true, true));
    assert!(!shown_in_cfg(true, false, true));
    assert!(!shown_in_cfg(false, true, false));
}

#[test]
fn circular_implications_end() {
    let known = vec![feature("x", &["y"], true), feature("y", &["x"], true)];
    let (_, all) = target_features(&known, "+x", "");
    assert_eq!(all, ["x", "y"]);
    let (_, all) = target_features(&known, "+x", "-y");
    assert!(all.is_empty());
}

#[test]
fn backend_name_and_cpu() {
    let backend = MlirCodegenBackend::new();
    assert_eq!(backend.name(), "mlir");
    assert_eq!(backend.target_cpu(&riscv64_generic("")), "generic-rvv1.0");
}

fn printed(kind: PrintKind, arch: Arch) -> String {
    let mut sess = riscv64_generic("");
    sess.arch = arch;
    let mut out = "> ".to_string();
    MlirCodegenBackend::new().print(kind, &mut out, &sess);
    out
}

#[test]
fn prints_target_cpus() {
    assert_eq!(
        printed(PrintKind::TargetCPUs, Arch::Nvptx64),
        "> MLIR backend target CPUs:\n  an NVIDIA SM version in the form `sm_<NN>` or `sm_<NN>a`, \
         e.g. sm_70, sm_80, sm_90, sm_90a, sm_100a, sm_120a\n"
    );
    for arch in [Arch::RiscV32, Arch::RiscV64] {
        assert_eq!(
            printed(PrintKind::TargetCPUs, arch),
            "> MLIR backend target CPUs:\n  a RISC-V chip identifier understood by this backend's \
             (currently stub) RISC-V/Triton path, e.g. generic-rvv1.0, spacemit-k3 -- not an LLVM \
             -mcpu value\n"
        );
    }
    assert_eq!(
        printed(PrintKind::TargetCPUs, Arch::Other("avr".to_string())),
        "> MLIR backend target CPUs:\n  (unsupported target architecture `avr` for the `mlir` \
         backend)\n"
    );
}

#[test]
fn prints_target_features_and_nothing_else() {
    assert_eq!(
        printed(PrintKind::TargetFeatures, Arch::Nvptx64),
        "> MLIR backend target features:\n  (not yet modeled separately from target-cpu)\n"
    );
    assert_eq!(printed(PrintKind::Other, Arch::Nvptx64), "> ");
}

#[test]
fn cost_wraps() {
    assert_eq!(MlirCodegenBackend::codegen_cost(12345), 12345);
    assert_eq!(MlirCodegenBackend::codegen_cost((1u128 << 64) + 3), 3);
}

#[test]
fn allocator_module_is_empty() {
    let module = MlirCodegenBackend::new().codegen_allocator::<u32>("alloc");
    assert_eq!(module.name, "alloc");
    assert!(module.mlir_source.is_none());
    assert!(module.assembly.is_none());
    assert!(module.kernel_metadata.is_none());
    assert!(module.compiled_bin.is_none());
}
