use mlir_backend::options::{
    CompileOptions, CompileOptionsData, CudaCompileOptions, OptionalBool, OptionalI32,
    RiscvCompileOptions, TargetBackend,
};

#[test]
fn target_backend_discriminants_match_cpp() {
    // Must stay in lockstep with `enum TargetBackend : uint32_t` in
    // Compiler.h.
    assert_eq!(TargetBackend::Cuda as u32, 0);
    assert_eq!(TargetBackend::Rocm as u32, 1);
    assert_eq!(TargetBackend::Riscv as u32, 2);
}

#[test]
fn backend_numbers_are_the_discriminants() {
    for backend in [TargetBackend::Cuda, TargetBackend::Rocm, TargetBackend::Riscv] {
        assert_eq!(backend.discriminant(), backend as u32);
    }
}

#[test]
fn default_riscv_selects_riscv_backend_with_default_options() {
    let options = CompileOptions::default_riscv();
    assert_eq!(options.backend, TargetBackend::Riscv);

    let riscv = match options.data {
        CompileOptionsData::Riscv(riscv) => riscv,
        CompileOptionsData::Cuda(_) => panic!("CUDA options for the RISC-V backend"),
    };
    assert!(riscv.target_triple.is_none());
    assert!(riscv.cpu.is_none());
    assert!(riscv.features.is_none());
    assert!(!riscv.debug);
}

#[test]
fn riscv_defaults_set_nothing() {
    let riscv = RiscvCompileOptions::default();
    assert!(riscv.target_triple.is_none());
    assert!(riscv.cpu.is_none());
    assert!(riscv.features.is_none());
    assert!(!riscv.debug);
}

#[test]
fn default_cuda_selects_cuda_backend_with_default_options() {
    let options = CompileOptions::default_cuda();
    assert_eq!(options.backend, TargetBackend::Cuda);
    match options.data {
        CompileOptionsData::Cuda(cuda) => assert_eq!(cuda.capability, 90),
        CompileOptionsData::Riscv(_) => panic!("RISC-V options for the CUDA backend"),
    }
}

#[test]
fn cuda_defaults_field_by_field() {
    let cuda = CudaCompileOptions::default();
    assert_eq!(cuda.num_warps, 4);
    assert_eq!(cuda.num_ctas, 1);
    assert_eq!(cuda.num_stages, 3);
    assert_eq!(cuda.capability, 90);
    assert!(!cuda.maxnreg.has_value);
    assert_eq!(cuda.maxnreg.value, 0);
    assert_eq!((cuda.cluster_dims.x, cuda.cluster_dims.y, cuda.cluster_dims.z), (1, 1, 1));
    assert!(cuda.ptx_version.has_value);
    assert_eq!(cuda.ptx_version.value, 87);
    assert!(cuda.ptx_options.is_none());
    assert!(cuda.ir_override.is_none());
    assert!(cuda.enable_fp_fusion);
    assert!(!cuda.launch_cooperative_grid);
    assert!(!cuda.launch_pdl);
    assert!(cuda.supported_fp8_dtypes.is_empty());
    assert!(cuda.deprecated_fp8_dot_operand_dtypes.is_empty());
    assert!(cuda.default_dot_input_precision.is_none());
    assert!(cuda.allowed_dot_input_precisions.is_empty());
    assert!(!cuda.max_num_imprecise_acc_default.has_value);
    assert!(!cuda.max_num_imprecise_acc_default.value);
    assert!(cuda.extern_lib_keys.is_empty());
    assert!(cuda.extern_lib_values.is_empty());
    assert!(!cuda.debug);
    assert!(cuda.backend_name.is_none());
    assert!(cuda.sanitize_overflow);
    assert!(cuda.arch.is_none());
    assert!(!cuda.dump_enabled);
    assert!(!cuda.enable_experimental_consan);
    assert!(!cuda.instrumentation);
    assert!(!cuda.disable_line_info);
    assert!(!cuda.enable_reflect_ftz);
    assert!(!cuda.dump_ir_extract_di_local_variables);
}

#[test]
fn optional_values() {
    let number = OptionalI32::some(-7);
    assert!(number.has_value);
    assert_eq!(number.value, -7);
    let no_number = OptionalI32::none();
    assert!(!no_number.has_value);
    assert_eq!(no_number.value, 0);
    let flag = OptionalBool::some(true);
    assert!(flag.has_value);
    assert!(flag.value);
    let no_flag = OptionalBool::none();
    assert!(!no_flag.has_value);
    assert!(!no_flag.value);
}
