//! Compile options handed to the Triton compiler.
//!
//! The C ABI of the compiler passes these options as structs of plain fields.
//! Text is a NUL-terminated string there, with a null pointer for "use the
//! backend default"; here it is an `Option<NulFree>`. A list of texts is a
//! pointer with a length there; here it is a `Vec<NulFree>`.
use crate::text::NulFree;
use vstd::prelude::*;

verus! {

/// An optional 32-bit signed integer.
#[derive(Debug, Copy, Clone)]
pub struct OptionalI32 {
    pub has_value: bool,
    pub value: i32,
}

impl OptionalI32 {
    /// The option as a mathematical value; `value` counts only when present.
    pub open spec fn to_option(self) -> Option<i32> {
        if self.has_value {
            Some(self.value)
        } else {
            None
        }
    }

    /// No value; the value field is zero.
    pub fn none() -> (res: Self)
        ensures
            res == (OptionalI32 { has_value: false, value: 0 }),
            res.to_option() is None,
    {
        OptionalI32 { has_value: false, value: 0 }
    }

    /// The given value.
    pub fn some(value: i32) -> (res: Self)
        ensures
            res == (OptionalI32 { has_value: true, value }),
            res.to_option() == Some(value),
    {
        OptionalI32 { has_value: true, value }
    }
}

/// An optional boolean.
#[derive(Debug, Copy, Clone)]
pub struct OptionalBool {
    pub has_value: bool,
    pub value: bool,
}

impl OptionalBool {
    /// The option as a mathematical value; `value` counts only when present.
    pub open spec fn to_option(self) -> Option<bool> {
        if self.has_value {
            Some(self.value)
        } else {
            None
        }
    }

    /// No value; the value field is false.
    pub fn none() -> (res: Self)
        ensures
            res == (OptionalBool { has_value: false, value: false }),
            res.to_option() is None,
    {
        OptionalBool { has_value: false, value: false }
    }

    /// The given value.
    pub fn some(value: bool) -> (res: Self)
        ensures
            res == (OptionalBool { has_value: true, value }),
            res.to_option() == Some(value),
    {
        OptionalBool { has_value: true, value }
    }
}

/// A dimension with three integer components.
#[derive(Debug, Copy, Clone)]
pub struct Dim3 {
    pub x: i32,
    pub y: i32,
    pub z: i32,
}

/// The hardware backends of the Triton compiler. The compiler's C ABI numbers
/// them in the order given here, from zero on.
#[derive(Debug, Copy, Clone, PartialEq, Eq, Structural)]
pub enum TargetBackend {
    Cuda,
    Rocm,
    Riscv,
}

impl TargetBackend {
    /// The number of a backend in the C ABI.
    pub open spec fn number(self) -> u32 {
        match self {
            TargetBackend::Cuda => 0,
            TargetBackend::Rocm => 1,
            TargetBackend::Riscv => 2,
        }
    }

    /// The number that stands for this backend in the C ABI.
    pub fn discriminant(self) -> (res: u32)
        ensures
            res == self.number(),
    {
        match self {
            TargetBackend::Cuda => 0,
            TargetBackend::Rocm => 1,
            TargetBackend::Riscv => 2,
        }
    }
}

/// Different backends have different numbers.
pub proof fn law_backend_numbers_distinct(a: TargetBackend, b: TargetBackend)
    ensures
        a.number() == b.number() ==> a == b,
{
}

/// The contents of an optional text.
pub open spec fn optional_text(text: Option<NulFree>) -> Option<Seq<char>> {
    match text {
        Some(t) => Some(t@),
        None => None,
    }
}

/// The contents of a list of texts.
pub open spec fn text_list(list: Seq<NulFree>) -> Seq<Seq<char>> {
    Seq::new(list.len(), |i: int| list[i]@)
}

/// Compilation options for the CUDA (Triton NVIDIA) backend.
#[derive(Debug)]
pub struct CudaCompileOptions {
    pub num_warps: i32,
    pub num_ctas: i32,
    pub num_stages: i32,
    pub capability: i32,
    pub maxnreg: OptionalI32,
    pub cluster_dims: Dim3,
    pub ptx_version: OptionalI32,
    /// `None`: not set.
    pub ptx_options: Option<NulFree>,
    /// `None`: not set.
    pub ir_override: Option<NulFree>,
    pub enable_fp_fusion: bool,
    pub launch_cooperative_grid: bool,
    pub launch_pdl: bool,
    pub supported_fp8_dtypes: Vec<NulFree>,
    pub deprecated_fp8_dot_operand_dtypes: Vec<NulFree>,
    /// `None`: the backend's default, "tf32".
    pub default_dot_input_precision: Option<NulFree>,
    pub allowed_dot_input_precisions: Vec<NulFree>,
    pub max_num_imprecise_acc_default: OptionalBool,
    /// Names of external libraries; the entry at the same place of
    /// `extern_lib_values` is the library's path.
    pub extern_lib_keys: Vec<NulFree>,
    pub extern_lib_values: Vec<NulFree>,
    pub debug: bool,
    /// `None`: the backend's default, "cuda".
    pub backend_name: Option<NulFree>,
    pub sanitize_overflow: bool,
    /// `None`: not set.
    pub arch: Option<NulFree>,
    pub dump_enabled: bool,
    pub enable_experimental_consan: bool,
    pub instrumentation: bool,
    pub disable_line_info: bool,
    pub enable_reflect_ftz: bool,
    pub dump_ir_extract_di_local_variables: bool,
}

/// What a `CudaCompileOptions` holds, as mathematical values.
#[verifier::ext_equal]
pub struct CudaOptionsView {
    pub num_warps: i32,
    pub num_ctas: i32,
    pub num_stages: i32,
    pub capability: i32,
    pub maxnreg: OptionalI32,
    pub cluster_dims: Dim3,
    pub ptx_version: OptionalI32,
    pub ptx_options: Option<Seq<char>>,
    pub ir_override: Option<Seq<char>>,
    pub enable_fp_fusion: bool,
    pub launch_cooperative_grid: bool,
    pub launch_pdl: bool,
    pub supported_fp8_dtypes: Seq<Seq<char>>,
    pub deprecated_fp8_dot_operand_dtypes: Seq<Seq<char>>,
    pub default_dot_input_precision: Option<Seq<char>>,
    pub allowed_dot_input_precisions: Seq<Seq<char>>,
    pub max_num_imprecise_acc_default: OptionalBool,
    pub extern_lib_keys: Seq<Seq<char>>,
    pub extern_lib_values: Seq<Seq<char>>,
    pub debug: bool,
    pub backend_name: Option<Seq<char>>,
    pub sanitize_overflow: bool,
    pub arch: Option<Seq<char>>,
    pub dump_enabled: bool,
    pub enable_experimental_consan: bool,
    pub instrumentation: bool,
    pub disable_line_info: bool,
    pub enable_reflect_ftz: bool,
    pub dump_ir_extract_di_local_variables: bool,
}

impl View for CudaCompileOptions {
    type V = CudaOptionsView;

    open spec fn view(&self) -> CudaOptionsView {
        CudaOptionsView {
            num_warps: self.num_warps,
            num_ctas: self.num_ctas,
            num_stages: self.num_stages,
            capability: self.capability,
            maxnreg: self.maxnreg,
            cluster_dims: self.cluster_dims,
            ptx_version: self.ptx_version,
            ptx_options: optional_text(self.ptx_options),
            ir_override: optional_text(self.ir_override),
            enable_fp_fusion: self.enable_fp_fusion,
            launch_cooperative_grid: self.launch_cooperative_grid,
            launch_pdl: self.launch_pdl,
            supported_fp8_dtypes: text_list(self.supported_fp8_dtypes@),
            deprecated_fp8_dot_operand_dtypes: text_list(self.deprecated_fp8_dot_operand_dtypes@),
            default_dot_input_precision: optional_text(self.default_dot_input_precision),
            allowed_dot_input_precisions: text_list(self.allowed_dot_input_precisions@),
            max_num_imprecise_acc_default: self.max_num_imprecise_acc_default,
            extern_lib_keys: text_list(self.extern_lib_keys@),
            extern_lib_values: text_list(self.extern_lib_values@),
            debug: self.debug,
            backend_name: optional_text(self.backend_name),
            sanitize_overflow: self.sanitize_overflow,
            arch: optional_text(self.arch),
            dump_enabled: self.dump_enabled,
            enable_experimental_consan: self.enable_experimental_consan,
            instrumentation: self.instrumentation,
            disable_line_info: self.disable_line_info,
            enable_reflect_ftz: self.enable_reflect_ftz,
            dump_ir_extract_di_local_variables: self.dump_ir_extract_di_local_variables,
        }
    }
}

impl CudaOptionsView {
    /// The defaults of the CUDA backend: no text is set and every list is
    /// empty.
    pub open spec fn defaults() -> CudaOptionsView {
        CudaOptionsView {
            num_warps: 4,
            num_ctas: 1,
            num_stages: 3,
            capability: 90,
            maxnreg: OptionalI32 { has_value: false, value: 0 },
            cluster_dims: Dim3 { x: 1, y: 1, z: 1 },
            ptx_version: OptionalI32 { has_value: true, value: 87 },
            ptx_options: None,
            ir_override: None,
            enable_fp_fusion: true,
            launch_cooperative_grid: false,
            launch_pdl: false,
            supported_fp8_dtypes: Seq::empty(),
            deprecated_fp8_dot_operand_dtypes: Seq::empty(),
            default_dot_input_precision: None,
            allowed_dot_input_precisions: Seq::empty(),
            max_num_imprecise_acc_default: OptionalBool { has_value: false, value: false },
            extern_lib_keys: Seq::empty(),
            extern_lib_values: Seq::empty(),
            debug: false,
            backend_name: None,
            sanitize_overflow: true,
            arch: None,
            dump_enabled: false,
            enable_experimental_consan: false,
            instrumentation: false,
            disable_line_info: false,
            enable_reflect_ftz: false,
            dump_ir_extract_di_local_variables: false,
        }
    }

    /// Every external library has a name and a path.
    pub open spec fn well_formed(self) -> bool {
        self.extern_lib_keys.len() == self.extern_lib_values.len()
    }
}

impl Default for CudaCompileOptions {
    fn default() -> (res: CudaCompileOptions)
        ensures
            res@ == CudaOptionsView::defaults(),
            res@.well_formed(),
    {
        let res = CudaCompileOptions {
            num_warps: 4,
            num_ctas: 1,
            num_stages: 3,
            capability: 90,
            maxnreg: OptionalI32::none(),
            cluster_dims: Dim3 { x: 1, y: 1, z: 1 },
            ptx_version: OptionalI32::some(87),
            ptx_options: None,
            ir_override: None,
            enable_fp_fusion: true,
            launch_cooperative_grid: false,
            launch_pdl: false,
            supported_fp8_dtypes: Vec::new(),
            deprecated_fp8_dot_operand_dtypes: Vec::new(),
            default_dot_input_precision: None,
            allowed_dot_input_precisions: Vec::new(),
            max_num_imprecise_acc_default: OptionalBool::none(),
            extern_lib_keys: Vec::new(),
            extern_lib_values: Vec::new(),
            debug: false,
            backend_name: None,
            sanitize_overflow: true,
            arch: None,
            dump_enabled: false,
            enable_experimental_consan: false,
            instrumentation: false,
            disable_line_info: false,
            enable_reflect_ftz: false,
            dump_ir_extract_di_local_variables: false,
        };
        assert(res@ =~~= CudaOptionsView::defaults());
        res
    }
}

/// Compilation options for the RISC-V backend.
///
/// `target_triple` selects the LLVM target, `features` is its LLVM
/// target-feature string (without it the backend falls back to the
/// RV64GC/RV32GC baseline), and `debug` prints the IR after each pass. `cpu` is
/// a chip identifier on Triton's side that is not mapped onto an LLVM cpu name.
#[derive(Debug)]
pub struct RiscvCompileOptions {
    /// `None`: the backend's default.
    pub target_triple: Option<NulFree>,
    /// `None`: the backend's default.
    pub cpu: Option<NulFree>,
    /// `None`: the backend's default.
    pub features: Option<NulFree>,
    pub debug: bool,
}

/// What a `RiscvCompileOptions` holds, as mathematical values.
#[verifier::ext_equal]
pub struct RiscvOptionsView {
    pub target_triple: Option<Seq<char>>,
    pub cpu: Option<Seq<char>>,
    pub features: Option<Seq<char>>,
    pub debug: bool,
}

impl View for RiscvCompileOptions {
    type V = RiscvOptionsView;

    open spec fn view(&self) -> RiscvOptionsView {
        RiscvOptionsView {
            target_triple: optional_text(self.target_triple),
            cpu: optional_text(self.cpu),
            features: optional_text(self.features),
            debug: self.debug,
        }
    }
}

impl RiscvOptionsView {
    /// The defaults of the RISC-V backend.
    pub open spec fn defaults() -> RiscvOptionsView {
        RiscvOptionsView { target_triple: None, cpu: None, features: None, debug: false }
    }
}

impl Default for RiscvCompileOptions {
    fn default() -> (res: RiscvCompileOptions)
        ensures
            res@ == RiscvOptionsView::defaults(),
    {
        RiscvCompileOptions { target_triple: None, cpu: None, features: None, debug: false }
    }
}

/// The options of one backend.
#[derive(Debug)]
pub enum CompileOptionsData {
    Cuda(CudaCompileOptions),
    Riscv(RiscvCompileOptions),
}

/// What a `CompileOptionsData` holds, as mathematical values.
#[verifier::ext_equal]
pub enum OptionsDataView {
    Cuda(CudaOptionsView),
    Riscv(RiscvOptionsView),
}

/// The complete options of a compilation.
#[derive(Debug)]
pub struct CompileOptions {
    /// The backend to use.
    pub backend: TargetBackend,
    /// The options of that backend.
    pub data: CompileOptionsData,
}

/// What a `CompileOptions` holds, as mathematical values.
#[verifier::ext_equal]
pub struct CompileOptionsView {
    pub backend: TargetBackend,
    pub data: OptionsDataView,
}

impl View for CompileOptionsData {
    type V = OptionsDataView;

    open spec fn view(&self) -> OptionsDataView {
        match *self {
            CompileOptionsData::Cuda(cuda) => OptionsDataView::Cuda(cuda@),
            CompileOptionsData::Riscv(riscv) => OptionsDataView::Riscv(riscv@),
        }
    }
}

impl View for CompileOptions {
    type V = CompileOptionsView;

    open spec fn view(&self) -> CompileOptionsView {
        CompileOptionsView { backend: self.backend, data: self.data@ }
    }
}

impl CompileOptionsView {
    /// The options belong to the backend that was selected.
    pub open spec fn well_formed(self) -> bool {
        match self.data {
            OptionsDataView::Cuda(cuda) => self.backend == TargetBackend::Cuda
                && cuda.well_formed(),
            OptionsDataView::Riscv(_) => self.backend == TargetBackend::Riscv,
        }
    }

    /// Options for the CUDA backend.
    pub open spec fn cuda(options: CudaOptionsView) -> CompileOptionsView {
        CompileOptionsView { backend: TargetBackend::Cuda, data: OptionsDataView::Cuda(options) }
    }

    /// Options for the RISC-V backend.
    pub open spec fn riscv(options: RiscvOptionsView) -> CompileOptionsView {
        CompileOptionsView { backend: TargetBackend::Riscv, data: OptionsDataView::Riscv(options) }
    }
}

impl CompileOptions {
    /// Default CUDA settings.
    pub fn default_cuda() -> (res: CompileOptions)
        ensures
            res@ == CompileOptionsView::cuda(CudaOptionsView::defaults()),
            res@.well_formed(),
    {
        CompileOptions {
            backend: TargetBackend::Cuda,
            data: CompileOptionsData::Cuda(CudaCompileOptions::default()),
        }
    }

    /// Default RISC-V settings.
    pub fn default_riscv() -> (res: CompileOptions)
        ensures
            res@ == CompileOptionsView::riscv(RiscvOptionsView::defaults()),
            res@.well_formed(),
    {
        CompileOptions {
            backend: TargetBackend::Riscv,
            data: CompileOptionsData::Riscv(RiscvCompileOptions::default()),
        }
    }
}

} // verus!
