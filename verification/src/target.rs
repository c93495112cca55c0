//! Backend and target-cpu resolution.
//!
//! The architecture of the target selects the hardware backend, and
//! `-C target-cpu` selects the model within that backend. A value that a
//! backend does not understand is an error, never a guessed default, and no
//! value is understood by more than one backend.
use crate::features::{FeatureView, KnownFeature};
use crate::options::{
    CompileOptions, CompileOptionsData, CompileOptionsView, CudaOptionsView, OptionalI32,
    RiscvOptionsView, TargetBackend,
};
use crate::text::NulFree;
use crate::{features, options, text};
use vstd::prelude::*;
use vstd::string::*;

verus! {

/// The architecture of a compilation target.
#[derive(Debug)]
pub enum Arch {
    Nvptx64,
    RiscV32,
    RiscV64,
    /// Any other architecture, by its name.
    Other(String),
}

/// An `Arch` as a mathematical value.
#[verifier::ext_equal]
pub enum ArchView {
    Nvptx64,
    RiscV32,
    RiscV64,
    Other(Seq<char>),
}

impl View for Arch {
    type V = ArchView;

    open spec fn view(&self) -> ArchView {
        match *self {
            Arch::Nvptx64 => ArchView::Nvptx64,
            Arch::RiscV32 => ArchView::RiscV32,
            Arch::RiscV64 => ArchView::RiscV64,
            Arch::Other(name) => ArchView::Other(name@),
        }
    }
}

/// What the backend reads of a compiler session.
#[derive(Debug)]
pub struct Session {
    pub arch: Arch,
    /// The value of `-C target-cpu`, or the target's own where it is not given.
    pub target_cpu: String,
    /// The LLVM triple of the target.
    pub llvm_target: String,
    /// The features for LLVM: the target's own, then those of
    /// `-C target-feature`.
    pub llvm_features: Vec<String>,
    /// The target's own feature list.
    pub spec_features: String,
    /// The value of `-C target-feature`.
    pub feature_flag: String,
    /// The features that the compiler knows for the architecture.
    pub known_features: Vec<KnownFeature>,
    /// Whether somebody listens to the backend's log at trace level.
    pub trace: bool,
}

/// A `Session` as a mathematical value.
#[verifier::ext_equal]
pub struct SessionView {
    pub arch: ArchView,
    pub target_cpu: Seq<char>,
    pub llvm_target: Seq<char>,
    pub llvm_features: Seq<Seq<char>>,
    pub spec_features: Seq<char>,
    pub feature_flag: Seq<char>,
    pub known_features: Seq<FeatureView>,
    pub trace: bool,
}

impl View for Session {
    type V = SessionView;

    open spec fn view(&self) -> SessionView {
        SessionView {
            arch: self.arch@,
            target_cpu: self.target_cpu@,
            llvm_target: self.llvm_target@,
            llvm_features: text::texts(self.llvm_features@),
            spec_features: self.spec_features@,
            feature_flag: self.feature_flag@,
            known_features: features::feature_table(self.known_features@),
            trace: self.trace,
        }
    }
}

/// The text after `sm_`, without one `a` at its end.
pub open spec fn sm_digits(cpu: Seq<char>) -> Seq<char> {
    let rest = cpu.skip(3);
    if rest.len() > 0 && rest.last() == 'a' {
        rest.drop_last()
    } else {
        rest
    }
}

/// The NVIDIA SM version that a `-C target-cpu` value of the form `sm_<NN>` or
/// `sm_<NN>a` names, if it has that form and the number fits an `i32`.
pub open spec fn sm_version(cpu: Seq<char>) -> Option<i32> {
    let digits = sm_digits(cpu);
    if cpu.len() >= 3 && cpu[0] == 's' && cpu[1] == 'm' && cpu[2] == '_' && text::is_decimal(digits)
        && text::decimal_value(digits) <= i32::MAX {
        Some(text::decimal_value(digits) as i32)
    } else {
        None
    }
}

/// A `-C target-cpu` value names an SM version exactly where it is `sm_`,
/// then the decimal digits of the version, then at most one `a`.
pub proof fn law_sm_version_shape(cpu: Seq<char>, version: i32)
    ensures
        sm_version(cpu) == Some(version) <==> exists|digits: Seq<char>|
            #![trigger text::is_decimal(digits)]
            text::is_decimal(digits) && text::decimal_value(digits) == version && (cpu == seq![
                's',
                'm',
                '_',
            ] + digits || cpu == seq!['s', 'm', '_'] + digits + seq!['a']),
{
    let prefix = seq!['s', 'm', '_'];
    if sm_version(cpu) == Some(version) {
        let digits = sm_digits(cpu);
        let rest = cpu.skip(3);
        assert(cpu =~= prefix + rest);
        if rest.len() > 0 && rest.last() == 'a' {
            assert(cpu =~= prefix + digits + seq!['a']);
        }
        assert(text::is_decimal(digits));
    }
    if exists|digits: Seq<char>|
        #![trigger text::is_decimal(digits)]
        text::is_decimal(digits) && text::decimal_value(digits) == version && (cpu == prefix
            + digits || cpu == prefix + digits + seq!['a']) {
        let digits = choose|digits: Seq<char>|
            #![trigger text::is_decimal(digits)]
            text::is_decimal(digits) && text::decimal_value(digits) == version && (cpu == prefix
                + digits || cpu == prefix + digits + seq!['a']);
        assert(text::is_digit(digits[digits.len() - 1]));
        if cpu == prefix + digits {
            assert(cpu.skip(3) =~= digits);
            assert(sm_digits(cpu) == digits);
        } else {
            assert(cpu.skip(3) =~= digits + seq!['a']);
            assert(sm_digits(cpu) =~= digits);
        }
    }
}

/// Writing an SM version as `sm_<NN>` or `sm_<NN>a` and reading it gives the
/// version back.
pub proof fn law_sm_version_round_trip(version: i32)
    requires
        version >= 0,
    ensures
        sm_version(seq!['s', 'm', '_'] + text::decimal_text(version as nat)) == Some(version),
        sm_version(seq!['s', 'm', '_'] + text::decimal_text(version as nat) + seq!['a']) == Some(
            version,
        ),
{
    let digits = text::decimal_text(version as nat);
    text::law_decimal_round_trip(version as nat);
    assert(text::is_decimal(digits));
    law_sm_version_shape(seq!['s', 'm', '_'] + digits, version);
    law_sm_version_shape(seq!['s', 'm', '_'] + digits + seq!['a'], version);
}

/// The message for a `-C target-cpu` value that names no SM version.
pub open spec fn invalid_cuda_cpu_text(cpu: Seq<char>) -> Seq<char> {
    "invalid `-C target-cpu` value `"@ + cpu
        + "` for the `mlir` codegen backend's CUDA target: expected an NVIDIA SM version in the form `sm_<NN>` or `sm_<NN>a` (e.g. `sm_90`, `sm_90a`)"@
}

/// The messages for two such values say the same, each of its own value.
pub proof fn law_invalid_cuda_cpu_text(cpu: Seq<char>, other: Seq<char>)
    ensures
        text::alike_but_for(
            invalid_cuda_cpu_text(cpu),
            cpu,
            invalid_cuda_cpu_text(other),
            other,
        ),
{
    text::law_alike(
        "invalid `-C target-cpu` value `"@,
        cpu,
        other,
        "` for the `mlir` codegen backend's CUDA target: expected an NVIDIA SM version in the form `sm_<NN>` or `sm_<NN>a` (e.g. `sm_90`, `sm_90a`)"@,
    );
}

/// Says that a `-C target-cpu` value names no SM version.
pub fn invalid_cuda_cpu(cpu: &str) -> (res: String)
    ensures
        res@ == invalid_cuda_cpu_text(cpu@),
{
    "invalid `-C target-cpu` value `".to_owned().concat(cpu).concat(
        "` for the `mlir` codegen backend's CUDA target: expected an NVIDIA SM version in the form `sm_<NN>` or `sm_<NN>a` (e.g. `sm_90`, `sm_90a`)",
    )
}

/// Reads the NVIDIA SM version out of a `-C target-cpu` value: 90 from `sm_90`
/// and from `sm_90a`. Everything of another form is an error.
pub fn parse_cuda_capability(cpu: &str) -> (res: Result<i32, String>)
    ensures
        match sm_version(cpu@) {
            Some(version) => res == Ok::<i32, String>(version),
            None => res matches Err(message) && message@ == invalid_cuda_cpu_text(cpu@),
        },
{
    let chars = text::characters(cpu);
    let length: usize = chars.len();
    if length < 3 || chars[0] != 's' || chars[1] != 'm' || chars[2] != '_' {
        return Err(invalid_cuda_cpu(cpu));
    }
    let end: usize = if length > 3 && chars[length - 1] == 'a' {
        length - 1
    } else {
        length
    };
    assert(chars@.subrange(3, end as int) =~= sm_digits(cpu@));
    match text::read_decimal(&chars, 3, end) {
        Some(version) => Ok(version),
        None => Err(invalid_cuda_cpu(cpu)),
    }
}

/// CUDA options for a capability: the defaults but for the capability, the
/// PTX version and the printing of the IR after each pass.
pub open spec fn cuda_resolution(
    capability: i32,
    ptx_version: i32,
    trace: bool,
) -> CudaOptionsView {
    CudaOptionsView {
        capability,
        ptx_version: OptionalI32 { has_value: true, value: ptx_version },
        debug: trace,
        ..CudaOptionsView::defaults()
    }
}

/// Options for an NVIDIA GPU of the given capability, compiled to the given
/// PTX version.
pub fn cuda_options(capability: i32, ptx_version: i32, trace: bool) -> (res: CompileOptions)
    ensures
        res@ == CompileOptionsView::cuda(cuda_resolution(capability, ptx_version, trace)),
        res@.well_formed(),
{
    let mut options = CompileOptions::default_cuda();
    if let CompileOptionsData::Cuda(cuda) = &mut options.data {
        cuda.capability = capability;
        cuda.ptx_version = OptionalI32::some(ptx_version);
        cuda.debug = trace;
    }
    options
}

/// Resolves the options for an NVIDIA target. `ptx_version_for` gives the PTX
/// version for a capability.
pub fn resolve_cuda<F: Fn(i32) -> i32>(sess: &Session, ptx_version_for: F) -> (res: Result<
    CompileOptions,
    String,
>)
    requires
        sm_version(sess@.target_cpu) matches Some(c) ==> call_requires(ptx_version_for, (c,)),
    ensures
        match sm_version(sess@.target_cpu) {
            Some(capability) => res matches Ok(options) && options@.well_formed() && exists|v: i32|
                #[trigger] call_ensures(ptx_version_for, (capability,), v) && options@
                    == CompileOptionsView::cuda(cuda_resolution(capability, v, sess@.trace)),
            None => res matches Err(message) && message@ == invalid_cuda_cpu_text(
                sess@.target_cpu,
            ),
        },
{
    let capability = match parse_cuda_capability(sess.target_cpu.as_str()) {
        Ok(capability) => capability,
        Err(message) => {
            return Err(message);
        },
    };
    let ptx_version = ptx_version_for(capability);
    Ok(cuda_options(capability, ptx_version, sess.trace))
}

/// The message for a RISC-V target without a chip identifier.
pub open spec fn missing_riscv_cpu_text() -> Seq<char> {
    "the `mlir` codegen backend's RISC-V target requires a non-empty `-C target-cpu` (e.g. `spacemit-k3`, `generic-rvv1.0`)"@
}

/// The message for a chip identifier with a NUL character.
pub open spec fn nul_in_cpu_text(cpu: Seq<char>) -> Seq<char> {
    "`-C target-cpu` value `"@ + cpu + "` contains a NUL byte"@
}

/// The message for a `-C target-cpu` value that names an NVIDIA SM version on a
/// RISC-V target.
pub open spec fn cuda_cpu_for_riscv_text(cpu: Seq<char>) -> Seq<char> {
    "invalid `-C target-cpu` value `"@ + cpu
        + "` for the `mlir` codegen backend's RISC-V target: it names an NVIDIA SM version; expected a RISC-V chip identifier (e.g. `spacemit-k3`, `generic-rvv1.0`)"@
}

/// The message for a feature list with a NUL character.
pub open spec fn nul_in_features_text() -> Seq<char> {
    "RISC-V target features contain a NUL byte"@
}

/// The options for a RISC-V target, or the message that says why there are
/// none. A chip identifier is any text that can be a C string and names no
/// NVIDIA SM version. A triple that cannot be a C string is left to the
/// backend's default.
pub open spec fn riscv_resolution(sess: SessionView) -> Result<RiscvOptionsView, Seq<char>> {
    let list = text::joined(sess.llvm_features, ","@);
    if sess.target_cpu.len() == 0 {
        Err(missing_riscv_cpu_text())
    } else if !text::nul_free(sess.target_cpu) {
        Err(nul_in_cpu_text(sess.target_cpu))
    } else if sm_version(sess.target_cpu) is Some {
        Err(cuda_cpu_for_riscv_text(sess.target_cpu))
    } else if !text::nul_free(list) {
        Err(nul_in_features_text())
    } else {
        Ok(
            RiscvOptionsView {
                target_triple: if text::nul_free(sess.llvm_target) {
                    Some(sess.llvm_target)
                } else {
                    None
                },
                cpu: Some(sess.target_cpu),
                features: Some(list),
                debug: sess.trace,
            },
        )
    }
}

/// The texts that RISC-V options refer to, in the order in which they are kept
/// alive: the chip identifier, the features and, where it is set, the triple.
pub open spec fn kept_texts(options: RiscvOptionsView) -> Seq<Seq<char>> {
    let kept = seq![options.cpu->0, options.features->0];
    match options.target_triple {
        Some(triple) => kept.push(triple),
        None => kept,
    }
}

/// Every text that resolved RISC-V options refer to is among those kept alive,
/// and all of these can be C strings.
pub proof fn law_riscv_texts_kept(sess: SessionView)
    ensures
        riscv_resolution(sess) matches Ok(options) ==> {
            let kept = kept_texts(options);
            &&& options.cpu matches Some(t) && kept.contains(t)
            &&& options.features matches Some(t) && kept.contains(t)
            &&& options.target_triple matches Some(t) ==> kept.contains(t)
            &&& forall|i: int| 0 <= i < kept.len() ==> text::nul_free(#[trigger] kept[i])
        },
{
    if let Ok(options) = riscv_resolution(sess) {
        let kept = kept_texts(options);
        assert(kept[0] == options.cpu->0);
        assert(kept[1] == options.features->0);
        if options.target_triple is Some {
            assert(kept[2] == options.target_triple->0);
        }
    }
}

/// Resolves the options for a RISC-V target, with the texts that must live as
/// long as the options are in use.
pub fn resolve_riscv(sess: &Session) -> (res: Result<(CompileOptions, Vec<NulFree>), String>)
    ensures
        match riscv_resolution(sess@) {
            Ok(riscv) => res matches Ok((options, kept)) && options@ == CompileOptionsView::riscv(
                riscv,
            ) && options@.well_formed() && options::text_list(kept@) == kept_texts(riscv),
            Err(text) => res matches Err(message) && message@ == text,
        },
{
    let cpu = sess.target_cpu.as_str();
    if cpu.is_empty() {
        return Err(
            "the `mlir` codegen backend's RISC-V target requires a non-empty `-C target-cpu` (e.g. `spacemit-k3`, `generic-rvv1.0`)".to_owned(),
        );
    }
    let cpu_text = match NulFree::new(cpu) {
        Some(cpu_text) => cpu_text,
        None => {
            return Err(
                "`-C target-cpu` value `".to_owned().concat(cpu).concat("` contains a NUL byte"),
            );
        },
    };
    if parse_cuda_capability(cpu).is_ok() {
        return Err(
            "invalid `-C target-cpu` value `".to_owned().concat(cpu).concat(
                "` for the `mlir` codegen backend's RISC-V target: it names an NVIDIA SM version; expected a RISC-V chip identifier (e.g. `spacemit-k3`, `generic-rvv1.0`)",
            ),
        );
    }
    let triple_text = NulFree::new(sess.llvm_target.as_str());
    let list = text::join(&sess.llvm_features, ",");
    let features_text = match NulFree::new(list.as_str()) {
        Some(features_text) => features_text,
        None => {
            return Err("RISC-V target features contain a NUL byte".to_owned());
        },
    };
    let mut options = CompileOptions::default_riscv();
    if let CompileOptionsData::Riscv(riscv) = &mut options.data {
        riscv.cpu = Some(cpu_text.clone());
        riscv.features = Some(features_text.clone());
        if let Some(triple_text) = &triple_text {
            riscv.target_triple = Some(triple_text.clone());
        }
        riscv.debug = sess.trace;
    }
    let mut kept: Vec<NulFree> = Vec::new();
    kept.push(cpu_text);
    kept.push(features_text);
    if let Some(triple_text) = triple_text {
        kept.push(triple_text);
    }
    proof {
        let resolved = riscv_resolution(sess@)->Ok_0;
        assert(options@.data->Riscv_0 =~~= resolved);
        assert(options::text_list(kept@) =~~= kept_texts(resolved));
    }
    Ok((options, kept))
}

/// The message for an architecture without a backend.
pub open spec fn unsupported_arch_text(name: Seq<char>) -> Seq<char> {
    "the `mlir` codegen backend does not support target architecture `"@ + name
        + "`; supported architectures are `nvptx64` (via the `nvptx64-nvidia-cuda` target) and `riscv32`/`riscv64` (via the `riscv64-generic` target)"@
}

/// Whether `resolved` is what a session resolves to: options, the name of the
/// Triton target and the texts to keep alive, or an error message.
pub open spec fn resolves_to<F: Fn(i32) -> i32>(
    sess: SessionView,
    ptx_version_for: F,
    resolved: Result<(CompileOptionsView, Seq<char>, Seq<Seq<char>>), Seq<char>>,
) -> bool {
    match sess.arch {
        ArchView::Nvptx64 => match sm_version(sess.target_cpu) {
            Some(capability) => exists|v: i32| #[trigger]
                call_ensures(ptx_version_for, (capability,), v) && resolved == Ok::<
                    (CompileOptionsView, Seq<char>, Seq<Seq<char>>),
                    Seq<char>,
                >(
                    (
                        CompileOptionsView::cuda(cuda_resolution(capability, v, sess.trace)),
                        "cuda"@,
                        Seq::empty(),
                    ),
                ),
            None => resolved == Err::<(CompileOptionsView, Seq<char>, Seq<Seq<char>>), Seq<char>>(
                invalid_cuda_cpu_text(sess.target_cpu),
            ),
        },
        ArchView::RiscV32 | ArchView::RiscV64 => resolved == match riscv_resolution(sess) {
            Ok(riscv) => Ok::<(CompileOptionsView, Seq<char>, Seq<Seq<char>>), Seq<char>>(
                (CompileOptionsView::riscv(riscv), "riscv"@, kept_texts(riscv)),
            ),
            Err(message) => Err(message),
        },
        ArchView::Other(name) => resolved == Err::<
            (CompileOptionsView, Seq<char>, Seq<Seq<char>>),
            Seq<char>,
        >(unsupported_arch_text(name)),
    }
}

/// The outcome of a resolution as mathematical values.
pub open spec fn resolution_view(
    res: Result<(CompileOptions, &'static str, Vec<NulFree>), String>,
) -> Result<(CompileOptionsView, Seq<char>, Seq<Seq<char>>), Seq<char>> {
    match res {
        Ok((options, name, kept)) => Ok((options@, name@, options::text_list(kept@))),
        Err(message) => Err(message@),
    }
}

/// Resolves the compile options, the name of the Triton target and the texts
/// that must live as long as the options are in use. `ptx_version_for` gives
/// the PTX version for a CUDA capability.
pub fn resolve<F: Fn(i32) -> i32>(sess: &Session, ptx_version_for: F) -> (res: Result<
    (CompileOptions, &'static str, Vec<NulFree>),
    String,
>)
    requires
        sess@.arch is Nvptx64 ==> (sm_version(sess@.target_cpu) matches Some(c) ==> call_requires(
            ptx_version_for,
            (c,),
        )),
    ensures
        resolves_to(sess@, ptx_version_for, resolution_view(res)),
        res matches Ok((options, name, kept)) ==> options@.well_formed(),
{
    match &sess.arch {
        Arch::Nvptx64 => match resolve_cuda(sess, ptx_version_for) {
            Ok(options) => {
                let kept: Vec<NulFree> = Vec::new();
                assert(options::text_list(kept@) =~= Seq::empty());
                Ok((options, "cuda", kept))
            },
            Err(message) => Err(message),
        },
        Arch::RiscV32 | Arch::RiscV64 => match resolve_riscv(sess) {
            Ok((options, kept)) => Ok((options, "riscv", kept)),
            Err(message) => Err(message),
        },
        Arch::Other(name) => Err(
            "the `mlir` codegen backend does not support target architecture `".to_owned().concat(
                name.as_str(),
            ).concat(
                "`; supported architectures are `nvptx64` (via the `nvptx64-nvidia-cuda` target) and `riscv32`/`riscv64` (via the `riscv64-generic` target)",
            ),
        ),
    }
}

/// The architecture alone selects the backend: NVIDIA targets are compiled by
/// the CUDA backend, RISC-V targets by the RISC-V backend, and no other target
/// is compiled.
pub proof fn law_arch_selects_backend<F: Fn(i32) -> i32>(
    sess: SessionView,
    ptx_version_for: F,
    resolved: Result<(CompileOptionsView, Seq<char>, Seq<Seq<char>>), Seq<char>>,
)
    requires
        resolves_to(sess, ptx_version_for, resolved),
    ensures
        resolved matches Ok((options, name, kept)) ==> {
            &&& options.well_formed()
            &&& options.backend == TargetBackend::Cuda <==> sess.arch is Nvptx64
            &&& options.backend == TargetBackend::Riscv <==> (sess.arch is RiscV32
                || sess.arch is RiscV64)
            &&& !(sess.arch is Other)
        },
{
}

/// What a session for an NVIDIA target resolves to. It resolves exactly where
/// its processor names an SM version. The options are then those of the CUDA
/// backend, with that version, the PTX version found for it, and the session's
/// wish to trace; all the rest is as in the defaults, and no text is kept.
pub proof fn law_cuda_resolution<F: Fn(i32) -> i32>(
    sess: Session,
    ptx_version_for: F,
    res: Result<(CompileOptions, &'static str, Vec<NulFree>), String>,
)
    requires
        sess.arch is Nvptx64,
        resolves_to(sess@, ptx_version_for, resolution_view(res)),
    ensures
        res is Ok <==> sm_version(sess.target_cpu@) is Some,
        res matches Ok((options, name, kept)) ==> {
            &&& name@ == "cuda"@
            &&& kept@.len() == 0
            &&& options.backend == TargetBackend::Cuda
            &&& options.data matches CompileOptionsData::Cuda(cuda) && {
                let defaults = CudaOptionsView::defaults();
                &&& sm_version(sess.target_cpu@) == Some(cuda.capability)
                &&& cuda.ptx_version.has_value
                &&& call_ensures(ptx_version_for, (cuda.capability,), cuda.ptx_version.value)
                &&& cuda.debug == sess.trace
                &&& defaults == (CudaOptionsView {
                    capability: defaults.capability,
                    ptx_version: defaults.ptx_version,
                    debug: defaults.debug,
                    ..cuda@
                })
            }
        },
{
    if let Ok((options, name, kept)) = res {
        assert(options::text_list(kept@).len() == kept@.len());
        assert(options@.data == options.data@);
        assert(options.data is Cuda);
        let cuda = options.data->Cuda_0;
        assert(options.data@ == options::OptionsDataView::Cuda(cuda@));
        assert(cuda@.capability == cuda.capability);
    }
}

/// What a session for a RISC-V target resolves to. It resolves exactly where
/// its processor is named, has no NUL and is no SM version, and none of its
/// features has a NUL. The options are then those of the RISC-V backend, with
/// the session's own processor, features, wish to trace and, unless that has a
/// NUL, triple. Cutting the features at their commas gives the session's list
/// back. The kept texts are those of the options.
pub proof fn law_riscv_resolution<F: Fn(i32) -> i32>(
    sess: Session,
    ptx_version_for: F,
    res: Result<(CompileOptions, &'static str, Vec<NulFree>), String>,
)
    requires
        sess.arch is RiscV32 || sess.arch is RiscV64,
        resolves_to(sess@, ptx_version_for, resolution_view(res)),
    ensures
        res is Ok <==> {
            &&& sess.target_cpu@.len() > 0
            &&& !sess.target_cpu@.contains('\0')
            &&& sm_version(sess.target_cpu@) is None
            &&& forall|i: int|
                0 <= i < sess.llvm_features@.len() ==> !(#[trigger] sess.llvm_features@[i])@.contains(
                    '\0',
                )
        },
        res matches Ok((options, name, kept)) ==> {
            &&& name@ == "riscv"@
            &&& options.backend == TargetBackend::Riscv
            &&& options.data matches CompileOptionsData::Riscv(riscv) && {
                &&& riscv.cpu matches Some(cpu) && cpu@ == sess.target_cpu@
                &&& riscv.debug == sess.trace
                &&& riscv.target_triple is Some <==> !sess.llvm_target@.contains('\0')
                &&& riscv.target_triple matches Some(triple) ==> triple@ == sess.llvm_target@
                &&& riscv.features is Some
                &&& riscv.features->0@ == text::joined(
                    text::texts(sess.llvm_features@),
                    seq![','],
                )
                &&& sess.llvm_features@.len() == 0 ==> riscv.features->0@.len() == 0
                &&& sess.llvm_features@.len() > 0 && (forall|i: int|
                    0 <= i < sess.llvm_features@.len()
                        ==> !(#[trigger] sess.llvm_features@[i])@.contains(',')) ==> {
                    let cut = text::pieces(riscv.features->0@, ',');
                    &&& cut.len() == sess.llvm_features@.len()
                    &&& forall|i: int|
                        0 <= i < cut.len() ==> #[trigger] cut[i] == sess.llvm_features@[i]@
                }
                &&& kept@.len() == if riscv.target_triple is Some {
                    3int
                } else {
                    2int
                }
                &&& kept@[0]@ == riscv.cpu->0@
                &&& kept@[1]@ == riscv.features->0@
                &&& riscv.target_triple matches Some(triple) ==> kept@[2]@ == triple@
            }
        },
{
    let features = text::texts(sess.llvm_features@);
    let list = text::joined(features, ","@);
    reveal_strlit(",");
    assert(","@ =~= seq![',']);
    assert(text::nul_free(","@)) by {
        text::law_nul_free(","@);
    }
    text::law_join_nul_free(features, ","@);
    assert forall|i: int| 0 <= i < features.len() implies #[trigger] features[i]
        == sess.llvm_features@[i]@ by {}
    if text::nul_free(list) {
        assert forall|i: int| 0 <= i < sess.llvm_features@.len() implies !(
        #[trigger] sess.llvm_features@[i])@.contains('\0') by {
            assert(text::nul_free(features[i]));
        }
    } else {
        let i = choose|i: int| 0 <= i < features.len() && !text::nul_free(#[trigger] features[i]);
        assert(sess.llvm_features@[i]@.contains('\0'));
    }
    if let Ok((options, name, kept)) = res {
        assert(options@.data == options.data@);
        assert(options.data is Riscv);
        let riscv = options.data->Riscv_0;
        assert(options.data@ == options::OptionsDataView::Riscv(riscv@));
        assert(riscv@.cpu == options::optional_text(riscv.cpu));
        assert(riscv@.features == options::optional_text(riscv.features));
        assert(riscv@.target_triple == options::optional_text(riscv.target_triple));
        let texts = options::text_list(kept@);
        assert(texts.len() == kept@.len());
        assert(texts[0] == kept@[0]@);
        assert(texts[1] == kept@[1]@);
        if riscv.target_triple is Some {
            assert(texts[2] == kept@[2]@);
        }
        if features.len() == 0 {
            text::law_join(features, features, Seq::empty(), ","@);
            assert(features =~= Seq::empty());
        } else if forall|i: int|
            0 <= i < sess.llvm_features@.len()
                ==> !(#[trigger] sess.llvm_features@[i])@.contains(',') {
            assert forall|i: int| 0 <= i < features.len() implies !(
            #[trigger] features[i]).contains(',') by {
                assert(features[i] == sess.llvm_features@[i]@);
            }
            text::law_join_split(features, ',');
        }
    }
}

/// A RISC-V session resolves by its processor, triple, features for LLVM and
/// wish to trace alone: sessions that agree on these resolve to the same.
pub proof fn law_riscv_depends_on<F: Fn(i32) -> i32>(
    a: SessionView,
    b: SessionView,
    ptx_version_for: F,
    a_resolved: Result<(CompileOptionsView, Seq<char>, Seq<Seq<char>>), Seq<char>>,
    b_resolved: Result<(CompileOptionsView, Seq<char>, Seq<Seq<char>>), Seq<char>>,
)
    requires
        a.arch is RiscV32 || a.arch is RiscV64,
        b.arch is RiscV32 || b.arch is RiscV64,
        a.target_cpu == b.target_cpu,
        a.llvm_target == b.llvm_target,
        a.llvm_features == b.llvm_features,
        a.trace == b.trace,
        resolves_to(a, ptx_version_for, a_resolved),
        resolves_to(b, ptx_version_for, b_resolved),
    ensures
        a_resolved == b_resolved,
{
}

/// Two sessions that are refused for the same reason are refused in the same
/// words, each with its own processor or architecture in them.
pub proof fn law_refusals<F: Fn(i32) -> i32>(
    a: SessionView,
    b: SessionView,
    ptx_version_for: F,
    a_resolved: Result<(CompileOptionsView, Seq<char>, Seq<Seq<char>>), Seq<char>>,
    b_resolved: Result<(CompileOptionsView, Seq<char>, Seq<Seq<char>>), Seq<char>>,
)
    requires
        resolves_to(a, ptx_version_for, a_resolved),
        resolves_to(b, ptx_version_for, b_resolved),
        a_resolved is Err,
        b_resolved is Err,
    ensures
        ({
            let riscv = (a.arch is RiscV32 || a.arch is RiscV64) && (b.arch is RiscV32
                || b.arch is RiscV64);
            let a_text = a_resolved->Err_0;
            let b_text = b_resolved->Err_0;
            let alike = text::alike_but_for(a_text, a.target_cpu, b_text, b.target_cpu);
            let a_nul = a.target_cpu.contains('\0');
            let b_nul = b.target_cpu.contains('\0');
            let a_sm = sm_version(a.target_cpu) is Some;
            let b_sm = sm_version(b.target_cpu) is Some;
            &&& a.arch is Nvptx64 && b.arch is Nvptx64 ==> alike
            &&& a.arch is Other && b.arch is Other ==> text::alike_but_for(
                a_text,
                a.arch->0,
                b_text,
                b.arch->0,
            )
            &&& riscv && a.target_cpu.len() == 0 && b.target_cpu.len() == 0 ==> a_text == b_text
            &&& riscv && a_nul && b_nul ==> alike
            &&& riscv && a_sm && b_sm ==> alike
            &&& riscv && a.target_cpu.len() > 0 && b.target_cpu.len() > 0 && !a_nul && !b_nul
                && !a_sm && !b_sm ==> a_text == b_text
        }),
{
    let cpu = a.target_cpu;
    let other = b.target_cpu;
    law_invalid_cuda_cpu_text(cpu, other);
    text::law_alike("`-C target-cpu` value `"@, cpu, other, "` contains a NUL byte"@);
    text::law_alike(
        "invalid `-C target-cpu` value `"@,
        cpu,
        other,
        "` for the `mlir` codegen backend's RISC-V target: it names an NVIDIA SM version; expected a RISC-V chip identifier (e.g. `spacemit-k3`, `generic-rvv1.0`)"@,
    );
    if a.arch is Other && b.arch is Other {
        text::law_alike(
            "the `mlir` codegen backend does not support target architecture `"@,
            a.arch->0,
            b.arch->0,
            "`; supported architectures are `nvptx64` (via the `nvptx64-nvidia-cuda` target) and `riscv32`/`riscv64` (via the `riscv64-generic` target)"@,
        );
    }
    lemma_sm_version_nul_free(cpu);
    lemma_sm_version_nul_free(other);
}

/// A value that names an SM version has no NUL and is not empty.
proof fn lemma_sm_version_nul_free(cpu: Seq<char>)
    ensures
        sm_version(cpu) is Some ==> text::nul_free(cpu) && cpu.len() > 0,
{
    if sm_version(cpu) is Some {
        text::law_nul_free(cpu);
        let digits = sm_digits(cpu);
        assert forall|i: int| 0 <= i < cpu.len() implies #[trigger] cpu[i] != '\0' by {
            if 3 <= i < 3 + digits.len() {
                assert(text::is_digit(digits[i - 3]));
                assert(cpu[i] == digits[i - 3]);
            } else if i >= 3 {
                assert(cpu[i] == cpu.skip(3).last());
            }
        }
    }
}

/// An architecture without a backend is refused, whatever else the session
/// holds.
pub proof fn law_other_arch_refused<F: Fn(i32) -> i32>(
    sess: Session,
    ptx_version_for: F,
    res: Result<(CompileOptions, &'static str, Vec<NulFree>), String>,
)
    requires
        sess.arch is Other,
        resolves_to(sess@, ptx_version_for, resolution_view(res)),
    ensures
        res is Err,
{
}

/// No `-C target-cpu` value is carried over from one backend to another: one
/// that names an SM version is refused for RISC-V, and where a session for an
/// NVIDIA target resolves, no session for a RISC-V target with the same value
/// does.
pub proof fn law_no_cpu_for_both_backends<F: Fn(i32) -> i32, G: Fn(i32) -> i32>(
    nvidia: SessionView,
    riscv: SessionView,
    nvidia_ptx_version_for: F,
    riscv_ptx_version_for: G,
    nvidia_resolved: Result<(CompileOptionsView, Seq<char>, Seq<Seq<char>>), Seq<char>>,
    riscv_resolved: Result<(CompileOptionsView, Seq<char>, Seq<Seq<char>>), Seq<char>>,
)
    requires
        nvidia.arch is Nvptx64,
        riscv.arch is RiscV32 || riscv.arch is RiscV64,
        nvidia.target_cpu == riscv.target_cpu,
        resolves_to(nvidia, nvidia_ptx_version_for, nvidia_resolved),
        resolves_to(riscv, riscv_ptx_version_for, riscv_resolved),
    ensures
        sm_version(riscv.target_cpu) is Some ==> riscv_resolution(riscv) is Err,
        !(nvidia_resolved is Ok && riscv_resolved is Ok),
{
}

} // verus!
