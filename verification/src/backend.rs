//! The codegen backend as the compiler sees it.
use crate::module::{MlirModule, ModuleCodegen, ModuleView};
use crate::output::{CompiledModule, Destination, OutputFile};
use crate::options::{CompileOptions, CompileOptionsData};
use crate::target::{Arch, ArchView, Session, SessionView};
use crate::text::NulFree;
use crate::{features, output, selection, target, text};
use vstd::prelude::*;
use vstd::string::*;

verus! {

/// The MLIR codegen backend.
#[derive(Debug, Copy, Clone)]
pub struct MlirCodegenBackend {}

/// What the compiler can be asked to print.
#[derive(Debug, Copy, Clone, PartialEq, Eq, Structural)]
pub enum PrintKind {
    TargetCPUs,
    TargetFeatures,
    /// Something that this backend has no answer for.
    Other,
}

/// What the backend says of a target.
#[derive(Debug)]
pub struct TargetConfig {
    /// The enabled features that `cfg(target_feature)` shows.
    pub target_features: Vec<String>,
    /// All enabled features.
    pub unstable_target_features: Vec<String>,
    pub has_reliable_f16: bool,
    pub has_reliable_f16_math: bool,
    pub has_reliable_f128: bool,
    pub has_reliable_f128_math: bool,
}

/// The answer to a print request.
pub open spec fn printed(kind: PrintKind, arch: ArchView) -> Seq<char> {
    match kind {
        PrintKind::TargetCPUs => "MLIR backend target CPUs:\n"@ + match arch {
            ArchView::Nvptx64 =>
                "  an NVIDIA SM version in the form `sm_<NN>` or `sm_<NN>a`, e.g. sm_70, sm_80, sm_90, sm_90a, sm_100a, sm_120a\n"@,
            ArchView::RiscV32 | ArchView::RiscV64 =>
                "  a RISC-V chip identifier understood by this backend's (currently stub) RISC-V/Triton path, e.g. generic-rvv1.0, spacemit-k3 -- not an LLVM -mcpu value\n"@,
            ArchView::Other(name) => "  (unsupported target architecture `"@ + name
                + "` for the `mlir` backend)\n"@,
        },
        PrintKind::TargetFeatures => "MLIR backend target features:\n"@
            + "  (not yet modeled separately from target-cpu)\n"@,
        PrintKind::Other => Seq::empty(),
    }
}

/// The processor that a session compiles for.
pub open spec fn cpu_of(sess: SessionView) -> Seq<char> {
    sess.target_cpu
}

/// The processor that the backend tells the compiler is the one that the
/// session's options are for: an NVIDIA target is compiled for the SM version
/// that it names, and a RISC-V target gets it as the chip identifier, letter
/// for letter.
pub proof fn law_told_cpu_is_compiled_for<F: Fn(i32) -> i32>(
    sess: Session,
    ptx_version_for: F,
    res: Result<(CompileOptions, &'static str, Vec<NulFree>), String>,
)
    requires
        target::resolves_to(sess@, ptx_version_for, target::resolution_view(res)),
    ensures
        cpu_of(sess@) == sess.target_cpu@,
        res matches Ok((options, name, kept)) ==> match options.data {
            CompileOptionsData::Cuda(cuda) => target::sm_version(cpu_of(sess@)) == Some(
                cuda.capability,
            ),
            CompileOptionsData::Riscv(riscv) => riscv.cpu matches Some(cpu) && cpu@ == cpu_of(
                sess@,
            ),
        },
{
    match sess.arch {
        Arch::Nvptx64 => target::law_cuda_resolution(sess, ptx_version_for, res),
        Arch::RiscV32 | Arch::RiscV64 => target::law_riscv_resolution(sess, ptx_version_for, res),
        Arch::Other(_) => target::law_other_arch_refused(sess, ptx_version_for, res),
    }
}

/// What has been printed after the answer to a print request.
pub open spec fn after_print(out: Seq<char>, kind: PrintKind, arch: ArchView) -> Seq<char> {
    out + printed(kind, arch)
}

/// Printing keeps what is there, and what is printed does not depend on it.
pub proof fn law_print_appends(
    before: Seq<char>,
    out: Seq<char>,
    kind: PrintKind,
    arch: ArchView,
)
    ensures
        after_print(before + out, kind, arch) == before + after_print(out, kind, arch),
        after_print(Seq::empty(), kind, arch) == printed(kind, arch),
{
    assert(after_print(before + out, kind, arch) =~= before + after_print(out, kind, arch));
    assert(after_print(Seq::empty(), kind, arch) =~= printed(kind, arch));
}

/// The features answer is the same for all architectures, and a request that
/// the backend has no answer for prints nothing for any. All processor answers
/// begin with the same line; the two widths of RISC-V get the same, and two
/// architectures without a backend are told the same, each of itself.
pub proof fn law_printed(arch: ArchView, other: ArchView, name: Seq<char>, other_name: Seq<char>)
    ensures
        printed(PrintKind::TargetFeatures, arch) == printed(PrintKind::TargetFeatures, other),
        printed(PrintKind::Other, arch).len() == 0,
        "MLIR backend target CPUs:\n"@.is_prefix_of(printed(PrintKind::TargetCPUs, arch)),
        printed(PrintKind::TargetCPUs, ArchView::RiscV32) == printed(
            PrintKind::TargetCPUs,
            ArchView::RiscV64,
        ),
        text::alike_but_for(
            printed(PrintKind::TargetCPUs, ArchView::Other(name)),
            name,
            printed(PrintKind::TargetCPUs, ArchView::Other(other_name)),
            other_name,
        ),
{
    let header = "MLIR backend target CPUs:\n"@;
    let answer = printed(PrintKind::TargetCPUs, arch);
    assert(header =~= answer.subrange(0, header.len() as int));
    let start = header + "  (unsupported target architecture `"@;
    let end = "` for the `mlir` backend)\n"@;
    text::law_alike(start, name, other_name, end);
    assert(printed(PrintKind::TargetCPUs, ArchView::Other(name)) =~= start + name + end);
    assert(printed(PrintKind::TargetCPUs, ArchView::Other(other_name)) =~= start + other_name
        + end);
}

/// Whether `config` is what the backend says of the session's target: the
/// features that it enables, and no reliable float type.
pub open spec fn configures(sess: Session, config: TargetConfig) -> bool {
    &&& features::lists_features(
        sess@.known_features,
        sess@.spec_features,
        sess@.feature_flag,
        text::texts(config.target_features@),
        text::texts(config.unstable_target_features@),
    )
    &&& !config.has_reliable_f16
    &&& !config.has_reliable_f16_math
    &&& !config.has_reliable_f128
    &&& !config.has_reliable_f128_math
}

/// The two lists of a target's configuration are the names of the session's
/// known features that are on, in the session's order: the second has all of
/// them, the first those that may be shown. The results give their places among
/// the known features.
pub proof fn law_target_config(sess: Session, config: TargetConfig) -> (places: (
    Seq<int>,
    Seq<int>,
))
    requires
        configures(sess, config),
    ensures
        ({
            let known = sess.known_features@;
            let on = features::enabled_features(
                features::feature_table(known),
                sess.spec_features@,
                sess.feature_flag@,
            );
            &&& selection::selects(
                places.0,
                known.len(),
                |i: int| on.contains(known[i].name@) && known[i].in_cfg,
            )
            &&& selection::selects(places.1, known.len(), |i: int| on.contains(known[i].name@))
            &&& config.target_features@.len() == places.0.len()
            &&& config.unstable_target_features@.len() == places.1.len()
            &&& forall|i: int|
                0 <= i < places.0.len() ==> (#[trigger] config.target_features@[i])@
                    == known[places.0[i]].name@
            &&& forall|i: int|
                0 <= i < places.1.len() ==> (#[trigger] config.unstable_target_features@[i])@
                    == known[places.1[i]].name@
        }),
        !config.has_reliable_f16 && !config.has_reliable_f16_math,
        !config.has_reliable_f128 && !config.has_reliable_f128_math,
{
    let known = sess.known_features@;
    let table = features::feature_table(known);
    let shown = text::texts(config.target_features@);
    let all = text::texts(config.unstable_target_features@);
    let places = features::law_listed_in_table_order(
        table,
        sess.spec_features@,
        sess.feature_flag@,
        shown,
        all,
    );
    let on = features::enabled_features(table, sess.spec_features@, sess.feature_flag@);
    let in_table = |i: int| on.contains(table[i].name) && table[i].in_cfg;
    let any_in_table = |i: int| on.contains(table[i].name);
    let visible = |i: int| on.contains(known[i].name@) && known[i].in_cfg;
    let any = |i: int| on.contains(known[i].name@);
    assert forall|i: int| 0 <= i < known.len() implies table[i].name == (#[trigger] known[i]).name@
        && table[i].in_cfg == known[i].in_cfg by {
        features::law_feature_table(known, i);
    }
    assert forall|p: int| 0 <= p < known.len() && #[trigger] visible(p) implies places.0.contains(
        p,
    ) by {
        assert(known[p].in_cfg == table[p].in_cfg);
        assert(in_table(p));
    }
    assert forall|p: int| 0 <= p < known.len() && #[trigger] any(p) implies places.1.contains(
        p,
    ) by {
        assert(known[p].name@ == table[p].name);
        assert(any_in_table(p));
    }
    assert forall|i: int| 0 <= i < places.0.len() implies 0 <= #[trigger] places.0[i] < known.len()
        && visible(places.0[i]) by {
        assert(in_table(places.0[i]));
        assert(known[places.0[i]].in_cfg == table[places.0[i]].in_cfg);
    }
    assert forall|i: int| 0 <= i < places.1.len() implies 0 <= #[trigger] places.1[i] < known.len()
        && any(places.1[i]) by {
        assert(any_in_table(places.1[i]));
        assert(known[places.1[i]].name@ == table[places.1[i]].name);
    }
    assert forall|i: int| 0 <= i < places.0.len() implies (
    #[trigger] config.target_features@[i])@ == known[places.0[i]].name@ by {
        assert(shown[i] == table[places.0[i]].name);
    }
    assert forall|i: int| 0 <= i < places.1.len() implies (
    #[trigger] config.unstable_target_features@[i])@ == known[places.1[i]].name@ by {
        assert(all[i] == table[places.1[i]].name);
    }
    places
}

/// The cost of a codegen unit whose compilation took that many nanoseconds.
pub open spec fn cost_of(nanos: nat) -> nat {
    nanos % 0x1_0000_0000_0000_0000
}

/// The cost is the time itself where that fits 64 bits, and starts over from
/// zero wherever it does not.
pub proof fn law_cost(nanos: nat)
    ensures
        nanos < 0x1_0000_0000_0000_0000 ==> cost_of(nanos) == nanos,
        cost_of(nanos + 0x1_0000_0000_0000_0000) == cost_of(nanos),
{
}

impl MlirCodegenBackend {
    /// The backend.
    pub fn new() -> (res: MlirCodegenBackend)
        ensures
            res == (MlirCodegenBackend {  }),
    {
        MlirCodegenBackend {}
    }

    /// The name by which the compiler selects the backend.
    pub fn name(&self) -> (res: &'static str)
        ensures
            res@ == "mlir"@,
    {
        "mlir"
    }

    /// The processor that the session compiles for.
    pub fn target_cpu(&self, sess: &Session) -> (res: String)
        ensures
            res@ == cpu_of(sess@),
    {
        sess.target_cpu.clone()
    }

    /// The features that the session's target enables: those of the target
    /// itself, changed by `-C target-feature`, with all that they imply.
    pub fn target_config(&self, sess: &Session) -> (res: TargetConfig)
        ensures
            configures(*sess, res),
    {
        let (shown, all) = features::target_features(
            &sess.known_features,
            sess.spec_features.as_str(),
            sess.feature_flag.as_str(),
        );
        TargetConfig {
            target_features: shown,
            unstable_target_features: all,
            has_reliable_f16: false,
            has_reliable_f16_math: false,
            has_reliable_f128: false,
            has_reliable_f128_math: false,
        }
    }

    /// Appends the answer to a print request to `out`.
    pub fn print(&self, kind: PrintKind, out: &mut String, sess: &Session)
        ensures
            final(out)@ == after_print(old(out)@, kind, sess@.arch),
    {
        let ghost before = out@;
        match kind {
            PrintKind::TargetCPUs => {
                out.append("MLIR backend target CPUs:\n");
                match &sess.arch {
                    Arch::Nvptx64 => {
                        out.append(
                            "  an NVIDIA SM version in the form `sm_<NN>` or `sm_<NN>a`, e.g. sm_70, sm_80, sm_90, sm_90a, sm_100a, sm_120a\n",
                        );
                    },
                    Arch::RiscV32 | Arch::RiscV64 => {
                        out.append(
                            "  a RISC-V chip identifier understood by this backend's (currently stub) RISC-V/Triton path, e.g. generic-rvv1.0, spacemit-k3 -- not an LLVM -mcpu value\n",
                        );
                    },
                    Arch::Other(name) => {
                        out.append("  (unsupported target architecture `");
                        out.append(name.as_str());
                        out.append("` for the `mlir` backend)\n");
                    },
                }
            },
            PrintKind::TargetFeatures => {
                out.append("MLIR backend target features:\n");
                out.append("  (not yet modeled separately from target-cpu)\n");
            },
            PrintKind::Other => {},
        }
        assert(out@ =~= before + printed(kind, sess@.arch));
    }

    /// The module for the allocator: a placeholder that nothing is made of.
    pub fn codegen_allocator<K>(&self, module_name: &str) -> (res: MlirModule<K>)
        ensures
            res@ == ModuleView::<K>::fresh(module_name@),
    {
        MlirModule::new(module_name)
    }

    /// The cost of a codegen unit: the nanoseconds that its compilation took,
    /// modulo 2^64.
    pub fn codegen_cost(nanos: u128) -> (res: u64)
        ensures
            res == cost_of(nanos as nat),
    {
        assert(nanos as u64 == nanos % 0x1_0000_0000_0000_0000) by (bit_vector);
        #[verifier::truncate]
        (nanos as u64)
    }

    /// Leaves the module as it is: it is already optimized.
    pub fn optimize<K>(_module: &mut ModuleCodegen<K>)
        ensures
            *final(_module) == *old(_module),
    {
    }

    /// Decides which files to write for a compiled module, outside of LTO.
    pub fn codegen<K>(module: ModuleCodegen<K>, emit_assembly: bool) -> (res: (
        Vec<OutputFile>,
        CompiledModule<Destination>,
    ))
        requires
            output::artifact(module.module_llvm@) is Some,
        ensures
            output::written(module.name@, module.kind, module.module_llvm@, emit_assembly, res),
    {
        output::write_compiled_module(module, emit_assembly)
    }
}

} // verus!
