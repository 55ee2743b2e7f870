//! Compiling to HLSL with the module first lowered for the shader model: shader model
//! 3.0 needs `Normalize` hardened and the samples in non-uniform loops lowered, shader
//! models 4.0 to 5.1 the samples lowered.

use crate::back::cross::CrossHlslContext;
use crate::back::{CompileShader, ShaderCompilerOutput};
use crate::error::{ShaderCompileError, ShaderReflectError};
use crate::front::spirv_passes::builder::{same_but_header, Builder};
use crate::front::spirv_passes::harden_normalize::{
    first_glsl_import, is_normalize, lemma_harden_functions_ids, lemma_normalize_result_types_bounded,
    normalize_count, normalize_count_blocks, normalize_count_instrs, normalize_hardened, normalize_result_types,
    epsilon_constants_made, harden_functions, HardenNormalize,
};
use crate::front::spirv_passes::lower_loop_sample_lod::{samples_lowered, LowerLoopSampleLod};
use crate::front::spirv_passes::module::{blocks_view, functions_view, instrs_view, Block, Function, Instruction, Module, ModuleHeader};
use crate::front::SpirvCompilation;
use crate::reflect::cross::{hlsl_compiler_accepts, CrossReflect};
use crate::reflect::semantics::{ReflectSemantics, ShaderReflection};
use crate::back::ReflectShader;
use spirv_cross2::compile::hlsl::HlslShaderModel;
use spirv_cross2::targets::Hlsl;
use vstd::prelude::*;

verus! {

/// The passes that a shader model needs before compiling to HLSL.
#[derive(Debug, Clone, Copy, PartialEq, Eq, Structural)]
pub enum HlslLowering {
    /// Harden the calls of `Normalize`, then lower the samples in non-uniform loops.
    HardenAndLowerLoops,
    /// Lower the samples in non-uniform loops.
    LowerLoops,
}

/// The HLSL shader models that SPIRV-Cross can write.
#[derive(Debug, Clone, Copy, PartialEq, Eq, Structural)]
pub enum ShaderModel {
    ShaderModel3_0,
    ShaderModel4_0,
    ShaderModel4_1,
    ShaderModel5_0,
    ShaderModel5_1,
    ShaderModel6_0,
    ShaderModel6_1,
    ShaderModel6_2,
    ShaderModel6_3,
    ShaderModel6_4,
    ShaderModel6_5,
    ShaderModel6_6,
    ShaderModel6_7,
    ShaderModel6_8,
}

impl ShaderModel {
    /// The shader model's number: 30 for 3.0, 40 for 4.0, and so on.
    pub open spec fn spec_number(self) -> u32 {
        match self {
            ShaderModel::ShaderModel3_0 => 30,
            ShaderModel::ShaderModel4_0 => 40,
            ShaderModel::ShaderModel4_1 => 41,
            ShaderModel::ShaderModel5_0 => 50,
            ShaderModel::ShaderModel5_1 => 51,
            ShaderModel::ShaderModel6_0 => 60,
            ShaderModel::ShaderModel6_1 => 61,
            ShaderModel::ShaderModel6_2 => 62,
            ShaderModel::ShaderModel6_3 => 63,
            ShaderModel::ShaderModel6_4 => 64,
            ShaderModel::ShaderModel6_5 => 65,
            ShaderModel::ShaderModel6_6 => 66,
            ShaderModel::ShaderModel6_7 => 67,
            ShaderModel::ShaderModel6_8 => 68,
        }
    }

    /// The shader model's number: 30 for 3.0, 40 for 4.0, and so on.
    pub fn number(self) -> (r: u32)
        ensures
            r == self.spec_number(),
    {
        match self {
            ShaderModel::ShaderModel3_0 => 30,
            ShaderModel::ShaderModel4_0 => 40,
            ShaderModel::ShaderModel4_1 => 41,
            ShaderModel::ShaderModel5_0 => 50,
            ShaderModel::ShaderModel5_1 => 51,
            ShaderModel::ShaderModel6_0 => 60,
            ShaderModel::ShaderModel6_1 => 61,
            ShaderModel::ShaderModel6_2 => 62,
            ShaderModel::ShaderModel6_3 => 63,
            ShaderModel::ShaderModel6_4 => 64,
            ShaderModel::ShaderModel6_5 => 65,
            ShaderModel::ShaderModel6_6 => 66,
            ShaderModel::ShaderModel6_7 => 67,
            ShaderModel::ShaderModel6_8 => 68,
        }
    }
}

/// The shader model compiled for: the one given, 5.0 when none is.
pub open spec fn spec_shader_model_or_default(options: Option<ShaderModel>) -> ShaderModel {
    match options {
        Some(sm) => sm,
        None => ShaderModel::ShaderModel5_0,
    }
}

/// The shader model compiled for: the one given, 5.0 when none is.
pub fn shader_model_or_default(options: Option<ShaderModel>) -> (r: ShaderModel)
    ensures
        r == spec_shader_model_or_default(options),
{
    match options {
        Some(sm) => sm,
        None => ShaderModel::ShaderModel5_0,
    }
}

/// SPIRV-Cross's shader model (`HlslShaderModel`) of the same version as the library's.
pub uninterp spec fn hlsl_shader_model(sm: ShaderModel) -> HlslShaderModel;

/// SPIRV-Cross's shader model (`HlslShaderModel`) of the same version, variant for
/// variant. The result is `hlsl_shader_model(sm)`; which variant that is cannot be stated,
/// as the variants of the outside enum are not visible here.
#[verifier::external_body]
pub(crate) fn cross_shader_model(sm: ShaderModel) -> (r: HlslShaderModel)
    ensures
        r == hlsl_shader_model(sm),
{
    match sm {
        ShaderModel::ShaderModel3_0 => HlslShaderModel::ShaderModel3_0, ShaderModel::ShaderModel4_0 => HlslShaderModel::ShaderModel4_0,
        ShaderModel::ShaderModel4_1 => HlslShaderModel::ShaderModel4_1, ShaderModel::ShaderModel5_0 => HlslShaderModel::ShaderModel5_0,
        ShaderModel::ShaderModel5_1 => HlslShaderModel::ShaderModel5_1, ShaderModel::ShaderModel6_0 => HlslShaderModel::ShaderModel6_0,
        ShaderModel::ShaderModel6_1 => HlslShaderModel::ShaderModel6_1, ShaderModel::ShaderModel6_2 => HlslShaderModel::ShaderModel6_2,
        ShaderModel::ShaderModel6_3 => HlslShaderModel::ShaderModel6_3, ShaderModel::ShaderModel6_4 => HlslShaderModel::ShaderModel6_4,
        ShaderModel::ShaderModel6_5 => HlslShaderModel::ShaderModel6_5, ShaderModel::ShaderModel6_6 => HlslShaderModel::ShaderModel6_6,
        ShaderModel::ShaderModel6_7 => HlslShaderModel::ShaderModel6_7, ShaderModel::ShaderModel6_8 => HlslShaderModel::ShaderModel6_8,
    }
}

/// The lowering for the shader model numbered `shader_model`: shader model 3.0 hardens
/// and lowers, 4.0 to 5.1 lower, the others need none.
pub open spec fn spec_hlsl_lowering(shader_model: u32) -> Option<HlslLowering> {
    if shader_model == 30 {
        Some(HlslLowering::HardenAndLowerLoops)
    } else if shader_model == 40 || shader_model == 41 || shader_model == 50 || shader_model == 51 {
        Some(HlslLowering::LowerLoops)
    } else {
        None::<HlslLowering>
    }
}

/// The lowering for the shader model numbered `shader_model`: shader model 3.0 hardens
/// and lowers, 4.0 to 5.1 lower, the others need none.
pub fn hlsl_lowering(shader_model: u32) -> (r: Option<HlslLowering>)
    ensures
        r == spec_hlsl_lowering(shader_model),
{
    if shader_model == 30 {
        Some(HlslLowering::HardenAndLowerLoops)
    } else if shader_model == 40 || shader_model == 41 || shader_model == 50 || shader_model == 51 {
        Some(HlslLowering::LowerLoops)
    } else {
        None
    }
}

/// The lowering that compiling for each shader model runs: shader model 3.0 hardens
/// `Normalize` and lowers the samples in non-uniform loops, shader models 4.0, 4.1, 5.0
/// and 5.1 lower those samples, and shader model 6 needs neither; with no model given,
/// shader model 5.0's.
pub proof fn law_lowering_per_shader_model(sm: ShaderModel)
    ensures
        sm == ShaderModel::ShaderModel3_0
            ==> spec_hlsl_lowering(spec_shader_model_or_default(Some(sm)).spec_number()) == Some(HlslLowering::HardenAndLowerLoops),
        (sm == ShaderModel::ShaderModel4_0 || sm == ShaderModel::ShaderModel4_1 || sm == ShaderModel::ShaderModel5_0
            || sm == ShaderModel::ShaderModel5_1)
            ==> spec_hlsl_lowering(spec_shader_model_or_default(Some(sm)).spec_number()) == Some(HlslLowering::LowerLoops),
        (sm != ShaderModel::ShaderModel3_0 && sm != ShaderModel::ShaderModel4_0 && sm != ShaderModel::ShaderModel4_1
            && sm != ShaderModel::ShaderModel5_0 && sm != ShaderModel::ShaderModel5_1)
            ==> spec_hlsl_lowering(spec_shader_model_or_default(Some(sm)).spec_number()) is None,
        spec_hlsl_lowering(spec_shader_model_or_default(None).spec_number()) == Some(HlslLowering::LowerLoops),
{
}

/// Each shader model's number is ten times its major version plus its minor version,
/// so no two models share a number.
pub proof fn law_shader_model_numbers(a: ShaderModel, b: ShaderModel)
    ensures
        a == ShaderModel::ShaderModel3_0 ==> a.spec_number() == 10 * 3 + 0,
        a == ShaderModel::ShaderModel4_0 ==> a.spec_number() == 10 * 4 + 0,
        a == ShaderModel::ShaderModel4_1 ==> a.spec_number() == 10 * 4 + 1,
        a == ShaderModel::ShaderModel5_0 ==> a.spec_number() == 10 * 5 + 0,
        a == ShaderModel::ShaderModel5_1 ==> a.spec_number() == 10 * 5 + 1,
        a == ShaderModel::ShaderModel6_0 ==> a.spec_number() == 10 * 6 + 0,
        a == ShaderModel::ShaderModel6_1 ==> a.spec_number() == 10 * 6 + 1,
        a == ShaderModel::ShaderModel6_2 ==> a.spec_number() == 10 * 6 + 2,
        a == ShaderModel::ShaderModel6_3 ==> a.spec_number() == 10 * 6 + 3,
        a == ShaderModel::ShaderModel6_4 ==> a.spec_number() == 10 * 6 + 4,
        a == ShaderModel::ShaderModel6_5 ==> a.spec_number() == 10 * 6 + 5,
        a == ShaderModel::ShaderModel6_6 ==> a.spec_number() == 10 * 6 + 6,
        a == ShaderModel::ShaderModel6_7 ==> a.spec_number() == 10 * 6 + 7,
        a == ShaderModel::ShaderModel6_8 ==> a.spec_number() == 10 * 6 + 8,
        a != b ==> a.spec_number() != b.spec_number(),
{
}

/// Whether the ids left are enough for the lowering: each call of `Normalize` may take
/// three, and lowering samples two.
pub open spec fn lowering_fits(b: Builder, l: HlslLowering) -> bool {
    match l {
        HlslLowering::LowerLoops => b.next_id < u32::MAX - 1,
        HlslLowering::HardenAndLowerLoops => match first_glsl_import(b.module@.ext_inst_imports) {
            Some(ext) => b.next_id + 3 * normalize_count(b.module@.functions, ext) < u32::MAX - 1,
            None => b.next_id < u32::MAX - 1,
        },
    }
}

/// What the lowering does to the module.
pub open spec fn lowered_for_hlsl(b0: Builder, b1: Builder, l: HlslLowering) -> bool {
    match l {
        HlslLowering::LowerLoops => samples_lowered(b0, b1),
        HlslLowering::HardenAndLowerLoops => exists|mid: Builder|
            #[trigger] normalize_hardened(b0, mid) && samples_lowered(mid, b1),
    }
}

/// Hardening takes at most three ids per call of `Normalize`.
proof fn lemma_hardening_ids(b0: Builder, b1: Builder)
    requires
        normalize_hardened(b0, b1),
    ensures
        first_glsl_import(b0.module@.ext_inst_imports) matches Some(ext)
            ==> b1.next_id <= b0.next_id + 3 * normalize_count(b0.module@.functions, ext),
        first_glsl_import(b0.module@.ext_inst_imports) is None ==> b1.next_id == b0.next_id,
{
    if let Some(ext) = first_glsl_import(b0.module@.ext_inst_imports) {
        let fs = b0.module@.functions;
        if !normalize_result_types(fs, ext).is_empty() {
            let (mid, eps) = choose|mid: Builder, eps: Map<u32, u32>|
                #[trigger] epsilon_constants_made(b0, mid, normalize_result_types(fs, ext), eps)
                    && b1.next_id == harden_functions(fs, ext, eps, mid.next_id as int).1;
            lemma_normalize_result_types_bounded(fs, ext);
            lemma_harden_functions_ids(fs, ext, eps, mid.next_id as int);
        }
    }
}

/// Runs the lowering on the module.
pub fn lower_module(b: Builder, l: HlslLowering) -> (r: Builder)
    requires
        lowering_fits(b, l),
    ensures
        lowered_for_hlsl(b, r, l),
{
    match l {
        HlslLowering::LowerLoops => {
            let mut pass = LowerLoopSampleLod::new(b);
            pass.do_pass();
            pass.into_builder()
        },
        HlslLowering::HardenAndLowerLoops => {
            let mut harden = HardenNormalize::new(b);
            harden.do_pass();
            let mid = harden.into_builder();
            proof {
                lemma_hardening_ids(b, mid);
            }
            let mut pass = LowerLoopSampleLod::new(mid);
            pass.do_pass();
            let r = pass.into_builder();
            assert(normalize_hardened(b, mid) && samples_lowered(mid, r));
            r
        },
    }
}

/// The number of calls of `Normalize` of `ext` in the instructions, up to `cap`.
fn normalize_calls_instrs(s: &Vec<Instruction>, ext: u32, cap: u64) -> (r: u64)
    ensures
        r == (if normalize_count_instrs(instrs_view(s@), ext) < cap { normalize_count_instrs(instrs_view(s@), ext) } else { cap as nat }),
{
    let ghost v = instrs_view(s@);
    let mut n: u64 = 0;
    let mut i: usize = 0;
    assert(v.take(0) =~= Seq::empty());
    while i < s.len()
        invariant
            i <= s@.len(),
            v == instrs_view(s@),
            n == (if normalize_count_instrs(v.take(i as int), ext) < cap { normalize_count_instrs(v.take(i as int), ext) } else { cap as nat }),
        decreases s@.len() - i,
    {
        assert(v.take(i + 1).drop_last() =~= v.take(i as int));
        assert(v.take(i + 1).last() == s@[i as int]@);
        if is_normalize(&s[i], ext) && n < cap {
            n = n + 1;
        }
        i = i + 1;
    }
    assert(v.take(i as int) =~= v);
    n
}

/// The number of calls of `Normalize` of `ext` in the blocks, up to `cap`.
fn normalize_calls_blocks(s: &Vec<Block>, ext: u32, cap: u64) -> (r: u64)
    ensures
        r == (if normalize_count_blocks(blocks_view(s@), ext) < cap { normalize_count_blocks(blocks_view(s@), ext) } else { cap as nat }),
{
    let ghost v = blocks_view(s@);
    let mut n: u64 = 0;
    let mut i: usize = 0;
    assert(v.take(0) =~= Seq::empty());
    while i < s.len()
        invariant
            i <= s@.len(),
            v == blocks_view(s@),
            n == (if normalize_count_blocks(v.take(i as int), ext) < cap { normalize_count_blocks(v.take(i as int), ext) } else { cap as nat }),
        decreases s@.len() - i,
    {
        assert(v.take(i + 1).drop_last() =~= v.take(i as int));
        assert(v.take(i + 1).last() == s@[i as int]@);
        let k = normalize_calls_instrs(&s[i].instructions, ext, cap);
        n = if n < cap - k { n + k } else { cap };
        i = i + 1;
    }
    assert(v.take(i as int) =~= v);
    n
}

/// The number of calls of `Normalize` of `ext` in the functions, up to `cap`.
fn normalize_calls(s: &Vec<Function>, ext: u32, cap: u64) -> (r: u64)
    ensures
        r == (if normalize_count(functions_view(s@), ext) < cap { normalize_count(functions_view(s@), ext) } else { cap as nat }),
{
    let ghost v = functions_view(s@);
    let mut n: u64 = 0;
    let mut i: usize = 0;
    assert(v.take(0) =~= Seq::empty());
    while i < s.len()
        invariant
            i <= s@.len(),
            v == functions_view(s@),
            n == (if normalize_count(v.take(i as int), ext) < cap { normalize_count(v.take(i as int), ext) } else { cap as nat }),
        decreases s@.len() - i,
    {
        assert(v.take(i + 1).drop_last() =~= v.take(i as int));
        assert(v.take(i + 1).last() == s@[i as int]@);
        let k = normalize_calls_blocks(&s[i].blocks, ext, cap);
        n = if n < cap - k { n + k } else { cap };
        i = i + 1;
    }
    assert(v.take(i as int) =~= v);
    n
}

/// Runs the lowering where the ids left are enough; hands the module back unchanged
/// where they are not.
pub fn lower_module_checked(b: Builder, l: HlslLowering) -> (r: Result<Builder, Builder>)
    ensures
        match r {
            Ok(out) => lowering_fits(b, l) && lowered_for_hlsl(b, out, l),
            Err(back) => !lowering_fits(b, l) && back == b,
        },
{
    let harden = HardenNormalize::new(b);
    let ext = harden.find_glsl_std_450();
    let b = harden.into_builder();
    let fits = match l {
        HlslLowering::LowerLoops => b.next_id < u32::MAX - 1,
        HlslLowering::HardenAndLowerLoops => match ext {
            Some(e) => {
                let cap: u64 = 0x1_0000_0000;
                let n = normalize_calls(&b.module.functions, e, cap);
                n < cap && (b.next_id as u64) + 3 * n < (u32::MAX - 1) as u64
            },
            None => b.next_id < u32::MAX - 1,
        },
    };
    if fits {
        Ok(lower_module(b, l))
    } else {
        Err(b)
    }
}

/// The builder that starts from a module: its ids start at the header's bound.
pub open spec fn builder_of(module: Module) -> Builder {
    Builder { module, next_id: module.header->Some_0.bound }
}

/// Lowers one stage's module for the shader model. `None` when the module has no header or
/// too few ids are left for the lowering; otherwise the lowered module, whose header's
/// bound is the next free id.
pub fn lower_stage(module: Module, l: HlslLowering) -> (r: Option<Module>)
    ensures
        module.header is None ==> r is None,
        module.header is Some ==> (r is Some <==> lowering_fits(builder_of(module), l)),
        r matches Some(out) ==> exists|b1: Builder| #[trigger] lowered_for_hlsl(builder_of(module), b1, l)
            && out.header == Some(ModuleHeader { bound: b1.next_id, ..b1.module.header->Some_0 })
            && same_but_header(out@, b1.module@),
{
    if module.header.is_none() {
        return None;
    }
    let ghost b0 = builder_of(module);
    let b = Builder::new_from_module(module);
    assert(b.module@ == b0.module@);
    match lower_module_checked(b, l) {
        Ok(lowered) => {
            assert(lowered.module.header is Some);
            let ghost b1 = lowered;
            let out = lowered.module();
            assert(lowered_for_hlsl(builder_of(module), b1, l));
            Some(out)
        },
        Err(_) => None,
    }
}

/// An HLSL backend that lowers the module for the shader model before compiling.
pub struct HlslCompileShader {
    /// Reflection of the module as it was given.
    pub backend: CrossReflect<Hlsl>,
    /// The module as it was given.
    pub spirv: SpirvCompilation,
}

impl HlslCompileShader {
    /// Parses both stages for reflection, keeping the words for the lowering.
    pub fn new(spirv: SpirvCompilation) -> (r: Result<Self, ShaderReflectError>)
        ensures
            r matches Ok(s) ==> s.spirv.vertex@ == spirv.vertex@ && s.spirv.fragment@ == spirv.fragment@,
            r matches Err(e) ==> e is SpirvCrossError,
    {
        let backend = CrossReflect::<Hlsl>::from_spirv(&spirv)?;
        Ok(HlslCompileShader { backend, spirv })
    }

    /// The lowering that compiling for the shader model runs first; shader model 5.0
    /// when none is given.
    pub fn lowering(options: Option<ShaderModel>) -> (r: Option<HlslLowering>)
        ensures
            r == spec_hlsl_lowering(spec_shader_model_or_default(options).spec_number()),
    {
        hlsl_lowering(shader_model_or_default(options).number())
    }

    /// Compiles both stages for the shader model: where it needs a lowering, from the
    /// words that `rewrite` gives for each stage and that lowering, parsed anew;
    /// otherwise from the module as it was given.
    pub fn compile_lowered<F: Fn(&Vec<u32>, HlslLowering) -> Vec<u32>>(
        self,
        options: Option<ShaderModel>,
        rewrite: F,
    ) -> (r: Result<ShaderCompilerOutput<String, CrossHlslContext>, ShaderCompileError>)
        requires
            forall|w: &Vec<u32>, l: HlslLowering| #[trigger] rewrite.requires((w, l)),
        ensures
            r matches Err(e) ==> e is SpirvCrossCompileError,
            spec_hlsl_lowering(spec_shader_model_or_default(options).spec_number()) matches Some(l) ==> (r is Ok ==>
                exists|v: Vec<u32>, f: Vec<u32>|
                    #[trigger] rewrite.ensures((&self.spirv.vertex, l), v) && #[trigger] rewrite.ensures((&self.spirv.fragment, l), f)
                    && hlsl_compiler_accepts(v@) && hlsl_compiler_accepts(f@)),
    {
        match Self::lowering(options) {
            Some(l) => {
                let vertex = rewrite(&self.spirv.vertex, l);
                let fragment = rewrite(&self.spirv.fragment, l);
                let ghost (v, f) = (vertex, fragment);
                let rewritten = SpirvCompilation { vertex, fragment };
                let backend = reflect_error_to_compile(CrossReflect::<Hlsl>::from_spirv(&rewritten))?;
                let r = backend.compile(options);
                proof {
                    if r is Ok {
                        assert(rewrite.ensures((&self.spirv.vertex, l), v) && rewrite.ensures((&self.spirv.fragment, l), f)
                            && hlsl_compiler_accepts(v@) && hlsl_compiler_accepts(f@));
                    }
                }
                r
            },
            None => self.backend.compile(options),
        }
    }
}

/// A reflection error met while compiling, as a compile error: SPIRV-Cross errors pass
/// through.
fn reflect_error_to_compile<V>(r: Result<V, ShaderReflectError>) -> (out: Result<V, ShaderCompileError>)
    ensures
        match r {
            Ok(v) => out == Ok::<V, ShaderCompileError>(v),
            Err(ShaderReflectError::SpirvCrossError(e)) => out == Err::<V, ShaderCompileError>(ShaderCompileError::SpirvCrossCompileError(e)),
            Err(_) => out matches Err(e) && e is SpirvCrossCompileError,
        },
{
    crate::back::cross::reflect_to_compile(r)
}

impl ReflectShader for HlslCompileShader {
    /// Reflects the module as it was given: the lowerings add no resource, interface or
    /// semantic.
    fn reflect(&mut self, pass_number: usize, semantics: &ReflectSemantics) -> Result<ShaderReflection, ShaderReflectError> {
        self.backend.reflect(pass_number, semantics)
    }
}

} // verus!
