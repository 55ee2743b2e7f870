//! Compiling reflected shaders to GLSL, HLSL and MSL with SPIRV-Cross.

use crate::back::hlsl::{cross_shader_model, shader_model_or_default, ShaderModel};
use crate::back::targets::{GLSL, HLSL, MSL};
use crate::back::{CompileShader, CompilerBackend, FromCompilation, ShaderCompilerOutput};
use crate::error::{ShaderCompileError, ShaderReflectError};
use crate::front::SpirvCompilation;
use crate::reflect::cross::{
    get_shader_resources, CrossStageResources, glsl_compiler_accepts, hlsl_compiler_accepts, msl_compiler_accepts, CrossReflect, CrossResource,
};
use crate::reflect::names::decimal_text;
use spirv_cross2::compile::glsl::GlslVersion;
use spirv_cross2::compile::hlsl::HlslShaderModel;
use spirv_cross2::compile::msl::MslVersion;
use spirv_cross2::compile::{CompilableTarget, CompiledArtifact};
use spirv_cross2::handle::{Handle, VariableId};
use spirv_cross2::spirv::Decoration;
use spirv_cross2::targets::{Glsl, Hlsl, Msl};
use spirv_cross2::{Compiler, SpirvCrossError};
use vstd::prelude::*;

verus! {

#[verifier::external_type_specification]
#[verifier::external_body]
pub struct ExGlslVersion(GlslVersion);

#[verifier::external_type_specification]
#[verifier::external_body]
pub struct ExHlslShaderModel(HlslShaderModel);

#[verifier::external_type_specification]
#[verifier::external_body]
pub struct ExMslVersion(MslVersion);

/// The compiled output of both stages.
#[verifier::reject_recursive_types(T)]
pub struct CompiledProgram<T> {
    pub vertex: CompiledArtifact<T>,
    pub fragment: CompiledArtifact<T>,
}

/// The context of a GLSL compilation.
pub struct CrossGlslContext {
    /// The name and binding of each sampled texture of the fragment stage.
    pub sampler_bindings: Vec<(String, u32)>,
    /// The compiled program.
    pub artifact: CompiledProgram<Glsl>,
}

/// A buffer of a stage, by name and id, in an HLSL compilation.
#[derive(Debug, Clone)]
pub struct HlslBufferAssignment {
    pub name: String,
    pub id: u32,
}

/// The uniform and push constant buffers of a stage in an HLSL compilation.
#[derive(Debug, Clone)]
pub struct HlslBufferAssignments {
    pub ubo: Option<HlslBufferAssignment>,
    pub push: Option<HlslBufferAssignment>,
}

/// The context of an HLSL compilation.
pub struct CrossHlslContext {
    /// The compiled program.
    pub artifact: CompiledProgram<Hlsl>,
    pub vertex_buffers: HlslBufferAssignments,
    pub fragment_buffers: HlslBufferAssignments,
}

/// The context of an MSL compilation.
pub struct CrossMslContext {
    /// The compiled program.
    pub artifact: CompiledProgram<Msl>,
}

/// The decimal text of `n` (`to_string`, through `u32`'s `Display`).
#[verifier::external_body]
fn decimal_string(n: u32) -> (r: String)
    ensures
        r@ == decimal_text(n as nat),
{
    n.to_string()
}

/// The name that shader model 3.0 gives the sampler at `binding`: `LIBRA_SAMPLER2D_`
/// and the binding in decimal.
pub fn sampler_name(binding: u32) -> (r: String)
    ensures
        r@ == "LIBRA_SAMPLER2D_"@ + decimal_text(binding as nat),
{
    let mut name = String::from_str("LIBRA_SAMPLER2D_");
    let digits = decimal_string(binding);
    name.append(digits.as_str());
    name
}

/// Renames `id` (`Compiler::set_name`). Its effect on the compiler is not stated: the
/// compiler's state is not visible here.
#[verifier::external_body]
fn set_name<T>(c: &mut Compiler<T>, id: Handle<VariableId>, name: String) -> (r: Result<(), SpirvCrossError>) {
    c.set_name(id, name)
}

/// The binding literal of `id` (`Compiler::decoration`), `None` when it has none. The
/// value is not stated: it comes from the compiler's state, which is not visible here.
#[verifier::external_body]
fn binding_of<T>(c: &Compiler<T>, id: Handle<VariableId>) -> (r: Result<Option<u32>, SpirvCrossError>) {
    Ok(c.decoration(id, Decoration::Binding)?.and_then(|v| v.as_literal()))
}

/// Compiles to GLSL of the given version (`Compiler::compile`). The output is not stated:
/// SPIRV-Cross writes it.
#[verifier::external_body]
fn compile_glsl(c: Compiler<Glsl>, version: GlslVersion) -> (r: Result<CompiledArtifact<Glsl>, SpirvCrossError>) {
    let mut options = Glsl::options();
    options.version = version;
    c.compile(&options)
}

/// Compiles to HLSL of the given shader model (`Compiler::compile`). The output is not
/// stated: SPIRV-Cross writes it.
#[verifier::external_body]
fn compile_hlsl(c: Compiler<Hlsl>, shader_model: HlslShaderModel) -> (r: Result<CompiledArtifact<Hlsl>, SpirvCrossError>) {
    let mut options = Hlsl::options();
    options.shader_model = shader_model;
    c.compile(&options)
}

/// Compiles to MSL of the given version (`Compiler::compile`). The output is not stated:
/// SPIRV-Cross writes it.
#[verifier::external_body]
fn compile_msl(c: Compiler<Msl>, version: MslVersion) -> (r: Result<CompiledArtifact<Msl>, SpirvCrossError>) {
    let mut options = Msl::options();
    options.version = version;
    c.compile(&options)
}

/// The source text of the compiled artifact (`to_string`), which is not stated: the
/// artifact is not visible here.
#[verifier::external_body]
fn artifact_text<T>(a: &CompiledArtifact<T>) -> (r: String) {
    a.to_string()
}

/// A version of the Metal Shading Language.
#[derive(Debug, Clone, Copy, PartialEq, Eq, Structural)]
pub struct MetalVersion {
    pub major: u32,
    pub minor: u32,
    pub patch: u32,
}

/// The MSL version compiled for: the one given, 2.0 when none is.
pub open spec fn spec_msl_version_or_default(options: Option<MetalVersion>) -> MetalVersion {
    match options {
        Some(v) => v,
        None => MetalVersion { major: 2, minor: 0, patch: 0 },
    }
}

/// The MSL version compiled for: the one given, 2.0 when none is.
pub fn msl_version_or_default(options: Option<MetalVersion>) -> (r: MetalVersion)
    ensures
        r == spec_msl_version_or_default(options),
{
    match options {
        Some(v) => v,
        None => MetalVersion { major: 2, minor: 0, patch: 0 },
    }
}

/// SPIRV-Cross's MSL version with the given major, minor and patch numbers.
pub uninterp spec fn msl_version(major: u32, minor: u32, patch: u32) -> MslVersion;

/// SPIRV-Cross's MSL version of the same numbers (`MslVersion::new`): the result is
/// `msl_version` of the numbers; its fields are not visible here.
#[verifier::external_body]
fn cross_msl_version(v: MetalVersion) -> (r: MslVersion)
    ensures
        r == msl_version(v.major, v.minor, v.patch),
{
    MslVersion::new(v.major, v.minor, v.patch)
}

/// A `SpirvCrossError::InvalidArgument` with the message; not stated, as the outside type
/// is not visible here.
#[verifier::external_body]
fn invalid_argument(message: &str) -> (r: SpirvCrossError) {
    SpirvCrossError::InvalidArgument(String::from(message))
}

/// A SPIRV-Cross result with its error as a compile error.
fn compile_result<V>(r: Result<V, SpirvCrossError>) -> (out: Result<V, ShaderCompileError>)
    ensures
        match r {
            Ok(v) => out == Ok::<V, ShaderCompileError>(v),
            Err(e) => out == Err::<V, ShaderCompileError>(ShaderCompileError::SpirvCrossCompileError(e)),
        },
{
    match r {
        Ok(v) => Ok(v),
        Err(e) => Err(ShaderCompileError::SpirvCrossCompileError(e)),
    }
}

/// A reflection error met while compiling, as a compile error.
pub(crate) fn reflect_to_compile<V>(r: Result<V, ShaderReflectError>) -> (out: Result<V, ShaderCompileError>)
    ensures
        match r {
            Ok(v) => out == Ok::<V, ShaderCompileError>(v),
            Err(ShaderReflectError::SpirvCrossError(e)) => out == Err::<V, ShaderCompileError>(ShaderCompileError::SpirvCrossCompileError(e)),
            Err(_) => out matches Err(e) && e is SpirvCrossCompileError,
        },
{
    match r {
        Ok(v) => Ok(v),
        Err(ShaderReflectError::SpirvCrossError(e)) => Err(ShaderCompileError::SpirvCrossCompileError(e)),
        Err(_) => Err(ShaderCompileError::SpirvCrossCompileError(invalid_argument("reflection failed"))),
    }
}

/// The buffer of a stage: none without one, the one by name and id, an error with more.
pub fn assign_buffer(list: &Vec<CrossResource>, too_many: &str) -> (r: Result<Option<HlslBufferAssignment>, ShaderCompileError>)
    ensures
        list@.len() == 0 ==> r matches Ok(None),
        list@.len() == 1 ==> (r matches Ok(Some(a)) && a.name@ == list@[0].info.name@ && a.id == list@[0].info.id),
        list@.len() > 1 ==> (r matches Err(e) && e is SpirvCrossCompileError),
{
    if list.len() > 1 {
        return Err(ShaderCompileError::SpirvCrossCompileError(invalid_argument(too_many)));
    }
    if list.len() == 0 {
        return Ok(None);
    }
    Ok(Some(HlslBufferAssignment { name: list[0].info.name.clone(), id: list[0].info.id }))
}

/// Whether the buffer assignments of a stage are those of its resources: each buffer
/// by name and id, none without one.
pub open spec fn assignments_of(res: CrossStageResources, a: HlslBufferAssignments) -> bool {
    &&& (res.uniform_buffers@.len() == 0 ==> a.ubo is None)
    &&& (res.uniform_buffers@.len() == 1 ==> (a.ubo matches Some(u) && u.name@ == res.uniform_buffers@[0].info.name@
        && u.id == res.uniform_buffers@[0].info.id))
    &&& (res.push_constant_buffers@.len() == 0 ==> a.push is None)
    &&& (res.push_constant_buffers@.len() == 1 ==> (a.push matches Some(p) && p.name@ == res.push_constant_buffers@[0].info.name@
        && p.id == res.push_constant_buffers@[0].info.id))
}

/// The uniform and push constant buffers of both stages for an HLSL compilation: a stage
/// may have at most one of each, else it is an error (the vertex stage's uniform buffers
/// first, then its push constant buffers, then the fragment stage's).
pub fn hlsl_buffer_assignments(vertex_res: &CrossStageResources, fragment_res: &CrossStageResources)
    -> (r: Result<(HlslBufferAssignments, HlslBufferAssignments), ShaderCompileError>)
    ensures
        r is Ok <==> (vertex_res.uniform_buffers@.len() <= 1 && vertex_res.push_constant_buffers@.len() <= 1
            && fragment_res.uniform_buffers@.len() <= 1 && fragment_res.push_constant_buffers@.len() <= 1),
        r matches Err(e) ==> e is SpirvCrossCompileError,
        r matches Ok((v, f)) ==> assignments_of(*vertex_res, v) && assignments_of(*fragment_res, f),
{
    let vertex_ubo = assign_buffer(&vertex_res.uniform_buffers, "Cannot have more than one uniform buffer")?;
    let vertex_push = assign_buffer(&vertex_res.push_constant_buffers, "Cannot have more than one push constant buffer")?;
    let fragment_ubo = assign_buffer(&fragment_res.uniform_buffers, "Cannot have more than one uniform buffer")?;
    let fragment_push = assign_buffer(&fragment_res.push_constant_buffers, "Cannot have more than one push constant buffer")?;
    Ok((HlslBufferAssignments { ubo: vertex_ubo, push: vertex_push }, HlslBufferAssignments { ubo: fragment_ubo, push: fragment_push }))
}

/// Whether compiling for the shader model renames each sampled texture after its binding
/// (`LIBRA_SAMPLER2D_` and the binding): only for shader model 3.0.
pub fn renames_samplers(sm: ShaderModel) -> (r: bool)
    ensures
        r == (sm == ShaderModel::ShaderModel3_0),
{
    match sm {
        ShaderModel::ShaderModel3_0 => true,
        _ => false,
    }
}

/// The sampled textures that have a binding, by name and binding, in order: `reads[j]`
/// is what reading the binding of `images[j]` gave.
pub open spec fn bound_samplers(images: Seq<CrossResource>, reads: Seq<Result<Option<u32>, SpirvCrossError>>) -> Seq<(Seq<char>, u32)>
    decreases reads.len(),
{
    if reads.len() == 0 {
        seq![]
    } else {
        let n = (reads.len() - 1) as int;
        let pre = bound_samplers(images, reads.take(n));
        match reads[n] {
            Ok(Some(b)) => pre.push((images[n].info.name@, b)),
            _ => pre,
        }
    }
}

/// The name and binding of each sampled texture that has a binding, in order; the first
/// read that failed is the error.
pub fn sampler_binding_list(images: &Vec<CrossResource>, reads: Vec<Result<Option<u32>, SpirvCrossError>>)
    -> (r: Result<Vec<(String, u32)>, ShaderCompileError>)
    requires
        reads@.len() == images@.len(),
    ensures
        r is Ok <==> forall|j: int| 0 <= j < reads@.len() ==> #[trigger] reads@[j] is Ok,
        r matches Err(e) ==> exists|j: int| 0 <= j < reads@.len() && (forall|i: int| 0 <= i < j ==> #[trigger] reads@[i] is Ok)
            && (#[trigger] reads@[j] matches Err(inner) && e == ShaderCompileError::SpirvCrossCompileError(inner)),
        r matches Ok(list) ==> list@.len() == bound_samplers(images@, reads@).len()
            && forall|j: int| 0 <= j < list@.len() ==> (#[trigger] list@[j]).0@ == bound_samplers(images@, reads@)[j].0
                && list@[j].1 == bound_samplers(images@, reads@)[j].1,
{
    let ghost r0 = reads@;
    let mut list: Vec<(String, u32)> = Vec::new();
    let mut i: usize = 0;
    while i < reads.len()
        invariant
            i <= reads@.len(),
            reads@ == r0,
            r0.len() == images@.len(),
            forall|j: int| 0 <= j < i ==> #[trigger] r0[j] is Ok,
            list@.len() == bound_samplers(images@, r0.take(i as int)).len(),
            forall|j: int| 0 <= j < list@.len() ==> (#[trigger] list@[j]).0@ == bound_samplers(images@, r0.take(i as int))[j].0
                && list@[j].1 == bound_samplers(images@, r0.take(i as int))[j].1,
        decreases reads@.len() - i,
    {
        proof {
            assert(r0.take(i + 1).take(i as int) =~= r0.take(i as int));
            assert(r0.take(i + 1)[i as int] == r0[i as int]);
        }
        if reads[i].is_err() {
            let mut reads = reads;
            let item = reads.remove(i);
            match item {
                Err(e) => {
                    let err = ShaderCompileError::SpirvCrossCompileError(e);
                    proof {
                        assert(r0[i as int] matches Err(inner) && err == ShaderCompileError::SpirvCrossCompileError(inner));
                    }
                    return Err(err);
                },
                Ok(_) => {
                    proof { assert(false); }
                    return Ok(list);
                },
            }
        }
        match &reads[i] {
            Ok(Some(b)) => {
                let ghost before = list@;
                list.push((images[i].info.name.clone(), *b));
                proof {
                    assert forall|j: int| 0 <= j < list@.len() implies (#[trigger] list@[j]).0@ == bound_samplers(images@, r0.take(i + 1))[j].0
                        && list@[j].1 == bound_samplers(images@, r0.take(i + 1))[j].1 by {
                        if j < before.len() {
                            assert(list@[j] == before[j]);
                        }
                    }
                }
            },
            _ => {},
        }
        i = i + 1;
    }
    assert(r0.take(i as int) =~= r0);
    Ok(list)
}

impl CompileShader<GLSL> for CrossReflect<Glsl> {
    type Options = GlslVersion;
    type Context = CrossGlslContext;

    /// SPIRV-Cross writes the output; its errors are compile errors of SPIRV-Cross.
    open spec fn compiles_to(&self, options: GlslVersion, r: Result<ShaderCompilerOutput<String, CrossGlslContext>, ShaderCompileError>) -> bool {
        r matches Err(e) ==> e is SpirvCrossCompileError
    }

    /// Compiles both stages to GLSL of the given version, and lists the binding of each
    /// sampled texture of the fragment stage.
    fn compile(self, options: GlslVersion) -> (r: Result<ShaderCompilerOutput<String, CrossGlslContext>, ShaderCompileError>) {
        let fragment_res = reflect_to_compile(get_shader_resources(&self.fragment))?;
        let mut reads: Vec<Result<Option<u32>, SpirvCrossError>> = Vec::new();
        let mut i: usize = 0;
        while i < fragment_res.sampled_images.len()
            invariant
                i <= fragment_res.sampled_images@.len(),
                reads@.len() == i,
            decreases fragment_res.sampled_images@.len() - i,
        {
            reads.push(binding_of(&self.fragment, fragment_res.sampled_images[i].id));
            i = i + 1;
        }
        let sampler_bindings = sampler_binding_list(&fragment_res.sampled_images, reads)?;
        let vertex = compile_result(compile_glsl(self.vertex, options))?;
        let fragment = compile_result(compile_glsl(self.fragment, options))?;
        Ok(ShaderCompilerOutput {
            vertex: artifact_text(&vertex),
            fragment: artifact_text(&fragment),
            context: CrossGlslContext { sampler_bindings, artifact: CompiledProgram { vertex, fragment } },
        })
    }
}

impl CompileShader<HLSL> for CrossReflect<Hlsl> {
    type Options = Option<ShaderModel>;
    type Context = CrossHlslContext;

    /// SPIRV-Cross writes the output; its errors are compile errors of SPIRV-Cross.
    open spec fn compiles_to(&self, options: Option<ShaderModel>, r: Result<ShaderCompilerOutput<String, CrossHlslContext>, ShaderCompileError>) -> bool {
        r matches Err(e) ==> e is SpirvCrossCompileError
    }

    /// Compiles both stages to HLSL of the given shader model (5.0 by default). Each stage
    /// may have at most one uniform and one push constant buffer, which the context names;
    /// for shader model 3.0 each sampled texture is renamed after its binding.
    fn compile(self, options: Option<ShaderModel>) -> (r: Result<ShaderCompilerOutput<String, CrossHlslContext>, ShaderCompileError>) {
        let mut this = self;
        let sm = shader_model_or_default(options);
        let vertex_res = reflect_to_compile(get_shader_resources(&this.vertex))?;
        let fragment_res = reflect_to_compile(get_shader_resources(&this.fragment))?;
        let (vertex_buffers, fragment_buffers) = hlsl_buffer_assignments(&vertex_res, &fragment_res)?;
        if renames_samplers(sm) {
            let mut i: usize = 0;
            while i < fragment_res.sampled_images.len()
                invariant
                    i <= fragment_res.sampled_images@.len(),
                decreases fragment_res.sampled_images@.len() - i,
            {
                let image = &fragment_res.sampled_images[i];
                if let Some(binding) = compile_result(binding_of(&this.fragment, image.id))? {
                    compile_result(set_name(&mut this.fragment, image.id, sampler_name(binding)))?;
                }
                i = i + 1;
            }
        }
        let vertex = compile_result(compile_hlsl(this.vertex, cross_shader_model(sm)))?;
        let fragment = compile_result(compile_hlsl(this.fragment, cross_shader_model(sm)))?;
        Ok(ShaderCompilerOutput {
            vertex: artifact_text(&vertex),
            fragment: artifact_text(&fragment),
            context: CrossHlslContext {
                artifact: CompiledProgram { vertex, fragment },
                vertex_buffers,
                fragment_buffers,
            },
        })
    }
}

impl CompileShader<MSL> for CrossReflect<Msl> {
    type Options = Option<MetalVersion>;
    type Context = CrossMslContext;

    /// SPIRV-Cross writes the output; its errors are compile errors of SPIRV-Cross.
    open spec fn compiles_to(&self, options: Option<MetalVersion>, r: Result<ShaderCompilerOutput<String, CrossMslContext>, ShaderCompileError>) -> bool {
        r matches Err(e) ==> e is SpirvCrossCompileError
    }

    /// Compiles both stages to MSL of the given version (2.0 by default).
    fn compile(self, options: Option<MetalVersion>) -> (r: Result<ShaderCompilerOutput<String, CrossMslContext>, ShaderCompileError>) {
        let version = cross_msl_version(msl_version_or_default(options));
        let vertex = compile_result(compile_msl(self.vertex, version))?;
        let fragment = compile_result(compile_msl(self.fragment, version))?;
        Ok(ShaderCompilerOutput {
            vertex: artifact_text(&vertex),
            fragment: artifact_text(&fragment),
            context: CrossMslContext { artifact: CompiledProgram { vertex, fragment } },
        })
    }
}

impl FromCompilation<SpirvCompilation> for GLSL {
    type Target = GLSL;
    type Options = GlslVersion;
    type Context = CrossGlslContext;
    type Output = CrossReflect<Glsl>;

    /// Parses both stages with SPIRV-Cross for GLSL; it succeeds only where SPIRV-Cross
    /// accepts both.
    fn from_compilation(compile: SpirvCompilation) -> (r: Result<CompilerBackend<CrossReflect<Glsl>>, ShaderReflectError>)
        ensures
            r is Ok ==> glsl_compiler_accepts(compile.vertex@) && glsl_compiler_accepts(compile.fragment@),
            r matches Err(e) ==> e is SpirvCrossError,
    {
        Ok(CompilerBackend { backend: CrossReflect::<Glsl>::from_spirv(&compile)? })
    }
}

impl FromCompilation<SpirvCompilation> for HLSL {
    type Target = HLSL;
    type Options = Option<ShaderModel>;
    type Context = CrossHlslContext;
    type Output = CrossReflect<Hlsl>;

    /// Parses both stages with SPIRV-Cross for HLSL; it succeeds only where SPIRV-Cross
    /// accepts both.
    fn from_compilation(compile: SpirvCompilation) -> (r: Result<CompilerBackend<CrossReflect<Hlsl>>, ShaderReflectError>)
        ensures
            r is Ok ==> hlsl_compiler_accepts(compile.vertex@) && hlsl_compiler_accepts(compile.fragment@),
            r matches Err(e) ==> e is SpirvCrossError,
    {
        Ok(CompilerBackend { backend: CrossReflect::<Hlsl>::from_spirv(&compile)? })
    }
}

impl FromCompilation<SpirvCompilation> for MSL {
    type Target = MSL;
    type Options = Option<MetalVersion>;
    type Context = CrossMslContext;
    type Output = CrossReflect<Msl>;

    /// Parses both stages with SPIRV-Cross for MSL; it succeeds only where SPIRV-Cross
    /// accepts both.
    fn from_compilation(compile: SpirvCompilation) -> (r: Result<CompilerBackend<CrossReflect<Msl>>, ShaderReflectError>)
        ensures
            r is Ok ==> msl_compiler_accepts(compile.vertex@) && msl_compiler_accepts(compile.fragment@),
            r matches Err(e) ==> e is SpirvCrossError,
    {
        Ok(CompilerBackend { backend: CrossReflect::<Msl>::from_spirv(&compile)? })
    }
}

} // verus!
