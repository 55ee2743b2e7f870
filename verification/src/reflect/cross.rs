//! Reflection through SPIRV-Cross: the resources, decorations and buffer layouts that
//! SPIRV-Cross reads from each stage, checked and turned into a `ShaderReflection`.

use crate::back::ReflectShader;
use crate::error::{SemanticsErrorKind, ShaderReflectError};
use crate::front::{GlslangCompilation, SpirvCompilation};
use crate::reflect::checks::{
    binding_taken, check_push_size, check_texture_binding, check_ubo_data, claim_binding, merge_push_sizes,
    merge_ubos, ubo_binding_mask, ScalarClass, SemanticErrorBlame, UboData, UniformTypeDesc,
};
use crate::reflect::meta::ReflectMeta;
use crate::reflect::semantics::{
    MemberOffset, PushReflection, ReflectSemantics, SemanticMap, ShaderReflection, TextureBinding,
    TextureSemanticMap, TextureSemantics, UboReflection, UniformSemantic,
    MAX_BINDINGS_COUNT, MAX_PUSH_BUFFER_SIZE,
};
use crate::reflect::stage::{reflect_member, reflect_texture_meta, spec_reflect_member, validate, ResourceInfo, StageResources};
use rustc_hash::FxHashMap;
use spirv_cross2::compile::CompiledArtifact;
use spirv_cross2::handle::{Handle, TypeId, VariableId};
use spirv_cross2::reflect::{ResourceType, TypeInner};
use spirv_cross2::spirv::Decoration;
use spirv_cross2::targets::{Glsl, Hlsl, Msl};
use spirv_cross2::{Compiler, Module, SpirvCrossError};
use vstd::prelude::*;

verus! {

#[verifier::external_type_specification]
#[verifier::external_body]
#[verifier::reject_recursive_types(T)]
pub struct ExCompiler<T>(Compiler<T>);

#[verifier::external_type_specification]
#[verifier::external_body]
#[verifier::reject_recursive_types(T)]
pub struct ExHandle<T>(Handle<T>);

#[verifier::external_type_specification]
#[verifier::external_body]
pub struct ExVariableId(VariableId);

#[verifier::external_type_specification]
#[verifier::external_body]
pub struct ExTypeId(TypeId);

#[verifier::external_type_specification]
#[verifier::external_body]
pub struct ExGlsl(Glsl);

#[verifier::external_type_specification]
#[verifier::external_body]
pub struct ExHlsl(Hlsl);

#[verifier::external_type_specification]
#[verifier::external_body]
pub struct ExMsl(Msl);

#[verifier::external_type_specification]
#[verifier::external_body]
pub struct ExResourceType(ResourceType);

#[verifier::external_type_specification]
#[verifier::external_body]
#[verifier::reject_recursive_types(T)]
pub struct ExCompiledArtifact<T>(CompiledArtifact<T>);

#[verifier::external_type_specification]
#[verifier::external_body]
pub struct ExCrossScalarKind(spirv_cross2::reflect::ScalarKind);

/// Reflection of a shader's two stages, each held by a SPIRV-Cross compiler.
#[verifier::reject_recursive_types(T)]
pub struct CrossReflect<T> {
    pub vertex: Compiler<T>,
    pub fragment: Compiler<T>,
}

/// The kinds of resources that reflection reads.
#[derive(Debug, Clone, Copy, PartialEq, Eq, Structural)]
pub enum ResourceKind {
    UniformBuffer,
    PushConstant,
    SampledImage,
    StorageBuffer,
    SubpassInput,
    StorageImage,
    AtomicCounter,
    StageInput,
    StageOutput,
}

/// The decorations that reflection reads.
#[derive(Debug, Clone, Copy, PartialEq, Eq, Structural)]
pub enum CrossDecoration {
    Location,
    Binding,
    DescriptorSet,
}

/// A resource of a stage: its handles in the compiler, and what reflection reads of it.
#[derive(Debug)]
pub struct CrossResource {
    pub id: Handle<VariableId>,
    pub base_type_id: Handle<TypeId>,
    pub info: ResourceInfo,
}

/// The member of a buffer's type at an index.
pub enum MemberType {
    /// The buffer's type is not a struct.
    NotStruct,
    /// The struct has no member at the index.
    Missing,
    /// The type of the member.
    Member(Handle<TypeId>),
}

/// The resources of a stage, by kind, as SPIRV-Cross lists them.
#[derive(Debug)]
pub struct CrossStageResources {
    pub uniform_buffers: Vec<CrossResource>,
    pub push_constant_buffers: Vec<CrossResource>,
    pub sampled_images: Vec<CrossResource>,
    pub storage_buffers: Vec<CrossResource>,
    pub subpass_inputs: Vec<CrossResource>,
    pub storage_images: Vec<CrossResource>,
    pub atomic_counters: Vec<CrossResource>,
    pub stage_inputs: Vec<CrossResource>,
    pub stage_outputs: Vec<CrossResource>,
}

/// A sampled texture that passed its checks.
#[derive(Debug)]
pub struct TextureData {
    pub id: u32,
    pub name: String,
    pub descriptor_set: u32,
    pub binding: u32,
}

/// Whether SPIRV-Cross parses the SPIR-V words and creates a compiler for GLSL from them.
pub uninterp spec fn glsl_compiler_accepts(words: Seq<u32>) -> bool;

/// Parses the SPIR-V words into a SPIRV-Cross compiler for GLSL (`Compiler::new`). A
/// compiler comes back only for words that SPIRV-Cross accepts. That it comes back for
/// every such word sequence is not stated: creating the context can also fail for want
/// of memory.
#[verifier::external_body]
fn new_glsl_compiler(words: &Vec<u32>) -> (r: Result<Compiler<Glsl>, SpirvCrossError>)
    ensures
        r is Ok ==> glsl_compiler_accepts(words@),
{
    Compiler::<Glsl>::new(Module::from_words(words))
}

/// Whether SPIRV-Cross parses the SPIR-V words and creates a compiler for HLSL from them.
pub uninterp spec fn hlsl_compiler_accepts(words: Seq<u32>) -> bool;

/// Parses the SPIR-V words into a SPIRV-Cross compiler for HLSL (`Compiler::new`). A
/// compiler comes back only for words that SPIRV-Cross accepts. That it comes back for
/// every such word sequence is not stated: creating the context can also fail for want
/// of memory.
#[verifier::external_body]
fn new_hlsl_compiler(words: &Vec<u32>) -> (r: Result<Compiler<Hlsl>, SpirvCrossError>)
    ensures
        r is Ok ==> hlsl_compiler_accepts(words@),
{
    Compiler::<Hlsl>::new(Module::from_words(words))
}

/// Whether SPIRV-Cross parses the SPIR-V words and creates a compiler for MSL from them.
pub uninterp spec fn msl_compiler_accepts(words: Seq<u32>) -> bool;

/// Parses the SPIR-V words into a SPIRV-Cross compiler for MSL (`Compiler::new`). A
/// compiler comes back only for words that SPIRV-Cross accepts. That it comes back for
/// every such word sequence is not stated: creating the context can also fail for want
/// of memory.
#[verifier::external_body]
fn new_msl_compiler(words: &Vec<u32>) -> (r: Result<Compiler<Msl>, SpirvCrossError>)
    ensures
        r is Ok ==> msl_compiler_accepts(words@),
{
    Compiler::<Msl>::new(Module::from_words(words))
}

/// The SPIRV-Cross `ResourceType` of each kind. Which variant each kind gets is not
/// stated: the variants of the outside enum are not visible here.
#[verifier::external_body]
fn resource_type(kind: ResourceKind) -> (r: ResourceType) {
    match kind {
        ResourceKind::UniformBuffer => ResourceType::UniformBuffer,
        ResourceKind::PushConstant => ResourceType::PushConstant,
        ResourceKind::SampledImage => ResourceType::SampledImage,
        ResourceKind::StorageBuffer => ResourceType::StorageBuffer,
        ResourceKind::SubpassInput => ResourceType::SubpassInput,
        ResourceKind::StorageImage => ResourceType::StorageImage,
        ResourceKind::AtomicCounter => ResourceType::AtomicCounter,
        ResourceKind::StageInput => ResourceType::StageInput,
        ResourceKind::StageOutput => ResourceType::StageOutput,
    }
}

/// The resources of type `ty` that `shader_resources().resources_for_type` lists, in its
/// order, each with its handles, their ids and its name. The list is not stated: it comes
/// from the compiler's state, which is not visible here.
#[verifier::external_body]
fn resource_list<T>(c: &Compiler<T>, ty: ResourceType) -> (r: Result<Vec<CrossResource>, SpirvCrossError>) {
    let resources = c.shader_resources()?;
    Ok(resources.resources_for_type(ty)?.map(|r| CrossResource {
        id: r.id,
        base_type_id: r.base_type_id,
        info: ResourceInfo { id: r.id.id(), base_type_id: r.base_type_id.id(), name: r.name.to_string() },
    }).collect())
}

/// The literal of the decoration of `id` (`Compiler::decoration`), `None` when it has none.
/// The value is not stated: it comes from the compiler's state, which is not visible here.
#[verifier::external_body]
fn decoration_literal<T>(c: &Compiler<T>, id: Handle<VariableId>, d: CrossDecoration) -> (r: Result<Option<u32>, SpirvCrossError>) {
    let d = match d {
        CrossDecoration::Location => Decoration::Location,
        CrossDecoration::Binding => Decoration::Binding,
        CrossDecoration::DescriptorSet => Decoration::DescriptorSet,
    };
    Ok(c.decoration(id, d)?.and_then(|v| v.as_literal()))
}

/// Sets the binding of `id` (`Compiler::set_decoration`). Its effect on the compiler is
/// not stated: the compiler's state is not visible here.
#[verifier::external_body]
fn set_binding<T>(c: &mut Compiler<T>, id: Handle<VariableId>, binding: u32) -> (r: Result<(), SpirvCrossError>) {
    c.set_decoration(id, Decoration::Binding, Some(binding))
}

/// The declared size of the type (`Compiler::type_description`, its size hint). The size
/// is not stated: it comes from the compiler's state, which is not visible here.
#[verifier::external_body]
fn declared_size<T>(c: &Compiler<T>, ty: Handle<TypeId>) -> (r: Result<usize, SpirvCrossError>) {
    Ok(c.type_description(ty)?.size_hint.declared())
}

/// The members of the buffer `id` that the shader may use, as (index, offset) pairs
/// (`Compiler::active_buffer_ranges`). The ranges are not stated: they come from the
/// compiler's state, which is not visible here.
#[verifier::external_body]
fn buffer_ranges<T>(c: &Compiler<T>, id: Handle<VariableId>) -> (r: Result<Vec<(u32, usize)>, SpirvCrossError>) {
    Ok(c.active_buffer_ranges(id)?.iter().map(|r| (r.index, r.offset)).collect())
}

/// The name of the member `index` of the struct type (`Compiler::member_name`). The name
/// is not stated: it comes from the compiler's state, which is not visible here.
#[verifier::external_body]
fn member_name<T>(c: &Compiler<T>, struct_type: Handle<TypeId>, index: u32) -> (r: Result<Option<String>, SpirvCrossError>) {
    Ok(c.member_name(struct_type, index)?.map(|n| n.to_string()))
}

/// The scalar kinds that SPIRV-Cross gives a type.
#[derive(Debug, Clone, Copy, PartialEq, Eq, Structural)]
pub enum CrossScalar {
    Int,
    Uint,
    Float,
    Bool,
}

/// A type as SPIRV-Cross describes it (its `TypeInner`), with the fields that reflection
/// reads: the member types of a struct, and the scalar kind and dimensions of a scalar,
/// vector or matrix.
pub enum TypeShape {
    Unknown,
    Void,
    Pointer,
    Struct(Vec<Handle<TypeId>>),
    Scalar(CrossScalar),
    Vector { width: u32, scalar: CrossScalar },
    Matrix { columns: u32, rows: u32, scalar: CrossScalar },
    Array,
    Image,
    AccelerationStructure,
    Sampler,
}

/// The scalar kind of SPIRV-Cross's `ScalarKind`, variant for variant. Which variant comes
/// back is not stated: the outside enum's variants are not visible here.
#[verifier::external_body]
fn scalar_kind(k: spirv_cross2::reflect::ScalarKind) -> (r: CrossScalar) {
    match k {
        spirv_cross2::reflect::ScalarKind::Int => CrossScalar::Int,
        spirv_cross2::reflect::ScalarKind::Uint => CrossScalar::Uint,
        spirv_cross2::reflect::ScalarKind::Float => CrossScalar::Float,
        spirv_cross2::reflect::ScalarKind::Bool => CrossScalar::Bool,
    }
}

/// The shape of the type (`Compiler::type_description`), variant for variant. The shape is
/// not stated: it comes from the compiler's state, which is not visible here.
#[verifier::external_body]
fn type_shape<T>(c: &Compiler<T>, ty: Handle<TypeId>) -> (r: Result<TypeShape, SpirvCrossError>) {
    Ok(match c.type_description(ty)?.inner {
        TypeInner::Unknown => TypeShape::Unknown,
        TypeInner::Void => TypeShape::Void,
        TypeInner::Pointer { .. } => TypeShape::Pointer,
        TypeInner::Struct(s) => TypeShape::Struct(s.members.iter().map(|m| m.id).collect()),
        TypeInner::Scalar(s) => TypeShape::Scalar(scalar_kind(s.kind)),
        TypeInner::Vector { width, scalar } => TypeShape::Vector { width, scalar: scalar_kind(scalar.kind) },
        TypeInner::Matrix { columns, rows, scalar } => TypeShape::Matrix { columns, rows, scalar: scalar_kind(scalar.kind) },
        TypeInner::Array { .. } => TypeShape::Array,
        TypeInner::Image(_) => TypeShape::Image,
        TypeInner::AccelerationStructure => TypeShape::AccelerationStructure,
        TypeInner::Sampler => TypeShape::Sampler,
    })
}

/// The class of a scalar kind: booleans are of no class that a uniform may have.
pub open spec fn spec_scalar_class(k: CrossScalar) -> ScalarClass {
    match k {
        CrossScalar::Int => ScalarClass::Int,
        CrossScalar::Uint => ScalarClass::UInt,
        CrossScalar::Float => ScalarClass::Float,
        CrossScalar::Bool => ScalarClass::Other,
    }
}

/// The class of a scalar kind: booleans are of no class that a uniform may have.
pub fn scalar_class(k: CrossScalar) -> (r: ScalarClass)
    ensures
        r == spec_scalar_class(k),
{
    match k {
        CrossScalar::Int => ScalarClass::Int,
        CrossScalar::Uint => ScalarClass::UInt,
        CrossScalar::Float => ScalarClass::Float,
        CrossScalar::Bool => ScalarClass::Other,
    }
}

/// What a uniform's type is to reflection: a scalar is one row and one column, a vector
/// `width` rows, a matrix its rows and columns, each of its scalar's class; an array is an
/// array; anything else has no class.
pub open spec fn spec_type_desc(shape: TypeShape) -> UniformTypeDesc {
    match shape {
        TypeShape::Scalar(k) => UniformTypeDesc { kind: spec_scalar_class(k), vecsize: 1, columns: 1, is_array: false },
        TypeShape::Vector { width, scalar } => UniformTypeDesc { kind: spec_scalar_class(scalar), vecsize: width, columns: 1, is_array: false },
        TypeShape::Matrix { columns, rows, scalar } => UniformTypeDesc { kind: spec_scalar_class(scalar), vecsize: rows, columns, is_array: false },
        TypeShape::Array => UniformTypeDesc { kind: ScalarClass::Other, vecsize: 1, columns: 1, is_array: true },
        _ => UniformTypeDesc { kind: ScalarClass::Other, vecsize: 1, columns: 1, is_array: false },
    }
}

/// What a uniform's type is to reflection.
pub fn type_desc(shape: &TypeShape) -> (r: UniformTypeDesc)
    ensures
        r == spec_type_desc(*shape),
{
    match shape {
        TypeShape::Scalar(k) => UniformTypeDesc { kind: scalar_class(*k), vecsize: 1, columns: 1, is_array: false },
        TypeShape::Vector { width, scalar } => UniformTypeDesc { kind: scalar_class(*scalar), vecsize: *width, columns: 1, is_array: false },
        TypeShape::Matrix { columns, rows, scalar } => UniformTypeDesc { kind: scalar_class(*scalar), vecsize: *rows, columns: *columns, is_array: false },
        TypeShape::Array => UniformTypeDesc { kind: ScalarClass::Other, vecsize: 1, columns: 1, is_array: true },
        _ => UniformTypeDesc { kind: ScalarClass::Other, vecsize: 1, columns: 1, is_array: false },
    }
}

/// The type of member `index` of a struct: `NotStruct` for a type that is no struct,
/// `Missing` past its members.
pub fn member_of(shape: &TypeShape, index: u32) -> (r: MemberType)
    ensures
        match *shape {
            TypeShape::Struct(members) => if (index as int) < members@.len() {
                r == MemberType::Member(members@[index as int])
            } else {
                r is Missing
            },
            _ => r is NotStruct,
        },
{
    match shape {
        TypeShape::Struct(members) => {
            if (index as usize) < members.len() {
                MemberType::Member(members[index as usize])
            } else {
                MemberType::Missing
            }
        },
        _ => MemberType::NotStruct,
    }
}

/// A SPIRV-Cross result with its error as a reflection error.
fn cross_result<V>(r: Result<V, SpirvCrossError>) -> (out: Result<V, ShaderReflectError>)
    ensures
        match r {
            Ok(v) => out == Ok::<V, ShaderReflectError>(v),
            Err(e) => out == Err::<V, ShaderReflectError>(ShaderReflectError::SpirvCrossError(e)),
        },
{
    match r {
        Ok(v) => Ok(v),
        Err(e) => Err(ShaderReflectError::SpirvCrossError(e)),
    }
}

/// The resources of kind `kind` of the stage.
fn resources_of<T>(c: &Compiler<T>, kind: ResourceKind) -> (r: Result<Vec<CrossResource>, ShaderReflectError>)
    ensures
        r matches Err(e) ==> e is SpirvCrossError,
{
    cross_result(resource_list(c, resource_type(kind)))
}

/// What reflection reads of each resource, in order.
fn infos(list: &Vec<CrossResource>) -> (r: Vec<ResourceInfo>)
    ensures
        r@.len() == list@.len(),
        forall|i: int| 0 <= i < list@.len() ==> #[trigger] r@[i].id == list@[i].info.id
            && r@[i].base_type_id == list@[i].info.base_type_id && r@[i].name@ == list@[i].info.name@,
{
    let mut r: Vec<ResourceInfo> = Vec::new();
    let mut i: usize = 0;
    while i < list.len()
        invariant
            i <= list@.len(),
            r@.len() == i,
            forall|j: int| 0 <= j < i ==> #[trigger] r@[j].id == list@[j].info.id
                && r@[j].base_type_id == list@[j].info.base_type_id && r@[j].name@ == list@[j].info.name@,
        decreases list@.len() - i,
    {
        let info = &list[i].info;
        r.push(ResourceInfo { id: info.id, base_type_id: info.base_type_id, name: info.name.clone() });
        i = i + 1;
    }
    r
}

impl CrossStageResources {
    /// What reflection reads of the resources, kind by kind.
    pub fn plain(&self) -> (r: StageResources)
        ensures
            r.uniform_buffers@.len() == self.uniform_buffers@.len(),
            r.push_constant_buffers@.len() == self.push_constant_buffers@.len(),
            r.sampled_images@.len() == self.sampled_images@.len(),
            r.storage_buffers@.len() == self.storage_buffers@.len(),
            r.subpass_inputs@.len() == self.subpass_inputs@.len(),
            r.storage_images@.len() == self.storage_images@.len(),
            r.atomic_counters@.len() == self.atomic_counters@.len(),
            r.stage_inputs@.len() == self.stage_inputs@.len(),
            r.stage_outputs@.len() == self.stage_outputs@.len(),
    {
        StageResources {
            uniform_buffers: infos(&self.uniform_buffers),
            push_constant_buffers: infos(&self.push_constant_buffers),
            sampled_images: infos(&self.sampled_images),
            storage_buffers: infos(&self.storage_buffers),
            subpass_inputs: infos(&self.subpass_inputs),
            storage_images: infos(&self.storage_images),
            atomic_counters: infos(&self.atomic_counters),
            stage_inputs: infos(&self.stage_inputs),
            stage_outputs: infos(&self.stage_outputs),
        }
    }
}

/// The resources of the stage, by kind.
pub fn get_shader_resources<T>(c: &Compiler<T>) -> (r: Result<CrossStageResources, ShaderReflectError>)
    ensures
        r matches Err(e) ==> e is SpirvCrossError,
{
    Ok(CrossStageResources {
        uniform_buffers: resources_of(c, ResourceKind::UniformBuffer)?,
        push_constant_buffers: resources_of(c, ResourceKind::PushConstant)?,
        sampled_images: resources_of(c, ResourceKind::SampledImage)?,
        storage_buffers: resources_of(c, ResourceKind::StorageBuffer)?,
        subpass_inputs: resources_of(c, ResourceKind::SubpassInput)?,
        storage_images: resources_of(c, ResourceKind::StorageImage)?,
        atomic_counters: resources_of(c, ResourceKind::AtomicCounter)?,
        stage_inputs: resources_of(c, ResourceKind::StageInput)?,
        stage_outputs: resources_of(c, ResourceKind::StageOutput)?,
    })
}

/// The value of the decoration of `id`, 0 when it has none.
fn decoration_or_zero<T>(c: &Compiler<T>, id: Handle<VariableId>, d: CrossDecoration) -> (r: Result<u32, ShaderReflectError>)
    ensures
        r matches Err(e) ==> e is SpirvCrossError,
{
    match cross_result(decoration_literal(c, id, d))? {
        Some(v) => Ok(v),
        None => Ok(0),
    }
}

/// The declared size of the type, saturated to 32 bits.
fn declared_size_u32<T>(c: &Compiler<T>, ty: Handle<TypeId>) -> (r: Result<u32, ShaderReflectError>)
    ensures
        r matches Err(e) ==> e is SpirvCrossError,
{
    let size = cross_result(declared_size(c, ty))?;
    if size > 0xffff_ffffusize {
        Ok(u32::MAX)
    } else {
        Ok(size as u32)
    }
}

/// Whose buffer a member offset is into.
#[derive(Debug, Clone, Copy, PartialEq, Eq, Structural)]
pub enum BufferKind {
    Ubo,
    PushConstant,
}

/// The offset `offset` into a buffer of the given kind.
pub fn offset_in(kind: BufferKind, offset: usize) -> (r: MemberOffset)
    ensures
        r == (match kind {
            BufferKind::Ubo => MemberOffset::Ubo(offset),
            BufferKind::PushConstant => MemberOffset::PushConstant(offset),
        }),
{
    match kind {
        BufferKind::Ubo => MemberOffset::Ubo(offset),
        BufferKind::PushConstant => MemberOffset::PushConstant(offset),
    }
}

/// A member of a buffer as reflection reads it: its name, its type and its offset.
pub type BufferMember = (String, UniformTypeDesc, MemberOffset);

/// Whether the offset is into a buffer of the given kind.
pub open spec fn offset_of_kind(offset: MemberOffset, kind: BufferKind) -> bool {
    match kind {
        BufferKind::Ubo => offset is Ubo,
        BufferKind::PushConstant => offset is PushConstant,
    }
}

/// Whether two metadata hold the same uniform entries: parameters, variables and
/// texture sizes.
pub open spec fn same_entries(a: ReflectMeta, b: ReflectMeta) -> bool {
    a.parameters() == b.parameters() && a.variables() == b.variables() && a.texture_sizes() == b.texture_sizes()
}

/// The errors that reading a buffer's members can meet besides a member's own: those of
/// SPIRV-Cross, a buffer whose type is not a struct, and a range past its members.
pub open spec fn buffer_error(e: ShaderReflectError, blame: SemanticErrorBlame) -> bool {
    ||| e is SpirvCrossError
    ||| e == blame.spec_error(SemanticsErrorKind::InvalidResourceType)
    ||| (match blame {
        SemanticErrorBlame::Vertex => e matches ShaderReflectError::VertexSemanticError(SemanticsErrorKind::InvalidRange(_)),
        SemanticErrorBlame::Fragment => e matches ShaderReflectError::FragmentSemanticError(SemanticsErrorKind::InvalidRange(_)),
    })
}

/// Whether going from `old_meta` to `new_meta` with the result `r` is reflecting the
/// `members` in turn, through the metadata `metas`, each without error: then either all
/// went well, or an error of the buffer came, or reflecting the member `failed` failed
/// with `r`. Every member's offset is into a buffer of kind `kind`.
pub open spec fn reflected_through(
    old_meta: ReflectMeta,
    new_meta: ReflectMeta,
    r: Result<(), ShaderReflectError>,
    metas: Seq<ReflectMeta>,
    members: Seq<BufferMember>,
    failed: BufferMember,
    kind: BufferKind,
    pass_number: usize,
    uniforms: FxHashMap<String, UniformSemantic>,
    blame: SemanticErrorBlame,
) -> bool {
    &&& metas.len() == members.len() + 1
    &&& same_entries(metas[0], old_meta)
    &&& same_entries(new_meta, metas.last())
    &&& forall|i: int| 0 <= i < members.len() ==> offset_of_kind(#[trigger] members[i].2, kind)
        && spec_reflect_member(metas[i], members[i].0, members[i].1, members[i].2, pass_number, uniforms, blame)
            == (Ok::<(), ShaderReflectError>(()), metas[i + 1].parameters(), metas[i + 1].variables(), metas[i + 1].texture_sizes())
    &&& (r matches Err(e) ==> buffer_error(e, blame) || (offset_of_kind(failed.2, kind)
        && spec_reflect_member(metas.last(), failed.0, failed.1, failed.2, pass_number, uniforms, blame).0 == r))
}

/// Whether going from `old_meta` to `new_meta` with the result `r` is reflecting some
/// members of a buffer of kind `kind` in turn, stopping at the first error.
pub open spec fn buffer_members_reflected(
    old_meta: ReflectMeta,
    new_meta: ReflectMeta,
    r: Result<(), ShaderReflectError>,
    kind: BufferKind,
    pass_number: usize,
    uniforms: FxHashMap<String, UniformSemantic>,
    blame: SemanticErrorBlame,
) -> bool {
    exists|metas: Seq<ReflectMeta>, members: Seq<BufferMember>, failed: BufferMember|
        #[trigger] reflected_through(old_meta, new_meta, r, metas, members, failed, kind, pass_number, uniforms, blame)
}

/// The bindings taken before any texture: the uniform buffer's, when there is one.
pub open spec fn initial_taken(ubo: Option<UboReflection>) -> Set<u32> {
    match ubo {
        Some(u) => Set::empty().insert(u.binding),
        None => Set::empty(),
    }
}

/// Whether binding the sampled textures `datas[j..]` in turn, with the bindings `taken`
/// already in use and the texture metadata `textures`, ends with the result `r` and the
/// metadata `fin`. Each entry is what reading the texture's decorations gave: an error
/// there is the result; a binding already in use gives `BindingInUse`; a name that names
/// no texture semantic, or the output of this or a later pass, gives that error; else the
/// semantic maps to the binding, which is then in use.
pub open spec fn textures_bound_from(
    datas: Seq<Result<TextureData, ShaderReflectError>>,
    j: int,
    taken: Set<u32>,
    textures: Map<SemanticMap<TextureSemantics>, TextureBinding>,
    pass_number: usize,
    tsem: FxHashMap<String, SemanticMap<TextureSemantics>>,
    r: Result<(), ShaderReflectError>,
    fin: Map<SemanticMap<TextureSemantics>, TextureBinding>,
) -> bool
    decreases datas.len() - j,
{
    if j < 0 || j >= datas.len() {
        r is Ok && fin == textures
    } else {
        match datas[j] {
            Err(e) => r == Err::<(), ShaderReflectError>(e) && fin == textures,
            Ok(t) => if taken.contains(t.binding) {
                r == Err::<(), ShaderReflectError>(ShaderReflectError::BindingInUse(t.binding)) && fin == textures
            } else {
                match tsem.spec_texture_semantic(t.name@) {
                    None => (r matches Err(ShaderReflectError::FragmentSemanticError(SemanticsErrorKind::UnknownSemantics(n)))
                        && n@ == t.name@) && fin == textures,
                    Some(sm) => if sm.semantics == TextureSemantics::PassOutput && sm.index >= pass_number {
                        r == Err::<(), ShaderReflectError>(ShaderReflectError::NonCausalFilterChain { pass: pass_number, target: sm.index })
                            && fin == textures
                    } else {
                        textures_bound_from(datas, j + 1, taken.insert(t.binding),
                            textures.insert(sm, TextureBinding { binding: t.binding }), pass_number, tsem, r, fin)
                    },
                }
            },
        }
    }
}

/// Binds the sampled textures in turn: `datas` holds what reading each texture's
/// decorations gave, in the order of the fragment stage's sampled images. The first
/// error stops it: a read that failed, a binding that the uniform buffer or an earlier
/// texture uses (`BindingInUse`), or a name that names no usable texture semantic;
/// otherwise each texture's semantic maps to its binding.
pub fn bind_textures(
    ubo: &Option<UboReflection>,
    datas: Vec<Result<TextureData, ShaderReflectError>>,
    pass_number: usize,
    semantics: &ReflectSemantics,
    meta: &mut ReflectMeta,
) -> (r: Result<(), ShaderReflectError>)
    requires
        ubo matches Some(u) ==> u.binding < MAX_BINDINGS_COUNT,
        forall|j: int| 0 <= j < datas@.len() ==> (#[trigger] datas@[j] matches Ok(t) ==> t.binding < MAX_BINDINGS_COUNT),
    ensures
        textures_bound_from(datas@, 0, initial_taken(*ubo), old(meta).textures(), pass_number, semantics.texture_semantics,
            r, final(meta).textures()),
        final(meta).parameters() == old(meta).parameters(),
        final(meta).variables() == old(meta).variables(),
        final(meta).texture_sizes() == old(meta).texture_sizes(),
        old(meta).textures().dom() == Set::<SemanticMap<TextureSemantics>>::empty() && r is Ok ==> {
            &&& forall|s: SemanticMap<TextureSemantics>| #[trigger] final(meta).textures().contains_key(s)
                ==> final(meta).textures()[s].binding < MAX_BINDINGS_COUNT
            &&& forall|s1: SemanticMap<TextureSemantics>, s2: SemanticMap<TextureSemantics>|
                #[trigger] final(meta).textures().contains_key(s1) && #[trigger] final(meta).textures().contains_key(s2)
                && s1 != s2 ==> final(meta).textures()[s1].binding != final(meta).textures()[s2].binding
            &&& ubo matches Some(u) ==> forall|s: SemanticMap<TextureSemantics>|
                #[trigger] final(meta).textures().contains_key(s) ==> final(meta).textures()[s].binding != u.binding
        },
{
    let ghost d0 = datas@;
    let ghost t0 = meta.textures();
    let ghost taken0 = initial_taken(*ubo);
    let ghost empty0 = t0.dom() == Set::<SemanticMap<TextureSemantics>>::empty();
    let ghost mut taken = taken0;
    let mut mask = ubo_binding_mask(ubo);
    let mut i: usize = 0;
    while i < datas.len()
        invariant
            i <= datas@.len(),
            datas@ == d0,
            taken0 == initial_taken(*ubo),
            t0 == old(meta).textures(),
            empty0 == (t0.dom() == Set::<SemanticMap<TextureSemantics>>::empty()),
            ubo matches Some(u) ==> u.binding < MAX_BINDINGS_COUNT,
            forall|j: int| 0 <= j < datas@.len() ==> (#[trigger] datas@[j] matches Ok(t) ==> t.binding < MAX_BINDINGS_COUNT),
            forall|b: u32| b < 16 ==> (binding_taken(mask, b) <==> taken.contains(b)),
            forall|b: u32| #[trigger] taken.contains(b) ==> b < 16,
            meta.parameters() == old(meta).parameters(),
            meta.variables() == old(meta).variables(),
            meta.texture_sizes() == old(meta).texture_sizes(),
            forall|r: Result<(), ShaderReflectError>, fin: Map<SemanticMap<TextureSemantics>, TextureBinding>|
                #[trigger] textures_bound_from(datas@, i as int, taken, meta.textures(), pass_number, semantics.texture_semantics, r, fin)
                ==> textures_bound_from(datas@, 0, taken0, t0, pass_number, semantics.texture_semantics, r, fin),
            empty0 ==> {
                &&& forall|s: SemanticMap<TextureSemantics>| #[trigger] meta.textures().contains_key(s)
                    ==> meta.textures()[s].binding < MAX_BINDINGS_COUNT && taken.contains(meta.textures()[s].binding)
                &&& forall|s1: SemanticMap<TextureSemantics>, s2: SemanticMap<TextureSemantics>|
                    #[trigger] meta.textures().contains_key(s1) && #[trigger] meta.textures().contains_key(s2)
                    && s1 != s2 ==> meta.textures()[s1].binding != meta.textures()[s2].binding
                &&& ubo matches Some(u) ==> taken.contains(u.binding) && forall|s: SemanticMap<TextureSemantics>|
                    #[trigger] meta.textures().contains_key(s) ==> meta.textures()[s].binding != u.binding
            },
        decreases datas@.len() - i,
    {
        let ghost tex_i = meta.textures();
        let ghost taken_i = taken;
        let ghost i0 = i as int;
        assert(textures_bound_from(datas@, i0, taken_i, tex_i, pass_number, semantics.texture_semantics, Ok(()), tex_i) ==> true);
        if datas[i].is_err() {
            let mut datas = datas;
            let item = datas.remove(i);
            match item {
                Err(e) => {
                    proof {
                        assert(textures_bound_from(d0, i0, taken_i, tex_i, pass_number, semantics.texture_semantics, Err(e), tex_i));
                    }
                    return Err(e);
                },
                Ok(_) => {
                    proof { assert(false); }
                    return Ok(());
                },
            }
        }
        match &datas[i] {
            Err(_) => {
                proof { assert(false); }
                return Ok(());
            },
            Ok(t) => {
                let b = t.binding;
                assert(datas@[i0] matches Ok(tt) && tt.binding == b);
                let claimed = claim_binding(mask, b);
                match claimed {
                    Err(e) => {
                        proof {
                            assert(taken_i.contains(b));
                            assert(textures_bound_from(datas@, i0, taken_i, tex_i, pass_number, semantics.texture_semantics, Err(e), tex_i));
                        }
                        return Err(e);
                    },
                    Ok(m2) => {
                        let res = reflect_texture_meta(t.name.as_str(), b, pass_number, &semantics.texture_semantics, meta);
                        match res {
                            Err(e) => {
                                proof {
                                    assert(!taken_i.contains(b));
                                    assert(textures_bound_from(datas@, i0, taken_i, tex_i, pass_number, semantics.texture_semantics, Err(e), meta.textures()));
                                }
                                return Err(e);
                            },
                            Ok(()) => {
                                proof {
                                    assert(!taken_i.contains(b));
                                    taken = taken_i.insert(b);
                                    assert forall|bb: u32| bb < 16 implies (binding_taken(m2, bb) <==> taken.contains(bb)) by {}
                                    assert forall|r: Result<(), ShaderReflectError>, fin: Map<SemanticMap<TextureSemantics>, TextureBinding>|
                                        #[trigger] textures_bound_from(datas@, i0 + 1, taken, meta.textures(), pass_number, semantics.texture_semantics, r, fin)
                                        implies textures_bound_from(datas@, 0, taken0, t0, pass_number, semantics.texture_semantics, r, fin) by {
                                        assert(textures_bound_from(datas@, i0, taken_i, tex_i, pass_number, semantics.texture_semantics, r, fin));
                                    }
                                    if empty0 {
                                        assert forall|s: SemanticMap<TextureSemantics>| #[trigger] tex_i.contains_key(s)
                                            implies tex_i[s].binding != b by {
                                            assert(taken_i.contains(tex_i[s].binding));
                                        }
                                    }
                                }
                                mask = m2;
                            },
                        }
                    },
                }
            },
        }
        i = i + 1;
    }
    proof {
        assert(textures_bound_from(datas@, i as int, taken, meta.textures(), pass_number, semantics.texture_semantics, Ok(()), meta.textures()));
    }
    Ok(())
}

impl<T> CrossReflect<T> {
    /// Checks the interfaces of both stages: the resource kinds, the vertex inputs at
    /// locations 0 and 1, the fragment output at location 0, and at most one uniform and
    /// one push constant buffer per stage. A vertex input at location 32 or beyond is
    /// refused as an invalid location (see `validate` of the stage checks).
    pub fn validate(&self, vertex_res: &CrossStageResources, fragment_res: &CrossStageResources) -> (r: Result<(), ShaderReflectError>)
        ensures
            if vertex_res.sampled_images@.len() != 0 || vertex_res.storage_buffers@.len() != 0
                || vertex_res.subpass_inputs@.len() != 0 || vertex_res.storage_images@.len() != 0
                || vertex_res.atomic_counters@.len() != 0 {
                r == Err::<(), ShaderReflectError>(ShaderReflectError::VertexSemanticError(SemanticsErrorKind::InvalidResourceType))
            } else if fragment_res.storage_buffers@.len() != 0 || fragment_res.subpass_inputs@.len() != 0
                || fragment_res.storage_images@.len() != 0 || fragment_res.atomic_counters@.len() != 0 {
                r == Err::<(), ShaderReflectError>(ShaderReflectError::FragmentSemanticError(SemanticsErrorKind::InvalidResourceType))
            } else if vertex_res.stage_inputs@.len() != 2 {
                r == Err::<(), ShaderReflectError>(ShaderReflectError::VertexSemanticError(
                    SemanticsErrorKind::InvalidInputCount(vertex_res.stage_inputs@.len() as usize),
                ))
            } else if fragment_res.stage_outputs@.len() != 1 {
                r == Err::<(), ShaderReflectError>(ShaderReflectError::FragmentSemanticError(
                    SemanticsErrorKind::InvalidOutputCount(fragment_res.stage_outputs@.len() as usize),
                ))
            } else {
                r is Ok ==> vertex_res.uniform_buffers@.len() <= 1 && vertex_res.push_constant_buffers@.len() <= 1
                    && fragment_res.uniform_buffers@.len() <= 1 && fragment_res.push_constant_buffers@.len() <= 1
            },
    {
        let vertex = vertex_res.plain();
        let fragment = fragment_res.plain();
        let interfaces_ok = fragment_res.stage_outputs.len() == 1
            && vertex_res.sampled_images.len() == 0 && vertex_res.storage_buffers.len() == 0
            && vertex_res.subpass_inputs.len() == 0 && vertex_res.storage_images.len() == 0
            && vertex_res.atomic_counters.len() == 0 && fragment_res.storage_buffers.len() == 0
            && fragment_res.subpass_inputs.len() == 0 && fragment_res.storage_images.len() == 0
            && fragment_res.atomic_counters.len() == 0 && vertex_res.stage_inputs.len() == 2;
        let fragment_location = if interfaces_ok {
            decoration_or_zero(&self.fragment, fragment_res.stage_outputs[0].id, CrossDecoration::Location)?
        } else {
            0
        };
        let mut locations: Vec<u32> = Vec::new();
        if interfaces_ok && fragment_location == 0 {
            let mut i: usize = 0;
            while i < vertex_res.stage_inputs.len()
                invariant
                    i <= vertex_res.stage_inputs@.len(),
                    locations@.len() == i,
                    interfaces_ok,
                    interfaces_ok == (fragment_res.stage_outputs@.len() == 1
                        && vertex_res.sampled_images@.len() == 0 && vertex_res.storage_buffers@.len() == 0
                        && vertex_res.subpass_inputs@.len() == 0 && vertex_res.storage_images@.len() == 0
                        && vertex_res.atomic_counters@.len() == 0 && fragment_res.storage_buffers@.len() == 0
                        && fragment_res.subpass_inputs@.len() == 0 && fragment_res.storage_images@.len() == 0
                        && fragment_res.atomic_counters@.len() == 0 && vertex_res.stage_inputs@.len() == 2),
                decreases vertex_res.stage_inputs@.len() - i,
            {
                let loc = decoration_or_zero(&self.vertex, vertex_res.stage_inputs[i].id, CrossDecoration::Location)?;
                locations.push(loc);
                i = i + 1;
            }
        } else {
            let mut i: usize = 0;
            while i < vertex_res.stage_inputs.len()
                invariant
                    i <= vertex_res.stage_inputs@.len(),
                    locations@.len() == i,
                decreases vertex_res.stage_inputs@.len() - i,
            {
                locations.push(0);
                i = i + 1;
            }
        }
        validate(&vertex, &fragment, fragment_location, &locations)
    }

    /// Reads and checks a uniform buffer's decorations and size.
    pub fn get_ubo_data(compiler: &Compiler<T>, ubo: &CrossResource, blame: SemanticErrorBlame) -> (r: Result<UboData, ShaderReflectError>)
        ensures
            r matches Ok(d) ==> d.binding < MAX_BINDINGS_COUNT && d.descriptor_set == 0 && d.id == ubo.info.id,
    {
        let descriptor_set = decoration_or_zero(compiler, ubo.id, CrossDecoration::DescriptorSet)?;
        let binding = decoration_or_zero(compiler, ubo.id, CrossDecoration::Binding)?;
        if binding >= MAX_BINDINGS_COUNT {
            return Err(blame.error(SemanticsErrorKind::InvalidBinding(binding)));
        }
        if descriptor_set != 0 {
            return Err(blame.error(SemanticsErrorKind::InvalidDescriptorSet(descriptor_set)));
        }
        let size = declared_size_u32(compiler, ubo.base_type_id)?;
        check_ubo_data(ubo.info.id, descriptor_set, binding, size, blame)
    }

    /// Reads and checks a push constant buffer's size.
    pub fn get_push_size(compiler: &Compiler<T>, push: &CrossResource, blame: SemanticErrorBlame) -> (r: Result<u32, ShaderReflectError>)
        ensures
            r matches Ok(s) ==> s < MAX_PUSH_BUFFER_SIZE,
    {
        let size = declared_size_u32(compiler, push.base_type_id)?;
        check_push_size(size, blame)
    }

    /// Binds each stage's uniform buffer at binding 0, then checks both and combines them.
    pub fn reflect_ubos(&mut self, vertex_ubo: Option<&CrossResource>, fragment_ubo: Option<&CrossResource>) -> (r: Result<Option<UboReflection>, ShaderReflectError>)
        ensures
            vertex_ubo is None && fragment_ubo is None ==> r matches Ok(None),
            r matches Ok(u) ==> (u is Some <==> (vertex_ubo is Some || fragment_ubo is Some)),
            r matches Ok(Some(u)) ==> u.binding < MAX_BINDINGS_COUNT && u.size % 16 == 0
                && u.stage_mask.bits == (if vertex_ubo is Some && fragment_ubo is Some { 3u8 } else if vertex_ubo is Some { 1u8 } else { 2u8 }),
    {
        if let Some(v) = vertex_ubo {
            cross_result(set_binding(&mut self.vertex, v.id, 0))?;
        }
        if let Some(f) = fragment_ubo {
            cross_result(set_binding(&mut self.fragment, f.id, 0))?;
        }
        let vertex = match vertex_ubo {
            Some(v) => Some(Self::get_ubo_data(&self.vertex, v, SemanticErrorBlame::Vertex)?),
            None => None,
        };
        let fragment = match fragment_ubo {
            Some(f) => Some(Self::get_ubo_data(&self.fragment, f, SemanticErrorBlame::Fragment)?),
            None => None,
        };
        merge_ubos(vertex, fragment)
    }

    /// Binds each stage's push constant buffer at binding 1, then checks both and
    /// combines them.
    pub fn reflect_push_constant_buffer(&mut self, vertex_pcb: Option<&CrossResource>, fragment_pcb: Option<&CrossResource>) -> (r: Result<Option<PushReflection>, ShaderReflectError>)
        ensures
            vertex_pcb is None && fragment_pcb is None ==> r matches Ok(None),
            r matches Ok(p) ==> (p is Some <==> (vertex_pcb is Some || fragment_pcb is Some)),
            r matches Ok(Some(p)) ==> p.size <= MAX_PUSH_BUFFER_SIZE && p.size % 16 == 0
                && p.stage_mask.bits == (if vertex_pcb is Some && fragment_pcb is Some { 3u8 } else if vertex_pcb is Some { 1u8 } else { 2u8 }),
    {
        if let Some(v) = vertex_pcb {
            cross_result(set_binding(&mut self.vertex, v.id, 1))?;
        }
        if let Some(f) = fragment_pcb {
            cross_result(set_binding(&mut self.fragment, f.id, 1))?;
        }
        let vertex = match vertex_pcb {
            Some(v) => Some(Self::get_push_size(&self.vertex, v, SemanticErrorBlame::Vertex)?),
            None => None,
        };
        let fragment = match fragment_pcb {
            Some(f) => Some(Self::get_push_size(&self.fragment, f, SemanticErrorBlame::Fragment)?),
            None => None,
        };
        Ok(merge_push_sizes(vertex, fragment))
    }

    /// Reflects each member of the buffer that the shader may use: its name must name a
    /// semantic whose type it has, in agreement with the other stage.
    pub fn reflect_buffer_range_metas(
        compiler: &Compiler<T>,
        resource: &CrossResource,
        pass_number: usize,
        semantics: &ReflectSemantics,
        meta: &mut ReflectMeta,
        offset_type: BufferKind,
        blame: SemanticErrorBlame,
    ) -> (r: Result<(), ShaderReflectError>)
        ensures
            final(meta).textures() == old(meta).textures(),
            buffer_members_reflected(*old(meta), *final(meta), r, offset_type, pass_number, semantics.uniform_semantics, blame),
    {
        let ghost failed: BufferMember = vstd::pervasive::arbitrary();
        let ghost mut metas: Seq<ReflectMeta> = seq![*meta];
        let ghost mut members: Seq<BufferMember> = Seq::empty();
        let ranges = match cross_result(buffer_ranges(compiler, resource.id)) {
            Ok(ranges) => ranges,
            Err(e) => {
                assert(reflected_through(*old(meta), *meta, Err(e), metas, members, failed, offset_type, pass_number, semantics.uniform_semantics, blame));
                return Err(e);
            },
        };
        let mut i: usize = 0;
        while i < ranges.len()
            invariant
                i <= ranges@.len(),
                meta.textures() == old(meta).textures(),
                reflected_through(*old(meta), *meta, Ok(()), metas, members, failed, offset_type, pass_number, semantics.uniform_semantics, blame),
            decreases ranges@.len() - i,
        {
            let (index, offset) = ranges[i];
            let name = match cross_result(member_name(compiler, resource.base_type_id, index)) {
                Ok(Some(n)) => n,
                Ok(None) => String::new(),
                Err(e) => {
                    assert(reflected_through(*old(meta), *meta, Err(e), metas, members, failed, offset_type, pass_number, semantics.uniform_semantics, blame));
                    return Err(e);
                },
            };
            let struct_shape = match cross_result(type_shape(compiler, resource.base_type_id)) {
                Ok(shape) => shape,
                Err(e) => {
                    assert(reflected_through(*old(meta), *meta, Err(e), metas, members, failed, offset_type, pass_number, semantics.uniform_semantics, blame));
                    return Err(e);
                },
            };
            let member = match member_of(&struct_shape, index) {
                MemberType::NotStruct => {
                    let e = blame.error(SemanticsErrorKind::InvalidResourceType);
                    assert(reflected_through(*old(meta), *meta, Err(e), metas, members, failed, offset_type, pass_number, semantics.uniform_semantics, blame));
                    return Err(e);
                },
                MemberType::Missing => {
                    let e = blame.error(SemanticsErrorKind::InvalidRange(index));
                    assert(reflected_through(*old(meta), *meta, Err(e), metas, members, failed, offset_type, pass_number, semantics.uniform_semantics, blame));
                    return Err(e);
                },
                MemberType::Member(ty) => ty,
            };
            let ty = match cross_result(type_shape(compiler, member)) {
                Ok(shape) => type_desc(&shape),
                Err(e) => {
                    assert(reflected_through(*old(meta), *meta, Err(e), metas, members, failed, offset_type, pass_number, semantics.uniform_semantics, blame));
                    return Err(e);
                },
            };
            let member_offset = offset_in(offset_type, offset);
            let ghost before = *meta;
            let ghost m: BufferMember = (name, ty, member_offset);
            let res = reflect_member(name, &ty, member_offset, pass_number, semantics, meta, blame);
            if let Err(e) = res {
                assert(same_entries(*meta, before));
                assert(reflected_through(*old(meta), *meta, Err(e), metas, members, m, offset_type, pass_number, semantics.uniform_semantics, blame));
                return Err(e);
            }
            proof {
                let ghost next_metas = metas.push(*meta);
                let ghost next_members = members.push(m);
                assert forall|j: int| 0 <= j < next_members.len() implies offset_of_kind(#[trigger] next_members[j].2, offset_type)
                    && spec_reflect_member(next_metas[j], next_members[j].0, next_members[j].1, next_members[j].2, pass_number, semantics.uniform_semantics, blame)
                        == (Ok::<(), ShaderReflectError>(()), next_metas[j + 1].parameters(), next_metas[j + 1].variables(), next_metas[j + 1].texture_sizes()) by {
                    if j < members.len() {
                        assert(next_members[j] == members[j]);
                        assert(next_metas[j] == metas[j]);
                        assert(next_metas[j + 1] == metas[j + 1]);
                    }
                }
                metas = next_metas;
                members = next_members;
            }
            i = i + 1;
        }
        assert(reflected_through(*old(meta), *meta, Ok(()), metas, members, failed, offset_type, pass_number, semantics.uniform_semantics, blame));
        Ok(())
    }

    /// Reads and checks a sampled texture's decorations.
    pub fn reflect_texture(&self, texture: &CrossResource) -> (r: Result<TextureData, ShaderReflectError>)
        ensures
            r matches Ok(t) ==> t.binding < MAX_BINDINGS_COUNT && t.descriptor_set == 0 && t.id == texture.info.id
                && t.name@ == texture.info.name@,
    {
        let descriptor_set = decoration_or_zero(&self.fragment, texture.id, CrossDecoration::DescriptorSet)?;
        let binding = decoration_or_zero(&self.fragment, texture.id, CrossDecoration::Binding)?;
        let binding = check_texture_binding(descriptor_set, binding)?;
        Ok(TextureData { id: texture.info.id, name: texture.info.name.clone(), descriptor_set, binding })
    }

    /// Records the binding of a checked sampled texture under its semantic.
    pub fn reflect_texture_metas(&self, texture: TextureData, pass_number: usize, semantics: &ReflectSemantics, meta: &mut ReflectMeta) -> (r: Result<(), ShaderReflectError>)
        ensures
            match semantics.texture_semantics.spec_texture_semantic(texture.name@) {
                None => r is Err && final(meta).textures() == old(meta).textures(),
                Some(s) => if s.semantics == TextureSemantics::PassOutput && s.index >= pass_number {
                    r is Err && final(meta).textures() == old(meta).textures()
                } else {
                    r is Ok && final(meta).textures() == old(meta).textures().insert(s, TextureBinding { binding: texture.binding })
                },
            },
            final(meta).parameters() == old(meta).parameters(),
            final(meta).variables() == old(meta).variables(),
            final(meta).texture_sizes() == old(meta).texture_sizes(),
    {
        reflect_texture_meta(texture.name.as_str(), texture.binding, pass_number, &semantics.texture_semantics, meta)
    }
}

impl<T> ReflectShader for CrossReflect<T> {
    /// Reflects the pass: checks the interfaces, binds and combines the buffers, reflects
    /// their members, and binds each sampled texture where no buffer or other texture is.
    /// Every texture binding it gives is one of the sixteen slots, no two semantics share
    /// one, and none is the uniform buffer's.
    fn reflect(&mut self, pass_number: usize, semantics: &ReflectSemantics) -> (r: Result<ShaderReflection, ShaderReflectError>)
        ensures
            r matches Ok(refl) ==> {
                &&& forall|s: SemanticMap<TextureSemantics>| #[trigger] refl.meta.textures().contains_key(s)
                    ==> refl.meta.textures()[s].binding < MAX_BINDINGS_COUNT
                &&& forall|s1: SemanticMap<TextureSemantics>, s2: SemanticMap<TextureSemantics>|
                    #[trigger] refl.meta.textures().contains_key(s1) && #[trigger] refl.meta.textures().contains_key(s2)
                    && s1 != s2 ==> refl.meta.textures()[s1].binding != refl.meta.textures()[s2].binding
                &&& refl.ubo matches Some(u) ==> forall|s: SemanticMap<TextureSemantics>|
                    #[trigger] refl.meta.textures().contains_key(s) ==> refl.meta.textures()[s].binding != u.binding
            },
    {
        let vertex_res = get_shader_resources(&self.vertex)?;
        let fragment_res = get_shader_resources(&self.fragment)?;
        self.validate(&vertex_res, &fragment_res)?;
        let vertex_ubo = if vertex_res.uniform_buffers.len() > 0 { Some(&vertex_res.uniform_buffers[0]) } else { None };
        let fragment_ubo = if fragment_res.uniform_buffers.len() > 0 { Some(&fragment_res.uniform_buffers[0]) } else { None };
        let ubo = self.reflect_ubos(vertex_ubo, fragment_ubo)?;
        let vertex_push = if vertex_res.push_constant_buffers.len() > 0 { Some(&vertex_res.push_constant_buffers[0]) } else { None };
        let fragment_push = if fragment_res.push_constant_buffers.len() > 0 { Some(&fragment_res.push_constant_buffers[0]) } else { None };
        let push_constant = self.reflect_push_constant_buffer(vertex_push, fragment_push)?;
        let mut meta = ReflectMeta::new();
        if let Some(u) = vertex_ubo {
            Self::reflect_buffer_range_metas(&self.vertex, u, pass_number, semantics, &mut meta, BufferKind::Ubo, SemanticErrorBlame::Vertex)?;
        }
        if let Some(u) = fragment_ubo {
            Self::reflect_buffer_range_metas(&self.fragment, u, pass_number, semantics, &mut meta, BufferKind::Ubo, SemanticErrorBlame::Fragment)?;
        }
        if let Some(p) = vertex_push {
            Self::reflect_buffer_range_metas(&self.vertex, p, pass_number, semantics, &mut meta, BufferKind::PushConstant, SemanticErrorBlame::Vertex)?;
        }
        if let Some(p) = fragment_push {
            Self::reflect_buffer_range_metas(&self.fragment, p, pass_number, semantics, &mut meta, BufferKind::PushConstant, SemanticErrorBlame::Fragment)?;
        }
        let mut datas: Vec<Result<TextureData, ShaderReflectError>> = Vec::new();
        let mut i: usize = 0;
        while i < fragment_res.sampled_images.len()
            invariant
                i <= fragment_res.sampled_images@.len(),
                datas@.len() == i,
                forall|j: int| 0 <= j < datas@.len() ==> (#[trigger] datas@[j] matches Ok(t) ==> t.binding < MAX_BINDINGS_COUNT),
            decreases fragment_res.sampled_images@.len() - i,
        {
            datas.push(self.reflect_texture(&fragment_res.sampled_images[i]));
            i = i + 1;
        }
        assert(meta.textures().dom() =~= Set::<SemanticMap<TextureSemantics>>::empty());
        bind_textures(&ubo, datas, pass_number, semantics, &mut meta)?;
        Ok(ShaderReflection { ubo, push_constant, meta })
    }
}

impl CrossReflect<Glsl> {
    /// Parses both stages for reflection and compilation to GLSL; it succeeds only where
    /// SPIRV-Cross accepts both.
    pub fn from_spirv(compile: &SpirvCompilation) -> (r: Result<Self, ShaderReflectError>)
        ensures
            r is Ok ==> glsl_compiler_accepts(compile.vertex@) && glsl_compiler_accepts(compile.fragment@),
            r matches Err(e) ==> e is SpirvCrossError,
    {
        let vertex = cross_result(new_glsl_compiler(&compile.vertex))?;
        let fragment = cross_result(new_glsl_compiler(&compile.fragment))?;
        Ok(CrossReflect { vertex, fragment })
    }
}

impl CrossReflect<Hlsl> {
    /// Parses both stages for reflection and compilation to HLSL; it succeeds only where
    /// SPIRV-Cross accepts both.
    pub fn from_spirv(compile: &SpirvCompilation) -> (r: Result<Self, ShaderReflectError>)
        ensures
            r is Ok ==> hlsl_compiler_accepts(compile.vertex@) && hlsl_compiler_accepts(compile.fragment@),
            r matches Err(e) ==> e is SpirvCrossError,
    {
        let vertex = cross_result(new_hlsl_compiler(&compile.vertex))?;
        let fragment = cross_result(new_hlsl_compiler(&compile.fragment))?;
        Ok(CrossReflect { vertex, fragment })
    }
}

impl CrossReflect<Msl> {
    /// Parses both stages for reflection and compilation to MSL; it succeeds only where
    /// SPIRV-Cross accepts both.
    pub fn from_spirv(compile: &SpirvCompilation) -> (r: Result<Self, ShaderReflectError>)
        ensures
            r is Ok ==> msl_compiler_accepts(compile.vertex@) && msl_compiler_accepts(compile.fragment@),
            r matches Err(e) ==> e is SpirvCrossError,
    {
        let vertex = cross_result(new_msl_compiler(&compile.vertex))?;
        let fragment = cross_result(new_msl_compiler(&compile.fragment))?;
        Ok(CrossReflect { vertex, fragment })
    }
}

/// Reflection of a glslang compilation's two stages through SPIRV-Cross.
#[verifier::reject_recursive_types(T)]
pub struct SpirvCrossReflect<T> {
    vertex: Compiler<T>,
    fragment: Compiler<T>,
}

impl SpirvCrossReflect<Glsl> {
    /// Parses both stages of the compilation for GLSL; it succeeds only where SPIRV-Cross
    /// accepts both.
    pub fn try_from(value: GlslangCompilation) -> (r: Result<Self, ShaderReflectError>)
        ensures
            r is Ok ==> glsl_compiler_accepts(value.vertex@) && glsl_compiler_accepts(value.fragment@),
            r matches Err(e) ==> e is SpirvCrossError,
    {
        let vertex = cross_result(new_glsl_compiler(&value.vertex))?;
        let fragment = cross_result(new_glsl_compiler(&value.fragment))?;
        Ok(SpirvCrossReflect { vertex, fragment })
    }
}

impl SpirvCrossReflect<Hlsl> {
    /// Parses both stages of the compilation for HLSL; it succeeds only where SPIRV-Cross
    /// accepts both.
    pub fn try_from(value: GlslangCompilation) -> (r: Result<Self, ShaderReflectError>)
        ensures
            r is Ok ==> hlsl_compiler_accepts(value.vertex@) && hlsl_compiler_accepts(value.fragment@),
            r matches Err(e) ==> e is SpirvCrossError,
    {
        let vertex = cross_result(new_hlsl_compiler(&value.vertex))?;
        let fragment = cross_result(new_hlsl_compiler(&value.fragment))?;
        Ok(SpirvCrossReflect { vertex, fragment })
    }
}

impl SpirvCrossReflect<Msl> {
    /// Parses both stages of the compilation for MSL; it succeeds only where SPIRV-Cross
    /// accepts both.
    pub fn try_from(value: GlslangCompilation) -> (r: Result<Self, ShaderReflectError>)
        ensures
            r is Ok ==> msl_compiler_accepts(value.vertex@) && msl_compiler_accepts(value.fragment@),
            r matches Err(e) ==> e is SpirvCrossError,
    {
        let vertex = cross_result(new_msl_compiler(&value.vertex))?;
        let fragment = cross_result(new_msl_compiler(&value.fragment))?;
        Ok(SpirvCrossReflect { vertex, fragment })
    }
}

} // verus!
