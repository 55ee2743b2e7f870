use crate::error::{SemanticsErrorKind, ShaderReflectError};
use crate::reflect::checks::{SemanticErrorBlame, UniformTypeDesc, ValidateTypeSemantics};
use crate::reflect::meta::{
    parameter_meta_get, parameter_meta_insert, texture_binding_insert, texture_size_meta_get,
    texture_size_meta_insert, texture_size_meta_remove, variable_meta_get, variable_meta_insert,
    ReflectMeta,
};
use crate::reflect::semantics::{
    MemberOffset, ReflectSemantics, SemanticMap, TextureBinding, TextureSemanticMap,
    TextureSemantics, TextureSizeMeta, UniformSemantic, VariableMeta, VariableSemanticMap,
    VariableSemantics,
};
use rustc_hash::FxHashMap;
use vstd::prelude::*;
use vstd::string::*;

verus! {

/// A resource of one shader stage as reflection reads it.
#[derive(Debug)]
pub struct ResourceInfo {
    pub id: u32,
    pub base_type_id: u32,
    pub name: String,
}

/// The resources of one shader stage, by kind.
#[derive(Debug)]
pub struct StageResources {
    pub uniform_buffers: Vec<ResourceInfo>,
    pub push_constant_buffers: Vec<ResourceInfo>,
    pub sampled_images: Vec<ResourceInfo>,
    pub storage_buffers: Vec<ResourceInfo>,
    pub subpass_inputs: Vec<ResourceInfo>,
    pub storage_images: Vec<ResourceInfo>,
    pub atomic_counters: Vec<ResourceInfo>,
    pub stage_inputs: Vec<ResourceInfo>,
    pub stage_outputs: Vec<ResourceInfo>,
}

/// The bit set of the given locations.
pub open spec fn location_mask(locs: Seq<u32>) -> u32
    decreases locs.len(),
{
    if locs.len() == 0 {
        0
    } else {
        location_mask(locs.drop_last()) | (1u32 << locs.last())
    }
}

/// The first of the locations that is 32 or more, which no bit of a 32-bit mask can hold.
pub open spec fn first_large_location(locs: Seq<u32>) -> Option<u32>
    decreases locs.len(),
{
    if locs.len() == 0 {
        None
    } else if locs[0] >= 32 {
        Some(locs[0])
    } else {
        first_large_location(locs.drop_first())
    }
}

/// The checks of the two stages' interfaces, in the order they are made.
pub open spec fn spec_validate(
    vertex: StageResources,
    fragment: StageResources,
    fragment_location: u32,
    vertex_locations: Seq<u32>,
) -> Result<(), ShaderReflectError> {
    if vertex.sampled_images@.len() != 0 || vertex.storage_buffers@.len() != 0
        || vertex.subpass_inputs@.len() != 0 || vertex.storage_images@.len() != 0
        || vertex.atomic_counters@.len() != 0 {
        Err(ShaderReflectError::VertexSemanticError(SemanticsErrorKind::InvalidResourceType))
    } else if fragment.storage_buffers@.len() != 0 || fragment.subpass_inputs@.len() != 0
        || fragment.storage_images@.len() != 0 || fragment.atomic_counters@.len() != 0 {
        Err(ShaderReflectError::FragmentSemanticError(SemanticsErrorKind::InvalidResourceType))
    } else if vertex.stage_inputs@.len() != 2 {
        Err(ShaderReflectError::VertexSemanticError(SemanticsErrorKind::InvalidInputCount(vertex.stage_inputs@.len() as usize)))
    } else if fragment.stage_outputs@.len() != 1 {
        Err(ShaderReflectError::FragmentSemanticError(SemanticsErrorKind::InvalidOutputCount(fragment.stage_outputs@.len() as usize)))
    } else if fragment_location != 0 {
        Err(ShaderReflectError::FragmentSemanticError(SemanticsErrorKind::InvalidLocation(fragment_location)))
    } else if first_large_location(vertex_locations) is Some {
        Err(ShaderReflectError::VertexSemanticError(SemanticsErrorKind::InvalidLocation(first_large_location(vertex_locations)->Some_0)))
    } else if location_mask(vertex_locations) != 3 {
        Err(ShaderReflectError::VertexSemanticError(SemanticsErrorKind::InvalidLocation(location_mask(vertex_locations))))
    } else if vertex.uniform_buffers@.len() > 1 {
        Err(ShaderReflectError::VertexSemanticError(SemanticsErrorKind::InvalidUniformBufferCount(vertex.uniform_buffers@.len() as usize)))
    } else if vertex.push_constant_buffers@.len() > 1 {
        Err(ShaderReflectError::VertexSemanticError(SemanticsErrorKind::InvalidUniformBufferCount(vertex.push_constant_buffers@.len() as usize)))
    } else if fragment.uniform_buffers@.len() > 1 {
        Err(ShaderReflectError::FragmentSemanticError(SemanticsErrorKind::InvalidUniformBufferCount(fragment.uniform_buffers@.len() as usize)))
    } else if fragment.push_constant_buffers@.len() > 1 {
        Err(ShaderReflectError::FragmentSemanticError(SemanticsErrorKind::InvalidUniformBufferCount(fragment.push_constant_buffers@.len() as usize)))
    } else {
        Ok(())
    }
}

/// A pass whose vertex stage reads only uniforms through its two inputs at locations 0
/// and 1, whose fragment stage writes one output at location 0, and whose stages have at
/// most one uniform buffer and at most one push constant buffer each, passes validation:
/// one uniform buffer or push constant block is never refused.
pub proof fn law_valid_interfaces_pass(vertex: StageResources, fragment: StageResources, vertex_locations: Seq<u32>)
    requires
        vertex.sampled_images@.len() == 0,
        vertex.storage_buffers@.len() == 0,
        vertex.subpass_inputs@.len() == 0,
        vertex.storage_images@.len() == 0,
        vertex.atomic_counters@.len() == 0,
        fragment.storage_buffers@.len() == 0,
        fragment.subpass_inputs@.len() == 0,
        fragment.storage_images@.len() == 0,
        fragment.atomic_counters@.len() == 0,
        vertex.stage_inputs@.len() == 2,
        fragment.stage_outputs@.len() == 1,
        vertex_locations == seq![0u32, 1u32] || vertex_locations == seq![1u32, 0u32],
        vertex.uniform_buffers@.len() <= 1,
        vertex.push_constant_buffers@.len() <= 1,
        fragment.uniform_buffers@.len() <= 1,
        fragment.push_constant_buffers@.len() <= 1,
    ensures
        spec_validate(vertex, fragment, 0, vertex_locations) == Ok::<(), ShaderReflectError>(()),
{
    assert(vertex_locations.drop_first().drop_first() =~= Seq::<u32>::empty());
    assert(vertex_locations.drop_last().drop_last() =~= Seq::<u32>::empty());
    assert(first_large_location(vertex_locations) is None) by {
        reveal_with_fuel(first_large_location, 3);
    }
    assert((0u32 | (1u32 << 0u32)) | (1u32 << 1u32) == 3u32) by (bit_vector);
    assert((0u32 | (1u32 << 1u32)) | (1u32 << 0u32) == 3u32) by (bit_vector);
    assert(location_mask(vertex_locations) == 3) by {
        reveal_with_fuel(location_mask, 3);
        assert(vertex_locations.drop_last().drop_last() =~= Seq::<u32>::empty());
    }
}

/// A stage with more than one uniform buffer, or more than one push constant buffer, is
/// refused, once its interface is otherwise valid.
pub proof fn law_second_buffer_refused(vertex: StageResources, fragment: StageResources, vertex_locations: Seq<u32>)
    requires
        spec_validate(vertex, fragment, 0, vertex_locations) is Ok,
    ensures
        vertex.uniform_buffers@.len() <= 1,
        vertex.push_constant_buffers@.len() <= 1,
        fragment.uniform_buffers@.len() <= 1,
        fragment.push_constant_buffers@.len() <= 1,
        vertex.stage_inputs@.len() == 2,
        fragment.stage_outputs@.len() == 1,
{
}

/// Checks that the vertex stage reads only uniforms, has exactly the two inputs at
/// locations 0 and 1, that the fragment stage writes exactly one output at location 0,
/// and that each stage has at most one uniform buffer and one push constant buffer.
/// `fragment_location` is the location of the fragment output, `vertex_locations`
/// those of the vertex inputs, in order; the first vertex input at location 32 or beyond
/// is refused as an invalid location.
pub fn validate(
    vertex: &StageResources,
    fragment: &StageResources,
    fragment_location: u32,
    vertex_locations: &Vec<u32>,
) -> (r: Result<(), ShaderReflectError>)
    requires
        vertex_locations@.len() == vertex.stage_inputs@.len(),
    ensures
        r == spec_validate(*vertex, *fragment, fragment_location, vertex_locations@),
{
    if vertex.sampled_images.len() != 0 || vertex.storage_buffers.len() != 0
        || vertex.subpass_inputs.len() != 0 || vertex.storage_images.len() != 0
        || vertex.atomic_counters.len() != 0 {
        return Err(ShaderReflectError::VertexSemanticError(SemanticsErrorKind::InvalidResourceType));
    }
    if fragment.storage_buffers.len() != 0 || fragment.subpass_inputs.len() != 0
        || fragment.storage_images.len() != 0 || fragment.atomic_counters.len() != 0 {
        return Err(ShaderReflectError::FragmentSemanticError(SemanticsErrorKind::InvalidResourceType));
    }
    let vert_inputs = vertex.stage_inputs.len();
    if vert_inputs != 2 {
        return Err(ShaderReflectError::VertexSemanticError(SemanticsErrorKind::InvalidInputCount(vert_inputs)));
    }
    let frag_outputs = fragment.stage_outputs.len();
    if frag_outputs != 1 {
        return Err(ShaderReflectError::FragmentSemanticError(SemanticsErrorKind::InvalidOutputCount(frag_outputs)));
    }
    if fragment_location != 0 {
        return Err(ShaderReflectError::FragmentSemanticError(SemanticsErrorKind::InvalidLocation(fragment_location)));
    }
    let mut k: usize = 0;
    assert(vertex_locations@.skip(0) =~= vertex_locations@);
    while k < vertex_locations.len()
        invariant
            !(vertex.sampled_images@.len() != 0 || vertex.storage_buffers@.len() != 0
                || vertex.subpass_inputs@.len() != 0 || vertex.storage_images@.len() != 0
                || vertex.atomic_counters@.len() != 0),
            !(fragment.storage_buffers@.len() != 0 || fragment.subpass_inputs@.len() != 0
                || fragment.storage_images@.len() != 0 || fragment.atomic_counters@.len() != 0),
            vertex.stage_inputs@.len() == 2,
            fragment.stage_outputs@.len() == 1,
            fragment_location == 0,
            k <= vertex_locations@.len(),
            first_large_location(vertex_locations@) == first_large_location(vertex_locations@.skip(k as int)),
            forall|j: int| 0 <= j < k ==> #[trigger] vertex_locations@[j] < 32,
        decreases vertex_locations@.len() - k,
    {
        assert(vertex_locations@.skip(k as int).drop_first() =~= vertex_locations@.skip(k + 1));
        assert(vertex_locations@.skip(k as int)[0] == vertex_locations@[k as int]);
        if vertex_locations[k] >= 32 {
            assert(first_large_location(vertex_locations@) == Some(vertex_locations@[k as int]));
            return Err(ShaderReflectError::VertexSemanticError(SemanticsErrorKind::InvalidLocation(vertex_locations[k])));
        }
        k = k + 1;
    }
    assert(first_large_location(vertex_locations@.skip(k as int)) is None);
    let mut mask: u32 = 0;
    let mut i: usize = 0;
    while i < vertex_locations.len()
        invariant
            i <= vertex_locations@.len(),
            forall|j: int| 0 <= j < vertex_locations@.len() ==> #[trigger] vertex_locations@[j] < 32,
            mask == location_mask(vertex_locations@.take(i as int)),
        decreases vertex_locations@.len() - i,
    {
        assert(vertex_locations@.take(i + 1).drop_last() =~= vertex_locations@.take(i as int));
        mask = mask | (1u32 << vertex_locations[i]);
        i = i + 1;
    }
    assert(vertex_locations@.take(i as int) =~= vertex_locations@);
    if mask != 0x3 {
        return Err(ShaderReflectError::VertexSemanticError(SemanticsErrorKind::InvalidLocation(mask)));
    }
    if vertex.uniform_buffers.len() > 1 {
        return Err(ShaderReflectError::VertexSemanticError(SemanticsErrorKind::InvalidUniformBufferCount(vertex.uniform_buffers.len())));
    }
    if vertex.push_constant_buffers.len() > 1 {
        return Err(ShaderReflectError::VertexSemanticError(SemanticsErrorKind::InvalidUniformBufferCount(vertex.push_constant_buffers.len())));
    }
    if fragment.uniform_buffers.len() > 1 {
        return Err(ShaderReflectError::FragmentSemanticError(SemanticsErrorKind::InvalidUniformBufferCount(fragment.uniform_buffers.len())));
    }
    if fragment.push_constant_buffers.len() > 1 {
        return Err(ShaderReflectError::FragmentSemanticError(SemanticsErrorKind::InvalidUniformBufferCount(fragment.push_constant_buffers.len())));
    }
    Ok(())
}

/// What reflecting one member `name` of a buffer does: the result, and the parameter,
/// variable and texture size entries afterwards.
pub open spec fn spec_reflect_member(
    meta: ReflectMeta,
    name: String,
    ty: UniformTypeDesc,
    offset: MemberOffset,
    pass_number: usize,
    uniforms: FxHashMap<String, UniformSemantic>,
    blame: SemanticErrorBlame,
) -> (Result<(), ShaderReflectError>, Map<Seq<char>, VariableMeta>, Map<VariableSemantics, VariableMeta>, Map<SemanticMap<TextureSemantics>, TextureSizeMeta>) {
    let unchanged = (meta.parameters(), meta.variables(), meta.texture_sizes());
    match uniforms.spec_variable_semantic(name@) {
        Some(p) => match p.semantics.spec_validate_type(ty) {
            None => (Err(blame.spec_error(SemanticsErrorKind::InvalidTypeForSemantic(name))), unchanged.0, unchanged.1, unchanged.2),
            Some(t) => {
                let components = if p.semantics == VariableSemantics::FloatParameter { t.size } else { (t.size * t.columns) as u32 };
                let existing = if p.semantics == VariableSemantics::FloatParameter {
                    meta.parameters().get(name@)
                } else {
                    meta.variables().get(p.semantics)
                };
                match existing {
                    Some(m) => if m.offset != offset {
                        (Err(ShaderReflectError::MismatchedOffset { semantic: name, vertex: m.offset, fragment: offset }), unchanged.0, unchanged.1, unchanged.2)
                    } else if m.components != components {
                        (Err(ShaderReflectError::MismatchedComponent { semantic: name, vertex: m.components, fragment: t.size }), unchanged.0, unchanged.1, unchanged.2)
                    } else {
                        (Ok(()), unchanged.0, unchanged.1, unchanged.2)
                    },
                    None => {
                        let v = VariableMeta { offset, components, id: name };
                        if p.semantics == VariableSemantics::FloatParameter {
                            (Ok(()), meta.parameters().insert(name@, v), unchanged.1, unchanged.2)
                        } else {
                            (Ok(()), unchanged.0, meta.variables().insert(p.semantics, v), unchanged.2)
                        }
                    },
                }
            },
        },
        None => match uniforms.spec_texture_semantic(name@) {
            Some(tex) => match tex.semantics.spec_validate_type(ty) {
                None => (Err(blame.spec_error(SemanticsErrorKind::InvalidTypeForSemantic(name))), unchanged.0, unchanged.1, unchanged.2),
                Some(_) => if tex.semantics == TextureSemantics::PassOutput && tex.index >= pass_number {
                    (Err(ShaderReflectError::NonCausalFilterChain { pass: pass_number, target: tex.index }), unchanged.0, unchanged.1, unchanged.2)
                } else {
                    match meta.texture_sizes().get(tex) {
                        Some(m) => if m.offset != offset {
                            (Err(ShaderReflectError::MismatchedOffset { semantic: name, vertex: m.offset, fragment: offset }), unchanged.0, unchanged.1, unchanged.2)
                        } else {
                            let updated = TextureSizeMeta {
                                offset: m.offset,
                                stage_mask: crate::reflect::semantics::BindingStage { bits: m.stage_mask.bits | blame.spec_stage() },
                                id: m.id,
                            };
                            (Ok(()), unchanged.0, unchanged.1, meta.texture_sizes().insert(tex, updated))
                        },
                        None => {
                            let m = TextureSizeMeta {
                                offset,
                                stage_mask: crate::reflect::semantics::BindingStage { bits: blame.spec_stage() },
                                id: name,
                            };
                            (Ok(()), unchanged.0, unchanged.1, meta.texture_sizes().insert(tex, m))
                        },
                    }
                },
            },
            None => (Err(blame.spec_error(SemanticsErrorKind::UnknownSemantics(name))), unchanged.0, unchanged.1, unchanged.2),
        },
    }
}

/// Reflects one member `name` of a uniform or push constant buffer at `offset`: a known
/// variable or parameter is recorded with its offset and component count, a texture
/// size with its offset and stages; a member seen in the other stage must agree.
pub fn reflect_member(
    name: String,
    ty: &UniformTypeDesc,
    offset: MemberOffset,
    pass_number: usize,
    semantics: &ReflectSemantics,
    meta: &mut ReflectMeta,
    blame: SemanticErrorBlame,
) -> (r: Result<(), ShaderReflectError>)
    ensures
        (r, final(meta).parameters(), final(meta).variables(), final(meta).texture_sizes())
            == spec_reflect_member(*old(meta), name, *ty, offset, pass_number, semantics.uniform_semantics, blame),
        final(meta).textures() == old(meta).textures(),
{
    if let Some(parameter) = semantics.uniform_semantics.get_variable_semantic(name.as_str()) {
        let Some(typeinfo) = parameter.semantics.validate_type(ty) else {
            return Err(blame.error(SemanticsErrorKind::InvalidTypeForSemantic(name)));
        };
        if parameter.semantics == VariableSemantics::FloatParameter {
            match parameter_meta_get(&meta.parameter_meta, name.as_str()) {
                Some((existing_offset, existing_components)) => {
                    if offset != existing_offset {
                        return Err(ShaderReflectError::MismatchedOffset { semantic: name, vertex: existing_offset, fragment: offset });
                    }
                    if existing_components != typeinfo.size {
                        return Err(ShaderReflectError::MismatchedComponent { semantic: name, vertex: existing_components, fragment: typeinfo.size });
                    }
                    Ok(())
                },
                None => {
                    let key = name.clone();
                    parameter_meta_insert(&mut meta.parameter_meta, key, VariableMeta { offset, components: typeinfo.size, id: name });
                    Ok(())
                },
            }
        } else {
            let components = typeinfo.size * typeinfo.columns;
            match variable_meta_get(&meta.variable_meta, parameter.semantics) {
                Some((existing_offset, existing_components)) => {
                    if offset != existing_offset {
                        return Err(ShaderReflectError::MismatchedOffset { semantic: name, vertex: existing_offset, fragment: offset });
                    }
                    if existing_components != components {
                        return Err(ShaderReflectError::MismatchedComponent { semantic: name, vertex: existing_components, fragment: typeinfo.size });
                    }
                    Ok(())
                },
                None => {
                    variable_meta_insert(&mut meta.variable_meta, parameter.semantics, VariableMeta { offset, components, id: name });
                    Ok(())
                },
            }
        }
    } else if let Some(texture) = semantics.uniform_semantics.get_texture_semantic(name.as_str()) {
        if texture.semantics.validate_type(ty).is_none() {
            return Err(blame.error(SemanticsErrorKind::InvalidTypeForSemantic(name)));
        }
        if texture.semantics == TextureSemantics::PassOutput && texture.index >= pass_number {
            return Err(ShaderReflectError::NonCausalFilterChain { pass: pass_number, target: texture.index });
        }
        match texture_size_meta_get(&meta.texture_size_meta, texture) {
            Some((existing_offset, _)) => {
                if offset != existing_offset {
                    return Err(ShaderReflectError::MismatchedOffset { semantic: name, vertex: existing_offset, fragment: offset });
                }
                let mut existing = texture_size_meta_remove(&mut meta.texture_size_meta, texture).unwrap();
                existing.stage_mask.insert(blame.stage());
                texture_size_meta_insert(&mut meta.texture_size_meta, texture, existing);
                proof {
                    assert(meta.texture_sizes() =~= old(meta).texture_sizes().remove(texture).insert(texture, existing));
                    assert(old(meta).texture_sizes().remove(texture).insert(texture, existing) =~= old(meta).texture_sizes().insert(texture, existing));
                }
                Ok(())
            },
            None => {
                texture_size_meta_insert(&mut meta.texture_size_meta, texture, TextureSizeMeta { offset, stage_mask: blame.stage(), id: name });
                Ok(())
            },
        }
    } else {
        Err(blame.error(SemanticsErrorKind::UnknownSemantics(name)))
    }
}

/// Records the binding of the sampled texture `name`, which must name a known
/// texture semantic that does not read the output of this or a later pass.
pub fn reflect_texture_meta(
    name: &str,
    binding: u32,
    pass_number: usize,
    textures: &FxHashMap<String, SemanticMap<TextureSemantics>>,
    meta: &mut ReflectMeta,
) -> (r: Result<(), ShaderReflectError>)
    ensures
        match textures.spec_texture_semantic(name@) {
            None => (r matches Err(ShaderReflectError::FragmentSemanticError(SemanticsErrorKind::UnknownSemantics(n))) && n@ == name@)
                && final(meta).textures() == old(meta).textures(),
            Some(s) => if s.semantics == TextureSemantics::PassOutput && s.index >= pass_number {
                r == Err::<(), _>(ShaderReflectError::NonCausalFilterChain { pass: pass_number, target: s.index })
                    && final(meta).textures() == old(meta).textures()
            } else {
                r is Ok && final(meta).textures() == old(meta).textures().insert(s, TextureBinding { binding })
            },
        },
        final(meta).parameters() == old(meta).parameters(),
        final(meta).variables() == old(meta).variables(),
        final(meta).texture_sizes() == old(meta).texture_sizes(),
{
    let Some(semantic) = textures.get_texture_semantic(name) else {
        return Err(ShaderReflectError::FragmentSemanticError(SemanticsErrorKind::UnknownSemantics(String::from_str(name))));
    };
    if semantic.semantics == TextureSemantics::PassOutput && semantic.index >= pass_number {
        return Err(ShaderReflectError::NonCausalFilterChain { pass: pass_number, target: semantic.index });
    }
    texture_binding_insert(&mut meta.texture_meta, semantic, TextureBinding { binding });
    Ok(())
}

} // verus!
