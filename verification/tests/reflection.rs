use librashader_reflect::back::hlsl::{HlslCompileShader, HlslLowering};
use librashader_reflect::back::targets::{test_compile, GLSL, HLSL, MSL, SpirV};
use librashader_reflect::back::{CompileShader, FromCompilation, ReflectShader};
use librashader_reflect::error::{SemanticsErrorKind, ShaderReflectError};
use librashader_reflect::front::{GlslangCompilation, SpirvCompilation};
use librashader_reflect::reflect::presets::preset_semantics;
use librashader_reflect::reflect::stage::{validate, ResourceInfo, StageResources};
use librashader_reflect::runtime::bindings::{build_semantics, TextureSource};
use spirv_cross2::compile::glsl::GlslVersion;
use librashader_reflect::back::hlsl::{shader_model_or_default, ShaderModel};
use librashader_reflect::back::cross::{msl_version_or_default, renames_samplers, sampler_name, MetalVersion};
use librashader_reflect::reflect::checks::{merge_push_sizes, merge_ubos, UboData};
use librashader_reflect::reflect::cross::{bind_textures, TextureData};
use librashader_reflect::reflect::meta::ReflectMeta;
use librashader_reflect::reflect::semantics::{BindingStage, SemanticMap, TextureSemantics, UboReflection};

/// A shader whose entry point `main` does nothing: execution model 0 for the vertex
/// stage, 4 for the fragment stage.
fn empty_shader(model: u32) -> Vec<u32> {
    let mut w = vec![0x0723_0203, 0x0001_0000, 0, 5, 0];
    w.extend([(2 << 16) | 17, 1]); // OpCapability Shader
    w.extend([(3 << 16) | 14, 0, 1]); // OpMemoryModel Logical GLSL450
    w.extend([(5 << 16) | 15, model, 1, 0x6e69_616d, 0]); // OpEntryPoint model %1 "main"
    if model == 4 {
        w.extend([(3 << 16) | 16, 1, 7]); // OpExecutionMode %1 OriginUpperLeft
    }
    w.extend([(2 << 16) | 19, 2]); // %2 = OpTypeVoid
    w.extend([(3 << 16) | 33, 3, 2]); // %3 = OpTypeFunction %2
    w.extend([(5 << 16) | 54, 2, 1, 0, 3]); // %1 = OpFunction %2 None %3
    w.extend([(2 << 16) | 248, 4]); // %4 = OpLabel
    w.extend([(1 << 16) | 253]); // OpReturn
    w.extend([(1 << 16) | 56]); // OpFunctionEnd
    w
}

fn empty_compilation() -> SpirvCompilation {
    SpirvCompilation { vertex: empty_shader(0), fragment: empty_shader(4) }
}

fn resources() -> StageResources {
    StageResources {
        uniform_buffers: vec![],
        push_constant_buffers: vec![],
        sampled_images: vec![],
        storage_buffers: vec![],
        subpass_inputs: vec![],
        storage_images: vec![],
        atomic_counters: vec![],
        stage_inputs: vec![],
        stage_outputs: vec![],
    }
}

fn info(id: u32) -> ResourceInfo {
    ResourceInfo { id, base_type_id: 0, name: String::from("r") }
}

#[test]
fn spirv_backend_hands_back_the_words() {
    let compile = empty_compilation();
    let backend = SpirV::from_compilation(compile.clone()).ok().unwrap();
    let out = backend.compile(None).ok().unwrap();
    assert_eq!(out.vertex, compile.vertex);
    assert_eq!(out.fragment, compile.fragment);
}

#[test]
fn glsl_backend_writes_both_stages() {
    let backend = GLSL::from_compilation(empty_compilation()).ok().unwrap();
    let out = backend.compile(GlslVersion::Glsl330).ok().unwrap();
    assert!(out.vertex.contains("#version 330"));
    assert!(out.vertex.contains("void main()"));
    assert!(out.fragment.contains("void main()"));
    assert!(out.context.sampler_bindings.is_empty());
}

#[test]
fn hlsl_backend_writes_both_stages() {
    let backend = HLSL::from_compilation(empty_compilation()).ok().unwrap();
    let out = backend.compile(Some(ShaderModel::ShaderModel5_0)).ok().unwrap();
    assert!(out.vertex.contains("main"));
    assert!(out.fragment.contains("main"));
    assert!(out.context.vertex_buffers.ubo.is_none());
    assert!(out.context.fragment_buffers.push.is_none());
}

#[test]
fn msl_backend_writes_both_stages() {
    let backend = MSL::from_compilation(empty_compilation()).ok().unwrap();
    let out = backend.compile(None).ok().unwrap();
    assert!(out.vertex.contains("vertex"));
    assert!(out.fragment.contains("fragment"));
}

#[test]
fn hlsl_lowering_follows_the_shader_model() {
    assert_eq!(HlslCompileShader::lowering(None), Some(HlslLowering::LowerLoops));
    assert_eq!(HlslCompileShader::lowering(Some(ShaderModel::ShaderModel3_0)), Some(HlslLowering::HardenAndLowerLoops));
    assert_eq!(HlslCompileShader::lowering(Some(ShaderModel::ShaderModel4_1)), Some(HlslLowering::LowerLoops));
    assert_eq!(HlslCompileShader::lowering(Some(ShaderModel::ShaderModel5_1)), Some(HlslLowering::LowerLoops));
    assert_eq!(HlslCompileShader::lowering(Some(ShaderModel::ShaderModel6_0)), None);
}

#[test]
fn hlsl_compile_lowered_compiles_the_rewritten_words() {
    let shader = HlslCompileShader::new(empty_compilation()).ok().unwrap();
    let out = shader
        .compile_lowered(Some(ShaderModel::ShaderModel3_0), |words: &Vec<u32>, _l: HlslLowering| words.clone())
        .ok()
        .unwrap();
    assert!(out.vertex.contains("main"));
    let shader = HlslCompileShader::new(empty_compilation()).ok().unwrap();
    let broken = shader.compile_lowered(Some(ShaderModel::ShaderModel5_0), |_w: &Vec<u32>, _l: HlslLowering| vec![1, 2, 3]);
    assert!(broken.is_err());
}

#[test]
fn glslang_compilation_converts() {
    let value = GlslangCompilation { vertex: empty_shader(0), fragment: empty_shader(4) };
    assert!(test_compile(value).is_ok());
    let broken = GlslangCompilation { vertex: vec![0, 1, 2], fragment: empty_shader(4) };
    assert!(matches!(test_compile(broken), Err(ShaderReflectError::SpirvCrossError(_))));
}

#[test]
fn reflecting_a_shader_without_inputs_is_refused() {
    let mut backend = GLSL::from_compilation(empty_compilation()).ok().unwrap();
    let semantics = preset_semantics(&vec![], &vec![], &vec![]);
    let r = backend.reflect(0, &semantics);
    assert!(matches!(r, Err(ShaderReflectError::VertexSemanticError(SemanticsErrorKind::InvalidInputCount(0)))));
}

#[test]
fn validate_reports_each_rule() {
    let mut vertex = resources();
    vertex.sampled_images.push(info(1));
    let r = validate(&vertex, &resources(), 0, &vec![]);
    assert!(matches!(r, Err(ShaderReflectError::VertexSemanticError(SemanticsErrorKind::InvalidResourceType))));

    let mut fragment = resources();
    fragment.storage_images.push(info(1));
    let r = validate(&resources(), &fragment, 0, &vec![]);
    assert!(matches!(r, Err(ShaderReflectError::FragmentSemanticError(SemanticsErrorKind::InvalidResourceType))));

    let mut vertex = resources();
    vertex.stage_inputs = vec![info(1), info(2)];
    let r = validate(&vertex, &resources(), 0, &vec![0, 1]);
    assert!(matches!(r, Err(ShaderReflectError::FragmentSemanticError(SemanticsErrorKind::InvalidOutputCount(0)))));

    let mut fragment = resources();
    fragment.stage_outputs = vec![info(3)];
    let r = validate(&vertex, &fragment, 1, &vec![0, 1]);
    assert!(matches!(r, Err(ShaderReflectError::FragmentSemanticError(SemanticsErrorKind::InvalidLocation(1)))));

    let r = validate(&vertex, &fragment, 0, &vec![0, 2]);
    assert!(matches!(r, Err(ShaderReflectError::VertexSemanticError(SemanticsErrorKind::InvalidLocation(5)))));

    let r = validate(&vertex, &fragment, 0, &vec![1, 0]);
    assert!(r.is_ok());

    let mut two_ubos = resources();
    two_ubos.stage_inputs = vec![info(1), info(2)];
    two_ubos.uniform_buffers = vec![info(4), info(5)];
    let r = validate(&two_ubos, &fragment, 0, &vec![0, 1]);
    assert!(matches!(r, Err(ShaderReflectError::VertexSemanticError(SemanticsErrorKind::InvalidUniformBufferCount(2)))));
}

/// A fragment shader that samples the texture at binding 2 and writes the colour out.
fn sampling_fragment_shader() -> Vec<u32> {
    named_sampling_fragment_shader(&[])
}

/// The sampling fragment shader, its texture named by the given words of `OpName`.
fn named_sampling_fragment_shader(name: &[u32]) -> Vec<u32> {
    let mut w = vec![0x0723_0203, 0x0001_0000, 0, 18, 0];
    w.extend([(2 << 16) | 17, 1]);
    w.extend([(3 << 16) | 14, 0, 1]);
    w.extend([(6 << 16) | 15, 4, 1, 0x6e69_616d, 0, 12]);
    w.extend([(3 << 16) | 16, 1, 7]);
    if !name.is_empty() {
        w.push(((2 + name.len() as u32) << 16) | 5);
        w.push(10);
        w.extend(name);
    }
    w.extend([(4 << 16) | 71, 10, 34, 0]); // DescriptorSet 0
    w.extend([(4 << 16) | 71, 10, 33, 2]); // Binding 2
    w.extend([(4 << 16) | 71, 12, 30, 0]); // Location 0
    w.extend([(2 << 16) | 19, 2]);
    w.extend([(3 << 16) | 33, 3, 2]);
    w.extend([(3 << 16) | 22, 4, 32]);
    w.extend([(4 << 16) | 23, 5, 4, 4]);
    w.extend([(4 << 16) | 23, 6, 4, 2]);
    w.extend([(9 << 16) | 25, 7, 4, 1, 0, 0, 0, 1, 0]);
    w.extend([(3 << 16) | 27, 8, 7]);
    w.extend([(4 << 16) | 32, 9, 0, 8]);
    w.extend([(4 << 16) | 59, 9, 10, 0]);
    w.extend([(4 << 16) | 32, 11, 3, 5]);
    w.extend([(4 << 16) | 59, 11, 12, 3]);
    w.extend([(4 << 16) | 43, 4, 13, 0]);
    w.extend([(5 << 16) | 44, 6, 14, 13, 13]);
    w.extend([(5 << 16) | 54, 2, 1, 0, 3]);
    w.extend([(2 << 16) | 248, 15]);
    w.extend([(4 << 16) | 61, 8, 16, 10]);
    w.extend([(5 << 16) | 87, 5, 17, 16, 14]);
    w.extend([(3 << 16) | 62, 12, 17]);
    w.extend([(1 << 16) | 253]);
    w.extend([(1 << 16) | 56]);
    w
}

fn sampling_compilation() -> SpirvCompilation {
    SpirvCompilation { vertex: empty_shader(0), fragment: sampling_fragment_shader() }
}

#[test]
fn glsl_context_lists_the_sampler_binding() {
    let backend = GLSL::from_compilation(sampling_compilation()).ok().unwrap();
    let out = backend.compile(GlslVersion::Glsl330).ok().unwrap();
    assert_eq!(out.context.sampler_bindings.len(), 1);
    assert_eq!(out.context.sampler_bindings[0].1, 2);
}

#[test]
fn shader_model_3_names_samplers_by_binding() {
    let backend = HLSL::from_compilation(sampling_compilation()).ok().unwrap();
    let out = backend.compile(Some(ShaderModel::ShaderModel3_0)).ok().unwrap();
    assert!(out.fragment.contains("LIBRA_SAMPLER2D_2"));
    let backend = HLSL::from_compilation(sampling_compilation()).ok().unwrap();
    let out = backend.compile(Some(ShaderModel::ShaderModel5_0)).ok().unwrap();
    assert!(!out.fragment.contains("LIBRA_SAMPLER2D_2"));
}

/// A vertex shader with inputs at locations 0 and 1.
fn two_input_vertex_shader() -> Vec<u32> {
    let mut w = vec![0x0723_0203, 0x0001_0000, 0, 10, 0];
    w.extend([(2 << 16) | 17, 1]);
    w.extend([(3 << 16) | 14, 0, 1]);
    w.extend([(7 << 16) | 15, 0, 1, 0x6e69_616d, 0, 7, 8]);
    w.extend([(4 << 16) | 71, 7, 30, 0]);
    w.extend([(4 << 16) | 71, 8, 30, 1]);
    w.extend([(2 << 16) | 19, 2]);
    w.extend([(3 << 16) | 33, 3, 2]);
    w.extend([(3 << 16) | 22, 4, 32]);
    w.extend([(4 << 16) | 23, 5, 4, 4]);
    w.extend([(4 << 16) | 32, 6, 1, 5]);
    w.extend([(4 << 16) | 59, 6, 7, 1]);
    w.extend([(4 << 16) | 59, 6, 8, 1]);
    w.extend([(5 << 16) | 54, 2, 1, 0, 3]);
    w.extend([(2 << 16) | 248, 9]);
    w.extend([(1 << 16) | 253]);
    w.extend([(1 << 16) | 56]);
    w
}

#[test]
fn reflection_binds_a_named_texture_and_the_pass_uses_it() {
    // "Source"
    let compile = SpirvCompilation {
        vertex: two_input_vertex_shader(),
        fragment: named_sampling_fragment_shader(&[0x7275_6f53, 0x0000_6563]),
    };
    let mut backend = GLSL::from_compilation(compile).ok().unwrap();
    let semantics = preset_semantics(&vec![], &vec![], &vec![]);
    let reflection = backend.reflect(1, &semantics).ok().unwrap();
    assert!(reflection.ubo.is_none());
    assert!(reflection.push_constant.is_none());
    assert_eq!(reflection.meta.texture_meta.len(), 1);
    let bindings = build_semantics(&reflection.meta, 1, &vec![], &vec![true], &vec![], &vec![]);
    assert_eq!(bindings.textures[2], Some(TextureSource::Source));
    assert_eq!(bindings.textures.iter().filter(|t| t.is_some()).count(), 1);
}

#[test]
fn reflection_refuses_reading_its_own_output() {
    // "PassOutput0"
    let compile = SpirvCompilation {
        vertex: two_input_vertex_shader(),
        fragment: named_sampling_fragment_shader(&[0x7373_6150, 0x7074_754f, 0x0030_7475]),
    };
    let mut backend = GLSL::from_compilation(compile).ok().unwrap();
    let semantics = preset_semantics(&vec![], &vec![], &vec![]);
    let r = backend.reflect(0, &semantics);
    assert!(matches!(r, Err(ShaderReflectError::NonCausalFilterChain { pass: 0, target: 0 })));
}

#[test]
fn reflection_refuses_an_unknown_texture() {
    // "Nope"
    let compile = SpirvCompilation {
        vertex: two_input_vertex_shader(),
        fragment: named_sampling_fragment_shader(&[0x6570_6f4e, 0]),
    };
    let mut backend = GLSL::from_compilation(compile).ok().unwrap();
    let semantics = preset_semantics(&vec![], &vec![], &vec![]);
    let r = backend.reflect(0, &semantics);
    assert!(matches!(r, Err(ShaderReflectError::FragmentSemanticError(SemanticsErrorKind::UnknownSemantics(_)))));
}

fn texture_at(name: &str, binding: u32) -> Result<TextureData, ShaderReflectError> {
    Ok(TextureData { id: binding + 100, name: name.to_string(), descriptor_set: 0, binding })
}

#[test]
fn textures_bind_each_semantic_at_its_binding() {
    let semantics = preset_semantics(&vec![], &vec![], &vec![]);
    let mut meta = ReflectMeta::new();
    let datas = vec![texture_at("Source", 2), texture_at("Original", 3)];
    let r = bind_textures(&None, datas, 1, &semantics, &mut meta);
    assert!(r.is_ok());
    assert_eq!(meta.texture_meta.len(), 2);
    assert_eq!(meta.texture_meta.get(&SemanticMap { semantics: TextureSemantics::Source, index: 0 }).map(|b| b.binding), Some(2));
    assert_eq!(meta.texture_meta.get(&SemanticMap { semantics: TextureSemantics::Original, index: 0 }).map(|b| b.binding), Some(3));
}

#[test]
fn textures_refuse_the_first_binding_in_use() {
    let semantics = preset_semantics(&vec![], &vec![], &vec![]);
    let ubo = Some(UboReflection { binding: 0, size: 16, stage_mask: BindingStage { bits: 3 } });
    let mut meta = ReflectMeta::new();
    let r = bind_textures(&ubo, vec![texture_at("Source", 1), texture_at("Original", 0)], 1, &semantics, &mut meta);
    assert!(matches!(r, Err(ShaderReflectError::BindingInUse(0))));
    let mut meta = ReflectMeta::new();
    let r = bind_textures(&None, vec![texture_at("Source", 4), texture_at("Original", 4), texture_at("Nope", 4)], 1, &semantics, &mut meta);
    assert!(matches!(r, Err(ShaderReflectError::BindingInUse(4))));
    let mut meta = ReflectMeta::new();
    let r = bind_textures(&None, vec![texture_at("Nope", 1), texture_at("Source", 1)], 1, &semantics, &mut meta);
    assert!(matches!(r, Err(ShaderReflectError::FragmentSemanticError(SemanticsErrorKind::UnknownSemantics(_)))));
}

#[test]
fn merged_buffer_sizes_are_aligned_to_16() {
    let v = Some(UboData { id: 1, descriptor_set: 0, binding: 0, size: 20 });
    let f = Some(UboData { id: 2, descriptor_set: 0, binding: 0, size: 36 });
    let u = merge_ubos(v, None).ok().unwrap().unwrap();
    assert_eq!(u.size, 32);
    assert_eq!(u.stage_mask.bits, 1);
    let u = merge_ubos(v, f).ok().unwrap().unwrap();
    assert_eq!(u.size, 48);
    assert_eq!(u.stage_mask.bits, 3);
    let p = merge_push_sizes(Some(20), Some(16)).unwrap();
    assert_eq!(p.size, 32);
    assert_eq!(merge_push_sizes(None, Some(64)).unwrap().size, 64);
    assert!(merge_push_sizes(None, None).is_none());
}

#[test]
fn shader_model_defaults_and_sampler_renaming() {
    assert_eq!(shader_model_or_default(None), ShaderModel::ShaderModel5_0);
    assert_eq!(shader_model_or_default(Some(ShaderModel::ShaderModel6_2)), ShaderModel::ShaderModel6_2);
    assert_eq!(ShaderModel::ShaderModel4_1.number(), 41);
    assert!(renames_samplers(ShaderModel::ShaderModel3_0));
    assert!(!renames_samplers(ShaderModel::ShaderModel5_0));
}

#[test]
fn msl_version_defaults_to_2_0() {
    assert_eq!(msl_version_or_default(None), MetalVersion { major: 2, minor: 0, patch: 0 });
    let v = MetalVersion { major: 2, minor: 3, patch: 0 };
    assert_eq!(msl_version_or_default(Some(v)), v);
}

#[test]
fn validate_refuses_a_vertex_input_past_the_mask() {
    let mut vertex = resources();
    vertex.stage_inputs = vec![info(1), info(2)];
    let mut fragment = resources();
    fragment.stage_outputs = vec![info(3)];
    let r = validate(&vertex, &fragment, 0, &vec![0, 40]);
    assert!(matches!(r, Err(ShaderReflectError::VertexSemanticError(SemanticsErrorKind::InvalidLocation(40)))));
    let r = validate(&vertex, &fragment, 0, &vec![33, 40]);
    assert!(matches!(r, Err(ShaderReflectError::VertexSemanticError(SemanticsErrorKind::InvalidLocation(33)))));
}

#[test]
fn sampler_names_carry_the_binding_in_decimal() {
    assert_eq!(sampler_name(2), "LIBRA_SAMPLER2D_2");
    assert_eq!(sampler_name(15), "LIBRA_SAMPLER2D_15");
}
