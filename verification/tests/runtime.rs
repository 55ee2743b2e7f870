use librashader_reflect::reflect::meta::ReflectMeta;
use librashader_reflect::reflect::semantics::{
    BindingStage, MemberOffset, TextureBinding, TextureSemantics, TextureSizeMeta, VariableMeta, VariableSemantics,
};
use librashader_reflect::runtime::bindings::{build_semantics, parameter_bindings, ParameterValue, TextureSource, UniformValue};
use librashader_reflect::runtime::d3d11::{d3d11_format_candidates, d3d11_format_fallback_list, d3d11_get_closest_format};
use librashader_reflect::runtime::d3d12::{
    d3d12_format_fallback_list, d3d12_get_closest_format, has_gpu_handles, support_satisfies, FrameOptionsD3D12,
    LutTextureHeap, ResourceWorkHeap, SamplerPaletteHeap,
};
use librashader_reflect::runtime::formats::{
    get_format, DXGI_FORMAT_R8G8B8A8_UNORM_SRGB,
    DXGI_FORMAT_A8_UNORM, DXGI_FORMAT_B8G8R8A8_UNORM, DXGI_FORMAT_B8G8R8X8_UNORM, DXGI_FORMAT_R16G16B16A16_FLOAT,
    DXGI_FORMAT_R32G32B32A32_FLOAT, DXGI_FORMAT_R8G8B8A8_UNORM, DXGI_FORMAT_R8_UNORM, DXGI_FORMAT_UNKNOWN,
};
use librashader_reflect::runtime::frame::{
    clears_history, frame_direction, history_usage, init_history, pass_frame_count, passes_to_run, required_history_images,
    rotate_history,
};
use librashader_reflect::runtime::heap::D3D12DescriptorHeap;

#[test]
fn heap_release_undoes_alloc_and_reuses_the_lowest_slot() {
    let mut heap: D3D12DescriptorHeap<LutTextureHeap> = D3D12DescriptorHeap::new(4, 0x100, 0, 8);
    let a = heap.alloc_slot();
    let b = heap.alloc_slot();
    let c = heap.alloc_slot();
    assert_eq!((a.index(), b.index(), c.index()), (0, 1, 2));
    assert_ne!(a.cpu_handle, b.cpu_handle);
    let before = heap.map.clone();
    let d = heap.alloc_slot();
    assert_eq!(d.index(), 3);
    heap.release(d);
    assert_eq!(heap.map, before);
    heap.release(b);
    let again = heap.alloc_slot();
    assert_eq!(again.index(), 1);
    assert_eq!(again.cpu_handle, 0x100 + 8);
    // A heap that is not shader visible gives no GPU handles.
    assert_eq!(again.gpu_handle, None);
}

#[test]
fn heap_kinds_and_gpu_handles() {
    let heap: D3D12DescriptorHeap<SamplerPaletteHeap> = D3D12DescriptorHeap::new(2, 0, 0x4000, 16);
    assert!(has_gpu_handles(&heap.desc));
    let lut: D3D12DescriptorHeap<LutTextureHeap> = D3D12DescriptorHeap::new(2, 0, 0x4000, 16);
    assert!(!has_gpu_handles(&lut.desc));
    let mut work: D3D12DescriptorHeap<ResourceWorkHeap> = D3D12DescriptorHeap::new(3, 0, 0x4000, 16);
    assert_eq!(work.map.len(), 3);
    let s = work.alloc_slot();
    assert_eq!(s.gpu_handle, Some(0x4000));
}

#[test]
fn frame_counts_wrap_at_the_modulus() {
    assert_eq!(pass_frame_count(10, 3), 1);
    assert_eq!(pass_frame_count(10, 0), 10);
    assert_eq!(pass_frame_count(9, 3), 0);
    assert_eq!(passes_to_run(5, 3), 3);
    assert_eq!(passes_to_run(2, 3), 2);
    assert_eq!(frame_direction(Some(-1)), -1);
    assert_eq!(frame_direction(None), 1);
    let options = FrameOptionsD3D12::default();
    assert_eq!(frame_direction(Some(options.frame_direction)), options.frame_direction);
}

#[test]
fn history_rotation_moves_the_oldest_to_the_front() {
    let mut ring = vec![1, 2, 3, 4];
    rotate_history(&mut ring);
    assert_eq!(ring, vec![4, 1, 2, 3]);
    for _ in 0..3 {
        rotate_history(&mut ring);
    }
    assert_eq!(ring, vec![1, 2, 3, 4]);
    let mut empty: Vec<u32> = vec![];
    rotate_history(&mut empty);
    assert!(empty.is_empty());
}

#[test]
fn history_images_needed() {
    assert_eq!(required_history_images(&vec![]), 0);
    assert_eq!(required_history_images(&vec![(1, 0), (0, 1)]), 0);
    assert_eq!(required_history_images(&vec![(2, 0), (0, 5), (3, 3)]), 5);
}

#[test]
fn format_fallbacks() {
    assert_eq!(
        d3d11_format_fallback_list(DXGI_FORMAT_R8G8B8A8_UNORM),
        Some(vec![DXGI_FORMAT_R8G8B8A8_UNORM, DXGI_FORMAT_B8G8R8A8_UNORM, DXGI_FORMAT_B8G8R8X8_UNORM, DXGI_FORMAT_UNKNOWN])
    );
    assert_eq!(d3d12_format_fallback_list(DXGI_FORMAT_R16G16B16A16_FLOAT).unwrap()[1], DXGI_FORMAT_R32G32B32A32_FLOAT);
    assert_eq!(d3d11_format_fallback_list(12345), None);
    assert_eq!(d3d11_format_candidates(12345), vec![12345, DXGI_FORMAT_UNKNOWN]);
    assert_eq!(d3d11_format_candidates(DXGI_FORMAT_A8_UNORM)[1], DXGI_FORMAT_R8_UNORM);
}

#[test]
fn closest_format_is_the_first_supported_candidate() {
    // R8_UNORM, A8_UNORM, R8G8_UNORM, R8G8B8A8_UNORM, B8G8R8A8_UNORM, UNKNOWN
    let support = vec![None, Some(0b01), Some(0b11), Some(0b11), Some(0b11), Some(0b11)];
    assert_eq!(d3d11_get_closest_format(DXGI_FORMAT_R8_UNORM, 0b11, &support), 49);
    let none = vec![None, None, None, None, None, None];
    assert_eq!(d3d11_get_closest_format(DXGI_FORMAT_R8_UNORM, 0b11, &none), DXGI_FORMAT_UNKNOWN);
    assert_eq!(d3d12_get_closest_format(DXGI_FORMAT_B8G8R8A8_UNORM, true), DXGI_FORMAT_B8G8R8A8_UNORM);
    assert_eq!(d3d12_get_closest_format(DXGI_FORMAT_B8G8R8A8_UNORM, false), DXGI_FORMAT_UNKNOWN);
    assert!(support_satisfies(0b111, 0b10, 0b101, 0b10));
    assert!(!support_satisfies(0b011, 0b10, 0b101, 0b10));
}

fn pass_meta() -> ReflectMeta {
    let mut meta = ReflectMeta {
        parameter_meta: Default::default(),
        variable_meta: Default::default(),
        texture_size_meta: Default::default(),
        texture_meta: Default::default(),
    };
    for (s, i, b) in [
        (TextureSemantics::Original, 0, 0),
        (TextureSemantics::Source, 0, 1),
        (TextureSemantics::PassOutput, 0, 2),
        (TextureSemantics::User, 1, 3),
        (TextureSemantics::OriginalHistory, 1, 4),
        (TextureSemantics::PassFeedback, 0, 5),
    ] {
        meta.texture_meta.insert(s.semantics(i), TextureBinding { binding: b });
    }
    meta.texture_size_meta.insert(
        TextureSemantics::Source.semantics(0),
        TextureSizeMeta { offset: MemberOffset::Ubo(16), stage_mask: BindingStage::fragment(), id: "SourceSize".to_string() },
    );
    meta.texture_size_meta.insert(
        TextureSemantics::User.semantics(1),
        TextureSizeMeta { offset: MemberOffset::Ubo(32), stage_mask: BindingStage::fragment(), id: "LutSize".to_string() },
    );
    meta.variable_meta.insert(
        VariableSemantics::MVP,
        VariableMeta { offset: MemberOffset::Ubo(0), components: 16, id: "MVP".to_string() },
    );
    meta.variable_meta.insert(
        VariableSemantics::FrameCount,
        VariableMeta { offset: MemberOffset::PushConstant(0), components: 1, id: "FrameCount".to_string() },
    );
    meta
}

#[test]
fn pass_binds_each_texture_it_reads_at_its_slot() {
    let meta = pass_meta();
    let b = build_semantics(&meta, 1, &vec![true, false], &vec![true, true], &vec![false], &vec![1, 0]);
    assert_eq!(b.textures.len(), 16);
    assert_eq!(b.textures[0], Some(TextureSource::Original));
    assert_eq!(b.textures[1], Some(TextureSource::Source));
    assert_eq!(b.textures[2], Some(TextureSource::PassOutput(0)));
    assert_eq!(b.textures[3], Some(TextureSource::Lut(1)));
    assert_eq!(b.textures[4], Some(TextureSource::History(0)));
    // The feedback of the pass does not exist yet: its slot stays empty.
    assert_eq!(b.textures[5], None);
    assert!(b.textures[6..].iter().all(|t| t.is_none()));
    assert_eq!(
        b.uniforms,
        vec![
            (MemberOffset::Ubo(0), UniformValue::Mvp),
            (MemberOffset::PushConstant(0), UniformValue::FrameCount),
            (MemberOffset::Ubo(16), UniformValue::TextureSize(TextureSource::Source)),
            (MemberOffset::Ubo(32), UniformValue::TextureSize(TextureSource::Lut(1))),
        ]
    );
}

#[test]
fn first_pass_reads_no_pass_output() {
    let meta = pass_meta();
    let b = build_semantics(&meta, 0, &vec![], &vec![true], &vec![true], &vec![]);
    assert_eq!(b.textures[2], None);
    assert_eq!(b.textures[4], None);
    assert_eq!(b.textures[3], None);
    assert_eq!(b.textures[5], Some(TextureSource::PassFeedback(0)));
}

#[test]
fn pass_format_prefers_the_override() {
    assert_eq!(get_format(Some(DXGI_FORMAT_R8G8B8A8_UNORM_SRGB), DXGI_FORMAT_R16G16B16A16_FLOAT), DXGI_FORMAT_R8G8B8A8_UNORM_SRGB);
    assert_eq!(get_format(None, DXGI_FORMAT_R16G16B16A16_FLOAT), DXGI_FORMAT_R16G16B16A16_FLOAT);
    assert_eq!(get_format(None, DXGI_FORMAT_UNKNOWN), DXGI_FORMAT_R8G8B8A8_UNORM);
}

fn empty_meta() -> ReflectMeta {
    ReflectMeta {
        parameter_meta: Default::default(),
        variable_meta: Default::default(),
        texture_size_meta: Default::default(),
        texture_meta: Default::default(),
    }
}

fn size_meta(i: usize) -> TextureSizeMeta {
    TextureSizeMeta { offset: MemberOffset::Ubo(16 * i), stage_mask: BindingStage::fragment(), id: format!("OriginalHistorySize{i}") }
}

#[test]
fn history_needed_by_the_passes() {
    let mut a = empty_meta();
    a.texture_meta.insert(TextureSemantics::OriginalHistory.semantics(1), TextureBinding { binding: 1 });
    a.texture_meta.insert(TextureSemantics::OriginalHistory.semantics(2), TextureBinding { binding: 2 });
    a.texture_meta.insert(TextureSemantics::Source.semantics(0), TextureBinding { binding: 3 });
    let mut b = empty_meta();
    for i in 0..3 {
        b.texture_size_meta.insert(TextureSemantics::OriginalHistory.semantics(i), size_meta(i));
    }
    assert_eq!(history_usage(&a), (2, 0));
    assert_eq!(history_usage(&b), (0, 3));
    assert_eq!(init_history(&vec![a, b]), 3);

    let mut only_first = empty_meta();
    only_first.texture_meta.insert(TextureSemantics::OriginalHistory.semantics(0), TextureBinding { binding: 0 });
    assert_eq!(init_history(&vec![only_first]), 0);
    assert_eq!(init_history(&vec![]), 0);
}

#[test]
fn parameters_take_the_preset_value_then_the_default() {
    let mut meta = empty_meta();
    for (i, name) in ["gamma", "scale", "other"].iter().enumerate() {
        meta.parameter_meta.insert(
            name.to_string(),
            VariableMeta { offset: MemberOffset::PushConstant(4 * i), components: 1, id: name.to_string() },
        );
    }
    let configured = vec!["gamma".to_string()];
    let declared = vec!["gamma".to_string(), "scale".to_string()];
    let mut writes = parameter_bindings(&meta, &configured, &declared);
    writes.sort_by(|a, b| a.1.cmp(&b.1));
    assert_eq!(
        writes,
        vec![
            (MemberOffset::PushConstant(0), "gamma".to_string(), ParameterValue::Configured),
            (MemberOffset::PushConstant(8), "other".to_string(), ParameterValue::Zero),
            (MemberOffset::PushConstant(4), "scale".to_string(), ParameterValue::Declared),
        ]
    );
}

#[test]
fn history_is_cleared_only_when_asked() {
    assert!(clears_history(Some(true)));
    assert!(!clears_history(Some(false)));
    assert!(!clears_history(None));
}
