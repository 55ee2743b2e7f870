use librashader_reflect::runtime::d3d11::{d3d11_get_closest_format, FilterChainOptionsD3D11};
use librashader_reflect::runtime::d3d12::{FilterChainOptionsD3D12, ResourceWorkHeap};
use librashader_reflect::runtime::formats::{DXGI_FORMAT_B8G8R8A8_UNORM, DXGI_FORMAT_R8G8B8A8_UNORM};
use librashader_reflect::runtime::frame::{plan_frame, PassFrameConfig};
use librashader_reflect::runtime::heap::D3D12DescriptorHeap;

#[test]
fn triangle_triangle_d3d11() {
    let options = FilterChainOptionsD3D11 {
        force_no_mipmaps: false,
        disable_cache: false,
        ..Default::default()
    };
    assert!(!options.force_hlsl_pipeline);
    assert!(!options.force_spirv_pipeline);

    // The swapchain format, with the device supporting only the second candidate.
    let format = d3d11_get_closest_format(DXGI_FORMAT_R8G8B8A8_UNORM, 1, &vec![Some(0), Some(1), Some(1), Some(1)]);
    assert_eq!(format, DXGI_FORMAT_B8G8R8A8_UNORM);

    let passes = vec![
        PassFrameConfig { frame_count_mod: 0, mipmap_input: false },
        PassFrameConfig { frame_count_mod: 2, mipmap_input: true },
    ];
    let plan = plan_frame(&passes, 2, 5, options.force_no_mipmaps);
    assert_eq!(plan.len(), 2);
    assert_eq!(plan[0].frame_count, 5);
    assert!(plan[0].should_mipmap);
    assert_eq!(plan[1].frame_count, 1);
    assert!(plan[1].is_final);
}

#[test]
fn triangle_d3d12() {
    let options = FilterChainOptionsD3D12::default();
    assert!(!options.force_hlsl_pipeline);
    let mut heap: D3D12DescriptorHeap<ResourceWorkHeap> = D3D12DescriptorHeap::new(16, 0x1000, 0x10_0000, 32);
    let a = heap.alloc_slot();
    let b = heap.alloc_slot();
    assert_eq!(a.index(), 0);
    assert_eq!(b.index(), 1);
    assert_eq!(b.cpu_handle, 0x1000 + 32);
    assert_eq!(b.gpu_handle, Some(0x10_0000 + 32));
}
