//! Direct3D 12 runtime options, descriptor heap kinds and format selection.

use crate::runtime::formats::{
    format_candidates, format_fallback_list, spec_format_candidates, spec_format_fallback_list,
    law_format_tried_first_as_itself, DXGI_FORMAT_B4G4R4A4_UNORM, DXGI_FORMAT_EX_A4R4G4B4_UNORM, DXGI_FORMAT_UNKNOWN,
};
use vstd::prelude::*;

verus! {

/// Options for each Direct3D 12 frame.
#[derive(Default, Debug, Clone)]
pub struct FrameOptionsD3D12 {
    /// Whether to clear the history buffers.
    pub clear_history: bool,
    /// The direction of rendering; -1 plays the frames in reverse.
    pub frame_direction: i32,
}

/// Options for Direct3D 12 filter chain creation.
#[derive(Default, Debug, Clone)]
pub struct FilterChainOptionsD3D12 {
    /// Whether to force the HLSL pipeline.
    pub force_hlsl_pipeline: bool,
    /// Whether to disable mipmap generation for intermediate passes regardless of the preset.
    pub force_no_mipmaps: bool,
    /// Whether to recompile the shaders rather than load them from the cache.
    pub disable_cache: bool,
}

/// `D3D12_DESCRIPTOR_HEAP_TYPE_CBV_SRV_UAV`.
pub const HEAP_TYPE_CBV_SRV_UAV: u32 = 0;
/// `D3D12_DESCRIPTOR_HEAP_TYPE_SAMPLER`.
pub const HEAP_TYPE_SAMPLER: u32 = 1;
/// `D3D12_DESCRIPTOR_HEAP_FLAG_NONE`.
pub const HEAP_FLAG_NONE: u32 = 0;
/// `D3D12_DESCRIPTOR_HEAP_FLAG_SHADER_VISIBLE`.
pub const HEAP_FLAG_SHADER_VISIBLE: u32 = 1;

/// The description of a descriptor heap.
#[derive(Debug, Clone, Copy, PartialEq, Eq, Structural)]
pub struct DescriptorHeapDesc {
    pub heap_type: u32,
    pub num_descriptors: u32,
    pub flags: u32,
    pub node_mask: u32,
}

/// The kinds of descriptor heap, by what they hold and who sees them.
pub trait D3D12HeapType {
    spec fn spec_desc(size: usize) -> DescriptorHeapDesc;

    /// The description of a heap of `size` descriptors.
    fn get_desc(size: usize) -> (r: DescriptorHeapDesc)
        ensures
            r == Self::spec_desc(size),
    ;
}

/// Heaps that shaders see.
pub trait D3D12ShaderVisibleHeapType: D3D12HeapType {}

/// The shader-visible heap of sampler palettes.
pub struct SamplerPaletteHeap;

/// The heap of lookup textures, seen by the CPU only and copied into the work heap.
pub struct LutTextureHeap;

/// The shader-visible heap of the textures that the passes read.
pub struct ResourceWorkHeap;

impl D3D12HeapType for SamplerPaletteHeap {
    open spec fn spec_desc(size: usize) -> DescriptorHeapDesc {
        DescriptorHeapDesc { heap_type: HEAP_TYPE_SAMPLER, num_descriptors: size as u32, flags: HEAP_FLAG_SHADER_VISIBLE, node_mask: 0 }
    }

    fn get_desc(size: usize) -> (r: DescriptorHeapDesc) {
        DescriptorHeapDesc { heap_type: HEAP_TYPE_SAMPLER, num_descriptors: size as u32, flags: HEAP_FLAG_SHADER_VISIBLE, node_mask: 0 }
    }
}

impl D3D12ShaderVisibleHeapType for SamplerPaletteHeap {}

impl D3D12HeapType for LutTextureHeap {
    open spec fn spec_desc(size: usize) -> DescriptorHeapDesc {
        DescriptorHeapDesc { heap_type: HEAP_TYPE_CBV_SRV_UAV, num_descriptors: size as u32, flags: HEAP_FLAG_NONE, node_mask: 0 }
    }

    fn get_desc(size: usize) -> (r: DescriptorHeapDesc) {
        DescriptorHeapDesc { heap_type: HEAP_TYPE_CBV_SRV_UAV, num_descriptors: size as u32, flags: HEAP_FLAG_NONE, node_mask: 0 }
    }
}

impl D3D12HeapType for ResourceWorkHeap {
    open spec fn spec_desc(size: usize) -> DescriptorHeapDesc {
        DescriptorHeapDesc { heap_type: HEAP_TYPE_CBV_SRV_UAV, num_descriptors: size as u32, flags: HEAP_FLAG_SHADER_VISIBLE, node_mask: 0 }
    }

    fn get_desc(size: usize) -> (r: DescriptorHeapDesc) {
        DescriptorHeapDesc { heap_type: HEAP_TYPE_CBV_SRV_UAV, num_descriptors: size as u32, flags: HEAP_FLAG_SHADER_VISIBLE, node_mask: 0 }
    }
}

impl D3D12ShaderVisibleHeapType for ResourceWorkHeap {}

/// A resource handle that takes a reference of its own to the resource.
pub struct IncrementRefcount;

/// A resource handle that borrows a resource living through the frame.
pub struct OutlivesFrame;

/// Whether a heap of this description gives GPU handles: it is shader visible.
pub fn has_gpu_handles(desc: &DescriptorHeapDesc) -> (r: bool)
    ensures
        r == (desc.flags & HEAP_FLAG_SHADER_VISIBLE != 0),
{
    desc.flags & HEAP_FLAG_SHADER_VISIBLE != 0
}

/// The formats to try, in order, when `format` is not supported.
pub fn d3d12_format_fallback_list(format: u32) -> (r: Option<Vec<u32>>)
    ensures
        match r {
            Some(v) => spec_format_fallback_list(format) == Some(v@),
            None => spec_format_fallback_list(format) is None,
        },
{
    format_fallback_list(format)
}

/// The closest format to `format` with the required support. The device is asked about
/// `format` itself for every candidate, so the answer is the first candidate when
/// `format_supported` (the query succeeded and its flags hold both required sets), and
/// `UNKNOWN` otherwise.
pub fn d3d12_get_closest_format(format: u32, format_supported: bool) -> (r: u32)
    ensures
        r == (if format_supported { spec_format_candidates(format)[0] } else { DXGI_FORMAT_UNKNOWN }),
{
    let candidates = format_candidates(format);
    let mut i: usize = 0;
    while i < candidates.len()
        invariant
            i <= candidates@.len(),
            candidates@ == spec_format_candidates(format),
            candidates@.len() > 0,
            i > 0 ==> !format_supported,
        decreases candidates@.len() - i,
    {
        if format_supported {
            return candidates[i];
        }
        i = i + 1;
    }
    DXGI_FORMAT_UNKNOWN
}

/// Whether the support the device reports holds both sets of required flags.
pub fn support_satisfies(support1: u32, support2: u32, required1: u32, required2: u32) -> (r: bool)
    ensures
        r == (support1 & required1 == required1 && support2 & required2 == required2),
{
    support1 & required1 == required1 && support2 & required2 == required2
}

/// A supported format is chosen as itself (RetroArch's A4R4G4B4 number as B4G4R4A4,
/// which it stands for); an unsupported one gives `UNKNOWN`.
pub proof fn law_d3d12_supported_format_is_kept(format: u32, format_supported: bool)
    ensures
        format_supported && format != DXGI_FORMAT_EX_A4R4G4B4_UNORM
            ==> (if format_supported { spec_format_candidates(format)[0] } else { DXGI_FORMAT_UNKNOWN }) == format,
        format_supported && format == DXGI_FORMAT_EX_A4R4G4B4_UNORM
            ==> (if format_supported { spec_format_candidates(format)[0] } else { DXGI_FORMAT_UNKNOWN }) == DXGI_FORMAT_B4G4R4A4_UNORM,
{
    law_format_tried_first_as_itself(format);
}

/// Sampler palettes live in a shader-visible sampler heap, lookup textures in a CPU-only
/// texture heap, and the passes' textures in a shader-visible texture heap; each heap
/// holds the number of descriptors asked for, on the first node.
pub proof fn law_heap_kinds(size: usize)
    ensures
        SamplerPaletteHeap::spec_desc(size).heap_type == HEAP_TYPE_SAMPLER,
        SamplerPaletteHeap::spec_desc(size).flags == HEAP_FLAG_SHADER_VISIBLE,
        LutTextureHeap::spec_desc(size).heap_type == HEAP_TYPE_CBV_SRV_UAV,
        LutTextureHeap::spec_desc(size).flags == HEAP_FLAG_NONE,
        ResourceWorkHeap::spec_desc(size).heap_type == HEAP_TYPE_CBV_SRV_UAV,
        ResourceWorkHeap::spec_desc(size).flags == HEAP_FLAG_SHADER_VISIBLE,
        HEAP_TYPE_SAMPLER != HEAP_TYPE_CBV_SRV_UAV,
        HEAP_FLAG_SHADER_VISIBLE != HEAP_FLAG_NONE,
        SamplerPaletteHeap::spec_desc(size).num_descriptors == size as u32,
        LutTextureHeap::spec_desc(size).num_descriptors == size as u32,
        ResourceWorkHeap::spec_desc(size).num_descriptors == size as u32,
        SamplerPaletteHeap::spec_desc(size).node_mask == 0 && LutTextureHeap::spec_desc(size).node_mask == 0
            && ResourceWorkHeap::spec_desc(size).node_mask == 0,
{
}

} // verus!
