//! Direct3D 11 runtime options and format selection.

use crate::runtime::formats::{
    first_supported, format_candidates, format_fallback_list, law_format_tried_first_as_itself,
    law_supported_first_candidate_is_chosen, pick_supported, spec_format_candidates, spec_format_fallback_list,
    supports_all, DXGI_FORMAT_B4G4R4A4_UNORM, DXGI_FORMAT_EX_A4R4G4B4_UNORM,
};
use vstd::prelude::*;

verus! {

/// Options for Direct3D 11 filter chain creation.
#[derive(Default, Debug, Clone)]
pub struct FilterChainOptionsD3D11 {
    /// Whether to disable mipmap generation regardless of the preset.
    pub force_no_mipmaps: bool,
    /// Whether to recompile the shaders rather than load them from the cache.
    pub disable_cache: bool,
    /// Whether to force the HLSL pipeline and its slower compiler.
    pub force_hlsl_pipeline: bool,
    /// Whether to force the SPIR-V to DXBC pipeline; overrides `force_hlsl_pipeline`.
    pub force_spirv_pipeline: bool,
}

/// The formats to try, in order, when `format` is not supported.
pub fn d3d11_format_fallback_list(format: u32) -> (r: Option<Vec<u32>>)
    ensures
        match r {
            Some(v) => spec_format_fallback_list(format) == Some(v@),
            None => spec_format_fallback_list(format) is None,
        },
{
    format_fallback_list(format)
}

/// The candidate formats of `format` whose support the device must be asked for.
pub fn d3d11_format_candidates(format: u32) -> (r: Vec<u32>)
    ensures
        r@ == spec_format_candidates(format),
{
    format_candidates(format)
}

/// The closest format to `format` that supports every flag of `format_support_mask`:
/// the first of its candidates (`d3d11_format_candidates`) whose support, as the device
/// reports it in `support`, holds them; `UNKNOWN` when none does.
pub fn d3d11_get_closest_format(format: u32, format_support_mask: i32, support: &Vec<Option<u32>>) -> (r: u32)
    requires
        support@.len() == spec_format_candidates(format).len(),
    ensures
        r == first_supported(spec_format_candidates(format), support@, format_support_mask as u32),
{
    let candidates = format_candidates(format);
    pick_supported(&candidates, support, format_support_mask as u32)
}

/// A format whose own support holds every required flag is chosen as itself (RetroArch's
/// A4R4G4B4 number as B4G4R4A4, which it stands for).
pub proof fn law_d3d11_supported_format_is_kept(format: u32, format_support_mask: i32, support: Seq<Option<u32>>)
    requires
        support.len() == spec_format_candidates(format).len(),
        support[0] matches Some(s) && supports_all(s, format_support_mask as u32),
    ensures
        format != DXGI_FORMAT_EX_A4R4G4B4_UNORM ==> first_supported(spec_format_candidates(format), support, format_support_mask as u32) == format,
        format == DXGI_FORMAT_EX_A4R4G4B4_UNORM ==> first_supported(spec_format_candidates(format), support, format_support_mask as u32) == DXGI_FORMAT_B4G4R4A4_UNORM,
{
    law_format_tried_first_as_itself(format);
    law_supported_first_candidate_is_chosen(spec_format_candidates(format), support, format_support_mask as u32);
}

} // verus!
