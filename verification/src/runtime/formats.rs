use vstd::prelude::*;

verus! {

// `DXGI_FORMAT` values.
pub const DXGI_FORMAT_UNKNOWN: u32 = 0;
pub const DXGI_FORMAT_R32G32B32A32_FLOAT: u32 = 2;
pub const DXGI_FORMAT_R32G32B32_FLOAT: u32 = 6;
pub const DXGI_FORMAT_R16G16B16A16_FLOAT: u32 = 10;
pub const DXGI_FORMAT_R11G11B10_FLOAT: u32 = 26;
pub const DXGI_FORMAT_R8G8B8A8_UNORM: u32 = 28;
pub const DXGI_FORMAT_R8G8B8A8_UNORM_SRGB: u32 = 29;
pub const DXGI_FORMAT_R8G8_UNORM: u32 = 49;
pub const DXGI_FORMAT_R8_UNORM: u32 = 61;
pub const DXGI_FORMAT_A8_UNORM: u32 = 65;
pub const DXGI_FORMAT_B5G6R5_UNORM: u32 = 85;
pub const DXGI_FORMAT_B8G8R8A8_UNORM: u32 = 87;
pub const DXGI_FORMAT_B8G8R8X8_UNORM: u32 = 88;
pub const DXGI_FORMAT_B4G4R4A4_UNORM: u32 = 115;
/// The format number that RetroArch gives A4R4G4B4.
pub const DXGI_FORMAT_EX_A4R4G4B4_UNORM: u32 = 1000;

/// The formats to try, in order, for `format`, ending in `UNKNOWN`; `None` for a format
/// without a list.
pub open spec fn spec_format_fallback_list(format: u32) -> Option<Seq<u32>> {
    if format == DXGI_FORMAT_R32G32B32A32_FLOAT {
        Some(seq![DXGI_FORMAT_R32G32B32A32_FLOAT, DXGI_FORMAT_R16G16B16A16_FLOAT, DXGI_FORMAT_R32G32B32_FLOAT, DXGI_FORMAT_R11G11B10_FLOAT, DXGI_FORMAT_UNKNOWN])
    } else if format == DXGI_FORMAT_R16G16B16A16_FLOAT {
        Some(seq![DXGI_FORMAT_R16G16B16A16_FLOAT, DXGI_FORMAT_R32G32B32A32_FLOAT, DXGI_FORMAT_R32G32B32_FLOAT, DXGI_FORMAT_R11G11B10_FLOAT, DXGI_FORMAT_UNKNOWN])
    } else if format == DXGI_FORMAT_R8G8B8A8_UNORM {
        Some(seq![DXGI_FORMAT_R8G8B8A8_UNORM, DXGI_FORMAT_B8G8R8A8_UNORM, DXGI_FORMAT_B8G8R8X8_UNORM, DXGI_FORMAT_UNKNOWN])
    } else if format == DXGI_FORMAT_R8G8B8A8_UNORM_SRGB {
        Some(seq![DXGI_FORMAT_R8G8B8A8_UNORM_SRGB, DXGI_FORMAT_R8G8B8A8_UNORM, DXGI_FORMAT_B8G8R8A8_UNORM, DXGI_FORMAT_B8G8R8X8_UNORM, DXGI_FORMAT_UNKNOWN])
    } else if format == DXGI_FORMAT_B8G8R8A8_UNORM {
        Some(seq![DXGI_FORMAT_B8G8R8A8_UNORM, DXGI_FORMAT_R8G8B8A8_UNORM, DXGI_FORMAT_UNKNOWN])
    } else if format == DXGI_FORMAT_B8G8R8X8_UNORM {
        Some(seq![DXGI_FORMAT_B8G8R8X8_UNORM, DXGI_FORMAT_B8G8R8A8_UNORM, DXGI_FORMAT_R8G8B8A8_UNORM, DXGI_FORMAT_UNKNOWN])
    } else if format == DXGI_FORMAT_B5G6R5_UNORM {
        Some(seq![DXGI_FORMAT_B5G6R5_UNORM, DXGI_FORMAT_B8G8R8X8_UNORM, DXGI_FORMAT_B8G8R8A8_UNORM, DXGI_FORMAT_R8G8B8A8_UNORM, DXGI_FORMAT_UNKNOWN])
    } else if format == DXGI_FORMAT_EX_A4R4G4B4_UNORM || format == DXGI_FORMAT_B4G4R4A4_UNORM {
        Some(seq![DXGI_FORMAT_B4G4R4A4_UNORM, DXGI_FORMAT_B8G8R8A8_UNORM, DXGI_FORMAT_R8G8B8A8_UNORM, DXGI_FORMAT_UNKNOWN])
    } else if format == DXGI_FORMAT_A8_UNORM {
        Some(seq![DXGI_FORMAT_A8_UNORM, DXGI_FORMAT_R8_UNORM, DXGI_FORMAT_R8G8_UNORM, DXGI_FORMAT_R8G8B8A8_UNORM, DXGI_FORMAT_B8G8R8A8_UNORM, DXGI_FORMAT_UNKNOWN])
    } else if format == DXGI_FORMAT_R8_UNORM {
        Some(seq![DXGI_FORMAT_R8_UNORM, DXGI_FORMAT_A8_UNORM, DXGI_FORMAT_R8G8_UNORM, DXGI_FORMAT_R8G8B8A8_UNORM, DXGI_FORMAT_B8G8R8A8_UNORM, DXGI_FORMAT_UNKNOWN])
    } else {
        None
    }
}

/// The formats to try for `format`: its fallback list, or the format itself then `UNKNOWN`.
pub open spec fn spec_format_candidates(format: u32) -> Seq<u32> {
    match spec_format_fallback_list(format) {
        Some(l) => l,
        None => seq![format, DXGI_FORMAT_UNKNOWN],
    }
}

/// The formats to try, in order, when `format` is not supported; `None` for a format
/// without a list.
pub fn format_fallback_list(format: u32) -> (r: Option<Vec<u32>>)
    ensures
        match r {
            Some(v) => spec_format_fallback_list(format) == Some(v@),
            None => spec_format_fallback_list(format) is None,
        },
{
    let r = if format == DXGI_FORMAT_R32G32B32A32_FLOAT {
        Some(vec![DXGI_FORMAT_R32G32B32A32_FLOAT, DXGI_FORMAT_R16G16B16A16_FLOAT, DXGI_FORMAT_R32G32B32_FLOAT, DXGI_FORMAT_R11G11B10_FLOAT, DXGI_FORMAT_UNKNOWN])
    } else if format == DXGI_FORMAT_R16G16B16A16_FLOAT {
        Some(vec![DXGI_FORMAT_R16G16B16A16_FLOAT, DXGI_FORMAT_R32G32B32A32_FLOAT, DXGI_FORMAT_R32G32B32_FLOAT, DXGI_FORMAT_R11G11B10_FLOAT, DXGI_FORMAT_UNKNOWN])
    } else if format == DXGI_FORMAT_R8G8B8A8_UNORM {
        Some(vec![DXGI_FORMAT_R8G8B8A8_UNORM, DXGI_FORMAT_B8G8R8A8_UNORM, DXGI_FORMAT_B8G8R8X8_UNORM, DXGI_FORMAT_UNKNOWN])
    } else if format == DXGI_FORMAT_R8G8B8A8_UNORM_SRGB {
        Some(vec![DXGI_FORMAT_R8G8B8A8_UNORM_SRGB, DXGI_FORMAT_R8G8B8A8_UNORM, DXGI_FORMAT_B8G8R8A8_UNORM, DXGI_FORMAT_B8G8R8X8_UNORM, DXGI_FORMAT_UNKNOWN])
    } else if format == DXGI_FORMAT_B8G8R8A8_UNORM {
        Some(vec![DXGI_FORMAT_B8G8R8A8_UNORM, DXGI_FORMAT_R8G8B8A8_UNORM, DXGI_FORMAT_UNKNOWN])
    } else if format == DXGI_FORMAT_B8G8R8X8_UNORM {
        Some(vec![DXGI_FORMAT_B8G8R8X8_UNORM, DXGI_FORMAT_B8G8R8A8_UNORM, DXGI_FORMAT_R8G8B8A8_UNORM, DXGI_FORMAT_UNKNOWN])
    } else if format == DXGI_FORMAT_B5G6R5_UNORM {
        Some(vec![DXGI_FORMAT_B5G6R5_UNORM, DXGI_FORMAT_B8G8R8X8_UNORM, DXGI_FORMAT_B8G8R8A8_UNORM, DXGI_FORMAT_R8G8B8A8_UNORM, DXGI_FORMAT_UNKNOWN])
    } else if format == DXGI_FORMAT_EX_A4R4G4B4_UNORM || format == DXGI_FORMAT_B4G4R4A4_UNORM {
        Some(vec![DXGI_FORMAT_B4G4R4A4_UNORM, DXGI_FORMAT_B8G8R8A8_UNORM, DXGI_FORMAT_R8G8B8A8_UNORM, DXGI_FORMAT_UNKNOWN])
    } else if format == DXGI_FORMAT_A8_UNORM {
        Some(vec![DXGI_FORMAT_A8_UNORM, DXGI_FORMAT_R8_UNORM, DXGI_FORMAT_R8G8_UNORM, DXGI_FORMAT_R8G8B8A8_UNORM, DXGI_FORMAT_B8G8R8A8_UNORM, DXGI_FORMAT_UNKNOWN])
    } else if format == DXGI_FORMAT_R8_UNORM {
        Some(vec![DXGI_FORMAT_R8_UNORM, DXGI_FORMAT_A8_UNORM, DXGI_FORMAT_R8G8_UNORM, DXGI_FORMAT_R8G8B8A8_UNORM, DXGI_FORMAT_B8G8R8A8_UNORM, DXGI_FORMAT_UNKNOWN])
    } else {
        None
    };
    proof {
        match r {
            Some(ref v) => {
                assert(spec_format_fallback_list(format) =~= Some(v@));
            },
            None => {},
        }
    }
    r
}

/// The formats to try for `format`: its fallback list, or the format itself then `UNKNOWN`.
pub fn format_candidates(format: u32) -> (r: Vec<u32>)
    ensures
        r@ == spec_format_candidates(format),
{
    match format_fallback_list(format) {
        Some(v) => v,
        None => {
            let v = vec![format, DXGI_FORMAT_UNKNOWN];
            assert(v@ =~= seq![format, DXGI_FORMAT_UNKNOWN]);
            v
        },
    }
}

/// Whether the support flags `support` hold every flag of `mask`.
pub open spec fn supports_all(support: u32, mask: u32) -> bool {
    support & mask == mask
}

/// The first candidate whose support, as the device reports it, holds every flag of
/// `mask`; `UNKNOWN` when none does. `support[i]` is the support of candidate `i`,
/// `None` when the device refused the query.
pub open spec fn first_supported(candidates: Seq<u32>, support: Seq<Option<u32>>, mask: u32) -> u32
    decreases candidates.len(),
{
    if candidates.len() == 0 || support.len() == 0 {
        DXGI_FORMAT_UNKNOWN
    } else if support[0] is Some && supports_all(support[0]->Some_0, mask) {
        candidates[0]
    } else {
        first_supported(candidates.drop_first(), support.drop_first(), mask)
    }
}

/// The first candidate whose reported support holds every flag of `mask`, or `UNKNOWN`.
pub fn pick_supported(candidates: &Vec<u32>, support: &Vec<Option<u32>>, mask: u32) -> (r: u32)
    requires
        support@.len() == candidates@.len(),
    ensures
        r == first_supported(candidates@, support@, mask),
{
    let mut i: usize = 0;
    assert(candidates@.skip(0) =~= candidates@ && support@.skip(0) =~= support@);
    while i < candidates.len()
        invariant
            i <= candidates@.len(),
            support@.len() == candidates@.len(),
            first_supported(candidates@, support@, mask) == first_supported(candidates@.skip(i as int), support@.skip(i as int), mask),
        decreases candidates@.len() - i,
    {
        assert(candidates@.skip(i as int).drop_first() =~= candidates@.skip(i + 1));
        assert(support@.skip(i as int).drop_first() =~= support@.skip(i + 1));
        if let Some(s) = support[i] {
            if s & mask == mask {
                return candidates[i];
            }
        }
        i = i + 1;
    }
    DXGI_FORMAT_UNKNOWN
}

/// Every format is tried first as itself, the one exception being RetroArch's number for
/// A4R4G4B4, which is tried first as B4G4R4A4; every candidate list is non-empty and ends
/// in `UNKNOWN`.
pub proof fn law_format_tried_first_as_itself(format: u32)
    ensures
        spec_format_candidates(format).len() >= 2,
        spec_format_candidates(format).last() == DXGI_FORMAT_UNKNOWN,
        format != DXGI_FORMAT_EX_A4R4G4B4_UNORM ==> spec_format_candidates(format)[0] == format,
        format == DXGI_FORMAT_EX_A4R4G4B4_UNORM ==> spec_format_candidates(format)[0] == DXGI_FORMAT_B4G4R4A4_UNORM,
{
}

/// When the device's support for the first candidate holds every required flag, that
/// candidate is chosen: a supported format is chosen as itself.
pub proof fn law_supported_first_candidate_is_chosen(candidates: Seq<u32>, support: Seq<Option<u32>>, mask: u32)
    requires
        candidates.len() > 0,
        support.len() > 0,
        support[0] matches Some(s) && supports_all(s, mask),
    ensures
        first_supported(candidates, support, mask) == candidates[0],
{
}

/// Whatever is chosen is one of the candidates, or `UNKNOWN`, and its support holds every
/// required flag unless it is `UNKNOWN` from running out of candidates.
pub proof fn law_chosen_format_is_a_supported_candidate(candidates: Seq<u32>, support: Seq<Option<u32>>, mask: u32)
    ensures
        first_supported(candidates, support, mask) == DXGI_FORMAT_UNKNOWN
            || exists|i: int| 0 <= i < candidates.len() && i < support.len()
                && candidates[i] == first_supported(candidates, support, mask)
                && (support[i] matches Some(s) && supports_all(s, mask)),
    decreases candidates.len(),
{
    if candidates.len() == 0 || support.len() == 0 {
    } else if support[0] is Some && supports_all(support[0]->Some_0, mask) {
        assert(candidates[0] == first_supported(candidates, support, mask));
    } else {
        law_chosen_format_is_a_supported_candidate(candidates.drop_first(), support.drop_first(), mask);
        if first_supported(candidates, support, mask) != DXGI_FORMAT_UNKNOWN {
            let i = choose|i: int| 0 <= i < candidates.drop_first().len() && i < support.drop_first().len()
                && candidates.drop_first()[i] == first_supported(candidates.drop_first(), support.drop_first(), mask)
                && (support.drop_first()[i] matches Some(s) && supports_all(s, mask));
            assert(candidates[i + 1] == candidates.drop_first()[i]);
            assert(support[i + 1] == support.drop_first()[i]);
        }
    }
}

/// The format of a pass's framebuffer: the preset's override when it has one, else the
/// format the shader declares, with `R8G8B8A8_UNORM` for a shader that declares none.
pub fn get_format(format_override: Option<u32>, source_format: u32) -> (r: u32)
    ensures
        r == (match format_override {
            Some(f) => f,
            None => if source_format == DXGI_FORMAT_UNKNOWN { DXGI_FORMAT_R8G8B8A8_UNORM } else { source_format },
        }),
{
    match format_override {
        Some(f) => f,
        None => if source_format == DXGI_FORMAT_UNKNOWN { DXGI_FORMAT_R8G8B8A8_UNORM } else { source_format },
    }
}

} // verus!
