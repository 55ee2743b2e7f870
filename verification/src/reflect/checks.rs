use crate::error::{SemanticsErrorKind, ShaderReflectError};
use crate::reflect::semantics::{
    BindingStage, PushReflection, TextureSemantics, TypeInfo, UboReflection, VariableSemantics,
    MAX_BINDINGS_COUNT, MAX_PUSH_BUFFER_SIZE,
};
use vstd::prelude::*;

verus! {

/// The stage that an error is blamed on.
#[derive(Debug, Clone, Copy, PartialEq, Eq, Structural)]
pub enum SemanticErrorBlame {
    Vertex,
    Fragment,
}

impl SemanticErrorBlame {
    pub open spec fn spec_error(self, kind: SemanticsErrorKind) -> ShaderReflectError {
        match self {
            SemanticErrorBlame::Vertex => ShaderReflectError::VertexSemanticError(kind),
            SemanticErrorBlame::Fragment => ShaderReflectError::FragmentSemanticError(kind),
        }
    }

    /// Wraps `kind` in the error of the blamed stage.
    pub fn error(self, kind: SemanticsErrorKind) -> (r: ShaderReflectError)
        ensures
            r == self.spec_error(kind),
    {
        match self {
            SemanticErrorBlame::Vertex => ShaderReflectError::VertexSemanticError(kind),
            SemanticErrorBlame::Fragment => ShaderReflectError::FragmentSemanticError(kind),
        }
    }

    pub open spec fn spec_stage(self) -> u8 {
        match self {
            SemanticErrorBlame::Vertex => 1,
            SemanticErrorBlame::Fragment => 2,
        }
    }

    /// The stage flag of the blamed stage.
    pub fn stage(self) -> (r: BindingStage)
        ensures
            r.bits == self.spec_stage(),
    {
        match self {
            SemanticErrorBlame::Vertex => BindingStage::vertex(),
            SemanticErrorBlame::Fragment => BindingStage::fragment(),
        }
    }
}

/// The scalar kind of a uniform's type.
#[derive(Debug, Clone, Copy, PartialEq, Eq, Structural)]
pub enum ScalarClass {
    Float,
    Int,
    UInt,
    Other,
}

/// The shape of a uniform's type as reflection reads it.
#[derive(Debug, Clone, Copy, PartialEq, Eq, Structural)]
pub struct UniformTypeDesc {
    pub kind: ScalarClass,
    /// The number of rows (1 for a scalar).
    pub vecsize: u32,
    /// The number of columns (1 for a scalar or a vector).
    pub columns: u32,
    pub is_array: bool,
}

/// Semantics that accept only some uniform types.
pub trait ValidateTypeSemantics<T> {
    spec fn spec_validate_type(&self, ty: T) -> Option<TypeInfo>;

    fn validate_type(&self, ty: &T) -> (r: Option<TypeInfo>)
        ensures
            r == self.spec_validate_type(*ty),
    ;
}

impl ValidateTypeSemantics<UniformTypeDesc> for VariableSemantics {
    /// MVP is a float 4x4 matrix, the frame count a uint, the frame direction an int,
    /// a parameter a float, the sizes float 4-vectors; arrays never fit.
    open spec fn spec_validate_type(&self, ty: UniformTypeDesc) -> Option<TypeInfo> {
        if ty.is_array || ty.kind == ScalarClass::Other {
            None
        } else {
            let valid = match *self {
                VariableSemantics::MVP => ty.kind == ScalarClass::Float && ty.vecsize == 4 && ty.columns == 4,
                VariableSemantics::FrameCount => ty.kind == ScalarClass::UInt && ty.vecsize == 1 && ty.columns == 1,
                VariableSemantics::FrameDirection => ty.kind == ScalarClass::Int && ty.vecsize == 1 && ty.columns == 1,
                VariableSemantics::FloatParameter => ty.kind == ScalarClass::Float && ty.vecsize == 1 && ty.columns == 1,
                _ => ty.kind == ScalarClass::Float && ty.vecsize == 4 && ty.columns == 1,
            };
            if valid {
                Some(TypeInfo { size: ty.vecsize, columns: ty.columns })
            } else {
                None
            }
        }
    }

    fn validate_type(&self, ty: &UniformTypeDesc) -> (r: Option<TypeInfo>) {
        if ty.is_array || ty.kind == ScalarClass::Other {
            return None;
        }
        let valid = match self {
            VariableSemantics::MVP => ty.kind == ScalarClass::Float && ty.vecsize == 4 && ty.columns == 4,
            VariableSemantics::FrameCount => ty.kind == ScalarClass::UInt && ty.vecsize == 1 && ty.columns == 1,
            VariableSemantics::FrameDirection => ty.kind == ScalarClass::Int && ty.vecsize == 1 && ty.columns == 1,
            VariableSemantics::FloatParameter => ty.kind == ScalarClass::Float && ty.vecsize == 1 && ty.columns == 1,
            _ => ty.kind == ScalarClass::Float && ty.vecsize == 4 && ty.columns == 1,
        };
        if valid {
            Some(TypeInfo { size: ty.vecsize, columns: ty.columns })
        } else {
            None
        }
    }
}

impl ValidateTypeSemantics<UniformTypeDesc> for TextureSemantics {
    /// Every texture size is a float 4-vector.
    open spec fn spec_validate_type(&self, ty: UniformTypeDesc) -> Option<TypeInfo> {
        if ty.kind == ScalarClass::Float && !ty.is_array && ty.vecsize == 4 && ty.columns == 1 {
            Some(TypeInfo { size: ty.vecsize, columns: ty.columns })
        } else {
            None
        }
    }

    fn validate_type(&self, ty: &UniformTypeDesc) -> (r: Option<TypeInfo>) {
        if ty.kind == ScalarClass::Float && !ty.is_array && ty.vecsize == 4 && ty.columns == 1 {
            Some(TypeInfo { size: ty.vecsize, columns: ty.columns })
        } else {
            None
        }
    }
}

/// A uniform buffer that passed its checks.
#[derive(Debug, Clone, Copy, PartialEq, Eq, Structural)]
pub struct UboData {
    pub id: u32,
    pub descriptor_set: u32,
    pub binding: u32,
    pub size: u32,
}

/// Checks the decorations of a uniform buffer: its binding must be below
/// `MAX_BINDINGS_COUNT` and its descriptor set 0 (in that order).
pub fn check_ubo_data(id: u32, descriptor_set: u32, binding: u32, size: u32, blame: SemanticErrorBlame) -> (r: Result<UboData, ShaderReflectError>)
    ensures
        binding >= MAX_BINDINGS_COUNT ==> r == Err::<UboData, _>(blame.spec_error(SemanticsErrorKind::InvalidBinding(binding))),
        binding < MAX_BINDINGS_COUNT && descriptor_set != 0 ==> r == Err::<UboData, _>(blame.spec_error(SemanticsErrorKind::InvalidDescriptorSet(descriptor_set))),
        binding < MAX_BINDINGS_COUNT && descriptor_set == 0 ==> r == Ok::<_, ShaderReflectError>(UboData { id, descriptor_set, binding, size }),
{
    if binding >= MAX_BINDINGS_COUNT {
        return Err(blame.error(SemanticsErrorKind::InvalidBinding(binding)));
    }
    if descriptor_set != 0 {
        return Err(blame.error(SemanticsErrorKind::InvalidDescriptorSet(descriptor_set)));
    }
    Ok(UboData { id, descriptor_set, binding, size })
}

/// Checks the size of a push constant buffer: it must be below `MAX_PUSH_BUFFER_SIZE`.
pub fn check_push_size(size: u32, blame: SemanticErrorBlame) -> (r: Result<u32, ShaderReflectError>)
    ensures
        size >= MAX_PUSH_BUFFER_SIZE ==> r == Err::<u32, _>(blame.spec_error(SemanticsErrorKind::InvalidPushBufferSize(size))),
        size < MAX_PUSH_BUFFER_SIZE ==> r == Ok::<_, ShaderReflectError>(size),
{
    if size >= MAX_PUSH_BUFFER_SIZE {
        return Err(blame.error(SemanticsErrorKind::InvalidPushBufferSize(size)));
    }
    Ok(size)
}

pub open spec fn max_u32(a: u32, b: u32) -> u32 {
    if a >= b { a } else { b }
}

/// The size of a buffer as reflection gives it: rounded up to a multiple of 16. A size
/// past the last multiple of 16 that fits in 32 bits gives that multiple.
pub open spec fn spec_aligned_buffer_size(size: u32) -> u32 {
    if size <= u32::MAX - 15 {
        (((size as int + 15) / 16) * 16) as u32
    } else {
        0xffff_fff0u32
    }
}

/// Rounds a buffer size up to a multiple of 16.
pub fn aligned_buffer_size(size: u32) -> (r: u32)
    ensures
        r == spec_aligned_buffer_size(size),
        r % 16 == 0,
{
    if size <= u32::MAX - 15 {
        crate::align_uniform_size(size)
    } else {
        0xffff_fff0u32
    }
}

/// Combines the checked uniform buffers of the two stages: both must use the same
/// binding, and the buffer is as large as the larger one, rounded up to a multiple of
/// 16, and bound in the stages that have it.
pub fn merge_ubos(vertex: Option<UboData>, fragment: Option<UboData>) -> (r: Result<Option<UboReflection>, ShaderReflectError>)
    ensures
        match (vertex, fragment) {
            (None, None) => r matches Ok(None),
            (Some(v), Some(f)) => if v.binding != f.binding {
                r == Err::<Option<UboReflection>, _>(ShaderReflectError::MismatchedUniformBuffer { vertex: v.binding, fragment: f.binding })
            } else {
                r matches Ok(Some(u)) && u.binding == v.binding && u.size == spec_aligned_buffer_size(max_u32(v.size, f.size)) && u.stage_mask.bits == 3
            },
            (Some(v), None) => r matches Ok(Some(u)) && u.binding == v.binding && u.size == spec_aligned_buffer_size(v.size) && u.stage_mask.bits == 1,
            (None, Some(f)) => r matches Ok(Some(u)) && u.binding == f.binding && u.size == spec_aligned_buffer_size(f.size) && u.stage_mask.bits == 2,
        },
        r matches Ok(Some(u)) ==> u.size % 16 == 0,
{
    match (vertex, fragment) {
        (None, None) => Ok(None),
        (Some(v), Some(f)) => {
            if v.binding != f.binding {
                return Err(ShaderReflectError::MismatchedUniformBuffer { vertex: v.binding, fragment: f.binding });
            }
            let size = aligned_buffer_size(if v.size >= f.size { v.size } else { f.size });
            let stage_mask = BindingStage::vertex().union(BindingStage::fragment());
            assert(1u8 | 2u8 == 3u8) by (bit_vector);
            Ok(Some(UboReflection { binding: v.binding, size, stage_mask }))
        },
        (Some(v), None) => Ok(Some(UboReflection { binding: v.binding, size: aligned_buffer_size(v.size), stage_mask: BindingStage::vertex() })),
        (None, Some(f)) => Ok(Some(UboReflection { binding: f.binding, size: aligned_buffer_size(f.size), stage_mask: BindingStage::fragment() })),
    }
}

/// Combines the checked push constant sizes of the two stages: the larger, rounded up to
/// a multiple of 16, for the stages that have one.
pub fn merge_push_sizes(vertex: Option<u32>, fragment: Option<u32>) -> (r: Option<PushReflection>)
    ensures
        match (vertex, fragment) {
            (None, None) => r is None,
            (Some(v), Some(f)) => r matches Some(p) && p.size == spec_aligned_buffer_size(max_u32(v, f)) && p.stage_mask.bits == 3,
            (Some(v), None) => r matches Some(p) && p.size == spec_aligned_buffer_size(v) && p.stage_mask.bits == 1,
            (None, Some(f)) => r matches Some(p) && p.size == spec_aligned_buffer_size(f) && p.stage_mask.bits == 2,
        },
        r matches Some(p) ==> p.size % 16 == 0,
{
    match (vertex, fragment) {
        (None, None) => None,
        (Some(v), Some(f)) => {
            let size = aligned_buffer_size(if v >= f { v } else { f });
            assert(1u8 | 2u8 == 3u8) by (bit_vector);
            Some(PushReflection { size, stage_mask: BindingStage::vertex().union(BindingStage::fragment()) })
        },
        (Some(v), None) => Some(PushReflection { size: aligned_buffer_size(v), stage_mask: BindingStage::vertex() }),
        (None, Some(f)) => Some(PushReflection { size: aligned_buffer_size(f), stage_mask: BindingStage::fragment() }),
    }
}

/// Checks the decorations of a sampled texture: descriptor set 0, then a binding
/// below `MAX_BINDINGS_COUNT`; gives the binding.
pub fn check_texture_binding(descriptor_set: u32, binding: u32) -> (r: Result<u32, ShaderReflectError>)
    ensures
        descriptor_set != 0 ==> r == Err::<u32, _>(ShaderReflectError::FragmentSemanticError(SemanticsErrorKind::InvalidDescriptorSet(descriptor_set))),
        descriptor_set == 0 && binding >= MAX_BINDINGS_COUNT ==> r == Err::<u32, _>(ShaderReflectError::FragmentSemanticError(SemanticsErrorKind::InvalidBinding(binding))),
        descriptor_set == 0 && binding < MAX_BINDINGS_COUNT ==> r == Ok::<_, ShaderReflectError>(binding),
{
    if descriptor_set != 0 {
        return Err(ShaderReflectError::FragmentSemanticError(SemanticsErrorKind::InvalidDescriptorSet(descriptor_set)));
    }
    if binding >= MAX_BINDINGS_COUNT {
        return Err(ShaderReflectError::FragmentSemanticError(SemanticsErrorKind::InvalidBinding(binding)));
    }
    Ok(binding)
}

/// Whether binding `b` is taken in `mask`.
pub open spec fn binding_taken(mask: u16, b: u32) -> bool {
    (mask >> (b as u16)) & 1 == 1
}

/// Claims binding `binding` in `mask`: an error if it is taken, else the mask with it taken.
pub fn claim_binding(mask: u16, binding: u32) -> (r: Result<u16, ShaderReflectError>)
    requires
        binding < 16,
    ensures
        binding_taken(mask, binding) ==> r == Err::<u16, _>(ShaderReflectError::BindingInUse(binding)),
        !binding_taken(mask, binding) ==> (r matches Ok(m) && binding_taken(m, binding) && forall|b: u32|
            b < 16 && b != binding ==> (binding_taken(m, b) == binding_taken(mask, b))),
{
    let bit: u16 = 1u16 << (binding as u16);
    let b16 = binding as u16;
    assert(bit == 1u16 << b16);
    if mask & bit != 0 {
        assert(binding_taken(mask, binding)) by {
            assert(b16 < 16 && bit == 1u16 << b16 && mask & bit != 0 ==> (mask >> b16) & 1 == 1) by (bit_vector);
        }
        return Err(ShaderReflectError::BindingInUse(binding));
    }
    let m = mask | bit;
    assert(!binding_taken(mask, binding)) by {
        assert(b16 < 16 && bit == 1u16 << b16 && mask & bit == 0 ==> (mask >> b16) & 1 != 1) by (bit_vector);
    }
    assert(b16 < 16 && bit == 1u16 << b16 && m == mask | bit ==> (m >> b16) & 1 == 1) by (bit_vector);
    assert forall|b: u32| b < 16 && b != binding implies (binding_taken(m, b) == binding_taken(mask, b)) by {
        let c = b as u16;
        assert(c < 16 && b16 < 16 && c != b16 && bit == 1u16 << b16 && m == mask | bit ==> ((m >> c) & 1 == (mask >> c) & 1)) by (bit_vector);
    }
    Ok(m)
}

/// The mask with only the uniform buffer's binding taken, or none taken without one.
pub fn ubo_binding_mask(ubo: &Option<UboReflection>) -> (r: u16)
    requires
        ubo matches Some(u) ==> u.binding < 16,
    ensures
        match ubo {
            Some(u) => forall|b: u32| b < 16 ==> (binding_taken(r, b) == (b == u.binding)),
            None => forall|b: u32| b < 16 ==> !binding_taken(r, b),
        },
{
    match ubo {
        Some(u) => {
            let r = claim_binding(0, u.binding);
            assert forall|b: u32| b < 16 implies !binding_taken(0, b) by {
                let c = b as u16;
                assert(c < 16 ==> (0u16 >> c) & 1 != 1) by (bit_vector);
            }
            match r {
                Ok(m) => m,
                Err(_) => 0,
            }
        },
        None => {
            assert forall|b: u32| b < 16 implies !binding_taken(0, b) by {
                let c = b as u16;
                assert(c < 16 ==> (0u16 >> c) & 1 != 1) by (bit_vector);
            }
            0
        },
    }
}

} // verus!
