use crate::reflect::semantics::MemberOffset;
use spirv_cross2::SpirvCrossError;
use vstd::prelude::*;

verus! {

#[verifier::external_type_specification]
#[verifier::external_body]
pub struct ExSpirvCrossError(SpirvCrossError);

/// The specific way a shader stage broke the reflection rules.
#[derive(Debug)]
pub enum SemanticsErrorKind {
    InvalidUniformBufferCount(usize),
    InvalidPushBufferSize(u32),
    InvalidLocation(u32),
    InvalidDescriptorSet(u32),
    InvalidInputCount(usize),
    InvalidOutputCount(usize),
    InvalidBinding(u32),
    InvalidResourceType,
    InvalidRange(u32),
    UnknownSemantics(String),
    InvalidTypeForSemantic(String),
}

/// Errors that arise while reflecting a shader pass.
#[derive(Debug)]
pub enum ShaderReflectError {
    /// The reflection backend failed.
    SpirvCrossError(SpirvCrossError),
    /// The SPIR-V binary could not be parsed.
    RspirvParseError(String),
    /// The vertex stage broke a rule.
    VertexSemanticError(SemanticsErrorKind),
    /// The fragment stage broke a rule.
    FragmentSemanticError(SemanticsErrorKind),
    /// The two stages bind their uniform buffers differently.
    MismatchedUniformBuffer { vertex: u32, fragment: u32 },
    /// A pass reads the output of itself or a later pass.
    NonCausalFilterChain { pass: usize, target: usize },
    /// The two stages place a uniform at different offsets.
    MismatchedOffset { semantic: String, vertex: MemberOffset, fragment: MemberOffset },
    /// The two stages give a uniform different component counts.
    MismatchedComponent { semantic: String, vertex: u32, fragment: u32 },
    /// A texture binding is already used.
    BindingInUse(u32),
}

/// Errors that arise while compiling a shader.
#[derive(Debug)]
pub enum ShaderCompileError {
    /// The shader compiler could not be started.
    ShaderCInitError,
    /// The compilation backend failed.
    SpirvCrossCompileError(SpirvCrossError),
}

} // verus!
