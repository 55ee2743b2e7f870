use crate::back::FromCompilation;
use crate::error::ShaderReflectError;
use crate::front::{GlslangCompilation, SpirvCompilation};
use crate::reflect::cross::glsl_compiler_accepts;
use vstd::prelude::*;

verus! {

/// The targets a shader can be compiled for.
pub trait OutputTarget {
    /// What the compiler produces for the target.
    type Output;
}

/// Shader compiler target for GLSL.
pub struct GLSL;

/// Shader compiler target for HLSL.
pub struct HLSL;

/// Shader compiler target for SPIR-V.
pub struct SpirV;

/// Shader compiler target for MSL.
pub struct MSL;

impl OutputTarget for GLSL {
    type Output = String;
}

impl OutputTarget for HLSL {
    type Output = String;
}

impl OutputTarget for SpirV {
    type Output = Vec<u32>;
}

impl OutputTarget for MSL {
    type Output = String;
}

/// Compiler options for MSL through naga.
#[derive(Debug, Default, Clone)]
pub struct MslNagaCompileOptions {
    pub sampler_bind_group: u32,
}

/// Compiler options for WGSL.
#[derive(Debug, Default, Clone)]
pub struct WgslCompileOptions {
    pub write_pcb_as_ubo: bool,
    pub sampler_bind_group: u32,
}

/// Checks that a glslang compilation converts into a GLSL backend; it succeeds only where
/// SPIRV-Cross accepts both stages.
pub fn test_compile(value: GlslangCompilation) -> (r: Result<(), ShaderReflectError>)
    ensures
        r is Ok ==> glsl_compiler_accepts(value.vertex@) && glsl_compiler_accepts(value.fragment@),
        r matches Err(e) ==> e is SpirvCrossError,
{
    let spirv = SpirvCompilation { vertex: value.vertex, fragment: value.fragment };
    GLSL::from_compilation(spirv)?;
    Ok(())
}

} // verus!
