//! The compilations that reflection starts from, and the passes over their SPIR-V.

pub mod spirv_passes;

use vstd::prelude::*;

verus! {

/// The output of a shader compiler that can be reflected.
pub trait ShaderReflectObject: Sized {
    /// The compiler that produces it.
    type Compiler;
}

/// A shader compilation to SPIR-V words, ready for reflection.
#[derive(Debug, Clone)]
pub struct SpirvCompilation {
    pub vertex: Vec<u32>,
    pub fragment: Vec<u32>,
}

/// A shader compilation to SPIR-V words by glslang.
#[derive(Debug, Clone)]
pub struct GlslangCompilation {
    pub vertex: Vec<u32>,
    pub fragment: Vec<u32>,
}

/// The WGSL front end, which compiles WGSL sources with naga.
pub struct NagaWgsl;

} // verus!
