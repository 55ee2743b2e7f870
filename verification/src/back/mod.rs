//! Compiling reflected shaders for the output targets.

pub mod cross;
pub mod hlsl;
pub mod spirv;
pub mod targets;

use crate::back::targets::OutputTarget;
use crate::error::{ShaderCompileError, ShaderReflectError};
use crate::reflect::semantics::{texture_bindings_consistent, ReflectSemantics, ShaderReflection};
use vstd::prelude::*;

verus! {

/// What the shader compiler produced for both stages.
#[derive(Debug)]
pub struct ShaderCompilerOutput<T, Context = ()> {
    /// The output for the vertex shader.
    pub vertex: T,
    /// The output for the fragment shader.
    pub fragment: T,
    /// What else the compiler hands back.
    pub context: Context,
}

/// Objects that compile into a shader for the target `T`.
pub trait CompileShader<T: OutputTarget> {
    /// The options that the compiler takes.
    type Options;
    /// What else the compiler returns.
    type Context;

    /// Whether `r` is what compiling the object with `options` gives, as far as the
    /// backend states it.
    spec fn compiles_to(&self, options: Self::Options, r: Result<ShaderCompilerOutput<T::Output, Self::Context>, ShaderCompileError>) -> bool;

    /// Compiles the shader, consuming the object.
    fn compile(self, options: Self::Options) -> (r: Result<ShaderCompilerOutput<T::Output, Self::Context>, ShaderCompileError>)
        ensures
            self.compiles_to(options, r),
    ;
}

/// Compilation outputs that can be reflected.
pub trait ReflectShader {
    /// Reflects the shader as the pass `pass_number` of a preset, against `semantics`.
    /// The texture bindings of a reflection can all be bound at once.
    fn reflect(&mut self, pass_number: usize, semantics: &ReflectSemantics) -> (r: Result<ShaderReflection, ShaderReflectError>)
        ensures
            r matches Ok(refl) ==> texture_bindings_consistent(refl),
    ;
}

/// A compiler backend, ready to reflect and compile.
pub struct CompilerBackend<T> {
    pub(crate) backend: T,
}

impl<T> CompilerBackend<T> {
    /// The backend held.
    pub closed spec fn inner(&self) -> T {
        self.backend
    }
}

impl<T, E> CompileShader<E> for CompilerBackend<T> where T: CompileShader<E>, E: OutputTarget {
    type Options = T::Options;
    type Context = T::Context;

    /// What the backend held gives.
    open spec fn compiles_to(&self, options: Self::Options, r: Result<ShaderCompilerOutput<E::Output, Self::Context>, ShaderCompileError>) -> bool {
        self.inner().compiles_to(options, r)
    }

    fn compile(self, options: Self::Options) -> Result<ShaderCompilerOutput<E::Output, Self::Context>, ShaderCompileError> {
        self.backend.compile(options)
    }
}

impl<T> ReflectShader for CompilerBackend<T> where T: ReflectShader {
    fn reflect(&mut self, pass_number: usize, semantics: &ReflectSemantics) -> Result<ShaderReflection, ShaderReflectError> {
        self.backend.reflect(pass_number, semantics)
    }
}

/// Compilations that convert into a backend for a target.
pub trait FromCompilation<T> {
    /// The target that the backend compiles for.
    type Target: OutputTarget;
    /// The options that the compiler takes.
    type Options;
    /// What else the compiler returns.
    type Context;
    /// The backend.
    type Output;

    /// Converts the compilation into a backend.
    fn from_compilation(compile: T) -> Result<CompilerBackend<Self::Output>, ShaderReflectError>;
}

/// Reflect objects that create a reflection and compilation backend for a target.
pub trait ShaderOutputCompiler<O, T: OutputTarget, Opt, Ctx> {
    /// The backend.
    type Output;

    /// Creates the backend from the compiled object.
    fn create_reflection(compiled: O) -> Result<Self::Output, ShaderReflectError>;
}

} // verus!
