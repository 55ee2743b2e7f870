//! Writing SPIR-V: the words pass through unchanged, and reflection goes through
//! SPIRV-Cross for GLSL.

use crate::back::targets::SpirV;
use crate::back::{CompileShader, CompilerBackend, FromCompilation, ReflectShader, ShaderCompilerOutput};
use crate::error::{ShaderCompileError, ShaderReflectError};
use crate::front::SpirvCompilation;
use crate::reflect::cross::CrossReflect;
use crate::reflect::semantics::{ReflectSemantics, ShaderReflection};
use spirv_cross2::targets::Glsl;
use vstd::prelude::*;

verus! {

/// A backend that hands back the SPIR-V words it was given.
pub struct WriteSpirV {
    /// Reflection, through SPIRV-Cross for GLSL.
    pub reflect: CrossReflect<Glsl>,
    pub vertex: Vec<u32>,
    pub fragment: Vec<u32>,
}

impl ReflectShader for WriteSpirV {
    fn reflect(&mut self, pass_number: usize, semantics: &ReflectSemantics) -> Result<ShaderReflection, ShaderReflectError> {
        self.reflect.reflect(pass_number, semantics)
    }
}

impl CompileShader<SpirV> for WriteSpirV {
    type Options = Option<()>;
    type Context = ();

    /// The words of both stages, handed back.
    open spec fn compiles_to(&self, options: Option<()>, r: Result<ShaderCompilerOutput<Vec<u32>, ()>, ShaderCompileError>) -> bool {
        r matches Ok(out) && out.vertex@ == self.vertex@ && out.fragment@ == self.fragment@
    }

    /// Hands back the words of both stages.
    fn compile(self, options: Option<()>) -> (r: Result<ShaderCompilerOutput<Vec<u32>, ()>, ShaderCompileError>)
        ensures
            r matches Ok(out) && out.vertex@ == self.vertex@ && out.fragment@ == self.fragment@,
    {
        Ok(ShaderCompilerOutput { vertex: self.vertex, fragment: self.fragment, context: () })
    }
}

impl FromCompilation<SpirvCompilation> for SpirV {
    type Target = SpirV;
    type Options = Option<()>;
    type Context = ();
    type Output = WriteSpirV;

    /// Parses both stages with SPIRV-Cross for reflection, keeping the words.
    fn from_compilation(compile: SpirvCompilation) -> (r: Result<CompilerBackend<WriteSpirV>, ShaderReflectError>)
        ensures
            r matches Ok(b) ==> b.inner().vertex@ == compile.vertex@ && b.inner().fragment@ == compile.fragment@,
            r matches Err(e) ==> e is SpirvCrossError,
    {
        let reflect = CrossReflect::<Glsl>::from_spirv(&compile)?;
        Ok(CompilerBackend { backend: WriteSpirV { reflect, vertex: compile.vertex, fragment: compile.fragment } })
    }
}

} // verus!
