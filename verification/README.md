# librashader_reflect

Reflection and compilation of RetroArch slang shader passes, with the decisions of the
Direct3D 11 and 12 runtimes that need no device, verified with Verus.

Layout:

- `src/front/spirv_passes/`: a model of SPIR-V modules and the passes over it: splitting
  array interface variables, hardening `Normalize` calls, lowering implicit-LOD samples in
  non-uniform loops, and linking the vertex outputs to the fragment inputs.
- `src/reflect/`: semantics, preset semantics, the reflection rules, and reflection through
  SPIRV-Cross (`spirv_cross2`).
- `src/back/`: the output targets: GLSL, HLSL (with the lowering the shader model needs),
  MSL and SPIR-V.
- `src/runtime/`: format fallbacks, descriptor heap slots, frame planning, the frame
  history, and the textures and uniforms each pass binds.
- `tests/`: tests that run the library with the outside crates linked.
- `app/`: the conversion between rspirv's module and the library's model of it (parsing
  and assembling SPIR-V words), the HLSL compile that hands that conversion to
  `HlslCompileShader::compile_lowered` as its rewrite, and copies of the library's types
  with serde and thiserror derives. The conversion walks every operand kind of rspirv's
  opaque types, which is more than a short trusted wrapper can hold; the library states
  what it needs of the rewrite through the closure's own `ensures`.
