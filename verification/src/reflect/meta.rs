use crate::reflect::semantics::{
    BindingStage,
    MemberOffset, SemanticMap, TextureBinding, TextureSemantics, TextureSizeMeta, VariableMeta,
    VariableSemantics,
};
use rustc_hash::FxHashMap;
use vstd::prelude::*;

verus! {

/// The entries of a map from parameter names to their metadata.
pub uninterp spec fn parameter_entries(m: FxHashMap<String, VariableMeta>) -> Map<Seq<char>, VariableMeta>;

/// The entries of a map from built-in variables to their metadata.
pub uninterp spec fn variable_entries(m: FxHashMap<VariableSemantics, VariableMeta>) -> Map<VariableSemantics, VariableMeta>;

/// The entries of a map from texture semantics to the metadata of their size uniforms.
pub uninterp spec fn texture_size_entries(m: FxHashMap<SemanticMap<TextureSemantics>, TextureSizeMeta>) -> Map<SemanticMap<TextureSemantics>, TextureSizeMeta>;

/// The entries of a map from texture semantics to their bindings.
pub uninterp spec fn texture_binding_entries(m: FxHashMap<SemanticMap<TextureSemantics>, TextureBinding>) -> Map<SemanticMap<TextureSemantics>, TextureBinding>;

/// Creates an empty map with `FxHashMap::default`.
#[verifier::external_body]
fn new_parameter_map() -> (r: FxHashMap<String, VariableMeta>)
    ensures
        parameter_entries(r).dom().is_empty(),
{
    FxHashMap::default()
}

/// Creates an empty map with `FxHashMap::default`.
#[verifier::external_body]
fn new_variable_map() -> (r: FxHashMap<VariableSemantics, VariableMeta>)
    ensures
        variable_entries(r).dom().is_empty(),
{
    FxHashMap::default()
}

/// Creates an empty map with `FxHashMap::default`.
#[verifier::external_body]
fn new_texture_size_map() -> (r: FxHashMap<SemanticMap<TextureSemantics>, TextureSizeMeta>)
    ensures
        texture_size_entries(r).dom().is_empty(),
{
    FxHashMap::default()
}

/// Creates an empty map with `FxHashMap::default`.
#[verifier::external_body]
fn new_texture_binding_map() -> (r: FxHashMap<SemanticMap<TextureSemantics>, TextureBinding>)
    ensures
        texture_binding_entries(r).dom().is_empty(),
{
    FxHashMap::default()
}

/// Looks a parameter up with `HashMap::get` and reads its offset and component count.
#[verifier::external_body]
pub(crate) fn parameter_meta_get(m: &FxHashMap<String, VariableMeta>, name: &str) -> (r: Option<(MemberOffset, u32)>)
    ensures
        r == (match parameter_entries(*m).get(name@) {
            Some(v) => Some((v.offset, v.components)),
            None => None,
        }),
{
    m.get(name).map(|v| (v.offset, v.components))
}

/// Inserts with `HashMap::insert`, which replaces any value under an equal key.
#[verifier::external_body]
pub(crate) fn parameter_meta_insert(m: &mut FxHashMap<String, VariableMeta>, key: String, value: VariableMeta)
    ensures
        parameter_entries(*final(m)) == parameter_entries(*old(m)).insert(key@, value),
{
    m.insert(key, value);
}

/// Looks a built-in variable up with `HashMap::get` and reads its offset and component count.
#[verifier::external_body]
pub(crate) fn variable_meta_get(m: &FxHashMap<VariableSemantics, VariableMeta>, key: VariableSemantics) -> (r: Option<(MemberOffset, u32)>)
    ensures
        r == (match variable_entries(*m).get(key) {
            Some(v) => Some((v.offset, v.components)),
            None => None,
        }),
{
    m.get(&key).map(|v| (v.offset, v.components))
}

/// Inserts with `HashMap::insert`, which replaces any value under an equal key.
#[verifier::external_body]
pub(crate) fn variable_meta_insert(m: &mut FxHashMap<VariableSemantics, VariableMeta>, key: VariableSemantics, value: VariableMeta)
    ensures
        variable_entries(*final(m)) == variable_entries(*old(m)).insert(key, value),
{
    m.insert(key, value);
}

/// Looks a texture size up with `HashMap::get` and reads its offset and stages.
#[verifier::external_body]
pub(crate) fn texture_size_meta_get(m: &FxHashMap<SemanticMap<TextureSemantics>, TextureSizeMeta>, key: SemanticMap<TextureSemantics>) -> (r: Option<(MemberOffset, BindingStage)>)
    ensures
        r == (match texture_size_entries(*m).get(key) {
            Some(v) => Some((v.offset, v.stage_mask)),
            None => None,
        }),
{
    m.get(&key).map(|v| (v.offset, v.stage_mask))
}

/// Removes with `HashMap::remove`, which hands back the value under the key, if any.
#[verifier::external_body]
pub(crate) fn texture_size_meta_remove(m: &mut FxHashMap<SemanticMap<TextureSemantics>, TextureSizeMeta>, key: SemanticMap<TextureSemantics>) -> (r: Option<TextureSizeMeta>)
    ensures
        r == texture_size_entries(*old(m)).get(key),
        texture_size_entries(*final(m)) == texture_size_entries(*old(m)).remove(key),
{
    m.remove(&key)
}

/// Inserts with `HashMap::insert`, which replaces any value under an equal key.
#[verifier::external_body]
pub(crate) fn texture_size_meta_insert(m: &mut FxHashMap<SemanticMap<TextureSemantics>, TextureSizeMeta>, key: SemanticMap<TextureSemantics>, value: TextureSizeMeta)
    ensures
        texture_size_entries(*final(m)) == texture_size_entries(*old(m)).insert(key, value),
{
    m.insert(key, value);
}

/// Inserts with `HashMap::insert`, which replaces any value under an equal key.
#[verifier::external_body]
pub(crate) fn texture_binding_insert(m: &mut FxHashMap<SemanticMap<TextureSemantics>, TextureBinding>, key: SemanticMap<TextureSemantics>, value: TextureBinding)
    ensures
        texture_binding_entries(*final(m)) == texture_binding_entries(*old(m)).insert(key, value),
{
    m.insert(key, value);
}

/// Looks a texture binding up with `HashMap::get`.
#[verifier::external_body]
pub(crate) fn texture_binding_get(m: &FxHashMap<SemanticMap<TextureSemantics>, TextureBinding>, key: SemanticMap<TextureSemantics>) -> (r: Option<TextureBinding>)
    ensures
        r == texture_binding_entries(*m).get(key),
{
    m.get(&key).copied()
}

/// The texture semantics that have a binding, each once, in the order the map is walked
/// (which is not specified).
#[verifier::external_body]
pub(crate) fn texture_binding_keys(m: &FxHashMap<SemanticMap<TextureSemantics>, TextureBinding>) -> (r: Vec<SemanticMap<TextureSemantics>>)
    ensures
        r@.to_set() == texture_binding_entries(*m).dom(),
        r@.no_duplicates(),
{
    m.keys().copied().collect()
}

/// The texture semantics that have a size uniform, each once, in the order the map is
/// walked (which is not specified).
#[verifier::external_body]
pub(crate) fn texture_size_keys(m: &FxHashMap<SemanticMap<TextureSemantics>, TextureSizeMeta>) -> (r: Vec<SemanticMap<TextureSemantics>>)
    ensures
        r@.to_set() == texture_size_entries(*m).dom(),
        r@.no_duplicates(),
{
    m.keys().copied().collect()
}

/// The names of the parameters, each once, in the order the map is walked (which is not
/// specified).
#[verifier::external_body]
pub(crate) fn parameter_keys(m: &FxHashMap<String, VariableMeta>) -> (r: Vec<String>)
    ensures
        r@.map_values(|k: String| k@).to_set() == parameter_entries(*m).dom(),
        r@.map_values(|k: String| k@).no_duplicates(),
{
    m.keys().cloned().collect()
}

/// The uniforms and textures a pass reads, keyed by what they bind to.
#[derive(Debug)]
pub struct ReflectMeta {
    pub parameter_meta: FxHashMap<String, VariableMeta>,
    pub variable_meta: FxHashMap<VariableSemantics, VariableMeta>,
    pub texture_size_meta: FxHashMap<SemanticMap<TextureSemantics>, TextureSizeMeta>,
    pub texture_meta: FxHashMap<SemanticMap<TextureSemantics>, TextureBinding>,
}

impl ReflectMeta {
    pub open spec fn parameters(&self) -> Map<Seq<char>, VariableMeta> {
        parameter_entries(self.parameter_meta)
    }

    pub open spec fn variables(&self) -> Map<VariableSemantics, VariableMeta> {
        variable_entries(self.variable_meta)
    }

    pub open spec fn texture_sizes(&self) -> Map<SemanticMap<TextureSemantics>, TextureSizeMeta> {
        texture_size_entries(self.texture_size_meta)
    }

    pub open spec fn textures(&self) -> Map<SemanticMap<TextureSemantics>, TextureBinding> {
        texture_binding_entries(self.texture_meta)
    }

    /// Metadata with no entries.
    pub fn new() -> (r: ReflectMeta)
        ensures
            r.parameters().dom().is_empty(),
            r.variables().dom().is_empty(),
            r.texture_sizes().dom().is_empty(),
            r.textures().dom().is_empty(),
    {
        ReflectMeta {
            parameter_meta: new_parameter_map(),
            variable_meta: new_variable_map(),
            texture_size_meta: new_texture_size_map(),
            texture_meta: new_texture_binding_map(),
        }
    }
}

} // verus!
