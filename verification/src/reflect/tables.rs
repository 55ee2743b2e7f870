use crate::reflect::semantics::{SemanticMap, TextureSemantics, UniformSemantic};
use rustc_hash::{FxBuildHasher, FxHashMap};
use vstd::prelude::*;

verus! {

#[verifier::external_type_specification]
#[verifier::external_body]
pub struct ExFxBuildHasher(FxBuildHasher);

/// The entries of a map from uniform names to their semantics.
pub uninterp spec fn uniform_entries(m: FxHashMap<String, UniformSemantic>) -> Map<Seq<char>, UniformSemantic>;

/// The entries of a map from texture names to their semantics.
pub uninterp spec fn texture_entries(m: FxHashMap<String, SemanticMap<TextureSemantics>>) -> Map<Seq<char>, SemanticMap<TextureSemantics>>;

/// Creates an empty `FxHashMap` of uniform semantics (`FxHashMap::default`).
#[verifier::external_body]
pub(crate) fn new_uniform_map() -> (r: FxHashMap<String, UniformSemantic>)
    ensures
        uniform_entries(r).dom().is_empty(),
{
    FxHashMap::default()
}

/// Looks `name` up with `HashMap::get`; the entry for a `String` key is found by a `&str`
/// with the same characters.
#[verifier::external_body]
pub(crate) fn uniform_map_get(m: &FxHashMap<String, UniformSemantic>, name: &str) -> (r: Option<UniformSemantic>)
    ensures
        r == uniform_entries(*m).get(name@),
{
    m.get(name).copied()
}

/// Inserts with `HashMap::insert`, which replaces any value under an equal key.
#[verifier::external_body]
pub(crate) fn uniform_map_insert(m: &mut FxHashMap<String, UniformSemantic>, key: String, value: UniformSemantic)
    ensures
        uniform_entries(*final(m)) == uniform_entries(*old(m)).insert(key@, value),
{
    m.insert(key, value);
}

/// Creates an empty `FxHashMap` of texture semantics (`FxHashMap::default`).
#[verifier::external_body]
pub(crate) fn new_texture_map() -> (r: FxHashMap<String, SemanticMap<TextureSemantics>>)
    ensures
        texture_entries(r).dom().is_empty(),
{
    FxHashMap::default()
}

/// Looks `name` up with `HashMap::get`.
#[verifier::external_body]
pub(crate) fn texture_map_get(m: &FxHashMap<String, SemanticMap<TextureSemantics>>, name: &str) -> (r: Option<SemanticMap<TextureSemantics>>)
    ensures
        r == texture_entries(*m).get(name@),
{
    m.get(name).copied()
}

/// Inserts with `HashMap::insert`, which replaces any value under an equal key.
#[verifier::external_body]
pub(crate) fn texture_map_insert(m: &mut FxHashMap<String, SemanticMap<TextureSemantics>>, key: String, value: SemanticMap<TextureSemantics>)
    ensures
        texture_entries(*final(m)) == texture_entries(*old(m)).insert(key@, value),
{
    m.insert(key, value);
}

} // verus!
