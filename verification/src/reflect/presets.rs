//! The semantics that a shader preset adds to those every pass knows: its parameters,
//! the outputs and feedback of the passes that have an alias, and its lookup textures.

use crate::reflect::semantics::{ReflectSemantics, SemanticMap, TextureSemantics, UniformSemantic, VariableSemantics};
use crate::reflect::tables::{
    new_texture_map, new_uniform_map, texture_entries, texture_map_insert, uniform_entries,
    uniform_map_insert,
};
use rustc_hash::FxHashMap;
use vstd::prelude::*;
use vstd::string::*;

verus! {

/// What the semantics need of a pass of the preset.
#[derive(Debug, Clone)]
pub struct ShaderPassConfig {
    /// The position of the pass in the preset.
    pub id: i32,
    /// The path of the pass's shader.
    pub name: String,
    /// The name under which later passes read this pass's output.
    pub alias: Option<String>,
}

/// What the semantics need of a lookup texture of the preset.
#[derive(Debug, Clone)]
pub struct TextureConfig {
    /// The name under which the passes read the texture.
    pub name: String,
    /// The path of the image.
    pub path: String,
}

/// Whether `c` has the Unicode `White_Space` property.
pub open spec fn is_unicode_whitespace(c: char) -> bool {
    ('\u{9}' <= c && c <= '\u{d}') || c == ' ' || c == '\u{85}' || c == '\u{a0}' || c == '\u{1680}'
        || ('\u{2000}' <= c && c <= '\u{200a}') || c == '\u{2028}' || c == '\u{2029}' || c == '\u{202f}'
        || c == '\u{205f}' || c == '\u{3000}'
}

/// Whether `s` is empty once its surrounding whitespace is trimmed.
pub open spec fn spec_is_blank(s: Seq<char>) -> bool {
    forall|i: int| 0 <= i < s.len() ==> is_unicode_whitespace(#[trigger] s[i])
}

/// Whether `c` has the Unicode `White_Space` property, as `char::is_whitespace` says.
pub fn is_whitespace(c: char) -> (r: bool)
    ensures
        r == is_unicode_whitespace(c),
{
    ('\u{9}' <= c && c <= '\u{d}') || c == ' ' || c == '\u{85}' || c == '\u{a0}' || c == '\u{1680}'
        || ('\u{2000}' <= c && c <= '\u{200a}') || c == '\u{2028}' || c == '\u{2029}' || c == '\u{202f}'
        || c == '\u{205f}' || c == '\u{3000}'
}

/// Whether `s` is empty once trimmed: every character is whitespace.
pub fn is_blank(s: &str) -> (r: bool)
    ensures
        r == spec_is_blank(s@),
{
    let n = s.unicode_len();
    let mut i: usize = 0;
    while i < n
        invariant
            i <= n,
            n == s@.len(),
            forall|j: int| 0 <= j < i ==> is_unicode_whitespace(#[trigger] s@[j]),
        decreases n - i,
    {
        if !is_whitespace(s.get_char(i)) {
            return false;
        }
        i = i + 1;
    }
    true
}

/// The semantic of the texture `semantics` at index `index`.
pub open spec fn texture_semantic(semantics: TextureSemantics, index: usize) -> SemanticMap<TextureSemantics> {
    SemanticMap { semantics, index }
}

/// The uniform semantics after inserting those of a pass with alias `alias` and index
/// `index`: the sizes of its output and of its feedback.
pub open spec fn pass_uniforms(u: Map<Seq<char>, UniformSemantic>, alias: Seq<char>, index: usize) -> Map<Seq<char>, UniformSemantic> {
    u.insert(alias + "Size"@, UniformSemantic::Texture(texture_semantic(TextureSemantics::PassOutput, index)))
        .insert(alias + "FeedbackSize"@, UniformSemantic::Texture(texture_semantic(TextureSemantics::PassFeedback, index)))
}

/// The texture semantics after inserting those of a pass with alias `alias` and index
/// `index`: its output, and its feedback.
pub open spec fn pass_textures(t: Map<Seq<char>, SemanticMap<TextureSemantics>>, alias: Seq<char>, index: usize) -> Map<Seq<char>, SemanticMap<TextureSemantics>> {
    t.insert(alias, texture_semantic(TextureSemantics::PassOutput, index))
        .insert(alias + "Feedback"@, texture_semantic(TextureSemantics::PassFeedback, index))
}

/// The alias of a pass, when it has one that is not blank.
pub open spec fn usable_alias(config: ShaderPassConfig) -> Option<Seq<char>> {
    match config.alias {
        Some(a) => if spec_is_blank(a@) { None } else { Some(a@) },
        None => None,
    }
}

/// The uniform semantics after inserting those of each pass in turn.
pub open spec fn passes_uniforms(u: Map<Seq<char>, UniformSemantic>, passes: Seq<ShaderPassConfig>) -> Map<Seq<char>, UniformSemantic>
    decreases passes.len(),
{
    if passes.len() == 0 {
        u
    } else {
        let pre = passes_uniforms(u, passes.drop_last());
        match usable_alias(passes.last()) {
            Some(a) => pass_uniforms(pre, a, passes.last().id as usize),
            None => pre,
        }
    }
}

/// The texture semantics after inserting those of each pass in turn.
pub open spec fn passes_textures(t: Map<Seq<char>, SemanticMap<TextureSemantics>>, passes: Seq<ShaderPassConfig>) -> Map<Seq<char>, SemanticMap<TextureSemantics>>
    decreases passes.len(),
{
    if passes.len() == 0 {
        t
    } else {
        let pre = passes_textures(t, passes.drop_last());
        match usable_alias(passes.last()) {
            Some(a) => pass_textures(pre, a, passes.last().id as usize),
            None => pre,
        }
    }
}

/// The uniform semantics after inserting the size of each lookup texture, named after
/// it, with its index among the textures.
pub open spec fn lut_uniforms(u: Map<Seq<char>, UniformSemantic>, names: Seq<Seq<char>>) -> Map<Seq<char>, UniformSemantic>
    decreases names.len(),
{
    if names.len() == 0 {
        u
    } else {
        lut_uniforms(u, names.drop_last()).insert(
            names.last() + "Size"@,
            UniformSemantic::Texture(texture_semantic(TextureSemantics::User, (names.len() - 1) as usize)),
        )
    }
}

/// The texture semantics after inserting each lookup texture under its name, with its
/// index among the textures.
pub open spec fn lut_textures(t: Map<Seq<char>, SemanticMap<TextureSemantics>>, names: Seq<Seq<char>>) -> Map<Seq<char>, SemanticMap<TextureSemantics>>
    decreases names.len(),
{
    if names.len() == 0 {
        t
    } else {
        lut_textures(t, names.drop_last()).insert(names.last(), texture_semantic(TextureSemantics::User, (names.len() - 1) as usize))
    }
}

/// The names of the lookup textures.
pub open spec fn texture_names(textures: Seq<TextureConfig>) -> Seq<Seq<char>> {
    textures.map_values(|t: TextureConfig| t.name@)
}

/// The uniform semantics after inserting each parameter as a float parameter.
pub open spec fn parameter_uniforms(u: Map<Seq<char>, UniformSemantic>, ids: Seq<Seq<char>>) -> Map<Seq<char>, UniformSemantic>
    decreases ids.len(),
{
    if ids.len() == 0 {
        u
    } else {
        parameter_uniforms(u, ids.drop_last()).insert(
            ids.last(),
            UniformSemantic::Variable(SemanticMap { semantics: VariableSemantics::FloatParameter, index: () }),
        )
    }
}

/// Inserts the semantics of the pass `config`, when it has an alias that is not blank:
/// its output under the alias and its feedback under the alias and `Feedback`, and
/// their sizes under those names and `Size`.
pub fn insert_pass_semantics(
    uniform_semantics: &mut FxHashMap<String, UniformSemantic>,
    texture_semantics: &mut FxHashMap<String, SemanticMap<TextureSemantics>>,
    config: &ShaderPassConfig,
)
    ensures
        match usable_alias(*config) {
            Some(a) => {
                &&& uniform_entries(*final(uniform_semantics)) == pass_uniforms(uniform_entries(*old(uniform_semantics)), a, config.id as usize)
                &&& texture_entries(*final(texture_semantics)) == pass_textures(texture_entries(*old(texture_semantics)), a, config.id as usize)
            },
            None => {
                &&& *final(uniform_semantics) == *old(uniform_semantics)
                &&& *final(texture_semantics) == *old(texture_semantics)
            },
        },
{
    let alias = match &config.alias {
        Some(a) => a,
        None => return,
    };
    if is_blank(alias.as_str()) {
        return;
    }
    let index = config.id as usize;
    texture_map_insert(texture_semantics, alias.clone(), SemanticMap { semantics: TextureSemantics::PassOutput, index });
    uniform_map_insert(
        uniform_semantics,
        alias.clone().concat("Size"),
        UniformSemantic::Texture(SemanticMap { semantics: TextureSemantics::PassOutput, index }),
    );
    texture_map_insert(
        texture_semantics,
        alias.clone().concat("Feedback"),
        SemanticMap { semantics: TextureSemantics::PassFeedback, index },
    );
    uniform_map_insert(
        uniform_semantics,
        alias.clone().concat("FeedbackSize"),
        UniformSemantic::Texture(SemanticMap { semantics: TextureSemantics::PassFeedback, index }),
    );
}

/// Inserts the semantics of each lookup texture: the texture under its name and its
/// size under the name and `Size`, with its index among the textures.
pub fn insert_lut_semantics(
    textures: &Vec<TextureConfig>,
    uniform_semantics: &mut FxHashMap<String, UniformSemantic>,
    texture_semantics: &mut FxHashMap<String, SemanticMap<TextureSemantics>>,
)
    ensures
        uniform_entries(*final(uniform_semantics)) == lut_uniforms(uniform_entries(*old(uniform_semantics)), texture_names(textures@)),
        texture_entries(*final(texture_semantics)) == lut_textures(texture_entries(*old(texture_semantics)), texture_names(textures@)),
{
    let ghost names = texture_names(textures@);
    let mut i: usize = 0;
    while i < textures.len()
        invariant
            i <= textures@.len(),
            names == texture_names(textures@),
            uniform_entries(*uniform_semantics) == lut_uniforms(uniform_entries(*old(uniform_semantics)), names.take(i as int)),
            texture_entries(*texture_semantics) == lut_textures(texture_entries(*old(texture_semantics)), names.take(i as int)),
        decreases textures@.len() - i,
    {
        proof {
            assert(names.take(i + 1).drop_last() =~= names.take(i as int));
            assert(names.take(i + 1).last() == textures@[i as int].name@);
        }
        let name = &textures[i].name;
        texture_map_insert(texture_semantics, name.clone(), SemanticMap { semantics: TextureSemantics::User, index: i });
        uniform_map_insert(
            uniform_semantics,
            name.clone().concat("Size"),
            UniformSemantic::Texture(SemanticMap { semantics: TextureSemantics::User, index: i }),
        );
        i = i + 1;
    }
    assert(names.take(i as int) =~= names);
}

/// Inserts each parameter of the preset's passes as a float parameter.
pub fn insert_parameter_semantics(uniform_semantics: &mut FxHashMap<String, UniformSemantic>, parameter_ids: &Vec<String>)
    ensures
        uniform_entries(*final(uniform_semantics)) == parameter_uniforms(
            uniform_entries(*old(uniform_semantics)),
            parameter_ids@.map_values(|s: String| s@),
        ),
{
    let ghost ids = parameter_ids@.map_values(|s: String| s@);
    let mut i: usize = 0;
    while i < parameter_ids.len()
        invariant
            i <= parameter_ids@.len(),
            ids == parameter_ids@.map_values(|s: String| s@),
            uniform_entries(*uniform_semantics) == parameter_uniforms(uniform_entries(*old(uniform_semantics)), ids.take(i as int)),
        decreases parameter_ids@.len() - i,
    {
        proof {
            assert(ids.take(i + 1).drop_last() =~= ids.take(i as int));
            assert(ids.take(i + 1).last() == parameter_ids@[i as int]@);
        }
        uniform_map_insert(
            uniform_semantics,
            parameter_ids[i].clone(),
            UniformSemantic::Variable(SemanticMap { semantics: VariableSemantics::FloatParameter, index: () }),
        );
        i = i + 1;
    }
    assert(ids.take(i as int) =~= ids);
}

/// The semantics of a preset: each parameter of its passes, then the outputs and feedback
/// of its passes, then its lookup textures, each inserted over the ones before.
pub fn preset_semantics(parameter_ids: &Vec<String>, passes: &Vec<ShaderPassConfig>, textures: &Vec<TextureConfig>) -> (r: ReflectSemantics)
    ensures
        uniform_entries(r.uniform_semantics) == lut_uniforms(
            passes_uniforms(parameter_uniforms(Map::empty(), parameter_ids@.map_values(|s: String| s@)), passes@),
            texture_names(textures@),
        ),
        texture_entries(r.texture_semantics) == lut_textures(passes_textures(Map::empty(), passes@), texture_names(textures@)),
{
    let mut uniform_semantics = new_uniform_map();
    let mut texture_semantics = new_texture_map();
    assert(uniform_entries(uniform_semantics) =~= Map::empty());
    assert(texture_entries(texture_semantics) =~= Map::empty());
    insert_parameter_semantics(&mut uniform_semantics, parameter_ids);
    let ghost u0 = uniform_entries(uniform_semantics);
    let mut i: usize = 0;
    while i < passes.len()
        invariant
            i <= passes@.len(),
            uniform_entries(uniform_semantics) == passes_uniforms(u0, passes@.take(i as int)),
            texture_entries(texture_semantics) == passes_textures(Map::empty(), passes@.take(i as int)),
        decreases passes@.len() - i,
    {
        proof {
            assert(passes@.take(i + 1).drop_last() =~= passes@.take(i as int));
            assert(passes@.take(i + 1).last() == passes@[i as int]);
        }
        insert_pass_semantics(&mut uniform_semantics, &mut texture_semantics, &passes[i]);
        i = i + 1;
    }
    assert(passes@.take(i as int) =~= passes@);
    insert_lut_semantics(textures, &mut uniform_semantics, &mut texture_semantics);
    ReflectSemantics { uniform_semantics, texture_semantics }
}

} // verus!
