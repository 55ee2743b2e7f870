use vstd::prelude::*;
use vstd::string::*;
use crate::reflect::names::{
    decimal_text, lemma_decimal_text, lemma_parse_decimal_text, parse_usize, spec_parse_usize, spec_starts_with,
    starts_with, str_eq,
};
use crate::reflect::tables::{texture_entries, texture_map_get, uniform_entries, uniform_map_get};
use rustc_hash::FxHashMap;

verus! {

/// The number of semantics that are not textures or parameters.
pub const BASE_SEMANTICS_COUNT: usize = 5;
/// The maximum number of bindings a pass may use.
pub const MAX_BINDINGS_COUNT: u32 = 16;
/// The maximum size of a push constant buffer.
pub const MAX_PUSH_BUFFER_SIZE: u32 = 128;

/// The kind of value a uniform semantic is bound with.
#[derive(Debug, Clone, Copy, PartialEq, Eq, Structural, Hash)]
pub enum UniformType {
    MVP,
    Size,
    Unsigned,
    Signed,
    Float,
}

/// Built-in uniform variables that a shader may read.
#[derive(Debug, Clone, Copy, PartialEq, Eq, Structural, Hash)]
pub enum VariableSemantics {
    /// mat4, MVP
    MVP,
    /// vec4, viewport size of current pass
    Output,
    /// vec4, viewport size of final pass
    FinalViewport,
    /// uint, frame count with modulo
    FrameCount,
    /// int, frame direction
    FrameDirection,
    /// float, user defined parameter, array
    FloatParameter,
}

/// Texture inputs that a shader may sample.
#[derive(Debug, Clone, Copy, PartialEq, Eq, Structural, Hash)]
pub enum TextureSemantics {
    Original,
    Source,
    OriginalHistory,
    PassOutput,
    PassFeedback,
    User,
}

/// A semantic together with its index.
#[derive(Debug, Clone, Copy, PartialEq, Eq, Structural, Hash)]
pub struct SemanticMap<T, I = usize> {
    pub semantics: T,
    pub index: I,
}

impl VariableSemantics {
    pub open spec fn spec_binding_type(self) -> UniformType {
        match self {
            VariableSemantics::MVP => UniformType::MVP,
            VariableSemantics::Output => UniformType::Size,
            VariableSemantics::FinalViewport => UniformType::Size,
            VariableSemantics::FrameCount => UniformType::Unsigned,
            VariableSemantics::FrameDirection => UniformType::Signed,
            VariableSemantics::FloatParameter => UniformType::Float,
        }
    }

    /// Pairs this semantic with the unit index.
    pub fn semantics(self) -> (r: SemanticMap<VariableSemantics, ()>)
        ensures
            r.semantics == self,
    {
        SemanticMap { semantics: self, index: () }
    }

    /// The kind of value this semantic is bound with.
    pub fn binding_type(&self) -> (r: UniformType)
        ensures
            r == self.spec_binding_type(),
    {
        match self {
            VariableSemantics::MVP => UniformType::MVP,
            VariableSemantics::Output => UniformType::Size,
            VariableSemantics::FinalViewport => UniformType::Size,
            VariableSemantics::FrameCount => UniformType::Unsigned,
            VariableSemantics::FrameDirection => UniformType::Signed,
            VariableSemantics::FloatParameter => UniformType::Float,
        }
    }
}

/// The order in which texture semantics are matched against names.
/// `OriginalHistory` comes before `Original`, so that the longer name wins.
pub open spec fn texture_semantics_order() -> Seq<TextureSemantics> {
    seq![
        TextureSemantics::Source,
        TextureSemantics::OriginalHistory,
        TextureSemantics::Original,
        TextureSemantics::PassOutput,
        TextureSemantics::PassFeedback,
        TextureSemantics::User,
    ]
}

/// The texture semantic at position `i` of the matching order.
pub fn texture_semantics_at(i: usize) -> (r: TextureSemantics)
    requires
        i < 6,
    ensures
        r == texture_semantics_order()[i as int],
{
    if i == 0 {
        TextureSemantics::Source
    } else if i == 1 {
        TextureSemantics::OriginalHistory
    } else if i == 2 {
        TextureSemantics::Original
    } else if i == 3 {
        TextureSemantics::PassOutput
    } else if i == 4 {
        TextureSemantics::PassFeedback
    } else {
        TextureSemantics::User
    }
}

impl TextureSemantics {
    pub open spec fn spec_size_uniform_name(self) -> Seq<char> {
        match self {
            TextureSemantics::Original => "OriginalSize"@,
            TextureSemantics::Source => "SourceSize"@,
            TextureSemantics::OriginalHistory => "OriginalHistorySize"@,
            TextureSemantics::PassOutput => "PassOutputSize"@,
            TextureSemantics::PassFeedback => "PassFeedbackSize"@,
            TextureSemantics::User => "UserSize"@,
        }
    }

    pub open spec fn spec_texture_name(self) -> Seq<char> {
        match self {
            TextureSemantics::Original => "Original"@,
            TextureSemantics::Source => "Source"@,
            TextureSemantics::OriginalHistory => "OriginalHistory"@,
            TextureSemantics::PassOutput => "PassOutput"@,
            TextureSemantics::PassFeedback => "PassFeedback"@,
            TextureSemantics::User => "User"@,
        }
    }

    pub open spec fn spec_is_array(self) -> bool {
        !(self == TextureSemantics::Original || self == TextureSemantics::Source)
    }

    /// The name of the uniform that holds the size of this texture.
    pub fn size_uniform_name(&self) -> (r: &'static str)
        ensures
            r@ == self.spec_size_uniform_name(),
    {
        match self {
            TextureSemantics::Original => "OriginalSize",
            TextureSemantics::Source => "SourceSize",
            TextureSemantics::OriginalHistory => "OriginalHistorySize",
            TextureSemantics::PassOutput => "PassOutputSize",
            TextureSemantics::PassFeedback => "PassFeedbackSize",
            TextureSemantics::User => "UserSize",
        }
    }

    /// The name of the sampler that binds this texture.
    pub fn texture_name(&self) -> (r: &'static str)
        ensures
            r@ == self.spec_texture_name(),
    {
        match self {
            TextureSemantics::Original => "Original",
            TextureSemantics::Source => "Source",
            TextureSemantics::OriginalHistory => "OriginalHistory",
            TextureSemantics::PassOutput => "PassOutput",
            TextureSemantics::PassFeedback => "PassFeedback",
            TextureSemantics::User => "User",
        }
    }

    /// Whether this semantic is indexed (all but `Original` and `Source`).
    pub fn is_array(&self) -> (r: bool)
        ensures
            r == self.spec_is_array(),
    {
        !matches!(self, TextureSemantics::Original | TextureSemantics::Source)
    }

    /// Pairs this semantic with an index.
    pub fn semantics(self, index: usize) -> (r: SemanticMap<TextureSemantics>)
        ensures
            r == (SemanticMap { semantics: self, index }),
    {
        SemanticMap { semantics: self, index }
    }
}

/// The size and column count of a uniform's type.
#[derive(Debug, Clone, Copy, PartialEq, Eq, Structural)]
pub struct TypeInfo {
    pub size: u32,
    pub columns: u32,
}

/// Which shader stages a binding is used in.
#[derive(Debug, Clone, Copy, PartialEq, Eq, Structural, Hash)]
pub struct BindingStage {
    pub bits: u8,
}

impl BindingStage {
    /// No stage.
    pub fn none() -> (r: BindingStage)
        ensures
            r.bits == 0,
    {
        BindingStage { bits: 0 }
    }

    /// The vertex stage.
    pub fn vertex() -> (r: BindingStage)
        ensures
            r.bits == 1,
    {
        BindingStage { bits: 1 }
    }

    /// The fragment stage.
    pub fn fragment() -> (r: BindingStage)
        ensures
            r.bits == 2,
    {
        BindingStage { bits: 2 }
    }

    /// Removes every stage.
    pub fn clear(&mut self)
        ensures
            final(self).bits == 0,
    {
        self.bits = 0;
    }

    /// Adds the stages of `other`.
    pub fn insert(&mut self, other: BindingStage)
        ensures
            final(self).bits == old(self).bits | other.bits,
    {
        self.bits = self.bits | other.bits;
    }

    /// The stages of both.
    pub fn union(self, other: BindingStage) -> (r: BindingStage)
        ensures
            r.bits == self.bits | other.bits,
    {
        BindingStage { bits: self.bits | other.bits }
    }

    /// Whether every stage of `other` is in `self`.
    pub fn contains(&self, other: BindingStage) -> (r: bool)
        ensures
            r == (self.bits & other.bits == other.bits),
    {
        self.bits & other.bits == other.bits
    }
}

/// A semantic bound to a uniform: either a built-in variable or the size of a texture.
#[derive(Debug, Clone, Copy, PartialEq, Eq)]
pub enum UniformSemantic {
    Variable(SemanticMap<VariableSemantics, ()>),
    Texture(SemanticMap<TextureSemantics>),
}

/// The first texture semantic, in matching order from position `i` on, whose name
/// (size uniform name when `size`, else texture name) begins `name`.
pub open spec fn first_name_match_from(name: Seq<char>, size: bool, i: int) -> Option<TextureSemantics>
    decreases 6 - i,
{
    if i < 0 || i >= 6 {
        None
    } else {
        let f = texture_semantics_order()[i];
        let p = if size { f.spec_size_uniform_name() } else { f.spec_texture_name() };
        if spec_starts_with(name, p) {
            Some(f)
        } else {
            first_name_match_from(name, size, i + 1)
        }
    }
}

/// The texture semantic a name denotes when no explicit entry exists: the first
/// semantic whose name begins the text; an arrayed semantic takes the rest of the text
/// as its index, a plain one must match the whole text and has index 0.
pub open spec fn spec_semantic_from_name(name: Seq<char>, size: bool) -> Option<SemanticMap<TextureSemantics>> {
    match first_name_match_from(name, size, 0) {
        None => None,
        Some(f) => {
            let p = if size { f.spec_size_uniform_name() } else { f.spec_texture_name() };
            if f.spec_is_array() {
                match spec_parse_usize(name.skip(p.len() as int)) {
                    Some(index) => Some(SemanticMap { semantics: f, index }),
                    None => None,
                }
            } else if name == p {
                Some(SemanticMap { semantics: f, index: 0 })
            } else {
                None
            }
        }
    }
}

/// `p` does not begin `name`: it is longer, or differs from it at `k`.
proof fn lemma_not_prefix(name: Seq<char>, p: Seq<char>, k: int)
    requires
        0 <= k < p.len(),
        k >= name.len() || name[k] != p[k],
    ensures
        !spec_starts_with(name, p),
{
    if p.len() <= name.len() {
        assert(name.take(p.len() as int)[k] == name[k]);
    }
}

/// The name a texture semantic is written by: its texture name, or its size uniform's
/// name when `size`, followed by the index for an arrayed semantic.
pub open spec fn written_name(s: TextureSemantics, index: usize, size: bool) -> Seq<char> {
    let p = if size { s.spec_size_uniform_name() } else { s.spec_texture_name() };
    if s.spec_is_array() {
        p + decimal_text(index as nat)
    } else {
        p
    }
}

/// A texture semantic's name, followed by the index for an arrayed semantic, resolves to
/// that semantic and index; a plain semantic resolves with index 0. So does the name of
/// its size uniform.
pub proof fn law_texture_names_resolve(s: TextureSemantics, index: usize, size: bool)
    ensures
        spec_semantic_from_name(written_name(s, index, size), size) == Some(
            SemanticMap { semantics: s, index: if s.spec_is_array() { index } else { 0 } },
        ),
{
    reveal_strlit("Original");
    reveal_strlit("Source");
    reveal_strlit("OriginalHistory");
    reveal_strlit("PassOutput");
    reveal_strlit("PassFeedback");
    reveal_strlit("User");
    reveal_strlit("OriginalSize");
    reveal_strlit("SourceSize");
    reveal_strlit("OriginalHistorySize");
    reveal_strlit("PassOutputSize");
    reveal_strlit("PassFeedbackSize");
    reveal_strlit("UserSize");
    reveal_with_fuel(first_name_match_from, 7);
    let p = if size { s.spec_size_uniform_name() } else { s.spec_texture_name() };
    let name = written_name(s, index, size);
    let digits = decimal_text(index as nat);
    lemma_decimal_text(index as nat);
    lemma_parse_decimal_text(index);
    if s.spec_is_array() {
        assert(name.take(p.len() as int) =~= p);
        assert(name.skip(p.len() as int) =~= digits);
    } else {
        assert(name.take(p.len() as int) =~= p);
    }
    assert(spec_starts_with(name, p));
    assert forall|k: int| 0 <= k < p.len() implies name[k] == p[k] by {
        if s.spec_is_array() {
            assert((p + digits)[k] == p[k]);
        }
    }
    let src = if size { "SourceSize"@ } else { "Source"@ };
    let hist = if size { "OriginalHistorySize"@ } else { "OriginalHistory"@ };
    let orig = if size { "OriginalSize"@ } else { "Original"@ };
    let out = if size { "PassOutputSize"@ } else { "PassOutput"@ };
    let fb = if size { "PassFeedbackSize"@ } else { "PassFeedback"@ };
    match s {
        TextureSemantics::Source => {},
        TextureSemantics::OriginalHistory => {
            lemma_not_prefix(name, src, 0);
        },
        TextureSemantics::Original => {
            lemma_not_prefix(name, src, 0);
            lemma_not_prefix(name, hist, name.len() as int);
        },
        TextureSemantics::PassOutput => {
            lemma_not_prefix(name, src, 0);
            lemma_not_prefix(name, hist, 0);
            lemma_not_prefix(name, orig, 0);
        },
        TextureSemantics::PassFeedback => {
            lemma_not_prefix(name, src, 0);
            lemma_not_prefix(name, hist, 0);
            lemma_not_prefix(name, orig, 0);
            lemma_not_prefix(name, out, 4);
        },
        TextureSemantics::User => {
            lemma_not_prefix(name, src, 0);
            lemma_not_prefix(name, hist, 0);
            lemma_not_prefix(name, orig, 0);
            lemma_not_prefix(name, out, 0);
            lemma_not_prefix(name, fb, 0);
        },
    }
}

/// Resolves a texture semantic from its name alone (see `spec_semantic_from_name`).
pub fn semantic_from_name(name: &str, size: bool) -> (r: Option<SemanticMap<TextureSemantics>>)
    ensures
        r == spec_semantic_from_name(name@, size),
{
    let mut i: usize = 0;
    while i < 6
        invariant
            i <= 6,
            first_name_match_from(name@, size, 0) == first_name_match_from(name@, size, i as int),
        decreases 6 - i,
    {
        let f = texture_semantics_at(i);
        let p = if size { f.size_uniform_name() } else { f.texture_name() };
        if starts_with(name, p) {
            if f.is_array() {
                let rest = name.substring_char(p.unicode_len(), name.unicode_len());
                return match parse_usize(rest) {
                    Some(index) => Some(SemanticMap { semantics: f, index }),
                    None => None,
                };
            } else if str_eq(name, p) {
                return Some(SemanticMap { semantics: f, index: 0 });
            } else {
                return None;
            }
        }
        i = i + 1;
    }
    None
}

/// The built-in variable a name denotes when no explicit entry exists.
pub open spec fn spec_variable_from_name(name: Seq<char>) -> Option<SemanticMap<VariableSemantics, ()>> {
    if name == "MVP"@ {
        Some(SemanticMap { semantics: VariableSemantics::MVP, index: () })
    } else if name == "OutputSize"@ {
        Some(SemanticMap { semantics: VariableSemantics::Output, index: () })
    } else if name == "FinalViewportSize"@ {
        Some(SemanticMap { semantics: VariableSemantics::FinalViewport, index: () })
    } else if name == "FrameCount"@ {
        Some(SemanticMap { semantics: VariableSemantics::FrameCount, index: () })
    } else if name == "FrameDirection"@ {
        Some(SemanticMap { semantics: VariableSemantics::FrameDirection, index: () })
    } else {
        None
    }
}

/// Resolves a built-in variable from its name alone.
pub fn variable_from_name(name: &str) -> (r: Option<SemanticMap<VariableSemantics, ()>>)
    ensures
        r == spec_variable_from_name(name@),
{
    if str_eq(name, "MVP") {
        Some(SemanticMap { semantics: VariableSemantics::MVP, index: () })
    } else if str_eq(name, "OutputSize") {
        Some(SemanticMap { semantics: VariableSemantics::Output, index: () })
    } else if str_eq(name, "FinalViewportSize") {
        Some(SemanticMap { semantics: VariableSemantics::FinalViewport, index: () })
    } else if str_eq(name, "FrameCount") {
        Some(SemanticMap { semantics: VariableSemantics::FrameCount, index: () })
    } else if str_eq(name, "FrameDirection") {
        Some(SemanticMap { semantics: VariableSemantics::FrameDirection, index: () })
    } else {
        None
    }
}

/// Maps that resolve texture semantics from names.
pub trait TextureSemanticMap<T> {
    spec fn spec_texture_semantic(&self, name: Seq<char>) -> Option<SemanticMap<TextureSemantics>>;

    fn get_texture_semantic(&self, name: &str) -> (r: Option<SemanticMap<TextureSemantics>>)
        ensures
            r == self.spec_texture_semantic(name@),
    ;
}

/// Maps that resolve built-in variable semantics from names.
pub trait VariableSemanticMap<T> {
    spec fn spec_variable_semantic(&self, name: Seq<char>) -> Option<SemanticMap<VariableSemantics, ()>>;

    fn get_variable_semantic(&self, name: &str) -> (r: Option<SemanticMap<VariableSemantics, ()>>)
        ensures
            r == self.spec_variable_semantic(name@),
    ;
}

impl TextureSemanticMap<UniformSemantic> for FxHashMap<String, UniformSemantic> {
    /// An explicit entry wins: a texture entry gives its semantic, a variable entry none.
    /// Without one, the name is read as a texture size uniform name.
    open spec fn spec_texture_semantic(&self, name: Seq<char>) -> Option<SemanticMap<TextureSemantics>> {
        match uniform_entries(*self).get(name) {
            None => spec_semantic_from_name(name, true),
            Some(UniformSemantic::Variable(_)) => None,
            Some(UniformSemantic::Texture(t)) => Some(t),
        }
    }

    fn get_texture_semantic(&self, name: &str) -> (r: Option<SemanticMap<TextureSemantics>>) {
        match uniform_map_get(self, name) {
            None => semantic_from_name(name, true),
            Some(UniformSemantic::Variable(_)) => None,
            Some(UniformSemantic::Texture(t)) => Some(t),
        }
    }
}

impl TextureSemanticMap<UniformSemantic> for FxHashMap<String, SemanticMap<TextureSemantics>> {
    /// An explicit entry wins; without one, the name is read as a texture name.
    open spec fn spec_texture_semantic(&self, name: Seq<char>) -> Option<SemanticMap<TextureSemantics>> {
        match texture_entries(*self).get(name) {
            None => spec_semantic_from_name(name, false),
            Some(t) => Some(t),
        }
    }

    fn get_texture_semantic(&self, name: &str) -> (r: Option<SemanticMap<TextureSemantics>>) {
        match texture_map_get(self, name) {
            None => semantic_from_name(name, false),
            Some(t) => Some(t),
        }
    }
}

impl VariableSemanticMap<UniformSemantic> for FxHashMap<String, UniformSemantic> {
    /// An explicit entry wins: a variable entry gives its semantic, a texture entry none.
    /// Without one, the built-in names are recognised.
    open spec fn spec_variable_semantic(&self, name: Seq<char>) -> Option<SemanticMap<VariableSemantics, ()>> {
        match uniform_entries(*self).get(name) {
            None => spec_variable_from_name(name),
            Some(UniformSemantic::Variable(v)) => Some(v),
            Some(UniformSemantic::Texture(_)) => None,
        }
    }

    fn get_variable_semantic(&self, name: &str) -> (r: Option<SemanticMap<VariableSemantics, ()>>) {
        match uniform_map_get(self, name) {
            None => variable_from_name(name),
            Some(UniformSemantic::Variable(v)) => Some(v),
            Some(UniformSemantic::Texture(_)) => None,
        }
    }
}

/// Where a uniform lives: an offset into the uniform buffer or into the push constant buffer.
#[derive(Debug, Clone, Copy, PartialEq, Eq, Structural)]
pub enum MemberOffset {
    Ubo(usize),
    PushConstant(usize),
}

/// The uniform buffer of a pass.
#[derive(Debug)]
pub struct UboReflection {
    pub binding: u32,
    /// The size of the buffer.
    pub size: u32,
    pub stage_mask: BindingStage,
}

/// The push constant buffer of a pass.
#[derive(Debug)]
pub struct PushReflection {
    /// The size of the buffer.
    pub size: u32,
    pub stage_mask: BindingStage,
}

/// Where a variable uniform lives and how many components it has.
#[derive(Debug)]
pub struct VariableMeta {
    pub offset: MemberOffset,
    pub components: u32,
    pub id: String,
}

/// Where a texture size uniform lives and which stages read it.
#[derive(Debug)]
pub struct TextureSizeMeta {
    pub offset: MemberOffset,
    pub stage_mask: BindingStage,
    pub id: String,
}

/// The binding of a sampled texture.
#[derive(Debug, Clone, Copy, PartialEq, Eq, Structural)]
pub struct TextureBinding {
    pub binding: u32,
}

/// Uniform metadata with an offset and a name.
pub trait UniformMeta {
    spec fn spec_offset(&self) -> MemberOffset;

    spec fn spec_id(&self) -> Seq<char>;

    fn offset(&self) -> (r: MemberOffset)
        ensures
            r == self.spec_offset(),
    ;

    fn id(&self) -> (r: &str)
        ensures
            r@ == self.spec_id(),
    ;
}

impl UniformMeta for VariableMeta {
    open spec fn spec_offset(&self) -> MemberOffset {
        self.offset
    }

    open spec fn spec_id(&self) -> Seq<char> {
        self.id@
    }

    fn offset(&self) -> (r: MemberOffset) {
        self.offset
    }

    fn id(&self) -> (r: &str) {
        self.id.as_str()
    }
}

impl UniformMeta for TextureSizeMeta {
    open spec fn spec_offset(&self) -> MemberOffset {
        self.offset
    }

    open spec fn spec_id(&self) -> Seq<char> {
        self.id@
    }

    fn offset(&self) -> (r: MemberOffset) {
        self.offset
    }

    fn id(&self) -> (r: &str) {
        self.id.as_str()
    }
}

/// What a uniform binds to.
#[derive(Debug, Clone, PartialEq, Eq)]
pub enum UniformBinding {
    Parameter(String),
    SemanticVariable(VariableSemantics),
    TextureSize(SemanticMap<TextureSemantics>),
}

impl UniformBinding {
    /// The binding of a built-in variable.
    pub fn from_variable(value: VariableSemantics) -> (r: UniformBinding)
        ensures
            r == UniformBinding::SemanticVariable(value),
    {
        UniformBinding::SemanticVariable(value)
    }

    /// The binding of a texture size.
    pub fn from_texture(value: SemanticMap<TextureSemantics>) -> (r: UniformBinding)
        ensures
            r == UniformBinding::TextureSize(value),
    {
        UniformBinding::TextureSize(value)
    }
}

/// The reflection of a shader pass: its buffers and what they hold.
#[derive(Debug)]
pub struct ShaderReflection {
    pub ubo: Option<UboReflection>,
    pub push_constant: Option<PushReflection>,
    pub meta: crate::reflect::meta::ReflectMeta,
}

/// Whether the texture bindings of a reflection can all be bound at once: each is one of
/// the sixteen slots, no two semantics share one, and none is the uniform buffer's.
pub open spec fn texture_bindings_consistent(refl: ShaderReflection) -> bool {
    &&& forall|s: SemanticMap<TextureSemantics>| #[trigger] refl.meta.textures().contains_key(s)
        ==> refl.meta.textures()[s].binding < MAX_BINDINGS_COUNT
    &&& forall|s1: SemanticMap<TextureSemantics>, s2: SemanticMap<TextureSemantics>|
        #[trigger] refl.meta.textures().contains_key(s1) && #[trigger] refl.meta.textures().contains_key(s2)
        && s1 != s2 ==> refl.meta.textures()[s1].binding != refl.meta.textures()[s2].binding
    &&& refl.ubo matches Some(u) ==> forall|s: SemanticMap<TextureSemantics>|
        #[trigger] refl.meta.textures().contains_key(s) ==> refl.meta.textures()[s].binding != u.binding
}

/// The semantic maps that reflection resolves names against.
#[derive(Debug, Clone)]
pub struct ReflectSemantics {
    pub uniform_semantics: FxHashMap<String, UniformSemantic>,
    pub texture_semantics: FxHashMap<String, SemanticMap<TextureSemantics>>,
}

} // verus!
