//! What a pass binds before it draws: the texture at each of its sixteen slots, and the
//! value each built-in uniform and texture size uniform takes.

use crate::reflect::meta::{
    parameter_keys, parameter_meta_get, texture_binding_get, texture_size_meta_get, variable_meta_get, ReflectMeta,
};
use crate::reflect::names::str_eq;
use crate::reflect::semantics::{MemberOffset, SemanticMap, TextureBinding, TextureSemantics, TextureSizeMeta, VariableMeta, VariableSemantics};
use vstd::prelude::*;

verus! {

/// The number of texture slots of a pass.
pub const TEXTURE_SLOTS: usize = 16;

/// Where a texture bound for a pass comes from.
#[derive(Debug, Clone, Copy, PartialEq, Eq, Structural)]
pub enum TextureSource {
    /// The frame's input.
    Original,
    /// The previous pass's output, or the input for the first pass.
    Source,
    /// The history frame at this position of the history textures.
    History(usize),
    /// The output of this earlier pass.
    PassOutput(usize),
    /// This pass's output of the last frame.
    PassFeedback(usize),
    /// The lookup texture of this index.
    Lut(usize),
}

/// What a uniform of the pass receives.
#[derive(Debug, Clone, Copy, PartialEq, Eq, Structural)]
pub enum UniformValue {
    Mvp,
    OutputSize,
    FinalViewportSize,
    FrameCount,
    FrameDirection,
    /// The size of the texture from this source.
    TextureSize(TextureSource),
}

/// The texture at each slot, and the uniform writes in order.
pub struct PassBindings {
    pub textures: Vec<Option<TextureSource>>,
    pub uniforms: Vec<(MemberOffset, UniformValue)>,
}

/// The history textures that exist, each as the semantic `OriginalHistory` one past its
/// position.
pub open spec fn history_candidates(history: Seq<bool>) -> Seq<(SemanticMap<TextureSemantics>, TextureSource)>
    decreases history.len(),
{
    if history.len() == 0 {
        Seq::empty()
    } else {
        let i = (history.len() - 1) as usize;
        history_candidates(history.drop_last()) + if history.last() {
            seq![(SemanticMap { semantics: TextureSemantics::OriginalHistory, index: (i + 1) as usize }, TextureSource::History(i))]
        } else {
            Seq::empty()
        }
    }
}

/// The outputs that exist of the given passes, as `PassOutput`.
pub open spec fn output_candidates(outputs: Seq<bool>) -> Seq<(SemanticMap<TextureSemantics>, TextureSource)>
    decreases outputs.len(),
{
    if outputs.len() == 0 {
        Seq::empty()
    } else {
        let i = (outputs.len() - 1) as usize;
        output_candidates(outputs.drop_last()) + if outputs.last() {
            seq![(SemanticMap { semantics: TextureSemantics::PassOutput, index: i }, TextureSource::PassOutput(i))]
        } else {
            Seq::empty()
        }
    }
}

/// The feedback textures that exist, as `PassFeedback`.
pub open spec fn feedback_candidates(feedback: Seq<bool>) -> Seq<(SemanticMap<TextureSemantics>, TextureSource)>
    decreases feedback.len(),
{
    if feedback.len() == 0 {
        Seq::empty()
    } else {
        let i = (feedback.len() - 1) as usize;
        feedback_candidates(feedback.drop_last()) + if feedback.last() {
            seq![(SemanticMap { semantics: TextureSemantics::PassFeedback, index: i }, TextureSource::PassFeedback(i))]
        } else {
            Seq::empty()
        }
    }
}

/// The textures a pass may read, in the order they are bound: the input as `Original`,
/// the pass's source, the input again as `OriginalHistory0`, the history, the outputs of
/// the earlier passes, the feedback, and the lookup textures.
pub open spec fn binding_candidates(
    pass_index: usize,
    history: Seq<bool>,
    outputs: Seq<bool>,
    feedback: Seq<bool>,
    luts: Seq<usize>,
) -> Seq<(SemanticMap<TextureSemantics>, TextureSource)> {
    seq![
        (SemanticMap { semantics: TextureSemantics::Original, index: 0usize }, TextureSource::Original),
        (SemanticMap { semantics: TextureSemantics::Source, index: 0usize }, TextureSource::Source),
        (SemanticMap { semantics: TextureSemantics::OriginalHistory, index: 0usize }, TextureSource::Original),
    ] + history_candidates(history) + output_candidates(outputs.take(pass_index as int)) + feedback_candidates(feedback)
        + luts.map_values(|l: usize| (SemanticMap { semantics: TextureSemantics::User, index: l }, TextureSource::Lut(l)))
}

/// The slots once each candidate that the pass reads is put at its binding, a later one
/// replacing an earlier one at the same slot.
pub open spec fn bound_textures(
    slots: Seq<Option<TextureSource>>,
    candidates: Seq<(SemanticMap<TextureSemantics>, TextureSource)>,
    textures: Map<SemanticMap<TextureSemantics>, TextureBinding>,
) -> Seq<Option<TextureSource>>
    decreases candidates.len(),
{
    if candidates.len() == 0 {
        slots
    } else {
        let pre = bound_textures(slots, candidates.drop_last(), textures);
        let (sem, src) = candidates.last();
        match textures.get(sem) {
            Some(b) => pre.update(b.binding as int, Some(src)),
            None => pre,
        }
    }
}

/// The size writes of the candidates whose size the pass reads, in order.
pub open spec fn size_writes(
    candidates: Seq<(SemanticMap<TextureSemantics>, TextureSource)>,
    sizes: Map<SemanticMap<TextureSemantics>, TextureSizeMeta>,
) -> Seq<(MemberOffset, UniformValue)>
    decreases candidates.len(),
{
    if candidates.len() == 0 {
        Seq::empty()
    } else {
        let pre = size_writes(candidates.drop_last(), sizes);
        let (sem, src) = candidates.last();
        match sizes.get(sem) {
            Some(m) => pre.push((m.offset, UniformValue::TextureSize(src))),
            None => pre,
        }
    }
}

/// The write of a built-in uniform, if the pass reads it.
pub open spec fn variable_write(
    vars: Map<VariableSemantics, VariableMeta>,
    v: VariableSemantics,
    value: UniformValue,
) -> Seq<(MemberOffset, UniformValue)> {
    match vars.get(v) {
        Some(m) => seq![(m.offset, value)],
        None => Seq::empty(),
    }
}

/// The writes of the built-in uniforms the pass reads: the MVP, the output size, the
/// final viewport size, the frame count and the frame direction.
pub open spec fn variable_writes(vars: Map<VariableSemantics, VariableMeta>) -> Seq<(MemberOffset, UniformValue)> {
    variable_write(vars, VariableSemantics::MVP, UniformValue::Mvp)
        + variable_write(vars, VariableSemantics::Output, UniformValue::OutputSize)
        + variable_write(vars, VariableSemantics::FinalViewport, UniformValue::FinalViewportSize)
        + variable_write(vars, VariableSemantics::FrameCount, UniformValue::FrameCount)
        + variable_write(vars, VariableSemantics::FrameDirection, UniformValue::FrameDirection)
}

/// When no two semantics share a binding and each candidate names its own semantic, every
/// texture the pass reads ends up at its binding, and a slot that no read semantic binds
/// stays as it was.
pub proof fn law_each_texture_at_its_binding(
    slots: Seq<Option<TextureSource>>,
    cands: Seq<(SemanticMap<TextureSemantics>, TextureSource)>,
    textures: Map<SemanticMap<TextureSemantics>, TextureBinding>,
)
    requires
        forall|i: int, j: int| 0 <= i < j < cands.len() ==> cands[i].0 != cands[j].0,
        forall|s1: SemanticMap<TextureSemantics>, s2: SemanticMap<TextureSemantics>|
            #[trigger] textures.contains_key(s1) && #[trigger] textures.contains_key(s2) && s1 != s2
            ==> textures[s1].binding != textures[s2].binding,
        forall|s: SemanticMap<TextureSemantics>| #[trigger] textures.contains_key(s) ==> textures[s].binding < slots.len(),
    ensures
        bound_textures(slots, cands, textures).len() == slots.len(),
        forall|k: int| 0 <= k < cands.len() && #[trigger] textures.contains_key(cands[k].0)
            ==> bound_textures(slots, cands, textures)[textures[cands[k].0].binding as int] == Some(cands[k].1),
        forall|j: int| 0 <= j < slots.len() && (forall|k: int| 0 <= k < cands.len() && #[trigger] textures.contains_key(cands[k].0)
            ==> textures[cands[k].0].binding != j) ==> #[trigger] bound_textures(slots, cands, textures)[j] == slots[j],
    decreases cands.len(),
{
    if cands.len() > 0 {
        let pre = cands.drop_last();
        assert forall|i: int, j: int| 0 <= i < j < pre.len() implies pre[i].0 != pre[j].0 by {
            assert(pre[i] == cands[i] && pre[j] == cands[j]);
        }
        law_each_texture_at_its_binding(slots, pre, textures);
        let (sem, src) = cands.last();
        let b = bound_textures(slots, pre, textures);
        assert forall|k: int| 0 <= k < cands.len() && #[trigger] textures.contains_key(cands[k].0)
            implies bound_textures(slots, cands, textures)[textures[cands[k].0].binding as int] == Some(cands[k].1) by {
            if k < cands.len() - 1 {
                assert(pre[k] == cands[k]);
                if textures.contains_key(sem) {
                    assert(cands[k].0 != sem);
                    assert(textures[cands[k].0].binding != textures[sem].binding);
                }
            }
        }
        assert forall|j: int| 0 <= j < slots.len() && (forall|k: int| 0 <= k < cands.len() && #[trigger] textures.contains_key(cands[k].0)
            ==> textures[cands[k].0].binding != j) implies #[trigger] bound_textures(slots, cands, textures)[j] == slots[j] by {
            assert forall|k: int| 0 <= k < pre.len() && #[trigger] textures.contains_key(pre[k].0) implies textures[pre[k].0].binding != j by {
                assert(pre[k] == cands[k]);
            }
            if textures.contains_key(sem) {
                assert(cands[cands.len() - 1].0 == sem);
            }
        }
    }
}

/// The candidates of one group all name the semantic `sem`, with strictly increasing
/// indices from `low` on and below `high`.
pub open spec fn group_of(c: Seq<(SemanticMap<TextureSemantics>, TextureSource)>, sem: TextureSemantics, low: int, high: int) -> bool {
    &&& forall|j: int| 0 <= j < c.len() ==> (#[trigger] c[j]).0.semantics == sem && low <= c[j].0.index < high
    &&& forall|i: int, j: int| 0 <= i < j < c.len() ==> c[i].0.index < c[j].0.index
}

proof fn lemma_history_group(h: Seq<bool>)
    requires
        h.len() <= usize::MAX,
    ensures
        group_of(history_candidates(h), TextureSemantics::OriginalHistory, 1, h.len() as int + 1),
    decreases h.len(),
{
    if h.len() > 0 {
        lemma_history_group(h.drop_last());
        let pre = history_candidates(h.drop_last());
        let c = history_candidates(h);
        if h.last() {
            assert(c[c.len() - 1].0.index == h.len());
            assert forall|j: int| 0 <= j < c.len() implies (#[trigger] c[j]).0.semantics == TextureSemantics::OriginalHistory
                && 1 <= c[j].0.index < h.len() + 1 by {
                if j < pre.len() {
                    assert(c[j] == pre[j]);
                }
            }
            assert forall|i: int, j: int| 0 <= i < j < c.len() implies c[i].0.index < c[j].0.index by {
                assert(c[i] == pre[i]);
                if j < pre.len() {
                    assert(c[j] == pre[j]);
                }
            }
        } else {
            assert(c =~= pre);
        }
    }
}

proof fn lemma_output_group(o: Seq<bool>)
    requires
        o.len() <= usize::MAX,
    ensures
        group_of(output_candidates(o), TextureSemantics::PassOutput, 0, o.len() as int),
    decreases o.len(),
{
    if o.len() > 0 {
        lemma_output_group(o.drop_last());
        let pre = output_candidates(o.drop_last());
        let c = output_candidates(o);
        if o.last() {
            assert forall|j: int| 0 <= j < c.len() implies (#[trigger] c[j]).0.semantics == TextureSemantics::PassOutput
                && 0 <= c[j].0.index < o.len() by {
                if j < pre.len() {
                    assert(c[j] == pre[j]);
                }
            }
            assert forall|i: int, j: int| 0 <= i < j < c.len() implies c[i].0.index < c[j].0.index by {
                assert(c[i] == pre[i]);
                if j < pre.len() {
                    assert(c[j] == pre[j]);
                }
            }
        } else {
            assert(c =~= pre);
        }
    }
}

proof fn lemma_feedback_group(f: Seq<bool>)
    requires
        f.len() <= usize::MAX,
    ensures
        group_of(feedback_candidates(f), TextureSemantics::PassFeedback, 0, f.len() as int),
    decreases f.len(),
{
    if f.len() > 0 {
        lemma_feedback_group(f.drop_last());
        let pre = feedback_candidates(f.drop_last());
        let c = feedback_candidates(f);
        if f.last() {
            assert forall|j: int| 0 <= j < c.len() implies (#[trigger] c[j]).0.semantics == TextureSemantics::PassFeedback
                && 0 <= c[j].0.index < f.len() by {
                if j < pre.len() {
                    assert(c[j] == pre[j]);
                }
            }
            assert forall|i: int, j: int| 0 <= i < j < c.len() implies c[i].0.index < c[j].0.index by {
                assert(c[i] == pre[i]);
                if j < pre.len() {
                    assert(c[j] == pre[j]);
                }
            }
        } else {
            assert(c =~= pre);
        }
    }
}

/// No two candidates name the same semantic, when no lookup texture is given twice.
pub proof fn lemma_candidates_distinct(
    pass_index: usize,
    history: Seq<bool>,
    outputs: Seq<bool>,
    feedback: Seq<bool>,
    luts: Seq<usize>,
)
    requires
        luts.no_duplicates(),
        history.len() <= usize::MAX,
        feedback.len() <= usize::MAX,
        pass_index <= outputs.len(),
    ensures
        ({
            let c = binding_candidates(pass_index, history, outputs, feedback, luts);
            forall|i: int, j: int| 0 <= i < j < c.len() ==> c[i].0 != c[j].0
        }),
{
    let fixed = seq![
        (SemanticMap { semantics: TextureSemantics::Original, index: 0usize }, TextureSource::Original),
        (SemanticMap { semantics: TextureSemantics::Source, index: 0usize }, TextureSource::Source),
        (SemanticMap { semantics: TextureSemantics::OriginalHistory, index: 0usize }, TextureSource::Original),
    ];
    let h = history_candidates(history);
    let o = output_candidates(outputs.take(pass_index as int));
    let f = feedback_candidates(feedback);
    let l = luts.map_values(|x: usize| (SemanticMap { semantics: TextureSemantics::User, index: x }, TextureSource::Lut(x)));
    lemma_history_group(history);
    lemma_output_group(outputs.take(pass_index as int));
    lemma_feedback_group(feedback);
    let c = binding_candidates(pass_index, history, outputs, feedback, luts);
    assert(c =~= fixed + h + o + f + l);
    let a = fixed.len() as int;
    let b = a + h.len();
    let d = b + o.len();
    let e = d + f.len();
    assert forall|i: int| 0 <= i < c.len() implies #[trigger] c[i] == (if i < a { fixed[i] } else if i < b { h[i - a] }
        else if i < d { o[i - b] } else if i < e { f[i - d] } else { l[i - e] }) by {}
    assert forall|i: int, j: int| 0 <= i < j < c.len() implies c[i].0 != c[j].0 by {
        if i >= e {
            assert(luts[i - e] != luts[j - e]);
        }
    }
}

/// When no lookup texture is given twice and no two semantics share a binding, the pass
/// binds each texture it reads at its binding, and leaves empty each slot that no
/// texture it reads binds.
pub proof fn law_pass_binds_each_texture(
    textures: Map<SemanticMap<TextureSemantics>, TextureBinding>,
    pass_index: usize,
    history: Seq<bool>,
    outputs: Seq<bool>,
    feedback: Seq<bool>,
    luts: Seq<usize>,
)
    requires
        luts.no_duplicates(),
        history.len() <= usize::MAX,
        feedback.len() <= usize::MAX,
        pass_index <= outputs.len(),
        forall|s1: SemanticMap<TextureSemantics>, s2: SemanticMap<TextureSemantics>|
            #[trigger] textures.contains_key(s1) && #[trigger] textures.contains_key(s2) && s1 != s2
            ==> textures[s1].binding != textures[s2].binding,
        forall|s: SemanticMap<TextureSemantics>| #[trigger] textures.contains_key(s) ==> textures[s].binding < TEXTURE_SLOTS,
    ensures
        ({
            let c = binding_candidates(pass_index, history, outputs, feedback, luts);
            let slots = bound_textures(Seq::new(TEXTURE_SLOTS as nat, |i: int| None::<TextureSource>), c, textures);
            &&& forall|k: int| 0 <= k < c.len() && #[trigger] textures.contains_key(c[k].0)
                ==> slots[textures[c[k].0].binding as int] == Some(c[k].1)
            &&& forall|j: int| 0 <= j < TEXTURE_SLOTS && (forall|k: int| 0 <= k < c.len() && #[trigger] textures.contains_key(c[k].0)
                ==> textures[c[k].0].binding != j) ==> #[trigger] slots[j] is None
        }),
{
    lemma_candidates_distinct(pass_index, history, outputs, feedback, luts);
    let c = binding_candidates(pass_index, history, outputs, feedback, luts);
    let empty = Seq::new(TEXTURE_SLOTS as nat, |i: int| None::<TextureSource>);
    law_each_texture_at_its_binding(empty, c, textures);
}

/// The candidates of the history, from `OriginalHistory1` on.
fn push_history_candidates(c: &mut Vec<(SemanticMap<TextureSemantics>, TextureSource)>, history: &Vec<bool>)
    ensures
        final(c)@ == old(c)@ + history_candidates(history@),
{
    let ghost start = c@;
    let mut i: usize = 0;
    assert(history@.take(0) =~= Seq::<bool>::empty());
    assert(c@ =~= start + history_candidates(history@.take(0)));
    while i < history.len()
        invariant
            i <= history@.len(),
            c@ == start + history_candidates(history@.take(i as int)),
        decreases history@.len() - i,
    {
        assert(history@.take(i + 1).drop_last() =~= history@.take(i as int));
        assert(history@.take(i + 1).last() == history@[i as int]);
        if history[i] {
            c.push((TextureSemantics::OriginalHistory.semantics(i + 1), TextureSource::History(i)));
        }
        assert(c@ =~= start + history_candidates(history@.take(i + 1)));
        i = i + 1;
    }
    assert(history@.take(i as int) =~= history@);
}

/// The candidates of the outputs of the first `count` passes.
fn push_output_candidates(c: &mut Vec<(SemanticMap<TextureSemantics>, TextureSource)>, outputs: &Vec<bool>, count: usize)
    requires
        count <= outputs@.len(),
    ensures
        final(c)@ == old(c)@ + output_candidates(outputs@.take(count as int)),
{
    let ghost start = c@;
    let mut i: usize = 0;
    assert(outputs@.take(0) =~= Seq::<bool>::empty());
    assert(c@ =~= start + output_candidates(outputs@.take(0)));
    while i < count
        invariant
            i <= count,
            count <= outputs@.len(),
            c@ == start + output_candidates(outputs@.take(i as int)),
        decreases count - i,
    {
        assert(outputs@.take(i + 1).drop_last() =~= outputs@.take(i as int));
        assert(outputs@.take(i + 1).last() == outputs@[i as int]);
        if outputs[i] {
            c.push((TextureSemantics::PassOutput.semantics(i), TextureSource::PassOutput(i)));
        }
        assert(c@ =~= start + output_candidates(outputs@.take(i + 1)));
        i = i + 1;
    }
}

/// The candidates of the feedback textures.
fn push_feedback_candidates(c: &mut Vec<(SemanticMap<TextureSemantics>, TextureSource)>, feedback: &Vec<bool>)
    ensures
        final(c)@ == old(c)@ + feedback_candidates(feedback@),
{
    let ghost start = c@;
    let mut i: usize = 0;
    assert(feedback@.take(0) =~= Seq::<bool>::empty());
    assert(c@ =~= start + feedback_candidates(feedback@.take(0)));
    while i < feedback.len()
        invariant
            i <= feedback@.len(),
            c@ == start + feedback_candidates(feedback@.take(i as int)),
        decreases feedback@.len() - i,
    {
        assert(feedback@.take(i + 1).drop_last() =~= feedback@.take(i as int));
        assert(feedback@.take(i + 1).last() == feedback@[i as int]);
        if feedback[i] {
            c.push((TextureSemantics::PassFeedback.semantics(i), TextureSource::PassFeedback(i)));
        }
        assert(c@ =~= start + feedback_candidates(feedback@.take(i + 1)));
        i = i + 1;
    }
    assert(feedback@.take(i as int) =~= feedback@);
}

/// The textures a pass may read, in the order they are bound.
pub fn candidates(
    pass_index: usize,
    history: &Vec<bool>,
    outputs: &Vec<bool>,
    feedback: &Vec<bool>,
    luts: &Vec<usize>,
) -> (r: Vec<(SemanticMap<TextureSemantics>, TextureSource)>)
    requires
        pass_index <= outputs@.len(),
    ensures
        r@ == binding_candidates(pass_index, history@, outputs@, feedback@, luts@),
{
    let mut c: Vec<(SemanticMap<TextureSemantics>, TextureSource)> = Vec::new();
    c.push((TextureSemantics::Original.semantics(0), TextureSource::Original));
    c.push((TextureSemantics::Source.semantics(0), TextureSource::Source));
    c.push((TextureSemantics::OriginalHistory.semantics(0), TextureSource::Original));
    push_history_candidates(&mut c, history);
    push_output_candidates(&mut c, outputs, pass_index);
    push_feedback_candidates(&mut c, feedback);
    let ghost before = c@;
    let mut i: usize = 0;
    while i < luts.len()
        invariant
            i <= luts@.len(),
            c@ == before + luts@.take(i as int).map_values(
                |l: usize| (SemanticMap { semantics: TextureSemantics::User, index: l }, TextureSource::Lut(l)),
            ),
        decreases luts@.len() - i,
    {
        c.push((TextureSemantics::User.semantics(luts[i]), TextureSource::Lut(luts[i])));
        assert(c@ =~= before + luts@.take(i + 1).map_values(
            |l: usize| (SemanticMap { semantics: TextureSemantics::User, index: l }, TextureSource::Lut(l)),
        ));
        i = i + 1;
    }
    assert(luts@.take(i as int) =~= luts@);
    assert(c@ =~= binding_candidates(pass_index, history@, outputs@, feedback@, luts@));
    c
}

/// What the pass binds: each texture it reads at its slot, the built-in uniforms it reads,
/// then the size of each texture it reads a size of, in the order of the candidates.
/// `history`, `outputs` and `feedback` say which of those textures exist; `luts` gives the
/// indices of the lookup textures in the order they are bound.
pub fn build_semantics(
    meta: &ReflectMeta,
    pass_index: usize,
    history: &Vec<bool>,
    outputs: &Vec<bool>,
    feedback: &Vec<bool>,
    luts: &Vec<usize>,
) -> (r: PassBindings)
    requires
        pass_index <= outputs@.len(),
        forall|s: SemanticMap<TextureSemantics>| #[trigger] meta.textures().contains_key(s)
            ==> meta.textures()[s].binding < TEXTURE_SLOTS,
    ensures
        r.textures@ == bound_textures(
            Seq::new(TEXTURE_SLOTS as nat, |i: int| None::<TextureSource>),
            binding_candidates(pass_index, history@, outputs@, feedback@, luts@),
            meta.textures(),
        ),
        r.uniforms@ == variable_writes(meta.variables()) + size_writes(
            binding_candidates(pass_index, history@, outputs@, feedback@, luts@),
            meta.texture_sizes(),
        ),
{
    let c = candidates(pass_index, history, outputs, feedback, luts);
    let ghost cs = c@;
    let mut textures: Vec<Option<TextureSource>> = Vec::new();
    let mut k: usize = 0;
    while k < TEXTURE_SLOTS
        invariant
            k <= TEXTURE_SLOTS,
            textures@ == Seq::new(k as nat, |i: int| None::<TextureSource>),
        decreases TEXTURE_SLOTS - k,
    {
        textures.push(None);
        assert(textures@ =~= Seq::new((k + 1) as nat, |i: int| None::<TextureSource>));
        k = k + 1;
    }
    let ghost empty = textures@;
    let mut uniforms: Vec<(MemberOffset, UniformValue)> = Vec::new();
    push_variable_write(&mut uniforms, meta, VariableSemantics::MVP, UniformValue::Mvp);
    push_variable_write(&mut uniforms, meta, VariableSemantics::Output, UniformValue::OutputSize);
    push_variable_write(&mut uniforms, meta, VariableSemantics::FinalViewport, UniformValue::FinalViewportSize);
    push_variable_write(&mut uniforms, meta, VariableSemantics::FrameCount, UniformValue::FrameCount);
    push_variable_write(&mut uniforms, meta, VariableSemantics::FrameDirection, UniformValue::FrameDirection);
    let ghost vars = uniforms@;
    assert(vars =~= variable_writes(meta.variables()));
    let mut i: usize = 0;
    assert(cs.take(0) =~= Seq::<(SemanticMap<TextureSemantics>, TextureSource)>::empty());
    assert(uniforms@ =~= vars + size_writes(cs.take(0), meta.texture_sizes()));
    while i < c.len()
        invariant
            i <= cs.len(),
            cs == c@,
            textures@ == bound_textures(empty, cs.take(i as int), meta.textures()),
            textures@.len() == TEXTURE_SLOTS,
            uniforms@ == vars + size_writes(cs.take(i as int), meta.texture_sizes()),
            forall|s: SemanticMap<TextureSemantics>| #[trigger] meta.textures().contains_key(s)
                ==> meta.textures()[s].binding < TEXTURE_SLOTS,
        decreases cs.len() - i,
    {
        assert(cs.take(i + 1).drop_last() =~= cs.take(i as int));
        assert(cs.take(i + 1).last() == cs[i as int]);
        let (sem, src) = c[i];
        if let Some(b) = texture_binding_get(&meta.texture_meta, sem) {
            textures.set(b.binding as usize, Some(src));
        }
        if let Some((offset, _)) = texture_size_meta_get(&meta.texture_size_meta, sem) {
            uniforms.push((offset, UniformValue::TextureSize(src)));
        }
        i = i + 1;
    }
    assert(cs.take(i as int) =~= cs);
    PassBindings { textures, uniforms }
}

/// Appends the write of a built-in uniform, if the pass reads it.
fn push_variable_write(u: &mut Vec<(MemberOffset, UniformValue)>, meta: &ReflectMeta, v: VariableSemantics, value: UniformValue)
    ensures
        final(u)@ == old(u)@ + variable_write(meta.variables(), v, value),
{
    if let Some((offset, _)) = variable_meta_get(&meta.variable_meta, v) {
        u.push((offset, value));
        assert(u@ =~= old(u)@ + variable_write(meta.variables(), v, value));
    } else {
        assert(u@ =~= old(u)@ + variable_write(meta.variables(), v, value));
    }
}

/// Which value a parameter takes.
#[derive(Debug, Clone, Copy, PartialEq, Eq, Structural)]
pub enum ParameterValue {
    /// The value the preset sets.
    Configured,
    /// The initial value the shader declares.
    Declared,
    /// Zero: neither the preset nor the shader gives one.
    Zero,
}

/// The value the parameter `id` takes: the preset's when it sets one, else the shader's
/// initial value when it declares the parameter, else zero.
pub open spec fn parameter_value(id: Seq<char>, configured: Seq<Seq<char>>, declared: Seq<Seq<char>>) -> ParameterValue {
    if configured.contains(id) {
        ParameterValue::Configured
    } else if declared.contains(id) {
        ParameterValue::Declared
    } else {
        ParameterValue::Zero
    }
}

/// The views of a list of names.
pub open spec fn names_view(s: Seq<String>) -> Seq<Seq<char>> {
    s.map_values(|k: String| k@)
}

/// Whether `name` is in the list.
fn listed(list: &Vec<String>, name: &str) -> (r: bool)
    ensures
        r == names_view(list@).contains(name@),
{
    let mut i: usize = 0;
    while i < list.len()
        invariant
            i <= list@.len(),
            forall|j: int| 0 <= j < i ==> list@[j]@ != name@,
        decreases list@.len() - i,
    {
        if str_eq(list[i].as_str(), name) {
            assert(names_view(list@)[i as int] == name@);
            return true;
        }
        i = i + 1;
    }
    assert forall|j: int| 0 <= j < names_view(list@).len() implies names_view(list@)[j] != name@ by {
        assert(names_view(list@)[j] == list@[j]@);
    }
    false
}

/// The parameter writes of the pass: each parameter it reads, once, at its offset, with
/// the value it takes. `configured` names the parameters the preset sets, `declared` those
/// the shader declares. The order of the writes is that in which the parameters are
/// walked, which is not specified.
pub fn parameter_bindings(meta: &ReflectMeta, configured: &Vec<String>, declared: &Vec<String>) -> (r: Vec<(MemberOffset, String, ParameterValue)>)
    ensures
        r@.len() == meta.parameters().dom().len(),
        forall|j: int| 0 <= j < r@.len() ==> {
            let (offset, id, value) = #[trigger] r@[j];
            &&& meta.parameters().contains_key(id@)
            &&& offset == meta.parameters()[id@].offset
            &&& value == parameter_value(id@, names_view(configured@), names_view(declared@))
        },
        forall|id: Seq<char>| #[trigger] meta.parameters().contains_key(id) ==> exists|j: int| 0 <= j < r@.len() && r@[j].1@ == id,
        forall|i: int, j: int| 0 <= i < j < r@.len() ==> r@[i].1@ != r@[j].1@,
{
    let keys = parameter_keys(&meta.parameter_meta);
    let ghost kv = names_view(keys@);
    let mut r: Vec<(MemberOffset, String, ParameterValue)> = Vec::new();
    let mut i: usize = 0;
    while i < keys.len()
        invariant
            i <= keys@.len(),
            kv == names_view(keys@),
            kv.to_set() == meta.parameters().dom(),
            kv.no_duplicates(),
            r@.len() == i,
            forall|j: int| 0 <= j < i ==> (#[trigger] r@[j]).1@ == keys@[j]@,
            forall|j: int| 0 <= j < i ==> {
                let (offset, id, value) = #[trigger] r@[j];
                &&& meta.parameters().contains_key(id@)
                &&& offset == meta.parameters()[id@].offset
                &&& value == parameter_value(id@, names_view(configured@), names_view(declared@))
            },
        decreases keys@.len() - i,
    {
        let id = &keys[i];
        assert(kv[i as int] == id@);
        assert(kv.to_set().contains(id@));
        let (offset, _) = parameter_meta_get(&meta.parameter_meta, id.as_str()).unwrap();
        let value = if listed(configured, id.as_str()) {
            ParameterValue::Configured
        } else if listed(declared, id.as_str()) {
            ParameterValue::Declared
        } else {
            ParameterValue::Zero
        };
        r.push((offset, id.clone(), value));
        i = i + 1;
    }
    proof {
        kv.unique_seq_to_set();
        assert forall|id: Seq<char>| #[trigger] meta.parameters().contains_key(id) implies exists|j: int| 0 <= j < r@.len() && r@[j].1@ == id by {
            assert(kv.to_set().contains(id));
            let j = choose|j: int| 0 <= j < kv.len() && kv[j] == id;
            assert(r@[j].1@ == keys@[j]@);
        }
        assert forall|a: int, b: int| 0 <= a < b < r@.len() implies r@[a].1@ != r@[b].1@ by {
            assert(kv[a] == keys@[a]@ && kv[b] == keys@[b]@);
        }
    }
    r
}

} // verus!
