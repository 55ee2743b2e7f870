//! The passes of a frame and the rotation of the frame history.

use crate::reflect::meta::{texture_binding_keys, texture_size_keys, ReflectMeta};
use crate::reflect::semantics::{SemanticMap, TextureSemantics};
use vstd::prelude::*;

verus! {

/// What planning a frame needs of a pass.
#[derive(Debug, Clone, Copy, PartialEq, Eq, Structural)]
pub struct PassFrameConfig {
    /// The frame count the pass sees is taken modulo this, when it is not 0.
    pub frame_count_mod: u32,
    /// Whether the pass reads a mipmapped input.
    pub mipmap_input: bool,
}

/// What a pass does in a frame.
#[derive(Debug, Clone, Copy, PartialEq, Eq, Structural)]
pub struct PassFrame {
    /// The frame count the pass sees.
    pub frame_count: u32,
    /// Whether the pass's output is mipmapped, because the next pass reads a mipmapped input.
    pub should_mipmap: bool,
    /// Whether mipmaps are generated for the pass's input.
    pub generate_mipmaps: bool,
    /// Whether the pass draws to the viewport rather than to its framebuffer.
    pub is_final: bool,
}

/// The frame count a pass sees: the count modulo the pass's modulus, when it has one,
/// cut to 32 bits.
pub open spec fn spec_pass_frame_count(frame_count: usize, frame_count_mod: u32) -> u32 {
    (if frame_count_mod > 0 { frame_count % (frame_count_mod as usize) } else { frame_count }) as u32
}

/// The frame count a pass sees.
pub fn pass_frame_count(frame_count: usize, frame_count_mod: u32) -> (r: u32)
    ensures
        r == spec_pass_frame_count(frame_count, frame_count_mod),
        frame_count_mod > 0 ==> r == (frame_count as int) % (frame_count_mod as int) && r < frame_count_mod,
{
    if frame_count_mod > 0 {
        let m = frame_count % (frame_count_mod as usize);
        assert(m < frame_count_mod);
        m as u32
    } else {
        frame_count as u32
    }
}

/// The number of passes that run: the passes enabled, at most all of them.
pub fn passes_to_run(pass_count: usize, passes_enabled: usize) -> (r: usize)
    ensures
        r == (if pass_count <= passes_enabled { pass_count } else { passes_enabled }),
{
    if pass_count <= passes_enabled { pass_count } else { passes_enabled }
}

/// The direction of rendering: the option's, forwards without options.
pub fn frame_direction(option: Option<i32>) -> (r: i32)
    ensures
        r == (match option {
            Some(d) => d,
            None => 1,
        }),
{
    match option {
        Some(d) => d,
        None => 1,
    }
}

/// Whether the frame first resets the history framebuffers: only when the frame's
/// options ask for it.
pub fn clears_history(option: Option<bool>) -> (r: bool)
    ensures
        r == (option == Some(true)),
{
    match option {
        Some(c) => c,
        None => false,
    }
}

/// What pass `i` of the `n` that run does in the frame.
pub open spec fn spec_pass_frame(configs: Seq<PassFrameConfig>, n: int, i: int, frame_count: usize, disable_mipmaps: bool) -> PassFrame {
    PassFrame {
        frame_count: spec_pass_frame_count(frame_count, configs[i].frame_count_mod),
        should_mipmap: i + 1 < n && configs[i + 1].mipmap_input,
        generate_mipmaps: configs[i].mipmap_input && !disable_mipmaps,
        is_final: i == n - 1,
    }
}

/// Plans the passes of a frame: the first `passes_enabled` passes run, each with its
/// frame count, mipmapping its output when the next pass reads a mipmapped input; the
/// last draws to the viewport.
pub fn plan_frame(configs: &Vec<PassFrameConfig>, passes_enabled: usize, frame_count: usize, disable_mipmaps: bool) -> (r: Vec<PassFrame>)
    ensures
        r@.len() == (if configs@.len() <= passes_enabled { configs@.len() } else { passes_enabled as nat }),
        forall|i: int| 0 <= i < r@.len() ==> #[trigger] r@[i] == spec_pass_frame(configs@, r@.len() as int, i, frame_count, disable_mipmaps),
{
    let n = passes_to_run(configs.len(), passes_enabled);
    let mut r: Vec<PassFrame> = Vec::new();
    let mut i: usize = 0;
    while i < n
        invariant
            i <= n,
            n <= configs@.len(),
            n == (if configs@.len() <= passes_enabled { configs@.len() } else { passes_enabled as nat }),
            r@.len() == i,
            forall|j: int| 0 <= j < i ==> #[trigger] r@[j] == spec_pass_frame(configs@, n as int, j, frame_count, disable_mipmaps),
        decreases n - i,
    {
        let should_mipmap = i + 1 < n && configs[i + 1].mipmap_input;
        r.push(PassFrame {
            frame_count: pass_frame_count(frame_count, configs[i].frame_count_mod),
            should_mipmap,
            generate_mipmaps: configs[i].mipmap_input && !disable_mipmaps,
            is_final: i + 1 == n,
        });
        i = i + 1;
    }
    r
}

/// The history after a frame: the oldest entry, refilled with the frame's input, moves to
/// the front.
pub open spec fn rotated<T>(s: Seq<T>) -> Seq<T> {
    if s.len() == 0 { s } else { seq![s.last()] + s.drop_last() }
}

/// Moves the oldest history entry to the front, where the frame's input is copied.
pub fn rotate_history<T>(ring: &mut Vec<T>)
    ensures
        final(ring)@ == rotated(old(ring)@),
{
    let ghost s = ring@;
    match ring.pop() {
        Some(back) => {
            ring.insert(0, back);
            assert(ring@ =~= seq![s.last()] + s.drop_last());
        },
        None => {},
    }
}

/// The most history textures or history sizes that one pass reads.
pub open spec fn spec_required_history(counts: Seq<(usize, usize)>) -> nat
    decreases counts.len(),
{
    if counts.len() == 0 {
        0
    } else {
        let rest = spec_required_history(counts.drop_last());
        let (a, b) = counts.last();
        let m = if a >= b { a as nat } else { b as nat };
        if m > rest { m } else { rest }
    }
}

/// The number of history framebuffers to keep, given each pass's count of history
/// textures and of history sizes: none when no pass reads more than one, since the first
/// history entry is the frame's input itself.
pub fn required_history_images(counts: &Vec<(usize, usize)>) -> (r: usize)
    ensures
        r == (if spec_required_history(counts@) <= 1 { 0 } else { spec_required_history(counts@) }),
{
    let mut required: usize = 0;
    let mut i: usize = 0;
    while i < counts.len()
        invariant
            i <= counts@.len(),
            required == spec_required_history(counts@.take(i as int)),
        decreases counts@.len() - i,
    {
        assert(counts@.take(i + 1).drop_last() =~= counts@.take(i as int));
        let (a, b) = counts[i];
        let m = if a >= b { a } else { b };
        if m > required {
            required = m;
        }
        i = i + 1;
    }
    assert(counts@.take(i as int) =~= counts@);
    if required <= 1 { 0 } else { required }
}

/// The most history textures or history sizes that one pass reads is at least what each
/// pass reads, and is what some pass reads (0 without passes).
pub proof fn law_required_history_is_the_largest_count(counts: Seq<(usize, usize)>)
    ensures
        forall|i: int| 0 <= i < counts.len() ==> (#[trigger] counts[i]).0 <= spec_required_history(counts)
            && counts[i].1 <= spec_required_history(counts),
        counts.len() == 0 ==> spec_required_history(counts) == 0,
        counts.len() > 0 ==> exists|i: int| 0 <= i < counts.len()
            && (spec_required_history(counts) == (#[trigger] counts[i]).0 || spec_required_history(counts) == counts[i].1),
    decreases counts.len(),
{
    if counts.len() > 0 {
        let pre = counts.drop_last();
        law_required_history_is_the_largest_count(pre);
        assert forall|i: int| 0 <= i < counts.len() implies (#[trigger] counts[i]).0 <= spec_required_history(counts)
            && counts[i].1 <= spec_required_history(counts) by {
            if i < pre.len() {
                assert(counts[i] == pre[i]);
            }
        }
        if spec_required_history(counts) != counts.last().0 && spec_required_history(counts) != counts.last().1 {
            let i = choose|i: int| 0 <= i < pre.len()
                && (spec_required_history(pre) == (#[trigger] pre[i]).0 || spec_required_history(pre) == pre[i].1);
            assert(counts[i] == pre[i]);
        } else {
            assert(counts[counts.len() - 1] == counts.last());
        }
    }
}

/// The history framebuffers kept: as many as the most history textures or sizes that one
/// pass reads, every pass counted; none when no pass reads more than one, since the first
/// history entry is the frame's input itself.
pub proof fn law_history_images_cover_every_pass(counts: Seq<(usize, usize)>)
    ensures
        forall|i: int| 0 <= i < counts.len() && ((#[trigger] counts[i]).0 > 1 || counts[i].1 > 1) ==> {
            let r = if spec_required_history(counts) <= 1 { 0 } else { spec_required_history(counts) };
            counts[i].0 <= r && counts[i].1 <= r
        },
        (if spec_required_history(counts) <= 1 { 0 } else { spec_required_history(counts) }) == 0
            <==> forall|i: int| 0 <= i < counts.len() ==> (#[trigger] counts[i]).0 <= 1 && counts[i].1 <= 1,
{
    law_required_history_is_the_largest_count(counts);
    if spec_required_history(counts) > 1 {
        let i = choose|i: int| 0 <= i < counts.len()
            && (spec_required_history(counts) == (#[trigger] counts[i]).0 || spec_required_history(counts) == counts[i].1);
        assert(!(counts[i].0 <= 1 && counts[i].1 <= 1));
    }
}

/// Rotating the history keeps every entry: only the oldest moves, to the front.
pub proof fn law_rotation_keeps_entries<T>(s: Seq<T>)
    ensures
        rotated(s).len() == s.len(),
        rotated(s).to_multiset() == s.to_multiset(),
        s.len() > 0 ==> rotated(s)[0] == s.last() && rotated(s).skip(1) == s.drop_last(),
{
    if s.len() > 0 {
        vstd::seq_lib::lemma_multiset_commutative(seq![s.last()], s.drop_last());
        vstd::seq_lib::lemma_multiset_commutative(s.drop_last(), seq![s.last()]);
        assert(s =~= s.drop_last() + seq![s.last()]);
        assert(rotated(s).skip(1) =~= s.drop_last());
    }
}

/// The history semantics among the texture semantics.
pub open spec fn history_semantics(keys: Set<SemanticMap<TextureSemantics>>) -> Set<SemanticMap<TextureSemantics>> {
    keys.filter(|k: SemanticMap<TextureSemantics>| k.semantics == TextureSemantics::OriginalHistory)
}

/// The number of history semantics among the keys, each listed once.
fn count_history(keys: &Vec<SemanticMap<TextureSemantics>>) -> (r: usize)
    requires
        keys@.no_duplicates(),
    ensures
        r == history_semantics(keys@.to_set()).len(),
{
    let mut n: usize = 0;
    let mut i: usize = 0;
    let ghost mut seen = Set::<SemanticMap<TextureSemantics>>::empty();
    proof {
        assert(keys@.take(0).to_set() =~= Set::<SemanticMap<TextureSemantics>>::empty());
        assert(seen =~= history_semantics(keys@.take(0).to_set()));
    }
    while i < keys.len()
        invariant
            i <= keys@.len(),
            keys@.no_duplicates(),
            seen == history_semantics(keys@.take(i as int).to_set()),
            seen.finite(),
            n == seen.len(),
            n <= i,
        decreases keys@.len() - i,
    {
        let k = keys[i];
        proof {
            broadcast use vstd::seq_lib::group_seq_properties;
            assert(keys@.take(i + 1) =~= keys@.take(i as int).push(k));
            assert(keys@.take(i + 1).to_set() =~= keys@.take(i as int).to_set().insert(k));
            assert(!keys@.take(i as int).to_set().contains(k)) by {
                if keys@.take(i as int).contains(k) {
                    let j = choose|j: int| 0 <= j < i && keys@.take(i as int)[j] == k;
                    assert(keys@[j] == keys@[i as int]);
                }
            }
        }
        if k.semantics == TextureSemantics::OriginalHistory {
            proof {
                assert(history_semantics(keys@.take(i + 1).to_set()) =~= seen.insert(k));
                seen = seen.insert(k);
            }
            n = n + 1;
        } else {
            proof {
                assert(history_semantics(keys@.take(i + 1).to_set()) =~= seen);
            }
        }
        i = i + 1;
    }
    assert(keys@.take(i as int) =~= keys@);
    n
}

/// How many history textures and how many history sizes the pass reads.
pub fn history_usage(meta: &ReflectMeta) -> (r: (usize, usize))
    ensures
        r.0 == history_semantics(meta.textures().dom()).len(),
        r.1 == history_semantics(meta.texture_sizes().dom()).len(),
{
    let textures = texture_binding_keys(&meta.texture_meta);
    let sizes = texture_size_keys(&meta.texture_size_meta);
    (count_history(&textures), count_history(&sizes))
}

/// The number of history framebuffers the passes need: see `required_history_images`,
/// over the history textures and sizes each pass reads.
pub fn init_history(metas: &Vec<ReflectMeta>) -> (r: usize)
    ensures
        r == (if spec_required_history(history_counts(metas@)) <= 1 { 0 } else { spec_required_history(history_counts(metas@)) }),
{
    let mut counts: Vec<(usize, usize)> = Vec::new();
    let mut i: usize = 0;
    while i < metas.len()
        invariant
            i <= metas@.len(),
            counts@ == history_counts(metas@.take(i as int)),
        decreases metas@.len() - i,
    {
        let c = history_usage(&metas[i]);
        counts.push(c);
        assert(metas@.take(i + 1).drop_last() =~= metas@.take(i as int));
        assert(counts@ =~= history_counts(metas@.take(i + 1)));
        i = i + 1;
    }
    assert(metas@.take(i as int) =~= metas@);
    required_history_images(&counts)
}

/// The history textures and sizes each pass reads.
pub open spec fn history_counts(metas: Seq<ReflectMeta>) -> Seq<(usize, usize)>
    decreases metas.len(),
{
    if metas.len() == 0 {
        Seq::empty()
    } else {
        history_counts(metas.drop_last()).push((
            history_semantics(metas.last().textures().dom()).len() as usize,
            history_semantics(metas.last().texture_sizes().dom()).len() as usize,
        ))
    }
}

} // verus!
