//! Guards every `Normalize` of the `GLSL.std.450` set against a zero input.
//!
//! Shader model 3 compilers fold `normalize(0)` into a NaN literal and then refuse it.
//! This pass adds a tiny epsilon vector to the input of every `Normalize`: for a non-zero
//! input the perturbation is lost in the normalization, and a zero input now gives a
//! finite vector.

use crate::front::spirv_passes::builder::{same_but_globals, Builder};
use crate::front::spirv_passes::lookup::{find_with_result, first_with_result};
use crate::front::spirv_passes::module::{
    blocks_view, functions_view, instrs_view, Block, BlockV, Function, FunctionV, InstrV,
    Instruction, Module, ModuleV, Operand, OperandV, GLSL_NORMALIZE, OP_CONSTANT,
    OP_CONSTANT_COMPOSITE, OP_EXT_INST, OP_EXT_INST_IMPORT, OP_F_ADD, OP_TYPE_FLOAT,
    OP_TYPE_VECTOR,
};
use crate::front::spirv_passes::sets::{
    lemma_word_set_bounded, new_word_map, new_word_set, word_map, word_map_get, word_map_insert,
    word_set, word_set_elements, word_set_insert, word_set_is_empty,
};
use crate::reflect::names::str_eq;
use rustc_hash::{FxHashMap, FxHashSet};
use vstd::prelude::*;

verus! {

/// The bit pattern of the `f32` value `1e-7`, the epsilon added to each component.
pub const NORMALIZE_EPSILON_BITS: u32 = 0x33d6_bf95;

/// The pass, over the module it rewrites.
pub struct HardenNormalize {
    pub builder: Builder,
}

/// Whether `i` is `OpExtInst` calling `Normalize` of the instruction set `ext`.
pub open spec fn spec_is_normalize(i: InstrV, ext: u32) -> bool {
    &&& i.opcode == OP_EXT_INST
    &&& i.operands.len() > 1
    &&& i.operands[0] == OperandV::IdRef(ext)
    &&& i.operands[1] == OperandV::LiteralExtInstInteger(GLSL_NORMALIZE)
}

/// Whether `instr` calls `Normalize` of the instruction set `ext`.
pub fn is_normalize(instr: &Instruction, ext_set: u32) -> (r: bool)
    ensures
        r == spec_is_normalize(instr@, ext_set),
{
    if instr.opcode != OP_EXT_INST || instr.operands.len() < 2 {
        return false;
    }
    let first_ok = match &instr.operands[0] {
        Operand::IdRef(set) => *set == ext_set,
        _ => false,
    };
    if !first_ok {
        return false;
    }
    match &instr.operands[1] {
        Operand::LiteralExtInstInteger(opc) => *opc == GLSL_NORMALIZE,
        _ => false,
    }
}

/// The result id of the first import of `GLSL.std.450` (which may have none).
pub open spec fn first_glsl_import(s: Seq<InstrV>) -> Option<u32>
    decreases s.len(),
{
    if s.len() == 0 {
        None
    } else if s[0].opcode == OP_EXT_INST_IMPORT && s[0].operands.len() > 0
        && s[0].operands[0] == OperandV::LiteralString("GLSL.std.450"@) {
        s[0].result_id
    } else {
        first_glsl_import(s.drop_first())
    }
}

/// The result types of the calls of `Normalize` of `ext` among the instructions.
pub open spec fn normalize_types_instrs(s: Seq<InstrV>, ext: u32) -> Set<u32>
    decreases s.len(),
{
    if s.len() == 0 {
        Set::empty()
    } else {
        let rest = normalize_types_instrs(s.drop_last(), ext);
        let i = s.last();
        if spec_is_normalize(i, ext) && i.result_type is Some {
            rest.insert(i.result_type->Some_0)
        } else {
            rest
        }
    }
}

/// The result types of the calls of `Normalize` of `ext` in the blocks.
pub open spec fn normalize_types_blocks(s: Seq<BlockV>, ext: u32) -> Set<u32>
    decreases s.len(),
{
    if s.len() == 0 {
        Set::empty()
    } else {
        normalize_types_blocks(s.drop_last(), ext).union(normalize_types_instrs(s.last().instructions, ext))
    }
}

/// The result types of the calls of `Normalize` of `ext` in the functions.
pub open spec fn normalize_result_types(s: Seq<FunctionV>, ext: u32) -> Set<u32>
    decreases s.len(),
{
    if s.len() == 0 {
        Set::empty()
    } else {
        normalize_result_types(s.drop_last(), ext).union(normalize_types_blocks(s.last().blocks, ext))
    }
}

/// The number of calls of `Normalize` of `ext` in the instructions.
pub open spec fn normalize_count_instrs(s: Seq<InstrV>, ext: u32) -> nat
    decreases s.len(),
{
    if s.len() == 0 {
        0
    } else {
        normalize_count_instrs(s.drop_last(), ext) + if spec_is_normalize(s.last(), ext) { 1nat } else { 0nat }
    }
}

/// The number of calls of `Normalize` of `ext` in the blocks.
pub open spec fn normalize_count_blocks(s: Seq<BlockV>, ext: u32) -> nat
    decreases s.len(),
{
    if s.len() == 0 {
        0
    } else {
        normalize_count_blocks(s.drop_last(), ext) + normalize_count_instrs(s.last().instructions, ext)
    }
}

/// The number of calls of `Normalize` of `ext` in the functions.
pub open spec fn normalize_count(s: Seq<FunctionV>, ext: u32) -> nat
    decreases s.len(),
{
    if s.len() == 0 {
        0
    } else {
        normalize_count(s.drop_last(), ext) + normalize_count_blocks(s.last().blocks, ext)
    }
}

/// The float type and the number of components of a float scalar or vector type;
/// `None` for any other type.
pub open spec fn spec_float_type_and_count(g: Seq<InstrV>, t: u32) -> Option<(u32, u32)> {
    match first_with_result(g, t) {
        None => None,
        Some(ti) => if ti.opcode == OP_TYPE_FLOAT {
            Some((t, 1u32))
        } else if ti.opcode == OP_TYPE_VECTOR && ti.operands.len() >= 2 && ti.operands[0].id_ref_any() is Some
            && ti.operands[1] is LiteralBit32 {
            let ct = ti.operands[0].id_ref_any()->Some_0;
            match first_with_result(g, ct) {
                Some(ci) => if ci.opcode == OP_TYPE_FLOAT {
                    Some((ct, ti.operands[1]->LiteralBit32_0))
                } else {
                    None
                },
                None => None,
            }
        } else {
            None
        },
    }
}

/// There are no more result types than calls.
pub proof fn lemma_normalize_types_instrs_bounded(s: Seq<InstrV>, ext: u32)
    ensures
        normalize_types_instrs(s, ext).finite(),
        normalize_types_instrs(s, ext).len() <= normalize_count_instrs(s, ext),
    decreases s.len(),
{
    if s.len() > 0 {
        lemma_normalize_types_instrs_bounded(s.drop_last(), ext);
    }
}

/// There are no more result types than calls.
pub proof fn lemma_normalize_types_blocks_bounded(s: Seq<BlockV>, ext: u32)
    ensures
        normalize_types_blocks(s, ext).finite(),
        normalize_types_blocks(s, ext).len() <= normalize_count_blocks(s, ext),
    decreases s.len(),
{
    if s.len() > 0 {
        lemma_normalize_types_blocks_bounded(s.drop_last(), ext);
        lemma_normalize_types_instrs_bounded(s.last().instructions, ext);
        vstd::set_lib::lemma_len_union(normalize_types_blocks(s.drop_last(), ext), normalize_types_instrs(s.last().instructions, ext));
    }
}

/// There are no more result types than calls.
pub proof fn lemma_normalize_result_types_bounded(s: Seq<FunctionV>, ext: u32)
    ensures
        normalize_result_types(s, ext).finite(),
        normalize_result_types(s, ext).len() <= normalize_count(s, ext),
    decreases s.len(),
{
    if s.len() > 0 {
        lemma_normalize_result_types_bounded(s.drop_last(), ext);
        lemma_normalize_types_blocks_bounded(s.last().blocks, ext);
        vstd::set_lib::lemma_len_union(normalize_result_types(s.drop_last(), ext), normalize_types_blocks(s.last().blocks, ext));
    }
}

/// `OpConstant ft epsilon` with result id `id`.
pub open spec fn scalar_epsilon(ft: u32, id: u32) -> InstrV {
    InstrV {
        opcode: OP_CONSTANT,
        result_type: Some(ft),
        result_id: Some(id),
        operands: seq![OperandV::LiteralBit32(NORMALIZE_EPSILON_BITS)],
    }
}

/// `OpConstantComposite t` of `count` times the constant `scalar`, with result id `id`.
pub open spec fn composite_epsilon(t: u32, count: u32, scalar: u32, id: u32) -> InstrV {
    InstrV {
        opcode: OP_CONSTANT_COMPOSITE,
        result_type: Some(t),
        result_id: Some(id),
        operands: Seq::new(count as nat, |k: int| OperandV::IdRef(scalar)),
    }
}

/// Whether `id` is declared in `g` as the epsilon of type `t`, whose float type is `ft`
/// and which has `count` components: the scalar constant itself for one component, else
/// a composite of the scalar constant.
pub open spec fn epsilon_declared(g: Seq<InstrV>, t: u32, ft: u32, count: u32, id: u32) -> bool {
    if count == 1 {
        g.contains(scalar_epsilon(ft, id))
    } else {
        exists|e: u32| g.contains(composite_epsilon(t, count, e, id)) && #[trigger] g.contains(scalar_epsilon(ft, e))
    }
}

/// Whether every instruction is a constant.
pub open spec fn all_constants(s: Seq<InstrV>) -> bool {
    forall|k: int| 0 <= k < s.len() ==> (#[trigger] s[k]).opcode == OP_CONSTANT || s[k].opcode == OP_CONSTANT_COMPOSITE
}

/// Whether no two scalar constants of `s` have the same type.
pub open spec fn one_scalar_per_type(s: Seq<InstrV>) -> bool {
    forall|k1: int, k2: int| 0 <= k1 < k2 < s.len() && (#[trigger] s[k1]).opcode == OP_CONSTANT
        && (#[trigger] s[k2]).opcode == OP_CONSTANT ==> s[k1].result_type != s[k2].result_type
}

/// What creating the epsilon constants for `types` does: it appends constants only,
/// at most two ids per type, and maps each float scalar or vector type of `types` to its
/// epsilon, one scalar constant per float type.
pub open spec fn epsilon_constants_made(old: Builder, new: Builder, types: Set<u32>, eps: Map<u32, u32>) -> bool {
    let g0 = old.module@.types_global_values;
    let g = new.module@.types_global_values;
    &&& same_but_globals(old.module@, new.module@)
    &&& g.len() >= g0.len()
    &&& g.subrange(0, g0.len() as int) == g0
    &&& all_constants(g.skip(g0.len() as int))
    &&& one_scalar_per_type(g.skip(g0.len() as int))
    &&& old.next_id <= new.next_id <= old.next_id + 2 * types.len()
    &&& eps.dom() == types.filter(|t: u32| spec_float_type_and_count(g0, t) is Some)
    &&& forall|t: u32| #[trigger] eps.dom().contains(t) ==> epsilon_declared(
        g,
        t,
        spec_float_type_and_count(g0, t)->Some_0.0,
        spec_float_type_and_count(g0, t)->Some_0.1,
        eps[t],
    )
}

/// Looking up a result id past a prefix.
pub proof fn lemma_first_with_result_append(g: Seq<InstrV>, x: Seq<InstrV>, id: u32)
    ensures
        first_with_result(g + x, id) == match first_with_result(g, id) {
            Some(i) => Some(i),
            None => first_with_result(x, id),
        },
    decreases g.len(),
{
    if g.len() == 0 {
        assert(g + x =~= x);
    } else {
        assert((g + x).drop_first() =~= g.drop_first() + x);
        lemma_first_with_result_append(g.drop_first(), x, id);
    }
}

/// What the lookup finds is in the sequence.
pub proof fn lemma_first_with_result_found(s: Seq<InstrV>, id: u32)
    ensures
        first_with_result(s, id) is Some ==> s.contains(first_with_result(s, id)->Some_0),
    decreases s.len(),
{
    if s.len() > 0 && s[0].result_id != Some(id) {
        lemma_first_with_result_found(s.drop_first(), id);
        if first_with_result(s, id) is Some {
            let k = choose|k: int| 0 <= k < s.drop_first().len() && s.drop_first()[k] == first_with_result(s, id)->Some_0;
            assert(s[k + 1] == first_with_result(s, id)->Some_0);
        }
    } else if s.len() > 0 {
        assert(s[0] == first_with_result(s, id)->Some_0);
    }
}

/// Appending constants changes no type's float type and component count.
pub proof fn lemma_float_type_and_count_append(g: Seq<InstrV>, x: Seq<InstrV>, t: u32)
    requires
        all_constants(x),
    ensures
        spec_float_type_and_count(g + x, t) == spec_float_type_and_count(g, t),
{
    lemma_first_with_result_append(g, x, t);
    lemma_first_with_result_found(x, t);
    if first_with_result(g, t) is Some {
        let ti = first_with_result(g, t)->Some_0;
        if ti.opcode == OP_TYPE_VECTOR && ti.operands.len() >= 2 && ti.operands[0].id_ref_any() is Some {
            let ct = ti.operands[0].id_ref_any()->Some_0;
            lemma_first_with_result_append(g, x, ct);
            lemma_first_with_result_found(x, ct);
        }
    }
}

/// A declaration stays declared when instructions are appended.
pub proof fn lemma_epsilon_declared_extend(g: Seq<InstrV>, g2: Seq<InstrV>, t: u32, ft: u32, count: u32, id: u32)
    requires
        epsilon_declared(g, t, ft, count, id),
        g2.len() >= g.len(),
        g2.subrange(0, g.len() as int) == g,
    ensures
        epsilon_declared(g2, t, ft, count, id),
{
    if count == 1 {
        let k = choose|k: int| 0 <= k < g.len() && g[k] == scalar_epsilon(ft, id);
        assert(g2.subrange(0, g.len() as int)[k] == g2[k]);
    } else {
        let e = choose|e: u32| g.contains(composite_epsilon(t, count, e, id)) && #[trigger] g.contains(scalar_epsilon(ft, e));
        let k1 = choose|k: int| 0 <= k < g.len() && g[k] == composite_epsilon(t, count, e, id);
        let k2 = choose|k: int| 0 <= k < g.len() && g[k] == scalar_epsilon(ft, e);
        assert(g2.subrange(0, g.len() as int)[k1] == g2[k1]);
        assert(g2.subrange(0, g.len() as int)[k2] == g2[k2]);
        assert(g2.contains(composite_epsilon(t, count, e, id)));
        assert(g2.contains(scalar_epsilon(ft, e)));
    }
}

/// Whether `g` is `g0` followed by constants, no two scalar ones of the same type.
pub open spec fn extends_with_constants(g0: Seq<InstrV>, g: Seq<InstrV>) -> bool {
    &&& g.len() >= g0.len()
    &&& g.subrange(0, g0.len() as int) == g0
    &&& all_constants(g.skip(g0.len() as int))
    &&& one_scalar_per_type(g.skip(g0.len() as int))
}

/// Constants whose scalar ones are of types in `cache`, followed by constants whose scalar
/// ones are of the type `ft` outside `cache`, have no two scalar ones of the same type.
pub proof fn lemma_scalars_extend(a: Seq<InstrV>, b: Seq<InstrV>, cache: Set<u32>, ft: u32)
    requires
        all_constants(a),
        one_scalar_per_type(a),
        all_constants(b),
        one_scalar_per_type(b),
        forall|k: int| 0 <= k < a.len() && (#[trigger] a[k]).opcode == OP_CONSTANT ==> cache.contains(a[k].result_type->Some_0),
        forall|k: int| 0 <= k < b.len() && (#[trigger] b[k]).opcode == OP_CONSTANT ==> b[k].result_type == Some(ft) && !cache.contains(ft),
    ensures
        all_constants(a + b),
        one_scalar_per_type(a + b),
{
    let c = a + b;
    assert forall|k: int| 0 <= k < c.len() implies (#[trigger] c[k]).opcode == OP_CONSTANT || c[k].opcode == OP_CONSTANT_COMPOSITE by {
        if k < a.len() {
            assert(c[k] == a[k]);
        } else {
            assert(c[k] == b[k - a.len()]);
        }
    }
    assert forall|k1: int, k2: int| 0 <= k1 < k2 < c.len() && (#[trigger] c[k1]).opcode == OP_CONSTANT
        && (#[trigger] c[k2]).opcode == OP_CONSTANT implies c[k1].result_type != c[k2].result_type by {
        if k2 < a.len() {
            assert(c[k1] == a[k1] && c[k2] == a[k2]);
        } else if k1 >= a.len() {
            assert(c[k1] == b[k1 - a.len()] && c[k2] == b[k2 - a.len()]);
        } else {
            assert(c[k1] == a[k1] && c[k2] == b[k2 - a.len()]);
        }
    }
}

/// Adds the result types of the calls of `Normalize` among the instructions.
fn collect_in_instrs(instrs: &Vec<Instruction>, ext_set: u32, types: &mut FxHashSet<u32>)
    ensures
        word_set(*final(types)) == word_set(*old(types)).union(normalize_types_instrs(instrs_view(instrs@), ext_set)),
{
    let ghost s = instrs_view(instrs@);
    let mut i: usize = 0;
    while i < instrs.len()
        invariant
            i <= instrs@.len(),
            s == instrs_view(instrs@),
            word_set(*types) == word_set(*old(types)).union(normalize_types_instrs(s.take(i as int), ext_set)),
        decreases instrs@.len() - i,
    {
        assert(s.take(i + 1).drop_last() =~= s.take(i as int));
        assert(s.take(i + 1).last() == instrs@[i as int]@);
        let instr = &instrs[i];
        if is_normalize(instr, ext_set) {
            if let Some(t) = instr.result_type {
                word_set_insert(types, t);
            }
        }
        i = i + 1;
        assert(word_set(*types) =~= word_set(*old(types)).union(normalize_types_instrs(s.take(i as int), ext_set)));
    }
    assert(s.take(i as int) =~= s);
}

/// Adds the result types of the calls of `Normalize` in the blocks.
fn collect_in_blocks(blocks: &Vec<Block>, ext_set: u32, types: &mut FxHashSet<u32>)
    ensures
        word_set(*final(types)) == word_set(*old(types)).union(normalize_types_blocks(blocks_view(blocks@), ext_set)),
{
    let ghost s = blocks_view(blocks@);
    let mut i: usize = 0;
    while i < blocks.len()
        invariant
            i <= blocks@.len(),
            s == blocks_view(blocks@),
            word_set(*types) == word_set(*old(types)).union(normalize_types_blocks(s.take(i as int), ext_set)),
        decreases blocks@.len() - i,
    {
        assert(s.take(i + 1).drop_last() =~= s.take(i as int));
        assert(s.take(i + 1).last() == blocks@[i as int]@);
        collect_in_instrs(&blocks[i].instructions, ext_set, types);
        i = i + 1;
        assert(word_set(*types) =~= word_set(*old(types)).union(normalize_types_blocks(s.take(i as int), ext_set)));
    }
    assert(s.take(i as int) =~= s);
}

/// Whether `i` is rewritten: a call of `Normalize` of `ext` whose result type has an
/// epsilon in `eps` and whose input is an id.
pub open spec fn hardens(i: InstrV, ext: u32, eps: Map<u32, u32>) -> bool {
    &&& spec_is_normalize(i, ext)
    &&& i.result_type is Some
    &&& eps.contains_key(i.result_type->Some_0)
    &&& i.operands.len() > 2
    &&& i.operands[2] is IdRef
}

/// `OpFAdd` of the input of `i` and the epsilon of its type, with result id `id`.
pub open spec fn epsilon_add(i: InstrV, eps: Map<u32, u32>, id: u32) -> InstrV {
    InstrV {
        opcode: OP_F_ADD,
        result_type: i.result_type,
        result_id: Some(id),
        operands: seq![i.operands[2], OperandV::IdRef(eps[i.result_type->Some_0])],
    }
}

/// The instructions with each rewritten call preceded by the addition of the epsilon,
/// whose result becomes the call's input; the additions take ids from `next` on. Also
/// the next unused id.
pub open spec fn harden_instrs(s: Seq<InstrV>, ext: u32, eps: Map<u32, u32>, next: int) -> (Seq<InstrV>, int)
    decreases s.len(),
{
    if s.len() == 0 {
        (Seq::empty(), next)
    } else {
        let (pre, n) = harden_instrs(s.drop_last(), ext, eps, next);
        let i = s.last();
        if hardens(i, ext, eps) {
            (
                pre.push(epsilon_add(i, eps, n as u32)).push(
                    InstrV { operands: i.operands.update(2, OperandV::IdRef(n as u32)), ..i },
                ),
                n + 1,
            )
        } else {
            (pre.push(i), n)
        }
    }
}

/// The blocks with their calls rewritten, in order, and the next unused id.
pub open spec fn harden_blocks(s: Seq<BlockV>, ext: u32, eps: Map<u32, u32>, next: int) -> (Seq<BlockV>, int)
    decreases s.len(),
{
    if s.len() == 0 {
        (Seq::empty(), next)
    } else {
        let (pre, n) = harden_blocks(s.drop_last(), ext, eps, next);
        let (is, n2) = harden_instrs(s.last().instructions, ext, eps, n);
        (pre.push(BlockV { instructions: is, ..s.last() }), n2)
    }
}

/// The functions with their calls rewritten, in order, and the next unused id.
pub open spec fn harden_functions(s: Seq<FunctionV>, ext: u32, eps: Map<u32, u32>, next: int) -> (Seq<FunctionV>, int)
    decreases s.len(),
{
    if s.len() == 0 {
        (Seq::empty(), next)
    } else {
        let (pre, n) = harden_functions(s.drop_last(), ext, eps, next);
        let (bs, n2) = harden_blocks(s.last().blocks, ext, eps, n);
        (pre.push(FunctionV { blocks: bs, ..s.last() }), n2)
    }
}

/// Each rewritten call takes one id.
pub proof fn lemma_harden_instrs_ids(s: Seq<InstrV>, ext: u32, eps: Map<u32, u32>, next: int)
    ensures
        next <= harden_instrs(s, ext, eps, next).1 <= next + normalize_count_instrs(s, ext),
    decreases s.len(),
{
    if s.len() > 0 {
        lemma_harden_instrs_ids(s.drop_last(), ext, eps, next);
    }
}

/// Each rewritten call takes one id.
pub proof fn lemma_harden_blocks_ids(s: Seq<BlockV>, ext: u32, eps: Map<u32, u32>, next: int)
    ensures
        harden_blocks(s, ext, eps, next).0.len() == s.len(),
        next <= harden_blocks(s, ext, eps, next).1 <= next + normalize_count_blocks(s, ext),
    decreases s.len(),
{
    if s.len() > 0 {
        lemma_harden_blocks_ids(s.drop_last(), ext, eps, next);
        lemma_harden_instrs_ids(s.last().instructions, ext, eps, harden_blocks(s.drop_last(), ext, eps, next).1);
    }
}

/// Each rewritten call takes one id.
pub proof fn lemma_harden_functions_ids(s: Seq<FunctionV>, ext: u32, eps: Map<u32, u32>, next: int)
    ensures
        harden_functions(s, ext, eps, next).0.len() == s.len(),
        next <= harden_functions(s, ext, eps, next).1 <= next + normalize_count(s, ext),
    decreases s.len(),
{
    if s.len() > 0 {
        lemma_harden_functions_ids(s.drop_last(), ext, eps, next);
        lemma_harden_blocks_ids(s.last().blocks, ext, eps, harden_functions(s.drop_last(), ext, eps, next).1);
    }
}

/// A prefix has no more calls than the whole.
pub proof fn lemma_normalize_count_instrs_prefix(s: Seq<InstrV>, ext: u32, i: int)
    requires
        0 <= i <= s.len(),
    ensures
        normalize_count_instrs(s.take(i), ext) <= normalize_count_instrs(s, ext),
    decreases s.len(),
{
    if i < s.len() {
        assert(s.drop_last().take(i) =~= s.take(i));
        lemma_normalize_count_instrs_prefix(s.drop_last(), ext, i);
    } else {
        assert(s.take(i) =~= s);
    }
}

/// A prefix has no more calls than the whole.
pub proof fn lemma_normalize_count_blocks_prefix(s: Seq<BlockV>, ext: u32, i: int)
    requires
        0 <= i <= s.len(),
    ensures
        normalize_count_blocks(s.take(i), ext) <= normalize_count_blocks(s, ext),
    decreases s.len(),
{
    if i < s.len() {
        assert(s.drop_last().take(i) =~= s.take(i));
        lemma_normalize_count_blocks_prefix(s.drop_last(), ext, i);
    } else {
        assert(s.take(i) =~= s);
    }
}

/// A prefix has no more calls than the whole.
pub proof fn lemma_normalize_count_prefix(s: Seq<FunctionV>, ext: u32, i: int)
    requires
        0 <= i <= s.len(),
    ensures
        normalize_count(s.take(i), ext) <= normalize_count(s, ext),
    decreases s.len(),
{
    if i < s.len() {
        assert(s.drop_last().take(i) =~= s.take(i));
        lemma_normalize_count_prefix(s.drop_last(), ext, i);
    } else {
        assert(s.take(i) =~= s);
    }
}

/// Rewrites the calls among the instructions, taking ids from `builder`.
fn harden_instructions(builder: &mut Builder, instrs: &mut Vec<Instruction>, ext_set: u32, eps: &FxHashMap<u32, u32>)
    requires
        old(builder).next_id + normalize_count_instrs(instrs_view(old(instrs)@), ext_set) < u32::MAX,
    ensures
        final(builder).module@ == old(builder).module@,
        (instrs_view(final(instrs)@), final(builder).next_id as int)
            == harden_instrs(instrs_view(old(instrs)@), ext_set, word_map(*eps), old(builder).next_id as int),
{
    let ghost orig = instrs_view(instrs@);
    let ghost start = builder.next_id as int;
    let ghost epsm = word_map(*eps);
    let mut source: Vec<Instruction> = Vec::new();
    std::mem::swap(&mut source, instrs);
    let mut i: usize = 0;
    assert(instrs_view(instrs@) =~= harden_instrs(orig.take(0), ext_set, epsm, start).0);
    while i < source.len()
        invariant
            i <= source@.len(),
            orig == instrs_view(source@),
            epsm == word_map(*eps),
            builder.module@ == old(builder).module@,
            start == old(builder).next_id,
            start + normalize_count_instrs(orig, ext_set) < u32::MAX,
            (instrs_view(instrs@), builder.next_id as int) == harden_instrs(orig.take(i as int), ext_set, epsm, start),
        decreases source@.len() - i,
    {
        proof {
            assert(orig.take(i + 1).drop_last() =~= orig.take(i as int));
            assert(orig.take(i + 1).last() == source@[i as int]@);
            lemma_harden_instrs_ids(orig.take(i as int), ext_set, epsm, start);
            lemma_normalize_count_instrs_prefix(orig, ext_set, i + 1);
        }
        let instr = source[i].duplicate();
        let input: Option<u32> = if instr.operands.len() > 2 {
            match &instr.operands[2] {
                Operand::IdRef(x) => Some(*x),
                _ => None,
            }
        } else {
            None
        };
        let eps_of: Option<(u32, u32)> = if is_normalize(&instr, ext_set) {
            match instr.result_type {
                Some(rt) => match word_map_get(eps, rt) {
                    Some(e) => Some((rt, e)),
                    None => None,
                },
                None => None,
            }
        } else {
            None
        };
        proof {
            if instr@.operands.len() > 2 {
                assert(instr@.operands[2] == instr.operands@[2]@);
            }
        }
        match (eps_of, input) {
            (Some((rt, e)), Some(input_id)) => {
                let ghost pre = instrs_view(instrs@);
                let fadd_id = builder.id();
                let add = Instruction::new(OP_F_ADD, Some(rt), Some(fadd_id), vec![Operand::IdRef(input_id), Operand::IdRef(e)]);
                assert(instr@.operands[2] == OperandV::IdRef(input_id));
                assert(epsm[rt] == e && instr@.result_type == Some(rt));
                assert(add@.operands =~= seq![instr@.operands[2], OperandV::IdRef(epsm[rt])]);
                assert(add@ == epsilon_add(instr@, epsm, fadd_id));
                instrs.push(add);
                let mut rewritten = instr;
                rewritten.operands.set(2, Operand::IdRef(fadd_id));
                assert(rewritten@.operands =~= instr@.operands.update(2, OperandV::IdRef(fadd_id)));
                assert(rewritten@ == InstrV { operands: instr@.operands.update(2, OperandV::IdRef(fadd_id)), ..instr@ });
                instrs.push(rewritten);
                assert(instrs_view(instrs@) =~= pre.push(epsilon_add(instr@, epsm, fadd_id)).push(rewritten@));
            },
            _ => {
                let ghost pre = instrs_view(instrs@);
                instrs.push(instr);
                assert(instrs_view(instrs@) =~= pre.push(instr@));
            },
        }
        i = i + 1;
    }
    assert(orig.take(i as int) =~= orig);
}

/// Rewrites the calls in the blocks, in order, taking ids from `builder`.
fn harden_block_list(builder: &mut Builder, blocks: &mut Vec<Block>, ext_set: u32, eps: &FxHashMap<u32, u32>)
    requires
        old(builder).next_id + normalize_count_blocks(blocks_view(old(blocks)@), ext_set) < u32::MAX,
    ensures
        final(builder).module@ == old(builder).module@,
        (blocks_view(final(blocks)@), final(builder).next_id as int)
            == harden_blocks(blocks_view(old(blocks)@), ext_set, word_map(*eps), old(builder).next_id as int),
{
    let ghost orig = blocks_view(blocks@);
    let ghost start = builder.next_id as int;
    let ghost epsm = word_map(*eps);
    let mut i: usize = 0;
    while i < blocks.len()
        invariant
            i <= blocks@.len(),
            blocks@.len() == orig.len(),
            orig == blocks_view(old(blocks)@),
            epsm == word_map(*eps),
            builder.module@ == old(builder).module@,
            start == old(builder).next_id,
            start + normalize_count_blocks(orig, ext_set) < u32::MAX,
            harden_blocks(orig.take(i as int), ext_set, epsm, start).0.len() == i,
            builder.next_id == harden_blocks(orig.take(i as int), ext_set, epsm, start).1,
            forall|k: int| 0 <= k < i ==> (#[trigger] blocks@[k])@ == harden_blocks(orig.take(i as int), ext_set, epsm, start).0[k],
            forall|k: int| i <= k < blocks@.len() ==> (#[trigger] blocks@[k])@ == orig[k],
        decreases blocks@.len() - i,
    {
        proof {
            assert(orig.take(i + 1).drop_last() =~= orig.take(i as int));
            assert(orig.take(i + 1).last() == orig[i as int]);
            lemma_harden_blocks_ids(orig.take(i as int), ext_set, epsm, start);
            lemma_normalize_count_blocks_prefix(orig, ext_set, i + 1);
        }
        harden_instructions(builder, &mut blocks[i].instructions, ext_set, eps);
        i = i + 1;
    }
    assert(orig.take(i as int) =~= orig);
    assert(blocks_view(blocks@) =~= harden_blocks(orig, ext_set, epsm, start).0);
}

impl HardenNormalize {
    /// The pass over `builder`.
    pub fn new(builder: Builder) -> (r: Self)
        ensures
            r.builder == builder,
    {
        HardenNormalize { builder }
    }

    /// The finished module.
    pub fn into_builder(self) -> (r: Builder)
        ensures
            r == self.builder,
    {
        self.builder
    }

    /// The id of the import of `GLSL.std.450`.
    pub fn find_glsl_std_450(&self) -> (r: Option<u32>)
        ensures
            r == first_glsl_import(self.builder.module@.ext_inst_imports),
    {
        let s = &self.builder.module.ext_inst_imports;
        let mut i: usize = 0;
        assert(instrs_view(s@).skip(0) =~= instrs_view(s@));
        while i < s.len()
            invariant
                i <= s@.len(),
                instrs_view(s@) == self.builder.module@.ext_inst_imports,
                first_glsl_import(instrs_view(s@)) == first_glsl_import(instrs_view(s@).skip(i as int)),
            decreases s@.len() - i,
        {
            let ghost rest = instrs_view(s@).skip(i as int);
            assert(rest.len() > 0 && rest[0] == s@[i as int]@);
            assert(rest.drop_first() =~= instrs_view(s@).skip(i + 1));
            let instr = &s[i];
            if instr.opcode == OP_EXT_INST_IMPORT && instr.operands.len() > 0 {
                assert(rest[0].operands[0] == instr.operands@[0]@);
                if let Operand::LiteralString(name) = &instr.operands[0] {
                    if str_eq(name.as_str(), "GLSL.std.450") {
                        return instr.result_id;
                    }
                }
            }
            i = i + 1;
        }
        None
    }

    /// The float type and component count of a float scalar or vector type.
    pub fn float_type_and_count(&self, type_id: u32) -> (r: Option<(u32, u32)>)
        ensures
            r == spec_float_type_and_count(self.builder.module@.types_global_values, type_id),
    {
        let g = &self.builder.module.types_global_values;
        let ti = match find_with_result(g, type_id) {
            Some(i) => i,
            None => return None,
        };
        if ti.opcode == OP_TYPE_FLOAT {
            return Some((type_id, 1));
        }
        if ti.opcode != OP_TYPE_VECTOR || ti.operands.len() < 2 {
            return None;
        }
        assert(ti@.operands[0] == ti.operands@[0]@ && ti@.operands[1] == ti.operands@[1]@);
        let ct = match ti.operands[0].id_ref_any() {
            Some(c) => c,
            None => return None,
        };
        let count = match &ti.operands[1] {
            Operand::LiteralBit32(n) => *n,
            _ => return None,
        };
        let ci = match find_with_result(g, ct) {
            Some(i) => i,
            None => return None,
        };
        if ci.opcode != OP_TYPE_FLOAT {
            return None;
        }
        Some((ct, count))
    }
    /// The result type of every call of `Normalize` of `ext_set`; for `Normalize` it is
    /// also the type of the input.
    pub fn collect_normalize_result_types(&self, ext_set: u32) -> (r: FxHashSet<u32>)
        ensures
            word_set(r) == normalize_result_types(self.builder.module@.functions, ext_set),
    {
        let functions = &self.builder.module.functions;
        let ghost s = functions_view(functions@);
        let mut types = new_word_set();
        let mut i: usize = 0;
        while i < functions.len()
            invariant
                i <= functions@.len(),
                s == functions_view(functions@),
                s == self.builder.module@.functions,
                word_set(types) == normalize_result_types(s.take(i as int), ext_set),
            decreases functions@.len() - i,
        {
            assert(s.take(i + 1).drop_last() =~= s.take(i as int));
            assert(s.take(i + 1).last() == functions@[i as int]@);
            let ghost before = word_set(types);
            collect_in_blocks(&functions[i].blocks, ext_set, &mut types);
            i = i + 1;
            assert(word_set(types) =~= normalize_result_types(s.take(i as int), ext_set));
        }
        assert(s.take(i as int) =~= s);
        types
    }
    /// The epsilon constant of `type_id`, whose float type is `float_type` and which has
    /// `count` components. The scalar epsilon of each float type is made once and kept in
    /// `cache`.
    fn epsilon_for(&mut self, type_id: u32, float_type: u32, count: u32, cache: &mut FxHashMap<u32, u32>) -> (r: u32)
        requires
            old(self).builder.next_id < u32::MAX - 1,
            forall|ft: u32| #[trigger] word_map(*old(cache)).contains_key(ft)
                ==> old(self).builder.module@.types_global_values.contains(scalar_epsilon(ft, word_map(*old(cache))[ft])),
        ensures
            same_but_globals(old(self).builder.module@, final(self).builder.module@),
            final(self).builder.module@.types_global_values.len() >= old(self).builder.module@.types_global_values.len(),
            final(self).builder.module@.types_global_values.subrange(0, old(self).builder.module@.types_global_values.len() as int)
                == old(self).builder.module@.types_global_values,
            all_constants(final(self).builder.module@.types_global_values.skip(old(self).builder.module@.types_global_values.len() as int)),
            one_scalar_per_type(final(self).builder.module@.types_global_values.skip(old(self).builder.module@.types_global_values.len() as int)),
            forall|k: int| 0 <= k < final(self).builder.module@.types_global_values.skip(old(self).builder.module@.types_global_values.len() as int).len()
                && (#[trigger] final(self).builder.module@.types_global_values.skip(old(self).builder.module@.types_global_values.len() as int)[k]).opcode == OP_CONSTANT
                ==> final(self).builder.module@.types_global_values.skip(old(self).builder.module@.types_global_values.len() as int)[k].result_type == Some(float_type)
                    && !word_map(*old(cache)).contains_key(float_type),
            old(self).builder.next_id <= final(self).builder.next_id <= old(self).builder.next_id + 2,
            word_map(*final(cache)).dom() == word_map(*old(cache)).dom().insert(float_type),
            forall|ft: u32| #[trigger] word_map(*old(cache)).contains_key(ft) ==> word_map(*final(cache))[ft] == word_map(*old(cache))[ft],
            forall|ft: u32| #[trigger] word_map(*final(cache)).contains_key(ft)
                ==> final(self).builder.module@.types_global_values.contains(scalar_epsilon(ft, word_map(*final(cache))[ft])),
            epsilon_declared(final(self).builder.module@.types_global_values, type_id, float_type, count, r),
    {
        let ghost g_old = self.builder.module@.types_global_values;
        let eps_scalar = match word_map_get(cache, float_type) {
            Some(e) => e,
            None => {
                let e = self.builder.constant_bit32(float_type, NORMALIZE_EPSILON_BITS);
                word_map_insert(cache, float_type, e);
                let ghost g1 = self.builder.module@.types_global_values;
                assert(g1[g_old.len() as int] == scalar_epsilon(float_type, e));
                assert forall|ft: u32| #[trigger] word_map(*cache).contains_key(ft)
                    implies g1.contains(scalar_epsilon(ft, word_map(*cache)[ft])) by {
                    if ft != float_type {
                        let k = choose|k: int| 0 <= k < g_old.len() && g_old[k] == scalar_epsilon(ft, word_map(*old(cache))[ft]);
                        assert(g1[k] == g_old[k]);
                    }
                }
                assert(g1.skip(g_old.len() as int) =~= seq![scalar_epsilon(float_type, e)]);
                e
            },
        };
        let ghost g1 = self.builder.module@.types_global_values;
        assert(g1.contains(scalar_epsilon(float_type, eps_scalar)));
        if count == 1 {
            assert(g1.subrange(0, g_old.len() as int) =~= g_old);
            return eps_scalar;
        }
        let mut constituents: Vec<u32> = Vec::new();
        let mut k: u32 = 0;
        while k < count
            invariant
                k <= count,
                constituents@ =~= Seq::new(k as nat, |j: int| eps_scalar),
            decreases count - k,
        {
            constituents.push(eps_scalar);
            k = k + 1;
        }
        let composite = self.builder.constant_composite(type_id, &constituents);
        let ghost g2 = self.builder.module@.types_global_values;
        assert(constituents@.map_values(|c: u32| OperandV::IdRef(c)) =~= Seq::new(count as nat, |j: int| OperandV::IdRef(eps_scalar)));
        assert(g2[g1.len() as int] == composite_epsilon(type_id, count, eps_scalar, composite));
        assert forall|ft: u32| #[trigger] word_map(*cache).contains_key(ft)
            implies g2.contains(scalar_epsilon(ft, word_map(*cache)[ft])) by {
            let j = choose|j: int| 0 <= j < g1.len() && g1[j] == scalar_epsilon(ft, word_map(*cache)[ft]);
            assert(g2[j] == g1[j]);
        }
        let ghost kk = choose|j: int| 0 <= j < g1.len() && g1[j] == scalar_epsilon(float_type, eps_scalar);
        assert(g2[kk] == g1[kk]);
        assert(g2.contains(composite_epsilon(type_id, count, eps_scalar, composite)));
        assert(g2.contains(scalar_epsilon(float_type, eps_scalar)));
        assert(g2.subrange(0, g_old.len() as int) =~= g_old);
        assert(g2.skip(g_old.len() as int) =~= g1.skip(g_old.len() as int).push(g2.last()));
        composite
    }
    /// Makes (or reuses) an epsilon constant for each float scalar or vector type of
    /// `types`, and maps each such type to it. Other types get none.
    pub fn create_epsilon_constants(&mut self, types: &FxHashSet<u32>) -> (r: FxHashMap<u32, u32>)
        requires
            old(self).builder.next_id + 2 * word_set(*types).len() < u32::MAX,
        ensures
            epsilon_constants_made(old(self).builder, final(self).builder, word_set(*types), word_map(r)),
    {
        let ghost b0 = self.builder;
        let ghost g0 = b0.module@.types_global_values;
        let ghost ts = word_set(*types);
        proof {
            lemma_word_set_bounded(ts);
        }
        let elems = word_set_elements(types);
        proof {
            elems@.unique_seq_to_set();
        }
        let mut result = new_word_map();
        let mut cache = new_word_map();
        let mut i: usize = 0;
        proof {
            assert(g0.subrange(0, g0.len() as int) =~= g0);
            assert(g0.skip(g0.len() as int) =~= Seq::<InstrV>::empty());
        }
        while i < elems.len()
            invariant
                i <= elems@.len(),
                elems@.to_set() == ts,
                elems@.len() == ts.len(),
                b0.next_id + 2 * ts.len() < u32::MAX,
                g0 == b0.module@.types_global_values,
                same_but_globals(b0.module@, self.builder.module@),
                extends_with_constants(g0, self.builder.module@.types_global_values),
                forall|k: int| 0 <= k < self.builder.module@.types_global_values.skip(g0.len() as int).len()
                    && (#[trigger] self.builder.module@.types_global_values.skip(g0.len() as int)[k]).opcode == OP_CONSTANT
                    ==> word_map(cache).contains_key(self.builder.module@.types_global_values.skip(g0.len() as int)[k].result_type->Some_0),
                b0.next_id <= self.builder.next_id <= b0.next_id + 2 * i,
                forall|ft: u32| #[trigger] word_map(cache).contains_key(ft)
                    ==> self.builder.module@.types_global_values.contains(scalar_epsilon(ft, word_map(cache)[ft])),
                forall|t: u32| #[trigger] word_map(result).contains_key(t)
                    <==> (elems@.take(i as int).contains(t) && spec_float_type_and_count(g0, t) is Some),
                forall|t: u32| #[trigger] word_map(result).contains_key(t) ==> epsilon_declared(
                    self.builder.module@.types_global_values,
                    t,
                    spec_float_type_and_count(g0, t)->Some_0.0,
                    spec_float_type_and_count(g0, t)->Some_0.1,
                    word_map(result)[t],
                ),
            decreases elems@.len() - i,
        {
            let t = elems[i];
            let ghost gb = self.builder.module@.types_global_values;
            let ghost cache_b = word_map(cache);
            let ghost result_b = word_map(result);
            proof {
                assert(gb =~= g0 + gb.skip(g0.len() as int));
                lemma_float_type_and_count_append(g0, gb.skip(g0.len() as int), t);
                assert(elems@.take(i + 1) =~= elems@.take(i as int).push(t));
            }
            match self.float_type_and_count(t) {
                None => {},
                Some((ft, c)) => {
                    let e = self.epsilon_for(t, ft, c, &mut cache);
                    word_map_insert(&mut result, t, e);
                    proof {
                        let g = self.builder.module@.types_global_values;
                        let added = g.skip(gb.len() as int);
                        assert(g =~= gb + added);
                        assert(g.skip(g0.len() as int) =~= gb.skip(g0.len() as int) + added);
                        lemma_scalars_extend(gb.skip(g0.len() as int), added, cache_b.dom(), ft);
                        assert(g.subrange(0, g0.len() as int) =~= gb.subrange(0, g0.len() as int));
                        assert forall|k: int| 0 <= k < g.skip(g0.len() as int).len()
                            && (#[trigger] g.skip(g0.len() as int)[k]).opcode == OP_CONSTANT
                            implies word_map(cache).contains_key(g.skip(g0.len() as int)[k].result_type->Some_0) by {
                            let old_len = gb.skip(g0.len() as int).len();
                            if k < old_len {
                                assert(g.skip(g0.len() as int)[k] == gb.skip(g0.len() as int)[k]);
                            } else {
                                assert(g.skip(g0.len() as int)[k] == added[k - old_len]);
                            }
                        }
                        assert forall|u: u32| #[trigger] word_map(result).contains_key(u) implies epsilon_declared(
                            g,
                            u,
                            spec_float_type_and_count(g0, u)->Some_0.0,
                            spec_float_type_and_count(g0, u)->Some_0.1,
                            word_map(result)[u],
                        ) by {
                            if u != t {
                                lemma_epsilon_declared_extend(
                                    gb,
                                    g,
                                    u,
                                    spec_float_type_and_count(g0, u)->Some_0.0,
                                    spec_float_type_and_count(g0, u)->Some_0.1,
                                    word_map(result)[u],
                                );
                            }
                        }
                    }
                },
            }
            proof {
                let g = self.builder.module@.types_global_values;
                assert(spec_float_type_and_count(gb, t) == spec_float_type_and_count(g0, t));
                let ta = elems@.take(i as int);
                let tb = elems@.take(i + 1);
                assert forall|u: u32| #[trigger] word_map(result).contains_key(u)
                    <==> (tb.contains(u) && spec_float_type_and_count(g0, u) is Some) by {
                    if u == t {
                        assert(tb[i as int] == t);
                    } else {
                        if tb.contains(u) {
                            let j = choose|j: int| 0 <= j < tb.len() && #[trigger] tb[j] == u;
                            assert(ta[j] == u);
                        }
                        if ta.contains(u) {
                            let j = choose|j: int| 0 <= j < ta.len() && #[trigger] ta[j] == u;
                            assert(tb[j] == u);
                        }
                    }
                }
            }
            i = i + 1;
        }
        proof {
            assert(elems@.take(i as int) =~= elems@);
            assert(word_map(result).dom() =~= ts.filter(|t: u32| spec_float_type_and_count(g0, t) is Some));
        }
        result
    }
    /// Adds the epsilon of its type to the input of every call of `Normalize` of
    /// `ext_set` whose type has one, just before the call, and makes the sum the call's
    /// input.
    pub fn rewrite_normalize_calls(&mut self, ext_set: u32, epsilon_constants: &FxHashMap<u32, u32>)
        requires
            old(self).builder.next_id + normalize_count(old(self).builder.module@.functions, ext_set) < u32::MAX,
        ensures
            final(self).builder.module@ == (ModuleV {
                functions: harden_functions(
                    old(self).builder.module@.functions,
                    ext_set,
                    word_map(*epsilon_constants),
                    old(self).builder.next_id as int,
                ).0,
                ..old(self).builder.module@
            }),
            final(self).builder.next_id == harden_functions(
                old(self).builder.module@.functions,
                ext_set,
                word_map(*epsilon_constants),
                old(self).builder.next_id as int,
            ).1,
    {
        let ghost orig = self.builder.module@.functions;
        let ghost start = self.builder.next_id as int;
        let ghost epsm = word_map(*epsilon_constants);
        let mut functions: Vec<Function> = Vec::new();
        std::mem::swap(&mut functions, &mut self.builder.module.functions);
        let ghost m1 = self.builder.module@;
        let mut i: usize = 0;
        while i < functions.len()
            invariant
                i <= functions@.len(),
                functions@.len() == orig.len(),
                orig == old(self).builder.module@.functions,
                epsm == word_map(*epsilon_constants),
                self.builder.module@ == m1,
                start == old(self).builder.next_id,
                start + normalize_count(orig, ext_set) < u32::MAX,
                harden_functions(orig.take(i as int), ext_set, epsm, start).0.len() == i,
                self.builder.next_id == harden_functions(orig.take(i as int), ext_set, epsm, start).1,
                forall|k: int| 0 <= k < i ==> (#[trigger] functions@[k])@ == harden_functions(orig.take(i as int), ext_set, epsm, start).0[k],
                forall|k: int| i <= k < functions@.len() ==> (#[trigger] functions@[k])@ == orig[k],
            decreases functions@.len() - i,
        {
            proof {
                assert(orig.take(i + 1).drop_last() =~= orig.take(i as int));
                assert(orig.take(i + 1).last() == orig[i as int]);
                lemma_harden_functions_ids(orig.take(i as int), ext_set, epsm, start);
                lemma_normalize_count_prefix(orig, ext_set, i + 1);
            }
            harden_block_list(&mut self.builder, &mut functions[i].blocks, ext_set, epsilon_constants);
            i = i + 1;
        }
        assert(orig.take(i as int) =~= orig);
        assert(functions_view(functions@) =~= harden_functions(orig, ext_set, epsm, start).0);
        std::mem::swap(&mut functions, &mut self.builder.module.functions);
    }

    /// Runs the pass: when the module imports `GLSL.std.450` and calls its `Normalize`,
    /// makes the epsilon constants and adds them to the inputs of those calls.
    pub fn do_pass(&mut self)
        requires
            match first_glsl_import(old(self).builder.module@.ext_inst_imports) {
                Some(ext) => old(self).builder.next_id + 3 * normalize_count(old(self).builder.module@.functions, ext) < u32::MAX,
                None => true,
            },
        ensures
            normalize_hardened(old(self).builder, final(self).builder),
    {
        let ext_set = match self.find_glsl_std_450() {
            Some(e) => e,
            None => return,
        };
        let ghost fs = self.builder.module@.functions;
        let result_types = self.collect_normalize_result_types(ext_set);
        if word_set_is_empty(&result_types) {
            assert(word_set(result_types) =~= Set::<u32>::empty());
            return;
        }
        proof {
            lemma_normalize_result_types_bounded(fs, ext_set);
        }
        let ghost b0 = self.builder;
        let epsilon_constants = self.create_epsilon_constants(&result_types);
        let ghost mid = self.builder;
        assert(mid.module@.functions == fs);
        self.rewrite_normalize_calls(ext_set, &epsilon_constants);
        assert(epsilon_constants_made(b0, mid, normalize_result_types(fs, ext_set), word_map(epsilon_constants)));
    }
}

/// What hardening does to a builder: nothing without `GLSL.std.450` or without a call of
/// its `Normalize`; otherwise the epsilon constants are made and each call gets its epsilon
/// added to its input.
pub open spec fn normalize_hardened(b0: Builder, b1: Builder) -> bool {
    match first_glsl_import(b0.module@.ext_inst_imports) {
        None => b1 == b0,
        Some(ext) => if normalize_result_types(b0.module@.functions, ext).is_empty() {
            b1 == b0
        } else {
            exists|mid: Builder, eps: Map<u32, u32>|
                #[trigger] epsilon_constants_made(b0, mid, normalize_result_types(b0.module@.functions, ext), eps)
                    && b1.module@ == (ModuleV {
                    functions: harden_functions(b0.module@.functions, ext, eps, mid.next_id as int).0,
                    ..mid.module@
                }) && b1.next_id == harden_functions(b0.module@.functions, ext, eps, mid.next_id as int).1
        },
    }
}

/// Hardening keeps the module's interface: its entry points, decorations, names, imports
/// and capabilities stay, every global it had stays in place, and what it adds to the
/// globals are constants; the ids only grow.
pub proof fn law_hardening_keeps_interface(b0: Builder, b1: Builder)
    requires
        normalize_hardened(b0, b1),
    ensures
        b1.module@.entry_points == b0.module@.entry_points,
        b1.module@.annotations == b0.module@.annotations,
        b1.module@.debug_names == b0.module@.debug_names,
        b1.module@.ext_inst_imports == b0.module@.ext_inst_imports,
        b1.module@.capabilities == b0.module@.capabilities,
        b1.module@.execution_modes == b0.module@.execution_modes,
        b1.module@.types_global_values.len() >= b0.module@.types_global_values.len(),
        b1.module@.types_global_values.subrange(0, b0.module@.types_global_values.len() as int)
            == b0.module@.types_global_values,
        all_constants(b1.module@.types_global_values.skip(b0.module@.types_global_values.len() as int)),
        b0.next_id <= b1.next_id,
        b1.module@.functions.len() == b0.module@.functions.len(),
{
    let g0 = b0.module@.types_global_values;
    match first_glsl_import(b0.module@.ext_inst_imports) {
        None => {
            assert(g0.subrange(0, g0.len() as int) =~= g0);
            assert(g0.skip(g0.len() as int) =~= Seq::<InstrV>::empty());
        },
        Some(ext) => {
            let fs = b0.module@.functions;
            if normalize_result_types(fs, ext).is_empty() {
                assert(g0.subrange(0, g0.len() as int) =~= g0);
                assert(g0.skip(g0.len() as int) =~= Seq::<InstrV>::empty());
            } else {
                let (mid, eps) = choose|mid: Builder, eps: Map<u32, u32>|
                    #[trigger] epsilon_constants_made(b0, mid, normalize_result_types(fs, ext), eps)
                        && b1.module@ == (ModuleV {
                        functions: harden_functions(fs, ext, eps, mid.next_id as int).0,
                        ..mid.module@
                    }) && b1.next_id == harden_functions(fs, ext, eps, mid.next_id as int).1;
                lemma_harden_functions_ids(fs, ext, eps, mid.next_id as int);
            }
        },
    }
}

} // verus!
