//! Rewrites implicit-LOD texture samples that sit inside loops with a non-uniform
//! iteration count into explicit samples at LOD 0.
//!
//! HLSL shader model 5 and earlier refuse gradient-emitting samples in a loop whose
//! iteration count varies between pixels. A loop is non-uniform when its exit condition
//! depends, through the data flow, on a fragment input, a texture read or a derivative.
//! Loops bounded by constants or uniforms are left alone.

use crate::front::spirv_passes::builder::{first_identical_type, type_decl, Builder};
use crate::front::spirv_passes::lookup::{find_in_functions, first_in_functions};
use crate::front::spirv_passes::module::{
    instrs_view, blocks_view, functions_view, BlockV, Block, Function, FunctionV, InstrV,
    Instruction, Module, ModuleV, Operand, OperandV, IMAGE_OPERANDS_BIAS, IMAGE_OPERANDS_GRAD,
    IMAGE_OPERANDS_LOD, OP_ACCESS_CHAIN, OP_BRANCH, OP_BRANCH_CONDITIONAL, OP_CONSTANT, OP_COPY_OBJECT,
    OP_IMAGE_SAMPLE_EXPLICIT_LOD, OP_IMAGE_SAMPLE_IMPLICIT_LOD, OP_IMAGE_SPARSE_SAMPLE_EXPLICIT_LOD,
    OP_IMAGE_SPARSE_SAMPLE_IMPLICIT_LOD, OP_IN_BOUNDS_ACCESS_CHAIN, OP_IN_BOUNDS_PTR_ACCESS_CHAIN,
    OP_LOAD, OP_LOOP_MERGE, OP_PHI, OP_PTR_ACCESS_CHAIN, OP_STORE, OP_SWITCH, OP_TYPE_FLOAT,
    OP_VARIABLE, STORAGE_CLASS_INPUT,
};
use crate::front::spirv_passes::sets::{
    lemma_word_set_bounded, new_word_set, word_set, word_set_contains, word_set_insert,
    word_set_is_empty,
};
use rustc_hash::FxHashSet;
use vstd::prelude::*;

verus! {

/// The pass, over the module it rewrites.
pub struct LowerLoopSampleLod {
    pub builder: Builder,
}

/// Ops whose result varies per pixel whatever their operands: texture reads,
/// derivatives and their fragment-stage relatives.
pub open spec fn spec_is_per_thread_op(op: u32) -> bool {
    (87 <= op && op <= 98) || (305 <= op && op <= 308) || (313 <= op && op <= 315) || op == 320
        || (207 <= op && op <= 215)
}

/// Whether the opcode produces a per-pixel value regardless of its operands.
pub fn is_per_thread_op(op: u32) -> (r: bool)
    ensures
        r == spec_is_per_thread_op(op),
{
    (87 <= op && op <= 98) || (305 <= op && op <= 308) || (313 <= op && op <= 315) || op == 320
        || (207 <= op && op <= 215)
}

/// The opcodes that derive a pointer from a base pointer.
pub open spec fn is_access_chain(op: u32) -> bool {
    op == OP_ACCESS_CHAIN || op == OP_IN_BOUNDS_ACCESS_CHAIN || op == OP_PTR_ACCESS_CHAIN
        || op == OP_IN_BOUNDS_PTR_ACCESS_CHAIN
}

/// An implicit-LOD sample whose image operands (if any) carry neither a bias, nor a
/// LOD, nor gradients, so that it can become an explicit sample at LOD 0.
pub open spec fn spec_is_lowerable_implicit_sample(i: InstrV) -> bool {
    (i.opcode == OP_IMAGE_SAMPLE_IMPLICIT_LOD || i.opcode == OP_IMAGE_SPARSE_SAMPLE_IMPLICIT_LOD)
        && !(i.operands.len() > 2 && i.operands[2] is ImageOperands
            && i.operands[2]->ImageOperands_0 & 7 != 0)
}

/// Whether the instruction is an implicit-LOD sample that can be lowered.
pub fn is_lowerable_implicit_sample(instr: &Instruction) -> (r: bool)
    ensures
        r == spec_is_lowerable_implicit_sample(instr@),
{
    if !(instr.opcode == OP_IMAGE_SAMPLE_IMPLICIT_LOD || instr.opcode == OP_IMAGE_SPARSE_SAMPLE_IMPLICIT_LOD) {
        return false;
    }
    if instr.operands.len() > 2 {
        if let Operand::ImageOperands(existing) = &instr.operands[2] {
            let e = *existing;
            let bad = (e & IMAGE_OPERANDS_BIAS) == IMAGE_OPERANDS_BIAS
                || (e & IMAGE_OPERANDS_LOD) == IMAGE_OPERANDS_LOD
                || (e & IMAGE_OPERANDS_GRAD) == IMAGE_OPERANDS_GRAD;
            assert(bad == (e & 7 != 0)) by (bit_vector)
                requires
                    bad == ((e & 1u32) == 1u32 || (e & 2u32) == 2u32 || (e & 4u32) == 4u32),
            ;
            if bad {
                return false;
            }
        }
    }
    true
}

/// The explicit-LOD form of an implicit sample, reading LOD `lod`; other instructions
/// are left as they are. Image operands, if present, gain the LOD bit and the LOD id
/// after the mask; otherwise both are appended.
pub open spec fn spec_convert_implicit_to_explicit(i: InstrV, lod: u32) -> InstrV {
    if i.opcode == OP_IMAGE_SAMPLE_IMPLICIT_LOD || i.opcode == OP_IMAGE_SPARSE_SAMPLE_IMPLICIT_LOD {
        let opcode = if i.opcode == OP_IMAGE_SAMPLE_IMPLICIT_LOD {
            OP_IMAGE_SAMPLE_EXPLICIT_LOD
        } else {
            OP_IMAGE_SPARSE_SAMPLE_EXPLICIT_LOD
        };
        if i.operands.len() > 2 && i.operands[2] is ImageOperands {
            let mask = i.operands[2]->ImageOperands_0;
            InstrV {
                opcode,
                operands: i.operands.update(2, OperandV::ImageOperands(mask | 2)).insert(3, OperandV::IdRef(lod)),
                ..i
            }
        } else {
            InstrV {
                opcode,
                operands: i.operands.push(OperandV::ImageOperands(2)).push(OperandV::IdRef(lod)),
                ..i
            }
        }
    } else {
        i
    }
}

/// Converts an implicit-LOD sample into an explicit-LOD sample at `lod_zero`.
pub fn convert_implicit_to_explicit(instr: &mut Instruction, lod_zero: u32)
    ensures
        final(instr)@ == spec_convert_implicit_to_explicit(old(instr)@, lod_zero),
{
    if instr.opcode == OP_IMAGE_SAMPLE_IMPLICIT_LOD {
        instr.opcode = OP_IMAGE_SAMPLE_EXPLICIT_LOD;
    } else if instr.opcode == OP_IMAGE_SPARSE_SAMPLE_IMPLICIT_LOD {
        instr.opcode = OP_IMAGE_SPARSE_SAMPLE_EXPLICIT_LOD;
    } else {
        return;
    }
    let ghost old_ops = old(instr).operands@;
    let mut mask: Option<u32> = None;
    if instr.operands.len() > 2 {
        if let Operand::ImageOperands(m) = &instr.operands[2] {
            mask = Some(*m);
        }
    }
    match mask {
        Some(m) => {
            instr.operands.set(2, Operand::ImageOperands(m | IMAGE_OPERANDS_LOD));
            instr.operands.insert(3, Operand::IdRef(lod_zero));
            assert(instr@.operands =~= crate::front::spirv_passes::module::operands_view(old_ops).update(2, OperandV::ImageOperands(m | 2)).insert(3, OperandV::IdRef(lod_zero)));
        },
        None => {
            instr.operands.push(Operand::ImageOperands(IMAGE_OPERANDS_LOD));
            instr.operands.push(Operand::IdRef(lod_zero));
            assert(instr@.operands =~= crate::front::spirv_passes::module::operands_view(old_ops).push(OperandV::ImageOperands(2)).push(OperandV::IdRef(lod_zero)));
        },
    }
}

/// The successors of a block, read from its last instruction: the target of `OpBranch`,
/// the two targets of `OpBranchConditional`, or the default and case targets of `OpSwitch`
/// (every id operand after the selector).
pub open spec fn spec_successor_labels(b: BlockV) -> Seq<u32> {
    if b.instructions.len() == 0 {
        seq![]
    } else {
        let term = b.instructions.last();
        if term.opcode == OP_BRANCH {
            if term.operands.len() > 0 && term.operands[0] is IdRef {
                seq![term.operands[0]->IdRef_0]
            } else {
                seq![]
            }
        } else if term.opcode == OP_BRANCH_CONDITIONAL {
            let n = term.operands.len() as int;
            id_refs(term.operands.subrange(if n < 1 { n } else { 1 }, if n < 3 { n } else { 3 }))
        } else if term.opcode == OP_SWITCH {
            let n = term.operands.len() as int;
            id_refs(term.operands.subrange(if n < 1 { n } else { 1 }, n))
        } else {
            seq![]
        }
    }
}

/// The `IdRef` operands of a sequence of operands, in order.
pub open spec fn id_refs(ops: Seq<OperandV>) -> Seq<u32>
    decreases ops.len(),
{
    if ops.len() == 0 {
        seq![]
    } else {
        let rest = id_refs(ops.drop_last());
        match ops.last() {
            OperandV::IdRef(t) => rest.push(t),
            _ => rest,
        }
    }
}

/// The `IdRef` operands of `ops[from..to]`, in order.
fn collect_id_refs(ops: &Vec<Operand>, from: usize, to: usize) -> (r: Vec<u32>)
    requires
        from <= to <= ops@.len(),
    ensures
        r@ == id_refs(crate::front::spirv_passes::module::operands_view(ops@).subrange(from as int, to as int)),
{
    let ghost ov = crate::front::spirv_passes::module::operands_view(ops@);
    let mut out: Vec<u32> = Vec::new();
    let mut i = from;
    assert(ov.subrange(from as int, from as int) =~= Seq::<OperandV>::empty());
    while i < to
        invariant
            from <= i <= to,
            to <= ops@.len(),
            ov == crate::front::spirv_passes::module::operands_view(ops@),
            out@ == id_refs(ov.subrange(from as int, i as int)),
        decreases to - i,
    {
        assert(ov.subrange(from as int, i + 1).drop_last() =~= ov.subrange(from as int, i as int));
        assert(ov.subrange(from as int, i + 1).last() == ops@[i as int]@);
        if let Operand::IdRef(t) = &ops[i] {
            out.push(*t);
        }
        i = i + 1;
    }
    out
}

/// The labels of the blocks that `block` may branch to.
pub fn successor_labels(block: &Block) -> (r: Vec<u32>)
    ensures
        r@ == spec_successor_labels(block@),
{
    let n = block.instructions.len();
    if n == 0 {
        return Vec::new();
    }
    let term = &block.instructions[n - 1];
    assert(block@.instructions.last() == term@);
    let ghost ov = term@.operands;
    if term.opcode == OP_BRANCH {
        let mut out: Vec<u32> = Vec::new();
        if term.operands.len() > 0 {
            if let Operand::IdRef(t) = &term.operands[0] {
                out.push(*t);
            }
        }
        assert(out@ =~= spec_successor_labels(block@));
        out
    } else if term.opcode == OP_BRANCH_CONDITIONAL {
        let len = term.operands.len();
        let to = if len < 3 { len } else { 3 };
        let from = if len < 1 { len } else { 1 };
        collect_id_refs(&term.operands, from, to)
    } else if term.opcode == OP_SWITCH {
        let len = term.operands.len();
        let from = if len < 1 { len } else { 1 };
        collect_id_refs(&term.operands, from, len)
    } else {
        Vec::new()
    }
}

/// Whether `id` is declared by a global `OpVariable`.
pub open spec fn is_global_variable(m: ModuleV, id: u32) -> bool {
    exists|i: int| 0 <= i < m.types_global_values.len()
        && #[trigger] m.types_global_values[i].result_id == Some(id)
        && m.types_global_values[i].opcode == OP_VARIABLE
}

/// The variable a pointer is derived from: follows access chains and copies back to
/// an `OpVariable` within `fuel` steps; none for pointers it cannot trace.
pub open spec fn spec_root_variable(id: u32, m: ModuleV, fuel: nat) -> Option<u32>
    decreases fuel,
{
    if fuel == 0 {
        None
    } else if is_global_variable(m, id) {
        Some(id)
    } else {
        match first_in_functions(m.functions, id) {
            None => None,
            Some(i) => if i.opcode == OP_VARIABLE {
                Some(id)
            } else if is_access_chain(i.opcode) || i.opcode == OP_COPY_OBJECT {
                if i.operands.len() > 0 && i.operands[0] is IdRef {
                    spec_root_variable(i.operands[0]->IdRef_0, m, (fuel - 1) as nat)
                } else {
                    None
                }
            } else {
                None
            },
        }
    }
}

/// Whether a global `OpVariable` declares `id`.
fn global_variable_exists(m: &Module, id: u32) -> (r: bool)
    ensures
        r == is_global_variable(m@, id),
{
    let g = &m.types_global_values;
    let mut i: usize = 0;
    while i < g.len()
        invariant
            i <= g@.len(),
            instrs_view(g@) == m@.types_global_values,
            forall|j: int| 0 <= j < i ==> !(#[trigger] m@.types_global_values[j].result_id == Some(id)
                && m@.types_global_values[j].opcode == OP_VARIABLE),
        decreases g@.len() - i,
    {
        assert(m@.types_global_values[i as int] == g@[i as int]@);
        if g[i].result_id == Some(id) && g[i].opcode == OP_VARIABLE {
            assert(m@.types_global_values[i as int].result_id == Some(id));
            return true;
        }
        i = i + 1;
    }
    false
}

/// Resolves the pointer `id` to the `OpVariable` it points into, following at most 32
/// access chains or copies.
pub fn root_variable(id: u32, module: &Module) -> (r: Option<u32>)
    ensures
        r == spec_root_variable(id, module@, 32),
{
    let ghost orig = id;
    let mut cur = id;
    let mut k: u32 = 0;
    while k < 32
        invariant
            k <= 32,
            orig == id,
            spec_root_variable(cur, module@, (32 - k) as nat) == spec_root_variable(orig, module@, 32),
        decreases 32 - k,
    {
        let ghost fuel = (32 - k) as nat;
        assert(fuel > 0);
        if global_variable_exists(module, cur) {
            assert(spec_root_variable(cur, module@, fuel) == Some(cur));
            assert(spec_root_variable(orig, module@, 32) == Some(cur));
            return Some(cur);
        }
        let found = find_in_functions(&module.functions, cur);
        let instr = match found {
            Some(i) => i,
            None => {
                assert(spec_root_variable(cur, module@, fuel) == None::<u32>);
                assert(spec_root_variable(orig, module@, 32) == None::<u32>);
                return None;
            },
        };
        assert(first_in_functions(module@.functions, cur) == Some(instr@));
        if instr.opcode == OP_VARIABLE {
            assert(spec_root_variable(cur, module@, fuel) == Some(cur));
            return Some(cur);
        }
        if instr.opcode == OP_ACCESS_CHAIN || instr.opcode == OP_IN_BOUNDS_ACCESS_CHAIN
            || instr.opcode == OP_PTR_ACCESS_CHAIN || instr.opcode == OP_IN_BOUNDS_PTR_ACCESS_CHAIN
            || instr.opcode == OP_COPY_OBJECT {
            if instr.operands.len() > 0 {
                if let Operand::IdRef(base) = &instr.operands[0] {
                    assert(instr@.operands[0] == OperandV::IdRef(*base));
                    assert(spec_root_variable(cur, module@, fuel) == spec_root_variable(*base, module@, (fuel - 1) as nat));
                    cur = *base;
                    k = k + 1;
                    continue;
                }
            }
            assert(spec_root_variable(cur, module@, fuel) == None::<u32>);
            return None;
        }
        assert(spec_root_variable(cur, module@, fuel) == None::<u32>);
        return None;
    }
    None
}

/// Whether some `IdRef` operand names an id of `s`.
pub open spec fn any_id_ref_in(ops: Seq<OperandV>, s: Set<u32>) -> bool {
    exists|k: int| 0 <= k < ops.len() && (#[trigger] ops[k]) is IdRef && s.contains(ops[k]->IdRef_0)
}

/// Whether some incoming value of a phi (the operands at even positions) is in `s`.
pub open spec fn any_phi_value_in(ops: Seq<OperandV>, s: Set<u32>) -> bool {
    exists|k: int| 0 <= k < ops.len() && k % 2 == 0 && (#[trigger] ops[k]) is IdRef && s.contains(ops[k]->IdRef_0)
}

/// Whether the result of `i` is non-uniform given the non-uniform ids `s`: per-pixel
/// ops always; a load when its pointer or the pointer's variable is; a phi when an
/// incoming value is; any other op when an id operand is.
pub open spec fn marks_result(i: InstrV, s: Set<u32>, m: ModuleV) -> bool {
    ||| spec_is_per_thread_op(i.opcode)
    ||| (i.opcode == OP_LOAD && i.operands.len() > 0 && i.operands[0] is IdRef && {
        let p = i.operands[0]->IdRef_0;
        s.contains(p) || (spec_root_variable(p, m, 32) matches Some(r) && s.contains(r))
    })
    ||| (i.opcode == OP_PHI && any_phi_value_in(i.operands, s))
    ||| (i.opcode != OP_LOAD && i.opcode != OP_PHI && any_id_ref_in(i.operands, s))
}

/// Whether a store writes a non-uniform value.
pub open spec fn store_of_non_uniform(i: InstrV, s: Set<u32>) -> bool {
    i.opcode == OP_STORE && i.operands.len() >= 2 && i.operands[0] is IdRef && i.operands[1] is IdRef
        && s.contains(i.operands[1]->IdRef_0)
}

/// Whether `s` is closed under the rule of `i`: a store of a non-uniform value makes
/// its pointer and the pointer's variable non-uniform; otherwise a result that
/// `marks_result` makes non-uniform is in `s`.
pub open spec fn instr_closed(i: InstrV, s: Set<u32>, m: ModuleV) -> bool {
    if i.opcode == OP_STORE {
        store_of_non_uniform(i, s) ==> {
            let p = i.operands[0]->IdRef_0;
            s.contains(p) && (spec_root_variable(p, m, 32) matches Some(r) ==> s.contains(r))
        }
    } else {
        (i.result_id is Some && marks_result(i, s, m)) ==> s.contains(i.result_id->Some_0)
    }
}

pub open spec fn block_closed(b: BlockV, s: Set<u32>, m: ModuleV) -> bool {
    forall|k: int| 0 <= k < b.instructions.len() ==> instr_closed(#[trigger] b.instructions[k], s, m)
}

pub open spec fn function_closed(f: FunctionV, s: Set<u32>, m: ModuleV) -> bool {
    forall|b: int| 0 <= b < f.blocks.len() ==> block_closed(#[trigger] f.blocks[b], s, m)
}

/// Every instruction of every function is closed under its rule.
pub open spec fn module_closed(m: ModuleV, s: Set<u32>) -> bool {
    forall|f: int| 0 <= f < m.functions.len() ==> function_closed(#[trigger] m.functions[f], s, m)
}

/// A global `OpVariable` in the `Input` storage class: a per-pixel value.
pub open spec fn is_input_variable(g: InstrV) -> bool {
    g.opcode == OP_VARIABLE && g.operands.len() > 0 && g.operands[0] == OperandV::StorageClass(STORAGE_CLASS_INPUT)
        && g.result_id is Some
}

/// Every input variable is in `s`.
pub open spec fn seeds_in(m: ModuleV, s: Set<u32>) -> bool {
    forall|j: int| 0 <= j < m.types_global_values.len() && is_input_variable(#[trigger] m.types_global_values[j])
        ==> s.contains(m.types_global_values[j].result_id->Some_0)
}

/// The rules only ever need more of the set: what a set marks, a larger set marks too.
proof fn lemma_marks_monotone(i: InstrV, s: Set<u32>, t: Set<u32>, m: ModuleV)
    requires
        s.subset_of(t),
    ensures
        marks_result(i, s, m) ==> marks_result(i, t, m),
        store_of_non_uniform(i, s) ==> store_of_non_uniform(i, t),
{
    if any_id_ref_in(i.operands, s) {
        let k = choose|k: int| 0 <= k < i.operands.len() && (#[trigger] i.operands[k]) is IdRef && s.contains(i.operands[k]->IdRef_0);
        assert(t.contains(i.operands[k]->IdRef_0));
    }
    if any_phi_value_in(i.operands, s) {
        let k = choose|k: int| 0 <= k < i.operands.len() && k % 2 == 0 && (#[trigger] i.operands[k]) is IdRef && s.contains(i.operands[k]->IdRef_0);
        assert(t.contains(i.operands[k]->IdRef_0));
    }
}

/// Whether an `IdRef` operand of `ops` names an id of the set.
fn any_id_ref_in_set(ops: &Vec<Operand>, set: &FxHashSet<u32>, phi_values_only: bool) -> (r: bool)
    ensures
        !phi_values_only ==> r == any_id_ref_in(crate::front::spirv_passes::module::operands_view(ops@), word_set(*set)),
        phi_values_only ==> r == any_phi_value_in(crate::front::spirv_passes::module::operands_view(ops@), word_set(*set)),
{
    let ghost ov = crate::front::spirv_passes::module::operands_view(ops@);
    let mut k: usize = 0;
    while k < ops.len()
        invariant
            k <= ops@.len(),
            ov == crate::front::spirv_passes::module::operands_view(ops@),
            forall|j: int| 0 <= j < k && (!phi_values_only || j % 2 == 0) ==> !((#[trigger] ov[j]) is IdRef && word_set(*set).contains(ov[j]->IdRef_0)),
        decreases ops@.len() - k,
    {
        assert(ov[k as int] == ops@[k as int]@);
        if !phi_values_only || k % 2 == 0 {
            if let Operand::IdRef(id) = &ops[k] {
                if word_set_contains(set, *id) {
                    return true;
                }
            }
        }
        k = k + 1;
    }
    false
}

/// Adds `v` to the set; says whether it was new.
fn mark(set: &mut FxHashSet<u32>, v: u32) -> (changed: bool)
    ensures
        word_set(*final(set)) == word_set(*old(set)).insert(v),
        changed == !word_set(*old(set)).contains(v),
        !changed ==> word_set(*final(set)) == word_set(*old(set)),
        changed ==> word_set(*final(set)).len() == word_set(*old(set)).len() + 1,
{
    let changed = word_set_insert(set, v);
    proof {
        lemma_word_set_bounded(word_set(*old(set)));
        if !changed {
            assert(word_set(*set) =~= word_set(*old(set)));
        }
    }
    changed
}

/// Applies the propagation rule of one instruction; says whether the set grew.
fn propagate(instr: &Instruction, module: &Module, set: &mut FxHashSet<u32>) -> (changed: bool)
    ensures
        word_set(*old(set)).subset_of(word_set(*final(set))),
        !changed ==> word_set(*final(set)) == word_set(*old(set)),
        changed ==> word_set(*final(set)).len() > word_set(*old(set)).len(),
        instr_closed(instr@, word_set(*final(set)), module@),
        forall|t: Set<u32>| word_set(*old(set)).subset_of(t) && #[trigger] instr_closed(instr@, t, module@)
            ==> word_set(*final(set)).subset_of(t),
{
    let ghost s0 = word_set(*old(set));
    proof {
        lemma_word_set_bounded(s0);
        assert forall|t: Set<u32>| s0.subset_of(t) && #[trigger] instr_closed(instr@, t, module@) implies
            (marks_result(instr@, s0, module@) && instr@.opcode != OP_STORE && instr@.result_id is Some ==> t.contains(instr@.result_id->Some_0))
            && (instr@.opcode == OP_STORE && store_of_non_uniform(instr@, s0) ==> t.contains(instr@.operands[0]->IdRef_0)
                && (spec_root_variable(instr@.operands[0]->IdRef_0, module@, 32) matches Some(r) ==> t.contains(r))) by {
            lemma_marks_monotone(instr@, s0, t, module@);
        }
    }
    let ghost ov = instr@.operands;
    if instr.opcode == OP_STORE {
        if instr.operands.len() < 2 {
            return false;
        }
        assert(ov[0] == instr.operands@[0]@ && ov[1] == instr.operands@[1]@);
        let ptr = match &instr.operands[0] {
            Operand::IdRef(p) => *p,
            _ => {
                return false;
            },
        };
        let val = match &instr.operands[1] {
            Operand::IdRef(v) => *v,
            _ => {
                return false;
            },
        };
        if !word_set_contains(set, val) {
            return false;
        }
        let c1 = mark(set, ptr);
        let root = root_variable(ptr, module);
        let mut c2 = false;
        if let Some(r) = root {
            c2 = mark(set, r);
        }
        proof {
            lemma_word_set_bounded(word_set(*set));
        }
        return c1 || c2;
    }
    let result_id = match instr.result_id {
        Some(r) => r,
        None => {
            return false;
        },
    };
    if word_set_contains(set, result_id) {
        return false;
    }
    if is_per_thread_op(instr.opcode) {
        return mark(set, result_id);
    }
    if instr.opcode == OP_LOAD {
        if instr.operands.len() > 0 {
            assert(ov[0] == instr.operands@[0]@);
            if let Operand::IdRef(ptr) = &instr.operands[0] {
                let hit = if word_set_contains(set, *ptr) {
                    true
                } else {
                    match root_variable(*ptr, module) {
                        Some(r) => word_set_contains(set, r),
                        None => false,
                    }
                };
                if hit {
                    return mark(set, result_id);
                }
            }
        }
        return false;
    }
    if any_id_ref_in_set(&instr.operands, set, instr.opcode == OP_PHI) {
        return mark(set, result_id);
    }
    false
}

/// Runs the propagation rules over every instruction once; says whether the set grew.
fn propagate_all(module: &Module, set: &mut FxHashSet<u32>) -> (changed: bool)
    ensures
        word_set(*old(set)).subset_of(word_set(*final(set))),
        !changed ==> word_set(*final(set)) == word_set(*old(set)),
        changed ==> word_set(*final(set)).len() > word_set(*old(set)).len(),
        !changed ==> module_closed(module@, word_set(*final(set))),
        forall|t: Set<u32>| word_set(*old(set)).subset_of(t) && #[trigger] module_closed(module@, t)
            ==> word_set(*final(set)).subset_of(t),
{
    let ghost start = word_set(*set);
    let ghost m = module@;
    let mut changed = false;
    let functions = &module.functions;
    let mut fi: usize = 0;
    while fi < functions.len()
        invariant
            fi <= functions@.len(),
            m == module@,
            m.functions == functions_view(functions@),
            start.subset_of(word_set(*set)),
            start == word_set(*old(set)),
            !changed ==> word_set(*set) == start,
            changed ==> word_set(*set).len() > start.len(),
            !changed ==> forall|f: int| 0 <= f < fi ==> function_closed(#[trigger] m.functions[f], start, m),
            forall|t: Set<u32>| start.subset_of(t) && #[trigger] module_closed(m, t) ==> word_set(*set).subset_of(t),
        decreases functions@.len() - fi,
    {
        let blocks = &functions[fi].blocks;
        assert(m.functions[fi as int].blocks == blocks_view(blocks@));
        let mut bi: usize = 0;
        while bi < blocks.len()
            invariant
                fi < functions@.len(),
                bi <= blocks@.len(),
                m == module@,
                m.functions == functions_view(functions@),
                m.functions[fi as int].blocks == blocks_view(blocks@),
                start.subset_of(word_set(*set)),
                start == word_set(*old(set)),
                !changed ==> word_set(*set) == start,
                changed ==> word_set(*set).len() > start.len(),
                !changed ==> forall|f: int| 0 <= f < fi ==> function_closed(#[trigger] m.functions[f], start, m),
                !changed ==> forall|b: int| 0 <= b < bi ==> block_closed(#[trigger] m.functions[fi as int].blocks[b], start, m),
                forall|t: Set<u32>| start.subset_of(t) && #[trigger] module_closed(m, t) ==> word_set(*set).subset_of(t),
            decreases blocks@.len() - bi,
        {
            let instrs = &blocks[bi].instructions;
            assert(m.functions[fi as int].blocks[bi as int].instructions == instrs_view(instrs@));
            let mut ii: usize = 0;
            while ii < instrs.len()
                invariant
                    fi < functions@.len(),
                    bi < blocks@.len(),
                    ii <= instrs@.len(),
                    m == module@,
                    m.functions == functions_view(functions@),
                    m.functions[fi as int].blocks == blocks_view(blocks@),
                    m.functions[fi as int].blocks[bi as int].instructions == instrs_view(instrs@),
                    start.subset_of(word_set(*set)),
                    start == word_set(*old(set)),
                    !changed ==> word_set(*set) == start,
                    changed ==> word_set(*set).len() > start.len(),
                    !changed ==> forall|f: int| 0 <= f < fi ==> function_closed(#[trigger] m.functions[f], start, m),
                    !changed ==> forall|b: int| 0 <= b < bi ==> block_closed(#[trigger] m.functions[fi as int].blocks[b], start, m),
                    !changed ==> forall|k: int| 0 <= k < ii ==> instr_closed(#[trigger] m.functions[fi as int].blocks[bi as int].instructions[k], start, m),
                    forall|t: Set<u32>| start.subset_of(t) && #[trigger] module_closed(m, t) ==> word_set(*set).subset_of(t),
                decreases instrs@.len() - ii,
            {
                let ghost before = word_set(*set);
                let c = propagate(&instrs[ii], module, set);
                proof {
                    lemma_word_set_bounded(before);
                    lemma_word_set_bounded(word_set(*set));
                    if c || changed {
                        vstd::set_lib::lemma_len_subset(start, before);
                    }
                    assert(m.functions[fi as int].blocks[bi as int].instructions[ii as int] == instrs@[ii as int]@);
                    assert forall|t: Set<u32>| start.subset_of(t) && #[trigger] module_closed(m, t) implies word_set(*set).subset_of(t) by {
                        assert(function_closed(m.functions[fi as int], t, m));
                        assert(block_closed(m.functions[fi as int].blocks[bi as int], t, m));
                        assert(instr_closed(m.functions[fi as int].blocks[bi as int].instructions[ii as int], t, m));
                    }
                }
                changed = changed || c;
                ii = ii + 1;
            }
            bi = bi + 1;
        }
        fi = fi + 1;
    }
    changed
}

impl LowerLoopSampleLod {
    /// The ids whose values may differ between pixels: every input variable, and
    /// everything the propagation rules reach from there (the set is closed under them).
    pub fn collect_non_uniform_ids(&self) -> (r: FxHashSet<u32>)
        ensures
            seeds_in(self.builder.module@, word_set(r)),
            module_closed(self.builder.module@, word_set(r)),
            forall|t: Set<u32>| seeds_in(self.builder.module@, t) && #[trigger] module_closed(self.builder.module@, t)
                ==> word_set(r).subset_of(t),
    {
        let module = &self.builder.module;
        let mut non_uniform = new_word_set();
        let globals = &module.types_global_values;
        let mut i: usize = 0;
        while i < globals.len()
            invariant
                i <= globals@.len(),
                instrs_view(globals@) == module@.types_global_values,
                forall|j: int| 0 <= j < i && is_input_variable(#[trigger] module@.types_global_values[j])
                    ==> word_set(non_uniform).contains(module@.types_global_values[j].result_id->Some_0),
                forall|t: Set<u32>| #[trigger] seeds_in(module@, t) ==> word_set(non_uniform).subset_of(t),
            decreases globals@.len() - i,
        {
            let g = &globals[i];
            assert(module@.types_global_values[i as int] == g@);
            if g.opcode == OP_VARIABLE && g.operands.len() > 0 {
                assert(g@.operands[0] == g.operands@[0]@);
                if let Operand::StorageClass(sc) = &g.operands[0] {
                    if *sc == STORAGE_CLASS_INPUT {
                        if let Some(id) = g.result_id {
                            word_set_insert(&mut non_uniform, id);
                            proof {
                                assert(is_input_variable(module@.types_global_values[i as int]));
                            }
                        }
                    }
                }
            }
            i = i + 1;
        }
        loop
            invariant_except_break
                seeds_in(module@, word_set(non_uniform)),
            invariant
                forall|t: Set<u32>| seeds_in(module@, t) && #[trigger] module_closed(module@, t) ==> word_set(non_uniform).subset_of(t),
            ensures
                seeds_in(module@, word_set(non_uniform)),
                module_closed(module@, word_set(non_uniform)),
            decreases 0x1_0000_0000 - word_set(non_uniform).len(),
        {
            proof { lemma_word_set_bounded(word_set(non_uniform)); }
            let changed = propagate_all(module, &mut non_uniform);
            proof { lemma_word_set_bounded(word_set(non_uniform)); }
            if !changed {
                break;
            }
        }
        non_uniform
    }
}

/// The `IdRef` operands of `ops` from position `from` on.
pub open spec fn id_refs_from(ops: Seq<OperandV>, from: int) -> Seq<u32> {
    id_refs(ops.subrange(if ops.len() < from { ops.len() as int } else { from }, ops.len() as int))
}

/// Whether the last instruction of `b` is a loop exit test on a non-uniform value: a
/// conditional branch with `merge` among its targets and a non-uniform condition, or a
/// switch with `merge` among its targets and a non-uniform selector.
pub open spec fn exit_test_non_uniform(b: BlockV, merge: u32, s: Set<u32>) -> bool {
    b.instructions.len() > 0 && {
        let t = b.instructions.last();
        ||| (t.opcode == OP_BRANCH_CONDITIONAL && {
            let ids = id_refs(t.operands);
            ids.len() > 0 && ids.drop_first().contains(merge) && s.contains(ids[0])
        })
        ||| (t.opcode == OP_SWITCH && id_refs_from(t.operands, 2).contains(merge)
            && t.operands.len() > 0 && t.operands[0] is IdRef && s.contains(t.operands[0]->IdRef_0))
    }
}

/// The first block of `f` labelled `label`.
pub open spec fn block_with_label(blocks: Seq<BlockV>, label: u32) -> Option<BlockV>
    decreases blocks.len(),
{
    if blocks.len() == 0 {
        None
    } else if blocks[0].label_id() == Some(label) {
        Some(blocks[0])
    } else {
        block_with_label(blocks.drop_first(), label)
    }
}

/// The block that the header branches to unconditionally, if it does.
pub open spec fn fallthrough_block(f: FunctionV, header: BlockV) -> Option<BlockV> {
    if header.instructions.len() > 0 && header.instructions.last().opcode == OP_BRANCH
        && header.instructions.last().operands.len() > 0
        && header.instructions.last().operands[0] is IdRef {
        block_with_label(f.blocks, header.instructions.last().operands[0]->IdRef_0)
    } else {
        None
    }
}

/// Whether the loop headed by `header` has a non-uniform exit test, in the header
/// itself or in the block it falls through to.
pub open spec fn spec_loop_condition_is_non_uniform(f: FunctionV, header: BlockV, merge: u32, s: Set<u32>) -> bool {
    exit_test_non_uniform(header, merge, s)
        || (fallthrough_block(f, header) matches Some(b) && exit_test_non_uniform(b, merge, s))
}

/// The first block of `blocks` labelled `label`.
fn find_block_with_label(blocks: &Vec<Block>, label: u32) -> (r: Option<&Block>)
    ensures
        match r {
            Some(b) => block_with_label(blocks_view(blocks@), label) == Some(b@),
            None => block_with_label(blocks_view(blocks@), label) is None,
        },
{
    let mut i: usize = 0;
    assert(blocks_view(blocks@).skip(0) =~= blocks_view(blocks@));
    while i < blocks.len()
        invariant
            i <= blocks@.len(),
            block_with_label(blocks_view(blocks@), label) == block_with_label(blocks_view(blocks@).skip(i as int), label),
        decreases blocks@.len() - i,
    {
        let ghost rest = blocks_view(blocks@).skip(i as int);
        assert(rest.len() > 0 && rest[0] == blocks@[i as int]@);
        assert(rest.drop_first() =~= blocks_view(blocks@).skip(i + 1));
        if blocks[i].label_id() == Some(label) {
            return Some(&blocks[i]);
        }
        i = i + 1;
    }
    None
}

/// Whether the list contains `v`.
fn contains_word(v: &Vec<u32>, x: u32) -> (r: bool)
    ensures
        r == v@.contains(x),
{
    let mut i: usize = 0;
    while i < v.len()
        invariant
            i <= v@.len(),
            forall|j: int| 0 <= j < i ==> v@[j] != x,
        decreases v@.len() - i,
    {
        if v[i] == x {
            assert(v@[i as int] == x);
            return true;
        }
        i = i + 1;
    }
    false
}

/// Whether the last instruction of the block is an exit test on a non-uniform value.
fn exit_test_is_non_uniform(block: &Block, merge_id: u32, non_uniform: &FxHashSet<u32>) -> (r: bool)
    ensures
        r == exit_test_non_uniform(block@, merge_id, word_set(*non_uniform)),
{
    let n = block.instructions.len();
    if n == 0 {
        return false;
    }
    let term = &block.instructions[n - 1];
    assert(block@.instructions.last() == term@);
    let ghost ov = term@.operands;
    if term.opcode == OP_BRANCH_CONDITIONAL {
        let ids = collect_id_refs(&term.operands, 0, term.operands.len());
        assert(ov.subrange(0, ov.len() as int) =~= ov);
        if ids.len() == 0 {
            return false;
        }
        let mut exits = false;
        let mut k: usize = 1;
        while k < ids.len()
            invariant
                1 <= k <= ids@.len(),
                exits == ids@.drop_first().take(k - 1).contains(merge_id),
            decreases ids@.len() - k,
        {
            let ghost prev = ids@.drop_first().take(k - 1);
            assert(ids@.drop_first().take(k as int) =~= prev.push(ids@[k as int]));
            if ids[k] == merge_id {
                exits = true;
                assert(prev.push(ids@[k as int])[k - 1] == merge_id);
            } else {
                assert forall|x: u32| prev.push(ids@[k as int]).contains(x) && x == merge_id implies prev.contains(x) by {
                    let j = choose|j: int| 0 <= j < prev.push(ids@[k as int]).len() && prev.push(ids@[k as int])[j] == x;
                    assert(j < prev.len());
                    assert(prev[j] == x);
                }
                assert forall|x: u32| prev.contains(x) implies prev.push(ids@[k as int]).contains(x) by {
                    let j = choose|j: int| 0 <= j < prev.len() && prev[j] == x;
                    assert(prev.push(ids@[k as int])[j] == x);
                }
            }
            proof {
                if exits && !(ids@[k as int] == merge_id) {
                    let j = choose|j: int| 0 <= j < prev.len() && prev[j] == merge_id;
                    assert(prev.push(ids@[k as int])[j] == merge_id);
                }
            }
            k = k + 1;
        }
        assert(ids@.drop_first().take(k - 1) =~= ids@.drop_first());
        if !exits {
            return false;
        }
        return word_set_contains(non_uniform, ids[0]);
    }
    if term.opcode == OP_SWITCH {
        let len = term.operands.len();
        let from = if len < 2 { len } else { 2 };
        let targets = collect_id_refs(&term.operands, from, len);
        if !contains_word(&targets, merge_id) {
            return false;
        }
        if len > 0 {
            assert(ov[0] == term.operands@[0]@);
            if let Operand::IdRef(sel) = &term.operands[0] {
                return word_set_contains(non_uniform, *sel);
            }
        }
        return false;
    }
    false
}

/// Whether the loop headed by `header_block` (merging at `merge_id`) exits on a
/// non-uniform condition, tested in the header or in the block it branches to.
pub fn loop_condition_is_non_uniform(
    function: &Function,
    header_block: &Block,
    merge_id: u32,
    non_uniform: &FxHashSet<u32>,
) -> (r: bool)
    ensures
        r == spec_loop_condition_is_non_uniform(function@, header_block@, merge_id, word_set(*non_uniform)),
{
    if exit_test_is_non_uniform(header_block, merge_id, non_uniform) {
        return true;
    }
    let n = header_block.instructions.len();
    if n == 0 {
        return false;
    }
    let term = &header_block.instructions[n - 1];
    assert(header_block@.instructions.last() == term@);
    if term.opcode == OP_BRANCH && term.operands.len() > 0 {
        assert(term@.operands[0] == term.operands@[0]@);
        if let Operand::IdRef(t) = &term.operands[0] {
            if let Some(target) = find_block_with_label(&function.blocks, *t) {
                return exit_test_is_non_uniform(target, merge_id, non_uniform);
            }
        }
    }
    false
}

/// The first instruction of the block that opens a loop (`OpLoopMerge`), if any.
pub open spec fn first_loop_merge(s: Seq<InstrV>) -> Option<InstrV>
    decreases s.len(),
{
    if s.len() == 0 {
        None
    } else if s[0].opcode == OP_LOOP_MERGE {
        Some(s[0])
    } else {
        first_loop_merge(s.drop_first())
    }
}

/// The merge block of the loop that `b` heads, if it heads one.
pub open spec fn loop_merge_of(b: BlockV) -> Option<u32> {
    match first_loop_merge(b.instructions) {
        Some(lm) => if lm.operands.len() > 0 && lm.operands[0] is IdRef {
            Some(lm.operands[0]->IdRef_0)
        } else {
            None
        },
        None => None,
    }
}

/// The merge block of the loop that `block` heads, if it heads one.
fn find_loop_merge(block: &Block) -> (r: Option<u32>)
    ensures
        r == loop_merge_of(block@),
{
    let s = &block.instructions;
    let mut i: usize = 0;
    assert(instrs_view(s@).skip(0) =~= instrs_view(s@));
    while i < s.len()
        invariant
            i <= s@.len(),
            block@.instructions == instrs_view(s@),
            first_loop_merge(instrs_view(s@)) == first_loop_merge(instrs_view(s@).skip(i as int)),
        decreases s@.len() - i,
    {
        let ghost rest = instrs_view(s@).skip(i as int);
        assert(rest.len() > 0 && rest[0] == s@[i as int]@);
        assert(rest.drop_first() =~= instrs_view(s@).skip(i + 1));
        if s[i].opcode == OP_LOOP_MERGE {
            assert(first_loop_merge(instrs_view(s@)) == Some(s@[i as int]@));
            if s[i].operands.len() > 0 {
                assert(s@[i as int]@.operands[0] == s@[i as int].operands@[0]@);
                if let Operand::IdRef(m) = &s[i].operands[0] {
                    return Some(*m);
                }
            }
            return None;
        }
        i = i + 1;
    }
    None
}

/// Whether `b` heads a loop whose exit condition is non-uniform, with `merge` as merge block.
pub open spec fn heads_non_uniform_loop(f: FunctionV, b: BlockV, s: Set<u32>) -> bool {
    b.label_id() is Some && loop_merge_of(b) is Some
        && spec_loop_condition_is_non_uniform(f, b, loop_merge_of(b)->Some_0, s)
        && b.label_id() != loop_merge_of(b)
}

/// The index of the last of the first `n` blocks labelled `l`.
pub open spec fn last_label_index(blocks: Seq<BlockV>, l: u32, n: int) -> Option<int>
    decreases n,
{
    if n <= 0 {
        None
    } else if blocks[n - 1].label_id() == Some(l) {
        Some(n - 1)
    } else {
        last_label_index(blocks, l, n - 1)
    }
}

/// The successors of the block labelled `l` in the function (the last block with that
/// label); none when no block has it.
pub open spec fn label_succs(f: FunctionV, l: u32) -> Seq<u32> {
    match last_label_index(f.blocks, l, f.blocks.len() as int) {
        Some(i) => spec_successor_labels(f.blocks[i]),
        None => seq![],
    }
}

/// Whether the labels of `s` are closed under the successor edges that do not enter `merge`.
pub open spec fn region_closed(f: FunctionV, merge: u32, s: Set<u32>) -> bool {
    forall|x: u32, k: int|
        #![trigger s.contains(x), label_succs(f, x)[k]]
        s.contains(x) && 0 <= k < label_succs(f, x).len() && label_succs(f, x)[k] != merge
            ==> s.contains(label_succs(f, x)[k])
}

/// Whether `x` is reached from the header `h` along successor edges that do not enter
/// `merge`: every set that holds `h` and is closed under those edges holds it.
pub open spec fn in_region(f: FunctionV, h: u32, merge: u32, x: u32) -> bool {
    forall|s: Set<u32>| s.contains(h) && #[trigger] region_closed(f, merge, s) ==> s.contains(x)
}

/// Whether `x` lies in the loop headed by block `b` of function `f`, a loop whose exit
/// condition is non-uniform.
pub open spec fn in_loop_region(m: ModuleV, nu: Set<u32>, f: int, b: int, x: u32) -> bool {
    &&& 0 <= f < m.functions.len()
    &&& 0 <= b < m.functions[f].blocks.len()
    &&& heads_non_uniform_loop(m.functions[f], m.functions[f].blocks[b], nu)
    &&& in_region(m.functions[f], m.functions[f].blocks[b].label_id()->Some_0, loop_merge_of(m.functions[f].blocks[b])->Some_0, x)
}

/// Whether `l` holds the whole loop headed by block `b` of function `f`: a set that holds
/// the header and is closed under the loop's edges.
pub open spec fn region_collected(m: ModuleV, f: int, b: int, l: Set<u32>) -> bool {
    exists|s: Set<u32>| s.subset_of(l) && s.contains(m.functions[f].blocks[b].label_id()->Some_0)
        && #[trigger] region_closed(m.functions[f], loop_merge_of(m.functions[f].blocks[b])->Some_0, s)
}

/// Whether `l` is exactly the blocks of the loops with a non-uniform exit condition: it
/// holds each such loop whole, and nothing outside them.
pub open spec fn loop_blocks_exact(m: ModuleV, nu: Set<u32>, l: Set<u32>) -> bool {
    &&& forall|f: int, b: int|
        0 <= f < m.functions.len() && 0 <= b < m.functions[f].blocks.len()
            && heads_non_uniform_loop(m.functions[f], #[trigger] m.functions[f].blocks[b], nu)
            ==> region_collected(m, f, b, l)
    &&& forall|x: u32| l.contains(x) ==> exists|f: int, b: int| #[trigger] in_loop_region(m, nu, f, b, x)
}

/// Whether the map gives each label the index of the last of the first `n` blocks with it.
pub open spec fn label_index_map(map: Map<u32, usize>, blocks: Seq<BlockV>, n: int) -> bool {
    forall|l: u32| #![trigger map.contains_key(l)] #![trigger last_label_index(blocks, l, n)]
        (map.contains_key(l) ==> last_label_index(blocks, l, n) == Some(map[l] as int))
        && (!map.contains_key(l) ==> last_label_index(blocks, l, n) is None)
}

proof fn lemma_last_label_index_bounded(blocks: Seq<BlockV>, l: u32, n: int)
    ensures
        last_label_index(blocks, l, n) matches Some(i) ==> 0 <= i < n && blocks[i].label_id() == Some(l),
    decreases n,
{
    if n > 0 {
        lemma_last_label_index_bounded(blocks, l, n - 1);
    }
}

proof fn lemma_pop_keeps(old_stack: Seq<u32>, new_stack: Seq<u32>, label: u32, x: u32)
    requires
        old_stack == new_stack.push(label),
        old_stack.contains(x),
        x != label,
    ensures
        new_stack.contains(x),
{
    let j = choose|j: int| 0 <= j < old_stack.len() && old_stack[j] == x;
    assert(j < new_stack.len());
    assert(new_stack[j] == x);
}

proof fn lemma_push_keeps(old_stack: Seq<u32>, y: u32, x: u32)
    requires
        old_stack.contains(x),
    ensures
        old_stack.push(y).contains(x),
{
    let j = choose|j: int| 0 <= j < old_stack.len() && old_stack[j] == x;
    assert(old_stack.push(y)[j] == x);
}

/// Adds to `in_loop` the blocks of the loop headed by `header_id`: the header and every
/// block reached from it without entering `merge_id`.
fn collect_region(
    function: &Function,
    label_to_idx: &rustc_hash::FxHashMap<u32, usize>,
    header_id: u32,
    merge_id: u32,
    in_loop: &mut FxHashSet<u32>,
)
    requires
        header_id != merge_id,
        label_index_map(crate::front::spirv_passes::sets::index_map(*label_to_idx), function@.blocks, function@.blocks.len() as int),
    ensures
        word_set(*old(in_loop)).subset_of(word_set(*final(in_loop))),
        exists|s: Set<u32>| s.subset_of(word_set(*final(in_loop))) && s.contains(header_id)
            && #[trigger] region_closed(function@, merge_id, s),
        forall|x: u32| #[trigger] word_set(*final(in_loop)).contains(x)
            ==> word_set(*old(in_loop)).contains(x) || in_region(function@, header_id, merge_id, x),
{
    let ghost f = function@;
    let ghost old_in = word_set(*in_loop);
    let mut visited = new_word_set();
    let mut stack: Vec<u32> = vec![header_id];
    proof {
        assert(stack@[0] == header_id);
        assert forall|s: Set<u32>| s.contains(header_id) && #[trigger] region_closed(f, merge_id, s) implies s.contains(header_id) by {}
    }
    while stack.len() > 0
        invariant
            f == function@,
            header_id != merge_id,
            label_index_map(crate::front::spirv_passes::sets::index_map(*label_to_idx), f.blocks, f.blocks.len() as int),
            word_set(visited).finite(),
            forall|x: u32| #[trigger] word_set(visited).contains(x) ==> in_region(f, header_id, merge_id, x),
            forall|j: int| 0 <= j < stack@.len() ==> in_region(f, header_id, merge_id, #[trigger] stack@[j]),
            forall|x: u32, k: int|
                #![trigger word_set(visited).contains(x), label_succs(f, x)[k]]
                word_set(visited).contains(x) && 0 <= k < label_succs(f, x).len() && label_succs(f, x)[k] != merge_id
                    ==> word_set(visited).contains(label_succs(f, x)[k]) || stack@.contains(label_succs(f, x)[k]),
            word_set(visited).contains(header_id) || stack@.contains(header_id),
            old_in.subset_of(word_set(*in_loop)),
            word_set(visited).subset_of(word_set(*in_loop)),
            forall|x: u32| #[trigger] word_set(*in_loop).contains(x) ==> old_in.contains(x) || word_set(visited).contains(x),
        decreases 0x1_0000_0000 - word_set(visited).len(), stack@.len(),
    {
        proof { lemma_word_set_bounded(word_set(visited)); }
        let ghost old_stack = stack@;
        let ghost v0 = word_set(visited);
        let label = stack.pop().unwrap();
        proof {
            assert(old_stack == stack@.push(label));
            assert(old_stack[old_stack.len() - 1] == label);
            assert forall|j: int| 0 <= j < stack@.len() implies in_region(f, header_id, merge_id, #[trigger] stack@[j]) by {
                assert(stack@[j] == old_stack[j]);
            }
            assert forall|x: u32| old_stack.contains(x) && x != label implies stack@.contains(x) by {
                lemma_pop_keeps(old_stack, stack@, label, x);
            }
        }
        if label == merge_id {
            continue;
        }
        let newly = word_set_insert(&mut visited, label);
        if !newly {
            continue;
        }
        word_set_insert(in_loop, label);
        proof {
            lemma_word_set_bounded(v0);
            lemma_word_set_bounded(word_set(visited));
        }
        let ghost succ_spec = label_succs(f, label);
        let succs = match crate::front::spirv_passes::sets::index_map_get(label_to_idx, label) {
            Some(idx) => {
                proof {
                    lemma_last_label_index_bounded(f.blocks, label, f.blocks.len() as int);
                    assert(last_label_index(f.blocks, label, f.blocks.len() as int) == Some(idx as int));
                    assert(f.blocks[idx as int] == function.blocks@[idx as int]@);
                }
                successor_labels(&function.blocks[idx])
            },
            None => {
                proof {
                    assert(last_label_index(f.blocks, label, f.blocks.len() as int) is None);
                }
                Vec::new()
            },
        };
        assert(succs@ == succ_spec);
        let ghost base = stack@;
        let mut k: usize = 0;
        while k < succs.len()
            invariant
                k <= succs@.len(),
                succs@ == succ_spec,
                succ_spec == label_succs(f, label),
                in_region(f, header_id, merge_id, label),
                forall|j: int| 0 <= j < base.len() ==> stack@[j] == base[j],
                base.len() <= stack@.len(),
                forall|j: int| 0 <= j < stack@.len() ==> in_region(f, header_id, merge_id, #[trigger] stack@[j]),
                forall|kk: int| 0 <= kk < k && succ_spec[kk] != merge_id ==> stack@.contains(#[trigger] succ_spec[kk]),
            decreases succs@.len() - k,
        {
            if succs[k] != merge_id {
                let ghost prev = stack@;
                let ghost y = succs[k as int];
                stack.push(succs[k]);
                proof {
                    assert forall|s: Set<u32>| s.contains(header_id) && #[trigger] region_closed(f, merge_id, s) implies s.contains(y) by {
                        assert(s.contains(label));
                        assert(label_succs(f, label)[k as int] == y);
                    }
                    assert forall|j: int| 0 <= j < stack@.len() implies in_region(f, header_id, merge_id, #[trigger] stack@[j]) by {
                        if j < prev.len() {
                            assert(stack@[j] == prev[j]);
                        } else {
                            assert(stack@[j] == y);
                        }
                    }
                    assert forall|kk: int| 0 <= kk < k + 1 && succ_spec[kk] != merge_id implies stack@.contains(#[trigger] succ_spec[kk]) by {
                        if kk < k {
                            lemma_push_keeps(prev, y, succ_spec[kk]);
                        } else {
                            assert(stack@[prev.len() as int] == y);
                        }
                    }
                }
            }
            k = k + 1;
        }
        proof {
            assert forall|x: u32| old_stack.contains(x) && x != label implies stack@.contains(x) by {
                lemma_pop_keeps(old_stack, base, label, x);
                let j = choose|j: int| 0 <= j < base.len() && base[j] == x;
                assert(stack@[j] == x);
            }
            assert forall|x: u32, kk: int|
                #![trigger word_set(visited).contains(x), label_succs(f, x)[kk]]
                word_set(visited).contains(x) && 0 <= kk < label_succs(f, x).len() && label_succs(f, x)[kk] != merge_id
                    implies word_set(visited).contains(label_succs(f, x)[kk]) || stack@.contains(label_succs(f, x)[kk]) by {
                if x == label {
                    assert(succ_spec[kk] == label_succs(f, x)[kk]);
                } else {
                    assert(v0.contains(x));
                    let y = label_succs(f, x)[kk];
                    if !word_set(visited).contains(y) {
                        assert(y != label);
                        assert(old_stack.contains(y));
                    }
                }
            }
            if !word_set(visited).contains(header_id) {
                assert(old_stack.contains(header_id));
            }
        }
    }
    proof {
        assert(stack@.len() == 0);
        assert(word_set(visited).contains(header_id)) by {
            if !word_set(visited).contains(header_id) {
                let j = choose|j: int| 0 <= j < stack@.len() && stack@[j] == header_id;
            }
        }
        assert forall|x: u32, k: int|
            #![trigger word_set(visited).contains(x), label_succs(f, x)[k]]
            word_set(visited).contains(x) && 0 <= k < label_succs(f, x).len() && label_succs(f, x)[k] != merge_id
                implies word_set(visited).contains(label_succs(f, x)[k]) by {
            if !word_set(visited).contains(label_succs(f, x)[k]) {
                assert(stack@.contains(label_succs(f, x)[k]));
                let j = choose|j: int| 0 <= j < stack@.len() && stack@[j] == label_succs(f, x)[k];
            }
        }
        assert(region_closed(f, merge_id, word_set(visited)));
    }
}

impl LowerLoopSampleLod {
    /// The labels of the blocks inside loops with a non-uniform exit condition: each such
    /// loop's header and every block reached from it without entering its merge block.
    pub fn collect_in_nonuniform_loop_blocks(&self, non_uniform: &FxHashSet<u32>) -> (r: FxHashSet<u32>)
        ensures
            forall|f: int, b: int|
                0 <= f < self.builder.module@.functions.len()
                    && 0 <= b < self.builder.module@.functions[f].blocks.len()
                    && heads_non_uniform_loop(self.builder.module@.functions[f], #[trigger] self.builder.module@.functions[f].blocks[b], word_set(*non_uniform))
                    ==> word_set(r).contains(self.builder.module@.functions[f].blocks[b].label_id()->Some_0),
            loop_blocks_exact(self.builder.module@, word_set(*non_uniform), word_set(r)),
    {
        let ghost m = self.builder.module@;
        let ghost nu = word_set(*non_uniform);
        let mut in_loop = new_word_set();
        proof {
            word_set(in_loop).lemma_len0_is_empty();
        }
        let functions = &self.builder.module.functions;
        let mut fi: usize = 0;
        while fi < functions.len()
            invariant
                fi <= functions@.len(),
                m == self.builder.module@,
                m.functions == functions_view(functions@),
                nu == word_set(*non_uniform),
                forall|f: int, b: int| 0 <= f < fi && 0 <= b < m.functions[f].blocks.len()
                    && heads_non_uniform_loop(m.functions[f], #[trigger] m.functions[f].blocks[b], nu)
                    ==> region_collected(m, f, b, word_set(in_loop)),
                forall|x: u32| word_set(in_loop).contains(x) ==> exists|f: int, b: int| #[trigger] in_loop_region(m, nu, f, b, x),
            decreases functions@.len() - fi,
        {
            let function = &functions[fi];
            assert(m.functions[fi as int] == function@);
            let mut label_to_idx = crate::front::spirv_passes::sets::new_index_map();
            proof {
                crate::front::spirv_passes::sets::index_map(label_to_idx).dom().lemma_len0_is_empty();
                assert forall|l: u32| #![trigger last_label_index(function@.blocks, l, 0)] last_label_index(function@.blocks, l, 0) is None by {}
            }
            let mut bi: usize = 0;
            while bi < function.blocks.len()
                invariant
                    bi <= function.blocks@.len(),
                    function@.blocks == blocks_view(function.blocks@),
                    label_index_map(crate::front::spirv_passes::sets::index_map(label_to_idx), function@.blocks, bi as int),
                decreases function.blocks@.len() - bi,
            {
                let ghost before = crate::front::spirv_passes::sets::index_map(label_to_idx);
                assert(function@.blocks[bi as int] == function.blocks@[bi as int]@);
                if let Some(id) = function.blocks[bi].label_id() {
                    crate::front::spirv_passes::sets::index_map_insert(&mut label_to_idx, id, bi);
                }
                proof {
                    let after = crate::front::spirv_passes::sets::index_map(label_to_idx);
                    assert forall|l: u32| #![trigger after.contains_key(l)] #![trigger last_label_index(function@.blocks, l, bi + 1)]
                        (after.contains_key(l) ==> last_label_index(function@.blocks, l, bi + 1) == Some(after[l] as int))
                        && (!after.contains_key(l) ==> last_label_index(function@.blocks, l, bi + 1) is None) by {
                        assert(before.contains_key(l) ==> last_label_index(function@.blocks, l, bi as int) == Some(before[l] as int));
                        assert(!before.contains_key(l) ==> last_label_index(function@.blocks, l, bi as int) is None);
                    }
                }
                bi = bi + 1;
            }
            let mut hb: usize = 0;
            while hb < function.blocks.len()
                invariant
                    fi < functions@.len(),
                    hb <= function.blocks@.len(),
                    m == self.builder.module@,
                    m.functions == functions_view(functions@),
                    m.functions[fi as int] == function@,
                    function@.blocks == blocks_view(function.blocks@),
                    nu == word_set(*non_uniform),
                    label_index_map(crate::front::spirv_passes::sets::index_map(label_to_idx), function@.blocks, function@.blocks.len() as int),
                    forall|f: int, b: int| 0 <= f < fi && 0 <= b < m.functions[f].blocks.len()
                        && heads_non_uniform_loop(m.functions[f], #[trigger] m.functions[f].blocks[b], nu)
                        ==> region_collected(m, f, b, word_set(in_loop)),
                    forall|b: int| 0 <= b < hb
                        && heads_non_uniform_loop(m.functions[fi as int], #[trigger] m.functions[fi as int].blocks[b], nu)
                        ==> region_collected(m, fi as int, b, word_set(in_loop)),
                    forall|x: u32| word_set(in_loop).contains(x) ==> exists|f: int, b: int| #[trigger] in_loop_region(m, nu, f, b, x),
                decreases function.blocks@.len() - hb,
            {
                let block = &function.blocks[hb];
                assert(m.functions[fi as int].blocks[hb as int] == block@);
                let header_id = match block.label_id() {
                    Some(id) => id,
                    None => {
                        hb = hb + 1;
                        continue;
                    },
                };
                let merge_id = match find_loop_merge(block) {
                    Some(mid) => mid,
                    None => {
                        hb = hb + 1;
                        continue;
                    },
                };
                if header_id == merge_id || !loop_condition_is_non_uniform(function, block, merge_id, non_uniform) {
                    hb = hb + 1;
                    continue;
                }
                let ghost before = word_set(in_loop);
                collect_region(function, &label_to_idx, header_id, merge_id, &mut in_loop);
                proof {
                    let after = word_set(in_loop);
                    assert(heads_non_uniform_loop(m.functions[fi as int], m.functions[fi as int].blocks[hb as int], nu));
                    assert forall|f: int, b: int| 0 <= f < fi && 0 <= b < m.functions[f].blocks.len()
                        && heads_non_uniform_loop(m.functions[f], #[trigger] m.functions[f].blocks[b], nu)
                        implies region_collected(m, f, b, after) by {
                        assert(region_collected(m, f, b, before));
                        let s = choose|s: Set<u32>| s.subset_of(before) && s.contains(m.functions[f].blocks[b].label_id()->Some_0)
                            && #[trigger] region_closed(m.functions[f], loop_merge_of(m.functions[f].blocks[b])->Some_0, s);
                        assert(s.subset_of(after));
                    }
                    assert forall|b: int| 0 <= b < hb + 1
                        && heads_non_uniform_loop(m.functions[fi as int], #[trigger] m.functions[fi as int].blocks[b], nu)
                        implies region_collected(m, fi as int, b, after) by {
                        if b < hb {
                            assert(region_collected(m, fi as int, b, before));
                            let s = choose|s: Set<u32>| s.subset_of(before) && s.contains(m.functions[fi as int].blocks[b].label_id()->Some_0)
                                && #[trigger] region_closed(m.functions[fi as int], loop_merge_of(m.functions[fi as int].blocks[b])->Some_0, s);
                            assert(s.subset_of(after));
                        } else {
                            let s = choose|s: Set<u32>| s.subset_of(after) && s.contains(header_id)
                                && #[trigger] region_closed(function@, merge_id, s);
                            assert(s.subset_of(after) && s.contains(header_id) && region_closed(function@, merge_id, s));
                        }
                    }
                    assert forall|x: u32| after.contains(x) implies exists|f: int, b: int| #[trigger] in_loop_region(m, nu, f, b, x) by {
                        if !before.contains(x) {
                            assert(in_region(function@, header_id, merge_id, x));
                            assert(in_loop_region(m, nu, fi as int, hb as int, x));
                        }
                    }
                }
                hb = hb + 1;
            }
            fi = fi + 1;
        }
        proof {
            assert forall|f: int, b: int|
                0 <= f < m.functions.len() && 0 <= b < m.functions[f].blocks.len()
                    && heads_non_uniform_loop(m.functions[f], #[trigger] m.functions[f].blocks[b], nu)
                    implies word_set(in_loop).contains(m.functions[f].blocks[b].label_id()->Some_0) by {
                assert(region_collected(m, f, b, word_set(in_loop)));
                let s = choose|s: Set<u32>| s.subset_of(word_set(in_loop)) && s.contains(m.functions[f].blocks[b].label_id()->Some_0)
                    && #[trigger] region_closed(m.functions[f], loop_merge_of(m.functions[f].blocks[b])->Some_0, s);
            }
        }
        in_loop
    }
}

/// The instructions with every lowerable implicit sample made explicit at `lod`.
pub open spec fn lower_instrs(s: Seq<InstrV>, lod: u32) -> Seq<InstrV> {
    s.map_values(|i: InstrV| if spec_is_lowerable_implicit_sample(i) { spec_convert_implicit_to_explicit(i, lod) } else { i })
}

/// The block, lowered when its label is in `blocks`.
pub open spec fn lower_block(b: BlockV, blocks: Set<u32>, lod: u32) -> BlockV {
    if b.label_id() is Some && blocks.contains(b.label_id()->Some_0) {
        BlockV { instructions: lower_instrs(b.instructions, lod), ..b }
    } else {
        b
    }
}

/// The function with the blocks labelled in `blocks` lowered.
pub open spec fn lower_function(f: FunctionV, blocks: Set<u32>, lod: u32) -> FunctionV {
    FunctionV { blocks: f.blocks.map_values(|b: BlockV| lower_block(b, blocks, lod)), ..f }
}

/// Whether some block labelled in `blocks` holds a lowerable sample.
pub open spec fn has_lowerable(fs: Seq<FunctionV>, blocks: Set<u32>) -> bool {
    exists|f: int, b: int, k: int| 0 <= f < fs.len() && 0 <= b < fs[f].blocks.len()
        && 0 <= k < fs[f].blocks[b].instructions.len()
        && fs[f].blocks[b].label_id() is Some && blocks.contains(fs[f].blocks[b].label_id()->Some_0)
        && spec_is_lowerable_implicit_sample(#[trigger] fs[f].blocks[b].instructions[k])
}

/// The id of the first 32-bit `OpTypeFloat` of the globals that has one.
pub open spec fn first_float32(g: Seq<InstrV>) -> Option<u32>
    decreases g.len(),
{
    if g.len() == 0 {
        None
    } else if g[0].opcode == OP_TYPE_FLOAT && g[0].operands.len() > 0
        && g[0].operands[0] == OperandV::LiteralBit32(32) && g[0].result_id is Some {
        g[0].result_id
    } else {
        first_float32(g.drop_first())
    }
}

/// The declaration of the 32-bit float type.
pub open spec fn float32_decl() -> InstrV {
    type_decl(OP_TYPE_FLOAT, seq![OperandV::LiteralBit32(32)])
}

/// The float type that the LOD constant gets, with the globals and the next id after it
/// is found or declared.
pub open spec fn float_for_lod(g: Seq<InstrV>, next: u32) -> (u32, Seq<InstrV>, int) {
    match first_float32(g) {
        Some(id) => (id, g, next as int),
        None => match first_identical_type(g, float32_decl()) {
            Some(id) => (id, g, next as int),
            None => (next, g.push(InstrV { result_id: Some(next), ..float32_decl() }), next + 1),
        },
    }
}

/// The module and next id after lowering the blocks labelled in `l`: the float type is
/// found or declared, a zero constant of it is appended, and the samples of those blocks
/// take it as their LOD.
pub open spec fn lowered(m: ModuleV, next: u32, l: Set<u32>) -> (ModuleV, int) {
    let (fty, g, n) = float_for_lod(m.types_global_values, next);
    let lod = n as u32;
    (
        ModuleV {
            types_global_values: g.push(
                InstrV {
                    opcode: OP_CONSTANT,
                    result_type: Some(fty),
                    result_id: Some(lod),
                    operands: seq![OperandV::LiteralBit32(0)],
                },
            ),
            functions: m.functions.map_values(|f: FunctionV| lower_function(f, l, lod)),
            ..m
        },
        n + 1,
    )
}

/// `nu` is the least set that holds the module's inputs and is closed under the
/// propagation rules, and `l` is exactly the blocks of the loops whose exit condition
/// depends on `nu`.
#[verifier::opaque]
pub open spec fn analysis_exact(m: ModuleV, nu: Set<u32>, l: Set<u32>) -> bool {
    &&& forall|t: Set<u32>| seeds_in(m, t) && #[trigger] module_closed(m, t) ==> nu.subset_of(t)
    &&& loop_blocks_exact(m, nu, l)
}

/// `nu` holds the module's inputs and is closed under the propagation rules, and `l`
/// holds the header of every loop whose exit condition depends on `nu`.
pub open spec fn covers_non_uniform_loops(m: ModuleV, nu: Set<u32>, l: Set<u32>) -> bool {
    &&& seeds_in(m, nu)
    &&& module_closed(m, nu)
    &&& forall|f: int, b: int|
        0 <= f < m.functions.len() && 0 <= b < m.functions[f].blocks.len()
            && heads_non_uniform_loop(m.functions[f], #[trigger] m.functions[f].blocks[b], nu)
            ==> l.contains(m.functions[f].blocks[b].label_id()->Some_0)
}

/// Lowers every lowerable sample of the list to LOD `lod`.
fn lower_instructions(instrs: &mut Vec<Instruction>, lod: u32)
    ensures
        instrs_view(final(instrs)@) == lower_instrs(instrs_view(old(instrs)@), lod),
{
    let ghost orig = instrs_view(instrs@);
    let mut i: usize = 0;
    while i < instrs.len()
        invariant
            i <= instrs@.len(),
            instrs@.len() == orig.len(),
            forall|k: int| 0 <= k < i ==> (#[trigger] instrs@[k])@ == lower_instrs(orig, lod)[k],
            forall|k: int| i <= k < instrs@.len() ==> (#[trigger] instrs@[k])@ == orig[k],
        decreases instrs@.len() - i,
    {
        if is_lowerable_implicit_sample(&instrs[i]) {
            convert_implicit_to_explicit(&mut instrs[i], lod);
        }
        i = i + 1;
    }
    assert(instrs_view(instrs@) =~= lower_instrs(orig, lod));
}

/// Lowers the blocks of the function whose labels are in `in_loop`.
fn lower_function_blocks(function: &mut Function, in_loop: &FxHashSet<u32>, lod: u32)
    ensures
        final(function)@ == lower_function(old(function)@, word_set(*in_loop), lod),
{
    let ghost l = word_set(*in_loop);
    let ghost orig = old(function)@;
    let mut bi: usize = 0;
    while bi < function.blocks.len()
        invariant
            bi <= function.blocks@.len(),
            function.blocks@.len() == orig.blocks.len(),
            function.def == old(function).def,
            function.end == old(function).end,
            function.parameters == old(function).parameters,
            orig == old(function)@,
            l == word_set(*in_loop),
            forall|k: int| 0 <= k < bi ==> (#[trigger] function.blocks@[k])@ == lower_block(orig.blocks[k], l, lod),
            forall|k: int| bi <= k < function.blocks@.len() ==> (#[trigger] function.blocks@[k])@ == orig.blocks[k],
        decreases function.blocks@.len() - bi,
    {
        if let Some(label) = function.blocks[bi].label_id() {
            if word_set_contains(in_loop, label) {
                lower_instructions(&mut function.blocks[bi].instructions, lod);
            }
        }
        bi = bi + 1;
    }
    assert(function@.blocks =~= orig.blocks.map_values(|b: BlockV| lower_block(b, l, lod)));
}

impl LowerLoopSampleLod {
    /// The pass over `builder`.
    pub fn new(builder: Builder) -> (r: Self)
        ensures
            r.builder == builder,
    {
        LowerLoopSampleLod { builder }
    }

    /// The finished module.
    pub fn into_builder(self) -> (r: Builder)
        ensures
            r == self.builder,
    {
        self.builder
    }

    /// The first 32-bit float type of the module, declared if there is none.
    fn find_or_make_float_type(&mut self) -> (r: u32)
        requires
            old(self).builder.next_id < u32::MAX,
        ensures
            match first_float32(old(self).builder.module@.types_global_values) {
                Some(id) => r == id && final(self).builder == old(self).builder,
                None => crate::front::spirv_passes::builder::declares_type(
                    old(self).builder,
                    final(self).builder,
                    crate::front::spirv_passes::builder::type_decl(OP_TYPE_FLOAT, seq![OperandV::LiteralBit32(32)]),
                    r,
                ),
            },
    {
        let g = &self.builder.module.types_global_values;
        let mut i: usize = 0;
        assert(instrs_view(g@).skip(0) =~= instrs_view(g@));
        while i < g.len()
            invariant
                i <= g@.len(),
                instrs_view(g@) == self.builder.module@.types_global_values,
                first_float32(instrs_view(g@)) == first_float32(instrs_view(g@).skip(i as int)),
            decreases g@.len() - i,
        {
            let ghost rest = instrs_view(g@).skip(i as int);
            assert(rest.len() > 0 && rest[0] == g@[i as int]@);
            assert(rest.drop_first() =~= instrs_view(g@).skip(i + 1));
            if g[i].opcode == OP_TYPE_FLOAT && g[i].operands.len() > 0 {
                assert(rest[0].operands[0] == g@[i as int].operands@[0]@);
                if let Operand::LiteralBit32(w) = &g[i].operands[0] {
                    if *w == 32 {
                        if let Some(id) = g[i].result_id {
                            return id;
                        }
                    }
                }
            }
            i = i + 1;
        }
        self.builder.type_float(32)
    }

    /// Whether some block labelled in `in_loop` holds a lowerable sample.
    fn any_lowerable(&self, in_loop: &FxHashSet<u32>) -> (r: bool)
        ensures
            r == has_lowerable(self.builder.module@.functions, word_set(*in_loop)),
    {
        let ghost fs = self.builder.module@.functions;
        let functions = &self.builder.module.functions;
        let mut fi: usize = 0;
        while fi < functions.len()
            invariant
                fi <= functions@.len(),
                fs == functions_view(functions@),
                fs == self.builder.module@.functions,
                forall|f: int, b: int, k: int| 0 <= f < fi && 0 <= b < fs[f].blocks.len()
                    && 0 <= k < fs[f].blocks[b].instructions.len()
                    && fs[f].blocks[b].label_id() is Some && word_set(*in_loop).contains(fs[f].blocks[b].label_id()->Some_0)
                    ==> !spec_is_lowerable_implicit_sample(#[trigger] fs[f].blocks[b].instructions[k]),
            decreases functions@.len() - fi,
        {
            let blocks = &functions[fi].blocks;
            assert(fs[fi as int].blocks == blocks_view(blocks@));
            let mut bi: usize = 0;
            while bi < blocks.len()
                invariant
                    fi < functions@.len(),
                    bi <= blocks@.len(),
                    fs == functions_view(functions@),
                    fs == self.builder.module@.functions,
                fs == self.builder.module@.functions,
                    fs[fi as int].blocks == blocks_view(blocks@),
                    forall|f: int, b: int, k: int| 0 <= f < fi && 0 <= b < fs[f].blocks.len()
                        && 0 <= k < fs[f].blocks[b].instructions.len()
                        && fs[f].blocks[b].label_id() is Some && word_set(*in_loop).contains(fs[f].blocks[b].label_id()->Some_0)
                        ==> !spec_is_lowerable_implicit_sample(#[trigger] fs[f].blocks[b].instructions[k]),
                    forall|b: int, k: int| 0 <= b < bi && 0 <= k < fs[fi as int].blocks[b].instructions.len()
                        && fs[fi as int].blocks[b].label_id() is Some && word_set(*in_loop).contains(fs[fi as int].blocks[b].label_id()->Some_0)
                        ==> !spec_is_lowerable_implicit_sample(#[trigger] fs[fi as int].blocks[b].instructions[k]),
                decreases blocks@.len() - bi,
            {
                let block = &blocks[bi];
                assert(fs[fi as int].blocks[bi as int] == block@);
                if let Some(label) = block.label_id() {
                    if word_set_contains(in_loop, label) {
                        let mut ii: usize = 0;
                        while ii < block.instructions.len()
                            invariant
                                ii <= block.instructions@.len(),
                                fi < fs.len(),
                                fs == self.builder.module@.functions,
                                bi < fs[fi as int].blocks.len(),
                                fs[fi as int].blocks[bi as int] == block@,
                                block@.label_id() == Some(label),
                                word_set(*in_loop).contains(label),
                                forall|k: int| 0 <= k < ii ==> !spec_is_lowerable_implicit_sample(#[trigger] block@.instructions[k]),
                            decreases block.instructions@.len() - ii,
                        {
                            assert(block@.instructions[ii as int] == block.instructions@[ii as int]@);
                            if is_lowerable_implicit_sample(&block.instructions[ii]) {
                                assert(spec_is_lowerable_implicit_sample(fs[fi as int].blocks[bi as int].instructions[ii as int]));
                                assert(has_lowerable(fs, word_set(*in_loop)));
                                return true;
                            }
                            ii = ii + 1;
                        }
                    }
                }
                bi = bi + 1;
            }
            fi = fi + 1;
        }
        false
    }
    /// Lowers every lowerable sample of the blocks labelled in `in_loop` to LOD `lod`.
    fn lower_blocks(&mut self, in_loop: &FxHashSet<u32>, lod: u32)
        ensures
            final(self).builder.next_id == old(self).builder.next_id,
            crate::front::spirv_passes::builder::same_but_functions(old(self).builder.module@, final(self).builder.module@),
            final(self).builder.module@.functions == old(self).builder.module@.functions.map_values(
                |f: FunctionV| lower_function(f, word_set(*in_loop), lod),
            ),
    {
        let ghost l = word_set(*in_loop);
        let ghost orig = old(self).builder.module@.functions;
        let mut fi: usize = 0;
        while fi < self.builder.module.functions.len()
            invariant
                fi <= self.builder.module.functions@.len(),
                self.builder.module.functions@.len() == orig.len(),
                self.builder.next_id == old(self).builder.next_id,
                crate::front::spirv_passes::builder::same_but_functions(old(self).builder.module@, self.builder.module@),
                orig == old(self).builder.module@.functions,
                l == word_set(*in_loop),
                forall|k: int| 0 <= k < fi ==> (#[trigger] self.builder.module.functions@[k])@ == lower_function(orig[k], l, lod),
                forall|k: int| fi <= k < self.builder.module.functions@.len() ==> (#[trigger] self.builder.module.functions@[k])@ == orig[k],
            decreases self.builder.module.functions@.len() - fi,
        {
            lower_function_blocks(&mut self.builder.module.functions[fi], in_loop, lod);
            fi = fi + 1;
        }
        assert(self.builder.module@.functions =~= orig.map_values(|f: FunctionV| lower_function(f, l, lod)));
    }
    /// Runs the pass: finds the loops with a non-uniform exit condition and, if their
    /// blocks hold implicit-LOD samples, makes those samples explicit at LOD 0.
    pub fn do_pass(&mut self)
        requires
            old(self).builder.next_id < u32::MAX - 1,
        ensures
            samples_lowered(old(self).builder, final(self).builder),
    {
        let ghost m = self.builder.module@;
        let non_uniform = self.collect_non_uniform_ids();
        let in_loop = self.collect_in_nonuniform_loop_blocks(&non_uniform);
        let ghost nu = word_set(non_uniform);
        let ghost l = word_set(in_loop);
        assert(covers_non_uniform_loops(m, nu, l));
        assert(analysis_exact(m, nu, l)) by {
            reveal(analysis_exact);
        }
        if word_set_is_empty(&in_loop) {
            assert(!has_lowerable(m.functions, l));
            return;
        }
        if !self.any_lowerable(&in_loop) {
            return;
        }
        let ghost b0 = self.builder;
        let float_type = self.find_or_make_float_type();
        let ghost b1 = self.builder;
        let lod_zero = self.builder.constant_bit32(float_type, 0u32);
        let ghost b2 = self.builder;
        self.lower_blocks(&in_loop, lod_zero);
        proof {
            let (fty, g, n) = float_for_lod(m.types_global_values, b0.next_id);
            assert(fty == float_type);
            assert(g == b1.module@.types_global_values);
            assert(n == b1.next_id);
            assert(self.builder.module@ =~= lowered(m, b0.next_id, l).0);
        }
    }
}

/// What lowering does to a builder. The non-uniform ids are the least set closed under
/// the propagation rules, and the blocks are exactly those of the loops with a
/// non-uniform exit: nothing changes if no such block holds a lowerable
/// implicit-LOD sample; otherwise exactly those samples become explicit at LOD 0, and the
/// module gains at most a float type and the zero constant.
pub open spec fn samples_lowered(b0: Builder, b1: Builder) -> bool {
    exists|nu: Set<u32>, l: Set<u32>|
        #[trigger] covers_non_uniform_loops(b0.module@, nu, l) && analysis_exact(b0.module@, nu, l) && if has_lowerable(b0.module@.functions, l) {
            b1.module@ == lowered(b0.module@, b0.next_id, l).0 && b1.next_id == lowered(b0.module@, b0.next_id, l).1
        } else {
            b1 == b0
        }
}

/// Lowering changes no instruction but implicit-LOD samples, each into an explicit-LOD
/// sample with the same result; it keeps the module's interface, the shape of every
/// function, and every global it had, adding at most a float type and a constant.
pub proof fn law_lowering_touches_only_samples(b0: Builder, b1: Builder)
    requires
        samples_lowered(b0, b1),
    ensures
        b1.module@.entry_points == b0.module@.entry_points,
        b1.module@.annotations == b0.module@.annotations,
        b1.module@.debug_names == b0.module@.debug_names,
        b1.module@.ext_inst_imports == b0.module@.ext_inst_imports,
        b1.module@.capabilities == b0.module@.capabilities,
        b1.module@.types_global_values.len() <= b0.module@.types_global_values.len() + 2,
        b1.module@.types_global_values.len() >= b0.module@.types_global_values.len(),
        b1.module@.types_global_values.subrange(0, b0.module@.types_global_values.len() as int)
            == b0.module@.types_global_values,
        b1.module@.functions.len() == b0.module@.functions.len(),
        forall|f: int| 0 <= f < b0.module@.functions.len() ==> (#[trigger] b1.module@.functions[f]).blocks.len()
            == b0.module@.functions[f].blocks.len(),
        forall|f: int, b: int| 0 <= f < b0.module@.functions.len() && 0 <= b < b0.module@.functions[f].blocks.len()
            ==> (#[trigger] b1.module@.functions[f].blocks[b]).label == b0.module@.functions[f].blocks[b].label
                && b1.module@.functions[f].blocks[b].instructions.len() == b0.module@.functions[f].blocks[b].instructions.len(),
        forall|f: int, b: int, k: int| 0 <= f < b0.module@.functions.len() && 0 <= b < b0.module@.functions[f].blocks.len()
            && 0 <= k < b0.module@.functions[f].blocks[b].instructions.len()
            ==> (#[trigger] b1.module@.functions[f].blocks[b].instructions[k]) == b0.module@.functions[f].blocks[b].instructions[k]
                || (spec_is_lowerable_implicit_sample(b0.module@.functions[f].blocks[b].instructions[k])
                    && b1.module@.functions[f].blocks[b].instructions[k].result_id == b0.module@.functions[f].blocks[b].instructions[k].result_id
                    && b1.module@.functions[f].blocks[b].instructions[k].result_type == b0.module@.functions[f].blocks[b].instructions[k].result_type
                    && (b1.module@.functions[f].blocks[b].instructions[k].opcode == OP_IMAGE_SAMPLE_EXPLICIT_LOD
                        || b1.module@.functions[f].blocks[b].instructions[k].opcode == OP_IMAGE_SPARSE_SAMPLE_EXPLICIT_LOD)),
{
    let m = b0.module@;
    let g0 = m.types_global_values;
    let (nu, l) = choose|nu: Set<u32>, l: Set<u32>|
        #[trigger] covers_non_uniform_loops(m, nu, l) && if has_lowerable(m.functions, l) {
            b1.module@ == lowered(m, b0.next_id, l).0 && b1.next_id == lowered(m, b0.next_id, l).1
        } else {
            b1 == b0
        };
    if has_lowerable(m.functions, l) {
        let (fty, g, n) = float_for_lod(g0, b0.next_id);
        let lod = n as u32;
        assert(g.len() <= g0.len() + 1 && g.subrange(0, g0.len() as int) =~= g0);
        assert(b1.module@.types_global_values.subrange(0, g0.len() as int) =~= g0);
        assert forall|f: int, b: int, k: int| 0 <= f < m.functions.len() && 0 <= b < m.functions[f].blocks.len()
            && 0 <= k < m.functions[f].blocks[b].instructions.len()
            implies (#[trigger] b1.module@.functions[f].blocks[b].instructions[k]) == m.functions[f].blocks[b].instructions[k]
                || (spec_is_lowerable_implicit_sample(m.functions[f].blocks[b].instructions[k])
                    && b1.module@.functions[f].blocks[b].instructions[k].result_id == m.functions[f].blocks[b].instructions[k].result_id
                    && b1.module@.functions[f].blocks[b].instructions[k].result_type == m.functions[f].blocks[b].instructions[k].result_type
                    && (b1.module@.functions[f].blocks[b].instructions[k].opcode == OP_IMAGE_SAMPLE_EXPLICIT_LOD
                        || b1.module@.functions[f].blocks[b].instructions[k].opcode == OP_IMAGE_SPARSE_SAMPLE_EXPLICIT_LOD)) by {
            let i0 = m.functions[f].blocks[b].instructions[k];
            assert(b1.module@.functions[f] == lower_function(m.functions[f], l, lod));
            assert(b1.module@.functions[f].blocks[b] == lower_block(m.functions[f].blocks[b], l, lod));
            if spec_is_lowerable_implicit_sample(i0) {
                let i1 = spec_convert_implicit_to_explicit(i0, lod);
                assert(i1.result_id == i0.result_id && i1.result_type == i0.result_type);
            }
        }
    } else {
        assert(g0.subrange(0, g0.len() as int) =~= g0);
    }
}

/// Whether the block is labelled in `l`.
pub open spec fn labelled_in(b: BlockV, l: Set<u32>) -> bool {
    b.label_id() is Some && l.contains(b.label_id()->Some_0)
}

/// After lowering, no block of a loop with a non-uniform exit holds an implicit-LOD
/// sample that could be lowered, and every other block is as it was.
pub proof fn law_no_implicit_sample_left_in_nonuniform_loops(b0: Builder, b1: Builder)
    requires
        samples_lowered(b0, b1),
    ensures
        exists|nu: Set<u32>, l: Set<u32>|
            #[trigger] covers_non_uniform_loops(b0.module@, nu, l) && !has_lowerable(b1.module@.functions, l)
                && b1.module@.functions.len() == b0.module@.functions.len()
                && forall|f: int, b: int| 0 <= f < b0.module@.functions.len() && 0 <= b < b0.module@.functions[f].blocks.len()
                    && !labelled_in(b0.module@.functions[f].blocks[b], l)
                    ==> #[trigger] b1.module@.functions[f].blocks[b] == b0.module@.functions[f].blocks[b],
{
    let m = b0.module@;
    let (nu, l) = choose|nu: Set<u32>, l: Set<u32>|
        #[trigger] covers_non_uniform_loops(m, nu, l) && if has_lowerable(m.functions, l) {
            b1.module@ == lowered(m, b0.next_id, l).0 && b1.next_id == lowered(m, b0.next_id, l).1
        } else {
            b1 == b0
        };
    if has_lowerable(m.functions, l) {
        let (fty, g, n) = float_for_lod(m.types_global_values, b0.next_id);
        let lod = n as u32;
        let fs = b1.module@.functions;
        assert forall|f: int, b: int, k: int| 0 <= f < fs.len() && 0 <= b < fs[f].blocks.len()
            && 0 <= k < fs[f].blocks[b].instructions.len() && fs[f].blocks[b].label_id() is Some
            && l.contains(fs[f].blocks[b].label_id()->Some_0)
            implies !spec_is_lowerable_implicit_sample(#[trigger] fs[f].blocks[b].instructions[k]) by {
            assert(fs[f] == lower_function(m.functions[f], l, lod));
            assert(fs[f].blocks[b] == lower_block(m.functions[f].blocks[b], l, lod));
            let i0 = m.functions[f].blocks[b].instructions[k];
            if spec_is_lowerable_implicit_sample(i0) {
                let i1 = spec_convert_implicit_to_explicit(i0, lod);
                assert(i1.opcode == OP_IMAGE_SAMPLE_EXPLICIT_LOD || i1.opcode == OP_IMAGE_SPARSE_SAMPLE_EXPLICIT_LOD);
            }
        }
        assert forall|f: int, b: int| 0 <= f < m.functions.len() && 0 <= b < m.functions[f].blocks.len()
            && !labelled_in(m.functions[f].blocks[b], l)
            implies #[trigger] fs[f].blocks[b] == m.functions[f].blocks[b] by {
            assert(fs[f] == lower_function(m.functions[f], l, lod));
        }
        assert(!has_lowerable(fs, l));
    }
}

} // verus!
