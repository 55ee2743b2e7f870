//! Links the outputs of the vertex stage to the inputs of the fragment stage: removes the
//! fragment inputs that nothing reads, then renumbers the locations so that the removed
//! ones come last and the others stay in order.

use crate::front::spirv_passes::builder::Builder;
use crate::front::spirv_passes::module::{
    blocks_view, duplicate_operands, functions_view, instrs_view, operands_view, Block, BlockV, Function, FunctionV, InstrV, Instruction, ModuleV, Operand, OperandV, DECORATION_LOCATION,
    OP_DECORATE, OP_VARIABLE, STORAGE_CLASS_INPUT, STORAGE_CLASS_OUTPUT,
};
use crate::front::spirv_passes::sets::{
    new_word_map, word_map, word_map_entries, word_map_get, word_map_insert, word_map_remove,
};
use rustc_hash::FxHashMap;
use vstd::prelude::*;

verus! {

/// The pass, over the two stages it links.
pub struct LinkInputs {
    pub frag_builder: Builder,
    pub vert_builder: Builder,
    /// The vertex outputs as (location, variable) pairs, by location.
    pub outputs: Vec<(u32, u32)>,
    /// The fragment inputs to remove, from variable to location.
    pub inputs_to_remove: FxHashMap<u32, u32>,
}

/// Whether `a` decorates `id` with a literal location.
pub open spec fn is_location_of(a: InstrV, id: u32) -> bool {
    &&& a.opcode == OP_DECORATE
    &&& a.operands.len() > 2
    &&& a.operands[1] == OperandV::Decoration(DECORATION_LOCATION)
    &&& a.operands[0] == OperandV::IdRef(id)
    &&& a.operands[2] is LiteralBit32
}

/// The index of the first annotation at or after `from` that gives `id` a location.
pub open spec fn location_index(anns: Seq<InstrV>, id: u32, from: int) -> Option<int>
    decreases anns.len() - from,
{
    if from < 0 || from >= anns.len() {
        None
    } else if is_location_of(anns[from], id) {
        Some(from)
    } else {
        location_index(anns, id, from + 1)
    }
}

/// The location of `id`: that of the first annotation that gives it one.
pub open spec fn spec_find_location(anns: Seq<InstrV>, id: u32) -> Option<u32> {
    match location_index(anns, id, 0) {
        Some(k) => Some(anns[k].operands[2]->LiteralBit32_0),
        None => None,
    }
}

/// Whether `g` is a variable of the storage class `class`.
pub open spec fn is_interface_var(g: InstrV, class: u32) -> bool {
    g.opcode == OP_VARIABLE && g.operands[0] == OperandV::StorageClass(class)
}

/// Whether every variable among the globals names its storage class.
pub open spec fn variables_have_class(g: Seq<InstrV>) -> bool {
    forall|i: int| 0 <= i < g.len() && (#[trigger] g[i]).opcode == OP_VARIABLE ==> g[i].operands.len() > 0
}

/// The inputs of the fragment stage with a location, from variable to location.
pub open spec fn fragment_inputs(m: ModuleV, s: Seq<InstrV>) -> Map<u32, u32>
    decreases s.len(),
{
    if s.len() == 0 {
        Map::empty()
    } else {
        let pre = fragment_inputs(m, s.drop_last());
        let g = s.last();
        if is_interface_var(g, STORAGE_CLASS_INPUT) && g.result_id is Some
            && spec_find_location(m.annotations, g.result_id->Some_0) is Some {
            pre.insert(g.result_id->Some_0, spec_find_location(m.annotations, g.result_id->Some_0)->Some_0)
        } else {
            pre
        }
    }
}

/// The inputs, from variable to location, but those at `loc`.
pub open spec fn unbound_inputs(ins: Map<u32, u32>, loc: u32) -> Map<u32, u32> {
    Map::new(|k: u32| ins.contains_key(k) && ins[k] != loc, |k: u32| ins[k])
}

/// Drops from the inputs every input at `loc`.
fn drop_bound_inputs(inputs: &mut FxHashMap<u32, u32>, loc: u32)
    ensures
        word_map(*final(inputs)) == unbound_inputs(word_map(*old(inputs)), loc),
{
    let ghost m0 = word_map(*inputs);
    let entries = word_map_entries(inputs);
    let mut j: usize = 0;
    while j < entries.len()
        invariant
            j <= entries@.len(),
            forall|i: int| 0 <= i < entries@.len() ==> m0.contains_key(#[trigger] entries@[i].0) && m0[entries@[i].0] == entries@[i].1,
            forall|k: u32| #[trigger] m0.contains_key(k) ==> exists|i: int| 0 <= i < entries@.len() && entries@[i].0 == k,
            forall|k: u32| #[trigger] word_map(*inputs).contains_key(k) ==> m0.contains_key(k) && word_map(*inputs)[k] == m0[k],
            forall|k: u32| #[trigger] m0.contains_key(k) ==> (word_map(*inputs).contains_key(k)
                <==> !(m0[k] == loc && exists|i: int| 0 <= i < j && (#[trigger] entries@[i]).0 == k)),
        decreases entries@.len() - j,
    {
        let (k, v) = entries[j];
        if v == loc {
            word_map_remove(inputs, k);
        }
        proof {
            assert forall|k2: u32| #[trigger] m0.contains_key(k2) implies (word_map(*inputs).contains_key(k2)
                <==> !(m0[k2] == loc && exists|i: int| 0 <= i < j + 1 && (#[trigger] entries@[i]).0 == k2)) by {
                if k2 == k {
                    assert(entries@[j as int].0 == k2);
                } else {
                    if exists|i: int| 0 <= i < j + 1 && (#[trigger] entries@[i]).0 == k2 {
                        let i = choose|i: int| 0 <= i < j + 1 && (#[trigger] entries@[i]).0 == k2;
                        assert(i < j);
                    }
                }
            }
        }
        j = j + 1;
    }
    proof {
        assert forall|k: u32| #[trigger] m0.contains_key(k) && m0[k] == loc implies !word_map(*inputs).contains_key(k) by {
            let i = choose|i: int| 0 <= i < entries@.len() && entries@[i].0 == k;
            assert(entries@[i].0 == k);
        }
    }
    assert(word_map(*inputs) =~= unbound_inputs(m0, loc));
}

/// The outputs of the vertex stage with a location, from location to variable, and the
/// inputs to remove after them: when `keep_if_bound`, the inputs at the output's location
/// are bound to it, and kept.
pub open spec fn vertex_outputs(m: ModuleV, s: Seq<InstrV>, inputs: Map<u32, u32>, keep_if_bound: bool) -> (Map<u32, u32>, Map<u32, u32>)
    decreases s.len(),
{
    if s.len() == 0 {
        (Map::empty(), inputs)
    } else {
        let (outs, ins) = vertex_outputs(m, s.drop_last(), inputs, keep_if_bound);
        let g = s.last();
        if is_interface_var(g, STORAGE_CLASS_OUTPUT) && g.result_id is Some
            && spec_find_location(m.annotations, g.result_id->Some_0) is Some {
            let loc = spec_find_location(m.annotations, g.result_id->Some_0)->Some_0;
            let ins2 = if keep_if_bound { unbound_inputs(ins, loc) } else { ins };
            (outs.insert(loc, g.result_id->Some_0), ins2)
        } else {
            (outs, ins)
        }
    }
}

/// Whether `v` lists the entries of `m`, each once, by increasing key.
pub open spec fn sorted_entries(v: Seq<(u32, u32)>, m: Map<u32, u32>) -> bool {
    &&& forall|j: int| 0 <= j < v.len() ==> m.contains_key(#[trigger] v[j].0) && m[v[j].0] == v[j].1
    &&& forall|k: u32| #[trigger] m.contains_key(k) ==> exists|j: int| 0 <= j < v.len() && v[j].0 == k
    &&& forall|j1: int, j2: int| 0 <= j1 < j2 < v.len() ==> v[j1].0 < v[j2].0
}

/// The index found gives `id` a location, and no annotation before it does.
pub proof fn lemma_location_index(anns: Seq<InstrV>, id: u32, from: int)
    requires
        0 <= from,
    ensures
        location_index(anns, id, from) matches Some(k) ==> from <= k < anns.len() && is_location_of(anns[k], id)
            && forall|j: int| from <= j < k ==> !is_location_of(#[trigger] anns[j], id),
        location_index(anns, id, from) is None ==> forall|j: int| from <= j < anns.len() ==> !is_location_of(#[trigger] anns[j], id),
    decreases anns.len() - from,
{
    if from < anns.len() && !is_location_of(anns[from], id) {
        lemma_location_index(anns, id, from + 1);
    }
}

/// The location of `id`: that of the first annotation that gives it one.
pub fn find_location(anns: &Vec<Instruction>, id: u32) -> (r: Option<u32>)
    ensures
        r == spec_find_location(instrs_view(anns@), id),
{
    match find_location_operand(anns, id) {
        Some(k) => {
            proof {
                lemma_location_index(instrs_view(anns@), id, 0);
            }
            assert(instrs_view(anns@)[k as int] == anns@[k as int]@);
            assert(instrs_view(anns@)[k as int].operands[2] == anns@[k as int].operands@[2]@);
            match &anns[k].operands[2] {
                Operand::LiteralBit32(v) => Some(*v),
                _ => None,
            }
        },
        None => None,
    }
}

/// Where the location operand of `id` is: the index of the first annotation that gives
/// `id` a location, whose third operand it is.
pub fn find_location_operand(anns: &Vec<Instruction>, id: u32) -> (r: Option<usize>)
    ensures
        match r {
            Some(k) => location_index(instrs_view(anns@), id, 0) == Some(k as int) && k < anns@.len(),
            None => location_index(instrs_view(anns@), id, 0) is None,
        },
{
    let ghost s = instrs_view(anns@);
    let mut i: usize = 0;
    while i < anns.len()
        invariant
            i <= anns@.len(),
            s == instrs_view(anns@),
            location_index(s, id, 0) == location_index(s, id, i as int),
        decreases anns@.len() - i,
    {
        let a = &anns[i];
        assert(s[i as int] == a@);
        if a.opcode == OP_DECORATE && a.operands.len() > 2 {
            assert(a@.operands[0] == a.operands@[0]@ && a@.operands[1] == a.operands@[1]@ && a@.operands[2] == a.operands@[2]@);
            let is_loc = match &a.operands[1] {
                Operand::Decoration(d) => *d == DECORATION_LOCATION,
                _ => false,
            };
            let target_ok = match &a.operands[0] {
                Operand::IdRef(t) => *t == id,
                _ => false,
            };
            let literal = match &a.operands[2] {
                Operand::LiteralBit32(_) => true,
                _ => false,
            };
            if is_loc && target_ok && literal {
                return Some(i);
            }
        }
        i = i + 1;
    }
    None
}

/// Whether `g` is a variable of the storage class `class`.
fn interface_var(g: &Instruction, class: u32) -> (r: bool)
    requires
        g@.opcode == OP_VARIABLE ==> g@.operands.len() > 0,
    ensures
        r == is_interface_var(g@, class),
{
    if g.opcode != OP_VARIABLE {
        return false;
    }
    assert(g@.operands[0] == g.operands@[0]@);
    match &g.operands[0] {
        Operand::StorageClass(c) => *c == class,
        _ => false,
    }
}

/// The entries sorted by key; the keys are distinct.
fn sort_by_key(v: Vec<(u32, u32)>) -> (r: Vec<(u32, u32)>)
    requires
        forall|j1: int, j2: int| 0 <= j1 < j2 < v@.len() ==> v@[j1].0 != v@[j2].0,
    ensures
        r@.to_multiset() == v@.to_multiset(),
        forall|j1: int, j2: int| 0 <= j1 < j2 < r@.len() ==> r@[j1].0 < r@[j2].0,
{
    let mut r: Vec<(u32, u32)> = Vec::new();
    let mut i: usize = 0;
    proof {
        broadcast use vstd::multiset::group_multiset_axioms;
        assert(v@.take(0) =~= Seq::<(u32, u32)>::empty());
        assert(r@ =~= Seq::<(u32, u32)>::empty());
    }
    while i < v.len()
        invariant
            i <= v@.len(),
            forall|j1: int, j2: int| 0 <= j1 < j2 < v@.len() ==> v@[j1].0 != v@[j2].0,
            r@.to_multiset() == v@.take(i as int).to_multiset(),
            forall|j1: int, j2: int| 0 <= j1 < j2 < r@.len() ==> r@[j1].0 < r@[j2].0,
            forall|j: int| 0 <= j < r@.len() ==> exists|k: int| 0 <= k < i && #[trigger] r@[j] == v@[k],
        decreases v@.len() - i,
    {
        let e = v[i];
        let mut p: usize = 0;
        while p < r.len() && r[p].0 < e.0
            invariant
                p <= r@.len(),
                forall|j: int| 0 <= j < p ==> r@[j].0 < e.0,
            decreases r@.len() - p,
        {
            p = p + 1;
        }
        proof {
            assert forall|j: int| p <= j < r@.len() implies r@[j].0 > e.0 by {
                let k = choose|k: int| 0 <= k < i && r@[j] == v@[k];
                assert(v@[k].0 != v@[i as int].0);
                if j > p {
                    assert(r@[p as int].0 < r@[j].0);
                }
            }
        }
        let ghost old_r = r@;
        r.insert(p, e);
        proof {
            broadcast use vstd::seq_lib::group_seq_properties;
            broadcast use vstd::multiset::group_multiset_axioms;
            assert(v@.take(i + 1) =~= v@.take(i as int).push(e));
            assert(r@ =~= old_r.take(p as int).push(e) + old_r.skip(p as int));
            vstd::seq_lib::lemma_multiset_commutative(old_r.take(p as int).push(e), old_r.skip(p as int));
            vstd::seq_lib::lemma_multiset_commutative(old_r.take(p as int), old_r.skip(p as int));
            assert(old_r =~= old_r.take(p as int) + old_r.skip(p as int));
            assert forall|j: int| 0 <= j < r@.len() implies exists|k: int| 0 <= k < i + 1 && #[trigger] r@[j] == v@[k] by {
                if j < p {
                    assert(r@[j] == old_r[j]);
                } else if j == p {
                    assert(r@[j] == v@[i as int]);
                } else {
                    assert(r@[j] == old_r[j - 1]);
                }
            }
        }
        i = i + 1;
    }
    assert(v@.take(i as int) =~= v@);
    r
}

/// The entries of the map, each once, by increasing key.
fn sorted_word_entries(m: &FxHashMap<u32, u32>) -> (r: Vec<(u32, u32)>)
    ensures
        sorted_entries(r@, word_map(*m)),
{
    let entries = word_map_entries(m);
    let sorted = sort_by_key(entries);
    proof {
        broadcast use vstd::seq_lib::group_seq_properties;
        broadcast use vstd::multiset::group_multiset_axioms;
        assert forall|j: int| 0 <= j < sorted@.len() implies word_map(*m).contains_key(#[trigger] sorted@[j].0)
            && word_map(*m)[sorted@[j].0] == sorted@[j].1 by {
            assert(sorted@.contains(sorted@[j]));
            assert(sorted@.to_multiset().count(sorted@[j]) > 0);
            assert(entries@.contains(sorted@[j]));
        }
        assert forall|k: u32| #[trigger] word_map(*m).contains_key(k) implies exists|j: int| 0 <= j < sorted@.len() && sorted@[j].0 == k by {
            let j = choose|j: int| 0 <= j < entries@.len() && entries@[j].0 == k;
            assert(entries@.contains(entries@[j]));
            assert(entries@.to_multiset().count(entries@[j]) > 0);
            assert(sorted@.contains(entries@[j]));
        }
    }
    sorted
}

/// Whether the operand refers to a key of `m`.
pub open spec fn refers_to_key(o: OperandV, m: Map<u32, u32>) -> bool {
    o.id_ref_any() matches Some(w) && m.contains_key(w)
}

/// Whether some operand of `a` refers to a key of `m`.
pub open spec fn mentions_key(a: InstrV, m: Map<u32, u32>) -> bool {
    exists|j: int| 0 <= j < a.operands.len() && refers_to_key(#[trigger] a.operands[j], m)
}

/// The ids the operands refer to.
pub open spec fn operand_refs(ops: Seq<OperandV>) -> Set<u32> {
    Set::new(|w: u32| exists|j: int| 0 <= j < ops.len() && (#[trigger] ops[j]).id_ref_any() == Some(w))
}

/// The ids the operands of the instructions refer to.
pub open spec fn instr_refs(s: Seq<InstrV>) -> Set<u32>
    decreases s.len(),
{
    if s.len() == 0 {
        Set::empty()
    } else {
        instr_refs(s.drop_last()) + operand_refs(s.last().operands)
    }
}

/// The ids the instructions of the blocks refer to.
pub open spec fn block_refs(s: Seq<BlockV>) -> Set<u32>
    decreases s.len(),
{
    if s.len() == 0 {
        Set::empty()
    } else {
        block_refs(s.drop_last()) + instr_refs(s.last().instructions)
    }
}

/// The ids the parameters and the instructions of the functions refer to.
pub open spec fn function_refs(s: Seq<FunctionV>) -> Set<u32>
    decreases s.len(),
{
    if s.len() == 0 {
        Set::empty()
    } else {
        function_refs(s.drop_last()) + instr_refs(s.last().parameters) + block_refs(s.last().blocks)
    }
}

/// The fragment module once the inputs in `dead` are gone: the names, decorations,
/// entry point operands and globals that refer to one of them.
pub open spec fn trimmed(m: ModuleV, dead: Map<u32, u32>) -> ModuleV {
    ModuleV {
        debug_names: m.debug_names.filter(|a: InstrV| !mentions_key(a, dead)),
        annotations: m.annotations.filter(|a: InstrV| !mentions_key(a, dead)),
        entry_points: m.entry_points.map_values(|e: InstrV| InstrV {
            operands: e.operands.filter(|o: OperandV| !refers_to_key(o, dead)),
            ..e
        }),
        types_global_values: m.types_global_values.filter(
            |g: InstrV| !(g.result_id matches Some(id) && dead.contains_key(id)),
        ),
        ..m
    }
}

/// Whether the key `k` is in the map.
fn has_key(m: &FxHashMap<u32, u32>, k: u32) -> (r: bool)
    ensures
        r == word_map(*m).contains_key(k),
{
    word_map_get(m, k).is_some()
}

/// Removes from the map the keys that the operands refer to.
fn drop_operand_refs(m: &mut FxHashMap<u32, u32>, ops: &Vec<Operand>)
    ensures
        word_map(*final(m)) == word_map(*old(m)).remove_keys(operand_refs(operands_view(ops@))),
{
    let ghost s = operands_view(ops@);
    let ghost m0 = word_map(*m);
    let mut j: usize = 0;
    while j < ops.len()
        invariant
            j <= ops@.len(),
            s == operands_view(ops@),
            word_map(*m) == m0.remove_keys(operand_refs(s.take(j as int))),
        decreases ops@.len() - j,
    {
        let ghost before = word_map(*m);
        if let Some(w) = ops[j].id_ref_any() {
            word_map_remove(m, w);
        }
        proof {
            assert(s.take(j + 1)[j as int] == ops@[j as int]@);
            assert forall|w: u32| #[trigger] operand_refs(s.take(j + 1)).contains(w) == (operand_refs(s.take(j as int)).contains(w) || s[j as int].id_ref_any() == Some(w)) by {
                if operand_refs(s.take(j + 1)).contains(w) {
                    let k = choose|k: int| 0 <= k < s.take(j + 1).len() && (#[trigger] s.take(j + 1)[k]).id_ref_any() == Some(w);
                    if k < j {
                        assert(s.take(j as int)[k] == s.take(j + 1)[k]);
                    }
                }
                if operand_refs(s.take(j as int)).contains(w) {
                    let k = choose|k: int| 0 <= k < s.take(j as int).len() && (#[trigger] s.take(j as int)[k]).id_ref_any() == Some(w);
                    assert(s.take(j + 1)[k] == s.take(j as int)[k]);
                }
                if s[j as int].id_ref_any() == Some(w) {
                    assert(s.take(j + 1)[j as int] == s[j as int]);
                }
            }
            assert(word_map(*m) =~= m0.remove_keys(operand_refs(s.take(j + 1))));
        }
        j = j + 1;
    }
    assert(s.take(j as int) =~= s);
}

/// Removes from the map the keys that the instructions refer to.
fn drop_instr_refs(m: &mut FxHashMap<u32, u32>, v: &Vec<Instruction>)
    ensures
        word_map(*final(m)) == word_map(*old(m)).remove_keys(instr_refs(instrs_view(v@))),
{
    let ghost s = instrs_view(v@);
    let ghost m0 = word_map(*m);
    let mut i: usize = 0;
    assert(s.take(0) =~= Seq::<InstrV>::empty());
    assert(word_map(*m) =~= m0.remove_keys(Set::empty()));
    while i < v.len()
        invariant
            i <= v@.len(),
            s == instrs_view(v@),
            word_map(*m) == m0.remove_keys(instr_refs(s.take(i as int))),
        decreases v@.len() - i,
    {
        drop_operand_refs(m, &v[i].operands);
        proof {
            assert(s.take(i + 1).drop_last() =~= s.take(i as int));
            assert(s.take(i + 1).last() == v@[i as int]@);
            assert(word_map(*m) =~= m0.remove_keys(instr_refs(s.take(i + 1))));
        }
        i = i + 1;
    }
    assert(s.take(i as int) =~= s);
}

/// Removes from the map the keys that the instructions of the blocks refer to.
fn drop_block_refs(m: &mut FxHashMap<u32, u32>, v: &Vec<Block>)
    ensures
        word_map(*final(m)) == word_map(*old(m)).remove_keys(block_refs(blocks_view(v@))),
{
    let ghost s = blocks_view(v@);
    let ghost m0 = word_map(*m);
    let mut i: usize = 0;
    assert(s.take(0) =~= Seq::<BlockV>::empty());
    assert(word_map(*m) =~= m0.remove_keys(Set::empty()));
    while i < v.len()
        invariant
            i <= v@.len(),
            s == blocks_view(v@),
            word_map(*m) == m0.remove_keys(block_refs(s.take(i as int))),
        decreases v@.len() - i,
    {
        drop_instr_refs(m, &v[i].instructions);
        proof {
            assert(s.take(i + 1).drop_last() =~= s.take(i as int));
            assert(s.take(i + 1).last() == v@[i as int]@);
            assert(word_map(*m) =~= m0.remove_keys(block_refs(s.take(i + 1))));
        }
        i = i + 1;
    }
    assert(s.take(i as int) =~= s);
}

/// Removes from the map the keys that the parameters and instructions of the functions
/// refer to.
fn drop_function_refs(m: &mut FxHashMap<u32, u32>, v: &Vec<Function>)
    ensures
        word_map(*final(m)) == word_map(*old(m)).remove_keys(function_refs(functions_view(v@))),
{
    let ghost s = functions_view(v@);
    let ghost m0 = word_map(*m);
    let mut i: usize = 0;
    assert(s.take(0) =~= Seq::<FunctionV>::empty());
    assert(word_map(*m) =~= m0.remove_keys(Set::empty()));
    while i < v.len()
        invariant
            i <= v@.len(),
            s == functions_view(v@),
            word_map(*m) == m0.remove_keys(function_refs(s.take(i as int))),
        decreases v@.len() - i,
    {
        drop_instr_refs(m, &v[i].parameters);
        drop_block_refs(m, &v[i].blocks);
        proof {
            assert(s.take(i + 1).drop_last() =~= s.take(i as int));
            assert(s.take(i + 1).last() == v@[i as int]@);
            assert(word_map(*m) =~= m0.remove_keys(function_refs(s.take(i + 1))));
        }
        i = i + 1;
    }
    assert(s.take(i as int) =~= s);
}

/// Whether some operand of `a` refers to a key of the map.
fn mentions(a: &Instruction, m: &FxHashMap<u32, u32>) -> (r: bool)
    ensures
        r == mentions_key(a@, word_map(*m)),
{
    let mut j: usize = 0;
    while j < a.operands.len()
        invariant
            j <= a.operands@.len(),
            forall|k: int| 0 <= k < j ==> !refers_to_key(#[trigger] a@.operands[k], word_map(*m)),
        decreases a.operands@.len() - j,
    {
        assert(a@.operands[j as int] == a.operands@[j as int]@);
        if let Some(w) = a.operands[j].id_ref_any() {
            if has_key(m, w) {
                return true;
            }
        }
        j = j + 1;
    }
    false
}

/// Keeps the instructions that refer to no key of the map.
fn retain_unmentioned(v: &mut Vec<Instruction>, m: &FxHashMap<u32, u32>)
    ensures
        instrs_view(final(v)@) == instrs_view(old(v)@).filter(|a: InstrV| !mentions_key(a, word_map(*m))),
{
    let ghost s = instrs_view(v@);
    let ghost d = word_map(*m);
    let mut source: Vec<Instruction> = Vec::new();
    std::mem::swap(&mut source, v);
    let mut i: usize = 0;
    while i < source.len()
        invariant
            i <= source@.len(),
            s == instrs_view(source@),
            d == word_map(*m),
            instrs_view(v@) == s.take(i as int).filter(|a: InstrV| !mentions_key(a, d)),
        decreases source@.len() - i,
    {
        proof {
            reveal(Seq::filter);
            assert(s.take(i + 1).drop_last() =~= s.take(i as int));
            assert(s.take(i + 1).last() == source@[i as int]@);
        }
        let a = &source[i];
        if !mentions(a, m) {
            let ghost pre = instrs_view(v@);
            v.push(a.duplicate());
            assert(instrs_view(v@) =~= pre.push(a@));
        }
        i = i + 1;
    }
    assert(s.take(i as int) =~= s);
}

/// Keeps the globals whose result is no key of the map.
fn retain_unlisted(v: &mut Vec<Instruction>, m: &FxHashMap<u32, u32>)
    ensures
        instrs_view(final(v)@) == instrs_view(old(v)@).filter(
            |g: InstrV| !(g.result_id matches Some(id) && word_map(*m).contains_key(id)),
        ),
{
    let ghost s = instrs_view(v@);
    let ghost d = word_map(*m);
    let mut source: Vec<Instruction> = Vec::new();
    std::mem::swap(&mut source, v);
    let mut i: usize = 0;
    while i < source.len()
        invariant
            i <= source@.len(),
            s == instrs_view(source@),
            d == word_map(*m),
            instrs_view(v@) == s.take(i as int).filter(
                |g: InstrV| !(g.result_id matches Some(id) && d.contains_key(id)),
            ),
        decreases source@.len() - i,
    {
        proof {
            reveal(Seq::filter);
            assert(s.take(i + 1).drop_last() =~= s.take(i as int));
            assert(s.take(i + 1).last() == source@[i as int]@);
        }
        let a = &source[i];
        let listed = match a.result_id {
            Some(id) => has_key(m, id),
            None => false,
        };
        if !listed {
            let ghost pre = instrs_view(v@);
            v.push(a.duplicate());
            assert(instrs_view(v@) =~= pre.push(a@));
        }
        i = i + 1;
    }
    assert(s.take(i as int) =~= s);
}

/// The operands that refer to no key of the map.
fn unlisted_operands(ops: &Vec<Operand>, m: &FxHashMap<u32, u32>) -> (r: Vec<Operand>)
    ensures
        operands_view(r@) == operands_view(ops@).filter(|o: OperandV| !refers_to_key(o, word_map(*m))),
{
    let ghost s = operands_view(ops@);
    let ghost d = word_map(*m);
    let mut r: Vec<Operand> = Vec::new();
    let mut i: usize = 0;
    while i < ops.len()
        invariant
            i <= ops@.len(),
            s == operands_view(ops@),
            d == word_map(*m),
            operands_view(r@) == s.take(i as int).filter(|o: OperandV| !refers_to_key(o, d)),
        decreases ops@.len() - i,
    {
        proof {
            reveal(Seq::filter);
            assert(s.take(i + 1).drop_last() =~= s.take(i as int));
            assert(s.take(i + 1).last() == ops@[i as int]@);
        }
        let o = &ops[i];
        let listed = match o.id_ref_any() {
            Some(w) => has_key(m, w),
            None => false,
        };
        if !listed {
            let ghost pre = operands_view(r@);
            r.push(o.duplicate());
            assert(operands_view(r@) =~= pre.push(o@));
        }
        i = i + 1;
    }
    assert(s.take(i as int) =~= s);
    r
}

/// Drops from each entry point the operands that refer to a key of the map.
fn trim_entry_points(v: &mut Vec<Instruction>, m: &FxHashMap<u32, u32>)
    ensures
        instrs_view(final(v)@) == instrs_view(old(v)@).map_values(|e: InstrV| InstrV {
            operands: e.operands.filter(|o: OperandV| !refers_to_key(o, word_map(*m))),
            ..e
        }),
{
    let ghost s = instrs_view(v@);
    let ghost d = word_map(*m);
    let mut source: Vec<Instruction> = Vec::new();
    std::mem::swap(&mut source, v);
    let mut i: usize = 0;
    while i < source.len()
        invariant
            i <= source@.len(),
            s == instrs_view(source@),
            d == word_map(*m),
            instrs_view(v@) == s.take(i as int).map_values(|e: InstrV| InstrV {
                operands: e.operands.filter(|o: OperandV| !refers_to_key(o, d)),
                ..e
            }),
        decreases source@.len() - i,
    {
        let e = &source[i];
        let ops = unlisted_operands(&e.operands, m);
        let ghost pre = instrs_view(v@);
        let ghost vv = v@;
        let inst = Instruction::new(e.opcode, e.result_type, e.result_id, ops);
        v.push(inst);
        proof {
            assert(v@ == vv.push(inst));
            assert(pre.len() == i);
            assert(s[i as int] == e@);
            let t = s.take(i + 1).map_values(|e: InstrV| InstrV {
                operands: e.operands.filter(|o: OperandV| !refers_to_key(o, d)),
                ..e
            });
            assert forall|k: int| 0 <= k < i + 1 implies #[trigger] instrs_view(v@)[k] == t[k] by {
                if k < i {
                    assert(v@[k] == vv[k]);
                    assert(instrs_view(v@)[k] == pre[k]);
                    assert(s.take(i as int)[k] == s.take(i + 1)[k]);
                } else {
                    assert(v@[k] == inst);
                    assert(instrs_view(v@)[k] == inst@);
                }
            }
            assert(instrs_view(v@) =~= s.take(i + 1).map_values(|e: InstrV| InstrV {
                operands: e.operands.filter(|o: OperandV| !refers_to_key(o, d)),
                ..e
            }));
        }
        i = i + 1;
    }
    assert(s.take(i as int) =~= s);
}

impl LinkInputs {
    /// Collects the fragment inputs with a location and the vertex outputs with a
    /// location; with `keep_if_bound`, an input at the location of an output is bound to
    /// it and kept: it leaves the inputs to remove.
    pub fn new(vert: Builder, frag: Builder, keep_if_bound: bool) -> (r: Self)
        requires
            variables_have_class(frag.module@.types_global_values),
            variables_have_class(vert.module@.types_global_values),
        ensures
            r.frag_builder == frag,
            r.vert_builder == vert,
            word_map(r.inputs_to_remove) == vertex_outputs(
                vert.module@,
                vert.module@.types_global_values,
                fragment_inputs(frag.module@, frag.module@.types_global_values),
                keep_if_bound,
            ).1,
            sorted_entries(r.outputs@, vertex_outputs(
                vert.module@,
                vert.module@.types_global_values,
                fragment_inputs(frag.module@, frag.module@.types_global_values),
                keep_if_bound,
            ).0),
    {
        let ghost fm = frag.module@;
        let ghost vm = vert.module@;
        let mut inputs = new_word_map();
        let fg = &frag.module.types_global_values;
        let mut i: usize = 0;
        while i < fg.len()
            invariant
                i <= fg@.len(),
                fm == frag.module@,
                instrs_view(fg@) == fm.types_global_values,
                variables_have_class(fm.types_global_values),
                word_map(inputs) == fragment_inputs(fm, fm.types_global_values.take(i as int)),
            decreases fg@.len() - i,
        {
            proof {
                assert(fm.types_global_values.take(i + 1).drop_last() =~= fm.types_global_values.take(i as int));
                assert(fm.types_global_values.take(i + 1).last() == fg@[i as int]@);
                assert(fm.types_global_values[i as int] == fg@[i as int]@);
            }
            let g = &fg[i];
            if interface_var(g, STORAGE_CLASS_INPUT) {
                if let Some(id) = g.result_id {
                    if let Some(loc) = find_location(&frag.module.annotations, id) {
                        word_map_insert(&mut inputs, id, loc);
                    }
                }
            }
            i = i + 1;
        }
        assert(fm.types_global_values.take(i as int) =~= fm.types_global_values);
        let ghost inputs0 = word_map(inputs);
        let mut outputs = new_word_map();
        let vg = &vert.module.types_global_values;
        let mut i: usize = 0;
        assert(vm.types_global_values.take(0) =~= Seq::<InstrV>::empty());
        while i < vg.len()
            invariant
                i <= vg@.len(),
                vm == vert.module@,
                instrs_view(vg@) == vm.types_global_values,
                variables_have_class(vm.types_global_values),
                (word_map(outputs), word_map(inputs)) == vertex_outputs(vm, vm.types_global_values.take(i as int), inputs0, keep_if_bound),
            decreases vg@.len() - i,
        {
            proof {
                assert(vm.types_global_values.take(i + 1).drop_last() =~= vm.types_global_values.take(i as int));
                assert(vm.types_global_values.take(i + 1).last() == vg@[i as int]@);
                assert(vm.types_global_values[i as int] == vg@[i as int]@);
            }
            let g = &vg[i];
            if interface_var(g, STORAGE_CLASS_OUTPUT) {
                if let Some(id) = g.result_id {
                    if let Some(loc) = find_location(&vert.module.annotations, id) {
                        word_map_insert(&mut outputs, loc, id);
                        if keep_if_bound {
                            drop_bound_inputs(&mut inputs, loc);
                        }
                    }
                }
            }
            i = i + 1;
        }
        assert(vm.types_global_values.take(i as int) =~= vm.types_global_values);
        let outputs = sorted_word_entries(&outputs);
        LinkInputs { frag_builder: frag, vert_builder: vert, outputs, inputs_to_remove: inputs }
    }
}

/// Once trimmed, the fragment module keeps no global, decoration, name or entry point
/// operand of a dead input, and its functions are as they were, none referring to an
/// input that stays dead.
pub proof fn law_trim_removes_dead_inputs(m: ModuleV, inputs: Map<u32, u32>)
    ensures
        ({
            let dead = inputs.remove_keys(function_refs(m.functions));
            let t = trimmed(m, dead);
            &&& forall|i: int| 0 <= i < t.types_global_values.len()
                ==> !((#[trigger] t.types_global_values[i]).result_id matches Some(id) && dead.contains_key(id))
            &&& forall|i: int| 0 <= i < t.annotations.len() ==> !mentions_key(#[trigger] t.annotations[i], dead)
            &&& forall|i: int| 0 <= i < t.debug_names.len() ==> !mentions_key(#[trigger] t.debug_names[i], dead)
            &&& forall|e: int, j: int| 0 <= e < t.entry_points.len() && 0 <= j < t.entry_points[e].operands.len()
                ==> !refers_to_key(#[trigger] t.entry_points[e].operands[j], dead)
            &&& forall|w: u32| #[trigger] dead.contains_key(w) ==> !function_refs(m.functions).contains(w)
            &&& t.functions == m.functions
        }),
{
    broadcast use vstd::seq_lib::group_filter_ensures;
    let dead = inputs.remove_keys(function_refs(m.functions));
    let t = trimmed(m, dead);
    assert forall|e: int, j: int| 0 <= e < t.entry_points.len() && 0 <= j < t.entry_points[e].operands.len()
        implies !refers_to_key(#[trigger] t.entry_points[e].operands[j], dead) by {
        let ops = m.entry_points[e].operands;
        assert(t.entry_points[e].operands == ops.filter(|o: OperandV| !refers_to_key(o, dead)));
    }
}

/// Whether the sequence is in increasing order, repeats allowed.
pub open spec fn ascending(s: Seq<u32>) -> bool {
    forall|i: int, j: int| 0 <= i < j < s.len() ==> s[i] <= s[j]
}

/// Whether `e` lists the entries of `m`, each once.
pub open spec fn lists_entries(e: Seq<(u32, u32)>, m: Map<u32, u32>) -> bool {
    &&& forall|j: int| 0 <= j < e.len() ==> m.contains_key(#[trigger] e[j].0) && m[e[j].0] == e[j].1
    &&& forall|k: u32| #[trigger] m.contains_key(k) ==> exists|j: int| 0 <= j < e.len() && e[j].0 == k
    &&& forall|j1: int, j2: int| 0 <= j1 < j2 < e.len() ==> e[j1].0 != e[j2].0
}

/// Whether `dead` holds the values of `m`, each as often as it occurs, in increasing order.
pub open spec fn is_dead_order(dead: Seq<u32>, m: Map<u32, u32>) -> bool {
    &&& ascending(dead)
    &&& exists|e: Seq<(u32, u32)>| #[trigger] lists_entries(e, m)
        && dead.to_multiset() == e.map_values(|p: (u32, u32)| p.1).to_multiset()
}

/// Numbers the outputs in order from `alloc`, skipping those whose location is below the
/// next number or dead; gives the renumbering and the next number.
pub open spec fn live_remap(outs: Seq<(u32, u32)>, dead: Seq<u32>, alloc: int, remap: Map<u32, u32>) -> (Map<u32, u32>, int)
    decreases outs.len(),
{
    if outs.len() == 0 {
        (remap, alloc)
    } else {
        let b = outs[0].0;
        if b < alloc || dead.contains(b) {
            live_remap(outs.drop_first(), dead, alloc, remap)
        } else {
            live_remap(outs.drop_first(), dead, alloc + 1, remap.insert(b, alloc as u32))
        }
    }
}

/// Numbers the dead locations in order from `alloc`, a later repeat replacing an earlier.
pub open spec fn dead_remap(dead: Seq<u32>, alloc: int, remap: Map<u32, u32>) -> (Map<u32, u32>, int)
    decreases dead.len(),
{
    if dead.len() == 0 {
        (remap, alloc)
    } else {
        dead_remap(dead.drop_first(), alloc + 1, remap.insert(dead[0], alloc as u32))
    }
}

/// The renumbering of locations, and the number after the last one given: from the
/// lowest dead location, the live outputs in order, then the dead locations.
pub open spec fn remapping(outs: Seq<(u32, u32)>, dead: Seq<u32>) -> (Map<u32, u32>, int) {
    let live = live_remap(outs, dead, dead[0] as int, Map::empty());
    dead_remap(dead, live.1, live.0)
}

/// Numbering never goes down.
pub proof fn lemma_live_remap_grows(outs: Seq<(u32, u32)>, dead: Seq<u32>, alloc: int, remap: Map<u32, u32>)
    ensures
        live_remap(outs, dead, alloc, remap).1 >= alloc,
    decreases outs.len(),
{
    if outs.len() > 0 {
        let b = outs[0].0;
        if b < alloc || dead.contains(b) {
            lemma_live_remap_grows(outs.drop_first(), dead, alloc, remap);
        } else {
            lemma_live_remap_grows(outs.drop_first(), dead, alloc + 1, remap.insert(b, alloc as u32));
        }
    }
}

/// Each dead location takes one number.
pub proof fn lemma_dead_remap_count(dead: Seq<u32>, alloc: int, remap: Map<u32, u32>)
    ensures
        dead_remap(dead, alloc, remap).1 == alloc + dead.len(),
    decreases dead.len(),
{
    if dead.len() > 0 {
        lemma_dead_remap_count(dead.drop_first(), alloc + 1, remap.insert(dead[0], alloc as u32));
    }
}

/// Whether the outputs are listed by strictly increasing location.
pub open spec fn by_location(outs: Seq<(u32, u32)>) -> bool {
    forall|j1: int, j2: int| 0 <= j1 < j2 < outs.len() ==> outs[j1].0 < outs[j2].0
}

/// Numbering the live outputs: the numbers already given stay, the new ones are between
/// `alloc` and the next number, no dead location is numbered, and the outputs are
/// numbered in their order.
proof fn lemma_live_remap(outs: Seq<(u32, u32)>, dead: Seq<u32>, alloc: int, remap: Map<u32, u32>)
    requires
        by_location(outs),
        0 <= alloc,
        live_remap(outs, dead, alloc, remap).1 <= u32::MAX,
        forall|k: u32| #[trigger] remap.contains_key(k) ==> remap[k] < alloc && !dead.contains(k),
        forall|j: int| 0 <= j < outs.len() ==> !remap.contains_key(#[trigger] outs[j].0),
    ensures
        ({
            let (r, a2) = live_remap(outs, dead, alloc, remap);
            &&& alloc <= a2
            &&& forall|k: u32| #[trigger] r.contains_key(k) ==> r[k] < a2 && !dead.contains(k)
            &&& forall|k: u32| #[trigger] remap.contains_key(k) ==> r.contains_key(k) && r[k] == remap[k]
            &&& forall|k: u32| #[trigger] r.contains_key(k) && !remap.contains_key(k) ==> alloc <= r[k]
                && exists|j: int| 0 <= j < outs.len() && outs[j].0 == k
            &&& forall|j1: int, j2: int| 0 <= j1 < j2 < outs.len() && r.contains_key(#[trigger] outs[j1].0)
                && r.contains_key(#[trigger] outs[j2].0) ==> r[outs[j1].0] < r[outs[j2].0]
        }),
    decreases outs.len(),
{
    if outs.len() > 0 {
        let b = outs[0].0;
        let rest = outs.drop_first();
        assert forall|j1: int, j2: int| 0 <= j1 < j2 < rest.len() implies rest[j1].0 < rest[j2].0 by {
            assert(rest[j1] == outs[j1 + 1] && rest[j2] == outs[j2 + 1]);
        }
        if b < alloc || dead.contains(b) {
            assert forall|j: int| 0 <= j < rest.len() implies !remap.contains_key(#[trigger] rest[j].0) by {
                assert(rest[j] == outs[j + 1]);
            }
            lemma_live_remap(rest, dead, alloc, remap);
            let (r, a2) = live_remap(rest, dead, alloc, remap);
            assert forall|k: u32| #[trigger] r.contains_key(k) && !remap.contains_key(k) implies alloc <= r[k]
                && exists|j: int| 0 <= j < outs.len() && outs[j].0 == k by {
                let j = choose|j: int| 0 <= j < rest.len() && rest[j].0 == k;
                assert(outs[j + 1] == rest[j]);
            }
            assert forall|j1: int, j2: int| 0 <= j1 < j2 < outs.len() && r.contains_key(#[trigger] outs[j1].0)
                && r.contains_key(#[trigger] outs[j2].0) implies r[outs[j1].0] < r[outs[j2].0] by {
                if j1 == 0 {
                    let j = choose|j: int| 0 <= j < rest.len() && rest[j].0 == b;
                    assert(rest[j] == outs[j + 1]);
                } else {
                    assert(rest[j1 - 1] == outs[j1] && rest[j2 - 1] == outs[j2]);
                }
            }
        } else {
            let remap2 = remap.insert(b, alloc as u32);
            lemma_live_remap_grows(rest, dead, alloc + 1, remap2);
            assert forall|j: int| 0 <= j < rest.len() implies !remap2.contains_key(#[trigger] rest[j].0) by {
                assert(rest[j] == outs[j + 1]);
            }
            lemma_live_remap(rest, dead, alloc + 1, remap2);
            let (r, a2) = live_remap(rest, dead, alloc + 1, remap2);
            assert(live_remap(outs, dead, alloc, remap) == live_remap(rest, dead, alloc + 1, remap2));
            assert(alloc < u32::MAX);
            assert((alloc as u32) as int == alloc);
            assert(remap2.contains_key(b) && remap2[b] == alloc as u32);
            assert(r.contains_key(b) && r[b] == alloc);
            assert forall|k: u32| #[trigger] remap.contains_key(k) implies r.contains_key(k) && r[k] == remap[k] by {
                assert(remap2.contains_key(k));
                assert(outs[0].0 == b);
            }
            assert forall|k: u32| #[trigger] r.contains_key(k) && !remap.contains_key(k) implies alloc <= r[k]
                && exists|j: int| 0 <= j < outs.len() && outs[j].0 == k by {
                if k != b {
                    let j = choose|j: int| 0 <= j < rest.len() && rest[j].0 == k;
                    assert(outs[j + 1] == rest[j]);
                } else {
                    assert(outs[0].0 == k);
                }
            }
            assert forall|j1: int, j2: int| 0 <= j1 < j2 < outs.len() && r.contains_key(#[trigger] outs[j1].0)
                && r.contains_key(#[trigger] outs[j2].0) implies r[outs[j1].0] < r[outs[j2].0] by {
                assert(rest[j2 - 1] == outs[j2]);
                if j1 == 0 {
                    assert(!remap2.contains_key(outs[j2].0));
                } else {
                    assert(rest[j1 - 1] == outs[j1]);
                }
            }
        }
    }
}

/// Numbering the dead locations: every one gets a number from `alloc` on, and every
/// other entry stays as it was.
proof fn lemma_dead_remap(dead: Seq<u32>, alloc: int, remap: Map<u32, u32>)
    requires
        0 <= alloc,
        alloc + dead.len() <= u32::MAX,
    ensures
        ({
            let r = dead_remap(dead, alloc, remap).0;
            &&& forall|k: u32| !dead.contains(k) ==> (#[trigger] r.contains_key(k) == remap.contains_key(k))
                && (remap.contains_key(k) ==> r[k] == remap[k])
            &&& forall|d: u32| #[trigger] dead.contains(d) ==> r.contains_key(d) && alloc <= r[d]
        }),
    decreases dead.len(),
{
    if dead.len() > 0 {
        let rest = dead.drop_first();
        let remap2 = remap.insert(dead[0], alloc as u32);
        lemma_dead_remap(rest, alloc + 1, remap2);
        let r = dead_remap(rest, alloc + 1, remap2).0;
        assert((alloc as u32) as int == alloc);
        assert forall|k: u32| !dead.contains(k) implies (#[trigger] r.contains_key(k) == remap.contains_key(k))
            && (remap.contains_key(k) ==> r[k] == remap[k]) by {
            assert(k != dead[0]);
            if rest.contains(k) {
                let j = choose|j: int| 0 <= j < rest.len() && rest[j] == k;
                assert(dead[j + 1] == k);
            }
        }
        assert forall|d: u32| #[trigger] dead.contains(d) implies r.contains_key(d) && alloc <= r[d] by {
            let j = choose|j: int| 0 <= j < dead.len() && dead[j] == d;
            if j > 0 {
                assert(rest[j - 1] == d);
                assert(rest.contains(d));
            } else if rest.contains(d) {
                assert(r.contains_key(d) && alloc + 1 <= r[d]);
            } else {
                assert(remap2.contains_key(d));
                assert(r.contains_key(d) == remap2.contains_key(d));
                assert(r[d] == remap2[d]);
            }
        }
    }
}

/// Renumbering puts every dead location after every live output and keeps the live
/// outputs in the order of their locations; every dead location gets a number.
pub proof fn law_dead_locations_last(outs: Seq<(u32, u32)>, dead: Seq<u32>)
    requires
        dead.len() > 0,
        by_location(outs),
        remapping(outs, dead).1 <= u32::MAX,
    ensures
        forall|d: u32| #[trigger] dead.contains(d) ==> remapping(outs, dead).0.contains_key(d),
        forall|k: u32, d: u32| #[trigger] remapping(outs, dead).0.contains_key(k) && !dead.contains(k)
            && #[trigger] dead.contains(d) ==> remapping(outs, dead).0[k] < remapping(outs, dead).0[d],
        forall|j1: int, j2: int| 0 <= j1 < j2 < outs.len() && remapping(outs, dead).0.contains_key(#[trigger] outs[j1].0)
            && remapping(outs, dead).0.contains_key(#[trigger] outs[j2].0) && !dead.contains(outs[j1].0) && !dead.contains(outs[j2].0)
            ==> remapping(outs, dead).0[outs[j1].0] < remapping(outs, dead).0[outs[j2].0],
{
    let start = dead[0] as int;
    let (live, a) = live_remap(outs, dead, start, Map::empty());
    lemma_dead_remap_count(dead, a, live);
    lemma_live_remap_grows(outs, dead, start, Map::empty());
    lemma_live_remap(outs, dead, start, Map::empty());
    lemma_dead_remap(dead, a, live);
}

/// The annotations once the first location annotation of `g`, if `g` is a variable of the
/// class `class`, is renumbered by `remap`, where `remap` has its location.
pub open spec fn relabel_one(anns: Seq<InstrV>, g: InstrV, class: u32, remap: Map<u32, u32>) -> Seq<InstrV> {
    if is_interface_var(g, class) && g.result_id is Some {
        match location_index(anns, g.result_id->Some_0, 0) {
            Some(k) => {
                let loc = anns[k].operands[2]->LiteralBit32_0;
                if remap.contains_key(loc) {
                    anns.update(k, InstrV { operands: anns[k].operands.update(2, OperandV::LiteralBit32(remap[loc])), ..anns[k] })
                } else {
                    anns
                }
            },
            None => anns,
        }
    } else {
        anns
    }
}

/// The annotations once the variables of the class `class` among the globals are
/// renumbered, one after the other.
pub open spec fn relabel(anns: Seq<InstrV>, globals: Seq<InstrV>, class: u32, remap: Map<u32, u32>) -> Seq<InstrV>
    decreases globals.len(),
{
    if globals.len() == 0 {
        anns
    } else {
        relabel(relabel_one(anns, globals[0], class, remap), globals.drop_first(), class, remap)
    }
}

/// The values sorted in increasing order.
fn sort_locations(v: Vec<u32>) -> (r: Vec<u32>)
    ensures
        r@.to_multiset() == v@.to_multiset(),
        ascending(r@),
{
    let mut r: Vec<u32> = Vec::new();
    let mut i: usize = 0;
    proof {
        broadcast use vstd::multiset::group_multiset_axioms;
        assert(v@.take(0) =~= Seq::<u32>::empty());
        assert(r@ =~= Seq::<u32>::empty());
    }
    while i < v.len()
        invariant
            i <= v@.len(),
            r@.to_multiset() == v@.take(i as int).to_multiset(),
            ascending(r@),
        decreases v@.len() - i,
    {
        let e = v[i];
        let mut p: usize = 0;
        while p < r.len() && r[p] <= e
            invariant
                p <= r@.len(),
                forall|j: int| 0 <= j < p ==> r@[j] <= e,
            decreases r@.len() - p,
        {
            p = p + 1;
        }
        let ghost old_r = r@;
        r.insert(p, e);
        proof {
            broadcast use vstd::seq_lib::group_seq_properties;
            broadcast use vstd::multiset::group_multiset_axioms;
            assert(v@.take(i + 1) =~= v@.take(i as int).push(e));
            assert(r@ =~= old_r.take(p as int).push(e) + old_r.skip(p as int));
            vstd::seq_lib::lemma_multiset_commutative(old_r.take(p as int).push(e), old_r.skip(p as int));
            vstd::seq_lib::lemma_multiset_commutative(old_r.take(p as int), old_r.skip(p as int));
            assert(old_r =~= old_r.take(p as int) + old_r.skip(p as int));
            assert forall|j1: int, j2: int| 0 <= j1 < j2 < r@.len() implies r@[j1] <= r@[j2] by {
                if p < old_r.len() {
                    assert(old_r[p as int] > e);
                }
                if j2 < p {
                    assert(r@[j1] == old_r[j1] && r@[j2] == old_r[j2]);
                } else if j2 == p {
                    assert(r@[j1] == old_r[j1]);
                } else if j1 < p {
                    assert(r@[j1] == old_r[j1] && r@[j2] == old_r[j2 - 1]);
                } else if j1 == p {
                    assert(r@[j2] == old_r[j2 - 1]);
                    assert(old_r[p as int] <= old_r[j2 - 1]);
                } else {
                    assert(r@[j1] == old_r[j1 - 1] && r@[j2] == old_r[j2 - 1]);
                }
            }
        }
        i = i + 1;
    }
    assert(v@.take(i as int) =~= v@);
    r
}

/// The locations of the inputs to remove, in increasing order.
fn dead_locations(m: &FxHashMap<u32, u32>) -> (r: Vec<u32>)
    ensures
        is_dead_order(r@, word_map(*m)),
{
    let entries = word_map_entries(m);
    let mut vals: Vec<u32> = Vec::new();
    let mut i: usize = 0;
    while i < entries.len()
        invariant
            i <= entries@.len(),
            vals@ == entries@.take(i as int).map_values(|p: (u32, u32)| p.1),
        decreases entries@.len() - i,
    {
        vals.push(entries[i].1);
        assert(vals@ =~= entries@.take(i + 1).map_values(|p: (u32, u32)| p.1));
        i = i + 1;
    }
    assert(entries@.take(i as int) =~= entries@);
    let r = sort_locations(vals);
    assert(lists_entries(entries@, word_map(*m)));
    r
}

/// Whether the value is in the list.
fn list_contains(v: &Vec<u32>, x: u32) -> (r: bool)
    ensures
        r == v@.contains(x),
{
    let mut i: usize = 0;
    while i < v.len()
        invariant
            i <= v@.len(),
            forall|j: int| 0 <= j < i ==> v@[j] != x,
        decreases v@.len() - i,
    {
        if v[i] == x {
            return true;
        }
        i = i + 1;
    }
    false
}

/// The renumbering of locations: from the lowest dead location, the live outputs in
/// order, then the dead locations.
fn compute_remapping(outputs: &Vec<(u32, u32)>, dead: &Vec<u32>) -> (r: FxHashMap<u32, u32>)
    requires
        dead@.len() > 0,
        remapping(outputs@, dead@).1 <= u32::MAX,
    ensures
        word_map(r) == remapping(outputs@, dead@).0,
{
    let ghost outs = outputs@;
    let ghost d = dead@;
    let ghost live = live_remap(outs, d, d[0] as int, Map::empty());
    let mut remap = new_word_map();
    let mut alloc: u32 = dead[0];
    let mut i: usize = 0;
    assert(outs.skip(0) =~= outs);
    assert(word_map(remap) =~= Map::<u32, u32>::empty());
    proof {
        lemma_dead_remap_count(d, live.1, live.0);
    }
    while i < outputs.len()
        invariant
            i <= outs.len(),
            outs == outputs@,
            d == dead@,
            live == live_remap(outs, d, d[0] as int, Map::empty()),
            live_remap(outs.skip(i as int), d, alloc as int, word_map(remap)) == live,
            live.1 + d.len() <= u32::MAX,
        decreases outs.len() - i,
    {
        let binding = outputs[i].0;
        let ghost rest = outs.skip(i as int);
        assert(rest[0] == outputs@[i as int]);
        assert(rest.drop_first() =~= outs.skip(i + 1));
        if binding < alloc {
        } else if !list_contains(dead, binding) {
            proof {
                lemma_live_remap_grows(outs.skip(i + 1), d, alloc + 1, word_map(remap).insert(binding, alloc));
            }
            word_map_insert(&mut remap, binding, alloc);
            alloc = alloc + 1;
        }
        i = i + 1;
    }
    assert(outs.skip(i as int) =~= Seq::<(u32, u32)>::empty());
    let mut j: usize = 0;
    assert(d.skip(0) =~= d);
    while j < dead.len()
        invariant
            j <= d.len(),
            d == dead@,
            dead_remap(d.skip(j as int), alloc as int, word_map(remap)) == remapping(outs, d),
            alloc + (d.len() - j) <= u32::MAX,
            outs == outputs@,
            live == live_remap(outs, d, d[0] as int, Map::empty()),
        decreases d.len() - j,
    {
        let b = dead[j];
        let ghost rest = d.skip(j as int);
        assert(rest[0] == d[j as int]);
        assert(rest.drop_first() =~= d.skip(j + 1));
        word_map_insert(&mut remap, b, alloc);
        alloc = alloc + 1;
        j = j + 1;
    }
    assert(d.skip(j as int) =~= Seq::<u32>::empty());
    remap
}

/// Renumbers the first location annotation of `g`, as `relabel_one` says.
fn relabel_var(anns: &mut Vec<Instruction>, g: &Instruction, class: u32, remap: &FxHashMap<u32, u32>)
    requires
        g@.opcode == OP_VARIABLE ==> g@.operands.len() > 0,
    ensures
        instrs_view(final(anns)@) == relabel_one(instrs_view(old(anns)@), g@, class, word_map(*remap)),
{
    if !interface_var(g, class) {
        return;
    }
    let id = match g.result_id {
        Some(id) => id,
        None => {
            return;
        },
    };
    match find_location_operand(anns, id) {
        Some(k) => {
            proof {
                lemma_location_index(instrs_view(anns@), id, 0);
            }
            let ghost s = instrs_view(anns@);
            assert(s[k as int] == anns@[k as int]@);
            assert(s[k as int].operands[2] == anns@[k as int].operands@[2]@);
            let loc = match &anns[k].operands[2] {
                Operand::LiteralBit32(v) => *v,
                _ => {
                    return;
                },
            };
            if let Some(n) = word_map_get(remap, loc) {
                let a = &anns[k];
                let mut ops = duplicate_operands(&a.operands);
                ops.set(2, Operand::LiteralBit32(n));
                let inst = Instruction::new(a.opcode, a.result_type, a.result_id, ops);
                anns.set(k, inst);
                proof {
                    assert(inst@.operands =~= s[k as int].operands.update(2, OperandV::LiteralBit32(n)));
                    assert(instrs_view(anns@) =~= s.update(k as int, InstrV { operands: s[k as int].operands.update(2, OperandV::LiteralBit32(n)), ..s[k as int] }));
                }
            }
        },
        None => {},
    }
}

/// Renumbers the variables of the class `class` among the globals, one after the other.
fn relabel_vars(anns: &mut Vec<Instruction>, globals: &Vec<Instruction>, class: u32, remap: &FxHashMap<u32, u32>)
    requires
        variables_have_class(instrs_view(globals@)),
    ensures
        instrs_view(final(anns)@) == relabel(instrs_view(old(anns)@), instrs_view(globals@), class, word_map(*remap)),
{
    let ghost gs = instrs_view(globals@);
    let ghost target = relabel(instrs_view(anns@), gs, class, word_map(*remap));
    let mut i: usize = 0;
    assert(gs.skip(0) =~= gs);
    while i < globals.len()
        invariant
            i <= gs.len(),
            gs == instrs_view(globals@),
            variables_have_class(gs),
            relabel(instrs_view(anns@), gs.skip(i as int), class, word_map(*remap)) == target,
        decreases gs.len() - i,
    {
        let ghost rest = gs.skip(i as int);
        assert(rest[0] == globals@[i as int]@);
        assert(rest.drop_first() =~= gs.skip(i + 1));
        assert(gs[i as int] == globals@[i as int]@);
        relabel_var(anns, &globals[i], class, remap);
        i = i + 1;
    }
    assert(gs.skip(i as int) =~= Seq::<InstrV>::empty());
}

impl LinkInputs {
    /// Keeps the fragment inputs that a function refers to; of the others, removes every
    /// name, decoration, entry point operand and global that refers to one.
    fn trim_inputs(&mut self)
        ensures
            word_map(final(self).inputs_to_remove) == word_map(old(self).inputs_to_remove).remove_keys(
                function_refs(old(self).frag_builder.module@.functions),
            ),
            final(self).frag_builder.module@ == trimmed(old(self).frag_builder.module@, word_map(final(self).inputs_to_remove)),
            final(self).frag_builder.next_id == old(self).frag_builder.next_id,
            final(self).vert_builder == old(self).vert_builder,
            final(self).outputs == old(self).outputs,
    {
        drop_function_refs(&mut self.inputs_to_remove, &self.frag_builder.module.functions);
        retain_unmentioned(&mut self.frag_builder.module.debug_names, &self.inputs_to_remove);
        retain_unmentioned(&mut self.frag_builder.module.annotations, &self.inputs_to_remove);
        trim_entry_points(&mut self.frag_builder.module.entry_points, &self.inputs_to_remove);
        retain_unlisted(&mut self.frag_builder.module.types_global_values, &self.inputs_to_remove);
        assert(self.frag_builder.module@ =~= trimmed(old(self).frag_builder.module@, word_map(self.inputs_to_remove)));
    }
}

/// Filtering the globals keeps every variable's storage class.
pub proof fn lemma_filter_keeps_class(g: Seq<InstrV>, pred: spec_fn(InstrV) -> bool)
    requires
        variables_have_class(g),
    ensures
        variables_have_class(g.filter(pred)),
    decreases g.len(),
{
    reveal(Seq::filter);
    if g.len() > 0 {
        assert forall|i: int| 0 <= i < g.drop_last().len() && (#[trigger] g.drop_last()[i]).opcode == OP_VARIABLE implies g.drop_last()[i].operands.len() > 0 by {
            assert(g.drop_last()[i] == g[i]);
        }
        lemma_filter_keeps_class(g.drop_last(), pred);
        let f = g.drop_last().filter(pred);
        if pred(g.last()) {
            assert forall|i: int| 0 <= i < f.push(g.last()).len() && (#[trigger] f.push(g.last())[i]).opcode == OP_VARIABLE implies f.push(g.last())[i].operands.len() > 0 by {
                if i < f.len() {
                    assert(f.push(g.last())[i] == f[i]);
                } else {
                    assert(g[g.len() - 1] == g.last());
                }
            }
        }
    }
}

/// What renumbering does to the two stages: nothing where no input is dead; else the
/// location annotations of the fragment inputs and of the vertex outputs take their new
/// numbers.
pub open spec fn renumbered(f0: ModuleV, v0: ModuleV, f1: ModuleV, v1: ModuleV, outs: Seq<(u32, u32)>, dead: Seq<u32>) -> bool {
    if dead.len() == 0 {
        f1 == f0 && v1 == v0
    } else {
        &&& f1 == (ModuleV {
            annotations: relabel(f0.annotations, f0.types_global_values, STORAGE_CLASS_INPUT, remapping(outs, dead).0),
            ..f0
        })
        &&& v1 == (ModuleV {
            annotations: relabel(v0.annotations, v0.types_global_values, STORAGE_CLASS_OUTPUT, remapping(outs, dead).0),
            ..v0
        })
    }
}

/// The inputs that stay dead once the functions have been looked at: those that no
/// function refers to.
pub open spec fn kept_dead(l: LinkInputs) -> Map<u32, u32> {
    word_map(l.inputs_to_remove).remove_keys(function_refs(l.frag_builder.module@.functions))
}

/// Whether renumbering the locations of `dead` after the outputs stays within 32 bits.
pub open spec fn numbering_fits(outs: Seq<(u32, u32)>, dead: Seq<u32>) -> bool {
    dead.len() > 0 ==> remapping(outs, dead).1 <= u32::MAX
}

impl LinkInputs {
    /// Renumbers the locations so that the dead inputs come last: from the lowest dead
    /// location on, the live outputs keep their order, then the dead locations follow.
    fn reorder_inputs(&mut self)
        requires
            variables_have_class(old(self).frag_builder.module@.types_global_values),
            variables_have_class(old(self).vert_builder.module@.types_global_values),
            forall|dead: Seq<u32>| #[trigger] is_dead_order(dead, word_map(old(self).inputs_to_remove))
                ==> numbering_fits(old(self).outputs@, dead),
        ensures
            final(self).outputs == old(self).outputs,
            final(self).inputs_to_remove == old(self).inputs_to_remove,
            final(self).frag_builder.next_id == old(self).frag_builder.next_id,
            final(self).vert_builder.next_id == old(self).vert_builder.next_id,
            exists|dead: Seq<u32>| #[trigger] is_dead_order(dead, word_map(old(self).inputs_to_remove))
                && renumbered(
                    old(self).frag_builder.module@,
                    old(self).vert_builder.module@,
                    final(self).frag_builder.module@,
                    final(self).vert_builder.module@,
                    old(self).outputs@,
                    dead,
                ),
    {
        let dead = dead_locations(&self.inputs_to_remove);
        assert(is_dead_order(dead@, word_map(self.inputs_to_remove)));
        if dead.len() == 0 {
            return;
        }
        let remap = compute_remapping(&self.outputs, &dead);
        relabel_vars(&mut self.frag_builder.module.annotations, &self.frag_builder.module.types_global_values, STORAGE_CLASS_INPUT, &remap);
        relabel_vars(&mut self.vert_builder.module.annotations, &self.vert_builder.module.types_global_values, STORAGE_CLASS_OUTPUT, &remap);
        assert(self.frag_builder.module@ =~= (ModuleV {
            annotations: relabel(old(self).frag_builder.module@.annotations, old(self).frag_builder.module@.types_global_values, STORAGE_CLASS_INPUT, remapping(self.outputs@, dead@).0),
            ..old(self).frag_builder.module@
        }));
        assert(self.vert_builder.module@ =~= (ModuleV {
            annotations: relabel(old(self).vert_builder.module@.annotations, old(self).vert_builder.module@.types_global_values, STORAGE_CLASS_OUTPUT, remapping(self.outputs@, dead@).0),
            ..old(self).vert_builder.module@
        }));
    }

    /// Removes the fragment inputs that nothing reads and renumbers the locations so
    /// that those come last.
    pub fn do_pass(&mut self)
        requires
            variables_have_class(old(self).frag_builder.module@.types_global_values),
            variables_have_class(old(self).vert_builder.module@.types_global_values),
            forall|dead: Seq<u32>| #[trigger] is_dead_order(dead, kept_dead(*old(self)))
                ==> numbering_fits(old(self).outputs@, dead),
        ensures
            word_map(final(self).inputs_to_remove) == kept_dead(*old(self)),
            final(self).outputs == old(self).outputs,
            final(self).frag_builder.next_id == old(self).frag_builder.next_id,
            final(self).vert_builder.next_id == old(self).vert_builder.next_id,
            exists|dead: Seq<u32>| #[trigger] is_dead_order(dead, kept_dead(*old(self)))
                && renumbered(
                    trimmed(old(self).frag_builder.module@, kept_dead(*old(self))),
                    old(self).vert_builder.module@,
                    final(self).frag_builder.module@,
                    final(self).vert_builder.module@,
                    old(self).outputs@,
                    dead,
                ),
    {
        self.trim_inputs();
        proof {
            lemma_filter_keeps_class(
                old(self).frag_builder.module@.types_global_values,
                |g: InstrV| !(g.result_id matches Some(id) && kept_dead(*old(self)).contains_key(id)),
            );
        }
        self.reorder_inputs();
    }
}

} // verus!
