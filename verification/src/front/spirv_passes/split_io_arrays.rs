//! Splits array-typed shader inputs and outputs into one variable per element.
//!
//! WGSL allows only scalars and vectors at the interface between stages, but GLSL's
//! `out float arr[N]` declares a single array variable with one location that occupies
//! `N` consecutive locations. This pass gives each element a variable of its own at its
//! location, demotes the array to a private variable so that the body keeps indexing it,
//! and copies between the two at the edges of the entry point: the outputs just before
//! the first return, the inputs at the start.

use crate::front::spirv_passes::builder::{declared, declares_type, lemma_declares_type, same_but_globals, type_decl, Builder};
use crate::front::spirv_passes::lookup::{find_with_result, first_with_result, opt_ref_view};
use crate::front::spirv_passes::module::{
    blocks_view, functions_view, instrs_view, operands_view, Block, BlockV, Function, FunctionV,
    InstrV, Instruction, Module, ModuleV, Operand, OperandV, DECORATION_CENTROID,
    DECORATION_COMPONENT, DECORATION_FLAT, DECORATION_INDEX, DECORATION_INVARIANT,
    DECORATION_LOCATION, DECORATION_NO_PERSPECTIVE, DECORATION_PATCH, DECORATION_SAMPLE,
    DECORATION_STREAM, DECORATION_XFB_BUFFER, DECORATION_XFB_STRIDE, OP_ACCESS_CHAIN,
    OP_CONSTANT, OP_DECORATE, OP_IN_BOUNDS_ACCESS_CHAIN, OP_KILL, OP_LOAD, OP_PTR_ACCESS_CHAIN,
    OP_RETURN, OP_RETURN_VALUE, OP_STORE, OP_TYPE_ARRAY, OP_TYPE_INT, OP_TYPE_POINTER,
    OP_UNREACHABLE, OP_VARIABLE, STORAGE_CLASS_INPUT, STORAGE_CLASS_OUTPUT,
    STORAGE_CLASS_PRIVATE,
};
use vstd::prelude::*;

verus! {

/// The pass, over the module it rewrites, for the inputs or for the outputs.
pub struct SplitArrayIo {
    pub builder: Builder,
    /// `STORAGE_CLASS_INPUT` or `STORAGE_CLASS_OUTPUT`.
    pub io_class: u32,
}

/// An array variable of the interface, and what splitting it needs.
#[derive(Debug)]
pub struct ArrayIoVar {
    pub var_id: u32,
    pub array_type_id: u32,
    pub element_type_id: u32,
    pub array_length: u32,
    pub location: u32,
    /// The decorations that each element's variable gets too (interpolation, sampling).
    pub replicated_decorations: Vec<Instruction>,
}

pub struct ArrayIoVarV {
    pub var_id: u32,
    pub array_type_id: u32,
    pub element_type_id: u32,
    pub array_length: u32,
    pub location: u32,
    pub replicated_decorations: Seq<InstrV>,
}

impl View for ArrayIoVar {
    type V = ArrayIoVarV;

    open spec fn view(&self) -> ArrayIoVarV {
        ArrayIoVarV {
            var_id: self.var_id,
            array_type_id: self.array_type_id,
            element_type_id: self.element_type_id,
            array_length: self.array_length,
            location: self.location,
            replicated_decorations: instrs_view(self.replicated_decorations@),
        }
    }
}

/// Whether `a` is `OpDecorate` of `target`.
pub open spec fn decorates(a: InstrV, target: u32) -> bool {
    a.opcode == OP_DECORATE && a.operands.len() > 0 && a.operands[0] == OperandV::IdRef(target)
}

/// The decoration that `a` applies, if its second operand names one.
pub open spec fn decoration_of(a: InstrV) -> Option<u32> {
    if a.operands.len() > 1 && a.operands[1] is Decoration {
        Some(a.operands[1]->Decoration_0)
    } else {
        None
    }
}

/// The decorations that each element's variable inherits.
pub open spec fn is_replicated_decoration(d: u32) -> bool {
    d == DECORATION_FLAT || d == DECORATION_NO_PERSPECTIVE || d == DECORATION_CENTROID
        || d == DECORATION_SAMPLE || d == DECORATION_INVARIANT || d == DECORATION_PATCH
}

/// The location of `var`: that of its last `Location` decoration with a literal.
pub open spec fn location_of(anns: Seq<InstrV>, var: u32) -> Option<u32>
    decreases anns.len(),
{
    if anns.len() == 0 {
        None
    } else {
        let a = anns.last();
        if decorates(a, var) && decoration_of(a) == Some(DECORATION_LOCATION) && a.operands.len() > 2
            && a.operands[2] is LiteralBit32 {
            Some(a.operands[2]->LiteralBit32_0)
        } else {
            location_of(anns.drop_last(), var)
        }
    }
}

/// Whether `a` decorates `var` with a decoration that the elements inherit.
pub open spec fn replicates(a: InstrV, var: u32) -> bool {
    decorates(a, var) && decoration_of(a) is Some && is_replicated_decoration(decoration_of(a)->Some_0)
}

/// The value of a 32-bit `OpConstant` with result id `id`.
pub open spec fn uint_constant(g: Seq<InstrV>, id: u32) -> Option<u32> {
    match first_with_result(g, id) {
        Some(c) => if c.opcode == OP_CONSTANT && c.operands.len() > 0 && c.operands[0] is LiteralBit32 {
            Some(c.operands[0]->LiteralBit32_0)
        } else {
            None
        },
        None => None,
    }
}

/// The array variable that the global `g` is, if it is one of the interface of class
/// `io`: a variable of that class, of a pointer to an array type of non-zero constant
/// length, with a location.
pub open spec fn array_io_var(m: ModuleV, g: InstrV, io: u32) -> Option<ArrayIoVarV> {
    let globals = m.types_global_values;
    if g.opcode == OP_VARIABLE && g.operands.len() > 0 && g.operands[0] == OperandV::StorageClass(io)
        && g.result_id is Some && g.result_type is Some {
        let var = g.result_id->Some_0;
        match first_with_result(globals, g.result_type->Some_0) {
            Some(pt) => if pt.opcode == OP_TYPE_POINTER && pt.operands.len() > 1 && pt.operands[1] is IdRef {
                let at_id = pt.operands[1]->IdRef_0;
                match first_with_result(globals, at_id) {
                    Some(at) => if at.opcode == OP_TYPE_ARRAY && at.operands.len() > 1 && at.operands[0] is IdRef
                        && at.operands[1] is IdRef {
                        match uint_constant(globals, at.operands[1]->IdRef_0) {
                            Some(len) => if len != 0 && location_of(m.annotations, var) is Some {
                                Some(
                                    ArrayIoVarV {
                                        var_id: var,
                                        array_type_id: at_id,
                                        element_type_id: at.operands[0]->IdRef_0,
                                        array_length: len,
                                        location: location_of(m.annotations, var)->Some_0,
                                        replicated_decorations: m.annotations.filter(|a: InstrV| replicates(a, var)),
                                    },
                                )
                            } else {
                                None
                            },
                            None => None,
                        }
                    } else {
                        None
                    },
                    None => None,
                }
            } else {
                None
            },
            None => None,
        }
    } else {
        None
    }
}

/// The array variables of the interface among the globals `s`, in order.
pub open spec fn array_io_vars_in(m: ModuleV, s: Seq<InstrV>, io: u32) -> Seq<ArrayIoVarV>
    decreases s.len(),
{
    if s.len() == 0 {
        Seq::empty()
    } else {
        let rest = array_io_vars_in(m, s.drop_last(), io);
        match array_io_var(m, s.last(), io) {
            Some(v) => rest.push(v),
            None => rest,
        }
    }
}

/// The array variables of the interface of class `io`, in the order of the globals.
pub open spec fn array_io_vars(m: ModuleV, io: u32) -> Seq<ArrayIoVarV> {
    array_io_vars_in(m, m.types_global_values, io)
}

pub open spec fn array_vars_view(s: Seq<ArrayIoVar>) -> Seq<ArrayIoVarV> {
    s.map_values(|a: ArrayIoVar| a@)
}

/// The value of a 32-bit `OpConstant` with result id `id`.
pub fn resolve_uint_constant(module: &Module, id: u32) -> (r: Option<u32>)
    ensures
        r == uint_constant(module@.types_global_values, id),
{
    let c = match find_with_result(&module.types_global_values, id) {
        Some(c) => c,
        None => return None,
    };
    if c.opcode != OP_CONSTANT || c.operands.len() == 0 {
        return None;
    }
    assert(c@.operands[0] == c.operands@[0]@);
    match &c.operands[0] {
        Operand::LiteralBit32(v) => Some(*v),
        _ => None,
    }
}

/// The id an operand refers to when it is an `IdRef`.
fn id_ref(o: &Operand) -> (r: Option<u32>)
    ensures
        r == (if o@ is IdRef { Some(o@->IdRef_0) } else { None }),
{
    match o {
        Operand::IdRef(v) => Some(*v),
        _ => None,
    }
}

/// The location of `var` and the decorations its elements inherit.
fn scan_decorations(anns: &Vec<Instruction>, var: u32) -> (r: (Option<u32>, Vec<Instruction>))
    ensures
        r.0 == location_of(instrs_view(anns@), var),
        instrs_view(r.1@) == instrs_view(anns@).filter(|a: InstrV| replicates(a, var)),
{
    let ghost s = instrs_view(anns@);
    let mut location: Option<u32> = None;
    let mut replicated: Vec<Instruction> = Vec::new();
    let mut i: usize = 0;
    while i < anns.len()
        invariant
            i <= anns@.len(),
            s == instrs_view(anns@),
            location == location_of(s.take(i as int), var),
            instrs_view(replicated@) == s.take(i as int).filter(|a: InstrV| replicates(a, var)),
        decreases anns@.len() - i,
    {
        proof {
            reveal(Seq::filter);
            assert(s.take(i + 1).drop_last() =~= s.take(i as int));
            assert(s.take(i + 1).last() == anns@[i as int]@);
        }
        let a = &anns[i];
        if a.opcode == OP_DECORATE && a.operands.len() > 1 {
            assert(a@.operands[0] == a.operands@[0]@ && a@.operands[1] == a.operands@[1]@);
            if id_ref(&a.operands[0]) == Some(var) {
                match &a.operands[1] {
                    Operand::Decoration(d) => {
                        let d = *d;
                        if d == DECORATION_LOCATION {
                            if a.operands.len() > 2 {
                                assert(a@.operands[2] == a.operands@[2]@);
                                if let Operand::LiteralBit32(loc) = &a.operands[2] {
                                    location = Some(*loc);
                                }
                            }
                        } else if d == DECORATION_FLAT || d == DECORATION_NO_PERSPECTIVE || d == DECORATION_CENTROID
                            || d == DECORATION_SAMPLE || d == DECORATION_INVARIANT || d == DECORATION_PATCH {
                            let ghost pre = instrs_view(replicated@);
                            replicated.push(a.duplicate());
                            assert(instrs_view(replicated@) =~= pre.push(a@));
                        }
                    },
                    _ => {},
                }
            }
        }
        i = i + 1;
    }
    assert(s.take(i as int) =~= s);
    (location, replicated)
}

/// Every section of `m2` but the globals and the annotations is that of `m1`.
pub open spec fn same_but_globals_annotations(m1: ModuleV, m2: ModuleV) -> bool {
    &&& m2.header == m1.header
    &&& m2.capabilities == m1.capabilities
    &&& m2.extensions == m1.extensions
    &&& m2.ext_inst_imports == m1.ext_inst_imports
    &&& m2.memory_model == m1.memory_model
    &&& m2.entry_points == m1.entry_points
    &&& m2.execution_modes == m1.execution_modes
    &&& m2.debug_string_source == m1.debug_string_source
    &&& m2.debug_names == m1.debug_names
    &&& m2.debug_module_processed == m1.debug_module_processed
    &&& m2.functions == m1.functions
}

/// `OpVariable ptr io` with result id `id`.
pub open spec fn variable_decl(ptr: u32, io: u32, id: u32) -> InstrV {
    InstrV { opcode: OP_VARIABLE, result_type: Some(ptr), result_id: Some(id), operands: seq![OperandV::StorageClass(io)] }
}

/// The variables of the `count` elements, with the ids from `first` on.
pub open spec fn element_var_decls(ptr: u32, io: u32, first: int, count: nat) -> Seq<InstrV> {
    Seq::new(count, |i: int| variable_decl(ptr, io, (first + i) as u32))
}

/// The decoration `d` of the array, for the element variable `var`.
pub open spec fn replicated_for(d: InstrV, var: u32) -> InstrV {
    InstrV {
        opcode: OP_DECORATE,
        result_type: None,
        result_id: None,
        operands: seq![OperandV::IdRef(var), d.operands[1]] + d.operands.skip(2),
    }
}

/// The decorations of the variable `var` of element `i`: its location, then the array's
/// inherited decorations.
pub open spec fn element_decorations(arr: ArrayIoVarV, var: u32, i: int) -> Seq<InstrV> {
    seq![
        InstrV {
            opcode: OP_DECORATE,
            result_type: None,
            result_id: None,
            operands: seq![
                OperandV::IdRef(var),
                OperandV::Decoration(DECORATION_LOCATION),
                OperandV::LiteralBit32((arr.location + i) as u32),
            ],
        },
    ] + arr.replicated_decorations.map_values(|d: InstrV| replicated_for(d, var))
}

/// The decorations of the first `k` element variables, whose ids start at `first`.
pub open spec fn element_var_annotations(arr: ArrayIoVarV, first: int, k: nat) -> Seq<InstrV>
    decreases k,
{
    if k == 0 {
        Seq::empty()
    } else {
        element_var_annotations(arr, first, (k - 1) as nat) + element_decorations(arr, (first + k - 1) as u32, k - 1)
    }
}

/// `OpConstant uint i` for each index `i` below `count`, with the ids from `first` on.
pub open spec fn index_constant_decls(uint: u32, first: int, count: nat) -> Seq<InstrV> {
    Seq::new(
        count,
        |i: int| InstrV { opcode: OP_CONSTANT, result_type: Some(uint), result_id: Some((first + i) as u32), operands: seq![OperandV::LiteralBit32(i as u32)] },
    )
}

/// Whether each decoration of the array names its decoration in its second operand.
pub open spec fn well_formed_replicated(arr: ArrayIoVarV) -> bool {
    forall|j: int| 0 <= j < arr.replicated_decorations.len() ==> decoration_of(#[trigger] arr.replicated_decorations[j]) is Some
}

/// The ids `first`, `first + 1`, ... of `count` new values.
pub open spec fn id_range(first: int, count: nat) -> Seq<u32> {
    Seq::new(count, |i: int| (first + i) as u32)
}

/// Declares a variable of class `io` and type `ptr` for each element of `arr`, at
/// consecutive locations, with the array's inherited decorations.
fn add_element_vars(builder: &mut Builder, arr: &ArrayIoVar, ptr: u32, io: u32) -> (r: Vec<u32>)
    requires
        old(builder).next_id + arr.array_length <= u32::MAX,
        arr.location + arr.array_length <= 0x1_0000_0000,
        well_formed_replicated(arr@),
    ensures
        r@ == id_range(old(builder).next_id as int, arr.array_length as nat),
        final(builder).next_id == old(builder).next_id + arr.array_length,
        same_but_globals_annotations(old(builder).module@, final(builder).module@),
        final(builder).module@.types_global_values == old(builder).module@.types_global_values
            + element_var_decls(ptr, io, old(builder).next_id as int, arr.array_length as nat),
        final(builder).module@.annotations == old(builder).module@.annotations
            + element_var_annotations(arr@, old(builder).next_id as int, arr.array_length as nat),
{
    let ghost n0 = builder.next_id as int;
    let ghost g0 = builder.module@.types_global_values;
    let ghost a0 = builder.module@.annotations;
    let ghost m0 = builder.module@;
    let mut vars: Vec<u32> = Vec::new();
    let mut i: u32 = 0;
    assert(g0 + element_var_decls(ptr, io, n0, 0) =~= g0);
    assert(a0 + element_var_annotations(arr@, n0, 0) =~= a0);
    while i < arr.array_length
        invariant
            i <= arr.array_length,
            n0 == old(builder).next_id,
            n0 + arr.array_length <= u32::MAX,
            arr.location + arr.array_length <= 0x1_0000_0000,
            well_formed_replicated(arr@),
            builder.next_id == n0 + i,
            vars@ == id_range(n0, i as nat),
            same_but_globals_annotations(m0, builder.module@),
            m0 == old(builder).module@,
            g0 == m0.types_global_values,
            a0 == m0.annotations,
            builder.module@.types_global_values == g0 + element_var_decls(ptr, io, n0, i as nat),
            builder.module@.annotations == a0 + element_var_annotations(arr@, n0, i as nat),
        decreases arr.array_length - i,
    {
        let var = builder.variable(ptr, io);
        assert(builder.module@.types_global_values =~= g0 + element_var_decls(ptr, io, n0, (i + 1) as nat));
        let ghost a1 = builder.module@.annotations;
        let loc_params = vec![Operand::LiteralBit32(arr.location + i)];
        let ghost lp = loc_params@;
        builder.decorate(var, DECORATION_LOCATION, loc_params);
        proof {
            let loc_deco = InstrV {
                opcode: OP_DECORATE,
                result_type: None,
                result_id: None,
                operands: seq![OperandV::IdRef(var), OperandV::Decoration(DECORATION_LOCATION), OperandV::LiteralBit32((arr.location + i) as u32)],
            };
            assert(seq![OperandV::IdRef(var), OperandV::Decoration(DECORATION_LOCATION)] + operands_view(lp) =~= loc_deco.operands);
            assert(arr@.replicated_decorations.take(0).map_values(|d: InstrV| replicated_for(d, var)) =~= Seq::<InstrV>::empty());
            assert(builder.module@.annotations =~= a1.push(loc_deco) + arr@.replicated_decorations.take(0).map_values(|d: InstrV| replicated_for(d, var)));
        }
        let mut j: usize = 0;
        while j < arr.replicated_decorations.len()
            invariant
                j <= arr.replicated_decorations@.len(),
                well_formed_replicated(arr@),
                same_but_globals_annotations(m0, builder.module@),
                builder.module@.types_global_values == g0 + element_var_decls(ptr, io, n0, (i + 1) as nat),
                builder.next_id == n0 + i + 1,
                builder.module@.annotations == a1.push(
                    InstrV {
                        opcode: OP_DECORATE,
                        result_type: None,
                        result_id: None,
                        operands: seq![OperandV::IdRef(var), OperandV::Decoration(DECORATION_LOCATION), OperandV::LiteralBit32((arr.location + i) as u32)],
                    },
                ) + arr@.replicated_decorations.take(j as int).map_values(|d: InstrV| replicated_for(d, var)),
            decreases arr.replicated_decorations@.len() - j,
        {
            let d = &arr.replicated_decorations[j];
            assert(arr@.replicated_decorations[j as int] == d@);
            assert(decoration_of(d@) is Some);
            assert(d@.operands[1] == d.operands@[1]@);
            let deco = match &d.operands[1] {
                Operand::Decoration(x) => *x,
                _ => 0,
            };
            let mut params: Vec<Operand> = Vec::new();
            let mut k: usize = 2;
            while k < d.operands.len()
                invariant
                    2 <= k <= d.operands@.len(),
                    operands_view(params@) == d@.operands.subrange(2, k as int),
                decreases d.operands@.len() - k,
            {
                assert(d@.operands[k as int] == d.operands@[k as int]@);
                let ghost pre = params@;
                params.push(d.operands[k].duplicate());
                assert(params@ =~= pre.push(params@.last()));
                assert(operands_view(params@) =~= operands_view(pre).push(d@.operands[k as int]));
                assert(operands_view(params@) =~= d@.operands.subrange(2, k + 1));
                k = k + 1;
            }
            let ghost pre_anns = builder.module@.annotations;
            builder.decorate(var, deco, params);
            proof {
                assert(d@.operands.subrange(2, d@.operands.len() as int) =~= d@.operands.skip(2));
                assert(seq![OperandV::IdRef(var), OperandV::Decoration(deco)] + d@.operands.skip(2) == replicated_for(d@, var).operands);
                assert(arr@.replicated_decorations.take(j + 1) =~= arr@.replicated_decorations.take(j as int).push(d@));
                assert(arr@.replicated_decorations.take(j + 1).map_values(|x: InstrV| replicated_for(x, var))
                    =~= arr@.replicated_decorations.take(j as int).map_values(|x: InstrV| replicated_for(x, var)).push(replicated_for(d@, var)));
            }
            j = j + 1;
        }
        proof {
            assert(arr@.replicated_decorations.take(j as int) =~= arr@.replicated_decorations);
            assert(var == (n0 + i) as u32);
            assert(element_var_annotations(arr@, n0, (i + 1) as nat) =~= element_var_annotations(arr@, n0, i as nat)
                + element_decorations(arr@, var, i as int));
            assert(builder.module@.annotations =~= a0 + element_var_annotations(arr@, n0, (i + 1) as nat));
        }
        vars.push(var);
        assert(vars@ =~= id_range(n0, (i + 1) as nat));
        i = i + 1;
    }
    vars
}

/// Declares `OpConstant uint i` for each index `i` below `count`.
fn add_index_constants(builder: &mut Builder, uint: u32, count: u32) -> (r: Vec<u32>)
    requires
        old(builder).next_id + count <= u32::MAX,
    ensures
        r@ == id_range(old(builder).next_id as int, count as nat),
        final(builder).next_id == old(builder).next_id + count,
        same_but_globals(old(builder).module@, final(builder).module@),
        final(builder).module@.types_global_values == old(builder).module@.types_global_values
            + index_constant_decls(uint, old(builder).next_id as int, count as nat),
{
    let ghost n0 = builder.next_id as int;
    let ghost m0 = builder.module@;
    let mut consts: Vec<u32> = Vec::new();
    let mut i: u32 = 0;
    assert(m0.types_global_values + index_constant_decls(uint, n0, 0) =~= m0.types_global_values);
    while i < count
        invariant
            i <= count,
            n0 == old(builder).next_id,
            n0 + count <= u32::MAX,
            m0 == old(builder).module@,
            builder.next_id == n0 + i,
            consts@ == id_range(n0, i as nat),
            same_but_globals(m0, builder.module@),
            builder.module@.types_global_values == m0.types_global_values + index_constant_decls(uint, n0, i as nat),
        decreases count - i,
    {
        let c = builder.constant_bit32(uint, i);
        assert(builder.module@.types_global_values =~= m0.types_global_values + index_constant_decls(uint, n0, (i + 1) as nat));
        consts.push(c);
        assert(consts@ =~= id_range(n0, (i + 1) as nat));
        i = i + 1;
    }
    consts
}

/// Whether `g` declares the variable `var`.
pub open spec fn is_var_decl(g: InstrV, var: u32) -> bool {
    g.opcode == OP_VARIABLE && g.result_id == Some(var)
}

/// The index of the first declaration of `var` at or after `from`.
pub open spec fn var_decl_index(s: Seq<InstrV>, var: u32, from: int) -> Option<int>
    decreases s.len() - from,
{
    if from < 0 || from >= s.len() {
        None
    } else if is_var_decl(s[from], var) {
        Some(from)
    } else {
        var_decl_index(s, var, from + 1)
    }
}

/// The declaration `g` moved to the private class, with pointer type `ptr`.
pub open spec fn demoted(g: InstrV, ptr: u32) -> InstrV {
    InstrV {
        result_type: Some(ptr),
        operands: if g.operands.len() > 0 { g.operands.update(0, OperandV::StorageClass(STORAGE_CLASS_PRIVATE)) } else { g.operands },
        ..g
    }
}

/// The globals with the first declaration of `var` demoted to the private class.
pub open spec fn demote_first(s: Seq<InstrV>, var: u32, ptr: u32) -> Seq<InstrV> {
    match var_decl_index(s, var, 0) {
        Some(k) => s.update(k, demoted(s[k], ptr)),
        None => s,
    }
}

/// Demotes the first declaration of `var` to a private variable of pointer type `ptr`.
fn demote_variable(globals: &mut Vec<Instruction>, var: u32, ptr: u32)
    ensures
        instrs_view(final(globals)@) == demote_first(instrs_view(old(globals)@), var, ptr),
{
    let ghost s = instrs_view(globals@);
    let mut i: usize = 0;
    while i < globals.len()
        invariant
            i <= globals@.len(),
            s == instrs_view(globals@),
            s == instrs_view(old(globals)@),
            var_decl_index(s, var, 0) == var_decl_index(s, var, i as int),
        decreases globals@.len() - i,
    {
        assert(s[i as int] == globals@[i as int]@);
        if globals[i].opcode == OP_VARIABLE && globals[i].result_id == Some(var) {
            let g = &mut globals[i];
            g.result_type = Some(ptr);
            if g.operands.len() > 0 {
                g.operands.set(0, Operand::StorageClass(STORAGE_CLASS_PRIVATE));
            }
            proof {
                assert(globals@[i as int]@.operands =~= demoted(s[i as int], ptr).operands);
                assert(instrs_view(globals@) =~= s.update(i as int, demoted(s[i as int], ptr)));
            }
            return;
        }
        i = i + 1;
    }
}

/// Whether `op` is one of the access chains whose base the pass follows.
pub open spec fn is_retyped_chain(op: u32) -> bool {
    op == OP_ACCESS_CHAIN || op == OP_IN_BOUNDS_ACCESS_CHAIN || op == OP_PTR_ACCESS_CHAIN
}

/// The instruction with the type `ptr` when it is an access chain into `var`.
pub open spec fn retyped(i: InstrV, var: u32, ptr: u32) -> InstrV {
    if is_retyped_chain(i.opcode) && i.operands.len() > 0 && i.operands[0] == OperandV::IdRef(var) {
        InstrV { result_type: Some(ptr), ..i }
    } else {
        i
    }
}

/// The functions with every access chain into `var` typed `ptr`.
pub open spec fn retype_functions(fs: Seq<FunctionV>, var: u32, ptr: u32) -> Seq<FunctionV> {
    fs.map_values(
        |f: FunctionV| FunctionV {
            blocks: f.blocks.map_values(
                |b: BlockV| BlockV { instructions: b.instructions.map_values(|i: InstrV| retyped(i, var, ptr)), ..b },
            ),
            ..f
        },
    )
}

/// Types each access chain into `var` among the instructions as `ptr`.
fn retype_instrs(instrs: &mut Vec<Instruction>, var: u32, ptr: u32)
    ensures
        instrs_view(final(instrs)@) == instrs_view(old(instrs)@).map_values(|i: InstrV| retyped(i, var, ptr)),
{
    let ghost s = instrs_view(instrs@);
    let mut i: usize = 0;
    while i < instrs.len()
        invariant
            i <= instrs@.len(),
            instrs@.len() == s.len(),
            s == instrs_view(old(instrs)@),
            forall|k: int| 0 <= k < i ==> (#[trigger] instrs@[k])@ == retyped(s[k], var, ptr),
            forall|k: int| i <= k < instrs@.len() ==> (#[trigger] instrs@[k])@ == s[k],
        decreases instrs@.len() - i,
    {
        let op = instrs[i].opcode;
        if (op == OP_ACCESS_CHAIN || op == OP_IN_BOUNDS_ACCESS_CHAIN || op == OP_PTR_ACCESS_CHAIN) && instrs[i].operands.len() > 0 {
            assert(s[i as int].operands[0] == instrs@[i as int].operands@[0]@);
            if id_ref(&instrs[i].operands[0]) == Some(var) {
                instrs[i].result_type = Some(ptr);
            }
        }
        i = i + 1;
    }
    assert(instrs_view(instrs@) =~= s.map_values(|i: InstrV| retyped(i, var, ptr)));
}

/// Types each access chain into `var` in the functions as `ptr`.
fn retype_access_chains(functions: &mut Vec<Function>, var: u32, ptr: u32)
    ensures
        functions_view(final(functions)@) == retype_functions(functions_view(old(functions)@), var, ptr),
{
    let ghost s = functions_view(functions@);
    let mut fi: usize = 0;
    while fi < functions.len()
        invariant
            fi <= functions@.len(),
            functions@.len() == s.len(),
            s == functions_view(old(functions)@),
            forall|k: int| 0 <= k < fi ==> (#[trigger] functions@[k])@ == retype_functions(s, var, ptr)[k],
            forall|k: int| fi <= k < functions@.len() ==> (#[trigger] functions@[k])@ == s[k],
        decreases functions@.len() - fi,
    {
        let ghost f0 = functions@[fi as int]@;
        let mut bi: usize = 0;
        while bi < functions[fi].blocks.len()
            invariant
                fi < functions@.len(),
                bi <= functions@[fi as int].blocks@.len(),
                functions@.len() == s.len(),
                s == functions_view(old(functions)@),
                f0 == s[fi as int],
                functions@[fi as int].blocks@.len() == f0.blocks.len(),
                functions@[fi as int]@.def == f0.def,
                functions@[fi as int]@.end == f0.end,
                functions@[fi as int]@.parameters == f0.parameters,
                forall|k: int| 0 <= k < bi ==> (#[trigger] functions@[fi as int].blocks@[k])@
                    == (BlockV { instructions: f0.blocks[k].instructions.map_values(|i: InstrV| retyped(i, var, ptr)), ..f0.blocks[k] }),
                forall|k: int| bi <= k < functions@[fi as int].blocks@.len() ==> (#[trigger] functions@[fi as int].blocks@[k])@ == f0.blocks[k],
                forall|k: int| 0 <= k < fi ==> (#[trigger] functions@[k])@ == retype_functions(s, var, ptr)[k],
                forall|k: int| fi < k < functions@.len() ==> (#[trigger] functions@[k])@ == s[k],
            decreases functions@[fi as int].blocks@.len() - bi,
        {
            retype_instrs(&mut functions[fi].blocks[bi].instructions, var, ptr);
            bi = bi + 1;
        }
        assert(functions@[fi as int]@.blocks =~= retype_functions(s, var, ptr)[fi as int].blocks);
        fi = fi + 1;
    }
    assert(functions_view(functions@) =~= retype_functions(s, var, ptr));
}

/// The decorations that only an interface variable may have.
pub open spec fn is_io_decoration(d: u32) -> bool {
    d == DECORATION_LOCATION || d == DECORATION_COMPONENT || d == DECORATION_INDEX
        || d == DECORATION_NO_PERSPECTIVE || d == DECORATION_FLAT || d == DECORATION_CENTROID
        || d == DECORATION_SAMPLE || d == DECORATION_PATCH || d == DECORATION_INVARIANT
        || d == DECORATION_STREAM || d == DECORATION_XFB_BUFFER || d == DECORATION_XFB_STRIDE
}

/// Whether `a` decorates `var` with a decoration that only an interface variable may have.
pub open spec fn strips(a: InstrV, var: u32) -> bool {
    decorates(a, var) && decoration_of(a) is Some && is_io_decoration(decoration_of(a)->Some_0)
}

/// Removes the decorations of `var` that only an interface variable may have.
fn strip_io_decorations(anns: &mut Vec<Instruction>, var: u32)
    ensures
        instrs_view(final(anns)@) == instrs_view(old(anns)@).filter(|a: InstrV| !strips(a, var)),
{
    let ghost s = instrs_view(anns@);
    let mut source: Vec<Instruction> = Vec::new();
    std::mem::swap(&mut source, anns);
    let mut i: usize = 0;
    while i < source.len()
        invariant
            i <= source@.len(),
            s == instrs_view(source@),
            instrs_view(anns@) == s.take(i as int).filter(|a: InstrV| !strips(a, var)),
        decreases source@.len() - i,
    {
        proof {
            reveal(Seq::filter);
            assert(s.take(i + 1).drop_last() =~= s.take(i as int));
            assert(s.take(i + 1).last() == source@[i as int]@);
        }
        let a = &source[i];
        let mut strip = false;
        if a.opcode == OP_DECORATE && a.operands.len() > 1 {
            assert(a@.operands[0] == a.operands@[0]@ && a@.operands[1] == a.operands@[1]@);
            if id_ref(&a.operands[0]) == Some(var) {
                if let Operand::Decoration(d) = &a.operands[1] {
                    let d = *d;
                    strip = d == DECORATION_LOCATION || d == DECORATION_COMPONENT || d == DECORATION_INDEX
                        || d == DECORATION_NO_PERSPECTIVE || d == DECORATION_FLAT || d == DECORATION_CENTROID
                        || d == DECORATION_SAMPLE || d == DECORATION_PATCH || d == DECORATION_INVARIANT
                        || d == DECORATION_STREAM || d == DECORATION_XFB_BUFFER || d == DECORATION_XFB_STRIDE;
                }
            }
        }
        assert(strip == strips(a@, var));
        if !strip {
            let ghost pre = instrs_view(anns@);
            anns.push(a.duplicate());
            assert(instrs_view(anns@) =~= pre.push(a@));
        }
        i = i + 1;
    }
    assert(s.take(i as int) =~= s);
}

/// The operands of an entry point with the interface variable `var` replaced by `vars`;
/// the interface starts at the fourth operand.
pub open spec fn interface_replaced(ops: Seq<OperandV>, var: u32, vars: Seq<u32>) -> Seq<OperandV>
    decreases ops.len(),
{
    if ops.len() == 0 {
        ops
    } else {
        let pre = interface_replaced(ops.drop_last(), var, vars);
        if ops.len() - 1 >= 3 && ops.last() == OperandV::IdRef(var) {
            pre + vars.map_values(|v: u32| OperandV::IdRef(v))
        } else {
            pre.push(ops.last())
        }
    }
}

/// The entry points with the interface variable `var` replaced by `vars`.
pub open spec fn interfaces_replaced(eps: Seq<InstrV>, var: u32, vars: Seq<u32>) -> Seq<InstrV> {
    eps.map_values(|ep: InstrV| InstrV { operands: interface_replaced(ep.operands, var, vars), ..ep })
}

/// The operands before the interface are kept.
pub proof fn lemma_interface_prefix(ops: Seq<OperandV>, var: u32, vars: Seq<u32>, k: int)
    requires
        0 <= k < 3,
        k < ops.len(),
    ensures
        interface_replaced(ops, var, vars).len() > k,
        interface_replaced(ops, var, vars)[k] == ops[k],
    decreases ops.len(),
{
    if ops.len() - 1 > k {
        lemma_interface_prefix(ops.drop_last(), var, vars, k);
    } else {
        if ops.len() - 1 == k {
            lemma_interface_len(ops.drop_last(), var, vars);
        }
    }
}

/// Replacing never shortens the operands.
pub proof fn lemma_interface_len(ops: Seq<OperandV>, var: u32, vars: Seq<u32>)
    ensures
        interface_replaced(ops, var, vars).len() >= ops.len() || (interface_replaced(ops, var, vars).len() >= 3 && ops.len() > 3),
        ops.len() <= 3 ==> interface_replaced(ops, var, vars).len() == ops.len(),
    decreases ops.len(),
{
    if ops.len() > 0 {
        lemma_interface_len(ops.drop_last(), var, vars);
    }
}

/// Replaces the interface variable `var` by `vars` in each entry point.
fn replace_in_interfaces(eps: &mut Vec<Instruction>, var: u32, vars: &Vec<u32>)
    ensures
        instrs_view(final(eps)@) == interfaces_replaced(instrs_view(old(eps)@), var, vars@),
{
    let ghost s = instrs_view(eps@);
    let mut e: usize = 0;
    while e < eps.len()
        invariant
            e <= eps@.len(),
            eps@.len() == s.len(),
            s == instrs_view(old(eps)@),
            forall|k: int| 0 <= k < e ==> (#[trigger] eps@[k])@ == interfaces_replaced(s, var, vars@)[k],
            forall|k: int| e <= k < eps@.len() ==> (#[trigger] eps@[k])@ == s[k],
        decreases eps@.len() - e,
    {
        let ghost ops = s[e as int].operands;
        let mut rebuilt: Vec<Operand> = Vec::new();
        let mut idx: usize = 0;
        while idx < eps[e].operands.len()
            invariant
                e < eps@.len(),
                idx <= eps@[e as int].operands@.len(),
                ops == eps@[e as int]@.operands,
                operands_view(rebuilt@) == interface_replaced(ops.take(idx as int), var, vars@),
            decreases eps@[e as int].operands@.len() - idx,
        {
            proof {
                assert(ops.take(idx + 1).drop_last() =~= ops.take(idx as int));
                assert(ops.take(idx + 1).last() == eps@[e as int].operands@[idx as int]@);
            }
            let ghost pre = operands_view(rebuilt@);
            let op = &eps[e].operands[idx];
            if idx >= 3 && id_ref(op) == Some(var) {
                let mut j: usize = 0;
                while j < vars.len()
                    invariant
                        j <= vars@.len(),
                        operands_view(rebuilt@) == pre + vars@.take(j as int).map_values(|v: u32| OperandV::IdRef(v)),
                    decreases vars@.len() - j,
                {
                    let ghost before = rebuilt@;
                    rebuilt.push(Operand::IdRef(vars[j]));
                    assert(rebuilt@ =~= before.push(Operand::IdRef(vars@[j as int])));
                    assert(operands_view(rebuilt@) =~= operands_view(before).push(OperandV::IdRef(vars@[j as int])));
                    assert(vars@.take(j + 1).map_values(|v: u32| OperandV::IdRef(v))
                        =~= vars@.take(j as int).map_values(|v: u32| OperandV::IdRef(v)).push(OperandV::IdRef(vars@[j as int])));
                    assert(operands_view(rebuilt@) =~= pre + vars@.take(j + 1).map_values(|v: u32| OperandV::IdRef(v)));
                    j = j + 1;
                }
                assert(vars@.take(j as int) =~= vars@);
            } else {
                let ghost before = rebuilt@;
                rebuilt.push(op.duplicate());
                assert(rebuilt@ =~= before.push(rebuilt@.last()));
                assert(operands_view(rebuilt@) =~= pre.push(op@));
            }
            idx = idx + 1;
        }
        assert(ops.take(idx as int) =~= ops);
        eps[e].operands = rebuilt;
        e = e + 1;
    }
    assert(instrs_view(eps@) =~= interfaces_replaced(s, var, vars@));
}

/// The functions named by the entry points, in order.
pub open spec fn entry_function_ids(eps: Seq<InstrV>) -> Seq<u32>
    decreases eps.len(),
{
    if eps.len() == 0 {
        Seq::empty()
    } else {
        let pre = entry_function_ids(eps.drop_last());
        let ep = eps.last();
        if ep.operands.len() > 1 && ep.operands[1] is IdRef {
            pre.push(ep.operands[1]->IdRef_0)
        } else {
            pre
        }
    }
}

/// Replacing an interface variable keeps the functions the entry points name.
pub proof fn lemma_entry_ids_replaced(eps: Seq<InstrV>, var: u32, vars: Seq<u32>)
    ensures
        entry_function_ids(interfaces_replaced(eps, var, vars)) == entry_function_ids(eps),
    decreases eps.len(),
{
    if eps.len() > 0 {
        assert(interfaces_replaced(eps, var, vars).drop_last() =~= interfaces_replaced(eps.drop_last(), var, vars));
        lemma_entry_ids_replaced(eps.drop_last(), var, vars);
        let ops = eps.last().operands;
        if ops.len() > 1 {
            lemma_interface_prefix(ops, var, vars, 1);
        } else {
            lemma_interface_len(ops, var, vars);
        }
    }
}

/// The functions named by the entry points, in order.
fn entry_point_function_ids(eps: &Vec<Instruction>) -> (r: Vec<u32>)
    ensures
        r@ == entry_function_ids(instrs_view(eps@)),
{
    let ghost s = instrs_view(eps@);
    let mut r: Vec<u32> = Vec::new();
    let mut i: usize = 0;
    while i < eps.len()
        invariant
            i <= eps@.len(),
            s == instrs_view(eps@),
            r@ == entry_function_ids(s.take(i as int)),
        decreases eps@.len() - i,
    {
        proof {
            assert(s.take(i + 1).drop_last() =~= s.take(i as int));
            assert(s.take(i + 1).last() == eps@[i as int]@);
        }
        if eps[i].operands.len() > 1 {
            assert(s[i as int].operands[1] == eps@[i as int].operands@[1]@);
            if let Some(id) = id_ref(&eps[i].operands[1]) {
                r.push(id);
            }
        }
        i = i + 1;
    }
    assert(s.take(i as int) =~= s);
    r
}

/// Whether the function `f` defines the id `main`.
pub open spec fn defines(f: FunctionV, main: u32) -> bool {
    f.def is Some && f.def->Some_0.result_id == Some(main)
}

/// The index of the first function at or after `from` that defines `main`.
pub open spec fn def_index(fs: Seq<FunctionV>, main: u32, from: int) -> Option<int>
    decreases fs.len() - from,
{
    if from < 0 || from >= fs.len() {
        None
    } else if defines(fs[from], main) {
        Some(from)
    } else {
        def_index(fs, main, from + 1)
    }
}

/// The index of the first function at or after `from` that defines `main` and has a block.
pub open spec fn def_index_with_block(fs: Seq<FunctionV>, main: u32, from: int) -> Option<int>
    decreases fs.len() - from,
{
    if from < 0 || from >= fs.len() {
        None
    } else if defines(fs[from], main) && fs[from].blocks.len() > 0 {
        Some(from)
    } else {
        def_index_with_block(fs, main, from + 1)
    }
}

/// Whether `i` ends its function or the invocation.
pub open spec fn is_terminator(i: InstrV) -> bool {
    i.opcode == OP_RETURN || i.opcode == OP_RETURN_VALUE || i.opcode == OP_KILL || i.opcode == OP_UNREACHABLE
}

/// The index of the first terminator at or after `from`.
pub open spec fn terminator_index(s: Seq<InstrV>, from: int) -> Option<int>
    decreases s.len() - from,
{
    if from < 0 || from >= s.len() {
        None
    } else if is_terminator(s[from]) {
        Some(from)
    } else {
        terminator_index(s, from + 1)
    }
}

/// The index of the first block at or after `from` that holds a terminator.
pub open spec fn terminated_block_index(bs: Seq<BlockV>, from: int) -> Option<int>
    decreases bs.len() - from,
{
    if from < 0 || from >= bs.len() {
        None
    } else if terminator_index(bs[from].instructions, 0) is Some {
        Some(from)
    } else {
        terminated_block_index(bs, from + 1)
    }
}

/// The index of the first instruction at or after `from` that is not `OpVariable`, or the
/// length.
pub open spec fn non_variable_index(s: Seq<InstrV>, from: int) -> int
    decreases s.len() - from,
{
    if from < 0 || from >= s.len() {
        s.len() as int
    } else if s[from].opcode != OP_VARIABLE {
        from
    } else {
        non_variable_index(s, from + 1)
    }
}

/// `x` inserted into `s` before the index `at`.
pub open spec fn inserted_at(s: Seq<InstrV>, at: int, x: Seq<InstrV>) -> Seq<InstrV> {
    s.take(at) + x + s.skip(at)
}

/// The copies of the first `k` elements of the array to their variables, through the ids
/// from `first` on: for each, a pointer to the element, a load, and a store.
pub open spec fn scatter_code(arr: ArrayIoVarV, vars: Seq<u32>, consts: Seq<u32>, eptr: u32, first: int, k: nat) -> Seq<InstrV>
    decreases k,
{
    if k == 0 {
        Seq::empty()
    } else {
        let i = k - 1;
        let ptr = (first + 2 * i) as u32;
        let val = (first + 2 * i + 1) as u32;
        scatter_code(arr, vars, consts, eptr, first, i as nat) + seq![
            InstrV { opcode: OP_ACCESS_CHAIN, result_type: Some(eptr), result_id: Some(ptr), operands: seq![OperandV::IdRef(arr.var_id), OperandV::IdRef(consts[i])] },
            InstrV { opcode: OP_LOAD, result_type: Some(arr.element_type_id), result_id: Some(val), operands: seq![OperandV::IdRef(ptr)] },
            InstrV { opcode: OP_STORE, result_type: None, result_id: None, operands: seq![OperandV::IdRef(vars[i]), OperandV::IdRef(val)] },
        ]
    }
}

/// The copies of the first `k` element variables into the array, through the ids from
/// `first` on: for each, a load, a pointer to the element, and a store.
pub open spec fn gather_code(arr: ArrayIoVarV, vars: Seq<u32>, consts: Seq<u32>, eptr: u32, first: int, k: nat) -> Seq<InstrV>
    decreases k,
{
    if k == 0 {
        Seq::empty()
    } else {
        let i = k - 1;
        let val = (first + 2 * i) as u32;
        let ptr = (first + 2 * i + 1) as u32;
        gather_code(arr, vars, consts, eptr, first, i as nat) + seq![
            InstrV { opcode: OP_LOAD, result_type: Some(arr.element_type_id), result_id: Some(val), operands: seq![OperandV::IdRef(vars[i])] },
            InstrV { opcode: OP_ACCESS_CHAIN, result_type: Some(eptr), result_id: Some(ptr), operands: seq![OperandV::IdRef(arr.var_id), OperandV::IdRef(consts[i])] },
            InstrV { opcode: OP_STORE, result_type: None, result_id: None, operands: seq![OperandV::IdRef(ptr), OperandV::IdRef(val)] },
        ]
    }
}

/// The functions with the scatter code inserted before the first terminator of the
/// first block that has one, in the first function that defines `main`.
pub open spec fn scatter(fs: Seq<FunctionV>, main: u32, arr: ArrayIoVarV, vars: Seq<u32>, consts: Seq<u32>, eptr: u32, first: int) -> Seq<FunctionV> {
    match def_index(fs, main, 0) {
        None => fs,
        Some(f) => match terminated_block_index(fs[f].blocks, 0) {
            None => fs,
            Some(b) => {
                let blk = fs[f].blocks[b];
                let t = terminator_index(blk.instructions, 0)->Some_0;
                let code = scatter_code(arr, vars, consts, eptr, first, arr.array_length as nat);
                fs.update(f, FunctionV { blocks: fs[f].blocks.update(b, BlockV { instructions: inserted_at(blk.instructions, t, code), ..blk }), ..fs[f] })
            },
        },
    }
}

/// The functions with the gather code inserted after the leading variables of the first
/// block of the first function that defines `main` and has a block.
pub open spec fn gather(fs: Seq<FunctionV>, main: u32, arr: ArrayIoVarV, vars: Seq<u32>, consts: Seq<u32>, eptr: u32, first: int) -> Seq<FunctionV> {
    match def_index_with_block(fs, main, 0) {
        None => fs,
        Some(f) => {
            let blk = fs[f].blocks[0];
            let at = non_variable_index(blk.instructions, 0);
            let code = gather_code(arr, vars, consts, eptr, first, arr.array_length as nat);
            fs.update(f, FunctionV { blocks: fs[f].blocks.update(0, BlockV { instructions: inserted_at(blk.instructions, at, code), ..blk }), ..fs[f] })
        },
    }
}

/// The copies for each entry function of `mains`, in order, each taking twice the length
/// of the array in ids; outputs are scattered, inputs gathered. Also the next unused id.
pub open spec fn inject_all(fs: Seq<FunctionV>, mains: Seq<u32>, io: u32, arr: ArrayIoVarV, vars: Seq<u32>, consts: Seq<u32>, eptr: u32, first: int) -> (Seq<FunctionV>, int)
    decreases mains.len(),
{
    if mains.len() == 0 {
        (fs, first)
    } else {
        let (pre, n) = inject_all(fs, mains.drop_last(), io, arr, vars, consts, eptr, first);
        if io == STORAGE_CLASS_OUTPUT {
            (scatter(pre, mains.last(), arr, vars, consts, eptr, n), n + 2 * arr.array_length)
        } else if io == STORAGE_CLASS_INPUT {
            (gather(pre, mains.last(), arr, vars, consts, eptr, n), n + 2 * arr.array_length)
        } else {
            (pre, n)
        }
    }
}

/// Inserts `x` into `v` before the index `at`.
fn insert_instructions(v: &mut Vec<Instruction>, at: usize, x: Vec<Instruction>)
    requires
        at <= old(v)@.len(),
    ensures
        instrs_view(final(v)@) == inserted_at(instrs_view(old(v)@), at as int, instrs_view(x@)),
{
    let ghost s = v@;
    let mut tail = v.split_off(at);
    let mut x = x;
    let ghost xs = x@;
    v.append(&mut x);
    v.append(&mut tail);
    assert(v@ =~= s.take(at as int) + xs + s.skip(at as int));
    assert(instrs_view(v@) =~= inserted_at(instrs_view(s), at as int, instrs_view(xs)));
}

/// The index of the first terminator.
fn find_terminator(s: &Vec<Instruction>) -> (r: Option<usize>)
    ensures
        match r {
            Some(t) => terminator_index(instrs_view(s@), 0) == Some(t as int) && t < s@.len(),
            None => terminator_index(instrs_view(s@), 0) is None,
        },
{
    let ghost v = instrs_view(s@);
    let mut i: usize = 0;
    while i < s.len()
        invariant
            i <= s@.len(),
            v == instrs_view(s@),
            terminator_index(v, 0) == terminator_index(v, i as int),
        decreases s@.len() - i,
    {
        assert(v[i as int] == s@[i as int]@);
        let op = s[i].opcode;
        if op == OP_RETURN || op == OP_RETURN_VALUE || op == OP_KILL || op == OP_UNREACHABLE {
            return Some(i);
        }
        i = i + 1;
    }
    None
}

/// The index of the first instruction that is not `OpVariable`, or the length.
fn find_non_variable(s: &Vec<Instruction>) -> (r: usize)
    ensures
        r as int == non_variable_index(instrs_view(s@), 0),
        r <= s@.len(),
{
    let ghost v = instrs_view(s@);
    let mut i: usize = 0;
    while i < s.len()
        invariant
            i <= s@.len(),
            v == instrs_view(s@),
            non_variable_index(v, 0) == non_variable_index(v, i as int),
        decreases s@.len() - i,
    {
        assert(v[i as int] == s@[i as int]@);
        if s[i].opcode != OP_VARIABLE {
            return i;
        }
        i = i + 1;
    }
    i
}

/// Whether the function defines `main`.
fn function_defines(f: &Function, main: u32) -> (r: bool)
    ensures
        r == defines(f@, main),
{
    match &f.def {
        Some(d) => d.result_id == Some(main),
        None => false,
    }
}

/// The scatter code, with the ids from `first` on.
fn make_scatter_code(arr: &ArrayIoVar, vars: &Vec<u32>, consts: &Vec<u32>, eptr: u32, first: u32) -> (r: Vec<Instruction>)
    requires
        first + 2 * arr.array_length <= u32::MAX,
        vars@.len() == arr.array_length,
        consts@.len() == arr.array_length,
    ensures
        instrs_view(r@) == scatter_code(arr@, vars@, consts@, eptr, first as int, arr.array_length as nat),
{
    let mut code: Vec<Instruction> = Vec::new();
    let mut i: u32 = 0;
    while i < arr.array_length
        invariant
            i <= arr.array_length,
            first + 2 * arr.array_length <= u32::MAX,
            vars@.len() == arr.array_length,
            consts@.len() == arr.array_length,
            instrs_view(code@) == scatter_code(arr@, vars@, consts@, eptr, first as int, i as nat),
        decreases arr.array_length - i,
    {
        let ghost pre = instrs_view(code@);
        let ptr_id = first + 2 * i;
        let val_id = first + 2 * i + 1;
        let a = Instruction::new(OP_ACCESS_CHAIN, Some(eptr), Some(ptr_id), vec![Operand::IdRef(arr.var_id), Operand::IdRef(consts[i as usize])]);
        let l = Instruction::new(OP_LOAD, Some(arr.element_type_id), Some(val_id), vec![Operand::IdRef(ptr_id)]);
        let st = Instruction::new(OP_STORE, None, None, vec![Operand::IdRef(vars[i as usize]), Operand::IdRef(val_id)]);
        let ghost av = a@;
        let ghost lv = l@;
        let ghost sv = st@;
        code.push(a);
        code.push(l);
        code.push(st);
        proof {
            assert(av.operands =~= seq![OperandV::IdRef(arr.var_id), OperandV::IdRef(consts@[i as int])]);
            assert(lv.operands =~= seq![OperandV::IdRef(ptr_id)]);
            assert(sv.operands =~= seq![OperandV::IdRef(vars@[i as int]), OperandV::IdRef(val_id)]);
            assert(instrs_view(code@) =~= pre + seq![av, lv, sv]);
            assert(instrs_view(code@) =~= scatter_code(arr@, vars@, consts@, eptr, first as int, (i + 1) as nat));
        }
        i = i + 1;
    }
    code
}

/// The gather code, with the ids from `first` on.
fn make_gather_code(arr: &ArrayIoVar, vars: &Vec<u32>, consts: &Vec<u32>, eptr: u32, first: u32) -> (r: Vec<Instruction>)
    requires
        first + 2 * arr.array_length <= u32::MAX,
        vars@.len() == arr.array_length,
        consts@.len() == arr.array_length,
    ensures
        instrs_view(r@) == gather_code(arr@, vars@, consts@, eptr, first as int, arr.array_length as nat),
{
    let mut code: Vec<Instruction> = Vec::new();
    let mut i: u32 = 0;
    while i < arr.array_length
        invariant
            i <= arr.array_length,
            first + 2 * arr.array_length <= u32::MAX,
            vars@.len() == arr.array_length,
            consts@.len() == arr.array_length,
            instrs_view(code@) == gather_code(arr@, vars@, consts@, eptr, first as int, i as nat),
        decreases arr.array_length - i,
    {
        let ghost pre = instrs_view(code@);
        let val_id = first + 2 * i;
        let ptr_id = first + 2 * i + 1;
        let l = Instruction::new(OP_LOAD, Some(arr.element_type_id), Some(val_id), vec![Operand::IdRef(vars[i as usize])]);
        let a = Instruction::new(OP_ACCESS_CHAIN, Some(eptr), Some(ptr_id), vec![Operand::IdRef(arr.var_id), Operand::IdRef(consts[i as usize])]);
        let st = Instruction::new(OP_STORE, None, None, vec![Operand::IdRef(ptr_id), Operand::IdRef(val_id)]);
        let ghost av = a@;
        let ghost lv = l@;
        let ghost sv = st@;
        code.push(l);
        code.push(a);
        code.push(st);
        proof {
            assert(av.operands =~= seq![OperandV::IdRef(arr.var_id), OperandV::IdRef(consts@[i as int])]);
            assert(lv.operands =~= seq![OperandV::IdRef(vars@[i as int])]);
            assert(sv.operands =~= seq![OperandV::IdRef(ptr_id), OperandV::IdRef(val_id)]);
            assert(instrs_view(code@) =~= pre + seq![lv, av, sv]);
            assert(instrs_view(code@) =~= gather_code(arr@, vars@, consts@, eptr, first as int, (i + 1) as nat));
        }
        i = i + 1;
    }
    code
}

/// `OpTypePointer class pointee`.
pub open spec fn pointer_decl(class: u32, pointee: u32) -> InstrV {
    type_decl(OP_TYPE_POINTER, seq![OperandV::StorageClass(class), OperandV::IdRef(pointee)])
}

/// `OpTypeInt 32 0`.
pub open spec fn uint_decl() -> InstrV {
    type_decl(OP_TYPE_INT, seq![OperandV::LiteralBit32(32), OperandV::LiteralBit32(0)])
}

/// The ids that splitting an array of `len` elements may take with `mains` entry
/// functions: at most four types, a variable and a constant per element, and two ids per
/// element for each entry function.
pub open spec fn split_ids(len: nat, mains: nat) -> int {
    (4 + 2 * len + 2 * len * mains) as int
}

/// The module and the next id after splitting `arr`: its elements' variables with their
/// decorations, the private pointer types, the index constants, the array demoted to the
/// private class with its access chains retyped and its interface decorations removed,
/// the entry points listing the element variables in its place, and the copies in each
/// entry function.
pub open spec fn split_result(m: ModuleV, next: u32, arr: ArrayIoVarV, io: u32) -> (ModuleV, int) {
    let len = arr.array_length as nat;
    let (p, g1, n1) = declared(m.types_global_values, next, pointer_decl(io, arr.element_type_id));
    let vars = id_range(n1, len);
    let g2 = g1 + element_var_decls(p, io, n1, len);
    let anns = m.annotations + element_var_annotations(arr, n1, len);
    let (pa, g3, n3) = declared(g2, (n1 + len) as u32, pointer_decl(STORAGE_CLASS_PRIVATE, arr.array_type_id));
    let (pe, g4, n4) = declared(g3, n3 as u32, pointer_decl(STORAGE_CLASS_PRIVATE, arr.element_type_id));
    let (u, g5, n5) = declared(g4, n4 as u32, uint_decl());
    let consts = id_range(n5, len);
    let g6 = g5 + index_constant_decls(u, n5, len);
    let eps = interfaces_replaced(m.entry_points, arr.var_id, vars);
    let (fs, n7) = inject_all(
        retype_functions(m.functions, arr.var_id, pe),
        entry_function_ids(eps),
        io,
        arr,
        vars,
        consts,
        pe,
        n5 + len,
    );
    (
        ModuleV {
            types_global_values: demote_first(g6, arr.var_id, pa),
            annotations: anns.filter(|a: InstrV| !strips(a, arr.var_id)),
            entry_points: eps,
            functions: fs,
            ..m
        },
        n7,
    )
}

/// A decoration giving `var` the location `loc`.
pub open spec fn location_decoration(var: u32, loc: u32) -> InstrV {
    InstrV {
        opcode: OP_DECORATE,
        result_type: None,
        result_id: None,
        operands: seq![OperandV::IdRef(var), OperandV::Decoration(DECORATION_LOCATION), OperandV::LiteralBit32(loc)],
    }
}

/// Among the decorations of the first `count` element variables is the location of each.
proof fn lemma_element_locations(arr: ArrayIoVarV, first: int, count: nat, k: int)
    requires
        0 <= k < count,
    ensures
        element_var_annotations(arr, first, count).contains(
            location_decoration((first + k) as u32, (arr.location + k) as u32),
        ),
    decreases count,
{
    let pre = element_var_annotations(arr, first, (count - 1) as nat);
    let last = element_decorations(arr, (first + count - 1) as u32, count - 1);
    assert(element_var_annotations(arr, first, count) == pre + last);
    if k == count - 1 {
        assert((pre + last)[pre.len() as int] == last[0]);
    } else {
        lemma_element_locations(arr, first, (count - 1) as nat, k);
        let j = choose|j: int| 0 <= j < pre.len() && pre[j] == location_decoration((first + k) as u32, (arr.location + k) as u32);
        assert((pre + last)[j] == pre[j]);
    }
}

/// Splitting an array variable gives its element `k` the location of the array plus `k`:
/// the element variables sit at consecutive locations from the array's.
pub proof fn law_split_elements_at_consecutive_locations(m: ModuleV, next: u32, arr: ArrayIoVarV, io: u32, k: int)
    requires
        arr.var_id < next,
        0 <= k < arr.array_length,
        next + 1 + arr.array_length <= u32::MAX,
    ensures
        split_result(m, next, arr, io).0.annotations.contains(location_decoration(
            (declared(m.types_global_values, next, pointer_decl(io, arr.element_type_id)).2 + k) as u32,
            (arr.location + k) as u32,
        )),
{
    broadcast use vstd::seq_lib::group_filter_ensures;
    let first = declared(m.types_global_values, next, pointer_decl(io, arr.element_type_id)).2;
    let len = arr.array_length as nat;
    let d = location_decoration((first + k) as u32, (arr.location + k) as u32);
    lemma_element_locations(arr, first, len, k);
    let extra = element_var_annotations(arr, first, len);
    let all = m.annotations + extra;
    let j = choose|j: int| 0 <= j < extra.len() && extra[j] == d;
    assert(all[m.annotations.len() + j] == d);
    assert(!strips(d, arr.var_id));
    all.lemma_filter_contains(|a: InstrV| !strips(a, arr.var_id), m.annotations.len() + j);
}

/// The copies take two ids per element for each entry function.
pub proof fn lemma_inject_all_ids(fs: Seq<FunctionV>, mains: Seq<u32>, io: u32, arr: ArrayIoVarV, vars: Seq<u32>, consts: Seq<u32>, eptr: u32, first: int)
    ensures
        inject_all(fs, mains, io, arr, vars, consts, eptr, first).1 <= first + 2 * arr.array_length * mains.len(),
        inject_all(fs, mains, io, arr, vars, consts, eptr, first).1 >= first,
    decreases mains.len(),
{
    if mains.len() > 0 {
        lemma_inject_all_ids(fs, mains.drop_last(), io, arr, vars, consts, eptr, first);
        let l = arr.array_length as int;
        let k = mains.len() as int;
        assert(2 * l * (k - 1) + 2 * l == 2 * l * k) by (nonlinear_arith);
    }
}

/// The globals with every variable moved after the other declarations, each group in
/// its order.
pub open spec fn variables_to_end(g: Seq<InstrV>) -> Seq<InstrV> {
    g.filter(|i: InstrV| i.opcode != OP_VARIABLE) + g.filter(|i: InstrV| i.opcode == OP_VARIABLE)
}

/// The module and the next id after splitting each of `arrs` in turn.
pub open spec fn split_all(m: ModuleV, next: u32, arrs: Seq<ArrayIoVarV>, io: u32) -> (ModuleV, int)
    decreases arrs.len(),
{
    if arrs.len() == 0 {
        (m, next as int)
    } else {
        let (m1, n1) = split_all(m, next, arrs.drop_last(), io);
        split_result(m1, n1 as u32, arrs.last(), io)
    }
}

/// The ids that splitting each of `arrs` may take with `mains` entry functions.
pub open spec fn split_budget(arrs: Seq<ArrayIoVarV>, mains: nat) -> int
    decreases arrs.len(),
{
    if arrs.len() == 0 {
        0
    } else {
        split_budget(arrs.drop_last(), mains) + split_ids(arrs.last().array_length as nat, mains)
    }
}

/// The module and the next id after the pass: every array variable of the interface
/// split, then the variables moved after the other declarations; unchanged when there is
/// none.
pub open spec fn split_pass_result(m: ModuleV, next: u32, io: u32) -> (ModuleV, int) {
    let arrs = array_io_vars(m, io);
    if arrs.len() == 0 {
        (m, next as int)
    } else {
        let (m1, n1) = split_all(m, next, arrs, io);
        (ModuleV { types_global_values: variables_to_end(m1.types_global_values), ..m1 }, n1)
    }
}

/// Whether the pass can run on `m` from the id `next`: the ids it takes fit, and the
/// locations of each array's elements fit in 32 bits.
pub open spec fn split_pass_fits(m: ModuleV, next: u32, io: u32) -> bool {
    let arrs = array_io_vars(m, io);
    &&& next + split_budget(arrs, entry_function_ids(m.entry_points).len()) <= u32::MAX
    &&& forall|i: int| 0 <= i < arrs.len() ==> #[trigger] arrs[i].location + arrs[i].array_length <= 0x1_0000_0000
}

/// Moves every variable after the other declarations, each group in its order.
fn put_variables_to_end(globals: &mut Vec<Instruction>)
    ensures
        instrs_view(final(globals)@) == variables_to_end(instrs_view(old(globals)@)),
{
    let ghost s = instrs_view(globals@);
    let mut source: Vec<Instruction> = Vec::new();
    std::mem::swap(&mut source, globals);
    let mut vars: Vec<Instruction> = Vec::new();
    let mut i: usize = 0;
    while i < source.len()
        invariant
            i <= source@.len(),
            s == instrs_view(source@),
            instrs_view(globals@) == s.take(i as int).filter(|x: InstrV| x.opcode != OP_VARIABLE),
            instrs_view(vars@) == s.take(i as int).filter(|x: InstrV| x.opcode == OP_VARIABLE),
        decreases source@.len() - i,
    {
        proof {
            reveal(Seq::filter);
            assert(s.take(i + 1).drop_last() =~= s.take(i as int));
            assert(s.take(i + 1).last() == source@[i as int]@);
        }
        if source[i].opcode == OP_VARIABLE {
            let ghost pre = instrs_view(vars@);
            vars.push(source[i].duplicate());
            assert(instrs_view(vars@) =~= pre.push(source@[i as int]@));
        } else {
            let ghost pre = instrs_view(globals@);
            globals.push(source[i].duplicate());
            assert(instrs_view(globals@) =~= pre.push(source@[i as int]@));
        }
        i = i + 1;
    }
    assert(s.take(i as int) =~= s);
    let ghost a = globals@;
    let ghost b = vars@;
    globals.append(&mut vars);
    assert(instrs_view(globals@) =~= instrs_view(a) + instrs_view(b));
}

/// A prefix of the arrays takes no more ids than all of them.
pub proof fn lemma_split_budget_prefix(arrs: Seq<ArrayIoVarV>, mains: nat, i: int)
    requires
        0 <= i <= arrs.len(),
    ensures
        split_budget(arrs.take(i), mains) <= split_budget(arrs, mains),
        i > 0 ==> split_budget(arrs.take(i), mains) == split_budget(arrs.take(i - 1), mains) + split_ids(arrs[i - 1].array_length as nat, mains),
    decreases arrs.len(),
{
    if i > 0 {
        assert(arrs.take(i).drop_last() =~= arrs.take(i - 1));
    }
    if i < arrs.len() {
        assert(arrs.drop_last().take(i) =~= arrs.take(i));
        lemma_split_budget_prefix(arrs.drop_last(), mains, i);
        assert(split_ids(arrs.last().array_length as nat, mains) >= 0) by (nonlinear_arith);
    } else {
        assert(arrs.take(i) =~= arrs);
    }
}

/// Splitting one array takes at most its share of ids.
pub proof fn lemma_split_result_ids(m: ModuleV, next: u32, arr: ArrayIoVarV, io: u32, mains: nat)
    requires
        entry_function_ids(m.entry_points).len() == mains,
    ensures
        split_result(m, next, arr, io).1 <= next + split_ids(arr.array_length as nat, mains),
{
    let len = arr.array_length as nat;
    let (p, g1, n1) = declared(m.types_global_values, next, pointer_decl(io, arr.element_type_id));
    let vars = id_range(n1, len);
    let eps = interfaces_replaced(m.entry_points, arr.var_id, vars);
    lemma_entry_ids_replaced(m.entry_points, arr.var_id, vars);
    let g2 = g1 + element_var_decls(p, io, n1, len);
    let (pa, g3, n3) = declared(g2, (n1 + len) as u32, pointer_decl(STORAGE_CLASS_PRIVATE, arr.array_type_id));
    let (pe, g4, n4) = declared(g3, n3 as u32, pointer_decl(STORAGE_CLASS_PRIVATE, arr.element_type_id));
    let (u, g5, n5) = declared(g4, n4 as u32, uint_decl());
    lemma_inject_all_ids(
        retype_functions(m.functions, arr.var_id, pe),
        entry_function_ids(eps),
        io,
        arr,
        vars,
        id_range(n5, len),
        pe,
        n5 + len,
    );
}

/// The decorations that an array variable of the interface inherits name a decoration.
pub proof fn lemma_array_io_vars_well_formed(m: ModuleV, s: Seq<InstrV>, io: u32, i: int)
    requires
        0 <= i < array_io_vars_in(m, s, io).len(),
    ensures
        well_formed_replicated(array_io_vars_in(m, s, io)[i]),
    decreases s.len(),
{
    if s.len() > 0 {
        let rest = array_io_vars_in(m, s.drop_last(), io);
        if i < rest.len() {
            lemma_array_io_vars_well_formed(m, s.drop_last(), io, i);
        } else {
            let v = array_io_vars_in(m, s, io)[i];
            assert forall|j: int| 0 <= j < v.replicated_decorations.len() implies decoration_of(#[trigger] v.replicated_decorations[j]) is Some by {
                m.annotations.lemma_filter_pred(|a: InstrV| replicates(a, v.var_id), j);
            }
        }
    }
}

/// Inserts `code` before the index `at` of the block `bi` of the function `fi`.
fn insert_into_block(functions: &mut Vec<Function>, fi: usize, bi: usize, at: usize, code: Vec<Instruction>)
    requires
        fi < old(functions)@.len(),
        bi < old(functions)@[fi as int].blocks@.len(),
        at <= old(functions)@[fi as int].blocks@[bi as int].instructions@.len(),
    ensures
        functions_view(final(functions)@) == functions_view(old(functions)@).update(
            fi as int,
            FunctionV {
                blocks: functions_view(old(functions)@)[fi as int].blocks.update(
                    bi as int,
                    BlockV {
                        instructions: inserted_at(
                            functions_view(old(functions)@)[fi as int].blocks[bi as int].instructions,
                            at as int,
                            instrs_view(code@),
                        ),
                        ..functions_view(old(functions)@)[fi as int].blocks[bi as int]
                    },
                ),
                ..functions_view(old(functions)@)[fi as int]
            },
        ),
{
    let ghost fs = functions_view(functions@);
    let ghost bs = fs[fi as int].blocks;
    insert_instructions(&mut functions[fi].blocks[bi].instructions, at, code);
    assert(functions_view(functions@)[fi as int].blocks =~= bs.update(bi as int, functions_view(functions@)[fi as int].blocks[bi as int]));
    assert(functions_view(functions@) =~= fs.update(fi as int, functions_view(functions@)[fi as int]));
}

impl SplitArrayIo {
    /// The pass over `builder`, for the variables of class `io_class`.
    pub fn new(builder: Builder, io_class: u32) -> (r: Self)
        requires
            io_class == STORAGE_CLASS_INPUT || io_class == STORAGE_CLASS_OUTPUT,
        ensures
            r.builder == builder,
            r.io_class == io_class,
    {
        SplitArrayIo { builder, io_class }
    }

    /// The finished module.
    pub fn into_builder(self) -> (r: Builder)
        ensures
            r == self.builder,
    {
        self.builder
    }

    /// The array variable that the global `g` is, if it is one of the interface.
    fn array_io_var_of(&self, g: &Instruction) -> (r: Option<ArrayIoVar>)
        ensures
            match r {
                Some(v) => array_io_var(self.builder.module@, g@, self.io_class) == Some(v@),
                None => array_io_var(self.builder.module@, g@, self.io_class) is None,
            },
    {
        let module = &self.builder.module;
        if g.opcode != OP_VARIABLE || g.operands.len() == 0 {
            return None;
        }
        assert(g@.operands[0] == g.operands@[0]@);
        let class_ok = match &g.operands[0] {
            Operand::StorageClass(c) => *c == self.io_class,
            _ => false,
        };
        if !class_ok {
            return None;
        }
        let var_id = match g.result_id {
            Some(v) => v,
            None => return None,
        };
        let ptr_type_id = match g.result_type {
            Some(t) => t,
            None => return None,
        };
        let ptr_type = match find_with_result(&module.types_global_values, ptr_type_id) {
            Some(p) => p,
            None => return None,
        };
        if ptr_type.opcode != OP_TYPE_POINTER || ptr_type.operands.len() < 2 {
            return None;
        }
        assert(ptr_type@.operands[1] == ptr_type.operands@[1]@);
        let pointee = match id_ref(&ptr_type.operands[1]) {
            Some(p) => p,
            None => return None,
        };
        let array_type = match find_with_result(&module.types_global_values, pointee) {
            Some(a) => a,
            None => return None,
        };
        if array_type.opcode != OP_TYPE_ARRAY || array_type.operands.len() < 2 {
            return None;
        }
        assert(array_type@.operands[0] == array_type.operands@[0]@);
        assert(array_type@.operands[1] == array_type.operands@[1]@);
        let element_type_id = match id_ref(&array_type.operands[0]) {
            Some(e) => e,
            None => return None,
        };
        let length_id = match id_ref(&array_type.operands[1]) {
            Some(l) => l,
            None => return None,
        };
        let array_length = match resolve_uint_constant(module, length_id) {
            Some(n) => n,
            None => return None,
        };
        if array_length == 0 {
            return None;
        }
        let (location, replicated_decorations) = scan_decorations(&module.annotations, var_id);
        let location = match location {
            Some(l) => l,
            None => return None,
        };
        Some(ArrayIoVar { var_id, array_type_id: pointee, element_type_id, array_length, location, replicated_decorations })
    }

    /// The array variables of the interface, in the order of the globals.
    pub fn collect_array_io_vars(&self) -> (r: Vec<ArrayIoVar>)
        ensures
            array_vars_view(r@) == array_io_vars(self.builder.module@, self.io_class),
    {
        let globals = &self.builder.module.types_global_values;
        let ghost s = instrs_view(globals@);
        let ghost m = self.builder.module@;
        let mut result: Vec<ArrayIoVar> = Vec::new();
        let mut i: usize = 0;
        while i < globals.len()
            invariant
                i <= globals@.len(),
                s == instrs_view(globals@),
                m == self.builder.module@,
                s == m.types_global_values,
                array_vars_view(result@) == array_io_vars_in(m, s.take(i as int), self.io_class),
            decreases globals@.len() - i,
        {
            proof {
                assert(s.take(i + 1).drop_last() =~= s.take(i as int));
                assert(s.take(i + 1).last() == globals@[i as int]@);
            }
            let ghost pre = array_vars_view(result@);
            match self.array_io_var_of(&globals[i]) {
                Some(v) => {
                    result.push(v);
                    assert(array_vars_view(result@) =~= pre.push(result@.last()@));
                },
                None => {},
            }
            i = i + 1;
        }
        assert(s.take(i as int) =~= s);
        result
    }
    /// Takes `2 * count` ids from the builder.
    fn reserve_id_pairs(&mut self, count: u32)
        requires
            old(self).builder.next_id + 2 * count <= u32::MAX,
        ensures
            final(self).builder.next_id == old(self).builder.next_id + 2 * count,
            final(self).builder.module@ == old(self).builder.module@,
            final(self).io_class == old(self).io_class,
    {
        let mut k: u32 = 0;
        while k < count
            invariant
                k <= count,
                old(self).builder.next_id + 2 * count <= u32::MAX,
                self.builder.next_id == old(self).builder.next_id + 2 * k,
                self.builder.module@ == old(self).builder.module@,
                self.io_class == old(self).io_class,
            decreases count - k,
        {
            self.builder.id();
            self.builder.id();
            k = k + 1;
        }
    }

    /// Copies each element of the array to its variable just before the first terminator
    /// of the first block that has one, in the first function that defines `main_id`.
    fn inject_scatter(&mut self, main_id: u32, arr: &ArrayIoVar, vars: &Vec<u32>, consts: &Vec<u32>, eptr: u32)
        requires
            old(self).builder.next_id + 2 * arr.array_length <= u32::MAX,
            vars@.len() == arr.array_length,
            consts@.len() == arr.array_length,
        ensures
            final(self).io_class == old(self).io_class,
            final(self).builder.next_id == old(self).builder.next_id + 2 * arr.array_length,
            final(self).builder.module@ == (ModuleV {
                functions: scatter(old(self).builder.module@.functions, main_id, arr@, vars@, consts@, eptr, old(self).builder.next_id as int),
                ..old(self).builder.module@
            }),
    {
        let first = self.builder.next_id;
        self.reserve_id_pairs(arr.array_length);
        let code = make_scatter_code(arr, vars, consts, eptr, first);
        let ghost m = self.builder.module@;
        let ghost fs = m.functions;
        let mut fi: usize = 0;
        while fi < self.builder.module.functions.len()
            invariant
                fi <= self.builder.module.functions@.len(),
                self.builder.module@ == m,
                fs == m.functions,
                self.io_class == old(self).io_class,
                self.builder.next_id == old(self).builder.next_id + 2 * arr.array_length,
                first == old(self).builder.next_id,
                m == old(self).builder.module@,
                instrs_view(code@) == scatter_code(arr@, vars@, consts@, eptr, first as int, arr.array_length as nat),
                def_index(fs, main_id, 0) == def_index(fs, main_id, fi as int),
            decreases self.builder.module.functions@.len() - fi,
        {
            assert(fs[fi as int] == self.builder.module.functions@[fi as int]@);
            if function_defines(&self.builder.module.functions[fi], main_id) {
                let ghost bs = fs[fi as int].blocks;
                assert(def_index(fs, main_id, 0) == Some(fi as int));
                let mut bi: usize = 0;
                while bi < self.builder.module.functions[fi].blocks.len()
                    invariant
                        fi < self.builder.module.functions@.len(),
                        bi <= self.builder.module.functions@[fi as int].blocks@.len(),
                        self.builder.module@ == m,
                        fs == m.functions,
                        self.io_class == old(self).io_class,
                        self.builder.next_id == old(self).builder.next_id + 2 * arr.array_length,
                        first == old(self).builder.next_id,
                        m == old(self).builder.module@,
                        instrs_view(code@) == scatter_code(arr@, vars@, consts@, eptr, first as int, arr.array_length as nat),
                        def_index(fs, main_id, 0) == Some(fi as int),
                        bs == fs[fi as int].blocks,
                        terminated_block_index(bs, 0) == terminated_block_index(bs, bi as int),
                    decreases self.builder.module.functions@[fi as int].blocks@.len() - bi,
                {
                    assert(bs[bi as int] == self.builder.module.functions@[fi as int].blocks@[bi as int]@);
                    match find_terminator(&self.builder.module.functions[fi].blocks[bi].instructions) {
                        Some(t) => {
                            let ghost blk = bs[bi as int];
                            let ghost cv = instrs_view(code@);
                            assert(def_index(fs, main_id, 0) == Some(fi as int));
                            assert(terminated_block_index(bs, 0) == Some(bi as int));
                            assert(terminator_index(bs[bi as int].instructions, 0) == Some(t as int));
                            assert(cv == scatter_code(arr@, vars@, consts@, eptr, first as int, arr.array_length as nat));
                            insert_into_block(&mut self.builder.module.functions, fi, bi, t, code);
                            assert(self.builder.module@.functions =~= scatter(fs, main_id, arr@, vars@, consts@, eptr, first as int));
                            assert(self.builder.module@ == (ModuleV { functions: scatter(fs, main_id, arr@, vars@, consts@, eptr, first as int), ..m }));
                            return;
                        },
                        None => {},
                    }
                    bi = bi + 1;
                }
                assert(self.builder.module@ == (ModuleV { functions: scatter(fs, main_id, arr@, vars@, consts@, eptr, first as int), ..m }));
                return;
            }
            fi = fi + 1;
        }
    }

    /// Copies each element variable into the array after the leading variables of the
    /// first block of the first function that defines `main_id` and has a block.
    fn inject_gather(&mut self, main_id: u32, arr: &ArrayIoVar, vars: &Vec<u32>, consts: &Vec<u32>, eptr: u32)
        requires
            old(self).builder.next_id + 2 * arr.array_length <= u32::MAX,
            vars@.len() == arr.array_length,
            consts@.len() == arr.array_length,
        ensures
            final(self).io_class == old(self).io_class,
            final(self).builder.next_id == old(self).builder.next_id + 2 * arr.array_length,
            final(self).builder.module@ == (ModuleV {
                functions: gather(old(self).builder.module@.functions, main_id, arr@, vars@, consts@, eptr, old(self).builder.next_id as int),
                ..old(self).builder.module@
            }),
    {
        let first = self.builder.next_id;
        self.reserve_id_pairs(arr.array_length);
        let code = make_gather_code(arr, vars, consts, eptr, first);
        let ghost m = self.builder.module@;
        let ghost fs = m.functions;
        let mut fi: usize = 0;
        while fi < self.builder.module.functions.len()
            invariant
                fi <= self.builder.module.functions@.len(),
                self.builder.module@ == m,
                fs == m.functions,
                self.io_class == old(self).io_class,
                self.builder.next_id == old(self).builder.next_id + 2 * arr.array_length,
                first == old(self).builder.next_id,
                m == old(self).builder.module@,
                instrs_view(code@) == gather_code(arr@, vars@, consts@, eptr, first as int, arr.array_length as nat),
                def_index_with_block(fs, main_id, 0) == def_index_with_block(fs, main_id, fi as int),
            decreases self.builder.module.functions@.len() - fi,
        {
            assert(fs[fi as int] == self.builder.module.functions@[fi as int]@);
            if function_defines(&self.builder.module.functions[fi], main_id) && self.builder.module.functions[fi].blocks.len() > 0 {
                let ghost bs = fs[fi as int].blocks;
                let ghost blk = bs[0];
                assert(blk == self.builder.module.functions@[fi as int].blocks@[0]@);
                let at = find_non_variable(&self.builder.module.functions[fi].blocks[0].instructions);
                let ghost cv = instrs_view(code@);
                assert(def_index_with_block(fs, main_id, 0) == Some(fi as int));
                assert(cv == gather_code(arr@, vars@, consts@, eptr, first as int, arr.array_length as nat));
                insert_into_block(&mut self.builder.module.functions, fi, 0, at, code);
                assert(self.builder.module@.functions =~= gather(fs, main_id, arr@, vars@, consts@, eptr, first as int));
                assert(self.builder.module@ == (ModuleV { functions: gather(fs, main_id, arr@, vars@, consts@, eptr, first as int), ..m }));
                return;
            }
            fi = fi + 1;
        }
    }
    /// Splits the array variable `arr` into one variable per element.
    pub fn split_one(&mut self, arr: &ArrayIoVar)
        requires
            old(self).builder.next_id + split_ids(arr.array_length as nat, entry_function_ids(old(self).builder.module@.entry_points).len()) <= u32::MAX,
            arr.location + arr.array_length <= 0x1_0000_0000,
            well_formed_replicated(arr@),
        ensures
            final(self).io_class == old(self).io_class,
            (final(self).builder.module@, final(self).builder.next_id as int)
                == split_result(old(self).builder.module@, old(self).builder.next_id, arr@, old(self).io_class),
    {
        let ghost m = self.builder.module@;
        let ghost next = self.builder.next_id;
        let ghost mains_len = entry_function_ids(m.entry_points).len();
        let ghost len = arr.array_length as nat;
        let io = self.io_class;
        let ghost b0 = self.builder;
        let scalar_io_ptr = self.builder.type_pointer(io, arr.element_type_id);
        proof {
            lemma_declares_type(b0, self.builder, pointer_decl(io, arr.element_type_id), scalar_io_ptr);
        }
        let ghost n1 = self.builder.next_id as int;
        let scalar_vars = add_element_vars(&mut self.builder, arr, scalar_io_ptr, io);
        let ghost b2 = self.builder;
        let private_array_ptr = self.builder.type_pointer(STORAGE_CLASS_PRIVATE, arr.array_type_id);
        proof {
            lemma_declares_type(b2, self.builder, pointer_decl(STORAGE_CLASS_PRIVATE, arr.array_type_id), private_array_ptr);
        }
        let ghost b3 = self.builder;
        let private_element_ptr = self.builder.type_pointer(STORAGE_CLASS_PRIVATE, arr.element_type_id);
        proof {
            lemma_declares_type(b3, self.builder, pointer_decl(STORAGE_CLASS_PRIVATE, arr.element_type_id), private_element_ptr);
        }
        let ghost b4 = self.builder;
        let uint_type = self.builder.type_int(32, 0);
        proof {
            lemma_declares_type(b4, self.builder, uint_decl(), uint_type);
        }
        let ghost n5 = self.builder.next_id as int;
        let index_constants = add_index_constants(&mut self.builder, uint_type, arr.array_length);
        let ghost g6 = self.builder.module@.types_global_values;
        demote_variable(&mut self.builder.module.types_global_values, arr.var_id, private_array_ptr);
        let ghost fs0 = self.builder.module@.functions;
        retype_access_chains(&mut self.builder.module.functions, arr.var_id, private_element_ptr);
        let ghost anns = self.builder.module@.annotations;
        strip_io_decorations(&mut self.builder.module.annotations, arr.var_id);
        replace_in_interfaces(&mut self.builder.module.entry_points, arr.var_id, &scalar_vars);
        let main_ids = entry_point_function_ids(&self.builder.module.entry_points);
        proof {
            lemma_entry_ids_replaced(m.entry_points, arr.var_id, scalar_vars@);
        }
        let ghost fs1 = self.builder.module@.functions;
        let ghost first = self.builder.next_id as int;
        let ghost mid = self.builder.module@;
        assert(first == n5 + len);
        assert(first + 2 * len * mains_len <= u32::MAX);
        let mut k: usize = 0;
        assert(main_ids@.take(0) =~= Seq::<u32>::empty());
        while k < main_ids.len()
            invariant
                k <= main_ids@.len(),
                main_ids@.len() == mains_len,
                first + 2 * len * mains_len <= u32::MAX,
                len == arr.array_length,
                io == self.io_class,
                self.io_class == old(self).io_class,
                scalar_vars@.len() == len,
                index_constants@.len() == len,
                self.builder.module@ == (ModuleV { functions: self.builder.module@.functions, ..mid }),
                (self.builder.module@.functions, self.builder.next_id as int) == inject_all(
                    fs1,
                    main_ids@.take(k as int),
                    io,
                    arr@,
                    scalar_vars@,
                    index_constants@,
                    private_element_ptr,
                    first,
                ),
            decreases main_ids@.len() - k,
        {
            proof {
                assert(main_ids@.take(k + 1).drop_last() =~= main_ids@.take(k as int));
                assert(main_ids@.take(k + 1).last() == main_ids@[k as int]);
                lemma_inject_all_ids(fs1, main_ids@.take(k as int), io, arr@, scalar_vars@, index_constants@, private_element_ptr, first);
                let l = len as int;
                let kk = k as int;
                let ml = mains_len as int;
                assert(2 * l * kk + 2 * l <= 2 * l * ml) by (nonlinear_arith)
                    requires
                        kk + 1 <= ml,
                        l >= 0,
                ;
            }
            if io == STORAGE_CLASS_OUTPUT {
                self.inject_scatter(main_ids[k], arr, &scalar_vars, &index_constants, private_element_ptr);
            } else if io == STORAGE_CLASS_INPUT {
                self.inject_gather(main_ids[k], arr, &scalar_vars, &index_constants, private_element_ptr);
            }
            k = k + 1;
        }
        proof {
            assert(main_ids@.take(k as int) =~= main_ids@);
            let r = split_result(m, next, arr@, io);
            assert(self.builder.module@.types_global_values == r.0.types_global_values);
            assert(self.builder.module@.annotations == r.0.annotations);
            assert(self.builder.module@.entry_points == r.0.entry_points);
            assert(self.builder.module@.functions == r.0.functions);
        }
    }

    /// Runs the pass: splits every array variable of the interface, then moves the
    /// variables after the other declarations so that each follows its pointer type.
    pub fn do_pass(&mut self)
        requires
            split_pass_fits(old(self).builder.module@, old(self).builder.next_id, old(self).io_class),
        ensures
            final(self).io_class == old(self).io_class,
            (final(self).builder.module@, final(self).builder.next_id as int)
                == split_pass_result(old(self).builder.module@, old(self).builder.next_id, old(self).io_class),
    {
        let ghost m = self.builder.module@;
        let ghost next = self.builder.next_id;
        let ghost io = self.io_class;
        let ghost mains_len = entry_function_ids(m.entry_points).len();
        let arrays = self.collect_array_io_vars();
        let ghost arrs = array_io_vars(m, io);
        if arrays.len() == 0 {
            return;
        }
        let mut i: usize = 0;
        while i < arrays.len()
            invariant
                i <= arrays@.len(),
                array_vars_view(arrays@) == arrs,
                arrs == array_io_vars(m, io),
                io == self.io_class,
                self.io_class == old(self).io_class,
                split_pass_fits(m, next, io),
                mains_len == entry_function_ids(m.entry_points).len(),
                entry_function_ids(self.builder.module@.entry_points).len() == mains_len,
                (self.builder.module@, self.builder.next_id as int) == split_all(m, next, arrs.take(i as int), io),
                self.builder.next_id <= next + split_budget(arrs.take(i as int), mains_len),
            decreases arrays@.len() - i,
        {
            proof {
                assert(arrs.take(i + 1).drop_last() =~= arrs.take(i as int));
                assert(arrs.take(i + 1).last() == arrs[i as int]);
                assert(arrs[i as int] == arrays@[i as int]@);
                lemma_split_budget_prefix(arrs, mains_len, i + 1);
                lemma_array_io_vars_well_formed(m, m.types_global_values, io, i as int);
                assert(arrs[i as int].location + arrs[i as int].array_length <= 0x1_0000_0000);
            }
            let ghost before = self.builder.module@;
            self.split_one(&arrays[i]);
            proof {
                lemma_entry_ids_replaced(before.entry_points, arrs[i as int].var_id, id_range(
                    declared(before.types_global_values, split_all(m, next, arrs.take(i as int), io).1 as u32, pointer_decl(io, arrs[i as int].element_type_id)).2,
                    arrs[i as int].array_length as nat,
                ));
                lemma_split_result_ids(before, split_all(m, next, arrs.take(i as int), io).1 as u32, arrs[i as int], io, mains_len);
            }
            i = i + 1;
        }
        assert(arrs.take(i as int) =~= arrs);
        put_variables_to_end(&mut self.builder.module.types_global_values);
    }
}

} // verus!
