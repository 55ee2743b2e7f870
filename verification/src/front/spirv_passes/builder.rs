use crate::front::spirv_passes::module::{
    instrs_view, InstrV, Instruction, Module, ModuleHeader, ModuleV, Operand, OperandV,
    OP_CONSTANT, OP_CONSTANT_COMPOSITE, OP_DECORATE, OP_TYPE_FLOAT, OP_TYPE_INT, OP_TYPE_POINTER,
    OP_VARIABLE,
};
use vstd::prelude::*;

verus! {

/// A module under construction, with the next unused id.
#[derive(Debug)]
pub struct Builder {
    pub module: Module,
    pub next_id: u32,
}

/// The id of the first type declaration in `globals` identical to `inst`
/// (same opcode and operands) that has a result id.
pub open spec fn first_identical_type(globals: Seq<InstrV>, inst: InstrV) -> Option<u32>
    decreases globals.len(),
{
    if globals.len() == 0 {
        None
    } else {
        let g = globals[0];
        if g.opcode == inst.opcode && g.operands == inst.operands && g.result_id is Some {
            g.result_id
        } else {
            first_identical_type(globals.drop_first(), inst)
        }
    }
}

/// Every section of `m2` but the types and global values is that of `m1`.
pub open spec fn same_but_globals(m1: ModuleV, m2: ModuleV) -> bool {
    &&& m2.header == m1.header
    &&& m2.capabilities == m1.capabilities
    &&& m2.extensions == m1.extensions
    &&& m2.ext_inst_imports == m1.ext_inst_imports
    &&& m2.memory_model == m1.memory_model
    &&& m2.entry_points == m1.entry_points
    &&& m2.execution_modes == m1.execution_modes
    &&& m2.debug_string_source == m1.debug_string_source
    &&& m2.debug_names == m1.debug_names
    &&& m2.debug_module_processed == m1.debug_module_processed
    &&& m2.annotations == m1.annotations
    &&& m2.functions == m1.functions
}

/// A type declaration: its opcode, no result type, and the given operands.
pub open spec fn type_decl(opcode: u32, operands: Seq<OperandV>) -> InstrV {
    InstrV { opcode, result_type: None, result_id: None, operands }
}

/// What declaring a type does: an identical declaration is reused; otherwise one is
/// appended with the next id.
pub open spec fn declares_type(old: Builder, new: Builder, decl: InstrV, r: u32) -> bool {
    match first_identical_type(old.module@.types_global_values, decl) {
        Some(id) => r == id && new.next_id == old.next_id && new.module@ == old.module@,
        None => {
            &&& r == old.next_id
            &&& new.next_id == old.next_id + 1
            &&& same_but_globals(old.module@, new.module@)
            &&& new.module@.types_global_values == old.module@.types_global_values.push(
                InstrV { result_id: Some(r), ..decl },
            )
        },
    }
}

impl Builder {
    /// A builder that continues the module, allocating ids from its bound.
    pub fn new_from_module(module: Module) -> (r: Builder)
        requires
            module.header is Some,
        ensures
            r.module@ == module@,
            r.next_id == module.header->Some_0.bound,
            r.module == module,
    {
        let next_id = match &module.header {
            Some(h) => h.bound,
            None => 0,
        };
        Builder { module, next_id }
    }

    /// The finished module, whose header's bound is the next unused id.
    pub fn module(self) -> (r: Module)
        requires
            self.module.header is Some,
        ensures
            r.header == Some(ModuleHeader { bound: self.next_id, ..self.module.header->Some_0 }),
            same_but_header(r@, self.module@),
    {
        let mut module = self.module;
        let h = match &module.header {
            Some(h) => ModuleHeader { bound: self.next_id, ..*h },
            None => ModuleHeader { magic_number: 0, version: 0, generator: 0, bound: self.next_id, reserved_word: 0 },
        };
        module.header = Some(h);
        module
    }

    /// Returns the next unused id.
    pub fn id(&mut self) -> (r: u32)
        requires
            old(self).next_id < u32::MAX,
        ensures
            r == old(self).next_id,
            final(self).next_id == old(self).next_id + 1,
            final(self).module@ == old(self).module@,
    {
        let id = self.next_id;
        self.next_id = self.next_id + 1;
        id
    }

    /// The id of the first type declaration identical to `inst`, if any.
    pub fn dedup_insert_type(&self, inst: &Instruction) -> (r: Option<u32>)
        ensures
            r == first_identical_type(self.module@.types_global_values, inst@),
    {
        let globals = &self.module.types_global_values;
        let mut i: usize = 0;
        assert(instrs_view(globals@).skip(0) =~= instrs_view(globals@));
        while i < globals.len()
            invariant
                i <= globals@.len(),
                instrs_view(globals@) == self.module@.types_global_values,
                first_identical_type(instrs_view(globals@), inst@)
                    == first_identical_type(instrs_view(globals@).skip(i as int), inst@),
            decreases globals@.len() - i,
        {
            let ghost rest = instrs_view(globals@).skip(i as int);
            assert(rest.len() > 0);
            assert(rest[0] == globals@[i as int]@);
            assert(rest.drop_first() =~= instrs_view(globals@).skip(i + 1));
            if globals[i].is_type_identical(inst) {
                if let Some(id) = globals[i].result_id {
                    assert(rest[0].opcode == inst@.opcode && rest[0].operands == inst@.operands);
                    assert(first_identical_type(rest, inst@) == Some(id));
                    return Some(id);
                }
            }
            i = i + 1;
        }
        assert(instrs_view(globals@).skip(i as int).len() == 0);
        None
    }

    /// Appends a type declaration, or reuses an identical one.
    fn declare_type(&mut self, mut inst: Instruction) -> (r: u32)
        requires
            old(self).next_id < u32::MAX,
            inst.result_id is None,
            inst.result_type is None,
        ensures
            declares_type(*old(self), *final(self), inst@, r),
    {
        if let Some(id) = self.dedup_insert_type(&inst) {
            return id;
        }
        let new_id = self.id();
        inst.result_id = Some(new_id);
        self.module.types_global_values.push(inst);
        assert(instrs_view(self.module.types_global_values@) =~= instrs_view(old(self).module.types_global_values@).push(inst@));
        new_id
    }

    /// Declares (or reuses) `OpTypePointer storage_class pointee`.
    pub fn type_pointer(&mut self, storage_class: u32, pointee: u32) -> (r: u32)
        requires
            old(self).next_id < u32::MAX,
        ensures
            declares_type(*old(self), *final(self), type_decl(OP_TYPE_POINTER, seq![OperandV::StorageClass(storage_class), OperandV::IdRef(pointee)]), r),
    {
        let inst = Instruction::new(OP_TYPE_POINTER, None, None, vec![Operand::StorageClass(storage_class), Operand::IdRef(pointee)]);
        assert(inst@.operands =~= seq![OperandV::StorageClass(storage_class), OperandV::IdRef(pointee)]);
        self.declare_type(inst)
    }

    /// Declares (or reuses) `OpTypeInt width signedness`.
    pub fn type_int(&mut self, width: u32, signedness: u32) -> (r: u32)
        requires
            old(self).next_id < u32::MAX,
        ensures
            declares_type(*old(self), *final(self), type_decl(OP_TYPE_INT, seq![OperandV::LiteralBit32(width), OperandV::LiteralBit32(signedness)]), r),
    {
        let inst = Instruction::new(OP_TYPE_INT, None, None, vec![Operand::LiteralBit32(width), Operand::LiteralBit32(signedness)]);
        assert(inst@.operands =~= seq![OperandV::LiteralBit32(width), OperandV::LiteralBit32(signedness)]);
        self.declare_type(inst)
    }

    /// Declares (or reuses) `OpTypeFloat width`.
    pub fn type_float(&mut self, width: u32) -> (r: u32)
        requires
            old(self).next_id < u32::MAX,
        ensures
            declares_type(*old(self), *final(self), type_decl(OP_TYPE_FLOAT, seq![OperandV::LiteralBit32(width)]), r),
    {
        let inst = Instruction::new(OP_TYPE_FLOAT, None, None, vec![Operand::LiteralBit32(width)]);
        assert(inst@.operands =~= seq![OperandV::LiteralBit32(width)]);
        self.declare_type(inst)
    }

    /// Appends `OpConstant result_type value` with the next id.
    pub fn constant_bit32(&mut self, result_type: u32, value: u32) -> (r: u32)
        requires
            old(self).next_id < u32::MAX,
        ensures
            r == old(self).next_id,
            final(self).next_id == old(self).next_id + 1,
            same_but_globals(old(self).module@, final(self).module@),
            final(self).module@.types_global_values == old(self).module@.types_global_values.push(
                InstrV { opcode: OP_CONSTANT, result_type: Some(result_type), result_id: Some(r), operands: seq![OperandV::LiteralBit32(value)] },
            ),
    {
        let id = self.id();
        let inst = Instruction::new(OP_CONSTANT, Some(result_type), Some(id), vec![Operand::LiteralBit32(value)]);
        assert(inst@.operands =~= seq![OperandV::LiteralBit32(value)]);
        self.module.types_global_values.push(inst);
        assert(instrs_view(self.module.types_global_values@) =~= instrs_view(old(self).module.types_global_values@).push(inst@));
        id
    }

    /// Appends `OpConstantComposite result_type constituents...` with the next id.
    pub fn constant_composite(&mut self, result_type: u32, constituents: &Vec<u32>) -> (r: u32)
        requires
            old(self).next_id < u32::MAX,
        ensures
            r == old(self).next_id,
            final(self).next_id == old(self).next_id + 1,
            same_but_globals(old(self).module@, final(self).module@),
            final(self).module@.types_global_values == old(self).module@.types_global_values.push(
                InstrV {
                    opcode: OP_CONSTANT_COMPOSITE,
                    result_type: Some(result_type),
                    result_id: Some(r),
                    operands: constituents@.map_values(|c: u32| OperandV::IdRef(c)),
                },
            ),
    {
        let id = self.id();
        let mut operands: Vec<Operand> = Vec::new();
        let mut i: usize = 0;
        while i < constituents.len()
            invariant
                i <= constituents@.len(),
                operands@.len() == i,
                forall|j: int| 0 <= j < i ==> #[trigger] operands@[j]@ == OperandV::IdRef(constituents@[j]),
            decreases constituents@.len() - i,
        {
            operands.push(Operand::IdRef(constituents[i]));
            i = i + 1;
        }
        let inst = Instruction::new(OP_CONSTANT_COMPOSITE, Some(result_type), Some(id), operands);
        assert(inst@.operands =~= constituents@.map_values(|c: u32| OperandV::IdRef(c)));
        self.module.types_global_values.push(inst);
        assert(instrs_view(self.module.types_global_values@) =~= instrs_view(old(self).module.types_global_values@).push(inst@));
        id
    }

    /// Appends a global `OpVariable result_type storage_class` with the next id.
    pub fn variable(&mut self, result_type: u32, storage_class: u32) -> (r: u32)
        requires
            old(self).next_id < u32::MAX,
        ensures
            r == old(self).next_id,
            final(self).next_id == old(self).next_id + 1,
            same_but_globals(old(self).module@, final(self).module@),
            final(self).module@.types_global_values == old(self).module@.types_global_values.push(
                InstrV { opcode: OP_VARIABLE, result_type: Some(result_type), result_id: Some(r), operands: seq![OperandV::StorageClass(storage_class)] },
            ),
    {
        let id = self.id();
        let inst = Instruction::new(OP_VARIABLE, Some(result_type), Some(id), vec![Operand::StorageClass(storage_class)]);
        assert(inst@.operands =~= seq![OperandV::StorageClass(storage_class)]);
        self.module.types_global_values.push(inst);
        assert(instrs_view(self.module.types_global_values@) =~= instrs_view(old(self).module.types_global_values@).push(inst@));
        id
    }

    /// Appends `OpDecorate target decoration params...` to the annotations.
    pub fn decorate(&mut self, target: u32, decoration: u32, params: Vec<Operand>)
        ensures
            final(self).next_id == old(self).next_id,
            final(self).module@.annotations == old(self).module@.annotations.push(
                InstrV {
                    opcode: OP_DECORATE,
                    result_type: None,
                    result_id: None,
                    operands: seq![OperandV::IdRef(target), OperandV::Decoration(decoration)] + crate::front::spirv_passes::module::operands_view(params@),
                },
            ),
            same_but_annotations(old(self).module@, final(self).module@),
    {
        let mut operands = vec![Operand::IdRef(target), Operand::Decoration(decoration)];
        let ghost head = operands@;
        let ghost pv = params@;
        let mut params = params;
        operands.append(&mut params);
        assert(operands@ =~= head + pv);
        let inst = Instruction::new(OP_DECORATE, None, None, operands);
        assert(inst@.operands =~= seq![OperandV::IdRef(target), OperandV::Decoration(decoration)] + crate::front::spirv_passes::module::operands_view(pv));
        self.module.annotations.push(inst);
        assert(instrs_view(self.module.annotations@) =~= instrs_view(old(self).module.annotations@).push(inst@));
    }
}

/// Every section of `m2` but the header is that of `m1`.
pub open spec fn same_but_header(m1: ModuleV, m2: ModuleV) -> bool {
    &&& m2.capabilities == m1.capabilities
    &&& m2.extensions == m1.extensions
    &&& m2.ext_inst_imports == m1.ext_inst_imports
    &&& m2.memory_model == m1.memory_model
    &&& m2.entry_points == m1.entry_points
    &&& m2.execution_modes == m1.execution_modes
    &&& m2.debug_string_source == m1.debug_string_source
    &&& m2.debug_names == m1.debug_names
    &&& m2.debug_module_processed == m1.debug_module_processed
    &&& m2.annotations == m1.annotations
    &&& m2.types_global_values == m1.types_global_values
    &&& m2.functions == m1.functions
}

/// Every section of `m2` but the annotations is that of `m1`.
pub open spec fn same_but_annotations(m1: ModuleV, m2: ModuleV) -> bool {
    &&& m2.header == m1.header
    &&& m2.capabilities == m1.capabilities
    &&& m2.extensions == m1.extensions
    &&& m2.ext_inst_imports == m1.ext_inst_imports
    &&& m2.memory_model == m1.memory_model
    &&& m2.entry_points == m1.entry_points
    &&& m2.execution_modes == m1.execution_modes
    &&& m2.debug_string_source == m1.debug_string_source
    &&& m2.debug_names == m1.debug_names
    &&& m2.debug_module_processed == m1.debug_module_processed
    &&& m2.types_global_values == m1.types_global_values
    &&& m2.functions == m1.functions
}

/// Every section of `m2` but the functions is that of `m1`.
pub open spec fn same_but_functions(m1: ModuleV, m2: ModuleV) -> bool {
    &&& m2.header == m1.header
    &&& m2.capabilities == m1.capabilities
    &&& m2.extensions == m1.extensions
    &&& m2.ext_inst_imports == m1.ext_inst_imports
    &&& m2.memory_model == m1.memory_model
    &&& m2.entry_points == m1.entry_points
    &&& m2.execution_modes == m1.execution_modes
    &&& m2.debug_string_source == m1.debug_string_source
    &&& m2.debug_names == m1.debug_names
    &&& m2.debug_module_processed == m1.debug_module_processed
    &&& m2.annotations == m1.annotations
    &&& m2.types_global_values == m1.types_global_values
}

/// The id of the type declaration `decl` in the globals `g`, with the globals and the
/// next id after declaring it: an identical declaration is reused, else `decl` is
/// appended with the id `next`.
pub open spec fn declared(g: Seq<InstrV>, next: u32, decl: InstrV) -> (u32, Seq<InstrV>, int) {
    match first_identical_type(g, decl) {
        Some(id) => (id, g, next as int),
        None => (next, g.push(InstrV { result_id: Some(next), ..decl }), next + 1),
    }
}

/// Declaring a type, stated as the new globals and next id.
pub proof fn lemma_declares_type(old: Builder, new: Builder, decl: InstrV, r: u32)
    requires
        declares_type(old, new, decl, r),
    ensures
        r == declared(old.module@.types_global_values, old.next_id, decl).0,
        new.module@ == (ModuleV { types_global_values: declared(old.module@.types_global_values, old.next_id, decl).1, ..old.module@ }),
        new.next_id == declared(old.module@.types_global_values, old.next_id, decl).2,
{
}

} // verus!
