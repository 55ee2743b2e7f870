use vstd::prelude::*;

verus! {

// Opcodes, storage classes, decorations and image operand bits, by their SPIR-V numbers.
pub const OP_EXT_INST_IMPORT: u32 = 11;
pub const OP_EXT_INST: u32 = 12;
pub const OP_TYPE_INT: u32 = 21;
pub const OP_TYPE_FLOAT: u32 = 22;
pub const OP_TYPE_VECTOR: u32 = 23;
pub const OP_TYPE_ARRAY: u32 = 28;
pub const OP_TYPE_POINTER: u32 = 32;
pub const OP_CONSTANT: u32 = 43;
pub const OP_CONSTANT_COMPOSITE: u32 = 44;
pub const OP_VARIABLE: u32 = 59;
pub const OP_LOAD: u32 = 61;
pub const OP_STORE: u32 = 62;
pub const OP_ACCESS_CHAIN: u32 = 65;
pub const OP_IN_BOUNDS_ACCESS_CHAIN: u32 = 66;
pub const OP_PTR_ACCESS_CHAIN: u32 = 67;
pub const OP_IN_BOUNDS_PTR_ACCESS_CHAIN: u32 = 70;
pub const OP_DECORATE: u32 = 71;
pub const OP_COPY_OBJECT: u32 = 83;
pub const OP_IMAGE_SAMPLE_IMPLICIT_LOD: u32 = 87;
pub const OP_IMAGE_SAMPLE_EXPLICIT_LOD: u32 = 88;
pub const OP_F_ADD: u32 = 129;
pub const OP_PHI: u32 = 245;
pub const OP_LOOP_MERGE: u32 = 246;
pub const OP_LABEL: u32 = 248;
pub const OP_BRANCH: u32 = 249;
pub const OP_BRANCH_CONDITIONAL: u32 = 250;
pub const OP_SWITCH: u32 = 251;
pub const OP_KILL: u32 = 252;
pub const OP_RETURN: u32 = 253;
pub const OP_RETURN_VALUE: u32 = 254;
pub const OP_UNREACHABLE: u32 = 255;
pub const OP_IMAGE_SPARSE_SAMPLE_IMPLICIT_LOD: u32 = 305;
pub const OP_IMAGE_SPARSE_SAMPLE_EXPLICIT_LOD: u32 = 306;

pub const STORAGE_CLASS_INPUT: u32 = 1;
pub const STORAGE_CLASS_OUTPUT: u32 = 3;
pub const STORAGE_CLASS_PRIVATE: u32 = 6;

pub const DECORATION_NO_PERSPECTIVE: u32 = 13;
pub const DECORATION_FLAT: u32 = 14;
pub const DECORATION_PATCH: u32 = 15;
pub const DECORATION_CENTROID: u32 = 16;
pub const DECORATION_SAMPLE: u32 = 17;
pub const DECORATION_INVARIANT: u32 = 18;
pub const DECORATION_STREAM: u32 = 29;
pub const DECORATION_LOCATION: u32 = 30;
pub const DECORATION_COMPONENT: u32 = 31;
pub const DECORATION_INDEX: u32 = 32;
pub const DECORATION_XFB_BUFFER: u32 = 36;
pub const DECORATION_XFB_STRIDE: u32 = 37;

pub const IMAGE_OPERANDS_BIAS: u32 = 1;
pub const IMAGE_OPERANDS_LOD: u32 = 2;
pub const IMAGE_OPERANDS_GRAD: u32 = 4;

/// The `Normalize` instruction of the `GLSL.std.450` set.
pub const GLSL_NORMALIZE: u32 = 69;

/// An operand of a SPIR-V instruction.
#[derive(Debug)]
pub enum Operand {
    IdRef(u32),
    IdScope(u32),
    IdMemorySemantics(u32),
    LiteralBit32(u32),
    LiteralBit64(u64),
    LiteralExtInstInteger(u32),
    LiteralString(String),
    StorageClass(u32),
    Decoration(u32),
    ImageOperands(u32),
    /// An operand of another kind: the kind's number and the operand's value.
    Enumerant { kind: u32, value: u32 },
}

/// The value of an operand, with strings as their characters.
pub enum OperandV {
    IdRef(u32),
    IdScope(u32),
    IdMemorySemantics(u32),
    LiteralBit32(u32),
    LiteralBit64(u64),
    LiteralExtInstInteger(u32),
    LiteralString(Seq<char>),
    StorageClass(u32),
    Decoration(u32),
    ImageOperands(u32),
    Enumerant { kind: u32, value: u32 },
}

impl View for Operand {
    type V = OperandV;

    open spec fn view(&self) -> OperandV {
        match self {
            Operand::IdRef(v) => OperandV::IdRef(*v),
            Operand::IdScope(v) => OperandV::IdScope(*v),
            Operand::IdMemorySemantics(v) => OperandV::IdMemorySemantics(*v),
            Operand::LiteralBit32(v) => OperandV::LiteralBit32(*v),
            Operand::LiteralBit64(v) => OperandV::LiteralBit64(*v),
            Operand::LiteralExtInstInteger(v) => OperandV::LiteralExtInstInteger(*v),
            Operand::LiteralString(s) => OperandV::LiteralString(s@),
            Operand::StorageClass(v) => OperandV::StorageClass(*v),
            Operand::Decoration(v) => OperandV::Decoration(*v),
            Operand::ImageOperands(v) => OperandV::ImageOperands(*v),
            Operand::Enumerant { kind, value } => OperandV::Enumerant { kind: *kind, value: *value },
        }
    }
}

impl OperandV {
    /// The id this operand refers to, if it refers to one.
    pub open spec fn id_ref_any(self) -> Option<u32> {
        match self {
            OperandV::IdRef(v) => Some(v),
            OperandV::IdScope(v) => Some(v),
            OperandV::IdMemorySemantics(v) => Some(v),
            _ => None,
        }
    }
}

impl Operand {
    /// The id this operand refers to, if it refers to one.
    pub fn id_ref_any(&self) -> (r: Option<u32>)
        ensures
            r == self@.id_ref_any(),
    {
        match self {
            Operand::IdRef(v) => Some(*v),
            Operand::IdScope(v) => Some(*v),
            Operand::IdMemorySemantics(v) => Some(*v),
            _ => None,
        }
    }

    /// A copy of this operand.
    pub fn duplicate(&self) -> (r: Operand)
        ensures
            r@ == self@,
    {
        match self {
            Operand::IdRef(v) => Operand::IdRef(*v),
            Operand::IdScope(v) => Operand::IdScope(*v),
            Operand::IdMemorySemantics(v) => Operand::IdMemorySemantics(*v),
            Operand::LiteralBit32(v) => Operand::LiteralBit32(*v),
            Operand::LiteralBit64(v) => Operand::LiteralBit64(*v),
            Operand::LiteralExtInstInteger(v) => Operand::LiteralExtInstInteger(*v),
            Operand::LiteralString(s) => Operand::LiteralString(s.clone()),
            Operand::StorageClass(v) => Operand::StorageClass(*v),
            Operand::Decoration(v) => Operand::Decoration(*v),
            Operand::ImageOperands(v) => Operand::ImageOperands(*v),
            Operand::Enumerant { kind, value } => Operand::Enumerant { kind: *kind, value: *value },
        }
    }

    /// Whether the two operands are equal.
    pub fn same(&self, other: &Operand) -> (r: bool)
        ensures
            r == (self@ == other@),
    {
        match (self, other) {
            (Operand::IdRef(a), Operand::IdRef(b)) => *a == *b,
            (Operand::IdScope(a), Operand::IdScope(b)) => *a == *b,
            (Operand::IdMemorySemantics(a), Operand::IdMemorySemantics(b)) => *a == *b,
            (Operand::LiteralBit32(a), Operand::LiteralBit32(b)) => *a == *b,
            (Operand::LiteralBit64(a), Operand::LiteralBit64(b)) => *a == *b,
            (Operand::LiteralExtInstInteger(a), Operand::LiteralExtInstInteger(b)) => *a == *b,
            (Operand::LiteralString(a), Operand::LiteralString(b)) => *a == *b,
            (Operand::StorageClass(a), Operand::StorageClass(b)) => *a == *b,
            (Operand::Decoration(a), Operand::Decoration(b)) => *a == *b,
            (Operand::ImageOperands(a), Operand::ImageOperands(b)) => *a == *b,
            (Operand::Enumerant { kind: k1, value: v1 }, Operand::Enumerant { kind: k2, value: v2 }) => *k1 == *k2 && *v1 == *v2,
            _ => false,
        }
    }
}

/// The views of a sequence of operands.
pub open spec fn operands_view(s: Seq<Operand>) -> Seq<OperandV> {
    s.map_values(|o: Operand| o@)
}

/// A copy of a list of operands.
pub fn duplicate_operands(v: &Vec<Operand>) -> (r: Vec<Operand>)
    ensures
        operands_view(r@) == operands_view(v@),
{
    let mut r: Vec<Operand> = Vec::new();
    let mut i: usize = 0;
    while i < v.len()
        invariant
            i <= v@.len(),
            r@.len() == i,
            forall|j: int| 0 <= j < i ==> #[trigger] r@[j]@ == v@[j]@,
        decreases v@.len() - i,
    {
        r.push(v[i].duplicate());
        i = i + 1;
    }
    assert(operands_view(r@) =~= operands_view(v@));
    r
}

/// Whether two lists of operands are equal.
pub fn same_operands(a: &Vec<Operand>, b: &Vec<Operand>) -> (r: bool)
    ensures
        r == (operands_view(a@) == operands_view(b@)),
{
    if a.len() != b.len() {
        assert(operands_view(a@).len() != operands_view(b@).len());
        return false;
    }
    let mut i: usize = 0;
    while i < a.len()
        invariant
            a@.len() == b@.len(),
            i <= a@.len(),
            forall|j: int| 0 <= j < i ==> a@[j]@ == b@[j]@,
        decreases a@.len() - i,
    {
        if !a[i].same(&b[i]) {
            assert(operands_view(a@)[i as int] != operands_view(b@)[i as int]);
            return false;
        }
        i = i + 1;
    }
    assert(operands_view(a@) =~= operands_view(b@));
    true
}

/// A SPIR-V instruction.
#[derive(Debug)]
pub struct Instruction {
    pub opcode: u32,
    pub result_type: Option<u32>,
    pub result_id: Option<u32>,
    pub operands: Vec<Operand>,
}

/// The value of an instruction.
pub struct InstrV {
    pub opcode: u32,
    pub result_type: Option<u32>,
    pub result_id: Option<u32>,
    pub operands: Seq<OperandV>,
}

impl View for Instruction {
    type V = InstrV;

    open spec fn view(&self) -> InstrV {
        InstrV {
            opcode: self.opcode,
            result_type: self.result_type,
            result_id: self.result_id,
            operands: operands_view(self.operands@),
        }
    }
}

impl Instruction {
    /// An instruction from its parts.
    pub fn new(opcode: u32, result_type: Option<u32>, result_id: Option<u32>, operands: Vec<Operand>) -> (r: Instruction)
        ensures
            r.opcode == opcode,
            r.result_type == result_type,
            r.result_id == result_id,
            r.operands@ == operands@,
    {
        Instruction { opcode, result_type, result_id, operands }
    }

    /// A copy of this instruction.
    pub fn duplicate(&self) -> (r: Instruction)
        ensures
            r@ == self@,
    {
        Instruction {
            opcode: self.opcode,
            result_type: self.result_type,
            result_id: self.result_id,
            operands: duplicate_operands(&self.operands),
        }
    }

    /// Whether both have the same opcode and operands: the identity of type declarations.
    pub fn is_type_identical(&self, other: &Instruction) -> (r: bool)
        ensures
            r == (self.opcode == other.opcode && self@.operands == other@.operands),
    {
        self.opcode == other.opcode && same_operands(&self.operands, &other.operands)
    }
}

/// The views of a sequence of instructions.
pub open spec fn instrs_view(s: Seq<Instruction>) -> Seq<InstrV> {
    s.map_values(|i: Instruction| i@)
}

/// The view of an optional instruction.
pub open spec fn opt_instr_view(i: Option<Instruction>) -> Option<InstrV> {
    match i {
        Some(i) => Some(i@),
        None => None,
    }
}

/// A basic block: a label and its instructions.
#[derive(Debug)]
pub struct Block {
    pub label: Option<Instruction>,
    pub instructions: Vec<Instruction>,
}

pub struct BlockV {
    pub label: Option<InstrV>,
    pub instructions: Seq<InstrV>,
}

impl View for Block {
    type V = BlockV;

    open spec fn view(&self) -> BlockV {
        BlockV { label: opt_instr_view(self.label), instructions: instrs_view(self.instructions@) }
    }
}

impl BlockV {
    /// The id of the block's label.
    pub open spec fn label_id(self) -> Option<u32> {
        match self.label {
            Some(l) => l.result_id,
            None => None,
        }
    }
}

impl Block {
    /// The id of the block's label.
    pub fn label_id(&self) -> (r: Option<u32>)
        ensures
            r == self@.label_id(),
    {
        match &self.label {
            Some(l) => l.result_id,
            None => None,
        }
    }
}

/// A function: its defining instruction, parameters, blocks and end.
#[derive(Debug)]
pub struct Function {
    pub def: Option<Instruction>,
    pub end: Option<Instruction>,
    pub parameters: Vec<Instruction>,
    pub blocks: Vec<Block>,
}

pub struct FunctionV {
    pub def: Option<InstrV>,
    pub end: Option<InstrV>,
    pub parameters: Seq<InstrV>,
    pub blocks: Seq<BlockV>,
}

pub open spec fn blocks_view(s: Seq<Block>) -> Seq<BlockV> {
    s.map_values(|b: Block| b@)
}

impl View for Function {
    type V = FunctionV;

    open spec fn view(&self) -> FunctionV {
        FunctionV {
            def: opt_instr_view(self.def),
            end: opt_instr_view(self.end),
            parameters: instrs_view(self.parameters@),
            blocks: blocks_view(self.blocks@),
        }
    }
}

pub open spec fn functions_view(s: Seq<Function>) -> Seq<FunctionV> {
    s.map_values(|f: Function| f@)
}

/// The header of a module.
#[derive(Debug, Clone, Copy, PartialEq, Eq, Structural)]
pub struct ModuleHeader {
    pub magic_number: u32,
    pub version: u32,
    pub generator: u32,
    pub bound: u32,
    pub reserved_word: u32,
}

/// A SPIR-V module, its instructions grouped by the sections of the logical layout.
#[derive(Debug)]
pub struct Module {
    pub header: Option<ModuleHeader>,
    pub capabilities: Vec<Instruction>,
    pub extensions: Vec<Instruction>,
    pub ext_inst_imports: Vec<Instruction>,
    pub memory_model: Option<Instruction>,
    pub entry_points: Vec<Instruction>,
    pub execution_modes: Vec<Instruction>,
    pub debug_string_source: Vec<Instruction>,
    pub debug_names: Vec<Instruction>,
    pub debug_module_processed: Vec<Instruction>,
    pub annotations: Vec<Instruction>,
    pub types_global_values: Vec<Instruction>,
    pub functions: Vec<Function>,
}

pub struct ModuleV {
    pub header: Option<ModuleHeader>,
    pub capabilities: Seq<InstrV>,
    pub extensions: Seq<InstrV>,
    pub ext_inst_imports: Seq<InstrV>,
    pub memory_model: Option<InstrV>,
    pub entry_points: Seq<InstrV>,
    pub execution_modes: Seq<InstrV>,
    pub debug_string_source: Seq<InstrV>,
    pub debug_names: Seq<InstrV>,
    pub debug_module_processed: Seq<InstrV>,
    pub annotations: Seq<InstrV>,
    pub types_global_values: Seq<InstrV>,
    pub functions: Seq<FunctionV>,
}

impl View for Module {
    type V = ModuleV;

    open spec fn view(&self) -> ModuleV {
        ModuleV {
            header: self.header,
            capabilities: instrs_view(self.capabilities@),
            extensions: instrs_view(self.extensions@),
            ext_inst_imports: instrs_view(self.ext_inst_imports@),
            memory_model: opt_instr_view(self.memory_model),
            entry_points: instrs_view(self.entry_points@),
            execution_modes: instrs_view(self.execution_modes@),
            debug_string_source: instrs_view(self.debug_string_source@),
            debug_names: instrs_view(self.debug_names@),
            debug_module_processed: instrs_view(self.debug_module_processed@),
            annotations: instrs_view(self.annotations@),
            types_global_values: instrs_view(self.types_global_values@),
            functions: functions_view(self.functions@),
        }
    }
}

} // verus!
