use librashader_reflect::back::hlsl::{hlsl_lowering, lower_module_checked, lower_stage, HlslLowering};
use librashader_reflect::front::spirv_passes::builder::Builder;
use librashader_reflect::front::spirv_passes::harden_normalize::HardenNormalize;
use librashader_reflect::front::spirv_passes::link_input_outputs::LinkInputs;
use librashader_reflect::front::spirv_passes::lower_loop_sample_lod::{successor_labels, LowerLoopSampleLod};
use librashader_reflect::front::spirv_passes::split_io_arrays::SplitArrayIo;
use librashader_reflect::front::spirv_passes::module::{
    Block, Function, Instruction, Module, ModuleHeader, Operand,
};

const OP_NAME: u32 = 5;
const OP_EXT_INST_IMPORT: u32 = 11;
const OP_EXT_INST: u32 = 12;
const OP_TYPE_FLOAT: u32 = 22;
const OP_TYPE_VECTOR: u32 = 23;
const OP_CONSTANT: u32 = 43;
const OP_CONSTANT_COMPOSITE: u32 = 44;
const OP_VARIABLE: u32 = 59;
const OP_LOAD: u32 = 61;
const OP_DECORATE: u32 = 71;
const OP_F_ADD: u32 = 129;
const OP_LABEL: u32 = 248;
const OP_RETURN: u32 = 253;
const OP_ENTRY_POINT: u32 = 15;
const LOCATION: u32 = 30;

fn inst(opcode: u32, result_type: Option<u32>, result_id: Option<u32>, operands: Vec<Operand>) -> Instruction {
    Instruction::new(opcode, result_type, result_id, operands)
}

fn module(bound: u32) -> Module {
    Module {
        header: Some(ModuleHeader { magic_number: 0x0723_0203, version: 0x0001_0000, generator: 0, bound, reserved_word: 0 }),
        capabilities: vec![],
        extensions: vec![],
        ext_inst_imports: vec![],
        memory_model: None,
        entry_points: vec![],
        execution_modes: vec![],
        debug_string_source: vec![],
        debug_names: vec![],
        debug_module_processed: vec![],
        annotations: vec![],
        types_global_values: vec![],
        functions: vec![],
    }
}

fn variable(id: u32, class: u32) -> Instruction {
    inst(OP_VARIABLE, Some(10), Some(id), vec![Operand::StorageClass(class)])
}

fn location(id: u32, loc: u32) -> Instruction {
    inst(OP_DECORATE, None, None, vec![Operand::IdRef(id), Operand::Decoration(LOCATION), Operand::LiteralBit32(loc)])
}

fn function(instructions: Vec<Instruction>) -> Function {
    Function {
        def: None,
        end: None,
        parameters: vec![],
        blocks: vec![Block { label: Some(inst(OP_LABEL, None, Some(30), vec![])), instructions }],
    }
}

fn location_of(m: &Module, id: u32) -> Option<u32> {
    for a in &m.annotations {
        if let (Some(Operand::IdRef(t)), Some(Operand::Decoration(LOCATION)), Some(Operand::LiteralBit32(l))) =
            (a.operands.get(0), a.operands.get(1), a.operands.get(2))
        {
            if *t == id {
                return Some(*l);
            }
        }
    }
    None
}

fn linked_stages() -> (Builder, Builder) {
    let mut vert = module(40);
    vert.types_global_values = vec![variable(1, 3), variable(2, 3), variable(3, 3)];
    vert.annotations = vec![location(1, 0), location(2, 1), location(3, 2)];

    let mut frag = module(40);
    frag.types_global_values = vec![variable(1, 1), variable(2, 1), variable(3, 1)];
    frag.annotations = vec![location(1, 0), location(2, 1), location(3, 2)];
    frag.debug_names = vec![inst(OP_NAME, None, None, vec![Operand::IdRef(2), Operand::LiteralString("unused".to_string())])];
    frag.entry_points = vec![inst(
        OP_ENTRY_POINT,
        None,
        None,
        vec![
            Operand::Enumerant { kind: 0, value: 4 },
            Operand::IdRef(20),
            Operand::LiteralString("main".to_string()),
            Operand::IdRef(1),
            Operand::IdRef(2),
            Operand::IdRef(3),
        ],
    )];
    frag.functions = vec![function(vec![
        inst(OP_LOAD, Some(11), Some(21), vec![Operand::IdRef(1)]),
        inst(OP_LOAD, Some(11), Some(22), vec![Operand::IdRef(3)]),
        inst(OP_RETURN, None, None, vec![]),
    ])];
    (Builder::new_from_module(vert), Builder::new_from_module(frag))
}

#[test]
fn link_inputs_collects_outputs_and_inputs() {
    let (vert, frag) = linked_stages();
    let link = LinkInputs::new(vert, frag, false);
    assert_eq!(link.outputs, vec![(0, 1), (1, 2), (2, 3)]);
    assert_eq!(link.inputs_to_remove.len(), 3);
    assert_eq!(link.inputs_to_remove.get(&2), Some(&1));
}

#[test]
fn link_inputs_keep_if_bound_keeps_bound_inputs() {
    // With `keep_if_bound`, every fragment input at the location of a vertex output is
    // bound to it and kept.
    let (vert, frag) = linked_stages();
    let link = LinkInputs::new(vert, frag, true);
    assert_eq!(link.inputs_to_remove.len(), 0);
}

#[test]
fn link_inputs_keep_if_bound_drops_only_bound_inputs() {
    // An input at a location that no vertex output uses stays marked for removal.
    let (mut vert, frag) = linked_stages();
    vert.module.types_global_values.truncate(2);
    vert.module.annotations.truncate(2);
    let link = LinkInputs::new(vert, frag, true);
    assert_eq!(link.inputs_to_remove.len(), 1);
    assert_eq!(link.inputs_to_remove.get(&3), Some(&2));
}

#[test]
fn link_inputs_removes_unread_input_and_moves_it_last() {
    let (vert, frag) = linked_stages();
    let mut link = LinkInputs::new(vert, frag, false);
    link.do_pass();
    // Only the input that no function reads stays dead.
    assert_eq!(link.inputs_to_remove.len(), 1);
    assert_eq!(link.inputs_to_remove.get(&2), Some(&1));

    let f = &link.frag_builder.module;
    assert!(f.debug_names.is_empty());
    assert_eq!(f.types_global_values.len(), 2);
    assert!(f.types_global_values.iter().all(|g| g.result_id != Some(2)));
    assert_eq!(f.entry_points[0].operands.len(), 5);
    assert_eq!(f.annotations.len(), 2);
    // The live inputs keep their order; the dead location goes last.
    assert_eq!(location_of(f, 1), Some(0));
    assert_eq!(location_of(f, 3), Some(1));
    assert_eq!(location_of(f, 2), None);

    let v = &link.vert_builder.module;
    assert_eq!(location_of(v, 1), Some(0));
    assert_eq!(location_of(v, 3), Some(1));
    assert_eq!(location_of(v, 2), Some(2));
}

#[test]
fn link_inputs_without_dead_inputs_changes_nothing() {
    let (vert, mut frag) = linked_stages();
    frag.module.functions = vec![function(vec![
        inst(OP_LOAD, Some(11), Some(21), vec![Operand::IdRef(1)]),
        inst(OP_LOAD, Some(11), Some(22), vec![Operand::IdRef(2)]),
        inst(OP_LOAD, Some(11), Some(23), vec![Operand::IdRef(3)]),
    ])];
    let mut link = LinkInputs::new(vert, frag, false);
    link.do_pass();
    assert!(link.inputs_to_remove.is_empty());
    assert_eq!(link.frag_builder.module.types_global_values.len(), 3);
    assert_eq!(location_of(&link.vert_builder.module, 2), Some(1));
    assert_eq!(location_of(&link.frag_builder.module, 3), Some(2));
}

fn normalize_module() -> Builder {
    let mut m = module(50);
    m.ext_inst_imports = vec![inst(OP_EXT_INST_IMPORT, None, Some(5), vec![Operand::LiteralString("GLSL.std.450".to_string())])];
    m.types_global_values = vec![
        inst(OP_TYPE_FLOAT, None, Some(6), vec![Operand::LiteralBit32(32)]),
        inst(OP_TYPE_VECTOR, None, Some(7), vec![Operand::IdRef(6), Operand::LiteralBit32(2)]),
    ];
    m.functions = vec![function(vec![
        inst(OP_EXT_INST, Some(7), Some(8), vec![Operand::IdRef(5), Operand::LiteralExtInstInteger(69), Operand::IdRef(9)]),
        inst(OP_RETURN, None, None, vec![]),
    ])];
    Builder::new_from_module(m)
}

#[test]
fn harden_normalize_adds_epsilon_before_each_call() {
    let mut pass = HardenNormalize::new(normalize_module());
    pass.do_pass();
    let b = pass.into_builder();
    let g = &b.module.types_global_values;
    assert_eq!(g.len(), 4);
    assert_eq!(g[2].opcode, OP_CONSTANT);
    assert_eq!(g[2].result_type, Some(6));
    assert!(matches!(g[2].operands[0], Operand::LiteralBit32(0x33d6_bf95)));
    assert_eq!(g[3].opcode, OP_CONSTANT_COMPOSITE);
    assert_eq!(g[3].result_type, Some(7));
    let scalar = g[2].result_id.unwrap();
    assert!(g[3].operands.iter().all(|o| matches!(o, Operand::IdRef(s) if *s == scalar)));
    assert_eq!(g[3].operands.len(), 2);

    let instrs = &b.module.functions[0].blocks[0].instructions;
    assert_eq!(instrs.len(), 3);
    assert_eq!(instrs[0].opcode, OP_F_ADD);
    let add = instrs[0].result_id.unwrap();
    assert!(matches!(instrs[0].operands[0], Operand::IdRef(9)));
    assert!(matches!(instrs[0].operands[1], Operand::IdRef(e) if Some(e) == g[3].result_id));
    assert!(matches!(instrs[1].operands[2], Operand::IdRef(x) if x == add));
    // The interface is untouched and the ids only grow.
    assert_eq!(b.module.annotations.len(), 0);
    assert!(b.next_id > 50);
}

#[test]
fn harden_normalize_without_import_changes_nothing() {
    let mut b = normalize_module();
    b.module.ext_inst_imports.clear();
    let mut pass = HardenNormalize::new(b);
    pass.do_pass();
    let b = pass.into_builder();
    assert_eq!(b.module.types_global_values.len(), 2);
    assert_eq!(b.module.functions[0].blocks[0].instructions.len(), 2);
    assert_eq!(b.next_id, 50);
}

#[test]
fn lower_loop_sample_lod_without_loops_changes_nothing() {
    let mut pass = LowerLoopSampleLod::new(normalize_module());
    pass.do_pass();
    let b = pass.into_builder();
    assert_eq!(b.module.types_global_values.len(), 2);
    assert_eq!(b.next_id, 50);
    assert_eq!(b.module.functions[0].blocks[0].instructions[0].opcode, OP_EXT_INST);
}

#[test]
fn hlsl_lowering_by_shader_model() {
    assert_eq!(hlsl_lowering(30), Some(HlslLowering::HardenAndLowerLoops));
    assert_eq!(hlsl_lowering(40), Some(HlslLowering::LowerLoops));
    assert_eq!(hlsl_lowering(41), Some(HlslLowering::LowerLoops));
    assert_eq!(hlsl_lowering(50), Some(HlslLowering::LowerLoops));
    assert_eq!(hlsl_lowering(51), Some(HlslLowering::LowerLoops));
    assert_eq!(hlsl_lowering(60), None);
    assert_eq!(hlsl_lowering(68), None);
}

#[test]
fn lower_module_for_shader_model_3_hardens() {
    let b = lower_module_checked(normalize_module(), HlslLowering::HardenAndLowerLoops).ok().unwrap();
    assert_eq!(b.module.functions[0].blocks[0].instructions.len(), 3);
    assert_eq!(b.module.functions[0].blocks[0].instructions[0].opcode, OP_F_ADD);
}

#[test]
fn lower_module_refuses_when_ids_run_out() {
    let mut b = normalize_module();
    b.next_id = u32::MAX - 2;
    let back = lower_module_checked(b, HlslLowering::HardenAndLowerLoops).err().unwrap();
    assert_eq!(back.next_id, u32::MAX - 2);
    assert_eq!(back.module.functions[0].blocks[0].instructions.len(), 2);
}

const OP_TYPE_INT: u32 = 21;
const OP_TYPE_ARRAY: u32 = 28;
const OP_TYPE_POINTER: u32 = 32;
const OP_FUNCTION: u32 = 54;
const OP_STORE: u32 = 62;
const FLAT: u32 = 14;

fn array_output_module() -> Builder {
    let mut m = module(100);
    m.types_global_values = vec![
        inst(OP_TYPE_FLOAT, None, Some(1), vec![Operand::LiteralBit32(32)]),
        inst(OP_TYPE_INT, None, Some(2), vec![Operand::LiteralBit32(32), Operand::LiteralBit32(0)]),
        inst(OP_CONSTANT, Some(2), Some(3), vec![Operand::LiteralBit32(2)]),
        inst(OP_TYPE_ARRAY, None, Some(4), vec![Operand::IdRef(1), Operand::IdRef(3)]),
        inst(OP_TYPE_POINTER, None, Some(5), vec![Operand::StorageClass(3), Operand::IdRef(4)]),
        inst(OP_VARIABLE, Some(5), Some(6), vec![Operand::StorageClass(3)]),
    ];
    m.annotations = vec![
        location(6, 3),
        inst(OP_DECORATE, None, None, vec![Operand::IdRef(6), Operand::Decoration(FLAT)]),
    ];
    m.entry_points = vec![inst(
        OP_ENTRY_POINT,
        None,
        None,
        vec![
            Operand::Enumerant { kind: 11, value: 0 },
            Operand::IdRef(20),
            Operand::LiteralString("main".to_string()),
            Operand::IdRef(6),
        ],
    )];
    m.functions = vec![Function {
        def: Some(inst(OP_FUNCTION, Some(9), Some(20), vec![])),
        end: None,
        parameters: vec![],
        blocks: vec![Block {
            label: Some(inst(OP_LABEL, None, Some(21), vec![])),
            instructions: vec![inst(OP_RETURN, None, None, vec![])],
        }],
    }];
    Builder::new_from_module(m)
}

#[test]
fn split_array_io_gives_elements_consecutive_locations() {
    let mut pass = SplitArrayIo::new(array_output_module(), 3);
    pass.do_pass();
    let b = pass.builder;
    let m = &b.module;
    // The array is no longer an output: it is private.
    let array = m.types_global_values.iter().find(|g| g.result_id == Some(6)).unwrap();
    assert!(matches!(array.operands[0], Operand::StorageClass(6)));
    assert_eq!(location_of(m, 6), None);
    // Two output variables take its place, at locations 3 and 4, each flat.
    let outputs: Vec<u32> = m
        .types_global_values
        .iter()
        .filter(|g| g.opcode == OP_VARIABLE && matches!(g.operands[0], Operand::StorageClass(3)))
        .map(|g| g.result_id.unwrap())
        .collect();
    assert_eq!(outputs.len(), 2);
    assert_eq!(location_of(m, outputs[0]), Some(3));
    assert_eq!(location_of(m, outputs[1]), Some(4));
    for v in &outputs {
        assert!(m.annotations.iter().any(|a| matches!(
            (&a.operands[0], &a.operands[1]),
            (Operand::IdRef(t), Operand::Decoration(FLAT)) if t == v
        )));
    }
    // The entry point's interface lists the element variables instead of the array.
    let interface: Vec<u32> = m.entry_points[0].operands[3..]
        .iter()
        .map(|o| match o {
            Operand::IdRef(id) => *id,
            _ => 0,
        })
        .collect();
    assert_eq!(interface, outputs);
    // Before returning, main copies each element out: a load and a store per element.
    let body = &m.functions[0].blocks[0].instructions;
    assert_eq!(body.iter().filter(|i| i.opcode == OP_STORE).count(), 2);
    assert_eq!(body.last().unwrap().opcode, OP_RETURN);
    // Every variable comes after the other declarations.
    let first_var = m.types_global_values.iter().position(|g| g.opcode == OP_VARIABLE).unwrap();
    assert!(m.types_global_values[first_var..].iter().all(|g| g.opcode == OP_VARIABLE));
}

#[test]
fn successor_labels_of_a_switch_leave_out_the_selector() {
    const OP_SWITCH: u32 = 251;
    const OP_BRANCH: u32 = 249;
    const OP_BRANCH_CONDITIONAL: u32 = 250;
    let switch = Block {
        label: Some(inst(OP_LABEL, None, Some(5), vec![])),
        instructions: vec![inst(OP_SWITCH, None, None, vec![Operand::IdRef(10), Operand::IdRef(11), Operand::LiteralBit32(1), Operand::IdRef(12)])],
    };
    assert_eq!(successor_labels(&switch), vec![11, 12]);
    let branch = Block { label: None, instructions: vec![inst(OP_BRANCH, None, None, vec![Operand::IdRef(7)])] };
    assert_eq!(successor_labels(&branch), vec![7]);
    let cond = Block {
        label: None,
        instructions: vec![inst(OP_BRANCH_CONDITIONAL, None, None, vec![Operand::IdRef(3), Operand::IdRef(8), Operand::IdRef(9)])],
    };
    assert_eq!(successor_labels(&cond), vec![8, 9]);
}

#[test]
fn lowering_a_stage_needs_a_header_and_keeps_a_module_without_loops() {
    let mut headerless = module(40);
    headerless.header = None;
    assert!(lower_stage(headerless, HlslLowering::LowerLoops).is_none());
    let out = lower_stage(module(40), HlslLowering::LowerLoops).unwrap();
    assert_eq!(out.header.unwrap().bound, 40);
    assert!(out.functions.is_empty());
    assert!(out.types_global_values.is_empty());
}
