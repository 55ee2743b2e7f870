use crate::front::spirv_passes::module::{
    blocks_view, functions_view, instrs_view, BlockV, Block, Function, FunctionV, InstrV,
    Instruction, Module, ModuleV,
};
use vstd::prelude::*;

verus! {

/// The first instruction of `s` whose result id is `id`.
pub open spec fn first_with_result(s: Seq<InstrV>, id: u32) -> Option<InstrV>
    decreases s.len(),
{
    if s.len() == 0 {
        None
    } else if s[0].result_id == Some(id) {
        Some(s[0])
    } else {
        first_with_result(s.drop_first(), id)
    }
}

/// The first instruction, block by block, whose result id is `id`.
pub open spec fn first_in_blocks(s: Seq<BlockV>, id: u32) -> Option<InstrV>
    decreases s.len(),
{
    if s.len() == 0 {
        None
    } else {
        match first_with_result(s[0].instructions, id) {
            Some(i) => Some(i),
            None => first_in_blocks(s.drop_first(), id),
        }
    }
}

/// The first instruction in the blocks of the functions, in order, whose result id is `id`.
pub open spec fn first_in_functions(s: Seq<FunctionV>, id: u32) -> Option<InstrV>
    decreases s.len(),
{
    if s.len() == 0 {
        None
    } else {
        match first_in_blocks(s[0].blocks, id) {
            Some(i) => Some(i),
            None => first_in_functions(s.drop_first(), id),
        }
    }
}

pub open spec fn opt_ref_view(r: Option<&Instruction>) -> Option<InstrV> {
    match r {
        Some(i) => Some(i@),
        None => None,
    }
}

/// The first instruction of `s` whose result id is `id`.
pub fn find_with_result(s: &Vec<Instruction>, id: u32) -> (r: Option<&Instruction>)
    ensures
        opt_ref_view(r) == first_with_result(instrs_view(s@), id),
{
    let mut i: usize = 0;
    assert(instrs_view(s@).skip(0) =~= instrs_view(s@));
    while i < s.len()
        invariant
            i <= s@.len(),
            first_with_result(instrs_view(s@), id) == first_with_result(instrs_view(s@).skip(i as int), id),
        decreases s@.len() - i,
    {
        let ghost rest = instrs_view(s@).skip(i as int);
        assert(rest.len() > 0 && rest[0] == s@[i as int]@);
        assert(rest.drop_first() =~= instrs_view(s@).skip(i + 1));
        if s[i].result_id == Some(id) {
            return Some(&s[i]);
        }
        i = i + 1;
    }
    None
}

/// The first instruction, block by block, whose result id is `id`.
pub fn find_in_blocks(s: &Vec<Block>, id: u32) -> (r: Option<&Instruction>)
    ensures
        opt_ref_view(r) == first_in_blocks(blocks_view(s@), id),
{
    let mut i: usize = 0;
    assert(blocks_view(s@).skip(0) =~= blocks_view(s@));
    while i < s.len()
        invariant
            i <= s@.len(),
            first_in_blocks(blocks_view(s@), id) == first_in_blocks(blocks_view(s@).skip(i as int), id),
        decreases s@.len() - i,
    {
        let ghost rest = blocks_view(s@).skip(i as int);
        assert(rest.len() > 0 && rest[0] == s@[i as int]@);
        assert(rest.drop_first() =~= blocks_view(s@).skip(i + 1));
        let found = find_with_result(&s[i].instructions, id);
        if found.is_some() {
            return found;
        }
        i = i + 1;
    }
    None
}

/// The first instruction in the blocks of the functions, in order, whose result id is `id`.
pub fn find_in_functions(s: &Vec<Function>, id: u32) -> (r: Option<&Instruction>)
    ensures
        opt_ref_view(r) == first_in_functions(functions_view(s@), id),
{
    let mut i: usize = 0;
    assert(functions_view(s@).skip(0) =~= functions_view(s@));
    while i < s.len()
        invariant
            i <= s@.len(),
            first_in_functions(functions_view(s@), id) == first_in_functions(functions_view(s@).skip(i as int), id),
        decreases s@.len() - i,
    {
        let ghost rest = functions_view(s@).skip(i as int);
        assert(rest.len() > 0 && rest[0] == s@[i as int]@);
        assert(rest.drop_first() =~= functions_view(s@).skip(i + 1));
        let found = find_in_blocks(&s[i].blocks, id);
        if found.is_some() {
            return found;
        }
        i = i + 1;
    }
    None
}

} // verus!
