use rustc_hash::{FxHashMap, FxHashSet};
use vstd::prelude::*;

verus! {

/// The elements of a set of ids.
pub uninterp spec fn word_set(s: FxHashSet<u32>) -> Set<u32>;

/// The entries of a map between ids.
pub uninterp spec fn word_map(m: FxHashMap<u32, u32>) -> Map<u32, u32>;

/// The entries of a map from labels to block positions.
pub uninterp spec fn index_map(m: FxHashMap<u32, usize>) -> Map<u32, usize>;

/// Creates an empty set with `FxHashSet::default`.
#[verifier::external_body]
pub(crate) fn new_word_set() -> (r: FxHashSet<u32>)
    ensures
        word_set(r).finite(),
        word_set(r).len() == 0,
{
    FxHashSet::default()
}

/// `HashSet::contains`.
#[verifier::external_body]
pub(crate) fn word_set_contains(s: &FxHashSet<u32>, v: u32) -> (r: bool)
    ensures
        r == word_set(*s).contains(v),
{
    s.contains(&v)
}

/// `HashSet::insert`: adds the value, and says whether it was absent.
#[verifier::external_body]
pub(crate) fn word_set_insert(s: &mut FxHashSet<u32>, v: u32) -> (r: bool)
    ensures
        word_set(*final(s)) == word_set(*old(s)).insert(v),
        r == !word_set(*old(s)).contains(v),
{
    s.insert(v)
}

/// `HashSet::is_empty`.
#[verifier::external_body]
pub(crate) fn word_set_is_empty(s: &FxHashSet<u32>) -> (r: bool)
    ensures
        r == (word_set(*s) == Set::<u32>::empty()),
{
    s.is_empty()
}

/// The elements of the set, each once, in the order the set is walked (which is not specified).
#[verifier::external_body]
pub(crate) fn word_set_elements(s: &FxHashSet<u32>) -> (r: Vec<u32>)
    ensures
        r@.to_set() == word_set(*s),
        r@.no_duplicates(),
{
    s.iter().copied().collect()
}

/// Creates an empty map with `FxHashMap::default`.
#[verifier::external_body]
pub(crate) fn new_word_map() -> (r: FxHashMap<u32, u32>)
    ensures
        word_map(r).dom() == Set::<u32>::empty(),
        word_map(r).dom().len() == 0,
        word_map(r).dom().finite(),
{
    FxHashMap::default()
}

/// `HashMap::get`.
#[verifier::external_body]
pub(crate) fn word_map_get(m: &FxHashMap<u32, u32>, k: u32) -> (r: Option<u32>)
    ensures
        r == word_map(*m).get(k),
{
    m.get(&k).copied()
}

/// `HashMap::insert`, which replaces any value under the key.
#[verifier::external_body]
pub(crate) fn word_map_insert(m: &mut FxHashMap<u32, u32>, k: u32, v: u32)
    ensures
        word_map(*final(m)) == word_map(*old(m)).insert(k, v),
{
    m.insert(k, v);
}

/// `HashMap::remove`.
#[verifier::external_body]
pub(crate) fn word_map_remove(m: &mut FxHashMap<u32, u32>, k: u32) -> (r: Option<u32>)
    ensures
        r == word_map(*old(m)).get(k),
        word_map(*final(m)) == word_map(*old(m)).remove(k),
{
    m.remove(&k)
}

/// The entries of the map, each once, in the order the map is walked (which is not specified).
#[verifier::external_body]
pub(crate) fn word_map_entries(m: &FxHashMap<u32, u32>) -> (r: Vec<(u32, u32)>)
    ensures
        forall|j: int| 0 <= j < r@.len() ==> word_map(*m).contains_key(#[trigger] r@[j].0) && word_map(*m)[r@[j].0] == r@[j].1,
        forall|k: u32| #[trigger] word_map(*m).contains_key(k) ==> exists|j: int| 0 <= j < r@.len() && r@[j].0 == k,
        forall|j1: int, j2: int| 0 <= j1 < j2 < r@.len() ==> r@[j1].0 != r@[j2].0,
{
    m.iter().map(|(k, v)| (*k, *v)).collect()
}

/// Creates an empty map with `FxHashMap::default`.
#[verifier::external_body]
pub(crate) fn new_index_map() -> (r: FxHashMap<u32, usize>)
    ensures
        index_map(r).dom().len() == 0,
        index_map(r).dom().finite(),
{
    FxHashMap::default()
}

/// `HashMap::get`.
#[verifier::external_body]
pub(crate) fn index_map_get(m: &FxHashMap<u32, usize>, k: u32) -> (r: Option<usize>)
    ensures
        r == index_map(*m).get(k),
{
    m.get(&k).copied()
}

/// `HashMap::insert`, which replaces any value under the key.
#[verifier::external_body]
pub(crate) fn index_map_insert(m: &mut FxHashMap<u32, usize>, k: u32, v: usize)
    ensures
        index_map(*final(m)) == index_map(*old(m)).insert(k, v),
{
    m.insert(k, v);
}

/// Every set of ids is finite, with at most 2^32 elements.
pub proof fn lemma_word_set_bounded(s: Set<u32>)
    ensures
        s.finite(),
        s.len() <= 0x1_0000_0000,
{
    let full = Set::<u32>::full();
    let range = <u32 as vstd::set_lib::FiniteRange>::range_set(0u32, 0xffff_ffffu32);
    <u32 as vstd::set_lib::FiniteRange>::range_properties(0u32, 0xffff_ffffu32);
    assert(full =~= range.insert(0xffff_ffffu32));
    assert(!range.contains(0xffff_ffffu32));
    assert(full.finite());
    assert(full.len() == range.len() + 1);
    assert(s.subset_of(full));
    vstd::set_lib::lemma_len_subset(s, full);
}

} // verus!
