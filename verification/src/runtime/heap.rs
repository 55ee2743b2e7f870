//! The slots of a Direct3D 12 descriptor heap.

use crate::runtime::d3d12::{DescriptorHeapDesc, D3D12HeapType, HEAP_FLAG_SHADER_VISIBLE};
use std::marker::PhantomData;
use vstd::prelude::*;

verus! {

/// A descriptor heap: which slots are taken, where the search for a free one starts,
/// and where its handles begin.
pub struct D3D12DescriptorHeap<T> {
    pub desc: DescriptorHeapDesc,
    pub cpu_start: usize,
    pub gpu_start: Option<u64>,
    pub handle_size: usize,
    pub start: usize,
    pub map: Vec<bool>,
    pub kind: PhantomData<T>,
}

/// A taken slot of a heap, with its CPU and, in a shader-visible heap, GPU handle.
#[derive(Debug)]
pub struct D3D12DescriptorHeapSlot<T> {
    pub cpu_handle: usize,
    pub gpu_handle: Option<u64>,
    pub slot: usize,
    pub kind: PhantomData<T>,
}

impl<T> D3D12DescriptorHeapSlot<T> {
    pub open spec fn spec_index(&self) -> usize {
        self.slot
    }

    /// The index of the slot in its heap.
    pub fn index(&self) -> (r: usize)
        ensures
            r == self.spec_index(),
    {
        self.slot
    }
}

impl<T> D3D12DescriptorHeap<T> {
    /// Which slots are taken.
    pub open spec fn taken(&self) -> Seq<bool> {
        self.map@
    }

    /// Where the search for a free slot starts.
    pub open spec fn search_start(&self) -> usize {
        self.start
    }

    /// The heap is consistent: a slot for each descriptor, every slot before the search
    /// start taken, and every handle representable.
    pub open spec fn wf(&self) -> bool {
        &&& self.map@.len() == self.desc.num_descriptors
        &&& self.start <= self.map@.len()
        &&& forall|i: int| 0 <= i < self.start ==> #[trigger] self.map@[i]
        &&& self.cpu_start + self.map@.len() * self.handle_size <= usize::MAX
        &&& self.gpu_start matches Some(g) ==> g + self.map@.len() * self.handle_size <= u64::MAX
        &&& (self.gpu_start is Some <==> self.desc.flags & HEAP_FLAG_SHADER_VISIBLE != 0)
    }

    /// Whether some slot is free.
    pub open spec fn has_free(&self) -> bool {
        exists|i: int| 0 <= i < self.taken().len() && !(#[trigger] self.taken()[i])
    }

    /// A heap of the given description, all slots free, whose handles start at
    /// `cpu_start` and, in a shader-visible heap, at `gpu_start`, `handle_size` apart.
    pub fn new_with_desc(desc: DescriptorHeapDesc, cpu_start: usize, gpu_start: u64, handle_size: usize) -> (r: Self)
        requires
            cpu_start + desc.num_descriptors * handle_size <= usize::MAX,
            gpu_start + desc.num_descriptors * handle_size <= u64::MAX,
        ensures
            r.wf(),
            r.desc == desc,
            r.taken() == Seq::new(desc.num_descriptors as nat, |i: int| false),
            r.cpu_start == cpu_start,
            r.gpu_start == (if desc.flags & HEAP_FLAG_SHADER_VISIBLE != 0 { Some(gpu_start) } else { None::<u64> }),
    {
        let mut map: Vec<bool> = Vec::new();
        let mut i: u32 = 0;
        while i < desc.num_descriptors
            invariant
                i <= desc.num_descriptors,
                map@ == Seq::new(i as nat, |j: int| false),
            decreases desc.num_descriptors - i,
        {
            map.push(false);
            i = i + 1;
            assert(map@ =~= Seq::new(i as nat, |j: int| false));
        }
        let gpu = if desc.flags & HEAP_FLAG_SHADER_VISIBLE != 0 { Some(gpu_start) } else { None };
        D3D12DescriptorHeap { desc, cpu_start, gpu_start: gpu, handle_size, start: 0, map, kind: PhantomData }
    }

    /// Takes the lowest free slot at or after the search start, which, the slots before
    /// it being taken, is the lowest free slot of the heap.
    pub fn alloc_slot(&mut self) -> (r: D3D12DescriptorHeapSlot<T>)
        requires
            old(self).wf(),
            old(self).has_free(),
        ensures
            took_lowest_free(*old(self), *final(self), r),
    {
        let mut i = self.start;
        while i < self.map.len()
            invariant
                self.start <= i <= self.map@.len(),
                self.wf(),
                self.has_free(),
                self == old(self),
                forall|j: int| 0 <= j < i ==> #[trigger] self.map@[j],
            decreases self.map@.len() - i,
        {
            if !self.map[i] {
                proof {
                    assert(i * self.handle_size <= self.map@.len() * self.handle_size) by (nonlinear_arith)
                        requires
                            i <= self.map@.len(),
                    ;
                }
                self.map.set(i, true);
                self.start = i + 1;
                let cpu_handle = self.cpu_start + i * self.handle_size;
                let gpu_handle = match self.gpu_start {
                    Some(g) => Some(g + (i as u64) * (self.handle_size as u64)),
                    None => None,
                };
                assert forall|j: int| 0 <= j < self.start implies #[trigger] self.map@[j] by {
                    if j < i {
                        assert(old(self).map@[j]);
                    }
                }
                return D3D12DescriptorHeapSlot { cpu_handle, gpu_handle, slot: i, kind: PhantomData };
            }
            i = i + 1;
        }
        proof {
            let k = choose|k: int| 0 <= k < self.taken().len() && !(#[trigger] self.taken()[k]);
            assert(self.map@[k]);
        }
        D3D12DescriptorHeapSlot { cpu_handle: 0, gpu_handle: None, slot: 0, kind: PhantomData }
    }

    /// Gives the slot back: it is free again, and the search starts no later than it.
    pub fn release(&mut self, slot: D3D12DescriptorHeapSlot<T>)
        requires
            old(self).wf(),
            slot.spec_index() < old(self).taken().len(),
        ensures
            gave_back(*old(self), *final(self), slot),
    {
        self.map.set(slot.slot, false);
        if self.start > slot.slot {
            self.start = slot.slot;
        }
    }
}

/// What taking a slot does: the lowest free slot is taken, the search starts after it,
/// and the handles are those of that slot.
pub open spec fn took_lowest_free<T>(h0: D3D12DescriptorHeap<T>, h1: D3D12DescriptorHeap<T>, r: D3D12DescriptorHeapSlot<T>) -> bool {
    &&& h1.wf()
    &&& 0 <= r.spec_index() < h0.taken().len()
    &&& !h0.taken()[r.spec_index() as int]
    &&& forall|j: int| 0 <= j < r.spec_index() ==> #[trigger] h0.taken()[j]
    &&& h1.taken() == h0.taken().update(r.spec_index() as int, true)
    &&& h1.search_start() == r.spec_index() + 1
    &&& r.cpu_handle == h0.cpu_start + r.spec_index() * h0.handle_size
    &&& r.gpu_handle == (match h0.gpu_start {
        Some(g) => Some((g + r.spec_index() * h0.handle_size) as u64),
        None => None::<u64>,
    })
    &&& h1.desc == h0.desc
    &&& h1.cpu_start == h0.cpu_start
    &&& h1.gpu_start == h0.gpu_start
    &&& h1.handle_size == h0.handle_size
}

/// What giving a slot back does: it is free again, and the search starts no later than it.
pub open spec fn gave_back<T>(h0: D3D12DescriptorHeap<T>, h1: D3D12DescriptorHeap<T>, slot: D3D12DescriptorHeapSlot<T>) -> bool {
    &&& h1.wf()
    &&& h1.taken() == h0.taken().update(slot.spec_index() as int, false)
    &&& h1.search_start() == (if h0.search_start() > slot.spec_index() { slot.spec_index() } else { h0.search_start() })
    &&& h1.desc == h0.desc
    &&& h1.cpu_start == h0.cpu_start
    &&& h1.gpu_start == h0.gpu_start
    &&& h1.handle_size == h0.handle_size
}

/// Giving back the slot just taken leaves the slots as they were.
pub proof fn law_release_undoes_alloc<T>(
    h0: D3D12DescriptorHeap<T>,
    h1: D3D12DescriptorHeap<T>,
    h2: D3D12DescriptorHeap<T>,
    slot: D3D12DescriptorHeapSlot<T>,
)
    requires
        took_lowest_free(h0, h1, slot),
        gave_back(h1, h2, slot),
    ensures
        h2.taken() == h0.taken(),
{
    assert(h2.taken() =~= h0.taken());
}

/// Two slots taken one after the other, with none given back between, are different
/// slots, with different handles.
pub proof fn law_taken_slots_differ<T>(
    h0: D3D12DescriptorHeap<T>,
    h1: D3D12DescriptorHeap<T>,
    h2: D3D12DescriptorHeap<T>,
    s1: D3D12DescriptorHeapSlot<T>,
    s2: D3D12DescriptorHeapSlot<T>,
)
    requires
        took_lowest_free(h0, h1, s1),
        took_lowest_free(h1, h2, s2),
        h0.handle_size > 0,
    ensures
        s1.spec_index() != s2.spec_index(),
        s1.cpu_handle != s2.cpu_handle,
{
    assert(h1.taken()[s1.spec_index() as int]);
    if s1.cpu_handle == s2.cpu_handle {
        assert(s1.spec_index() * h0.handle_size == s2.spec_index() * h0.handle_size);
        if s1.spec_index() < s2.spec_index() {
            assert(s1.spec_index() * h0.handle_size < s2.spec_index() * h0.handle_size) by (nonlinear_arith)
                requires
                    s1.spec_index() < s2.spec_index(),
                    h0.handle_size > 0,
            ;
        } else {
            assert(s2.spec_index() * h0.handle_size < s1.spec_index() * h0.handle_size) by (nonlinear_arith)
                requires
                    s2.spec_index() < s1.spec_index(),
                    h0.handle_size > 0,
            ;
        }
    }
}

impl<T: D3D12HeapType> D3D12DescriptorHeap<T> {
    /// A heap of `size` descriptors of the kind `T`.
    pub fn new(size: usize, cpu_start: usize, gpu_start: u64, handle_size: usize) -> (r: Self)
        requires
            cpu_start + T::spec_desc(size).num_descriptors * handle_size <= usize::MAX,
            gpu_start + T::spec_desc(size).num_descriptors * handle_size <= u64::MAX,
        ensures
            r.wf(),
            r.desc == T::spec_desc(size),
            r.taken() == Seq::new(T::spec_desc(size).num_descriptors as nat, |i: int| false),
    {
        let desc = T::get_desc(size);
        Self::new_with_desc(desc, cpu_start, gpu_start, handle_size)
    }
}

} // verus!
