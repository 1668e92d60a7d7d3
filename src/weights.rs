//! Bone weights of a vertex: at most four (weight, bone) pairs.

use vstd::prelude::*;

verus! {

/// Most weights that one vertex can hold.
pub const MAX_WEIGHTS: usize = 4;

/// A handle to a scene entity, by slot index and generation. Index 0 with
/// generation 0 refers to nothing.
#[derive(Clone, Copy, Debug, PartialEq, Eq, Structural)]
pub struct ErasedHandle {
    pub index: u32,
    pub generation: u32,
}

impl ErasedHandle {
    pub fn new(index: u32, generation: u32) -> (r: ErasedHandle)
        ensures
            r.index == index && r.generation == generation,
    {
        ErasedHandle { index, generation }
    }

    /// The handle that refers to nothing.
    pub fn none() -> (r: ErasedHandle)
        ensures
            r.index == 0 && r.generation == 0,
    {
        ErasedHandle { index: 0, generation: 0 }
    }

    pub fn is_none(&self) -> (r: bool)
        ensures
            r == (self.index == 0 && self.generation == 0),
    {
        self.index == 0 && self.generation == 0
    }
}

/// A weight with which a bone (or, while a model is converted, another effector)
/// moves a vertex.
#[derive(Clone, Copy, Debug, PartialEq, Eq, Structural)]
pub struct VertexWeight {
    /// Bit pattern of the `f32` weight, in `[0, 1]`.
    pub value: u32,
    pub effector: ErasedHandle,
}

impl Default for VertexWeight {
    /// Weight zero, on no effector.
    fn default() -> (r: VertexWeight)
        ensures
            r.value == 0 && r.effector.index == 0 && r.effector.generation == 0,
    {
        VertexWeight { value: 0, effector: ErasedHandle::none() }
    }
}

/// Up to four weights; pushing a fifth is refused.
#[derive(Clone, Copy, Debug)]
pub struct VertexWeightSet {
    weights: [VertexWeight; 4],
    count: usize,
}

impl View for VertexWeightSet {
    type V = Seq<VertexWeight>;

    /// The weights held, in the order they were pushed.
    closed spec fn view(&self) -> Seq<VertexWeight> {
        self.weights@.subrange(0, self.count as int)
    }
}

impl VertexWeightSet {
    pub closed spec fn wf(&self) -> bool {
        self.count <= MAX_WEIGHTS
    }

    /// An empty set.
    pub fn new() -> (r: VertexWeightSet)
        ensures
            r.wf(),
            r@.len() == 0,
    {
        let w = VertexWeight::default();
        VertexWeightSet { weights: [w, w, w, w], count: 0 }
    }

    /// Adds `weight` if the set holds fewer than four; returns whether it was added.
    pub fn push(&mut self, weight: VertexWeight) -> (r: bool)
        requires
            old(self).wf(),
        ensures
            final(self).wf(),
            r == (old(self)@.len() < MAX_WEIGHTS),
            r ==> final(self)@ == old(self)@.push(weight),
            !r ==> final(self)@ == old(self)@,
    {
        if self.count < MAX_WEIGHTS {
            let ghost pre = self@;
            self.weights[self.count] = weight;
            self.count = self.count + 1;
            assert(self@ =~= pre.push(weight));
            true
        } else {
            false
        }
    }

    /// Number of weights held.
    pub fn len(&self) -> (r: usize)
        requires
            self.wf(),
        ensures
            r == self@.len(),
    {
        self.count
    }

    pub fn is_empty(&self) -> (r: bool)
        requires
            self.wf(),
        ensures
            r == (self@.len() == 0),
    {
        self.count == 0
    }

    /// The weights held, in the order they were pushed.
    pub fn weights(&self) -> (r: &[VertexWeight])
        requires
            self.wf(),
        ensures
            r@ == self@,
    {
        slice_prefix(&self.weights, self.count)
    }

    /// Sets the value of weight `i` to the `f32` bit pattern `value`, keeping its effector.
    pub fn set_value(&mut self, i: usize, value: u32)
        requires
            old(self).wf(),
            i < old(self)@.len(),
        ensures
            final(self).wf(),
            final(self)@ == old(self)@.update(i as int, VertexWeight { value, effector: old(self)@[i as int].effector }),
    {
        let ghost pre = self@;
        let w = VertexWeight { value, effector: self.weights[i].effector };
        self.weights[i] = w;
        assert(self@ =~= pre.update(i as int, w));
    }
}

impl Default for VertexWeightSet {
    /// An empty set.
    fn default() -> (r: VertexWeightSet)
        ensures
            r.wf(),
            r@.len() == 0,
    {
        VertexWeightSet::new()
    }
}

/// The first `n` weights of `a`.
fn slice_prefix(a: &[VertexWeight; 4], n: usize) -> (r: &[VertexWeight])
    requires
        n <= 4,
    ensures
        r@ == a@.subrange(0, n as int),
{
    let s: &[VertexWeight] = a.as_slice();
    vstd::slice::slice_subrange(s, 0, n)
}

} // verus!
