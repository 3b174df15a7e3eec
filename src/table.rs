use vstd::prelude::*;

verus! {

/// Marker for values that may be stored as components of an entity.
pub trait Component {}

/// A column whose every slot is absent.
pub open spec fn absent_column<C>(n: nat) -> Seq<Option<C>> {
    Seq::new(n, |i: int| None::<C>)
}

/// `r` lists, in increasing order, exactly the slots of `slots` that hold a value.
pub open spec fn lists_present<C>(slots: Seq<Option<C>>, r: Seq<usize>) -> bool {
    &&& forall|k: int| 0 <= k < r.len() ==> r[k] < slots.len() && (#[trigger] slots[r[k] as int]) is Some
    &&& forall|k: int, l: int| 0 <= k < l < r.len() ==> r[k] < r[l]
    &&& forall|i: int| 0 <= i < slots.len() && (#[trigger] slots[i]) is Some ==> r.contains(i as usize)
}

/// What every component column offers, whatever the type it stores.
pub trait ComponentVec {
    /// The type of the stored components.
    type Item;

    /// The column's slots, one per entity.
    spec fn slots(&self) -> Seq<Option<Self::Item>>;

    /// Appends an absent slot, leaving every other slot as it was.
    fn push_none(&mut self)
        ensures
            final(self).slots() == old(self).slots().push(None),
    ;

    /// Number of slots.
    fn slot_count(&self) -> (r: usize)
        ensures
            r == self.slots().len(),
    ;
}

/// A dense, index-aligned column of optional values of one component type.
pub struct ComponentTable<C> {
    slots: Vec<Option<C>>,
}

impl<C> View for ComponentTable<C> {
    type V = Seq<Option<C>>;

    closed spec fn view(&self) -> Seq<Option<C>> {
        self.slots@
    }
}

impl<C> ComponentVec for ComponentTable<C> {
    type Item = C;

    open spec fn slots(&self) -> Seq<Option<C>> {
        self@
    }

    fn push_none(&mut self) {
        self.push_absent();
    }

    fn slot_count(&self) -> (r: usize) {
        self.slots.len()
    }
}

impl<C> ComponentTable<C> {
    /// An empty column.
    pub fn new() -> (r: Self)
        ensures
            r@ == Seq::<Option<C>>::empty(),
    {
        ComponentTable { slots: Vec::new() }
    }

    /// A column of `n` absent slots.
    pub fn with_absent(n: usize) -> (r: Self)
        ensures
            r@ == absent_column::<C>(n as nat),
    {
        let mut slots: Vec<Option<C>> = Vec::with_capacity(n);
        let mut i: usize = 0;
        while i < n
            invariant
                i <= n,
                slots@ =~= absent_column::<C>(i as nat),
            decreases n - i,
        {
            slots.push(None);
            i = i + 1;
        }
        ComponentTable { slots }
    }

    /// Number of slots, that is of entities the column is aligned with.
    pub fn len(&self) -> (r: usize)
        ensures
            r == self@.len(),
    {
        self.slots.len()
    }

    /// Appends an absent slot.
    pub fn push_absent(&mut self)
        ensures
            final(self)@ == old(self)@.push(None),
    {
        self.slots.push(None);
    }

    /// Stores `value` in the slot of `entity`, replacing what was there.
    pub fn set(&mut self, entity: usize, value: C)
        requires
            entity < old(self)@.len(),
        ensures
            final(self)@ == old(self)@.update(entity as int, Some(value)),
    {
        self.slots.set(entity, Some(value));
    }

    /// The value held by `entity`, if it has one.
    pub fn get(&self, entity: usize) -> (r: Option<&C>)
        requires
            entity < self@.len(),
        ensures
            r is Some == self@[entity as int] is Some,
            r is Some ==> *r.unwrap() == self@[entity as int].unwrap(),
    {
        match &self.slots[entity] {
            Some(v) => Some(v),
            None => None,
        }
    }

    /// The entities that hold a value, in increasing order, each once; absent slots are skipped.
    pub fn present_entities(&self) -> (r: Vec<usize>)
        ensures
            lists_present(self@, r@),
    {
        let mut r: Vec<usize> = Vec::new();
        let mut i: usize = 0;
        while i < self.slots.len()
            invariant
                i <= self.slots@.len(),
                forall|k: int| 0 <= k < r@.len() ==> #[trigger] r@[k] < i,
                forall|k: int| 0 <= k < r@.len() ==> (#[trigger] self.slots@[r@[k] as int]) is Some,
                forall|k: int, l: int| 0 <= k < l < r@.len() ==> r@[k] < r@[l],
                forall|j: int| 0 <= j < i && (#[trigger] self.slots@[j]) is Some ==> r@.contains(j as usize),
            decreases self.slots@.len() - i,
        {
            if self.slots[i].is_some() {
                let ghost before = r@;
                r.push(i);
                assert(forall|k: int| 0 <= k < before.len() ==> r@[k] == before[k] && before[k] < i);
                assert forall|j: int| 0 <= j < i + 1 && (#[trigger] self.slots@[j]) is Some implies r@.contains(j as usize) by {
                    if j < i {
                        let w = choose|w: int| 0 <= w < before.len() && before[w] == j as usize;
                        assert(r@[w] == j as usize);
                    } else {
                        assert(r@[before.len() as int] == i);
                    }
                }
            }
            i = i + 1;
        }
        r
    }

    /// Removes and returns the value held by `entity`, leaving its slot absent.
    pub fn take(&mut self, entity: usize) -> (r: Option<C>)
        requires
            entity < old(self)@.len(),
        ensures
            r == old(self)@[entity as int],
            final(self)@ == old(self)@.update(entity as int, None),
    {
        let mut out: Option<C> = None;
        let slot = self.slot_mut(entity);
        std::mem::swap(slot, &mut out);
        out
    }

    /// Mutable access to the slot of `entity`.
    pub fn slot_mut(&mut self, entity: usize) -> (r: &mut Option<C>)
        requires
            entity < old(self)@.len(),
        ensures
            *r == old(self)@[entity as int],
            final(self)@ == old(self)@.update(entity as int, *final(r)),
    {
        &mut self.slots[entity]
    }
}


} // verus!
