use vstd::prelude::*;

use std::collections::HashMap;

use crate::table::{absent_column, lists_present, Component, ComponentTable};

verus! {

broadcast use vstd::std_specs::hash::group_hash_axioms;

/// The scene store: the entity count and one column per registered component type,
/// keyed by the type's identity. The caller gives each component type its key; `V`
/// is the type of the stored values (for several component types, one enum of them).
/// Columns are created on the first value of their type and never removed, and every
/// column always has exactly one slot per entity.
pub struct Scene<V> {
    entities_index: usize,
    component_map: HashMap<u64, ComponentTable<V>>,
    /// The keys of `component_map`, each once, so that every column can be visited.
    keys: Vec<u64>,
}

/// The column that `add_component_to_entity` leaves for `key` after writing `value` at `entity`.
pub open spec fn column_after_insert<V>(
    tables: Map<u64, Seq<Option<V>>>,
    count: nat,
    key: u64,
    entity: int,
    value: V,
) -> Seq<Option<V>> {
    if tables.contains_key(key) {
        tables[key].update(entity, Some(value))
    } else {
        absent_column::<V>(count).update(entity, Some(value))
    }
}

/// The columns after `add_component_to_entity(key, entity, value)`.
pub open spec fn tables_after_insert<V>(
    tables: Map<u64, Seq<Option<V>>>,
    count: nat,
    key: u64,
    entity: int,
    value: V,
) -> Map<u64, Seq<Option<V>>> {
    tables.insert(key, column_after_insert(tables, count, key, entity, value))
}

/// Entity `entity` owns a component of every type in `keys`.
pub open spec fn owns_all<V>(tables: Map<u64, Seq<Option<V>>>, keys: Seq<u64>, entity: int) -> bool {
    forall|j: int| 0 <= j < keys.len() ==> tables.contains_key(#[trigger] keys[j]) && tables[keys[j]][entity] is Some
}

/// `r` lists, in increasing order, exactly the entities below `count` that own a
/// component of every type in `keys`.
pub open spec fn lists_owners<V>(tables: Map<u64, Seq<Option<V>>>, keys: Seq<u64>, count: nat, r: Seq<usize>) -> bool {
    &&& forall|k: int| 0 <= k < r.len() ==> #[trigger] r[k] < count && owns_all(tables, keys, r[k] as int)
    &&& forall|k: int, l: int| 0 <= k < l < r.len() ==> r[k] < r[l]
    &&& forall|i: int| 0 <= i < count && #[trigger] owns_all(tables, keys, i) ==> r.contains(i as usize)
}

/// Every registered column with an absent slot appended.
pub open spec fn tables_after_new_entity<V>(tables: Map<u64, Seq<Option<V>>>) -> Map<u64, Seq<Option<V>>> {
    Map::new(|k: u64| tables.contains_key(k), |k: u64| tables[k].push(None))
}

impl<V: Component> Scene<V> {
    /// Number of entities created so far; valid entity indices are below it.
    pub closed spec fn entity_count(&self) -> nat {
        self.entities_index as nat
    }

    /// The registered columns, by component-type identity.
    pub closed spec fn tables(&self) -> Map<u64, Seq<Option<V>>> {
        Map::new(|k: u64| self.component_map@.contains_key(k), |k: u64| self.component_map@[k]@)
    }

    /// The store's internal invariant.
    pub closed spec fn wf(&self) -> bool {
        &&& forall|k: u64| #[trigger] self.component_map@.contains_key(k) ==> self.component_map@[k]@.len() == self.entities_index
        &&& self.keys@.no_duplicates()
        &&& forall|k: u64| #[trigger] self.component_map@.contains_key(k) <==> self.keys@.contains(k)
    }

    /// Every registered column is as long as the entity count.
    pub proof fn lemma_aligned(&self)
        requires
            self.wf(),
        ensures
            forall|k: u64| #[trigger] self.tables().contains_key(k) ==> self.tables()[k].len() == self.entity_count(),
    {
    }

    /// An empty scene: no entity, no column.
    pub fn new() -> (r: Self)
        ensures
            r.wf(),
            r.entity_count() == 0,
            r.tables() == Map::<u64, Seq<Option<V>>>::empty(),
    {
        let r = Scene { entities_index: 0, component_map: HashMap::new(), keys: Vec::new() };
        assert(r.tables() =~= Map::<u64, Seq<Option<V>>>::empty());
        r
    }

    /// Number of entities created so far.
    pub fn entities_index(&self) -> (r: usize)
        ensures
            r == self.entity_count(),
    {
        self.entities_index
    }

    /// Removes the column registered for `key` from the map, to be put back by `restore_column`.
    fn take_column(&mut self, key: u64) -> (r: ComponentTable<V>)
        requires
            old(self).component_map@.contains_key(key),
        ensures
            r == old(self).component_map@[key],
            final(self).component_map@ == old(self).component_map@.remove(key),
            final(self).keys == old(self).keys,
            final(self).entities_index == old(self).entities_index,
    {
        self.component_map.remove(&key).unwrap()
    }

    /// Creates an entity: appends an absent slot to every registered column and
    /// returns the new entity's index.
    pub fn new_entity(&mut self) -> (r: usize)
        requires
            old(self).wf(),
            old(self).entity_count() < usize::MAX,
        ensures
            final(self).wf(),
            r == old(self).entity_count(),
            final(self).entity_count() == old(self).entity_count() + 1,
            final(self).tables() == tables_after_new_entity(old(self).tables()),
    {
        let entity_id = self.entities_index;
        let ghost old_map = self.component_map@;
        let mut i: usize = 0;
        while i < self.keys.len()
            invariant
                i <= self.keys@.len(),
                self.keys == old(self).keys,
                self.keys@.no_duplicates(),
                self.entities_index == entity_id,
                forall|k: u64| #[trigger] self.component_map@.contains_key(k) <==> old_map.contains_key(k),
                forall|k: u64| #[trigger] old_map.contains_key(k) <==> self.keys@.contains(k),
                forall|j: int| 0 <= j < i ==> self.component_map@[#[trigger] self.keys@[j]]@ == old_map[self.keys@[j]]@.push(None),
                forall|j: int| i <= j < self.keys@.len() ==> self.component_map@[#[trigger] self.keys@[j]] == old_map[self.keys@[j]],
            decreases self.keys@.len() - i,
        {
            let key = self.keys[i];
            assert(self.keys@.contains(key));
            let ghost before = self.component_map@;
            let mut table = self.take_column(key);
            table.push_absent();
            self.component_map.insert(key, table);
            assert forall|j: int| 0 <= j < self.keys@.len() && j != i implies #[trigger] self.keys@[j] != key by {
            }
            i = i + 1;
        }
        self.entities_index = self.entities_index + 1;
        assert forall|k: u64| #[trigger] self.component_map@.contains_key(k) implies self.component_map@[k]@ == old_map[k]@.push(None) by {
            assert(self.keys@.contains(k));
            let j = choose|j: int| 0 <= j < self.keys@.len() && self.keys@[j] == k;
            assert(self.component_map@[self.keys@[j]]@ == old_map[self.keys@[j]]@.push(None));
        }
        assert(self.tables() =~= tables_after_new_entity(old(self).tables()));
        entity_id
    }

    /// Stores `component` as the `key` component of `entity`. A type seen for the first
    /// time gets a new column, absent for every other entity.
    pub fn add_component_to_entity(&mut self, key: u64, entity: usize, component: V)
        requires
            old(self).wf(),
            entity < old(self).entity_count(),
        ensures
            final(self).wf(),
            final(self).entity_count() == old(self).entity_count(),
            final(self).tables() == tables_after_insert(
                old(self).tables(),
                old(self).entity_count(),
                key,
                entity as int,
                component,
            ),
    {
        let ghost old_tables = self.tables();
        if self.component_map.contains_key(&key) {
            let mut table = self.take_column(key);
            table.set(entity, component);
            self.component_map.insert(key, table);
        } else {
            let mut table = ComponentTable::with_absent(self.entities_index);
            table.set(entity, component);
            self.component_map.insert(key, table);
            self.keys.push(key);
            assert forall|k: u64| #[trigger] self.component_map@.contains_key(k) <==> self.keys@.contains(k) by {
                if k != key {
                    if old(self).keys@.contains(k) {
                        let j = choose|j: int| 0 <= j < old(self).keys@.len() && old(self).keys@[j] == k;
                        assert(self.keys@[j] == k);
                    }
                    if self.keys@.contains(k) {
                        let j = choose|j: int| 0 <= j < self.keys@.len() && self.keys@[j] == k;
                        assert(old(self).keys@[j] == k);
                    }
                } else {
                    assert(self.keys@[old(self).keys@.len() as int] == k);
                }
            }
        }
        assert(self.tables() =~= tables_after_insert(old_tables, self.entities_index as nat, key, entity as int, component));
    }

    /// The column registered for `key`, or `None` when no entity ever received that type.
    pub fn get_component_vec(&self, key: u64) -> (r: Option<&ComponentTable<V>>)
        requires
            self.wf(),
        ensures
            r is Some == self.tables().contains_key(key),
            r is Some ==> r.unwrap()@ == self.tables()[key],
    {
        self.component_map.get(&key)
    }

    /// Removes and returns the `key` component of `entity`, leaving its slot absent;
    /// `None` when the entity has none.
    pub fn take_component(&mut self, key: u64, entity: usize) -> (r: Option<V>)
        requires
            old(self).wf(),
            entity < old(self).entity_count(),
        ensures
            final(self).wf(),
            final(self).entity_count() == old(self).entity_count(),
            old(self).tables().contains_key(key) ==> r == old(self).tables()[key][entity as int]
                && final(self).tables() == old(self).tables().insert(key, old(self).tables()[key].update(entity as int, None)),
            !old(self).tables().contains_key(key) ==> r is None && final(self).tables() == old(self).tables(),
    {
        let ghost old_tables = self.tables();
        if self.component_map.contains_key(&key) {
            let mut table = self.take_column(key);
            let r = table.take(entity);
            self.component_map.insert(key, table);
            assert(self.tables() =~= old_tables.insert(key, old_tables[key].update(entity as int, None)));
            r
        } else {
            None
        }
    }

    /// The entities that own a `key` component, in increasing order, each once;
    /// empty when no column is registered for `key`.
    pub fn entities_with(&self, key: u64) -> (r: Vec<usize>)
        requires
            self.wf(),
        ensures
            self.tables().contains_key(key) ==> lists_present(self.tables()[key], r@),
            !self.tables().contains_key(key) ==> r@.len() == 0,
    {
        match self.component_map.get(&key) {
            Some(t) => t.present_entities(),
            None => Vec::new(),
        }
    }

    /// Whether `entity` owns a component of every type in `keys`.
    fn owns_all_keys(&self, keys: &Vec<u64>, entity: usize) -> (r: bool)
        requires
            self.wf(),
            entity < self.entity_count(),
        ensures
            r == owns_all(self.tables(), keys@, entity as int),
    {
        let mut j: usize = 0;
        while j < keys.len()
            invariant
                self.wf(),
                entity < self.entity_count(),
                j <= keys@.len(),
                forall|m: int| 0 <= m < j ==> self.tables().contains_key(#[trigger] keys@[m]) && self.tables()[keys@[m]][entity as int] is Some,
            decreases keys@.len() - j,
        {
            match self.component_map.get(&keys[j]) {
                Some(t) => {
                    if t.get(entity).is_none() {
                        return false;
                    }
                },
                None => {
                    return false;
                },
            }
            j = j + 1;
        }
        true
    }

    /// The entities that own a component of every type in `keys`, in increasing
    /// order, each once; entities missing any of them are skipped.
    pub fn entities_with_all(&self, keys: &Vec<u64>) -> (r: Vec<usize>)
        requires
            self.wf(),
        ensures
            lists_owners(self.tables(), keys@, self.entity_count(), r@),
    {
        let mut r: Vec<usize> = Vec::new();
        let mut i: usize = 0;
        while i < self.entities_index
            invariant
                self.wf(),
                i <= self.entities_index,
                forall|k: int| 0 <= k < r@.len() ==> #[trigger] r@[k] < i && owns_all(self.tables(), keys@, r@[k] as int),
                forall|k: int, l: int| 0 <= k < l < r@.len() ==> r@[k] < r@[l],
                forall|e: int| 0 <= e < i && #[trigger] owns_all(self.tables(), keys@, e) ==> r@.contains(e as usize),
            decreases self.entities_index - i,
        {
            if self.owns_all_keys(keys, i) {
                let ghost before = r@;
                r.push(i);
                assert(forall|k: int| 0 <= k < before.len() ==> r@[k] == before[k]);
                assert forall|e: int| 0 <= e < i + 1 && #[trigger] owns_all(self.tables(), keys@, e) implies r@.contains(e as usize) by {
                    if e < i {
                        let w = choose|w: int| 0 <= w < before.len() && before[w] == e as usize;
                        assert(r@[w] == e as usize);
                    } else {
                        assert(r@[before.len() as int] == i);
                    }
                }
            }
            i = i + 1;
        }
        r
    }

}

} // verus!
