use vstd::prelude::*;

use crate::table::Component;
use crate::scene::{tables_after_insert, tables_after_new_entity, Scene};

verus! {

/// Columns that are all as long as the entity count.
pub open spec fn aligned<V>(tables: Map<u64, Seq<Option<V>>>, count: nat) -> bool {
    forall|k: u64| #[trigger] tables.contains_key(k) ==> tables[k].len() == count
}

/// Every registered column has one slot per entity, and creating an entity or
/// storing a component keeps it so.
pub proof fn law_alignment<V: Component>(scene: Scene<V>, key: u64, entity: int, value: V)
    requires
        scene.wf(),
        0 <= entity < scene.entity_count(),
    ensures
        aligned(scene.tables(), scene.entity_count()),
        aligned(tables_after_new_entity(scene.tables()), scene.entity_count() + 1),
        aligned(
            tables_after_insert(scene.tables(), scene.entity_count(), key, entity, value),
            scene.entity_count(),
        ),
{
    scene.lemma_aligned();
    let t = scene.tables();
    let n = scene.entity_count();
    let grown = tables_after_new_entity(t);
    assert forall|k: u64| #[trigger] grown.contains_key(k) implies grown[k].len() == n + 1 by {
        assert(t.contains_key(k));
    }
    let written = tables_after_insert(t, n, key, entity, value);
    assert forall|k: u64| #[trigger] written.contains_key(k) implies written[k].len() == n by {
        if k != key {
            assert(t.contains_key(k));
        }
    }
}

/// A component type stored for the first time, on entity `k`, gets a column with one
/// slot per entity, where only slot `k` holds a value: the stored one.
pub proof fn law_back_fill<V: Component>(scene: Scene<V>, key: u64, k: int, value: V)
    requires
        scene.wf(),
        !scene.tables().contains_key(key),
        0 <= k < scene.entity_count(),
    ensures
        ({
            let col = tables_after_insert(scene.tables(), scene.entity_count(), key, k, value)[key];
            &&& col.len() == scene.entity_count()
            &&& forall|i: int| 0 <= i < scene.entity_count() && i != k ==> col[i] is None
            &&& col[k] == Some(value)
        }),
{
}

/// Storing `value` as the `key` component of `entity` and then reading that slot of
/// the `key` column gives `value` back.
pub proof fn law_round_trip<V: Component>(scene: Scene<V>, key: u64, entity: int, value: V)
    requires
        scene.wf(),
        0 <= entity < scene.entity_count(),
    ensures
        tables_after_insert(scene.tables(), scene.entity_count(), key, entity, value).contains_key(key),
        tables_after_insert(scene.tables(), scene.entity_count(), key, entity, value)[key][entity] == Some(value),
{
    scene.lemma_aligned();
}

/// A stored value survives the calls that do not write its slot: creating an entity,
/// and storing another value in any other slot, of its column or of another.
pub proof fn law_value_kept<V: Component>(
    scene: Scene<V>,
    key: u64,
    entity: int,
    other_key: u64,
    other_entity: int,
    other_value: V,
)
    requires
        scene.wf(),
        0 <= entity < scene.entity_count(),
        0 <= other_entity < scene.entity_count(),
        other_key != key || other_entity != entity,
        scene.tables().contains_key(key),
    ensures
        tables_after_new_entity(scene.tables()).contains_key(key),
        tables_after_new_entity(scene.tables())[key][entity] == scene.tables()[key][entity],
        tables_after_insert(scene.tables(), scene.entity_count(), other_key, other_entity, other_value)[key][entity]
            == scene.tables()[key][entity],
{
    scene.lemma_aligned();
}

/// Two controllers of one pass that each write only their own slot leave the same
/// columns whichever runs first: each slot written holds its writer's value, and every
/// other slot is left as it was.
pub proof fn law_writes_commute<V: Component>(
    scene: Scene<V>,
    key_a: u64,
    entity_a: int,
    value_a: V,
    key_b: u64,
    entity_b: int,
    value_b: V,
)
    requires
        scene.wf(),
        0 <= entity_a < scene.entity_count(),
        0 <= entity_b < scene.entity_count(),
        key_a != key_b || entity_a != entity_b,
    ensures
        ({
            let t = scene.tables();
            let n = scene.entity_count();
            let ab = tables_after_insert(tables_after_insert(t, n, key_a, entity_a, value_a), n, key_b, entity_b, value_b);
            let ba = tables_after_insert(tables_after_insert(t, n, key_b, entity_b, value_b), n, key_a, entity_a, value_a);
            &&& ab == ba
            &&& ab[key_a][entity_a] == Some(value_a)
            &&& ab[key_b][entity_b] == Some(value_b)
            &&& forall|k: u64, i: int|
                t.contains_key(k) && 0 <= i < n && !(k == key_a && i == entity_a) && !(k == key_b && i == entity_b)
                ==> ab[k][i] == #[trigger] t[k][i]
        }),
{
    scene.lemma_aligned();
    let t = scene.tables();
    let n = scene.entity_count();
    let ab = tables_after_insert(tables_after_insert(t, n, key_a, entity_a, value_a), n, key_b, entity_b, value_b);
    let ba = tables_after_insert(tables_after_insert(t, n, key_b, entity_b, value_b), n, key_a, entity_a, value_a);
    assert(ab.dom() =~= ba.dom());
    assert forall|k: u64| #[trigger] ab.contains_key(k) implies ab[k] == ba[k] by {
        if k == key_a && k == key_b {
            assert(ab[k] =~= ba[k]);
        }
    }
    assert(ab =~= ba);
}

} // verus!
