//! Grouping instanced entities by mesh.

use std::collections::HashMap;
use std::collections::HashSet;
use vstd::prelude::*;
use crate::record::{record_views, record_words, InstanceRecord, LocalToWorld, Material};

verus! {

broadcast use vstd::std_specs::hash::group_hash_axioms;

/// One entity of the snapshot: an entity that carries a material, a
/// transform, a mesh reference and the instancing tag.
#[derive(Clone, Copy, Debug)]
pub struct InstancedEntity {
    pub material: Material,
    pub transform: LocalToWorld,
    pub mesh_id: usize,
}

impl InstancedEntity {
    /// The words of the record that this entity contributes.
    pub open spec fn words(self) -> Seq<u32> {
        record_words(self.transform, self.material)
    }
}

/// The records of all entities that share one mesh, in visiting order.
#[derive(Debug)]
pub struct Batch {
    pub mesh_id: usize,
    pub records: Vec<InstanceRecord>,
}

/// A batch as plain values: its mesh and the words of each record.
pub struct BatchView {
    pub mesh_id: usize,
    pub records: Seq<Seq<u32>>,
}

impl View for Batch {
    type V = BatchView;

    open spec fn view(&self) -> BatchView {
        BatchView { mesh_id: self.mesh_id, records: record_views(self.records@) }
    }
}

/// The views of a sequence of batches.
pub open spec fn batch_views(batches: Seq<Batch>) -> Seq<BatchView> {
    batches.map_values(|b: Batch| b@)
}

/// Whether an entity references the given mesh.
pub open spec fn uses_mesh(mesh_id: usize) -> spec_fn(InstancedEntity) -> bool {
    |e: InstancedEntity| e.mesh_id == mesh_id
}

/// The distinct mesh identifiers of a snapshot, each at the place of its
/// first appearance.
pub open spec fn mesh_keys(entities: Seq<InstancedEntity>) -> Seq<usize>
    decreases entities.len(),
{
    if entities.len() == 0 {
        Seq::empty()
    } else {
        let before = mesh_keys(entities.drop_last());
        if before.contains(entities.last().mesh_id) {
            before
        } else {
            before.push(entities.last().mesh_id)
        }
    }
}

/// The records of the entities that reference `mesh_id`, in snapshot order.
pub open spec fn group_words(entities: Seq<InstancedEntity>, mesh_id: usize) -> Seq<Seq<u32>> {
    entities.filter(uses_mesh(mesh_id)).map_values(|e: InstancedEntity| e.words())
}

/// The batch set of a snapshot: one batch per distinct mesh, in order of
/// first appearance, each holding the records of its entities in snapshot
/// order.
pub open spec fn batches_of(entities: Seq<InstancedEntity>) -> Seq<BatchView> {
    let keys = mesh_keys(entities);
    Seq::new(
        keys.len(),
        |i: int| BatchView { mesh_id: keys[i], records: group_words(entities, keys[i]) },
    )
}

/// The mesh keys hold no identifier twice, and hold exactly the identifiers
/// that occur in the snapshot.
pub proof fn lemma_mesh_keys(entities: Seq<InstancedEntity>)
    ensures
        mesh_keys(entities).no_duplicates(),
        forall|m: usize|
            mesh_keys(entities).contains(m) <==> exists|i: int|
                0 <= i < entities.len() && (#[trigger] entities[i]).mesh_id == m,
    decreases entities.len(),
{
    if entities.len() > 0 {
        let before = entities.drop_last();
        let last = entities.last();
        lemma_mesh_keys(before);
        let keys = mesh_keys(entities);
        assert forall|m: usize| mesh_keys(entities).contains(m) implies exists|i: int|
            0 <= i < entities.len() && (#[trigger] entities[i]).mesh_id == m by {
            if mesh_keys(before).contains(m) {
                let i = choose|i: int| 0 <= i < before.len() && (#[trigger] before[i]).mesh_id == m;
                assert(entities[i].mesh_id == m);
            } else {
                let k = choose|k: int| 0 <= k < keys.len() && keys[k] == m;
                assert(k == keys.len() - 1);
                assert(entities[entities.len() - 1].mesh_id == m);
            }
        }
        assert forall|m: usize|
            (exists|i: int| 0 <= i < entities.len() && (#[trigger] entities[i]).mesh_id == m)
            implies mesh_keys(entities).contains(m) by {
            let i = choose|i: int| 0 <= i < entities.len() && (#[trigger] entities[i]).mesh_id == m;
            if i < before.len() {
                assert(before[i].mesh_id == m);
                assert(mesh_keys(before).contains(m));
                let k = choose|k: int| 0 <= k < mesh_keys(before).len() && mesh_keys(before)[k] == m;
                assert(keys[k] == m);
            } else {
                if mesh_keys(before).contains(m) {
                } else {
                    assert(keys[keys.len() - 1] == m);
                }
            }
        }
    }
}

/// The records of a mesh after one more entity was visited.
pub proof fn lemma_group_words_push(entities: Seq<InstancedEntity>, e: InstancedEntity, mesh_id: usize)
    ensures
        group_words(entities.push(e), mesh_id) == if e.mesh_id == mesh_id {
            group_words(entities, mesh_id).push(e.words())
        } else {
            group_words(entities, mesh_id)
        },
{
    entities.lemma_filter_push(e, uses_mesh(mesh_id));
    if e.mesh_id == mesh_id {
        assert(entities.filter(uses_mesh(mesh_id)).push(e).map_values(|e: InstancedEntity| e.words())
            =~= group_words(entities, mesh_id).push(e.words()));
    }
}

/// A mesh that no entity references has no records.
pub proof fn lemma_group_words_absent(entities: Seq<InstancedEntity>, mesh_id: usize)
    requires
        !mesh_keys(entities).contains(mesh_id),
    ensures
        group_words(entities, mesh_id) == Seq::<Seq<u32>>::empty(),
    decreases entities.len(),
{
    if entities.len() == 0 {
        assert(entities.filter(uses_mesh(mesh_id)).len() == 0) by {
            reveal(Seq::filter);
        }
        assert(group_words(entities, mesh_id) =~= Seq::<Seq<u32>>::empty());
    } else {
        let before = entities.drop_last();
        assert(entities =~= before.push(entities.last()));
        lemma_mesh_keys(entities);
        lemma_mesh_keys(before);
        assert(entities[entities.len() - 1].mesh_id != mesh_id);
        assert(!mesh_keys(before).contains(mesh_id)) by {
            if mesh_keys(before).contains(mesh_id) {
                let i = choose|i: int| 0 <= i < before.len() && (#[trigger] before[i]).mesh_id == mesh_id;
                assert(entities[i].mesh_id == mesh_id);
            }
        }
        lemma_group_words_absent(before, mesh_id);
        lemma_group_words_push(before, entities.last(), mesh_id);
    }
}

/// How the batch set grows when one more entity is visited: the entity's
/// record is appended to the batch of its mesh, or opens a new last batch.
pub proof fn lemma_batches_push(entities: Seq<InstancedEntity>, e: InstancedEntity)
    ensures
        mesh_keys(entities).contains(e.mesh_id) ==> {
            let j = mesh_keys(entities).index_of(e.mesh_id);
            let old_batch = batches_of(entities)[j];
            &&& 0 <= j < batches_of(entities).len()
            &&& batches_of(entities.push(e)) == batches_of(entities).update(
                j,
                BatchView { mesh_id: e.mesh_id, records: old_batch.records.push(e.words()) },
            )
        },
        !mesh_keys(entities).contains(e.mesh_id) ==> batches_of(entities.push(e)) == batches_of(
            entities,
        ).push(BatchView { mesh_id: e.mesh_id, records: seq![e.words()] }),
{
    let after = entities.push(e);
    assert(after.drop_last() =~= entities);
    lemma_mesh_keys(entities);
    let keys = mesh_keys(entities);
    assert forall|m: usize| true implies #[trigger] group_words(after, m) == if e.mesh_id == m {
        group_words(entities, m).push(e.words())
    } else {
        group_words(entities, m)
    } by {
        lemma_group_words_push(entities, e, m);
    }
    if keys.contains(e.mesh_id) {
        let j = keys.index_of(e.mesh_id);
        assert(mesh_keys(after) == keys);
        assert(batches_of(after) =~= batches_of(entities).update(
            j,
            BatchView { mesh_id: e.mesh_id, records: batches_of(entities)[j].records.push(e.words()) },
        ));
    } else {
        lemma_group_words_absent(entities, e.mesh_id);
        assert(mesh_keys(after) == keys.push(e.mesh_id));
        assert(group_words(after, e.mesh_id) =~= seq![e.words()]);
        assert(batches_of(after) =~= batches_of(entities).push(
            BatchView { mesh_id: e.mesh_id, records: seq![e.words()] },
        ));
    }
}

/// The number of records in a batch set.
pub open spec fn total_instances(batches: Seq<BatchView>) -> nat
    decreases batches.len(),
{
    if batches.len() == 0 {
        0
    } else {
        total_instances(batches.drop_last()) + batches.last().records.len()
    }
}

/// The mesh identifiers that occur in a snapshot.
pub open spec fn mesh_ids(entities: Seq<InstancedEntity>) -> Set<usize> {
    entities.map_values(|e: InstancedEntity| e.mesh_id).to_set()
}

proof fn lemma_total_push(batches: Seq<BatchView>, batch: BatchView)
    ensures
        total_instances(batches.push(batch)) == total_instances(batches) + batch.records.len(),
{
    assert(batches.push(batch).drop_last() =~= batches);
}

proof fn lemma_total_update(batches: Seq<BatchView>, j: int, batch: BatchView)
    requires
        0 <= j < batches.len(),
    ensures
        total_instances(batches.update(j, batch)) + batches[j].records.len() == total_instances(
            batches,
        ) + batch.records.len(),
    decreases batches.len(),
{
    if j == batches.len() - 1 {
        assert(batches.update(j, batch).drop_last() =~= batches.drop_last());
    } else {
        assert(batches.update(j, batch).drop_last() =~= batches.drop_last().update(j, batch));
        lemma_total_update(batches.drop_last(), j, batch);
    }
}

/// A snapshot of N entities over M distinct meshes gives M batches, none of
/// them empty, and the batches hold N records between them.
pub proof fn lemma_batch_count_and_total(entities: Seq<InstancedEntity>)
    ensures
        mesh_ids(entities).finite(),
        batches_of(entities).len() == mesh_ids(entities).len(),
        total_instances(batches_of(entities)) == entities.len(),
        forall|k: int|
            0 <= k < batches_of(entities).len() ==> (#[trigger] batches_of(entities)[k]).records.len()
                > 0,
    decreases entities.len(),
{
    let keys = mesh_keys(entities);
    let ids = entities.map_values(|e: InstancedEntity| e.mesh_id);
    lemma_mesh_keys(entities);
    keys.unique_seq_to_set();
    assert(keys.to_set() =~= ids.to_set()) by {
        assert forall|m: usize| keys.to_set().contains(m) <==> ids.to_set().contains(m) by {
            if keys.contains(m) {
                let i = choose|i: int| 0 <= i < entities.len() && (#[trigger] entities[i]).mesh_id == m;
                assert(ids[i] == m);
            }
            if ids.contains(m) {
                let i = choose|i: int| 0 <= i < ids.len() && ids[i] == m;
                assert(entities[i].mesh_id == m);
            }
        }
    }
    if entities.len() > 0 {
        let before = entities.drop_last();
        let last = entities.last();
        assert(entities =~= before.push(last));
        lemma_batch_count_and_total(before);
        lemma_batches_push(before, last);
        lemma_mesh_keys(before);
        if mesh_keys(before).contains(last.mesh_id) {
            let j = mesh_keys(before).index_of(last.mesh_id);
            lemma_total_update(
                batches_of(before),
                j,
                BatchView {
                    mesh_id: last.mesh_id,
                    records: batches_of(before)[j].records.push(last.words()),
                },
            );
        } else {
            lemma_total_push(
                batches_of(before),
                BatchView { mesh_id: last.mesh_id, records: seq![last.words()] },
            );
        }
        assert forall|k: int| 0 <= k < batches_of(entities).len() implies (#[trigger] batches_of(
            entities,
        )[k]).records.len() > 0 by {
            if k < batches_of(before).len() {
                assert(batches_of(before)[k].records.len() > 0);
            }
        }
    }
}

/// The records of a mesh in two snapshots laid end to end are its records
/// in the first followed by its records in the second.
pub proof fn lemma_group_words_add(a: Seq<InstancedEntity>, b: Seq<InstancedEntity>, mesh_id: usize)
    ensures
        group_words(a + b, mesh_id) == group_words(a, mesh_id) + group_words(b, mesh_id),
{
    Seq::filter_distributes_over_add(a, b, uses_mesh(mesh_id));
    assert(group_words(a + b, mesh_id) =~= group_words(a, mesh_id) + group_words(b, mesh_id));
}

/// An entity that leaves the snapshot leaves the batch set. Its own record
/// is cut out of the batch of its mesh, every other record stays where it
/// was, and the set holds one record fewer.
pub proof fn lemma_remove_entity(entities: Seq<InstancedEntity>, i: int, mesh_id: usize)
    requires
        0 <= i < entities.len(),
    ensures
        group_words(entities, mesh_id) == group_words(entities.take(i), mesh_id) + (if entities[i].mesh_id
            == mesh_id {
            seq![entities[i].words()]
        } else {
            Seq::empty()
        }) + group_words(entities.skip(i + 1), mesh_id),
        group_words(entities.remove(i), mesh_id) == group_words(entities.take(i), mesh_id)
            + group_words(entities.skip(i + 1), mesh_id),
        total_instances(batches_of(entities.remove(i))) == entities.len() - 1,
{
    let head = entities.take(i);
    let tail = entities.skip(i + 1);
    assert(entities =~= head.push(entities[i]) + tail);
    assert(entities.remove(i) =~= head + tail);
    lemma_group_words_push(head, entities[i], mesh_id);
    lemma_group_words_add(head.push(entities[i]), tail, mesh_id);
    lemma_group_words_add(head, tail, mesh_id);
    assert(group_words(head, mesh_id).push(entities[i].words()) =~= group_words(head, mesh_id)
        + seq![entities[i].words()]);
    assert(group_words(head, mesh_id) =~= group_words(head, mesh_id) + Seq::<Seq<u32>>::empty());
    lemma_batch_count_and_total(entities.remove(i));
}


/// Groups a snapshot of instanced entities by mesh: one batch per distinct
/// mesh, in order of first appearance, each with the records of its entities
/// in snapshot order.
pub fn group_by_mesh(entities: &Vec<InstancedEntity>) -> (batches: Vec<Batch>)
    ensures
        batch_views(batches@) == batches_of(entities@),
        batches.len() == mesh_keys(entities@).len(),
        forall|k: int|
            0 <= k < batches.len() ==> (#[trigger] batches[k]).mesh_id == mesh_keys(entities@)[k]
                && record_views(batches[k].records@) == group_words(entities@, batches[k].mesh_id),
{
    let mut batches: Vec<Batch> = Vec::new();
    // The place in `batches` of the batch of each mesh seen so far.
    let mut places: HashMap<usize, usize> = HashMap::new();
    let mut i: usize = 0;
    assert(batch_views(batches@) =~= batches_of(entities@.take(0)));
    while i < entities.len()
        invariant
            i <= entities.len(),
            batch_views(batches@) == batches_of(entities@.take(i as int)),
            forall|m: usize|
                places@.contains_key(m) <==> mesh_keys(entities@.take(i as int)).contains(m),
            forall|m: usize| #[trigger]
                places@.contains_key(m) ==> places@[m] < batches.len() && mesh_keys(
                    entities@.take(i as int),
                )[places@[m] as int] == m,
        decreases entities.len() - i,
    {
        let entity = &entities[i];
        let record = InstanceRecord::new(&entity.transform, &entity.material);
        let ghost visited = entities@.take(i as int);
        let ghost before = batches@;
        let ghost keys = mesh_keys(visited);
        proof {
            lemma_batches_push(visited, *entity);
            lemma_mesh_keys(visited);
            assert(entities@.take(i + 1) =~= visited.push(*entity));
            assert(forall|k: int| 0 <= k < before.len() ==> batch_views(before)[k] == before[k]@);
            assert(batch_views(before).len() == keys.len());
            assert(visited.push(*entity).drop_last() =~= visited);
            assert(mesh_keys(visited.push(*entity)) == if keys.contains(entity.mesh_id) {
                keys
            } else {
                keys.push(entity.mesh_id)
            });
        }
        let place: Option<usize> = match places.get(&entity.mesh_id) {
            Some(j) => Some(*j),
            None => None,
        };
        match place {
            Some(j) => {
                batches[j].records.push(record);
                proof {
                    assert(places@.contains_key(entity.mesh_id));
                    assert(keys[j as int] == entity.mesh_id);
                    assert(keys.contains(entity.mesh_id));
                    assert(keys.index_of(entity.mesh_id) == j);
                    assert(batches@[j as int]@.records =~= before[j as int]@.records.push(record@));
                    assert(batch_views(batches@) =~= batches_of(visited.push(*entity)));
                }
            },
            None => {
                let mut records: Vec<InstanceRecord> = Vec::new();
                records.push(record);
                places.insert(entity.mesh_id, batches.len());
                batches.push(Batch { mesh_id: entity.mesh_id, records });
                proof {
                    assert(!keys.contains(entity.mesh_id));
                    assert(batches@.last()@.records =~= seq![record@]);
                    assert(batch_views(batches@) =~= batches_of(visited.push(*entity)));
                    let grown = mesh_keys(visited.push(*entity));
                    assert(grown == keys.push(entity.mesh_id));
                    assert forall|m: usize| places@.contains_key(m) <==> grown.contains(m) by {
                        if m == entity.mesh_id {
                            assert(grown[grown.len() - 1] == m);
                        } else if keys.contains(m) {
                            let k = keys.index_of(m);
                            assert(grown[k] == m);
                        } else if grown.contains(m) {
                            let k = grown.index_of(m);
                            assert(keys[k] == m);
                        }
                    }
                }
            },
        }
        i += 1;
    }
    assert(entities@.take(entities.len() as int) =~= entities@);
    assert(batch_views(batches@).len() == batches.len());
    assert forall|k: int| 0 <= k < batches.len() implies (#[trigger] batches[k]).mesh_id
        == mesh_keys(entities@)[k] && record_views(batches[k].records@) == group_words(
        entities@,
        batches[k].mesh_id,
    ) by {
        assert(batch_views(batches@)[k] == batches[k]@);
        assert(batches_of(entities@)[k].mesh_id == mesh_keys(entities@)[k]);
    }
    batches
}

/// The distinct meshes of a snapshot, each at the place of its first
/// appearance.
pub fn distinct_meshes(entities: &Vec<InstancedEntity>) -> (keys: Vec<usize>)
    ensures
        keys@ == mesh_keys(entities@),
{
    let mut keys: Vec<usize> = Vec::new();
    let mut seen: HashSet<usize> = HashSet::new();
    let mut i: usize = 0;
    assert(entities@.take(0) =~= Seq::<InstancedEntity>::empty());
    while i < entities.len()
        invariant
            i <= entities.len(),
            keys@ == mesh_keys(entities@.take(i as int)),
            forall|m: usize| seen@.contains(m) <==> keys@.contains(m),
        decreases entities.len() - i,
    {
        let mesh_id = entities[i].mesh_id;
        let ghost visited = entities@.take(i as int);
        let ghost before = keys@;
        proof {
            assert(entities@.take(i + 1) =~= visited.push(entities[i as int]));
            assert(visited.push(entities[i as int]).drop_last() =~= visited);
        }
        if !seen.contains(&mesh_id) {
            seen.insert(mesh_id);
            keys.push(mesh_id);
            proof {
                assert forall|m: usize| seen@.contains(m) <==> keys@.contains(m) by {
                    if m == mesh_id {
                        assert(keys@[keys@.len() - 1] == m);
                    } else if before.contains(m) {
                        let k = before.index_of(m);
                        assert(keys@[k] == m);
                    } else if keys@.contains(m) {
                        let k = keys@.index_of(m);
                        assert(before[k] == m);
                    }
                }
            }
        }
        i += 1;
    }
    assert(entities@.take(entities.len() as int) =~= entities@);
    keys
}

} // verus!
