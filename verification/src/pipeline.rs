//! The instanced forward pass: its state, and what it asks of the device in
//! each frame.

use std::collections::HashMap;
use vstd::prelude::*;
use crate::batch::{
    batch_views, batches_of, distinct_meshes, group_by_mesh, group_words, lemma_group_words_absent,
    lemma_group_words_push, mesh_keys, Batch, BatchView, InstancedEntity,
};
use crate::layout::{
    bind_group_descriptor, pipeline_descriptor, spec_bind_group_descriptor, spec_missing_uniform,
    spec_pipeline_descriptor, BindGroupDescriptor, PipelineDescriptor,
};
use crate::record::{
    flat_words, is_memory_image, pack_records, words_as_bytes, InstanceRecord, RECORD_SIZE,
};

verus! {

broadcast use vstd::std_specs::hash::group_hash_axioms;

/// The instance buffer of one batch: the mesh it is drawn with, the bytes
/// the buffer is filled with and the number of records in them.
#[derive(Debug)]
pub struct InstanceBufferInfo {
    pub mesh_id: usize,
    pub data: Vec<u8>,
    pub instance_count: usize,
}

impl InstanceBufferInfo {
    /// Whether this is the buffer of `batch`: the same mesh, one record
    /// counted per record of the batch, and as data the image in memory of
    /// the batch's records, twenty-eight bytes each.
    pub open spec fn holds(self, batch: BatchView) -> bool {
        &&& self.mesh_id == batch.mesh_id
        &&& self.instance_count == batch.records.len()
        &&& self.data.len() == RECORD_SIZE * batch.records.len()
        &&& is_memory_image(self.data@, flat_words(batch.records))
    }

    /// Packs the records of one mesh straight from the snapshot: the records
    /// of the entities that reference `mesh_id`, in snapshot order.
    pub fn from_snapshot(entities: &Vec<InstancedEntity>, mesh_id: usize) -> (info: Self)
        ensures
            info.holds(BatchView { mesh_id, records: group_words(entities@, mesh_id) }),
    {
        let mut words: Vec<u32> = Vec::new();
        let mut count: usize = 0;
        let mut i: usize = 0;
        proof {
            assert(entities@.take(0) =~= Seq::<InstancedEntity>::empty());
            lemma_group_words_absent(entities@.take(0), mesh_id);
        }
        while i < entities.len()
            invariant
                i <= entities.len(),
                count <= i,
                count == group_words(entities@.take(i as int), mesh_id).len(),
                words.len() == 7 * count,
                words@ == flat_words(group_words(entities@.take(i as int), mesh_id)),
            decreases entities.len() - i,
        {
            let entity = &entities[i];
            let ghost visited = entities@.take(i as int);
            proof {
                assert(entities@.take(i + 1) =~= visited.push(*entity));
                lemma_group_words_push(visited, *entity, mesh_id);
            }
            if entity.mesh_id == mesh_id {
                let record = InstanceRecord::new(&entity.transform, &entity.material);
                record.push_words(&mut words);
                count += 1;
                proof {
                    let grown = group_words(visited, mesh_id).push(entity.words());
                    assert(grown.drop_last() =~= group_words(visited, mesh_id));
                    assert(grown.last() == record@);
                }
            }
            i += 1;
        }
        assert(entities@.take(entities.len() as int) =~= entities@);
        InstanceBufferInfo { mesh_id, data: words_as_bytes(&words), instance_count: count }
    }

    /// Packs one batch.
    pub fn from_batch(batch: &Batch) -> (info: Self)
        ensures
            info.holds(batch@),
    {
        InstanceBufferInfo {
            mesh_id: batch.mesh_id,
            data: pack_records(&batch.records),
            instance_count: batch.records.len(),
        }
    }
}

/// Whether `infos` are the buffers of `batches`, one for one and in order.
pub open spec fn hold_batches(infos: Seq<InstanceBufferInfo>, batches: Seq<BatchView>) -> bool {
    &&& infos.len() == batches.len()
    &&& forall|i: int| 0 <= i < infos.len() ==> (#[trigger] infos[i]).holds(batches[i])
}

/// Where a vertex stream comes from.
#[derive(Clone, Copy, Debug, PartialEq, Eq, Structural)]
pub enum VertexSource {
    /// The vertex buffer of a mesh.
    Mesh { mesh_id: usize },
    /// The instance buffer of the batch at this place of the frame's set.
    Instances { batch: usize },
}

/// One call on the pass recorder.
#[derive(Clone, Copy, Debug, PartialEq, Eq, Structural)]
pub enum DrawCommand {
    /// Bind the shared binding set at this index.
    SetBindGroup { index: u32 },
    /// Make sure that the mesh's vertex and index buffers exist on the device.
    SetupMeshBuffers { mesh_id: usize },
    SetIndexBuffer { mesh_id: usize, offset: u64 },
    SetVertexBuffer { slot: u32, source: VertexSource, offset: u64 },
    /// Draw indices `0..index_count` for instances `0..instance_count`.
    DrawIndexed { index_count: u32, base_vertex: i32, instance_count: u32 },
}

/// The five calls that draw one batch with a mesh of `index_count` indices.
pub open spec fn spec_batch_commands(
    batch: usize,
    mesh_id: usize,
    instance_count: usize,
    index_count: usize,
) -> Seq<DrawCommand> {
    seq![
        DrawCommand::SetupMeshBuffers { mesh_id },
        DrawCommand::SetIndexBuffer { mesh_id, offset: 0 },
        DrawCommand::SetVertexBuffer { slot: 0, source: VertexSource::Mesh { mesh_id }, offset: 0 },
        DrawCommand::SetVertexBuffer { slot: 1, source: VertexSource::Instances { batch }, offset: 0 },
        DrawCommand::DrawIndexed {
            index_count: index_count as u32,
            base_vertex: 0,
            instance_count: instance_count as u32,
        },
    ]
}

/// The calls of a frame up to, and without, batch `n`: the shared binding
/// set once, then the calls of every batch whose mesh the store knows, in
/// batch order. A batch whose mesh the store does not know is passed over.
pub open spec fn commands_upto(batches: Seq<BatchView>, meshes: Map<usize, usize>, n: nat) -> Seq<
    DrawCommand,
>
    decreases n,
{
    if n == 0 {
        seq![DrawCommand::SetBindGroup { index: 0 }]
    } else {
        let before = commands_upto(batches, meshes, (n - 1) as nat);
        let batch = batches[n - 1];
        if meshes.contains_key(batch.mesh_id) {
            before + spec_batch_commands(
                (n - 1) as usize,
                batch.mesh_id,
                batch.records.len() as usize,
                meshes[batch.mesh_id],
            )
        } else {
            before
        }
    }
}

/// All calls of a frame.
pub open spec fn frame_commands(batches: Seq<BatchView>, meshes: Map<usize, usize>) -> Seq<
    DrawCommand,
> {
    commands_upto(batches, meshes, batches.len())
}

/// The number of batches among the first `n` whose mesh the store knows.
pub open spec fn drawn_upto(batches: Seq<BatchView>, meshes: Map<usize, usize>, n: nat) -> nat
    decreases n,
{
    if n == 0 {
        0
    } else if meshes.contains_key(batches[n - 1].mesh_id) {
        drawn_upto(batches, meshes, (n - 1) as nat) + 1
    } else {
        drawn_upto(batches, meshes, (n - 1) as nat)
    }
}

/// A frame binds the shared set first and once, and then makes five calls,
/// the last of them the draw, for each batch whose mesh the store knows.
pub proof fn lemma_frame_commands_shape(batches: Seq<BatchView>, meshes: Map<usize, usize>, n: nat)
    requires
        n <= batches.len(),
    ensures
        commands_upto(batches, meshes, n).len() == 1 + 5 * drawn_upto(batches, meshes, n),
        commands_upto(batches, meshes, n)[0] == (DrawCommand::SetBindGroup { index: 0 }),
        forall|k: int|
            1 <= k < commands_upto(batches, meshes, n).len() ==> ((#[trigger] commands_upto(
                batches,
                meshes,
                n,
            )[k]) is DrawIndexed <==> k % 5 == 0),
    decreases n,
{
    if n > 0 {
        lemma_frame_commands_shape(batches, meshes, (n - 1) as nat);
        let before = commands_upto(batches, meshes, (n - 1) as nat);
        let now = commands_upto(batches, meshes, n);
        assert forall|k: int| 1 <= k < now.len() implies ((#[trigger] now[k]) is DrawIndexed <==> k
            % 5 == 0) by {
            if k < before.len() {
                assert(now[k] == before[k]);
            }
        }
    }
}


/// Appends the calls that draw one batch.
pub fn push_batch_commands(
    commands: &mut Vec<DrawCommand>,
    batch: usize,
    mesh_id: usize,
    instance_count: usize,
    index_count: usize,
)
    ensures
        final(commands)@ == old(commands)@ + spec_batch_commands(
            batch,
            mesh_id,
            instance_count,
            index_count,
        ),
{
    commands.push(DrawCommand::SetupMeshBuffers { mesh_id });
    commands.push(DrawCommand::SetIndexBuffer { mesh_id, offset: 0 });
    commands.push(
        DrawCommand::SetVertexBuffer { slot: 0, source: VertexSource::Mesh { mesh_id }, offset: 0 },
    );
    commands.push(
        DrawCommand::SetVertexBuffer { slot: 1, source: VertexSource::Instances { batch }, offset: 0 },
    );
    commands.push(
        DrawCommand::DrawIndexed {
            index_count: #[verifier::truncate] (index_count as u32),
            base_vertex: 0,
            instance_count: #[verifier::truncate] (instance_count as u32),
        },
    );
    assert(commands@ =~= old(commands)@ + spec_batch_commands(
        batch,
        mesh_id,
        instance_count,
        index_count,
    ));
}

/// Two frames over the same snapshot hold the same content, whatever stood
/// before them: as many buffers, in the same order, each for the same mesh
/// with the same number of records and as many bytes, and each the image in
/// memory of the same words.
pub proof fn lemma_same_snapshot_same_content(
    first: Seq<InstanceBufferInfo>,
    second: Seq<InstanceBufferInfo>,
    entities: Seq<InstancedEntity>,
)
    requires
        hold_batches(first, batches_of(entities)),
        hold_batches(second, batches_of(entities)),
    ensures
        first.len() == second.len(),
        forall|i: int|
            #![trigger first[i]]
            #![trigger second[i]]
            0 <= i < first.len() ==> {
                &&& first[i].mesh_id == second[i].mesh_id
                &&& first[i].instance_count == second[i].instance_count
                &&& first[i].data.len() == second[i].data.len()
                &&& exists|words: Seq<u32>|
                    is_memory_image(first[i].data@, words) && is_memory_image(second[i].data@, words)
            },
{
    assert forall|i: int|
        #![trigger first[i]]
        #![trigger second[i]]
        0 <= i < first.len() implies {
        &&& first[i].mesh_id == second[i].mesh_id
        &&& first[i].instance_count == second[i].instance_count
        &&& first[i].data.len() == second[i].data.len()
        &&& exists|words: Seq<u32>|
            is_memory_image(first[i].data@, words) && is_memory_image(second[i].data@, words)
    } by {
        let words = flat_words(batches_of(entities)[i].records);
        assert(first[i].holds(batches_of(entities)[i]));
        assert(second[i].holds(batches_of(entities)[i]));
        assert(is_memory_image(first[i].data@, words) && is_memory_image(second[i].data@, words));
    }
}

/// An empty snapshot asks for no buffer and no draw: the frame binds the
/// shared set and does nothing else.
pub proof fn lemma_empty_frame(meshes: Map<usize, usize>)
    ensures
        batches_of(Seq::<InstancedEntity>::empty()).len() == 0,
        frame_commands(batches_of(Seq::<InstancedEntity>::empty()), meshes) == seq![
            DrawCommand::SetBindGroup { index: 0 },
        ],
{
}

/// The state of the instanced forward pass. The pipeline object and the
/// binding set are held as what they are built from; the device objects
/// themselves stay with the caller.
pub struct ForwardInstancedPipeline {
    pub pipeline: Option<PipelineDescriptor>,
    pub depth_format: wgpu::TextureFormat,
    pub local_bind_group: Option<BindGroupDescriptor>,
    pub instance_buffer_infos: Option<Vec<InstanceBufferInfo>>,
    pub msaa_samples: usize,
}

impl ForwardInstancedPipeline {
    /// Whether `initialize` has run.
    pub open spec fn is_ready(self) -> bool {
        &&& self.pipeline is Some
        &&& self.local_bind_group is Some
        &&& self.instance_buffer_infos is Some
    }

    pub fn new(depth_format: wgpu::TextureFormat, msaa_samples: usize) -> (p: Self)
        ensures
            p.pipeline is None,
            p.local_bind_group is None,
            p.instance_buffer_infos is None,
            p.depth_format == depth_format,
            p.msaa_samples == msaa_samples,
            !p.is_ready(),
    {
        ForwardInstancedPipeline {
            pipeline: None,
            depth_format,
            msaa_samples,
            local_bind_group: None,
            instance_buffer_infos: None,
        }
    }

    /// The instance buffers of a snapshot: one per distinct mesh, in order of
    /// first appearance, the records of each in snapshot order. An empty
    /// snapshot gives no buffer.
    pub fn create_instance_buffer_infos(entities: &Vec<InstancedEntity>) -> (infos: Vec<
        InstanceBufferInfo,
    >)
        ensures
            hold_batches(infos@, batches_of(entities@)),
            entities.len() == 0 ==> infos.len() == 0,
    {
        if entities.len() == 0 {
            return Vec::new();
        }
        let batches = group_by_mesh(entities);
        let mut infos: Vec<InstanceBufferInfo> = Vec::new();
        let mut i: usize = 0;
        while i < batches.len()
            invariant
                i <= batches.len(),
                batch_views(batches@) == batches_of(entities@),
                infos.len() == i,
                forall|k: int| 0 <= k < i ==> (#[trigger] infos[k]).holds(batches_of(entities@)[k]),
            decreases batches.len() - i,
        {
            let info = InstanceBufferInfo::from_batch(&batches[i]);
            assert(batch_views(batches@)[i as int] == batches[i as int]@);
            infos.push(info);
            i += 1;
        }
        assert(batch_views(batches@).len() == batches.len());
        infos
    }

    /// The instance buffers of a snapshot, packed mesh by mesh straight from
    /// the snapshot, without the batches in between: one buffer per distinct
    /// mesh, in order of first appearance, the records of each in snapshot
    /// order. An empty snapshot gives no buffer.
    pub fn create_instance_buffer_infos_direct(entities: &Vec<InstancedEntity>) -> (infos: Vec<
        InstanceBufferInfo,
    >)
        ensures
            hold_batches(infos@, batches_of(entities@)),
            entities.len() == 0 ==> infos.len() == 0,
    {
        let keys = distinct_meshes(entities);
        let mut infos: Vec<InstanceBufferInfo> = Vec::new();
        let mut k: usize = 0;
        while k < keys.len()
            invariant
                k <= keys.len(),
                keys@ == mesh_keys(entities@),
                infos.len() == k,
                forall|j: int| 0 <= j < k ==> (#[trigger] infos[j]).holds(batches_of(entities@)[j]),
            decreases keys.len() - k,
        {
            let info = InstanceBufferInfo::from_snapshot(entities, keys[k]);
            infos.push(info);
            k += 1;
        }
        infos
    }

    /// Sets the pass up: fixes what the pipeline object and the shared
    /// binding set are built from, and packs the first set of batches. The
    /// registry must hold both shared uniform buffers: `forward_present` and
    /// `lights_present` say whether it holds each.
    pub fn initialize(
        &mut self,
        color_format: wgpu::TextureFormat,
        forward_present: bool,
        lights_present: bool,
        entities: &Vec<InstancedEntity>,
    )
        requires
            spec_missing_uniform(forward_present, lights_present) is None,
        ensures
            final(self).is_ready(),
            final(self).pipeline == Some(
                spec_pipeline_descriptor(color_format, old(self).depth_format, old(self).msaa_samples),
            ),
            final(self).pipeline.unwrap().instance_stream.spec_matches_record(),
            final(self).local_bind_group == Some(spec_bind_group_descriptor()),
            hold_batches(final(self).instance_buffer_infos.unwrap()@, batches_of(entities@)),
            final(self).depth_format == old(self).depth_format,
            final(self).msaa_samples == old(self).msaa_samples,
    {
        self.local_bind_group = Some(bind_group_descriptor());
        self.pipeline = Some(pipeline_descriptor(color_format, self.depth_format, self.msaa_samples));
        self.instance_buffer_infos = Some(Self::create_instance_buffer_infos(entities));
    }

    /// One frame. The batches of the frame before are dropped and those of
    /// `entities` take their place; the result is the frame's calls on the
    /// pass recorder. `meshes` gives the number of indices of each mesh that
    /// the mesh store holds.
    pub fn render(&mut self, entities: &Vec<InstancedEntity>, meshes: &HashMap<usize, usize>) -> (commands:
        Vec<DrawCommand>)
        requires
            old(self).local_bind_group is Some,
        ensures
            final(self).pipeline == old(self).pipeline,
            final(self).depth_format == old(self).depth_format,
            final(self).local_bind_group == old(self).local_bind_group,
            final(self).msaa_samples == old(self).msaa_samples,
            final(self).instance_buffer_infos is Some,
            hold_batches(final(self).instance_buffer_infos.unwrap()@, batches_of(entities@)),
            commands@ == frame_commands(batches_of(entities@), meshes@),
            entities.len() == 0 ==> final(self).instance_buffer_infos.unwrap().len() == 0
                && commands@ == seq![DrawCommand::SetBindGroup { index: 0 }],
    {
        let infos = Self::create_instance_buffer_infos(entities);
        let commands = Self::draw_commands(&infos, meshes, Ghost(batches_of(entities@)));
        self.instance_buffer_infos = Some(infos);
        commands
    }

    /// The surface size touches nothing that the pass holds.
    pub fn resize(&mut self)
        ensures
            *final(self) == *old(self),
    {
    }

    pub fn get_pipeline(&self) -> (d: &PipelineDescriptor)
        requires
            self.pipeline is Some,
        ensures
            *d == self.pipeline.unwrap(),
    {
        self.pipeline.as_ref().unwrap()
    }

    /// The calls that draw the given buffers.
    fn draw_commands(
        infos: &Vec<InstanceBufferInfo>,
        meshes: &HashMap<usize, usize>,
        Ghost(batches): Ghost<Seq<BatchView>>,
    ) -> (commands: Vec<DrawCommand>)
        requires
            hold_batches(infos@, batches),
        ensures
            commands@ == frame_commands(batches, meshes@),
    {
        let mut commands: Vec<DrawCommand> = Vec::new();
        commands.push(DrawCommand::SetBindGroup { index: 0 });
        assert(commands@ =~= commands_upto(batches, meshes@, 0));
        let mut i: usize = 0;
        while i < infos.len()
            invariant
                i <= infos.len(),
                hold_batches(infos@, batches),
                commands@ == commands_upto(batches, meshes@, i as nat),
            decreases infos.len() - i,
        {
            let info = &infos[i];
            assert(info.holds(batches[i as int]));
            match meshes.get(&info.mesh_id) {
                Some(index_count) => {
                    push_batch_commands(&mut commands, i, info.mesh_id, info.instance_count, *index_count);
                },
                None => {},
            }
            i += 1;
        }
        commands
    }
}

} // verus!
