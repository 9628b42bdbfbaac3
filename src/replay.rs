use vstd::prelude::*;
use crate::resources::{AccessFlags, ImageLayout, PipelineStageFlags};
use crate::graph::{
    GraphAttachmentHandle, GraphBufferHandle, GraphPipelineHandle, Mesh, PassCmd, RecordedPass,
    RenderGraph,
};
use crate::cache::DescriptorHandle;
use crate::allocate::{GraphPhysicalResourceMap, RenderPassBinding};
use crate::valid::{graph_valid, is_attachment, is_buffer, is_compute_pipeline, is_descriptor_set, is_raster_pipeline, is_render_pass};

verus! {

/// A physical pipeline of either kind.
#[derive(Debug, Copy, Clone, PartialEq, Eq, Structural)]
pub enum PhysicalPipeline {
    Raster(usize),
    Compute(usize),
}

/// A command to issue against the device, with every handle resolved to a
/// physical object. Clear values are given by their index in the table of
/// the execution plan.
#[derive(Debug, Copy, Clone, PartialEq, Eq, Structural)]
pub enum ReplayCmd {
    ImageBarrier {
        attachment: usize,
        src_stage: PipelineStageFlags,
        dst_stage: PipelineStageFlags,
        src_access: AccessFlags,
        dst_access: AccessFlags,
        old_layout: ImageLayout,
        new_layout: ImageLayout,
    },
    BufferBarrier {
        buffer: usize,
        src_stage: PipelineStageFlags,
        dst_stage: PipelineStageFlags,
        src_access: AccessFlags,
        dst_access: AccessFlags,
    },
    BeginRenderPass { render_pass: usize, framebuffer: usize, clear_values: usize },
    /// Begins drawing into the swapchain's current image.
    BeginOutputRenderPass { clear_values: usize },
    EndRenderPass,
    BindRasterPipeline { pipeline: usize },
    BindComputePipeline { pipeline: usize },
    BindDescriptor { descriptor: DescriptorHandle, set: u32, pipeline: PhysicalPipeline },
    DrawMesh { mesh: Mesh },
    Draw { vertex_count: u32, instance_count: u32, first_vertex: u32, first_instance: u32 },
    Dispatch { group_count_x: u32, group_count_y: u32, group_count_z: u32 },
}

/// The barrier before a read of attachment `a`: from the state its writer
/// left it in to the read state the handle records.
pub open spec fn image_barrier(m: GraphPhysicalResourceMap, a: GraphAttachmentHandle) -> ReplayCmd {
    ReplayCmd::ImageBarrier {
        attachment: m.attachment_map.get(a.id)->Some_0,
        src_stage: a.src_stage,
        dst_stage: a.dst_stage,
        src_access: a.src_access,
        dst_access: a.dst_access,
        old_layout: a.initial_layout,
        new_layout: a.final_layout,
    }
}

/// The barrier before a read of buffer `b`.
pub open spec fn buffer_barrier(m: GraphPhysicalResourceMap, b: GraphBufferHandle) -> ReplayCmd {
    ReplayCmd::BufferBarrier {
        buffer: m.buffer_map.get(b.id)->Some_0,
        src_stage: b.src_stage,
        dst_stage: b.dst_stage,
        src_access: b.src_access,
        dst_access: b.dst_access,
    }
}

/// One barrier per attachment the pass reads, then one per buffer.
pub open spec fn pass_barriers(m: GraphPhysicalResourceMap, p: RecordedPass) -> Seq<ReplayCmd> {
    p.read_attachments@.map_values(|a: GraphAttachmentHandle| image_barrier(m, a)) + p.read_buffers@.map_values(
        |b: GraphBufferHandle| buffer_barrier(m, b),
    )
}

pub open spec fn physical_pipeline(m: GraphPhysicalResourceMap, p: GraphPipelineHandle) -> PhysicalPipeline {
    match p {
        GraphPipelineHandle::Raster(h) => PhysicalPipeline::Raster(m.raster_pipeline_map.get(h.id)->Some_0),
        GraphPipelineHandle::Compute(h) => PhysicalPipeline::Compute(m.compute_pipeline_map.get(h.id)->Some_0),
    }
}

/// What one recorded command of pass `p` replays as. Beginning a render
/// pass is preceded by the barriers for everything the pass reads.
pub open spec fn replay_cmd(g: RenderGraph, m: GraphPhysicalResourceMap, p: RecordedPass, c: PassCmd) -> Seq<ReplayCmd> {
    match c {
        PassCmd::BeginRenderPass { render_pass, clear_values } => pass_barriers(m, p) + seq![
            match m.render_pass_map.get(render_pass.id) {
                Some(RenderPassBinding::Physical { render_pass, framebuffer }) => ReplayCmd::BeginRenderPass {
                    render_pass,
                    framebuffer,
                    clear_values,
                },
                _ => ReplayCmd::BeginOutputRenderPass { clear_values },
            },
        ],
        PassCmd::EndRenderPass => seq![ReplayCmd::EndRenderPass],
        PassCmd::BindRasterPipeline { pipeline } => seq![
            ReplayCmd::BindRasterPipeline { pipeline: m.raster_pipeline_map.get(pipeline.id)->Some_0 },
        ],
        PassCmd::BindComputePipeline { pipeline } => seq![
            ReplayCmd::BindComputePipeline { pipeline: m.compute_pipeline_map.get(pipeline.id)->Some_0 },
        ],
        PassCmd::BindDescriptor { set, descriptor, pipeline } => seq![
            ReplayCmd::BindDescriptor {
                descriptor: m.descriptor_map.get(descriptor.id)->Some_0,
                set,
                pipeline: physical_pipeline(m, pipeline),
            },
        ],
        PassCmd::DrawMesh { mesh } => seq![ReplayCmd::DrawMesh { mesh: g.imported_resources@[mesh.id as int]->Mesh_0 }],
        PassCmd::Draw { vertex_count, instance_count, first_vertex, first_instance } => seq![
            ReplayCmd::Draw { vertex_count, instance_count, first_vertex, first_instance },
        ],
        PassCmd::Dispatch { group_count_x, group_count_y, group_count_z } => seq![
            ReplayCmd::Dispatch { group_count_x, group_count_y, group_count_z },
        ],
    }
}

/// The replay of the commands `cmds` of pass `p`, in order.
pub open spec fn replay_cmds(g: RenderGraph, m: GraphPhysicalResourceMap, p: RecordedPass, cmds: Seq<PassCmd>) -> Seq<ReplayCmd>
    decreases cmds.len(),
{
    if cmds.len() == 0 {
        Seq::empty()
    } else {
        replay_cmds(g, m, p, cmds.drop_last()) + replay_cmd(g, m, p, cmds.last())
    }
}

/// The replay of the passes `order`, one after another.
pub open spec fn replay_passes(g: RenderGraph, m: GraphPhysicalResourceMap, order: Seq<usize>) -> Seq<ReplayCmd>
    decreases order.len(),
{
    if order.len() == 0 {
        Seq::empty()
    } else {
        let p = g.passes@[order.last() as int];
        replay_passes(g, m, order.drop_last()) + replay_cmds(g, m, p, p.cmds@)
    }
}

/// Every virtual resource a replay may resolve is bound.
pub open spec fn map_complete(g: RenderGraph, m: GraphPhysicalResourceMap) -> bool {
    &&& forall|i: usize| is_attachment(g, i) ==> #[trigger] m.attachment_map.get(i) is Some
    &&& forall|i: usize| is_buffer(g, i) ==> #[trigger] m.buffer_map.get(i) is Some
    &&& forall|i: usize| is_render_pass(g, i) ==> #[trigger] m.render_pass_map.get(i) is Some
    &&& forall|i: usize| is_raster_pipeline(g, i) ==> #[trigger] m.raster_pipeline_map.get(i) is Some
    &&& forall|i: usize| is_compute_pipeline(g, i) ==> #[trigger] m.compute_pipeline_map.get(i) is Some
    &&& forall|i: usize| is_descriptor_set(g, i) ==> #[trigger] m.descriptor_map.get(i) is Some
}

/// Appends the barriers for everything pass `p` reads.
fn push_barriers(g: &RenderGraph, m: &GraphPhysicalResourceMap, p: &RecordedPass, out: &mut Vec<ReplayCmd>)
    requires
        map_complete(*g, *m),
        crate::valid::pass_valid(*g, *p),
    ensures
        final(out)@ == old(out)@ + pass_barriers(*m, *p),
{
    let ghost start = out@;
    let mut i: usize = 0;
    while i < p.read_attachments.len()
        invariant
            map_complete(*g, *m),
            crate::valid::pass_valid(*g, *p),
            i <= p.read_attachments@.len(),
            out@ == start + p.read_attachments@.take(i as int).map_values(|a: GraphAttachmentHandle| image_barrier(*m, a)),
        decreases p.read_attachments@.len() - i,
    {
        let a = p.read_attachments[i];
        assert(is_attachment(*g, p.read_attachments@[i as int].id));
        let attachment = m.attachment_map.get_physical(a.id);
        out.push(
            ReplayCmd::ImageBarrier {
                attachment,
                src_stage: a.src_stage,
                dst_stage: a.dst_stage,
                src_access: a.src_access,
                dst_access: a.dst_access,
                old_layout: a.initial_layout,
                new_layout: a.final_layout,
            },
        );
        proof {
            assert(p.read_attachments@.take(i + 1).map_values(|a: GraphAttachmentHandle| image_barrier(*m, a))
                =~= p.read_attachments@.take(i as int).map_values(|a: GraphAttachmentHandle| image_barrier(*m, a)).push(image_barrier(*m, a)));
        }
        i = i + 1;
    }
    proof {
        assert(p.read_attachments@.take(p.read_attachments@.len() as int) =~= p.read_attachments@);
    }
    let ghost mid = out@;
    let mut i: usize = 0;
    while i < p.read_buffers.len()
        invariant
            map_complete(*g, *m),
            crate::valid::pass_valid(*g, *p),
            i <= p.read_buffers@.len(),
            out@ == mid + p.read_buffers@.take(i as int).map_values(|b: GraphBufferHandle| buffer_barrier(*m, b)),
        decreases p.read_buffers@.len() - i,
    {
        let b = p.read_buffers[i];
        assert(is_buffer(*g, p.read_buffers@[i as int].id));
        let buffer = m.buffer_map.get_physical(b.id);
        out.push(
            ReplayCmd::BufferBarrier {
                buffer,
                src_stage: b.src_stage,
                dst_stage: b.dst_stage,
                src_access: b.src_access,
                dst_access: b.dst_access,
            },
        );
        proof {
            assert(p.read_buffers@.take(i + 1).map_values(|b: GraphBufferHandle| buffer_barrier(*m, b))
                =~= p.read_buffers@.take(i as int).map_values(|b: GraphBufferHandle| buffer_barrier(*m, b)).push(buffer_barrier(*m, b)));
        }
        i = i + 1;
    }
    proof {
        assert(p.read_buffers@.take(p.read_buffers@.len() as int) =~= p.read_buffers@);
        assert(out@ =~= start + pass_barriers(*m, *p));
    }
}

/// Appends the replay of one recorded command of pass `p`.
fn push_cmd(g: &RenderGraph, m: &GraphPhysicalResourceMap, p: &RecordedPass, c: PassCmd, out: &mut Vec<ReplayCmd>)
    requires
        map_complete(*g, *m),
        crate::valid::pass_valid(*g, *p),
        crate::valid::cmd_valid(*g, c),
    ensures
        final(out)@ == old(out)@ + replay_cmd(*g, *m, *p, c),
{
    match c {
        PassCmd::BeginRenderPass { render_pass, clear_values } => {
            push_barriers(g, m, p, out);
            let cmd = match m.render_pass_map.get_physical(render_pass.id) {
                RenderPassBinding::Physical { render_pass, framebuffer } => ReplayCmd::BeginRenderPass {
                    render_pass,
                    framebuffer,
                    clear_values,
                },
                RenderPassBinding::Output => ReplayCmd::BeginOutputRenderPass { clear_values },
            };
            out.push(cmd);
        },
        PassCmd::EndRenderPass => out.push(ReplayCmd::EndRenderPass),
        PassCmd::BindRasterPipeline { pipeline } => {
            out.push(ReplayCmd::BindRasterPipeline { pipeline: m.raster_pipeline_map.get_physical(pipeline.id) });
        },
        PassCmd::BindComputePipeline { pipeline } => {
            out.push(ReplayCmd::BindComputePipeline { pipeline: m.compute_pipeline_map.get_physical(pipeline.id) });
        },
        PassCmd::BindDescriptor { set, descriptor, pipeline } => {
            let pipeline = match pipeline {
                GraphPipelineHandle::Raster(h) => PhysicalPipeline::Raster(m.raster_pipeline_map.get_physical(h.id)),
                GraphPipelineHandle::Compute(h) => PhysicalPipeline::Compute(m.compute_pipeline_map.get_physical(h.id)),
            };
            out.push(
                ReplayCmd::BindDescriptor { descriptor: m.descriptor_map.get_physical(descriptor.id), set, pipeline },
            );
        },
        PassCmd::DrawMesh { mesh } => {
            let mesh = match g.imported_resources[mesh.id] {
                crate::graph::GraphImportedResource::Mesh(mesh) => mesh,
                _ => {
                    proof {
                        assert(false);
                    }
                    Mesh { vertex_buffer: 0, index_buffer: 0, index_count: 0 }
                },
            };
            out.push(ReplayCmd::DrawMesh { mesh });
        },
        PassCmd::Draw { vertex_count, instance_count, first_vertex, first_instance } => {
            out.push(ReplayCmd::Draw { vertex_count, instance_count, first_vertex, first_instance });
        },
        PassCmd::Dispatch { group_count_x, group_count_y, group_count_z } => {
            out.push(ReplayCmd::Dispatch { group_count_x, group_count_y, group_count_z });
        },
    }
}

/// Replays the passes `order` with every handle resolved through `m`.
pub fn replay(g: &RenderGraph, m: &GraphPhysicalResourceMap, order: &Vec<usize>) -> (cmds: Vec<ReplayCmd>)
    requires
        graph_valid(*g),
        map_complete(*g, *m),
        forall|i: int| 0 <= i < order@.len() ==> #[trigger] order@[i] < g.passes@.len(),
    ensures
        cmds@ == replay_passes(*g, *m, order@),
{
    let mut out: Vec<ReplayCmd> = Vec::new();
    let mut k: usize = 0;
    while k < order.len()
        invariant
            graph_valid(*g),
            map_complete(*g, *m),
            forall|i: int| 0 <= i < order@.len() ==> #[trigger] order@[i] < g.passes@.len(),
            k <= order@.len(),
            out@ == replay_passes(*g, *m, order@.take(k as int)),
        decreases order@.len() - k,
    {
        let q = order[k];
        let p = &g.passes[q];
        assert(crate::valid::pass_valid(*g, g.passes@[q as int]));
        let ghost before = out@;
        let mut c: usize = 0;
        while c < p.cmds.len()
            invariant
                graph_valid(*g),
                map_complete(*g, *m),
                *p == g.passes@[q as int],
                crate::valid::pass_valid(*g, *p),
                c <= p.cmds@.len(),
                out@ == before + replay_cmds(*g, *m, *p, p.cmds@.take(c as int)),
            decreases p.cmds@.len() - c,
        {
            assert(crate::valid::cmd_valid(*g, p.cmds@[c as int]));
            push_cmd(g, m, p, p.cmds[c], &mut out);
            proof {
                assert(p.cmds@.take(c + 1).drop_last() =~= p.cmds@.take(c as int));
                assert(out@ =~= before + replay_cmds(*g, *m, *p, p.cmds@.take(c + 1)));
            }
            c = c + 1;
        }
        proof {
            assert(p.cmds@.take(p.cmds@.len() as int) =~= p.cmds@);
            assert(order@.take(k + 1).drop_last() =~= order@.take(k as int));
            assert(order@.take(k + 1).last() == q);
        }
        k = k + 1;
    }
    proof {
        assert(order@.take(order@.len() as int) =~= order@);
    }
    out
}

} // verus!
