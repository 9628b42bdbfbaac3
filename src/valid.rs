use vstd::prelude::*;
use crate::graph::{
    GraphImportedResource,
    GraphOwnedResource, GraphOwnedResourceDescriptorBinding, GraphPipelineHandle, PassCmd,
    RecordedPass, RenderGraph,
};
use crate::resolve::reads_resolvable;

verus! {

pub open spec fn is_attachment(g: RenderGraph, id: usize) -> bool {
    id < g.owned_resources@.len() && g.owned_resources@[id as int] is Attachment
}

pub open spec fn is_buffer(g: RenderGraph, id: usize) -> bool {
    id < g.owned_resources@.len() && g.owned_resources@[id as int] is Buffer
}

/// A render pass, or the output render pass that draws to the swapchain.
pub open spec fn is_render_pass(g: RenderGraph, id: usize) -> bool {
    id < g.owned_resources@.len() && (g.owned_resources@[id as int] is RenderPass
        || g.owned_resources@[id as int] is OutputRenderPass)
}

pub open spec fn is_raster_pipeline(g: RenderGraph, id: usize) -> bool {
    id < g.owned_resources@.len() && g.owned_resources@[id as int] is RasterPipeline
}

pub open spec fn is_compute_pipeline(g: RenderGraph, id: usize) -> bool {
    id < g.owned_resources@.len() && g.owned_resources@[id as int] is ComputePipeline
}

pub open spec fn is_descriptor_set(g: RenderGraph, id: usize) -> bool {
    id < g.owned_resources@.len() && g.owned_resources@[id as int] is DescriptorSet
}

pub open spec fn is_imported_shader(g: RenderGraph, id: usize) -> bool {
    id < g.imported_resources@.len() && g.imported_resources@[id as int] is Shader
}

pub open spec fn is_imported_buffer(g: RenderGraph, id: usize) -> bool {
    id < g.imported_resources@.len() && g.imported_resources@[id as int] is Buffer
}

pub open spec fn is_imported_texture(g: RenderGraph, id: usize) -> bool {
    id < g.imported_resources@.len() && g.imported_resources@[id as int] is Texture
}

pub open spec fn is_imported_mesh(g: RenderGraph, id: usize) -> bool {
    id < g.imported_resources@.len() && g.imported_resources@[id as int] is Mesh
}

/// Every handle the command holds names an object of the right kind.
pub open spec fn cmd_valid(g: RenderGraph, c: PassCmd) -> bool {
    match c {
        PassCmd::BeginRenderPass { render_pass, clear_values } => is_render_pass(g, render_pass.id)
            && clear_values < g.clear_values@.len(),
        PassCmd::BindRasterPipeline { pipeline } => is_raster_pipeline(g, pipeline.id),
        PassCmd::BindComputePipeline { pipeline } => is_compute_pipeline(g, pipeline.id),
        PassCmd::BindDescriptor { set: _, descriptor, pipeline } => is_descriptor_set(g, descriptor.id)
            && match pipeline {
            GraphPipelineHandle::Raster(p) => is_raster_pipeline(g, p.id),
            GraphPipelineHandle::Compute(p) => is_compute_pipeline(g, p.id),
        },
        PassCmd::DrawMesh { mesh } => is_imported_mesh(g, mesh.id),
        _ => true,
    }
}

pub open spec fn binding_valid(g: RenderGraph, b: GraphOwnedResourceDescriptorBinding) -> bool {
    match b {
        GraphOwnedResourceDescriptorBinding::ImportedBuffer(h) => is_imported_buffer(g, h.id),
        GraphOwnedResourceDescriptorBinding::ImportedTexture(h) => is_imported_texture(g, h.id),
        GraphOwnedResourceDescriptorBinding::Buffer(h) => is_buffer(g, h.id),
        GraphOwnedResourceDescriptorBinding::MutableBuffer(h) => is_buffer(g, h.id),
        GraphOwnedResourceDescriptorBinding::Attachment(h) => is_attachment(g, h.id),
    }
}

/// Every handle the resource holds names an object of the right kind.
pub open spec fn resource_valid(g: RenderGraph, r: GraphOwnedResource) -> bool {
    match r {
        GraphOwnedResource::RasterPipeline(p) => is_imported_shader(g, p.vs.id) && match p.ps {
            Some(ps) => is_imported_shader(g, ps.id),
            None => true,
        } && is_render_pass(g, p.render_pass.id),
        GraphOwnedResource::ComputePipeline { cs, descriptor_layouts: _ } => is_imported_shader(g, cs.id),
        GraphOwnedResource::RenderPass { color_attachments, depth_attachment } => (forall|i: int|
            0 <= i < color_attachments@.len() ==> is_attachment(g, #[trigger] color_attachments@[i].id))
            && match depth_attachment {
            Some(d) => is_attachment(g, d.id),
            None => true,
        },
        GraphOwnedResource::DescriptorSet { descriptor_layout: _, bindings } => forall|i: int|
            0 <= i < bindings@.len() ==> binding_valid(g, #[trigger] bindings@[i].1),
        _ => true,
    }
}

/// Every resource the pass reads, and every handle its commands hold, names
/// an object of the right kind.
pub open spec fn pass_valid(g: RenderGraph, p: RecordedPass) -> bool {
    &&& forall|i: int| 0 <= i < p.read_attachments@.len() ==> is_attachment(g, #[trigger] p.read_attachments@[i].id)
    &&& forall|i: int| 0 <= i < p.read_buffers@.len() ==> is_buffer(g, #[trigger] p.read_buffers@[i].id)
    &&& forall|i: int| 0 <= i < p.cmds@.len() ==> cmd_valid(g, #[trigger] p.cmds@[i])
}

/// Every handle in the graph names an object of the right kind, and every
/// resource has a creating pass.
pub open spec fn graph_valid(g: RenderGraph) -> bool {
    &&& reads_resolvable(g)
    &&& forall|r: int| 0 <= r < g.owned_resources@.len() ==> resource_valid(g, #[trigger] g.owned_resources@[r])
    &&& forall|p: int| 0 <= p < g.passes@.len() ==> pass_valid(g, #[trigger] g.passes@[p])
}

impl RenderGraph {
    fn check_attachment(&self, id: usize) -> (r: bool)
        ensures
            r == is_attachment(*self, id),
    {
        id < self.owned_resources.len() && matches!(self.owned_resources[id], GraphOwnedResource::Attachment { .. })
    }

    fn check_buffer(&self, id: usize) -> (r: bool)
        ensures
            r == is_buffer(*self, id),
    {
        id < self.owned_resources.len() && matches!(self.owned_resources[id], GraphOwnedResource::Buffer { .. })
    }

    fn check_render_pass(&self, id: usize) -> (r: bool)
        ensures
            r == is_render_pass(*self, id),
    {
        id < self.owned_resources.len() && (matches!(self.owned_resources[id], GraphOwnedResource::RenderPass { .. })
            || matches!(self.owned_resources[id], GraphOwnedResource::OutputRenderPass))
    }

    fn check_raster_pipeline(&self, id: usize) -> (r: bool)
        ensures
            r == is_raster_pipeline(*self, id),
    {
        id < self.owned_resources.len() && matches!(self.owned_resources[id], GraphOwnedResource::RasterPipeline(_))
    }

    fn check_compute_pipeline(&self, id: usize) -> (r: bool)
        ensures
            r == is_compute_pipeline(*self, id),
    {
        id < self.owned_resources.len() && matches!(self.owned_resources[id], GraphOwnedResource::ComputePipeline { .. })
    }

    fn check_descriptor_set(&self, id: usize) -> (r: bool)
        ensures
            r == is_descriptor_set(*self, id),
    {
        id < self.owned_resources.len() && matches!(self.owned_resources[id], GraphOwnedResource::DescriptorSet { .. })
    }

    fn check_imported(&self, id: usize, kind: u8) -> (r: bool)
        requires
            kind < 4,
        ensures
            kind == 0 ==> r == is_imported_shader(*self, id),
            kind == 1 ==> r == is_imported_buffer(*self, id),
            kind == 2 ==> r == is_imported_texture(*self, id),
            kind == 3 ==> r == is_imported_mesh(*self, id),
    {
        if id >= self.imported_resources.len() {
            return false;
        }
        match self.imported_resources[id] {
            GraphImportedResource::Shader { .. } => kind == 0,
            GraphImportedResource::Buffer { .. } => kind == 1,
            GraphImportedResource::Texture { .. } => kind == 2,
            GraphImportedResource::Mesh(_) => kind == 3,
        }
    }

    fn check_cmd(&self, c: PassCmd) -> (r: bool)
        ensures
            r == cmd_valid(*self, c),
    {
        match c {
            PassCmd::BeginRenderPass { render_pass, clear_values } => self.check_render_pass(render_pass.id)
                && clear_values < self.clear_values.len(),
            PassCmd::BindRasterPipeline { pipeline } => self.check_raster_pipeline(pipeline.id),
            PassCmd::BindComputePipeline { pipeline } => self.check_compute_pipeline(pipeline.id),
            PassCmd::BindDescriptor { set: _, descriptor, pipeline } => self.check_descriptor_set(descriptor.id)
                && match pipeline {
                GraphPipelineHandle::Raster(p) => self.check_raster_pipeline(p.id),
                GraphPipelineHandle::Compute(p) => self.check_compute_pipeline(p.id),
            },
            PassCmd::DrawMesh { mesh } => self.check_imported(mesh.id, 3),
            _ => true,
        }
    }

    fn check_binding(&self, b: GraphOwnedResourceDescriptorBinding) -> (r: bool)
        ensures
            r == binding_valid(*self, b),
    {
        match b {
            GraphOwnedResourceDescriptorBinding::ImportedBuffer(h) => self.check_imported(h.id, 1),
            GraphOwnedResourceDescriptorBinding::ImportedTexture(h) => self.check_imported(h.id, 2),
            GraphOwnedResourceDescriptorBinding::Buffer(h) => self.check_buffer(h.id),
            GraphOwnedResourceDescriptorBinding::MutableBuffer(h) => self.check_buffer(h.id),
            GraphOwnedResourceDescriptorBinding::Attachment(h) => self.check_attachment(h.id),
        }
    }

    fn check_resource(&self, r: &GraphOwnedResource) -> (ok: bool)
        ensures
            ok == resource_valid(*self, *r),
    {
        match r {
            GraphOwnedResource::RasterPipeline(p) => {
                self.check_imported(p.vs.id, 0) && match p.ps {
                    Some(ps) => self.check_imported(ps.id, 0),
                    None => true,
                } && self.check_render_pass(p.render_pass.id)
            },
            GraphOwnedResource::ComputePipeline { cs, descriptor_layouts: _ } => self.check_imported(cs.id, 0),
            GraphOwnedResource::RenderPass { color_attachments, depth_attachment } => {
                let mut i: usize = 0;
                while i < color_attachments.len()
                    invariant
                        *r == (GraphOwnedResource::RenderPass {
                            color_attachments: *color_attachments,
                            depth_attachment: *depth_attachment,
                        }),
                        i <= color_attachments@.len(),
                        forall|j: int| 0 <= j < i ==> is_attachment(*self, #[trigger] color_attachments@[j].id),
                    decreases color_attachments@.len() - i,
                {
                    if !self.check_attachment(color_attachments[i].id) {
                        assert(!is_attachment(*self, color_attachments@[i as int].id));
                        return false;
                    }
                    i = i + 1;
                }
                match depth_attachment {
                    Some(d) => self.check_attachment(d.id),
                    None => true,
                }
            },
            GraphOwnedResource::DescriptorSet { descriptor_layout, bindings } => {
                let mut i: usize = 0;
                while i < bindings.len()
                    invariant
                        *r == (GraphOwnedResource::DescriptorSet {
                            descriptor_layout: *descriptor_layout,
                            bindings: *bindings,
                        }),
                        i <= bindings@.len(),
                        forall|j: int| 0 <= j < i ==> binding_valid(*self, #[trigger] bindings@[j].1),
                    decreases bindings@.len() - i,
                {
                    if !self.check_binding(bindings[i].1) {
                        assert(!binding_valid(*self, bindings@[i as int].1));
                        assert(r->DescriptorSet_bindings == *bindings);
                        return false;
                    }
                    i = i + 1;
                }
                true
            },
            _ => true,
        }
    }

    fn check_pass(&self, p: &RecordedPass) -> (ok: bool)
        ensures
            ok == pass_valid(*self, *p),
    {
        let mut i: usize = 0;
        while i < p.read_attachments.len()
            invariant
                i <= p.read_attachments@.len(),
                forall|j: int| 0 <= j < i ==> is_attachment(*self, #[trigger] p.read_attachments@[j].id),
            decreases p.read_attachments@.len() - i,
        {
            if !self.check_attachment(p.read_attachments[i].id) {
                return false;
            }
            i = i + 1;
        }
        let mut i: usize = 0;
        while i < p.read_buffers.len()
            invariant
                i <= p.read_buffers@.len(),
                forall|j: int| 0 <= j < i ==> is_buffer(*self, #[trigger] p.read_buffers@[j].id),
            decreases p.read_buffers@.len() - i,
        {
            if !self.check_buffer(p.read_buffers[i].id) {
                return false;
            }
            i = i + 1;
        }
        let mut i: usize = 0;
        while i < p.cmds.len()
            invariant
                i <= p.cmds@.len(),
                forall|j: int| 0 <= j < i ==> cmd_valid(*self, #[trigger] p.cmds@[j]),
            decreases p.cmds@.len() - i,
        {
            if !self.check_cmd(p.cmds[i]) {
                return false;
            }
            i = i + 1;
        }
        true
    }

    /// Whether every handle in the graph names an object of the right kind
    /// and every resource has a creating pass.
    pub fn validate(&self) -> (ok: bool)
        ensures
            ok == graph_valid(*self),
    {
        if self.resource_to_owning_pass.len() != self.owned_resources.len() {
            return false;
        }
        let mut r: usize = 0;
        while r < self.resource_to_owning_pass.len()
            invariant
                r <= self.resource_to_owning_pass@.len(),
                forall|k: int| 0 <= k < r ==> #[trigger] self.resource_to_owning_pass@[k].id < self.passes@.len(),
            decreases self.resource_to_owning_pass@.len() - r,
        {
            if self.resource_to_owning_pass[r].id >= self.passes.len() {
                return false;
            }
            r = r + 1;
        }
        let mut r: usize = 0;
        while r < self.owned_resources.len()
            invariant
                r <= self.owned_resources@.len(),
                forall|k: int| 0 <= k < r ==> resource_valid(*self, #[trigger] self.owned_resources@[k]),
            decreases self.owned_resources@.len() - r,
        {
            if !self.check_resource(&self.owned_resources[r]) {
                return false;
            }
            r = r + 1;
        }
        let mut p: usize = 0;
        while p < self.passes.len()
            invariant
                p <= self.passes@.len(),
                forall|k: int| 0 <= k < p ==> pass_valid(*self, #[trigger] self.passes@[k]),
            decreases self.passes@.len() - p,
        {
            if !self.check_pass(&self.passes[p]) {
                proof {
                    assert(!pass_valid(*self, self.passes@[p as int]));
                }
                return false;
            }
            p = p + 1;
        }
        proof {
            assert forall|q: int, i: int|
                0 <= q < self.passes@.len() && 0 <= i < self.passes@[q].read_attachments@.len()
                    implies #[trigger] self.passes@[q].read_attachments@[i].id < self.owned_resources@.len() by {
                assert(pass_valid(*self, self.passes@[q]));
            }
            assert forall|q: int, i: int|
                0 <= q < self.passes@.len() && 0 <= i < self.passes@[q].read_buffers@.len()
                    implies #[trigger] self.passes@[q].read_buffers@[i].id < self.owned_resources@.len() by {
                assert(pass_valid(*self, self.passes@[q]));
            }
        }
        true
    }
}

} // verus!
