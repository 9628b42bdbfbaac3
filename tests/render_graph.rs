use goldfish::allocate::{AllocCmd, RenderPassBinding};
use goldfish::builder::{
    AttachmentDesc, BufferDesc, ComputePipelineDesc, DescriptorBindingDesc, DescriptorDesc,
    PassBuilder, RasterPipelineDesc, RenderPassDesc,
};
use goldfish::cache::{AttachmentCacheKey, DestroyCmd, ObjectKind, RenderGraphCache};
use goldfish::execute::{ExecutionPlan, GraphError};
use goldfish::graph::{
    GraphAttachmentHandle, GraphRenderPassHandle, Mesh, MutableGraphAttachmentHandle, RenderGraph,
};
use goldfish::replay::ReplayCmd;
use goldfish::resources::{
    ClearValue, FaceCullMode, ImageLayout, LoadOp, MemoryLocation, PolygonMode, StoreOp,
    TextureFormat, VertexInputInfo, ACCESS_COLOR_ATTACHMENT_WRITE,
    ACCESS_DEPTH_STENCIL_ATTACHMENT_WRITE, ACCESS_SHADER_READ, BUFFER_USAGE_STORAGE_BUFFER,
    STAGE_ALL_SHADERS, STAGE_COLOR_ATTACHMENT_OUTPUT, STAGE_LATE_FRAGMENT_TESTS,
    TEXTURE_USAGE_ATTACHMENT, TEXTURE_USAGE_SAMPLED,
};

fn attachment(name: &'static str, width: u32, height: u32, format: TextureFormat) -> AttachmentDesc {
    AttachmentDesc {
        name,
        width,
        height,
        format,
        load_op: LoadOp::Clear,
        store_op: StoreOp::Store,
        usage: TEXTURE_USAGE_SAMPLED,
    }
}

fn raster(name: &'static str, render_pass: GraphRenderPassHandle) -> RasterPipelineDesc {
    RasterPipelineDesc {
        name,
        vs: 10,
        ps: Some(11),
        descriptor_layouts: vec![1],
        render_pass,
        depth_compare_op: None,
        depth_write: false,
        face_cull: FaceCullMode::NoCull,
        push_constant_bytes: 0,
        vertex_input_info: VertexInputInfo { bindings: vec![], stride: 0 },
        polygon_mode: PolygonMode::Fill,
    }
}

/// A pass that draws into a fresh color attachment, reading `reads`.
fn color_pass(
    g: RenderGraph,
    name: &'static str,
    desc: AttachmentDesc,
    reads: Vec<GraphAttachmentHandle>,
) -> (RenderGraph, MutableGraphAttachmentHandle) {
    let mut b = g.add_pass(name);
    let target = b.add_attachment(desc);
    let mut rp = RenderPassDesc { name, color_attachments: vec![target], depth_attachment: None };
    let handle = b.add_render_pass(&mut rp);
    let bindings = reads.into_iter().enumerate().map(|(i, a)| (i as u32, DescriptorBindingDesc::Attachment(a))).collect();
    let mut ds = DescriptorDesc { name, descriptor_layout: 1, bindings };
    b.add_descriptor_set(&mut ds);
    b.cmd_begin_render_pass(handle, &[ClearValue::Color { r: 0, g: 0, b: 0, a: 0 }]);
    b.cmd_draw(3, 1, 0, 0);
    b.cmd_end_render_pass();
    (b.finish(), rp.color_attachments[0])
}

/// A pass that draws to the output, reading `reads`.
fn output_pass(g: RenderGraph, name: &'static str, reads: Vec<GraphAttachmentHandle>) -> RenderGraph {
    let mut b = g.add_pass(name);
    let out = b.add_output_render_pass();
    let bindings = reads.into_iter().enumerate().map(|(i, a)| (i as u32, DescriptorBindingDesc::Attachment(a))).collect();
    let mut ds = DescriptorDesc { name, descriptor_layout: 2, bindings };
    b.add_descriptor_set(&mut ds);
    b.cmd_begin_render_pass(out, &[]);
    b.cmd_draw(3, 1, 0, 0);
    b.cmd_end_render_pass();
    b.finish()
}

fn count_created_attachments(plan: &ExecutionPlan) -> usize {
    plan.creations.iter().filter(|c| matches!(c, AllocCmd::CreateAttachment { .. })).count()
}

fn depth_cull_fullscreen_frame() -> RenderGraph {
    let g = RenderGraph::new();
    let mut b: PassBuilder = g.add_pass("geometry");
    let depth = b.add_attachment(attachment("depth", 800, 600, TextureFormat::Depth));
    let mut rp = RenderPassDesc { name: "geometry", color_attachments: vec![], depth_attachment: Some(depth) };
    let geometry = b.add_render_pass(&mut rp);
    b.cmd_begin_render_pass(geometry, &[ClearValue::DepthStencil { depth: 1.0f32.to_bits(), stencil: 0 }]);
    b.cmd_end_render_pass();
    let depth = rp.depth_attachment.unwrap();
    let g = b.finish();
    let (g, storage) = color_pass(g, "cull", attachment("lights", 800, 600, TextureFormat::RGBA8), vec![depth.read()]);
    output_pass(g, "fullscreen", vec![storage.read()])
}

#[test]
fn geometry_cull_fullscreen_run_in_order_with_depth_barrier() {
    let mut cache = RenderGraphCache::new();
    let plan = depth_cull_fullscreen_frame().execute(&mut cache).unwrap();
    assert_eq!(plan.order, vec![0, 1, 2]);
    // geometry: begin, end; then the barrier ahead of cull's render pass.
    assert!(matches!(plan.cmds[0], ReplayCmd::BeginRenderPass { .. }));
    assert_eq!(plan.cmds[1], ReplayCmd::EndRenderPass);
    match plan.cmds[2] {
        ReplayCmd::ImageBarrier { src_stage, dst_stage, src_access, dst_access, old_layout, new_layout, .. } => {
            assert_eq!(old_layout, ImageLayout::DepthStencilAttachmentOptimal);
            assert_eq!(new_layout, ImageLayout::ShaderReadOnlyOptimal);
            assert_eq!(src_stage, STAGE_LATE_FRAGMENT_TESTS);
            assert_eq!(src_access, ACCESS_DEPTH_STENCIL_ATTACHMENT_WRITE);
            assert_eq!(dst_stage, STAGE_ALL_SHADERS);
            assert_eq!(dst_access, ACCESS_SHADER_READ);
        }
        other => panic!("expected a barrier, got {:?}", other),
    }
    assert!(matches!(plan.cmds[3], ReplayCmd::BeginRenderPass { .. }));
    // fullscreen reads the storage image and draws to the swapchain.
    let n = plan.cmds.len();
    assert!(matches!(plan.cmds[n - 4], ReplayCmd::ImageBarrier { old_layout: ImageLayout::ColorAttachmentOptimal, .. }));
    assert_eq!(plan.cmds[n - 3], ReplayCmd::BeginOutputRenderPass { clear_values: 2 });
    assert_eq!(plan.clear_values.len(), 3);
    assert_eq!(cache.attachment_cache.count, 2);
}

#[test]
fn two_same_shape_attachments_then_one_is_reused() {
    let desc = attachment("color", 512, 512, TextureFormat::RGBA8);
    let mut cache = RenderGraphCache::new();
    let g = RenderGraph::new();
    let (g, a) = color_pass(g, "first", desc, vec![]);
    let (g, b) = color_pass(g, "second", desc, vec![]);
    let g = output_pass(g, "present", vec![a.read(), b.read()]);
    let plan = g.execute(&mut cache).unwrap();
    assert_eq!(count_created_attachments(&plan), 2);
    assert_eq!(cache.attachment_cache.count, 2);
    assert_eq!(cache.attachment_cache.keys.len(), 1);
    assert_eq!(cache.attachment_cache.slots[0].len(), 2);
    let first = plan.resources.attachment_map.get_physical(a.id);
    let second = plan.resources.attachment_map.get_physical(b.id);
    assert_ne!(first, second);

    let g = RenderGraph::new();
    let (g, c) = color_pass(g, "only", desc, vec![]);
    let g = output_pass(g, "present", vec![c.read()]);
    let plan = g.execute(&mut cache).unwrap();
    assert_eq!(count_created_attachments(&plan), 0);
    assert_eq!(cache.attachment_cache.count, 2);
    let reused = plan.resources.attachment_map.get_physical(c.id);
    assert!(reused == first || reused == second);
}

#[test]
fn idempotent_caching_of_identical_attachments() {
    let desc = attachment("color", 256, 128, TextureFormat::RGBA16);
    let build = || {
        let g = RenderGraph::new();
        let (g, a) = color_pass(g, "a", desc, vec![]);
        let (g, b) = color_pass(g, "b", desc, vec![]);
        let (g, c) = color_pass(g, "c", desc, vec![]);
        output_pass(g, "present", vec![a.read(), b.read(), c.read()])
    };
    let mut cache = RenderGraphCache::new();
    let plan = build().execute(&mut cache).unwrap();
    assert_eq!(count_created_attachments(&plan), 3);
    assert_eq!(cache.attachment_cache.count, 3);
    let plan = build().execute(&mut cache).unwrap();
    assert_eq!(count_created_attachments(&plan), 0);
    assert_eq!(cache.attachment_cache.count, 3);
}

#[test]
fn minimal_closure_skips_unreferenced_passes() {
    let desc = attachment("color", 64, 64, TextureFormat::RGBA8);
    let g = RenderGraph::new();
    let (g, a) = color_pass(g, "a", desc, vec![]);
    let (g, _b) = color_pass(g, "b", desc, vec![]);
    let (g, _c) = color_pass(g, "c", desc, vec![]);
    let g = output_pass(g, "present", vec![a.read()]);
    let mut cache = RenderGraphCache::new();
    let plan = g.execute(&mut cache).unwrap();
    assert_eq!(plan.order, vec![0, 3]);
}

#[test]
fn producer_runs_before_consumer() {
    let desc = attachment("color", 64, 64, TextureFormat::RGBA8);
    let g = RenderGraph::new();
    let (g, a) = color_pass(g, "a", desc, vec![]);
    let (g, b) = color_pass(g, "b", desc, vec![a.read()]);
    let (g, c) = color_pass(g, "c", desc, vec![a.read(), b.read()]);
    let g = output_pass(g, "present", vec![c.read(), a.read()]);
    let mut cache = RenderGraphCache::new();
    let plan = g.execute(&mut cache).unwrap();
    assert_eq!(plan.order, vec![0, 1, 2, 3]);
}

#[test]
fn no_output_pass_is_rejected() {
    let desc = attachment("color", 64, 64, TextureFormat::RGBA8);
    let (g, _) = color_pass(RenderGraph::new(), "a", desc, vec![]);
    let mut cache = RenderGraphCache::new();
    assert_eq!(g.execute(&mut cache).unwrap_err(), GraphError::NoOutputPass);
    assert_eq!(cache.attachment_cache.count, 0);
}

#[test]
fn two_output_passes_are_rejected() {
    let g = output_pass(RenderGraph::new(), "one", vec![]);
    let g = output_pass(g, "two", vec![]);
    let mut cache = RenderGraphCache::new();
    assert_eq!(g.execute(&mut cache).unwrap_err(), GraphError::MultipleOutputPasses);
}

#[test]
fn descriptor_bound_by_two_passes_is_updated_once() {
    let g = RenderGraph::new();
    let mut b = g.add_pass("shared");
    let out = b.add_output_render_pass();
    let mut ds = DescriptorDesc {
        name: "globals",
        descriptor_layout: 7,
        bindings: vec![(0, DescriptorBindingDesc::ImportedBuffer { raw: 0xAB, size: 256 })],
    };
    let set = b.add_descriptor_set(&mut ds);
    let pipeline = b.add_raster_pipeline(raster("p", out));
    b.cmd_begin_render_pass(out, &[]);
    b.cmd_bind_raster_pipeline(pipeline);
    b.cmd_bind_raster_descriptor(set, 0, pipeline);
    b.cmd_draw(3, 1, 0, 0);
    b.cmd_end_render_pass();
    let g = b.finish();
    let mut b = g.add_pass("again");
    let mut ds2 = DescriptorDesc {
        name: "globals",
        descriptor_layout: 7,
        bindings: vec![(0, DescriptorBindingDesc::ImportedBuffer { raw: 0xAB, size: 256 })],
    };
    let set2 = b.add_descriptor_set(&mut ds2);
    b.cmd_bind_raster_descriptor(set2, 0, pipeline);
    b.cmd_bind_raster_descriptor(set, 0, pipeline);
    let g = b.finish();
    let mut cache = RenderGraphCache::new();
    let plan = g.execute(&mut cache).unwrap();
    assert_eq!(plan.descriptor_updates.len(), 1);
    assert_eq!(
        plan.resources.descriptor_map.get_physical(set.id),
        plan.resources.descriptor_map.get_physical(set2.id)
    );
    let allocs: usize = plan
        .creations
        .iter()
        .map(|c| match c {
            AllocCmd::AllocDescriptors { from, to, .. } => to - from,
            _ => 0,
        })
        .sum();
    assert_eq!(allocs, 1);
    let heaps = plan.creations.iter().filter(|c| matches!(c, AllocCmd::CreateDescriptorHeap { layout: 7, .. })).count();
    assert_eq!(heaps, 1);
}

#[test]
fn forged_handle_is_rejected() {
    let g = RenderGraph::new();
    let mut b = g.add_pass("present");
    let out = b.add_output_render_pass();
    b.cmd_begin_render_pass(GraphRenderPassHandle { id: out.id + 5 }, &[]);
    let g = b.finish();
    let mut cache = RenderGraphCache::new();
    assert_eq!(g.execute(&mut cache).unwrap_err(), GraphError::InvalidHandle);
}

#[test]
fn dependency_cycle_is_rejected() {
    let desc = attachment("color", 64, 64, TextureFormat::RGBA8);
    let g = RenderGraph::new();
    let (g, a) = color_pass(g, "a", desc, vec![]);
    let (mut g, b) = color_pass(g, "b", desc, vec![a.read()]);
    // Pass a also reads what pass b writes.
    g.passes[0].read_attachments.push(b.read());
    let g = output_pass(g, "present", vec![b.read()]);
    let mut cache = RenderGraphCache::new();
    assert_eq!(g.execute(&mut cache).unwrap_err(), GraphError::DependencyCycle);
}

#[test]
fn render_pass_moves_handles_to_output_state() {
    let g = RenderGraph::new();
    let mut b = g.add_pass("p");
    let c = b.add_attachment(attachment("c", 4, 4, TextureFormat::RGBA8));
    let d = b.add_attachment(attachment("d", 4, 4, TextureFormat::Depth));
    assert_eq!(c.layout, ImageLayout::Undefined);
    let mut rp = RenderPassDesc { name: "p", color_attachments: vec![c], depth_attachment: Some(d) };
    b.add_render_pass(&mut rp);
    assert_eq!(rp.color_attachments[0].layout, ImageLayout::ColorAttachmentOptimal);
    assert_eq!(rp.color_attachments[0].stage, STAGE_COLOR_ATTACHMENT_OUTPUT);
    assert_eq!(rp.color_attachments[0].access, ACCESS_COLOR_ATTACHMENT_WRITE);
    let depth = rp.depth_attachment.unwrap();
    assert_eq!(depth.layout, ImageLayout::DepthStencilAttachmentOptimal);
    assert_eq!(b.recorded.write_attachments.len(), 2);
    let read = depth.read();
    assert_eq!(read.initial_layout, ImageLayout::DepthStencilAttachmentOptimal);
    assert_eq!(read.final_layout, ImageLayout::ShaderReadOnlyOptimal);
}

#[test]
fn importing_the_same_object_twice_gives_one_handle() {
    let g = RenderGraph::new();
    let mut b = g.add_pass("p");
    let mesh = Mesh { vertex_buffer: 1, index_buffer: 2, index_count: 36 };
    b.cmd_draw_mesh(mesh);
    b.cmd_draw_mesh(mesh);
    let out = b.add_output_render_pass();
    b.add_raster_pipeline(raster("x", out));
    b.add_raster_pipeline(raster("y", out));
    assert_eq!(b.graph.imported_resources.len(), 3);
}

#[test]
fn buffers_and_compute_pipelines_are_pooled() {
    let g = RenderGraph::new();
    let mut b = g.add_pass("simulate");
    let particles = b.add_buffer(BufferDesc {
        name: "particles",
        size: 4096,
        usage: BUFFER_USAGE_STORAGE_BUFFER,
        location: MemoryLocation::GpuOnly,
    });
    let mut ds = DescriptorDesc {
        name: "sim",
        descriptor_layout: 3,
        bindings: vec![(0, DescriptorBindingDesc::MutableBuffer(particles))],
    };
    let set = b.add_descriptor_set(&mut ds);
    let pipeline = b.add_compute_pipeline(ComputePipelineDesc { name: "sim", cs: 40, descriptor_layouts: vec![3] });
    b.cmd_bind_compute_pipeline(pipeline);
    b.cmd_bind_compute_descriptor(set, 0, pipeline);
    b.cmd_dispatch(64, 1, 1);
    let written = match ds.bindings[0].1 {
        DescriptorBindingDesc::MutableBuffer(h) => h,
        _ => unreachable!(),
    };
    assert_eq!(written.stage, STAGE_ALL_SHADERS);
    let g = b.finish();
    let mut b = g.add_pass("draw");
    let out = b.add_output_render_pass();
    let mut ds = DescriptorDesc {
        name: "draw",
        descriptor_layout: 4,
        bindings: vec![(0, DescriptorBindingDesc::Buffer(written.read()))],
    };
    b.add_descriptor_set(&mut ds);
    b.cmd_begin_render_pass(out, &[]);
    b.cmd_end_render_pass();
    let g = b.finish();
    let mut cache = RenderGraphCache::new();
    let plan = g.execute(&mut cache).unwrap();
    assert_eq!(plan.order, vec![0, 1]);
    assert_eq!(cache.buffer_cache.count, 1);
    assert_eq!(plan.cmds[0], ReplayCmd::BindComputePipeline { pipeline: 0 });
    assert_eq!(plan.cmds[2], ReplayCmd::Dispatch { group_count_x: 64, group_count_y: 1, group_count_z: 1 });
    assert!(matches!(plan.cmds[3], ReplayCmd::BufferBarrier { buffer: 0, .. }));
    assert_eq!(
        plan.resources.render_pass_map.get_physical(out.id),
        RenderPassBinding::Output
    );
}

#[test]
fn empty_graph_has_no_output_pass() {
    let mut cache = RenderGraphCache::new();
    assert_eq!(RenderGraph::new().execute(&mut cache).unwrap_err(), GraphError::NoOutputPass);
}

#[test]
fn output_pass_alone_runs_without_barriers() {
    let g = output_pass(RenderGraph::new(), "present", vec![]);
    let mut cache = RenderGraphCache::new();
    let plan = g.execute(&mut cache).unwrap();
    assert_eq!(plan.order, vec![0]);
    assert_eq!(
        plan.cmds,
        vec![
            ReplayCmd::BeginOutputRenderPass { clear_values: 0 },
            ReplayCmd::Draw { vertex_count: 3, instance_count: 1, first_vertex: 0, first_instance: 0 },
            ReplayCmd::EndRenderPass,
        ]
    );
    assert_eq!(plan.descriptor_updates.len(), 1);
    assert!(plan.descriptor_updates[0].bindings.is_empty());
}

#[test]
fn creations_list_each_new_object_once_and_nothing_on_reuse() {
    let mut cache = RenderGraphCache::new();
    let plan = depth_cull_fullscreen_frame().execute(&mut cache).unwrap();
    let render_passes = plan.creations.iter().filter(|c| matches!(c, AllocCmd::CreateRenderPass { .. })).count();
    let framebuffers = plan.creations.iter().filter(|c| matches!(c, AllocCmd::CreateFramebuffer { .. })).count();
    assert_eq!(render_passes, 2);
    assert_eq!(framebuffers, 2);
    assert_eq!(count_created_attachments(&plan), 2);
    match &plan.creations[2] {
        AllocCmd::CreateDescriptorHeap { heap, layout } => {
            assert_eq!(*heap, 0);
            assert_eq!(*layout, 1);
        }
        other => panic!("expected a descriptor heap, got {:?}", other),
    }
    let plan = depth_cull_fullscreen_frame().execute(&mut cache).unwrap();
    assert!(plan.creations.iter().all(|c| matches!(c, AllocCmd::AllocDescriptors { from, to, .. } if from == to)));
}

#[test]
fn framebuffer_takes_smallest_attachment_extent() {
    let g = RenderGraph::new();
    let mut b = g.add_pass("p");
    let c = b.add_attachment(attachment("c", 640, 200, TextureFormat::RGBA8));
    let d = b.add_attachment(attachment("d", 320, 480, TextureFormat::Depth));
    let mut rp = RenderPassDesc { name: "p", color_attachments: vec![c], depth_attachment: Some(d) };
    b.add_render_pass(&mut rp);
    let out = b.add_output_render_pass();
    b.cmd_begin_render_pass(out, &[]);
    b.cmd_end_render_pass();
    let g = b.finish();
    let mut cache = RenderGraphCache::new();
    g.execute(&mut cache).unwrap();
    assert_eq!(cache.framebuffer_cache.keys.len(), 1);
    assert_eq!(cache.framebuffer_cache.keys[0].width, 320);
    assert_eq!(cache.framebuffer_cache.keys[0].height, 200);
}

#[test]
fn attachments_read_later_end_ready_for_shader_reads() {
    let mut cache = RenderGraphCache::new();
    let plan = depth_cull_fullscreen_frame().execute(&mut cache).unwrap();
    // The depth attachment and the storage image are both read by later passes.
    let geometry = &cache.render_pass_cache.keys[0];
    let depth = geometry.depth_attachment_desc.unwrap();
    assert_eq!(depth.initial_layout, ImageLayout::Undefined);
    assert_eq!(depth.final_layout, ImageLayout::ShaderReadOnlyOptimal);
    let cull = &cache.render_pass_cache.keys[1];
    assert_eq!(cull.color_attachment_descs[0].final_layout, ImageLayout::ShaderReadOnlyOptimal);
    // The barrier ahead of cull still starts from the depth writer's layout.
    assert!(matches!(
        plan.cmds[2],
        ReplayCmd::ImageBarrier {
            old_layout: ImageLayout::DepthStencilAttachmentOptimal,
            new_layout: ImageLayout::ShaderReadOnlyOptimal,
            ..
        }
    ));
}

#[test]
fn attachment_nobody_reads_ends_in_its_write_layout() {
    let desc = attachment("color", 64, 64, TextureFormat::RGBA8);
    let (g, _) = color_pass(RenderGraph::new(), "unread", desc, vec![]);
    let g = output_pass(g, "present", vec![]);
    let mut cache = RenderGraphCache::new();
    g.execute(&mut cache).unwrap();
    assert_eq!(cache.render_pass_cache.keys.len(), 1);
    assert_eq!(
        cache.render_pass_cache.keys[0].color_attachment_descs[0].final_layout,
        ImageLayout::ColorAttachmentOptimal
    );
}

#[test]
fn attachment_images_carry_the_attachment_bit() {
    let key = AttachmentCacheKey { width: 4, height: 4, format: TextureFormat::RGBA8, usage: TEXTURE_USAGE_SAMPLED };
    assert_eq!(key.image_usage(), TEXTURE_USAGE_SAMPLED | TEXTURE_USAGE_ATTACHMENT);
}

#[test]
fn teardown_destroys_every_pooled_object() {
    let mut cache = RenderGraphCache::new();
    depth_cull_fullscreen_frame().execute(&mut cache).unwrap();
    let cmds = cache.destroy();
    let count = |kind: ObjectKind| cmds.iter().filter(|c| c.kind == kind).count();
    assert_eq!(count(ObjectKind::Attachment), 2);
    assert_eq!(count(ObjectKind::RenderPass), 2);
    assert_eq!(count(ObjectKind::Framebuffer), 2);
    assert_eq!(count(ObjectKind::DescriptorHeap), 2);
    assert_eq!(cmds.len(), 8);
    assert_eq!(cmds[0], DestroyCmd { kind: ObjectKind::Framebuffer, index: 0 });
}
