use renderinstance::actions::GpuAction;
use renderinstance::descriptors::{DescriptorSetLayoutBinding, UBO};
use renderinstance::device::{QueueFamiliesIndices, SetupError};
use renderinstance::frame::{FrameAction, FrameError, FrameStep};
use renderinstance::instance::{
    cluster_upload, cluster_uploads, ClusterError, ClusterPlaces, FileLoad, Rebuild, RebuildError, RenderInstance,
};
use renderinstance::pipeline::{Shader, VertexAttribute, VertexBinding, VertexInput};
use renderinstance::recording::Command;
use renderinstance::scene::{
    AllocationId, BuffPtr, Cluster, ClusterNode, ClusterTree, GeometryBuffer, Texture, Transform,
    UploadRequest, Vertex, COLOR_LIST,
};
use renderinstance::targets::{SwapchainDesc, SwapchainProperties, SwapchainWrapper};
use renderinstance::vulkan::Extent2D;

const OUT_OF_DATE: i32 = -1000001004;
const DEVICE_LOST: i32 = -4;

#[derive(Clone, Copy)]
struct Camera {
    view: [f32; 16],
    proj: [f32; 16],
}

impl UBO for Camera {
    fn get_descriptor_set_layout_binding() -> DescriptorSetLayoutBinding {
        DescriptorSetLayoutBinding {
            binding: 0,
            descriptor_type: 6,
            descriptor_count: 1,
            stage_flags: 1,
        }
    }
}

fn camera(x: f32) -> Camera {
    Camera { view: [x; 16], proj: [-x; 16] }
}

fn indices() -> QueueFamiliesIndices {
    QueueFamiliesIndices { graphics_index: 0, present_index: 2, transfer_index: 1 }
}

fn extent(width: u32, height: u32) -> Extent2D {
    Extent2D { width, height }
}

fn setup() -> SwapchainDesc {
    SwapchainDesc {
        dimensions: extent(800, 600),
        queue_families_indices: indices(),
        msaa_samples: 8,
        depth_format: 126,
    }
}

fn swapchain(images: u32) -> SwapchainWrapper {
    SwapchainWrapper {
        properties: SwapchainProperties { format: 44, extent: extent(800, 600) },
        images,
    }
}

fn vertex_input() -> VertexInput {
    let attribute = |location, format, offset| VertexAttribute {
        location,
        binding: 0,
        format,
        offset,
    };
    VertexInput {
        binding: VertexBinding { binding: 0, stride: 32, input_rate: 0 },
        pos: attribute(0, 106, 0),
        color: attribute(1, 106, 12),
        coords: attribute(2, 103, 24),
    }
}

fn renderer() -> RenderInstance<Camera> {
    RenderInstance::create(setup(), swapchain(3), vertex_input()).unwrap().0
}

fn place(offset: u64, size: u64) -> BuffPtr {
    BuffPtr { handle: AllocationId(offset), offset, size }
}

fn tree(positions: usize) -> ClusterTree {
    let cluster = |first: f32| {
        Some(Cluster {
            idx: vec![0, 1, 2],
            pos: (0..positions).map(|i| (first + i as f32).to_bits()).collect(),
        })
    };
    ClusterTree {
        roots: vec![0, 1],
        nodes: vec![
            ClusterNode { children: vec![2, u32::MAX] },
            ClusterNode { children: vec![u32::MAX, u32::MAX] },
            ClusterNode { children: vec![] },
        ],
        clusters: vec![None, cluster(10.0), cluster(20.0)],
    }
}

fn vertex() -> Vertex {
    Vertex { pos: [0; 3], color: [0; 3], coords: [0; 2] }
}

#[test]
fn graphics_commands_come_from_the_graphics_family() {
    let mut families = indices();
    families.graphics_index = 4;
    assert_eq!(
        RenderInstance::<Camera>::begin_create(families),
        GpuAction::CreateGraphicsCommandPool { queue_family_index: 4, flags: 0 }
    );
}

#[test]
fn first_swapchain_needs_a_depth_format() {
    assert_eq!(
        RenderInstance::<Camera>::first_swapchain(indices(), Some(126), 8, extent(800, 600)),
        Ok(setup())
    );
    assert_eq!(
        RenderInstance::<Camera>::first_swapchain(indices(), None, 8, extent(800, 600)),
        Err(SetupError::NoDepthFormat)
    );
}

#[test]
fn new_renderer_is_empty() {
    let instance = renderer();
    assert_eq!(instance.queue_families_indices, indices());
    assert_eq!(instance.swapchain, swapchain(3));
    assert_eq!((instance.msaa_samples, instance.depth_format), (8, 126));
    assert_eq!(instance.vertex_input, vertex_input());
    assert_eq!((instance.in_flight_frames.count, instance.in_flight_frames.current), (3, 0));
    assert_eq!((instance.framebuffers, instance.command_buffers), (3, 0));
    assert_eq!((instance.descriptor_sets, instance.uniform_buffers), (3, 3));
    assert!(instance.renderables.is_empty());
    assert!(instance.ubo_data.is_none());
    assert_eq!(instance.descriptor_image_count, 0);
    assert_eq!((instance.render_width(), instance.render_height()), (800, 600));
}

#[test]
fn refused_blocks_are_errors() {
    let refused = ash::vk::Result::ERROR_OUT_OF_HOST_MEMORY;
    let block =
        || vk_mem::VirtualBlock::new(vk_mem::VirtualBlockCreateInfo::new().size(1024));
    let assemble = |vertex, index| {
        RenderInstance::<Camera>::assemble(
            setup(),
            swapchain(2),
            vertex_input(),
            vertex,
            index,
            rand::thread_rng(),
        )
    };
    assert_eq!(assemble(Err(refused), Err(refused)).err(), Some(SetupError::NoVertexBlock));
    assert_eq!(assemble(Err(refused), block()).err(), Some(SetupError::NoVertexBlock));
    assert_eq!(assemble(block(), Err(refused)).err(), Some(SetupError::NoIndexBlock));
    let instance = assemble(block(), block()).ok().unwrap();
    assert_eq!(instance.framebuffers, 2);
    assert_eq!(instance.command_buffers, 0);
}

#[test]
fn creation_is_listed_in_order() {
    let (_, actions) = RenderInstance::<Camera>::create(setup(), swapchain(2), vertex_input()).unwrap();
    assert_eq!(actions.len(), 8 + 2 + 3 + 3 + 3 + 3 + 3 + 2);
    assert!(matches!(actions[0], GpuAction::CreateRenderPass(desc)
        if desc.color.format == 44 && desc.color.samples == 8 && desc.depth.format == 126));
    assert!(matches!(actions[1], GpuAction::CreateDescriptorSetLayout(desc)
        if desc.uniform == Camera::get_descriptor_set_layout_binding()));
    assert_eq!(
        actions[2],
        GpuAction::CreateShaderModule {
            shader: Shader::Vertex,
            path: "shaders/shader_stage.vert.spv",
        }
    );
    assert_eq!(
        actions[3],
        GpuAction::CreateShaderModule {
            shader: Shader::Fragment,
            path: "shaders/shader_stage.frag.spv",
        }
    );
    assert!(matches!(actions[4], GpuAction::CreatePipeline(desc)
        if desc.scissor.extent == extent(800, 600) && desc.vertex_input == vertex_input()));
    assert_eq!(actions[5], GpuAction::DestroyShaderModule { shader: Shader::Vertex });
    assert_eq!(actions[6], GpuAction::DestroyShaderModule { shader: Shader::Fragment });
    assert_eq!(
        actions[7],
        GpuAction::CreateTransferCommandPool { queue_family_index: 1, flags: 1 }
    );
    assert!(matches!(actions[8], GpuAction::CreateFramebuffer { index: 0, .. }));
    assert!(matches!(actions[9], GpuAction::CreateFramebuffer { index: 1, .. }));
    for i in 0..3u32 {
        let at = 10 + i as usize;
        assert_eq!(actions[at], GpuAction::CreateSyncObjects { index: i });
        assert!(matches!(actions[at + 3], GpuAction::CreateUniformBuffer { index, memory }
            if index == i && memory.size == 128));
        assert!(matches!(actions[at + 9], GpuAction::WriteUniform(write)
            if write.set == i && write.buffer == i && write.range == 128));
        assert_eq!(
            actions[at + 12],
            GpuAction::MapUniformBuffer { index: i, offset: 0, size: 128, alignment: 4 }
        );
    }
    assert!(matches!(actions[16], GpuAction::CreateSampler(_)));
    assert!(matches!(actions[17], GpuAction::CreateDescriptorPool(desc) if desc.max_sets == 3));
    assert_eq!(actions[18], GpuAction::AllocateDescriptorSets { count: 3 });
    assert!(matches!(actions[25], GpuAction::CreateVertexBuffer(desc) if desc.size == 1 << 32));
    assert!(matches!(actions[26], GpuAction::CreateIndexBuffer(desc) if desc.size == 1 << 32));
}

#[test]
fn textures_get_ascending_indices() {
    let mut instance = renderer();
    let first = instance.renderable_from_file("a.obj".to_string(), Some("a.png".to_string()));
    let plain = instance.renderable_from_file("b.obj".to_string(), None);
    let second = instance.renderable_from_file("c.obj".to_string(), Some("c.png".to_string()));
    assert_eq!(first.texture_index, Some(0));
    assert_eq!(first.texture, Some(Texture(0)));
    assert_eq!(first.model_path, "a.obj");
    assert_eq!(first.texture_path, Some("a.png".to_string()));
    assert_eq!(plain.texture_index, None);
    assert_eq!(plain.texture, None);
    assert!(plain.actions.is_empty());
    assert_eq!(second.texture_index, Some(1));
    assert_eq!(instance.descriptor_image_count, 2);
    assert_eq!(second.actions.len(), 4);
    assert_eq!(second.actions[0], GpuAction::CreateTexture { index: 1 });
    for set in 0..3u32 {
        assert!(matches!(second.actions[1 + set as usize], GpuAction::WriteTexture(write)
            if write.set == set && write.binding == 1 && write.array_element == 1
                && write.texture == 1));
    }
}

#[test]
fn model_reserves_whole_vertices_and_indices() {
    let mut instance = renderer();
    let load = instance.renderable_from_file("a.obj".to_string(), None);
    let upload = load.model_loaded(&[vertex(); 5], &[0, 1, 2, 2, 3, 4, 0]);
    assert_eq!(upload.vertex, UploadRequest { buffer: GeometryBuffer::Vertex, reserve: 160 });
    assert_eq!(upload.index, UploadRequest { buffer: GeometryBuffer::Index, reserve: 28 });
    assert_eq!((upload.vertex_count, upload.index_count), (5, 7));
}

#[test]
fn model_becomes_a_renderable_without_instances() {
    let mut instance = renderer();
    let load = instance.renderable_from_file("a.obj".to_string(), Some("a.png".to_string()));
    let upload = load.model_loaded(&[vertex(); 3], &[0, 1, 2]);
    assert!(instance.is_drawable());
    assert_eq!(instance.finish_file(load, upload, place(64, 96), place(128, 12)), 0);
    assert!(!instance.is_drawable());
    let added = instance.get_renderable(0);
    assert_eq!(added.texture_index, Some(0));
    assert_eq!(added.texture, Some(Texture(0)));
    assert_eq!(added.asset_path, "a.obj");
    assert!(added.instances.is_empty());
    assert_eq!(added.meshes.len(), 1);
    assert_eq!(added.meshes[0].vertex_buffer_ptr, place(64, 96));
    assert_eq!(added.meshes[0].index_buffer_ptr, place(128, 12));
    assert_eq!((added.meshes[0].vertex_count, added.meshes[0].index_count), (3, 3));
    added.instances.push(Transform::identity());
    assert!(instance.is_drawable());
}

#[test]
fn plain_uploads_reserve_one_number_for_each_item() {
    let mut instance = renderer();
    assert_eq!(
        instance.upload_vertices(&[vertex(); 6]),
        UploadRequest { buffer: GeometryBuffer::Vertex, reserve: 24 }
    );
    assert_eq!(
        instance.upload_indices(&[0, 1, 2]),
        UploadRequest { buffer: GeometryBuffer::Index, reserve: 12 }
    );
    assert_eq!(instance.upload_indices(&[]).reserve, 0);
    assert!(instance.renderables.is_empty());
}

#[test]
fn cluster_upload_in_a_color_of_the_list() {
    let tree = tree(6);
    let upload = cluster_upload(&tree, 1, 14).unwrap();
    assert_eq!(upload.leaf, 1);
    assert_eq!(upload.index, UploadRequest { buffer: GeometryBuffer::Index, reserve: 12 });
    assert_eq!(upload.index_count, 3);
    assert_eq!(upload.vertex, UploadRequest { buffer: GeometryBuffer::Vertex, reserve: 64 });
    assert_eq!(upload.vertices.len(), 2);
    assert_eq!(upload.vertices[1].pos.map(f32::from_bits), [13.0, 14.0, 15.0]);
    assert_eq!(upload.vertices[1].color.map(f32::from_bits), [0.0, 0.0, 0.5]);
}

#[test]
fn cluster_upload_in_a_color_beyond_the_list() {
    assert_eq!(cluster_upload(&tree(6), 2, 15).err(), Some(ClusterError::NoSuchColor));
    assert!(cluster_upload(&tree(0), 2, 15).unwrap().vertices.is_empty());
}

#[test]
fn cluster_uploads_in_a_list_of_colors() {
    let uploads = cluster_uploads(&tree(3), &vec![1, 2]).unwrap();
    assert_eq!((uploads[0].leaf, uploads[1].leaf), (1, 2));
    assert_eq!(uploads[0].vertices[0].color.map(f32::from_bits), [1.0, 0.0, 0.0]);
    assert_eq!(uploads[1].vertices[0].color.map(f32::from_bits), [0.0, 1.0, 0.0]);
    assert_eq!(cluster_uploads(&tree(3), &vec![1, 15]).err(), Some(ClusterError::NoSuchColor));
    assert_eq!(cluster_uploads(&tree(0), &vec![15, 15]).unwrap().len(), 2);
}

#[test]
fn cluster_file_gives_a_mesh_for_each_leaf() {
    let tree = tree(3);
    let mut instance = renderer();
    let mut drawn = Vec::new();
    for _ in 0..200 {
        match instance.renderable_from_cm_file("x.cm".to_string(), &tree) {
            Ok(load) => {
                assert_eq!(load.asset_path, "x.cm");
                assert_eq!(load.uploads.len(), 2);
                assert_eq!((load.uploads[0].leaf, load.uploads[1].leaf), (1, 2));
                for upload in &load.uploads {
                    assert_eq!(upload.vertices.len(), 1);
                    assert!(COLOR_LIST.contains(&upload.vertices[0].color));
                    if !drawn.contains(&upload.vertices[0].color) {
                        drawn.push(upload.vertices[0].color);
                    }
                }
            }
            Err(error) => assert_eq!(error, ClusterError::NoSuchColor),
        }
    }
    assert!(drawn.len() > 1);
}

#[test]
fn cluster_file_without_positions_never_fails() {
    let tree = tree(0);
    let mut instance = renderer();
    for _ in 0..100 {
        assert!(instance.renderable_from_cm_file("x.cm".to_string(), &tree).is_ok());
    }
}

#[test]
fn cluster_file_becomes_a_drawable_renderable() {
    let tree = tree(3);
    let mut instance = renderer();
    let load = loop {
        if let Ok(load) = instance.renderable_from_cm_file("x.cm".to_string(), &tree) {
            break load;
        }
    };
    let places = vec![
        ClusterPlaces { index: place(0, 12), vertex: place(0, 32) },
        ClusterPlaces { index: place(16, 12), vertex: place(32, 32) },
    ];
    assert_eq!(instance.finish_cm_file(load, &places), 0);
    assert!(instance.is_drawable());
    let added = instance.get_renderable(0);
    assert_eq!(added.texture_index, None);
    assert_eq!(added.texture, None);
    assert_eq!(added.asset_path, "x.cm");
    assert_eq!(added.instances, vec![Transform::identity(); 2]);
    assert_eq!(added.meshes.len(), 2);
    assert_eq!(added.meshes[1].index_buffer_ptr, place(16, 12));
    assert_eq!(added.meshes[1].vertex_buffer_ptr, place(32, 32));
    assert_eq!((added.meshes[1].vertex_count, added.meshes[1].index_count), (1, 3));
}

#[test]
fn indices_of_renderables_stay() {
    let mut instance = renderer();
    for name in ["a", "b", "c"] {
        let load: FileLoad = instance.renderable_from_file(name.to_string(), None);
        let upload = load.model_loaded(&[], &[]);
        instance.finish_file(load, upload, place(0, 0), place(0, 0));
    }
    assert_eq!(instance.get_renderable(0).asset_path, "a");
    assert_eq!(instance.get_renderable(1).asset_path, "b");
    assert_eq!(instance.get_renderable(2).asset_path, "c");
}

#[test]
fn rebuild_keeps_the_size_of_the_swapchain() {
    match renderer().rebuild(None) {
        Rebuild::Started(actions) => {
            assert_eq!(
                actions,
                vec![
                    GpuAction::WaitIdle,
                    GpuAction::DestroySwapchain,
                    GpuAction::DestroyFramebuffer { index: 0 },
                    GpuAction::DestroyFramebuffer { index: 1 },
                    GpuAction::DestroyFramebuffer { index: 2 },
                    GpuAction::FreeCommandBuffers { count: 0 },
                    GpuAction::DestroyPipeline,
                    GpuAction::DestroyPipelineLayout,
                    GpuAction::DestroyRenderPass,
                    GpuAction::CreateSwapchain(setup()),
                ]
            );
        }
        Rebuild::Minimized => panic!("minimized"),
    }
}

#[test]
fn rebuild_takes_the_size_of_a_resized_window() {
    match renderer().rebuild(Some(extent(1024, 768))) {
        Rebuild::Started(actions) => {
            assert!(matches!(actions.last(), Some(GpuAction::CreateSwapchain(desc))
                if desc.dimensions == extent(1024, 768)));
        }
        Rebuild::Minimized => panic!("minimized"),
    }
}

#[test]
fn rebuild_waits_while_the_window_is_minimized() {
    let instance = renderer();
    assert!(matches!(instance.rebuild(Some(extent(0, 768))), Rebuild::Minimized));
    assert!(matches!(instance.rebuild(Some(extent(1024, 0))), Rebuild::Minimized));
    assert!(matches!(instance.rebuild(Some(extent(1, 1))), Rebuild::Started(_)));
}

#[test]
fn finished_rebuild_records_every_image() {
    let mut instance = renderer();
    let mut fresh = swapchain(2);
    fresh.properties.extent = extent(1024, 768);
    let actions = instance.finish_rebuild(fresh).unwrap();
    assert_eq!(instance.swapchain, fresh);
    assert_eq!((instance.framebuffers, instance.command_buffers), (2, 2));
    assert_eq!((instance.render_width(), instance.render_height()), (1024, 768));
    assert_eq!(actions.len(), 6 + 2 + 1 + 2 * 8);
    assert!(matches!(actions[0], GpuAction::CreateRenderPass(_)));
    assert!(matches!(actions[3], GpuAction::CreatePipeline(desc)
        if desc.vertex_input == vertex_input()));
    assert!(matches!(actions[7], GpuAction::CreateFramebuffer { index: 1, desc }
        if desc.width == 1024 && desc.height == 768));
    assert_eq!(actions[8], GpuAction::AllocateCommandBuffers { count: 2, level: 0 });
    assert_eq!(
        actions[9],
        GpuAction::Record { buffer: 0, command: Command::BeginCommandBuffer { usage: 4 } }
    );
    assert!(matches!(
        actions[18],
        GpuAction::Record { buffer: 1, command: Command::BeginRenderPass { framebuffer: 1, .. } }
    ));
    assert_eq!(
        actions[24],
        GpuAction::Record { buffer: 1, command: Command::EndCommandBuffer }
    );
}

#[test]
fn more_images_than_descriptor_sets() {
    let mut instance = renderer();
    assert_eq!(instance.finish_rebuild(swapchain(4)), Err(RebuildError::TooManyImages));
    assert_eq!(instance.swapchain, swapchain(3));
    assert_eq!((instance.framebuffers, instance.command_buffers), (3, 0));
}

#[test]
fn waiting_is_a_request() {
    assert_eq!(renderer().wait_gpu_idle(), GpuAction::WaitIdle);
}

#[test]
fn uniform_data_is_replaced() {
    let mut instance = renderer();
    instance.update_uniform_buffers(camera(1.0));
    instance.update_uniform_buffers(camera(2.0));
    let data = instance.ubo_data.unwrap();
    assert_eq!(data.view, [2.0; 16]);
    assert_eq!(data.proj, [-2.0; 16]);
}

#[test]
fn frame_starts_with_the_next_set() {
    let mut instance = renderer();
    for sync in [0, 1, 2, 0] {
        let (taken, actions) = instance.draw_frame();
        assert_eq!(taken, sync);
        assert_eq!(actions[0], FrameAction::WaitForFence { sync, timeout: u64::MAX });
        assert_eq!(actions[1], FrameAction::AcquireNextImage { sync, timeout: u64::MAX });
    }
}

#[test]
fn acquired_image_is_drawn() {
    let mut instance = renderer();
    instance.finish_rebuild(swapchain(3)).unwrap();
    match instance.image_acquired(1, Ok((2, true))) {
        Ok(FrameStep::Drawing(actions)) => {
            assert_eq!(actions.len(), 3);
            assert_eq!(actions[2], FrameAction::Present { image_index: 2, sync: 1 });
        }
        _ => panic!("not drawn"),
    }
    instance.update_uniform_buffers(camera(1.0));
    match instance.image_acquired(1, Ok((2, false))) {
        Ok(FrameStep::Drawing(actions)) => {
            assert_eq!(actions[1], FrameAction::CopyUniform { mapping: 2 });
        }
        _ => panic!("not drawn"),
    }
}

#[test]
fn outdated_swapchain_ends_the_frame() {
    assert!(matches!(
        renderer().image_acquired(0, Err(OUT_OF_DATE)),
        Ok(FrameStep::Finished(true))
    ));
}

#[test]
fn failed_acquisition_is_an_error() {
    assert_eq!(
        renderer().image_acquired(0, Err(DEVICE_LOST)).err(),
        Some(FrameError::Acquire(DEVICE_LOST))
    );
}

#[test]
fn images_without_objects_are_errors() {
    let mut instance = renderer();
    assert_eq!(
        instance.image_acquired(0, Ok((0, false))).err(),
        Some(FrameError::NoCommandBuffer(0))
    );
    instance.finish_rebuild(swapchain(2)).unwrap();
    assert_eq!(
        instance.image_acquired(0, Ok((2, false))).err(),
        Some(FrameError::NoCommandBuffer(2))
    );
    instance.update_uniform_buffers(camera(0.0));
    assert_eq!(
        instance.image_acquired(0, Ok((3, false))).err(),
        Some(FrameError::NoUniformMapping(3))
    );
}

#[test]
fn teardown_is_listed_in_order() {
    let mut instance = renderer();
    let load = instance.renderable_from_file("a".to_string(), Some("a.png".to_string()));
    let upload = load.model_loaded(&[], &[]);
    let index = instance.finish_file(load, upload, place(0, 0), place(0, 0));
    instance.get_renderable(index).instances.push(Transform::identity());
    instance.finish_rebuild(swapchain(1)).unwrap();
    assert_eq!(
        instance.teardown(),
        vec![
            GpuAction::DestroyTexture { index: 0 },
            GpuAction::DestroySwapchain,
            GpuAction::DestroyFramebuffer { index: 0 },
            GpuAction::FreeCommandBuffers { count: 1 },
            GpuAction::DestroyPipeline,
            GpuAction::DestroyPipelineLayout,
            GpuAction::DestroyRenderPass,
            GpuAction::DestroySyncObjects { count: 3 },
            GpuAction::DestroySampler,
            GpuAction::DestroyDescriptorPool { sets: 3 },
            GpuAction::DestroyDescriptorSetLayout,
            GpuAction::UnmapUniformBuffer { index: 0 },
            GpuAction::DestroyUniformBuffer { index: 0 },
            GpuAction::UnmapUniformBuffer { index: 1 },
            GpuAction::DestroyUniformBuffer { index: 1 },
            GpuAction::UnmapUniformBuffer { index: 2 },
            GpuAction::DestroyUniformBuffer { index: 2 },
            GpuAction::DestroyIndexBuffer,
            GpuAction::DestroyVertexBuffer,
            GpuAction::DestroyTransferCommandPool,
            GpuAction::DestroyGraphicsCommandPool,
        ]
    );
}
