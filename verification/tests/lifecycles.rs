use renderinstance::actions::{GpuAction, Resource};
use renderinstance::descriptors::{DescriptorSetLayoutBinding, UBO};
use renderinstance::device::QueueFamiliesIndices;
use renderinstance::instance::{Rebuild, RenderInstance};
use renderinstance::frame::{frame_draw, FrameAction, FrameError};
use renderinstance::pipeline::{Shader, VertexAttribute, VertexBinding, VertexInput};
use renderinstance::recording::Command;
use renderinstance::scene::{AllocationId, BuffPtr, Transform, Vertex};
use renderinstance::targets::{SwapchainDesc, SwapchainProperties, SwapchainWrapper};
use renderinstance::vulkan::Extent2D;

#[derive(Clone, Copy)]
struct Globals(u32);

impl UBO for Globals {
    fn get_descriptor_set_layout_binding() -> DescriptorSetLayoutBinding {
        DescriptorSetLayoutBinding {
            binding: 0,
            descriptor_type: 6,
            descriptor_count: 1,
            stage_flags: 1,
        }
    }
}

/// A device that only remembers which objects are alive.
struct Device {
    alive: Vec<Resource>,
    /// What the command buffers hold.
    recorded: Vec<Vec<Command>>,
}

impl Device {
    fn create(&mut self, resource: Resource) {
        assert!(!self.alive.contains(&resource), "{:?} is created twice", resource);
        self.alive.push(resource);
    }

    fn use_it(&self, resource: Resource) {
        assert!(self.alive.contains(&resource), "{:?} is used and not alive", resource);
    }

    fn destroy(&mut self, resource: Resource) {
        self.use_it(resource);
        self.alive.retain(|r| *r != resource);
    }

    fn perform(&mut self, action: GpuAction) {
        match action {
            GpuAction::CreateGraphicsCommandPool { .. } => {
                self.create(Resource::GraphicsCommandPool)
            }
            GpuAction::CreateTransferCommandPool { .. } => {
                self.create(Resource::TransferCommandPool)
            }
            GpuAction::CreateSwapchain(_) => self.create(Resource::Swapchain),
            GpuAction::CreateRenderPass(_) => self.create(Resource::RenderPass),
            GpuAction::CreateDescriptorSetLayout(_) => self.create(Resource::DescriptorSetLayout),
            GpuAction::CreateShaderModule { shader, .. } => {
                self.create(Resource::ShaderModule(shader))
            }
            GpuAction::CreatePipeline(_) => {
                self.use_it(Resource::ShaderModule(Shader::Vertex));
                self.use_it(Resource::ShaderModule(Shader::Fragment));
                self.use_it(Resource::RenderPass);
                self.use_it(Resource::DescriptorSetLayout);
                self.create(Resource::PipelineLayout);
                self.create(Resource::Pipeline);
            }
            GpuAction::CreateFramebuffer { index, .. } => {
                self.use_it(Resource::RenderPass);
                self.use_it(Resource::Swapchain);
                self.create(Resource::Framebuffer(index));
            }
            GpuAction::CreateSyncObjects { index } => self.create(Resource::SyncObjects(index)),
            GpuAction::CreateUniformBuffer { index, .. } => {
                self.create(Resource::UniformBuffer(index))
            }
            GpuAction::CreateSampler(_) => self.create(Resource::TextureSampler),
            GpuAction::CreateDescriptorPool(_) => self.create(Resource::DescriptorPool),
            GpuAction::AllocateDescriptorSets { count } => {
                self.use_it(Resource::DescriptorPool);
                (0..count).for_each(|i| self.create(Resource::DescriptorSet(i)));
            }
            GpuAction::WriteUniform(write) => {
                self.use_it(Resource::DescriptorSet(write.set));
                self.use_it(Resource::UniformBuffer(write.buffer));
            }
            GpuAction::CreateTexture { index } => self.create(Resource::Texture(index)),
            GpuAction::WriteTexture(write) => {
                self.use_it(Resource::DescriptorSet(write.set));
                self.use_it(Resource::Texture(write.texture));
                self.use_it(Resource::TextureSampler);
            }
            GpuAction::MapUniformBuffer { index, .. } => {
                self.use_it(Resource::UniformBuffer(index));
                self.create(Resource::UniformMapping(index));
            }
            GpuAction::CreateVertexBuffer(_) => self.create(Resource::VertexBuffer),
            GpuAction::CreateIndexBuffer(_) => self.create(Resource::IndexBuffer),
            GpuAction::AllocateCommandBuffers { count, .. } => {
                self.use_it(Resource::GraphicsCommandPool);
                (0..count).for_each(|i| self.create(Resource::CommandBuffer(i)));
                self.recorded = vec![Vec::new(); count as usize];
            }
            GpuAction::Record { buffer, command } => {
                self.use_it(Resource::CommandBuffer(buffer));
                self.recorded[buffer as usize].push(command);
                match command {
                    Command::BeginRenderPass { framebuffer, .. } => {
                        self.use_it(Resource::RenderPass);
                        self.use_it(Resource::Framebuffer(framebuffer));
                    }
                    Command::BindDescriptorSet { set, .. } => {
                        self.use_it(Resource::DescriptorSet(set))
                    }
                    _ => {}
                }
            }
            GpuAction::WaitIdle => {}
            GpuAction::DestroyShaderModule { shader } => {
                self.destroy(Resource::ShaderModule(shader))
            }
            GpuAction::DestroySwapchain => self.destroy(Resource::Swapchain),
            GpuAction::DestroyFramebuffer { index } => self.destroy(Resource::Framebuffer(index)),
            GpuAction::FreeCommandBuffers { count } => {
                (0..count).for_each(|i| self.destroy(Resource::CommandBuffer(i)))
            }
            GpuAction::DestroyPipeline => self.destroy(Resource::Pipeline),
            GpuAction::DestroyPipelineLayout => self.destroy(Resource::PipelineLayout),
            GpuAction::DestroyRenderPass => self.destroy(Resource::RenderPass),
            GpuAction::DestroyTexture { index } => self.destroy(Resource::Texture(index)),
            GpuAction::DestroySyncObjects { count } => {
                (0..count).for_each(|i| self.destroy(Resource::SyncObjects(i)))
            }
            GpuAction::DestroySampler => self.destroy(Resource::TextureSampler),
            GpuAction::DestroyDescriptorPool { sets } => {
                (0..sets).for_each(|i| self.destroy(Resource::DescriptorSet(i)));
                self.destroy(Resource::DescriptorPool);
            }
            GpuAction::DestroyDescriptorSetLayout => self.destroy(Resource::DescriptorSetLayout),
            GpuAction::UnmapUniformBuffer { index } => {
                self.destroy(Resource::UniformMapping(index))
            }
            GpuAction::DestroyUniformBuffer { index } => {
                self.destroy(Resource::UniformBuffer(index))
            }
            GpuAction::DestroyIndexBuffer => self.destroy(Resource::IndexBuffer),
            GpuAction::DestroyVertexBuffer => self.destroy(Resource::VertexBuffer),
            GpuAction::DestroyTransferCommandPool => self.destroy(Resource::TransferCommandPool),
            GpuAction::DestroyGraphicsCommandPool => self.destroy(Resource::GraphicsCommandPool),
        }
    }

    fn perform_all(&mut self, actions: Vec<GpuAction>) {
        actions.into_iter().for_each(|action| self.perform(action));
    }
}

fn swapchain(images: u32) -> SwapchainWrapper {
    SwapchainWrapper {
        properties: SwapchainProperties {
            format: 44,
            extent: Extent2D { width: 320, height: 200 },
        },
        images,
    }
}

fn vertex_input() -> VertexInput {
    let attribute = |location, format, offset| VertexAttribute {
        location,
        binding: 0,
        format,
        offset,
    };
    VertexInput {
        binding: VertexBinding { binding: 0, stride: 32, input_rate: 0 },
        pos: attribute(0, 106, 0),
        color: attribute(1, 106, 12),
        coords: attribute(2, 103, 24),
    }
}

fn brought_up(images: u32) -> (RenderInstance<Globals>, Device) {
    let families =
        QueueFamiliesIndices { graphics_index: 0, present_index: 0, transfer_index: 1 };
    let setup = RenderInstance::<Globals>::first_swapchain(
        families,
        Some(126),
        4,
        Extent2D { width: 320, height: 200 },
    )
    .unwrap();
    let mut device = Device { alive: Vec::new(), recorded: Vec::new() };
    device.perform(RenderInstance::<Globals>::begin_create(families));
    device.perform(GpuAction::CreateSwapchain(setup));
    let (instance, actions) = RenderInstance::create(setup, swapchain(images), vertex_input()).unwrap();
    device.perform_all(actions);
    (instance, device)
}

fn rebuilt(instance: &mut RenderInstance<Globals>, device: &mut Device, images: u32) {
    match instance.rebuild(None) {
        Rebuild::Started(actions) => device.perform_all(actions),
        Rebuild::Minimized => panic!("minimized"),
    }
    let actions = instance.finish_rebuild(swapchain(images)).unwrap();
    device.perform_all(actions);
}

fn with_texture(instance: &mut RenderInstance<Globals>, device: &mut Device) {
    let nowhere = BuffPtr { handle: AllocationId(0), offset: 0, size: 0 };
    let load = instance.renderable_from_file("model".to_string(), Some("image".to_string()));
    device.perform_all(load.actions.clone());
    let upload = load.model_loaded(&[], &[]);
    let index = instance.finish_file(load, upload, nowhere, nowhere);
    instance.get_renderable(index).instances.push(Transform::identity());
}

#[test]
fn everything_is_brought_up() {
    let (_, device) = brought_up(3);
    assert_eq!(device.alive.len(), 11 + 3 + 4 * 3);
    assert!(device.alive.contains(&Resource::Framebuffer(2)));
    assert!(!device.alive.contains(&Resource::Framebuffer(3)));
    assert!(!device.alive.contains(&Resource::CommandBuffer(0)));
}

#[test]
fn rebuild_keeps_everything_alive() {
    let (mut instance, mut device) = brought_up(3);
    rebuilt(&mut instance, &mut device, 2);
    assert_eq!(device.alive.len(), 11 + 2 + 2 + 4 * 3);
    rebuilt(&mut instance, &mut device, 3);
    assert_eq!(device.alive.len(), 11 + 3 + 3 + 4 * 3);
}

#[test]
fn textures_are_owned_by_their_renderables() {
    let (mut instance, mut device) = brought_up(2);
    with_texture(&mut instance, &mut device);
    with_texture(&mut instance, &mut device);
    assert!(device.alive.contains(&Resource::Texture(0)));
    assert!(device.alive.contains(&Resource::Texture(1)));
    rebuilt(&mut instance, &mut device, 2);
    assert!(device.alive.contains(&Resource::Texture(1)));
}

#[test]
fn nothing_is_left_behind() {
    let (instance, mut device) = brought_up(3);
    device.perform_all(instance.teardown());
    assert!(device.alive.is_empty());
    let (mut instance, mut device) = brought_up(2);
    with_texture(&mut instance, &mut device);
    with_texture(&mut instance, &mut device);
    rebuilt(&mut instance, &mut device, 3);
    instance.update_uniform_buffers(Globals(1));
    assert_eq!(instance.ubo_data.unwrap().0, 1);
    device.perform_all(instance.teardown());
    assert!(device.alive.is_empty());
}

#[test]
fn shader_modules_are_gone_once_the_pipeline_is_made() {
    let (mut instance, mut device) = brought_up(2);
    assert!(!device.alive.contains(&Resource::ShaderModule(Shader::Vertex)));
    rebuilt(&mut instance, &mut device, 2);
    assert!(!device.alive.contains(&Resource::ShaderModule(Shader::Fragment)));
}

#[test]
fn loads_are_drawn_from_the_next_rebuild_on() {
    let (mut instance, mut device) = brought_up(2);
    rebuilt(&mut instance, &mut device, 2);
    let before = device.recorded.clone();
    assert_eq!(before[1].len(), 8);
    with_texture(&mut instance, &mut device);
    instance.draw_frame();
    assert_eq!(device.recorded, before);
    rebuilt(&mut instance, &mut device, 2);
    assert_eq!(device.recorded[1].len(), 11);
}

#[test]
fn nothing_is_drawn_before_the_first_rebuild() {
    let (mut instance, mut device) = brought_up(2);
    with_texture(&mut instance, &mut device);
    instance.draw_frame();
    assert_eq!(
        instance.image_acquired(0, Ok((0, false))).err(),
        Some(FrameError::NoCommandBuffer(0))
    );
    instance.update_uniform_buffers(Globals(3));
    instance.draw_frame();
    assert_eq!(
        instance.image_acquired(1, Ok((1, false))).err(),
        Some(FrameError::NoCommandBuffer(1))
    );
}

#[test]
fn uniform_data_is_copied_in_every_later_frame() {
    let (mut instance, mut device) = brought_up(3);
    rebuilt(&mut instance, &mut device, 3);
    instance.update_uniform_buffers(Globals(7));
    for image_index in [2, 0, 0, 1] {
        let (sync, _) = instance.draw_frame();
        assert_eq!(instance.ubo_data.unwrap().0, 7);
        let actions = frame_draw(sync, image_index, instance.ubo_data.is_some());
        let copies: Vec<_> = actions
            .iter()
            .filter(|action| matches!(action, FrameAction::CopyUniform { .. }))
            .collect();
        assert_eq!(copies, vec![&FrameAction::CopyUniform { mapping: image_index }]);
    }
}

#[test]
fn texture_indices_count_up_through_a_history() {
    let (mut instance, mut device) = brought_up(2);
    with_texture(&mut instance, &mut device);
    let nowhere = BuffPtr { handle: AllocationId(0), offset: 0, size: 0 };
    let load = instance.renderable_from_file("plain".to_string(), None);
    let upload = load.model_loaded(&[], &[]);
    let index = instance.finish_file(load, upload, nowhere, nowhere);
    instance.get_renderable(index).instances.push(Transform::identity());
    rebuilt(&mut instance, &mut device, 2);
    instance.draw_frame();
    with_texture(&mut instance, &mut device);
    let indices: Vec<_> = instance.renderables.iter().map(|r| r.texture_index).collect();
    assert_eq!(indices, vec![Some(0), None, Some(1)]);
    assert_eq!(instance.descriptor_image_count, 2);
}

#[test]
fn geometry_of_disjoint_ranges_stays() {
    let (mut instance, _) = brought_up(2);
    let mut offset = 0;
    let mut ranges = Vec::new();
    for count in [3usize, 1, 4] {
        let load = instance.renderable_from_file("model".to_string(), None);
        let vertex = Vertex { pos: [0; 3], color: [0; 3], coords: [0; 2] };
        let upload = load.model_loaded(&vec![vertex; count], &vec![0; 2 * count]);
        let place = upload.vertex.placed(AllocationId(0), offset, upload.vertex.reserve);
        let index_place = upload.index.placed(AllocationId(0), offset, upload.index.reserve);
        ranges.push((offset, offset + upload.vertex.reserve));
        offset += upload.vertex.reserve;
        instance.finish_file(load, upload, place, index_place);
    }
    for (renderable, range) in instance.renderables.iter().zip(ranges) {
        let mesh = renderable.meshes[0];
        let start = mesh.vertex_buffer_ptr.offset;
        assert_eq!((start, start + mesh.vertex_count as u64 * 32), range);
        assert_eq!(mesh.index_buffer_ptr.size, mesh.index_count as u64 * 4);
    }
}

#[test]
fn index_uploads_take_what_they_ask_for() {
    let (mut instance, _) = brought_up(2);
    let first = instance.upload_indices(&[0, 1, 2]);
    let second = instance.upload_indices(&[4, 5]);
    let first_place = first.placed(AllocationId(0), 0, 12);
    let second_place = second.placed(AllocationId(1), first.reserve, 8);
    assert_eq!(first_place.offset + 3 * 4, second_place.offset);
    assert_eq!((first.reserve, second.reserve), (first_place.size, second_place.size));
}
