//! What the renderer asks of the device, and what each request means for the
//! objects that are alive there.

use vstd::prelude::*;

use crate::descriptors::{
    DescriptorPoolDesc, DescriptorSetLayoutDesc, DeviceBufferDesc, HostBufferDesc, SamplerDesc,
    TextureWrite, UniformWrite,
};
use crate::pipeline::{PipelineDesc, Shader};
use crate::recording::Command;
use crate::targets::{FramebufferDesc, RenderPassDesc, SwapchainDesc};

verus! {

/// An object on the device that the renderer creates and destroys.
#[derive(Clone, Copy, Debug, PartialEq, Eq, Structural)]
pub enum Resource {
    GraphicsCommandPool,
    TransferCommandPool,
    /// The swapchain with its image views, its color and its depth texture.
    Swapchain,
    RenderPass,
    DescriptorSetLayout,
    ShaderModule(Shader),
    PipelineLayout,
    Pipeline,
    Framebuffer(u32),
    CommandBuffer(u32),
    /// The semaphores and the fence of one frame in flight.
    SyncObjects(u32),
    UniformBuffer(u32),
    /// The mapping of a uniform buffer into the memory of the host.
    UniformMapping(u32),
    TextureSampler,
    DescriptorPool,
    DescriptorSet(u32),
    VertexBuffer,
    IndexBuffer,
    Texture(u32),
}

/// A request to the device.
#[derive(Clone, Copy, Debug, PartialEq, Eq)]
pub enum GpuAction {
    CreateGraphicsCommandPool { queue_family_index: u32, flags: u32 },
    CreateTransferCommandPool { queue_family_index: u32, flags: u32 },
    CreateSwapchain(SwapchainDesc),
    CreateRenderPass(RenderPassDesc),
    CreateDescriptorSetLayout(DescriptorSetLayoutDesc),
    /// Creates the module of a shader from a file.
    CreateShaderModule { shader: Shader, path: &'static str },
    /// Creates the pipeline layout and the pipeline.
    CreatePipeline(PipelineDesc),
    CreateFramebuffer { index: u32, desc: FramebufferDesc },
    CreateSyncObjects { index: u32 },
    CreateUniformBuffer { index: u32, memory: HostBufferDesc },
    CreateSampler(SamplerDesc),
    CreateDescriptorPool(DescriptorPoolDesc),
    AllocateDescriptorSets { count: u32 },
    WriteUniform(UniformWrite),
    /// Creates the texture of that index from the image file asked for.
    CreateTexture { index: u32 },
    WriteTexture(TextureWrite),
    MapUniformBuffer { index: u32, offset: u64, size: u64, alignment: u64 },
    CreateVertexBuffer(DeviceBufferDesc),
    CreateIndexBuffer(DeviceBufferDesc),
    AllocateCommandBuffers { count: u32, level: i32 },
    Record { buffer: u32, command: Command },
    WaitIdle,
    DestroyShaderModule { shader: Shader },
    DestroySwapchain,
    DestroyFramebuffer { index: u32 },
    FreeCommandBuffers { count: u32 },
    DestroyPipeline,
    DestroyPipelineLayout,
    DestroyRenderPass,
    DestroyTexture { index: u32 },
    DestroySyncObjects { count: u32 },
    DestroySampler,
    /// Destroys the pool and the sets allocated from it.
    DestroyDescriptorPool { sets: u32 },
    DestroyDescriptorSetLayout,
    UnmapUniformBuffer { index: u32 },
    DestroyUniformBuffer { index: u32 },
    DestroyIndexBuffer,
    DestroyVertexBuffer,
    DestroyTransferCommandPool,
    DestroyGraphicsCommandPool,
}

/// The objects that a recorded command uses.
pub open spec fn command_uses(command: Command) -> Set<Resource> {
    match command {
        Command::BeginRenderPass { framebuffer, .. } => set![
            Resource::RenderPass,
            Resource::Framebuffer(framebuffer),
        ],
        Command::BindPipeline { .. } => set![Resource::Pipeline],
        Command::BindVertexBuffer { .. } => set![Resource::VertexBuffer],
        Command::BindIndexBuffer { .. } => set![Resource::IndexBuffer],
        Command::BindDescriptorSet { set, .. } => set![
            Resource::PipelineLayout,
            Resource::DescriptorSet(set),
        ],
        Command::PushTransform { .. } => set![Resource::PipelineLayout],
        Command::PushTextureIndex { .. } => set![Resource::PipelineLayout],
        _ => Set::empty(),
    }
}

/// The objects that a request uses without creating or destroying them.
pub open spec fn uses(action: GpuAction) -> Set<Resource> {
    match action {
        GpuAction::CreateSwapchain(_) => set![Resource::GraphicsCommandPool],
        GpuAction::CreatePipeline(desc) => set![
            Resource::RenderPass,
            Resource::DescriptorSetLayout,
            Resource::ShaderModule(desc.vertex_stage.shader),
            Resource::ShaderModule(desc.fragment_stage.shader),
        ],
        GpuAction::CreateFramebuffer { .. } => set![Resource::RenderPass, Resource::Swapchain],
        GpuAction::AllocateDescriptorSets { .. } => set![
            Resource::DescriptorPool,
            Resource::DescriptorSetLayout,
        ],
        GpuAction::WriteUniform(write) => set![
            Resource::DescriptorSet(write.set),
            Resource::UniformBuffer(write.buffer),
        ],
        GpuAction::CreateTexture { .. } => set![Resource::GraphicsCommandPool],
        GpuAction::WriteTexture(write) => set![
            Resource::DescriptorSet(write.set),
            Resource::Texture(write.texture),
            Resource::TextureSampler,
        ],
        GpuAction::MapUniformBuffer { index, .. } => set![Resource::UniformBuffer(index)],
        GpuAction::AllocateCommandBuffers { .. } => set![Resource::GraphicsCommandPool],
        GpuAction::Record { buffer, command } => command_uses(command).insert(
            Resource::CommandBuffer(buffer),
        ),
        GpuAction::FreeCommandBuffers { .. } => set![Resource::GraphicsCommandPool],
        GpuAction::UnmapUniformBuffer { index } => set![Resource::UniformBuffer(index)],
        _ => Set::empty(),
    }
}

/// The objects that a request creates.
pub open spec fn creates(action: GpuAction) -> Set<Resource> {
    match action {
        GpuAction::CreateGraphicsCommandPool { .. } => set![Resource::GraphicsCommandPool],
        GpuAction::CreateTransferCommandPool { .. } => set![Resource::TransferCommandPool],
        GpuAction::CreateSwapchain(_) => set![Resource::Swapchain],
        GpuAction::CreateRenderPass(_) => set![Resource::RenderPass],
        GpuAction::CreateDescriptorSetLayout(_) => set![Resource::DescriptorSetLayout],
        GpuAction::CreateShaderModule { shader, .. } => set![Resource::ShaderModule(shader)],
        GpuAction::CreatePipeline(_) => set![Resource::PipelineLayout, Resource::Pipeline],
        GpuAction::CreateFramebuffer { index, .. } => set![Resource::Framebuffer(index)],
        GpuAction::CreateSyncObjects { index } => set![Resource::SyncObjects(index)],
        GpuAction::CreateUniformBuffer { index, .. } => set![Resource::UniformBuffer(index)],
        GpuAction::CreateSampler(_) => set![Resource::TextureSampler],
        GpuAction::CreateDescriptorPool(_) => set![Resource::DescriptorPool],
        GpuAction::AllocateDescriptorSets { count } => Set::new(
            |r: Resource| r is DescriptorSet && r->DescriptorSet_0 < count,
        ),
        GpuAction::CreateTexture { index } => set![Resource::Texture(index)],
        GpuAction::MapUniformBuffer { index, .. } => set![Resource::UniformMapping(index)],
        GpuAction::CreateVertexBuffer(_) => set![Resource::VertexBuffer],
        GpuAction::CreateIndexBuffer(_) => set![Resource::IndexBuffer],
        GpuAction::AllocateCommandBuffers { count, .. } => Set::new(
            |r: Resource| r is CommandBuffer && r->CommandBuffer_0 < count,
        ),
        _ => Set::empty(),
    }
}

/// The objects that a request destroys.
pub open spec fn destroys(action: GpuAction) -> Set<Resource> {
    match action {
        GpuAction::DestroyShaderModule { shader } => set![Resource::ShaderModule(shader)],
        GpuAction::DestroySwapchain => set![Resource::Swapchain],
        GpuAction::DestroyFramebuffer { index } => set![Resource::Framebuffer(index)],
        GpuAction::FreeCommandBuffers { count } => Set::new(
            |r: Resource| r is CommandBuffer && r->CommandBuffer_0 < count,
        ),
        GpuAction::DestroyPipeline => set![Resource::Pipeline],
        GpuAction::DestroyPipelineLayout => set![Resource::PipelineLayout],
        GpuAction::DestroyRenderPass => set![Resource::RenderPass],
        GpuAction::DestroyTexture { index } => set![Resource::Texture(index)],
        GpuAction::DestroySyncObjects { count } => Set::new(
            |r: Resource| r is SyncObjects && r->SyncObjects_0 < count,
        ),
        GpuAction::DestroySampler => set![Resource::TextureSampler],
        GpuAction::DestroyDescriptorPool { sets } => Set::new(
            |r: Resource|
                r == Resource::DescriptorPool || (r is DescriptorSet && r->DescriptorSet_0 < sets),
        ),
        GpuAction::DestroyDescriptorSetLayout => set![Resource::DescriptorSetLayout],
        GpuAction::UnmapUniformBuffer { index } => set![Resource::UniformMapping(index)],
        GpuAction::DestroyUniformBuffer { index } => set![Resource::UniformBuffer(index)],
        GpuAction::DestroyIndexBuffer => set![Resource::IndexBuffer],
        GpuAction::DestroyVertexBuffer => set![Resource::VertexBuffer],
        GpuAction::DestroyTransferCommandPool => set![Resource::TransferCommandPool],
        GpuAction::DestroyGraphicsCommandPool => set![Resource::GraphicsCommandPool],
        _ => Set::empty(),
    }
}

/// A request is in order while `alive` are alive: what it uses and destroys is
/// alive, and what it creates is not.
pub open spec fn allowed(alive: Set<Resource>, action: GpuAction) -> bool {
    &&& forall|r: Resource| #[trigger] uses(action).contains(r) ==> alive.contains(r)
    &&& forall|r: Resource| #[trigger] destroys(action).contains(r) ==> alive.contains(r)
    &&& forall|r: Resource| #[trigger] creates(action).contains(r) ==> !alive.contains(r)
}

/// What is alive after a request.
pub open spec fn after(alive: Set<Resource>, action: GpuAction) -> Set<Resource> {
    alive.difference(destroys(action)).union(creates(action))
}

/// What is alive after a list of requests, or nothing where one of them is not
/// in order.
#[verifier::opaque]
pub open spec fn run(alive: Set<Resource>, actions: Seq<GpuAction>) -> Option<Set<Resource>>
    decreases actions.len(),
{
    if actions.len() == 0 {
        Some(alive)
    } else {
        match run(alive, actions.drop_last()) {
            Some(before) => if allowed(before, actions.last()) {
                Some(after(before, actions.last()))
            } else {
                None
            },
            None => None,
        }
    }
}

} // verus!
