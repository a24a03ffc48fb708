//! The renderer: what it knows of the device, the scene, and what it asks of
//! the device next.

use vstd::prelude::*;

use crate::actions::{GpuAction, Resource};
use crate::descriptors::{UBO, MAX_FRAMES_IN_FLIGHT, PAGE_SIZE};
use crate::device::{QueueFamiliesIndices, SetupError};
use crate::external::{
    block_capacity, block_ranges, draw_below, new_virtual_block, thread_generator,
};
use crate::frame::{
    acquired_outcome, draw_actions, frame_draw, frame_start, law_sets_follow_in_a_circle,
    start_actions, FrameAction, FrameError, FrameStep, InFlightFrames,
};
use crate::plans::{
    creation_actions, creation_plan, replace_swapchain_actions, replace_swapchain_plan,
    restore_actions, restore_plan, scene_textures, teardown_actions, teardown_plan,
    texture_actions, texture_plan,
};
use crate::history::{step, Event};
use crate::pipeline::VertexInput;
use crate::recording::drawable;
use crate::scene::{
    are_cluster_vertices, cluster_vertices, find_leaves, flat_positions, is_cluster_vertex,
    law_cluster_positions_are_kept, transformed, BuffPtr, ClusterTree, GeometryBuffer, Mesh,
    Renderable, Texture, Transform, UploadRequest, Vertex, COLOR_COUNT, COLOR_DRAWS, COLOR_LIST,
    INDEX_SIZE, SCALAR_SIZE, VERTEX_SIZE,
};
use crate::targets::{find_depth_format, SwapchainDesc, SwapchainWrapper};
use crate::vulkan::{Extent2D, COMMAND_POOL_CREATE_NONE, ERROR_OUT_OF_DATE_KHR};

verus! {

/// The renderer. Objects on the device are known by their position; the
/// allocators hand out ranges of the vertex and of the index buffer.
pub struct RenderInstance<T: UBO + Copy> {
    pub queue_families_indices: QueueFamiliesIndices,
    pub swapchain: SwapchainWrapper,
    pub msaa_samples: u32,
    pub depth_format: i32,
    pub vertex_input: VertexInput,
    pub in_flight_frames: InFlightFrames,
    /// How many framebuffers there are.
    pub framebuffers: u32,
    /// How many command buffers there are.
    pub command_buffers: u32,
    /// How many descriptor sets there are.
    pub descriptor_sets: u32,
    /// How many mapped uniform buffers there are.
    pub uniform_buffers: u32,
    pub vertex_alloc: vk_mem::VirtualBlock,
    pub index_alloc: vk_mem::VirtualBlock,
    pub renderables: Vec<Renderable>,
    pub ubo_data: Option<T>,
    /// How many textures were given an index.
    pub descriptor_image_count: u32,
    pub rng: rand::rngs::ThreadRng,
}

/// How a rebuild begins.
#[derive(Debug)]
pub enum Rebuild {
    /// The window has no area; the rebuild has to wait until it has.
    Minimized,
    /// The requests up to the new swapchain.
    Started(Vec<GpuAction>),
}

/// Why a rebuild could not be finished.
#[derive(Clone, Copy, Debug, PartialEq, Eq, Structural)]
pub enum RebuildError {
    /// The swapchain has more images than there are descriptor sets.
    TooManyImages,
}

/// Why a cluster tree could not be turned into meshes.
#[derive(Clone, Copy, Debug, PartialEq, Eq, Structural)]
pub enum ClusterError {
    /// The color drawn for a cluster is not in the list.
    NoSuchColor,
}

/// A renderable on its way from a model file.
#[derive(Debug)]
pub struct FileLoad {
    pub model_path: String,
    pub texture_path: Option<String>,
    pub texture_index: Option<u32>,
    pub texture: Option<Texture>,
    /// The creation of the texture and its writes to the descriptor sets.
    pub actions: Vec<GpuAction>,
}

/// The uploads of a model: vertices first, then indices.
#[derive(Clone, Copy, Debug, PartialEq, Eq, Structural)]
pub struct ModelUpload {
    pub vertex: UploadRequest,
    pub vertex_count: usize,
    pub index: UploadRequest,
    pub index_count: usize,
}

/// The uploads of the cluster of one leaf: its indices first, then the
/// vertices.
#[derive(Debug)]
pub struct ClusterUpload {
    pub leaf: usize,
    pub index: UploadRequest,
    pub index_count: usize,
    pub vertex: UploadRequest,
    pub vertices: Vec<Vertex>,
}

/// A renderable on its way from a cluster file.
#[derive(Debug)]
pub struct ClusterLoad {
    pub asset_path: String,
    pub uploads: Vec<ClusterUpload>,
}

/// Where the geometry of a cluster was placed.
#[derive(Clone, Copy, Debug, PartialEq, Eq, Structural)]
pub struct ClusterPlaces {
    pub index: BuffPtr,
    pub vertex: BuffPtr,
}

/// The upload of the cluster of node `leaf`, in color `color`.
pub open spec fn is_cluster_upload(
    upload: ClusterUpload,
    tree: ClusterTree,
    leaf: usize,
    color: int,
) -> bool {
    let cluster = tree.cluster(leaf);
    &&& upload.leaf == leaf
    &&& upload.index.buffer == GeometryBuffer::Index
    &&& upload.index.reserve == cluster.idx@.len() * INDEX_SIZE
    &&& upload.index_count == cluster.idx@.len()
    &&& upload.vertex.buffer == GeometryBuffer::Vertex
    &&& upload.vertex.reserve == cluster.pos@.len() / 3 * VERTEX_SIZE
    &&& are_cluster_vertices(upload.vertices@, cluster.pos@, color)
}

/// Every leaf with positions has a color of the list.
pub open spec fn colors_fit(tree: ClusterTree, colors: Seq<usize>) -> bool {
    forall|k: int|
        0 <= k < tree.leaves().len() && tree.cluster(tree.leaves()[k]).pos@.len() > 0
            ==> #[trigger] colors[k] < COLOR_COUNT
}

/// The uploads of all leaves, leaf `k` in color `colors[k]`.
pub open spec fn are_cluster_uploads(
    uploads: Seq<ClusterUpload>,
    tree: ClusterTree,
    colors: Seq<usize>,
) -> bool {
    &&& uploads.len() == tree.leaves().len()
    &&& colors.len() == tree.leaves().len()
    &&& colors_fit(tree, colors)
    &&& forall|k: int|
        0 <= k < uploads.len() ==> is_cluster_upload(
            #[trigger] uploads[k],
            tree,
            tree.leaves()[k],
            colors[k] as int,
        )
}

/// A color came out of a draw, with that generator, from all colors that can be
/// drawn.
pub closed spec fn was_drawn(color: usize, rng: &mut rand::rngs::ThreadRng) -> bool {
    call_ensures(draw_below, (rng, COLOR_DRAWS), color)
}

/// Each color came out of its own draw, with the generator as it then was.
pub open spec fn were_drawn(colors: Seq<usize>, draws: Seq<&mut rand::rngs::ThreadRng>) -> bool {
    &&& draws.len() == colors.len()
    &&& forall|k: int| 0 <= k < colors.len() ==> #[trigger] colors[k] < COLOR_DRAWS
    &&& forall|k: int| 0 <= k < colors.len() ==> was_drawn(#[trigger] colors[k], draws[k])
}

/// What a cluster tree gives in the colors `colors`.
pub open spec fn is_cluster_load(
    load: Result<ClusterLoad, ClusterError>,
    asset_path: String,
    tree: ClusterTree,
    colors: Seq<usize>,
) -> bool {
    match load {
        Ok(planned) => {
            &&& planned.asset_path == asset_path
            &&& are_cluster_uploads(planned.uploads@, tree, colors)
        },
        Err(ClusterError::NoSuchColor) => !colors_fit(tree, colors),
    }
}

/// The mesh of an uploaded cluster.
pub open spec fn cluster_mesh(upload: ClusterUpload, places: ClusterPlaces) -> Mesh {
    Mesh {
        vertex_buffer_ptr: places.vertex,
        vertex_count: upload.vertices.len(),
        index_buffer_ptr: places.index,
        index_count: upload.index_count,
    }
}

/// The size that a rebuilt swapchain is asked for: that of the window where it
/// was resized, else that of the current swapchain.
pub open spec fn rebuild_dimensions(current: Extent2D, window: Option<Extent2D>) -> Extent2D {
    match window {
        Some(size) => size,
        None => current,
    }
}

/// Plans the upload of the cluster of one leaf, in the color of that position in
/// the list. A cluster without positions needs no color.
pub fn cluster_upload(tree: &ClusterTree, leaf: usize, color: usize) -> (upload: Result<
    ClusterUpload,
    ClusterError,
>)
    requires
        tree.loaded(leaf),
    ensures
        match upload {
            Ok(planned) => {
                &&& tree.cluster(leaf).pos@.len() > 0 ==> color < COLOR_COUNT
                &&& is_cluster_upload(planned, *tree, leaf, color as int)
            },
            Err(ClusterError::NoSuchColor) => {
                &&& tree.cluster(leaf).pos@.len() > 0
                &&& color >= COLOR_COUNT
            },
        },
{
    let cluster = tree.clusters[leaf].as_ref().unwrap();
    if cluster.pos.len() > 0 && color >= COLOR_COUNT {
        return Err(ClusterError::NoSuchColor);
    }
    let index_count = cluster.idx.len();
    let vertices = cluster_vertices(&cluster.pos, color);
    let vertex_count = vertices.len();
    Ok(
        ClusterUpload {
            leaf,
            index: UploadRequest {
                buffer: GeometryBuffer::Index,
                reserve: index_count as u64 * INDEX_SIZE,
            },
            index_count,
            vertex: UploadRequest {
                buffer: GeometryBuffer::Vertex,
                reserve: vertex_count as u64 * VERTEX_SIZE,
            },
            vertices,
        },
    )
}

/// Plans the uploads of all leaves, leaf `k` in the color `colors[k]`.
pub fn cluster_uploads(tree: &ClusterTree, colors: &Vec<usize>) -> (uploads: Result<
    Vec<ClusterUpload>,
    ClusterError,
>)
    requires
        tree.wf(),
        colors@.len() == tree.leaves().len(),
    ensures
        match uploads {
            Ok(planned) => are_cluster_uploads(planned@, *tree, colors@),
            Err(ClusterError::NoSuchColor) => !colors_fit(*tree, colors@),
        },
{
    let leaves = find_leaves(&tree.nodes);
    let mut uploads: Vec<ClusterUpload> = Vec::new();
    let mut k: usize = 0;
    while k < leaves.len()
        invariant
            k <= leaves@.len(),
            leaves@ == tree.leaves(),
            colors@.len() == leaves@.len(),
            tree.wf(),
            uploads@.len() == k,
            forall|j: int|
                0 <= j < k && tree.cluster(tree.leaves()[j]).pos@.len() > 0
                    ==> #[trigger] colors@[j] < COLOR_COUNT,
            forall|j: int|
                0 <= j < k ==> is_cluster_upload(
                    #[trigger] uploads@[j],
                    *tree,
                    tree.leaves()[j],
                    colors@[j] as int,
                ),
        decreases leaves@.len() - k,
    {
        let leaf = leaves[k];
        assert(tree.loaded(tree.leaves()[k as int]));
        match cluster_upload(tree, leaf, colors[k]) {
            Ok(upload) => {
                uploads.push(upload);
            },
            Err(error) => {
                assert(colors@[k as int] >= COLOR_COUNT);
                return Err(error);
            },
        }
        k = k + 1;
    }
    Ok(uploads)
}

/// Draws `count` colors, one after the other: each draw goes on from the
/// generator as the draw before it left it.
fn draw_colors(rng: &mut rand::rngs::ThreadRng, count: usize) -> (colors: Vec<usize>)
    ensures
        colors@.len() == count,
        exists|draws: Seq<&mut rand::rngs::ThreadRng>|
            {
                &&& #[trigger] were_drawn(colors@, draws)
                &&& count == 0 ==> *final(rng) == *old(rng)
                &&& count > 0 ==> *draws[0] == *old(rng) && *final(draws.last()) == *final(rng)
                &&& forall|k: int| 0 < k < count ==> *final(draws[k - 1]) == *(#[trigger] draws[k])
            },
{
    let mut colors: Vec<usize> = Vec::new();
    let mut k: usize = 0;
    assert(were_drawn(colors@, Seq::<&mut rand::rngs::ThreadRng>::empty()));
    while k < count
        invariant
            colors@.len() == k,
            k <= count,
            exists|draws: Seq<&mut rand::rngs::ThreadRng>|
                {
                    &&& #[trigger] were_drawn(colors@, draws)
                    &&& k == 0 ==> *rng == *old(rng)
                    &&& k > 0 ==> *draws[0] == *old(rng) && *final(draws.last()) == *rng
                    &&& forall|j: int| 0 < j < k ==> *final(draws[j - 1]) == *(#[trigger] draws[j])
                },
        decreases count - k,
    {
        let ghost before = *rng;
        let ghost colors_before = colors@;
        let color = draw_below(rng, COLOR_DRAWS);
        colors.push(color);
        proof {
            let draws = choose|draws: Seq<&mut rand::rngs::ThreadRng>|
                {
                    &&& #[trigger] were_drawn(colors_before, draws)
                    &&& k == 0 ==> before == *old(rng)
                    &&& k > 0 ==> *draws[0] == *old(rng) && *final(draws.last()) == before
                    &&& forall|j: int| 0 < j < k ==> *final(draws[j - 1]) == *(#[trigger] draws[j])
                };
            let draw = choose|draw: &mut rand::rngs::ThreadRng|
                {
                    &&& *draw == before
                    &&& *final(draw) == *rng
                    &&& #[trigger] call_ensures(draw_below, (draw, COLOR_DRAWS), color)
                };
            assert(was_drawn(color, draw));
            let draws_now = draws.push(draw);
            assert forall|j: int| 0 <= j < colors@.len() implies was_drawn(
                #[trigger] colors@[j],
                draws_now[j],
            ) by {
                if j < colors_before.len() {
                    assert(colors@[j] == colors_before[j]);
                }
            }
            assert forall|j: int| 0 <= j < colors@.len() implies #[trigger] colors@[j]
                < COLOR_DRAWS by {
                if j < colors_before.len() {
                    assert(colors@[j] == colors_before[j]);
                }
            }
            assert(were_drawn(colors@, draws_now));
        }
        k = k + 1;
    }
    colors
}

/// The uploads of a model with so many vertices and indices.
pub open spec fn is_model_upload(upload: ModelUpload, vertices: nat, indices: nat) -> bool {
    &&& upload.vertex.buffer == GeometryBuffer::Vertex
    &&& upload.vertex.reserve == vertices * VERTEX_SIZE
    &&& upload.vertex_count == vertices
    &&& upload.index.buffer == GeometryBuffer::Index
    &&& upload.index.reserve == indices * INDEX_SIZE
    &&& upload.index_count == indices
}

/// A renderable was added behind the others.
pub open spec fn is_added(before: Seq<Renderable>, now: Seq<Renderable>) -> bool {
    &&& now.len() == before.len() + 1
    &&& now.drop_last() == before
}

/// A renderable from a model file was started: where it has a texture, the next
/// texture index was taken, and its texture is created and written to every
/// descriptor set.
pub open spec fn file_load_started<T: UBO + Copy>(
    before: RenderInstance<T>,
    now: RenderInstance<T>,
    model_path: String,
    texture_path: Option<String>,
    load: FileLoad,
) -> bool {
    &&& load.model_path == model_path
    &&& load.texture_path == texture_path
    &&& texture_path is None ==> {
        &&& load.texture_index is None
        &&& load.texture is None
        &&& load.actions@.len() == 0
        &&& now == before
    }
    &&& texture_path is Some ==> {
        &&& load.texture_index == Some(before.descriptor_image_count)
        &&& load.texture == Some(Texture(before.descriptor_image_count))
        &&& load.actions@ == texture_actions(before.descriptor_sets, before.descriptor_image_count)
        &&& now == (RenderInstance {
            descriptor_image_count: (before.descriptor_image_count + 1) as u32,
            ..before
        })
    }
}

/// The renderable of a model file was added: its texture and one mesh, without
/// an instance.
pub open spec fn file_load_finished<T: UBO + Copy>(
    before: RenderInstance<T>,
    now: RenderInstance<T>,
    load: FileLoad,
    upload: ModelUpload,
    vertex_buffer_ptr: BuffPtr,
    index_buffer_ptr: BuffPtr,
) -> bool {
    let added = now.renderables@.last();
    &&& is_added(before.renderables@, now.renderables@)
    &&& added.texture_index == load.texture_index
    &&& added.texture == load.texture
    &&& added.meshes@ == seq![
        Mesh {
            vertex_buffer_ptr,
            vertex_count: upload.vertex_count,
            index_buffer_ptr,
            index_count: upload.index_count,
        },
    ]
    &&& added.asset_path == load.model_path
    &&& added.instances@.len() == 0
    &&& now == (RenderInstance { renderables: now.renderables, ..before })
}

/// The renderable of a cluster tree was added: one mesh for each upload, each at
/// the identity transform.
pub open spec fn cluster_load_finished<T: UBO + Copy>(
    before: RenderInstance<T>,
    now: RenderInstance<T>,
    load: ClusterLoad,
    places: Seq<ClusterPlaces>,
) -> bool {
    let added = now.renderables@.last();
    &&& is_added(before.renderables@, now.renderables@)
    &&& added.texture_index is None
    &&& added.texture is None
    &&& added.meshes@ == Seq::new(
        places.len(),
        |k: int| cluster_mesh(load.uploads@[k], places[k]),
    )
    &&& added.asset_path == load.asset_path
    &&& added.instances@ == Seq::new(places.len(), |k: int| Transform::identity_matrix())
    &&& now == (RenderInstance { renderables: now.renderables, ..before })
}

impl FileLoad {
    /// Plans the uploads of a loaded model.
    pub fn model_loaded(&self, vertices: &[Vertex], indices: &[u32]) -> (upload: ModelUpload)
        requires
            vertices@.len() * VERTEX_SIZE <= usize::MAX,
            indices@.len() * INDEX_SIZE <= usize::MAX,
        ensures
            is_model_upload(upload, vertices@.len(), indices@.len()),
    {
        ModelUpload {
            vertex: UploadRequest {
                buffer: GeometryBuffer::Vertex,
                reserve: vertices.len() as u64 * VERTEX_SIZE,
            },
            vertex_count: vertices.len(),
            index: UploadRequest {
                buffer: GeometryBuffer::Index,
                reserve: indices.len() as u64 * INDEX_SIZE,
            },
            index_count: indices.len(),
        }
    }
}

impl<T: UBO + Copy> RenderInstance<T> {
    /// There is a set of frame objects for each frame in flight, a framebuffer
    /// for each swapchain image and, once recorded, a command buffer and a
    /// descriptor set for each framebuffer.
    pub open spec fn wf(&self) -> bool {
        &&& self.in_flight_frames.wf()
        &&& self.in_flight_frames.count == MAX_FRAMES_IN_FLIGHT
        &&& self.descriptor_sets == MAX_FRAMES_IN_FLIGHT
        &&& self.uniform_buffers == MAX_FRAMES_IN_FLIGHT
        &&& self.framebuffers == self.swapchain.images
        &&& self.command_buffers == 0 || self.command_buffers == self.framebuffers
        &&& self.command_buffers <= self.descriptor_sets
    }

    /// What the current swapchain would be created again with.
    pub open spec fn swapchain_setup(&self, dimensions: Extent2D) -> SwapchainDesc {
        SwapchainDesc {
            dimensions,
            queue_families_indices: self.queue_families_indices,
            msaa_samples: self.msaa_samples,
            depth_format: self.depth_format,
        }
    }

    /// Whether an object on the device belongs to the renderer. Shader modules
    /// are there only while a pipeline is made.
    pub open spec fn owns(&self, r: Resource) -> bool {
        ||| r is GraphicsCommandPool
        ||| r is TransferCommandPool
        ||| r is Swapchain
        ||| r is RenderPass
        ||| r is DescriptorSetLayout
        ||| r is PipelineLayout
        ||| r is Pipeline
        ||| r is Framebuffer && r->Framebuffer_0 < self.framebuffers
        ||| r is CommandBuffer && r->CommandBuffer_0 < self.command_buffers
        ||| r is SyncObjects && r->SyncObjects_0 < self.in_flight_frames.count
        ||| r is UniformBuffer && r->UniformBuffer_0 < self.uniform_buffers
        ||| r is UniformMapping && r->UniformMapping_0 < self.uniform_buffers
        ||| r is TextureSampler
        ||| r is DescriptorPool
        ||| r is DescriptorSet && r->DescriptorSet_0 < self.descriptor_sets
        ||| r is VertexBuffer
        ||| r is IndexBuffer
        ||| r is Texture && scene_textures(self.renderables@).contains(Texture(r->Texture_0))
    }

    /// The objects on the device that belong to the renderer.
    pub open spec fn owned(&self) -> Set<Resource> {
        Set::new(|r: Resource| self.owns(r))
    }

    /// The first request on a new device: the pool of the graphics commands.
    pub fn begin_create(queue_families_indices: QueueFamiliesIndices) -> (action: GpuAction)
        ensures
            action == (GpuAction::CreateGraphicsCommandPool {
                queue_family_index: queue_families_indices.graphics_index,
                flags: COMMAND_POOL_CREATE_NONE,
            }),
    {
        GpuAction::CreateGraphicsCommandPool {
            queue_family_index: queue_families_indices.graphics_index,
            flags: COMMAND_POOL_CREATE_NONE,
        }
    }

    /// What the first swapchain is created with, given the supported depth
    /// format, the sample count and the size of the output.
    pub fn first_swapchain(
        queue_families_indices: QueueFamiliesIndices,
        supported_depth_format: Option<i32>,
        msaa_samples: u32,
        dimensions: Extent2D,
    ) -> (setup: Result<SwapchainDesc, SetupError>)
        ensures
            setup == (match supported_depth_format {
                Some(depth_format) => Ok::<SwapchainDesc, SetupError>(
                    SwapchainDesc {
                        dimensions,
                        queue_families_indices,
                        msaa_samples,
                        depth_format,
                    },
                ),
                None => Err(SetupError::NoDepthFormat),
            }),
    {
        match find_depth_format(supported_depth_format) {
            Ok(depth_format) => Ok(
                SwapchainDesc { dimensions, queue_families_indices, msaa_samples, depth_format },
            ),
            Err(error) => Err(error),
        }
    }

    /// The renderer is new: it knows the swapchain it was made for, and nothing
    /// was uploaded, recorded or drawn yet.
    pub open spec fn is_new(
        &self,
        setup: SwapchainDesc,
        swapchain: SwapchainWrapper,
        vertex_input: VertexInput,
    ) -> bool {
        &&& self.wf()
        &&& self.queue_families_indices == setup.queue_families_indices
        &&& self.swapchain == swapchain
        &&& self.msaa_samples == setup.msaa_samples
        &&& self.depth_format == setup.depth_format
        &&& self.vertex_input == vertex_input
        &&& self.in_flight_frames.current == 0
        &&& self.command_buffers == 0
        &&& self.renderables@.len() == 0
        &&& self.ubo_data is None
        &&& self.descriptor_image_count == 0
    }

    /// Puts the renderer together around its allocators, given how making them
    /// went.
    pub fn assemble(
        setup: SwapchainDesc,
        swapchain: SwapchainWrapper,
        vertex_input: VertexInput,
        vertex_block: Result<vk_mem::VirtualBlock, ash::vk::Result>,
        index_block: Result<vk_mem::VirtualBlock, ash::vk::Result>,
        rng: rand::rngs::ThreadRng,
    ) -> (assembled: Result<RenderInstance<T>, SetupError>)
        ensures
            match assembled {
                Ok(instance) => {
                    &&& instance.is_new(setup, swapchain, vertex_input)
                    &&& vertex_block is Ok
                    &&& instance.vertex_alloc == vertex_block->Ok_0
                    &&& index_block is Ok
                    &&& instance.index_alloc == index_block->Ok_0
                    &&& instance.rng == rng
                },
                Err(error) => if vertex_block is Err {
                    error == SetupError::NoVertexBlock
                } else {
                    index_block is Err && error == SetupError::NoIndexBlock
                },
            },
    {
        let vertex_alloc = match vertex_block {
            Ok(block) => block,
            Err(_) => {
                return Err(SetupError::NoVertexBlock);
            },
        };
        let index_alloc = match index_block {
            Ok(block) => block,
            Err(_) => {
                return Err(SetupError::NoIndexBlock);
            },
        };
        Ok(
            RenderInstance {
                queue_families_indices: setup.queue_families_indices,
                swapchain,
                msaa_samples: setup.msaa_samples,
                depth_format: setup.depth_format,
                vertex_input,
                in_flight_frames: InFlightFrames::new(MAX_FRAMES_IN_FLIGHT),
                framebuffers: swapchain.images,
                command_buffers: 0,
                descriptor_sets: MAX_FRAMES_IN_FLIGHT,
                uniform_buffers: MAX_FRAMES_IN_FLIGHT,
                vertex_alloc,
                index_alloc,
                renderables: Vec::new(),
                ubo_data: None,
                descriptor_image_count: 0,
                rng,
            },
        )
    }

    /// Makes the renderer for a swapchain that was created with `setup`, and
    /// lists what else has to be created for it.
    pub fn create(
        setup: SwapchainDesc,
        swapchain: SwapchainWrapper,
        vertex_input: VertexInput,
    ) -> (created: Result<(RenderInstance<T>, Vec<GpuAction>), SetupError>)
        ensures
            created is Ok,
            match created {
                Ok((instance, actions)) => {
                    &&& instance.is_new(setup, swapchain, vertex_input)
                    &&& block_capacity(instance.vertex_alloc) == PAGE_SIZE
                    &&& block_ranges(instance.vertex_alloc).dom() == Set::<u64>::empty()
                    &&& block_capacity(instance.index_alloc) == PAGE_SIZE
                    &&& block_ranges(instance.index_alloc).dom() == Set::<u64>::empty()
                    &&& exists|uniform|
                        {
                            &&& call_ensures(T::get_descriptor_set_layout_binding, (), uniform)
                            &&& actions@ == #[trigger] creation_actions(
                                setup,
                                swapchain,
                                vertex_input,
                                uniform,
                                vstd::layout::size_of::<T>() as u64,
                            )
                        }
                },
                Err(_) => false,
            },
    {
        let uniform = T::get_descriptor_set_layout_binding();
        let actions = creation_plan(
            setup,
            swapchain,
            vertex_input,
            uniform,
            core::mem::size_of::<T>() as u64,
        );
        let vertex_block = new_virtual_block(PAGE_SIZE);
        let index_block = new_virtual_block(PAGE_SIZE);
        match Self::assemble(
            setup,
            swapchain,
            vertex_input,
            vertex_block,
            index_block,
            thread_generator(),
        ) {
            Ok(instance) => Ok((instance, actions)),
            Err(error) => Err(error),
        }
    }

    /// Starts a renderable from a model file. Where it has a texture, the next
    /// free texture index is taken and written to every descriptor set.
    pub fn renderable_from_file(
        &mut self,
        model_path: String,
        texture_path: Option<String>,
    ) -> (load: FileLoad)
        requires
            texture_path is Some ==> old(self).descriptor_image_count < u32::MAX,
        ensures
            file_load_started(*old(self), *final(self), model_path, texture_path, load),
            old(self).wf() ==> final(self).wf(),
    {
        match texture_path {
            Some(path) => {
                let texture_index = self.descriptor_image_count;
                self.descriptor_image_count = self.descriptor_image_count + 1;
                FileLoad {
                    model_path,
                    texture_path: Some(path),
                    texture_index: Some(texture_index),
                    texture: Some(Texture(texture_index)),
                    actions: texture_plan(self.descriptor_sets, texture_index),
                }
            },
            None => FileLoad {
                model_path,
                texture_path: None,
                texture_index: None,
                texture: None,
                actions: Vec::new(),
            },
        }
    }

    /// Adds the renderable of an uploaded model, without an instance yet, and
    /// returns its index.
    pub fn finish_file(
        &mut self,
        load: FileLoad,
        upload: ModelUpload,
        vertex_buffer_ptr: BuffPtr,
        index_buffer_ptr: BuffPtr,
    ) -> (index: usize)
        ensures
            index == old(self).renderables@.len(),
            file_load_finished(
                *old(self),
                *final(self),
                load,
                upload,
                vertex_buffer_ptr,
                index_buffer_ptr,
            ),
            !drawable(final(self).renderables@),
            old(self).wf() ==> final(self).wf(),
    {
        let index = self.renderables.len();
        let mut meshes: Vec<Mesh> = Vec::new();
        meshes.push(
            Mesh {
                vertex_buffer_ptr,
                vertex_count: upload.vertex_count,
                index_buffer_ptr,
                index_count: upload.index_count,
            },
        );
        self.renderables.push(
            Renderable {
                texture_index: load.texture_index,
                texture: load.texture,
                meshes,
                asset_path: load.model_path,
                instances: Vec::new(),
            },
        );
        assert(self.renderables@.drop_last() =~= old(self).renderables@);
        assert(!drawable(self.renderables@)) by {
            assert(self.renderables@[index as int].meshes@.len() == 1);
        }
        index
    }

    /// The request for an upload of vertices. It reserves the bytes of one
    /// 32-bit number for each vertex.
    pub fn upload_vertices(&mut self, vertices: &[Vertex]) -> (request: UploadRequest)
        requires
            vertices@.len() * SCALAR_SIZE <= usize::MAX,
        ensures
            request == (UploadRequest {
                buffer: GeometryBuffer::Vertex,
                reserve: (vertices@.len() * SCALAR_SIZE) as u64,
            }),
            *final(self) == *old(self),
            forall|ptr: BuffPtr| #[trigger]
                step(*old(self), *final(self), Event::Upload { request, ptr }),
    {
        UploadRequest {
            buffer: GeometryBuffer::Vertex,
            reserve: vertices.len() as u64 * SCALAR_SIZE,
        }
    }

    /// The request for an upload of indices.
    pub fn upload_indices(&mut self, indices: &[u32]) -> (request: UploadRequest)
        requires
            indices@.len() * SCALAR_SIZE <= usize::MAX,
        ensures
            request == (UploadRequest {
                buffer: GeometryBuffer::Index,
                reserve: (indices@.len() * SCALAR_SIZE) as u64,
            }),
            *final(self) == *old(self),
            forall|ptr: BuffPtr| #[trigger]
                step(*old(self), *final(self), Event::Upload { request, ptr }),
    {
        UploadRequest {
            buffer: GeometryBuffer::Index,
            reserve: indices.len() as u64 * SCALAR_SIZE,
        }
    }

    /// Starts a renderable from a cluster tree: one mesh for each leaf, in a
    /// color drawn at random. The draws follow one another, one for each leaf,
    /// and take the generator to where it is left.
    pub fn renderable_from_cm_file(&mut self, asset_path: String, tree: &ClusterTree) -> (load:
        Result<ClusterLoad, ClusterError>)
        requires
            tree.wf(),
        ensures
            exists|colors: Seq<usize>, draws: Seq<&mut rand::rngs::ThreadRng>|
                {
                    let count = tree.leaves().len();
                    &&& #[trigger] were_drawn(colors, draws)
                    &&& colors.len() == count
                    &&& is_cluster_load(load, asset_path, *tree, colors)
                    &&& count == 0 ==> final(self).rng == old(self).rng
                    &&& count > 0 ==> *draws[0] == old(self).rng && *final(draws.last())
                        == final(self).rng
                    &&& forall|k: int|
                        0 < k < count ==> *final(draws[k - 1]) == *(#[trigger] draws[k])
                },
            *final(self) == (RenderInstance { rng: final(self).rng, ..*old(self) }),
            old(self).wf() ==> final(self).wf(),
    {
        let leaves = find_leaves(&tree.nodes);
        let colors = draw_colors(&mut self.rng, leaves.len());
        let load = match cluster_uploads(tree, &colors) {
            Ok(uploads) => Ok(ClusterLoad { asset_path, uploads }),
            Err(error) => Err(error),
        };
        assert(is_cluster_load(load, asset_path, *tree, colors@));
        load
    }

    /// Adds the renderable of an uploaded cluster tree, each mesh at the
    /// identity transform, and returns its index.
    pub fn finish_cm_file(&mut self, load: ClusterLoad, places: &Vec<ClusterPlaces>) -> (index:
        usize)
        requires
            places@.len() == load.uploads@.len(),
        ensures
            index == old(self).renderables@.len(),
            cluster_load_finished(*old(self), *final(self), load, places@),
            drawable(old(self).renderables@) ==> drawable(final(self).renderables@),
            old(self).wf() ==> final(self).wf(),
    {
        let mut meshes: Vec<Mesh> = Vec::new();
        let mut instances: Vec<Transform> = Vec::new();
        let mut k: usize = 0;
        while k < places.len()
            invariant
                k <= places@.len(),
                places@.len() == load.uploads@.len(),
                meshes@ =~= Seq::new(
                    k as nat,
                    |j: int| cluster_mesh(load.uploads@[j], places@[j]),
                ),
                instances@ =~= Seq::new(k as nat, |j: int| Transform::identity_matrix()),
            decreases places@.len() - k,
        {
            meshes.push(
                Mesh {
                    vertex_buffer_ptr: places[k].vertex,
                    vertex_count: load.uploads[k].vertices.len(),
                    index_buffer_ptr: places[k].index,
                    index_count: load.uploads[k].index_count,
                },
            );
            instances.push(Transform::identity());
            k = k + 1;
        }
        let index = self.renderables.len();
        self.renderables.push(
            Renderable {
                texture_index: None,
                texture: None,
                meshes,
                asset_path: load.asset_path,
                instances,
            },
        );
        proof {
            let before = old(self).renderables@;
            let now = self.renderables@;
            assert(now.drop_last() =~= before);
            assert forall|r: int| drawable(before) && 0 <= r < now.len() implies (
            #[trigger] now[r]).meshes@.len() <= now[r].instances@.len() by {
                if r < before.len() {
                    assert(now[r] == before[r]);
                }
            }
        }
        index
    }

    /// The renderable of an index, to be changed.
    pub fn get_renderable(&mut self, index: usize) -> (renderable: &mut Renderable)
        requires
            index < old(self).renderables@.len(),
        ensures
            *renderable == old(self).renderables@[index as int],
            final(self).renderables@ == old(self).renderables@.update(
                index as int,
                *final(renderable),
            ),
            *final(self) == (RenderInstance {
                renderables: final(self).renderables,
                ..*old(self)
            }),
            step(*old(self), *final(self), Event::Change { index }),
            old(self).wf() ==> final(self).wf(),
    {
        &mut self.renderables[index]
    }

    /// Whether every mesh has an instance to be drawn at.
    pub fn is_drawable(&self) -> (answer: bool)
        ensures
            answer == drawable(self.renderables@),
    {
        let mut r: usize = 0;
        while r < self.renderables.len()
            invariant
                r <= self.renderables@.len(),
                forall|j: int|
                    0 <= j < r ==> (#[trigger] self.renderables@[j]).meshes@.len()
                        <= self.renderables@[j].instances@.len(),
            decreases self.renderables@.len() - r,
        {
            if self.renderables[r].meshes.len() > self.renderables[r].instances.len() {
                assert(!drawable(self.renderables@)) by {
                    let bad = self.renderables@[r as int];
                    assert(bad.meshes@.len() > bad.instances@.len());
                }
                return false;
            }
            r = r + 1;
        }
        true
    }

    /// Begins to recreate the swapchain, with the size of the window where it
    /// was resized and with that of the current swapchain otherwise. While the
    /// window has no area nothing is done.
    pub fn rebuild(&self, window: Option<Extent2D>) -> (rebuild: Rebuild)
        ensures
            ({
                let dimensions = rebuild_dimensions(self.swapchain.properties.extent, window);
                match rebuild {
                    Rebuild::Minimized => dimensions.width == 0 || dimensions.height == 0,
                    Rebuild::Started(actions) => {
                        &&& dimensions.width > 0
                        &&& dimensions.height > 0
                        &&& actions@ == replace_swapchain_actions(
                            self.framebuffers,
                            self.command_buffers,
                            self.swapchain_setup(dimensions),
                        )
                    },
                }
            }),
    {
        let dimensions = match window {
            Some(size) => size,
            None => self.swapchain.properties.extent,
        };
        if dimensions.width == 0 || dimensions.height == 0 {
            return Rebuild::Minimized;
        }
        let setup = SwapchainDesc {
            dimensions,
            queue_families_indices: self.queue_families_indices,
            msaa_samples: self.msaa_samples,
            depth_format: self.depth_format,
        };
        Rebuild::Started(replace_swapchain_plan(self.framebuffers, self.command_buffers, setup))
    }

    /// Takes over the recreated swapchain and lists what has to be created and
    /// recorded for it.
    pub fn finish_rebuild(&mut self, swapchain: SwapchainWrapper) -> (rebuilt: Result<
        Vec<GpuAction>,
        RebuildError,
    >)
        requires
            0 < swapchain.images <= old(self).descriptor_sets ==> drawable(
                old(self).renderables@,
            ),
        ensures
            match rebuilt {
                Ok(actions) => {
                    &&& swapchain.images <= old(self).descriptor_sets
                    &&& actions@ == restore_actions(
                        swapchain,
                        old(self).msaa_samples,
                        old(self).depth_format,
                        old(self).vertex_input,
                        old(self).renderables@,
                    )
                    &&& *final(self) == (RenderInstance {
                        swapchain,
                        framebuffers: swapchain.images,
                        command_buffers: swapchain.images,
                        ..*old(self)
                    })
                    &&& forall|dimensions: Extent2D|
                        #[trigger]
                        step(*old(self), *final(self), Event::Rebuild { dimensions, swapchain })
                },
                Err(RebuildError::TooManyImages) => {
                    &&& swapchain.images > old(self).descriptor_sets
                    &&& *final(self) == *old(self)
                },
            },
            old(self).wf() ==> final(self).wf(),
    {
        if swapchain.images > self.descriptor_sets {
            return Err(RebuildError::TooManyImages);
        }
        let actions = restore_plan(
            swapchain,
            self.msaa_samples,
            self.depth_format,
            self.vertex_input,
            &self.renderables,
        );
        self.swapchain = swapchain;
        self.framebuffers = swapchain.images;
        self.command_buffers = swapchain.images;
        Ok(actions)
    }

    /// Sets the uniform data of the frames to come.
    pub fn update_uniform_buffers(&mut self, ubo: T)
        ensures
            *final(self) == (RenderInstance { ubo_data: Some(ubo), ..*old(self) }),
            step(*old(self), *final(self), Event::Update { ubo }),
            old(self).wf() ==> final(self).wf(),
    {
        self.ubo_data = Some(ubo);
    }

    /// Starts a frame: which set of frame objects it uses, and its requests up
    /// to the acquired image.
    pub fn draw_frame(&mut self) -> (start: (u32, Vec<FrameAction>))
        requires
            old(self).in_flight_frames.wf(),
        ensures
            start.0 == old(self).in_flight_frames.current,
            start.1@ == start_actions(start.0),
            *final(self) == (RenderInstance {
                in_flight_frames: old(self).in_flight_frames.advanced(),
                ..*old(self)
            }),
            step(*old(self), *final(self), Event::Frame),
            final(self).in_flight_frames.wf(),
            old(self).wf() ==> final(self).wf(),
    {
        let sync = self.in_flight_frames.next();
        (sync, frame_start(sync))
    }

    /// Goes on with a frame once an image was asked for: the index of the image
    /// and whether the swapchain still fits the surface, or the status code.
    pub fn image_acquired(&self, sync: u32, acquired: Result<(u32, bool), i32>) -> (step: Result<
        FrameStep,
        FrameError,
    >)
        ensures
            match (
                acquired_outcome(
                    acquired,
                    self.ubo_data is Some,
                    self.uniform_buffers,
                    self.command_buffers,
                ),
                step,
            ) {
                (Ok(None), Ok(FrameStep::Finished(needs_rebuild))) => needs_rebuild,
                (Ok(Some(image_index)), Ok(FrameStep::Drawing(actions))) => actions@
                    == draw_actions(sync, image_index, self.ubo_data is Some),
                (Err(expected), Err(error)) => error == expected,
                _ => false,
            },
    {
        let image_index = match acquired {
            Ok((image_index, _)) => image_index,
            Err(code) => {
                if code == ERROR_OUT_OF_DATE_KHR {
                    return Ok(FrameStep::Finished(true));
                }
                return Err(FrameError::Acquire(code));
            },
        };
        let has_uniform = self.ubo_data.is_some();
        if has_uniform && image_index >= self.uniform_buffers {
            return Err(FrameError::NoUniformMapping(image_index));
        }
        if image_index >= self.command_buffers {
            return Err(FrameError::NoCommandBuffer(image_index));
        }
        Ok(FrameStep::Drawing(frame_draw(sync, image_index, has_uniform)))
    }

    /// The request to wait until the device has nothing left to do.
    pub fn wait_gpu_idle(&self) -> (action: GpuAction)
        ensures
            action == GpuAction::WaitIdle,
    {
        GpuAction::WaitIdle
    }

    /// The width of the rendered images.
    pub fn render_width(&self) -> (width: u32)
        ensures
            width == self.swapchain.properties.extent.width,
    {
        self.swapchain.properties.extent.width
    }

    /// The height of the rendered images.
    pub fn render_height(&self) -> (height: u32)
        ensures
            height == self.swapchain.properties.extent.height,
    {
        self.swapchain.properties.extent.height
    }

    /// Lists the destruction of everything that belongs to the renderer.
    pub fn teardown(&self) -> (actions: Vec<GpuAction>)
        ensures
            actions@ == teardown_actions(
                self.renderables@,
                self.framebuffers,
                self.command_buffers,
                self.descriptor_sets,
            ),
    {
        teardown_plan(
            &self.renderables,
            self.framebuffers,
            self.command_buffers,
            self.descriptor_sets,
        )
    }
}

/// Law: once recorded, the renderer can draw every image that has a command
/// buffer, with and without uniform data; before the first rebuild it can draw
/// none.
pub proof fn law_recorded_images_can_be_drawn<T: UBO + Copy>(
    instance: RenderInstance<T>,
    image_index: u32,
    suboptimal: bool,
)
    requires
        instance.wf(),
    ensures
        acquired_outcome(
            Ok((image_index, suboptimal)),
            instance.ubo_data is Some,
            instance.uniform_buffers,
            instance.command_buffers,
        ) == Ok::<Option<u32>, FrameError>(Some(image_index)) <==> image_index
            < instance.command_buffers,
{
}

/// Law: what a cluster tree uploads fills exactly what it reserves: its indices
/// the range of the index buffer, its vertices that of the vertex buffer.
pub proof fn law_cluster_uploads_fill_their_reservation(
    upload: ClusterUpload,
    tree: ClusterTree,
    leaf: usize,
    color: int,
)
    requires
        is_cluster_upload(upload, tree, leaf, color),
    ensures
        upload.index.reserve == upload.index_count * INDEX_SIZE,
        upload.vertex.reserve == upload.vertices@.len() * VERTEX_SIZE,
{
}

/// Law: a new renderer knows the swapchain and the setup that it was made for, has
/// a framebuffer for each image and three of everything that frames in flight
/// need, and has drawn, recorded and loaded nothing yet.
pub proof fn law_new_renderer_knows_what_it_was_made_for<T: UBO + Copy>(
    setup: SwapchainDesc,
    swapchain: SwapchainWrapper,
    vertex_input: VertexInput,
    created: Result<(RenderInstance<T>, Vec<GpuAction>), SetupError>,
)
    requires
        call_ensures(RenderInstance::<T>::create, (setup, swapchain, vertex_input), created),
    ensures
        created is Ok,
        ({
            let instance = created->Ok_0.0;
            &&& instance.queue_families_indices == setup.queue_families_indices
            &&& instance.msaa_samples == setup.msaa_samples
            &&& instance.depth_format == setup.depth_format
            &&& instance.swapchain == swapchain
            &&& instance.vertex_input == vertex_input
            &&& instance.framebuffers == swapchain.images
            &&& instance.in_flight_frames.count == 3
            &&& instance.in_flight_frames.current == 0
            &&& instance.descriptor_sets == 3
            &&& instance.uniform_buffers == 3
            &&& instance.command_buffers == 0
            &&& instance.renderables@.len() == 0
            &&& instance.ubo_data is None
            &&& instance.descriptor_image_count == 0
            &&& block_capacity(instance.vertex_alloc) == 0x1_0000_0000
            &&& block_capacity(instance.index_alloc) == 0x1_0000_0000
        }),
{
}

/// Law: a rebuild follows the window where it was resized and the current swapchain
/// otherwise. It waits exactly while that size has no area, and else asks for a
/// swapchain of that size and of the sample count, the depth format and the queue
/// families of the renderer.
pub proof fn law_rebuild_follows_the_window<T: UBO + Copy>(
    instance: RenderInstance<T>,
    window: Option<Extent2D>,
    rebuild: Rebuild,
    wanted: Extent2D,
)
    requires
        call_ensures(RenderInstance::<T>::rebuild, (&instance, window), rebuild),
        window is Some ==> wanted == window->Some_0,
        window is None ==> wanted == instance.swapchain.properties.extent,
    ensures
        rebuild is Minimized <==> wanted.width * wanted.height == 0,
        rebuild matches Rebuild::Started(actions) ==> {
            &&& actions@.last() is CreateSwapchain
            &&& actions@.last()->CreateSwapchain_0.dimensions == wanted
            &&& actions@.last()->CreateSwapchain_0.msaa_samples == instance.msaa_samples
            &&& actions@.last()->CreateSwapchain_0.depth_format == instance.depth_format
            &&& actions@.last()->CreateSwapchain_0.queue_families_indices
                == instance.queue_families_indices
        },
{
    assert(wanted.width * wanted.height == 0 <==> wanted.width == 0 || wanted.height == 0)
        by (nonlinear_arith);
}

/// Law: a model that was loaded is added behind all others, which stay as they are:
/// one mesh with all its vertices and indices where they were placed, with the
/// texture that was created for it, under the name of its file. Exactly as many
/// bytes are reserved as its vertices and indices take.
pub proof fn law_model_is_added_as_it_was_loaded<T: UBO + Copy>(
    before: RenderInstance<T>,
    started: RenderInstance<T>,
    model_path: String,
    texture_path: Option<String>,
    load: FileLoad,
    vertices: nat,
    indices: nat,
    upload: ModelUpload,
    vertex_buffer_ptr: BuffPtr,
    index_buffer_ptr: BuffPtr,
    loaded: RenderInstance<T>,
    now: RenderInstance<T>,
)
    requires
        file_load_started(before, started, model_path, texture_path, load),
        is_model_upload(upload, vertices, indices),
        file_load_finished(loaded, now, load, upload, vertex_buffer_ptr, index_buffer_ptr),
    ensures
        ({
            let added = now.renderables@[loaded.renderables@.len() as int];
            &&& now.renderables@.len() == loaded.renderables@.len() + 1
            &&& forall|r: int|
                0 <= r < loaded.renderables@.len() ==> #[trigger] now.renderables@[r]
                    == loaded.renderables@[r]
            &&& added.meshes@.len() == 1
            &&& added.meshes@[0].vertex_count == vertices
            &&& added.meshes@[0].index_count == indices
            &&& added.meshes@[0].vertex_buffer_ptr == vertex_buffer_ptr
            &&& added.meshes@[0].index_buffer_ptr == index_buffer_ptr
            &&& added.instances@.len() == 0
            &&& added.asset_path == model_path
            &&& texture_path is None ==> added.texture_index is None && added.texture is None
            &&& texture_path is Some ==> {
                &&& added.texture_index == Some(before.descriptor_image_count)
                &&& added.texture == Some(Texture(before.descriptor_image_count))
                &&& load.actions@[0] == (GpuAction::CreateTexture {
                    index: before.descriptor_image_count,
                })
            }
            &&& upload.vertex.buffer is Vertex && upload.vertex.reserve == 32 * vertices
            &&& upload.index.buffer is Index && upload.index.reserve == 4 * indices
        }),
{
    assert forall|r: int| 0 <= r < loaded.renderables@.len() implies #[trigger] now.renderables@[r]
        == loaded.renderables@[r] by {
        assert(now.renderables@.drop_last()[r] == loaded.renderables@[r]);
    }
}

/// Law: textures are given indices in turn, and models without a texture take none.
pub proof fn law_textures_are_numbered_in_turn<T: UBO + Copy>(
    first: RenderInstance<T>,
    second: RenderInstance<T>,
    third: RenderInstance<T>,
    model_path: String,
    texture_path: Option<String>,
    load: FileLoad,
    next_model_path: String,
    next_texture_path: String,
    next_load: FileLoad,
)
    requires
        first.descriptor_image_count < u32::MAX,
        file_load_started(first, second, model_path, texture_path, load),
        file_load_started(
            second,
            third,
            next_model_path,
            Some(next_texture_path),
            next_load,
        ),
    ensures
        texture_path is Some ==> load.texture_index is Some && next_load.texture_index == Some(
            (load.texture_index->Some_0 + 1) as u32,
        ),
        texture_path is None ==> load.texture_index is None && next_load.texture_index == Some(
            first.descriptor_image_count,
        ),
        second.renderables == first.renderables,
{
}

/// Law: a cluster tree that was loaded is added behind all others, which stay as
/// they are: one mesh for each leaf, in the order of the leaves, with all indices
/// and all positions of its cluster where they were placed, without a texture, each
/// drawn where its positions say. Exactly as many bytes are reserved as they take.
pub proof fn law_clusters_are_added_as_they_were_loaded<T: UBO + Copy>(
    tree: ClusterTree,
    asset_path: String,
    colors: Seq<usize>,
    load: ClusterLoad,
    places: Seq<ClusterPlaces>,
    before: RenderInstance<T>,
    now: RenderInstance<T>,
    k: int,
    x: int,
    y: int,
    z: int,
    w: int,
)
    requires
        tree.wf(),
        is_cluster_load(Ok(load), asset_path, tree, colors),
        cluster_load_finished(before, now, load, places),
        places.len() == load.uploads@.len(),
        0 <= k < tree.leaves().len(),
    ensures
        ({
            let added = now.renderables@[before.renderables@.len() as int];
            let cluster = tree.cluster(tree.leaves()[k]);
            let upload = load.uploads@[k];
            &&& now.renderables@.len() == before.renderables@.len() + 1
            &&& forall|r: int|
                0 <= r < before.renderables@.len() ==> #[trigger] now.renderables@[r]
                    == before.renderables@[r]
            &&& added.asset_path == asset_path
            &&& added.texture_index is None && added.texture is None
            &&& added.meshes@.len() == tree.leaves().len()
            &&& added.meshes@[k].index_count == cluster.idx@.len()
            &&& added.meshes@[k].vertex_count * 3 == cluster.pos@.len()
            &&& added.meshes@[k].index_buffer_ptr == places[k].index
            &&& added.meshes@[k].vertex_buffer_ptr == places[k].vertex
            &&& added.instances@.len() == added.meshes@.len()
            &&& transformed(added.instances@[k], x, y, z, w) == (x, y, z, w)
            &&& upload.leaf == tree.leaves()[k]
            &&& upload.index.buffer is Index && upload.index.reserve == 4 * cluster.idx@.len()
            &&& upload.index_count == cluster.idx@.len()
            &&& upload.vertex.buffer is Vertex && upload.vertex.reserve == 32 * upload.vertices@.len()
            &&& flat_positions(upload.vertices@) == cluster.pos@
        }),
{
    assert forall|r: int| 0 <= r < before.renderables@.len() implies #[trigger] now.renderables@[r]
        == before.renderables@[r] by {
        assert(now.renderables@.drop_last()[r] == before.renderables@[r]);
    }
    let upload = load.uploads@[k];
    assert(tree.loaded(tree.leaves()[k]));
    assert(is_cluster_upload(upload, tree, tree.leaves()[k], colors[k] as int));
    law_cluster_positions_are_kept(
        upload.vertices@,
        tree.cluster(tree.leaves()[k]).pos@,
        colors[k] as int,
    );
    assert(upload.vertices.len() == upload.vertices@.len());
}

/// Law: a cluster tree can be loaded exactly where every leaf with positions has one
/// of the fifteen colors; the clusters are then colored as drawn.
pub proof fn law_clusters_need_a_color_of_the_list(
    tree: ClusterTree,
    asset_path: String,
    colors: Seq<usize>,
    load: Result<ClusterLoad, ClusterError>,
)
    requires
        is_cluster_load(load, asset_path, tree, colors),
        colors.len() == tree.leaves().len(),
    ensures
        load is Err <==> exists|k: int|
            0 <= k < colors.len() && #[trigger] colors[k] >= 15 && tree.cluster(
                tree.leaves()[k],
            ).pos@.len() > 0,
        load matches Ok(planned) ==> forall|k: int, v: int|
            0 <= k < colors.len() && 0 <= v < planned.uploads@[k].vertices@.len()
                ==> #[trigger] planned.uploads@[k].vertices@[v].color@
                == COLOR_LIST@[colors[k] as int]@,
{
    if load is Ok {
        let planned = load->Ok_0;
        assert forall|k: int, v: int|
            0 <= k < colors.len() && 0 <= v
                < planned.uploads@[k].vertices@.len() implies #[trigger] planned.uploads@[k].vertices@[v].color@
            == COLOR_LIST@[colors[k] as int]@ by {
            let upload = planned.uploads@[k];
            let cluster = tree.cluster(tree.leaves()[k]);
            assert(is_cluster_upload(upload, tree, tree.leaves()[k], colors[k] as int));
            assert(is_cluster_vertex(upload.vertices@[v], cluster.pos@, colors[k] as int, v));
        }
    }
}

/// Law: the first request on a new device is for graphics commands, and the first
/// swapchain takes over all that it is given; without a depth format that is
/// reported.
pub proof fn law_setup_is_taken_over<T: UBO + Copy>(
    families: QueueFamiliesIndices,
    supported: Option<i32>,
    msaa_samples: u32,
    dimensions: Extent2D,
    begun: GpuAction,
    setup: Result<SwapchainDesc, SetupError>,
)
    requires
        call_ensures(RenderInstance::<T>::begin_create, (families,), begun),
        call_ensures(
            RenderInstance::<T>::first_swapchain,
            (families, supported, msaa_samples, dimensions),
            setup,
        ),
    ensures
        begun == (GpuAction::CreateGraphicsCommandPool {
            queue_family_index: families.graphics_index,
            flags: 0,
        }),
        setup is Ok <==> supported is Some,
        setup matches Ok(desc) ==> {
            &&& desc.dimensions == dimensions
            &&& desc.queue_families_indices == families
            &&& desc.msaa_samples == msaa_samples
            &&& Some(desc.depth_format) == supported
        },
        setup matches Err(error) ==> error == SetupError::NoDepthFormat,
{
}

/// Law: what an acquired image leads to. The frame goes on with that image exactly
/// where it can be drawn, ends with the wish for a rebuild where the swapchain is
/// outdated, and fails otherwise.
pub proof fn law_frame_goes_on_with_the_acquired_image<T: UBO + Copy>(
    instance: RenderInstance<T>,
    sync: u32,
    acquired: Result<(u32, bool), i32>,
    next: Result<FrameStep, FrameError>,
)
    requires
        call_ensures(RenderInstance::<T>::image_acquired, (&instance, sync, acquired), next),
    ensures
        acquired matches Err(code) ==> (if code == -1000001004 {
            next matches Ok(FrameStep::Finished(rebuild)) && rebuild
        } else {
            next matches Err(error) && error == FrameError::Acquire(code)
        }),
        acquired matches Ok((image, _)) ==> (if instance.ubo_data is Some && image
            >= instance.uniform_buffers {
            next matches Err(error) && error == FrameError::NoUniformMapping(image)
        } else if image >= instance.command_buffers {
            next matches Err(error) && error == FrameError::NoCommandBuffer(image)
        } else {
            next matches Ok(FrameStep::Drawing(actions)) && {
                &&& actions@.last() == (FrameAction::Present { image_index: image, sync })
                &&& actions@[actions@.len() - 2] matches FrameAction::Submit {
                    command_buffer,
                    sync: set,
                    ..
                } && command_buffer == image && set == sync
                &&& actions@.len() == (if instance.ubo_data is Some {
                    4int
                } else {
                    3int
                })
            }
        }),
{
}

/// Law: uploads of their own reserve four bytes for each vertex in the vertex buffer
/// and for each index in the index buffer, whatever the renderer holds.
pub proof fn law_uploads_reserve_four_bytes_each<T: UBO + Copy>(
    vertices: &[Vertex],
    indices: &[u32],
    request: UploadRequest,
)
    requires
        vertices@.len() * 4 <= usize::MAX,
        indices@.len() * 4 <= usize::MAX,
    ensures
        forall|instance: &mut RenderInstance<T>| #[trigger]
            call_ensures(RenderInstance::<T>::upload_vertices, (instance, vertices), request)
                ==> request.buffer is Vertex && request.reserve == 4 * vertices@.len(),
        forall|instance: &mut RenderInstance<T>| #[trigger]
            call_ensures(RenderInstance::<T>::upload_indices, (instance, indices), request)
                ==> request.buffer is Index && request.reserve == 4 * indices@.len(),
{
}

/// Law: the size that is rendered at is that of the swapchain, in both directions, and
/// waiting for the device asks for nothing else.
pub proof fn law_render_size_is_that_of_the_swapchain<T: UBO + Copy>(
    instance: RenderInstance<T>,
    width: u32,
    height: u32,
    waiting: GpuAction,
)
    requires
        call_ensures(RenderInstance::<T>::render_width, (&instance,), width),
        call_ensures(RenderInstance::<T>::render_height, (&instance,), height),
        call_ensures(RenderInstance::<T>::wait_gpu_idle, (&instance,), waiting),
    ensures
        instance.swapchain.properties.extent == (Extent2D { width, height }),
        waiting is WaitIdle,
{
}

/// Law: a drawn color is one of sixteen, one more than the list holds.
pub proof fn law_colors_are_drawn_from_one_more_than_the_list(
    colors: Seq<usize>,
    draws: Seq<&mut rand::rngs::ThreadRng>,
    k: int,
)
    requires
        were_drawn(colors, draws),
        0 <= k < colors.len(),
    ensures
        colors[k] <= COLOR_LIST@.len() == 15,
        COLOR_DRAWS == 16,
{
    assert(colors[k] < COLOR_DRAWS);
}

/// Law: whatever a renderer is put together from, it has the allocators that were
/// made, and where one could not be made that is reported, that of the vertices
/// first.
pub proof fn law_missing_allocators_are_reported<T: UBO + Copy>(
    setup: SwapchainDesc,
    swapchain: SwapchainWrapper,
    vertex_input: VertexInput,
    vertex_block: Result<vk_mem::VirtualBlock, ash::vk::Result>,
    index_block: Result<vk_mem::VirtualBlock, ash::vk::Result>,
    rng: rand::rngs::ThreadRng,
    assembled: Result<RenderInstance<T>, SetupError>,
)
    requires
        call_ensures(
            RenderInstance::<T>::assemble,
            (setup, swapchain, vertex_input, vertex_block, index_block, rng),
            assembled,
        ),
    ensures
        assembled is Ok <==> vertex_block is Ok && index_block is Ok,
        assembled matches Ok(instance) ==> {
            &&& vertex_block == Ok::<vk_mem::VirtualBlock, ash::vk::Result>(instance.vertex_alloc)
            &&& index_block == Ok::<vk_mem::VirtualBlock, ash::vk::Result>(instance.index_alloc)
            &&& instance.rng == rng
        },
        vertex_block is Err ==> assembled == Err::<RenderInstance<T>, SetupError>(
            SetupError::NoVertexBlock,
        ),
        vertex_block is Ok && index_block is Err ==> assembled == Err::<
            RenderInstance<T>,
            SetupError,
        >(SetupError::NoIndexBlock),
{
}

/// Law: a rebuild can be finished exactly where there is a descriptor set for every
/// image; the renderer then has a framebuffer and a command buffer for each image of
/// the new swapchain and is otherwise as it was, and else it stays as it was.
pub proof fn law_rebuild_is_finished_where_the_images_fit<T: UBO + Copy>(
    swapchain: SwapchainWrapper,
    rebuilt: Result<Vec<GpuAction>, RebuildError>,
)
    ensures
        forall|instance: &mut RenderInstance<T>| #[trigger]
            call_ensures(RenderInstance::<T>::finish_rebuild, (instance, swapchain), rebuilt) ==> {
                &&& rebuilt is Ok <==> swapchain.images <= instance.descriptor_sets
                &&& rebuilt is Ok ==> {
                    &&& final(instance).swapchain == swapchain
                    &&& final(instance).framebuffers == swapchain.images
                    &&& final(instance).command_buffers == swapchain.images
                    &&& final(instance).renderables == instance.renderables
                    &&& final(instance).msaa_samples == instance.msaa_samples
                    &&& final(instance).depth_format == instance.depth_format
                    &&& final(instance).vertex_input == instance.vertex_input
                    &&& final(instance).in_flight_frames == instance.in_flight_frames
                    &&& final(instance).descriptor_sets == instance.descriptor_sets
                    &&& final(instance).uniform_buffers == instance.uniform_buffers
                    &&& final(instance).ubo_data == instance.ubo_data
                    &&& final(instance).descriptor_image_count == instance.descriptor_image_count
                }
                &&& rebuilt is Err ==> *final(instance) == *instance && rebuilt->Err_0
                    == RebuildError::TooManyImages
            },
{
}

/// Law: what is done to a renderable through its reference is done to the renderable
/// of that index and to no other, and to nothing else of the renderer.
pub proof fn law_changes_reach_the_renderable_asked_for<T: UBO + Copy>(index: usize, other: int)
    ensures
        forall|instance: &mut RenderInstance<T>, renderable: &mut Renderable| #[trigger]
            call_ensures(RenderInstance::<T>::get_renderable, (instance, index), renderable)
                && index < instance.renderables@.len() ==> {
                &&& *renderable == instance.renderables@[index as int]
                &&& final(instance).renderables@.len() == instance.renderables@.len()
                &&& final(instance).renderables@[index as int] == *final(renderable)
                &&& 0 <= other < instance.renderables@.len() && other != index
                    ==> final(instance).renderables@[other] == instance.renderables@[other]
                &&& final(instance).swapchain == instance.swapchain
                &&& final(instance).command_buffers == instance.command_buffers
                &&& final(instance).descriptor_image_count == instance.descriptor_image_count
                &&& final(instance).ubo_data == instance.ubo_data
            },
{
}

/// Law: uniform data that was set is what the renderer holds, and setting it changes
/// nothing else.
pub proof fn law_uniform_data_is_held_as_set<T: UBO + Copy>(ubo: T)
    ensures
        forall|instance: &mut RenderInstance<T>| #[trigger]
            call_ensures(RenderInstance::<T>::update_uniform_buffers, (instance, ubo), ()) ==> {
                &&& final(instance).ubo_data == Some(ubo)
                &&& final(instance).renderables == instance.renderables
                &&& final(instance).swapchain == instance.swapchain
                &&& final(instance).in_flight_frames == instance.in_flight_frames
                &&& final(instance).command_buffers == instance.command_buffers
                &&& final(instance).framebuffers == instance.framebuffers
                &&& final(instance).descriptor_image_count == instance.descriptor_image_count
            },
{
}

/// Law: a frame uses the set whose turn it is, the next frame uses the next of the
/// sets in a circle, and the frame starts by waiting for its own set.
pub proof fn law_frame_uses_the_set_whose_turn_it_is<T: UBO + Copy>(
    sync: u32,
    actions: Vec<FrameAction>,
)
    ensures
        forall|instance: &mut RenderInstance<T>| #[trigger]
            call_ensures(RenderInstance::<T>::draw_frame, (instance,), (sync, actions))
                && instance.in_flight_frames.wf() ==> {
                let frames = instance.in_flight_frames;
                &&& sync == frames.current
                &&& final(instance).in_flight_frames.count == frames.count
                &&& final(instance).in_flight_frames.current == (if frames.current + 1
                    == frames.count {
                    0
                } else {
                    frames.current + 1
                })
                &&& actions@.len() == 2
                &&& actions@[0] == (FrameAction::WaitForFence { sync, timeout: u64::MAX })
                &&& actions@[1] == (FrameAction::AcquireNextImage { sync, timeout: u64::MAX })
                &&& final(instance).renderables == instance.renderables
                &&& final(instance).ubo_data == instance.ubo_data
                &&& final(instance).swapchain == instance.swapchain
            },
{
    assert forall|frames: InFlightFrames| frames.wf() implies {
        let next = #[trigger] frames.advanced();
        &&& next.count == frames.count
        &&& next.current == (if frames.current + 1 == frames.count {
            0
        } else {
            frames.current + 1
        })
    } by {
        law_sets_follow_in_a_circle(frames);
    }
}

/// Law: a loaded model or cluster tree is found under the index that its load
/// returned, behind all that were there.
pub proof fn law_loads_return_the_index_of_what_they_add<T: UBO + Copy>(
    file: FileLoad,
    upload: ModelUpload,
    vertex_buffer_ptr: BuffPtr,
    index_buffer_ptr: BuffPtr,
    clusters: ClusterLoad,
    places: &Vec<ClusterPlaces>,
    index: usize,
)
    ensures
        forall|instance: &mut RenderInstance<T>| #[trigger]
            call_ensures(
                RenderInstance::<T>::finish_file,
                (instance, file, upload, vertex_buffer_ptr, index_buffer_ptr),
                index,
            ) ==> {
                &&& index == instance.renderables@.len()
                &&& final(instance).renderables@.len() == index + 1
                &&& final(instance).renderables@[index as int].asset_path == file.model_path
                &&& final(instance).renderables@[index as int].texture_index == file.texture_index
                &&& final(instance).descriptor_image_count == instance.descriptor_image_count
            },
        forall|instance: &mut RenderInstance<T>| #[trigger]
            call_ensures(
                RenderInstance::<T>::finish_cm_file,
                (instance, clusters, places),
                index,
            ) ==> {
                &&& index == instance.renderables@.len()
                &&& final(instance).renderables@.len() == index + 1
                &&& final(instance).renderables@[index as int].asset_path == clusters.asset_path
                &&& final(instance).renderables@[index as int].meshes@.len() == places@.len()
                &&& final(instance).descriptor_image_count == instance.descriptor_image_count
            },
{
}

/// Law: a texture takes the next index, counts it, and is created under it; a model
/// without a texture asks for nothing.
pub proof fn law_textures_take_the_next_index<T: UBO + Copy>(
    model_path: String,
    texture_path: Option<String>,
    load: FileLoad,
)
    ensures
        forall|instance: &mut RenderInstance<T>| #[trigger]
            call_ensures(
                RenderInstance::<T>::renderable_from_file,
                (instance, model_path, texture_path),
                load,
            ) && instance.descriptor_image_count < u32::MAX ==> {
                &&& load.model_path == model_path && load.texture_path == texture_path
                &&& final(instance).renderables == instance.renderables
                &&& texture_path is Some ==> {
                    &&& load.texture_index == Some(instance.descriptor_image_count)
                    &&& load.texture == Some(Texture(instance.descriptor_image_count))
                    &&& final(instance).descriptor_image_count == instance.descriptor_image_count
                        + 1
                    &&& load.actions@.len() == instance.descriptor_sets + 1
                    &&& load.actions@[0] == (GpuAction::CreateTexture {
                        index: instance.descriptor_image_count,
                    })
                }
                &&& texture_path is None ==> {
                    &&& load.texture_index is None && load.texture is None
                    &&& load.actions@.len() == 0
                    &&& final(instance).descriptor_image_count == instance.descriptor_image_count
                }
            },
{
}

/// Law: every color comes from a draw below sixteen, whatever was drawn before it.
pub(crate) proof fn law_every_color_comes_from_its_draw(
    colors: Seq<usize>,
    draws: Seq<&mut rand::rngs::ThreadRng>,
    k: int,
)
    requires
        were_drawn(colors, draws),
        0 <= k < colors.len(),
    ensures
        call_ensures(draw_below, (draws[k], 16usize), colors[k]),
{
    assert(was_drawn(colors[k], draws[k]));
}

} // verus!
