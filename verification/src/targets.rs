//! What is rendered to: the swapchain, the render pass and the framebuffers.

use vstd::prelude::*;

use crate::device::{QueueFamiliesIndices, SetupError};
use crate::vulkan::{
    Extent2D, ACCESS_COLOR_ATTACHMENT_READ_WRITE, ACCESS_NONE, BIND_POINT_GRAPHICS,
    FORMAT_D24_UNORM_S8_UINT, FORMAT_D32_SFLOAT, FORMAT_D32_SFLOAT_S8_UINT,
    FORMAT_FEATURE_DEPTH_STENCIL_ATTACHMENT, IMAGE_TILING_OPTIMAL,
    LAYOUT_COLOR_ATTACHMENT_OPTIMAL, LAYOUT_DEPTH_STENCIL_ATTACHMENT_OPTIMAL,
    LAYOUT_PRESENT_SRC_KHR, LAYOUT_UNDEFINED, LOAD_OP_CLEAR, LOAD_OP_DONT_CARE, LOAD_OP_LOAD,
    SAMPLE_COUNT_1, STAGE_COLOR_ATTACHMENT_OUTPUT, STORE_OP_DONT_CARE, STORE_OP_STORE,
    SUBPASS_EXTERNAL,
};

verus! {

/// What the swapchain was created as.
#[derive(Clone, Copy, Debug, PartialEq, Eq, Structural)]
pub struct SwapchainProperties {
    /// The format of the presented images.
    pub format: i32,
    pub extent: Extent2D,
}

/// The swapchain and how many images it holds.
#[derive(Clone, Copy, Debug, PartialEq, Eq, Structural)]
pub struct SwapchainWrapper {
    pub properties: SwapchainProperties,
    pub images: u32,
}

/// What a swapchain, its color texture and its depth texture are created with.
#[derive(Clone, Copy, Debug, PartialEq, Eq, Structural)]
pub struct SwapchainDesc {
    pub dimensions: Extent2D,
    pub queue_families_indices: QueueFamiliesIndices,
    pub msaa_samples: u32,
    pub depth_format: i32,
}

/// Which formats are tried for the depth texture, in this order, and what they
/// must support.
#[derive(Clone, Copy, Debug, PartialEq, Eq, Structural)]
pub struct DepthFormatQuery {
    pub first: i32,
    pub second: i32,
    pub third: i32,
    pub tiling: i32,
    pub features: u32,
}

/// The query for the depth format.
pub open spec fn depth_query() -> DepthFormatQuery {
    DepthFormatQuery {
        first: FORMAT_D32_SFLOAT,
        second: FORMAT_D32_SFLOAT_S8_UINT,
        third: FORMAT_D24_UNORM_S8_UINT,
        tiling: IMAGE_TILING_OPTIMAL,
        features: FORMAT_FEATURE_DEPTH_STENCIL_ATTACHMENT,
    }
}

/// The query for the depth format.
pub fn depth_format_query() -> (desc: DepthFormatQuery)
    ensures
        desc == depth_query(),
{
    DepthFormatQuery {
        first: FORMAT_D32_SFLOAT,
        second: FORMAT_D32_SFLOAT_S8_UINT,
        third: FORMAT_D24_UNORM_S8_UINT,
        tiling: IMAGE_TILING_OPTIMAL,
        features: FORMAT_FEATURE_DEPTH_STENCIL_ATTACHMENT,
    }
}

/// The depth format, given the first supported one of the query.
pub fn find_depth_format(supported: Option<i32>) -> (format: Result<i32, SetupError>)
    ensures
        format == (match supported {
            Some(f) => Ok::<i32, SetupError>(f),
            None => Err(SetupError::NoDepthFormat),
        }),
{
    match supported {
        Some(f) => Ok(f),
        None => Err(SetupError::NoDepthFormat),
    }
}

/// How an attachment is loaded, stored and laid out.
#[derive(Clone, Copy, Debug, PartialEq, Eq, Structural)]
pub struct AttachmentDesc {
    pub format: i32,
    pub samples: u32,
    pub load_op: i32,
    pub store_op: i32,
    pub stencil_load_op: i32,
    pub stencil_store_op: i32,
    pub initial_layout: i32,
    pub final_layout: i32,
}

/// The use of an attachment, by its position, in a subpass.
#[derive(Clone, Copy, Debug, PartialEq, Eq, Structural)]
pub struct AttachmentReference {
    pub attachment: u32,
    pub layout: i32,
}

/// What the subpass waits for.
#[derive(Clone, Copy, Debug, PartialEq, Eq, Structural)]
pub struct SubpassDependency {
    pub src_subpass: u32,
    pub dst_subpass: u32,
    pub src_stage_mask: u32,
    pub src_access_mask: u32,
    pub dst_stage_mask: u32,
    pub dst_access_mask: u32,
}

/// A render pass with the attachments color, depth and resolve, in this order,
/// and one subpass.
#[derive(Clone, Copy, Debug, PartialEq, Eq, Structural)]
pub struct RenderPassDesc {
    pub color: AttachmentDesc,
    pub depth: AttachmentDesc,
    pub resolve: AttachmentDesc,
    pub bind_point: i32,
    pub color_reference: AttachmentReference,
    pub depth_reference: AttachmentReference,
    pub resolve_reference: AttachmentReference,
    pub dependency: SubpassDependency,
}

/// The render pass that draws multisampled color and depth and resolves into
/// the image to present.
pub open spec fn render_pass_for(format: i32, msaa_samples: u32, depth_format: i32) -> RenderPassDesc {
    RenderPassDesc {
        color: AttachmentDesc {
            format,
            samples: msaa_samples,
            load_op: LOAD_OP_CLEAR,
            store_op: STORE_OP_STORE,
            stencil_load_op: LOAD_OP_LOAD,
            stencil_store_op: STORE_OP_STORE,
            initial_layout: LAYOUT_UNDEFINED,
            final_layout: LAYOUT_COLOR_ATTACHMENT_OPTIMAL,
        },
        depth: AttachmentDesc {
            format: depth_format,
            samples: msaa_samples,
            load_op: LOAD_OP_CLEAR,
            store_op: STORE_OP_DONT_CARE,
            stencil_load_op: LOAD_OP_DONT_CARE,
            stencil_store_op: STORE_OP_DONT_CARE,
            initial_layout: LAYOUT_UNDEFINED,
            final_layout: LAYOUT_DEPTH_STENCIL_ATTACHMENT_OPTIMAL,
        },
        resolve: AttachmentDesc {
            format,
            samples: SAMPLE_COUNT_1,
            load_op: LOAD_OP_DONT_CARE,
            store_op: STORE_OP_STORE,
            stencil_load_op: LOAD_OP_DONT_CARE,
            stencil_store_op: STORE_OP_DONT_CARE,
            initial_layout: LAYOUT_UNDEFINED,
            final_layout: LAYOUT_PRESENT_SRC_KHR,
        },
        bind_point: BIND_POINT_GRAPHICS,
        color_reference: AttachmentReference {
            attachment: 0,
            layout: LAYOUT_COLOR_ATTACHMENT_OPTIMAL,
        },
        depth_reference: AttachmentReference {
            attachment: 1,
            layout: LAYOUT_DEPTH_STENCIL_ATTACHMENT_OPTIMAL,
        },
        resolve_reference: AttachmentReference {
            attachment: 2,
            layout: LAYOUT_COLOR_ATTACHMENT_OPTIMAL,
        },
        dependency: SubpassDependency {
            src_subpass: SUBPASS_EXTERNAL,
            dst_subpass: 0,
            src_stage_mask: STAGE_COLOR_ATTACHMENT_OUTPUT,
            src_access_mask: ACCESS_NONE,
            dst_stage_mask: STAGE_COLOR_ATTACHMENT_OUTPUT,
            dst_access_mask: ACCESS_COLOR_ATTACHMENT_READ_WRITE,
        },
    }
}

/// The render pass that draws multisampled color and depth and resolves into
/// the image to present.
pub fn render_pass_desc(format: i32, msaa_samples: u32, depth_format: i32) -> (desc: RenderPassDesc)
    ensures
        desc == render_pass_for(format, msaa_samples, depth_format),
{
    RenderPassDesc {
        color: AttachmentDesc {
            format,
            samples: msaa_samples,
            load_op: LOAD_OP_CLEAR,
            store_op: STORE_OP_STORE,
            stencil_load_op: LOAD_OP_LOAD,
            stencil_store_op: STORE_OP_STORE,
            initial_layout: LAYOUT_UNDEFINED,
            final_layout: LAYOUT_COLOR_ATTACHMENT_OPTIMAL,
        },
        depth: AttachmentDesc {
            format: depth_format,
            samples: msaa_samples,
            load_op: LOAD_OP_CLEAR,
            store_op: STORE_OP_DONT_CARE,
            stencil_load_op: LOAD_OP_DONT_CARE,
            stencil_store_op: STORE_OP_DONT_CARE,
            initial_layout: LAYOUT_UNDEFINED,
            final_layout: LAYOUT_DEPTH_STENCIL_ATTACHMENT_OPTIMAL,
        },
        resolve: AttachmentDesc {
            format,
            samples: SAMPLE_COUNT_1,
            load_op: LOAD_OP_DONT_CARE,
            store_op: STORE_OP_STORE,
            stencil_load_op: LOAD_OP_DONT_CARE,
            stencil_store_op: STORE_OP_DONT_CARE,
            initial_layout: LAYOUT_UNDEFINED,
            final_layout: LAYOUT_PRESENT_SRC_KHR,
        },
        bind_point: BIND_POINT_GRAPHICS,
        color_reference: AttachmentReference {
            attachment: 0,
            layout: LAYOUT_COLOR_ATTACHMENT_OPTIMAL,
        },
        depth_reference: AttachmentReference {
            attachment: 1,
            layout: LAYOUT_DEPTH_STENCIL_ATTACHMENT_OPTIMAL,
        },
        resolve_reference: AttachmentReference {
            attachment: 2,
            layout: LAYOUT_COLOR_ATTACHMENT_OPTIMAL,
        },
        dependency: SubpassDependency {
            src_subpass: SUBPASS_EXTERNAL,
            dst_subpass: 0,
            src_stage_mask: STAGE_COLOR_ATTACHMENT_OUTPUT,
            src_access_mask: ACCESS_NONE,
            dst_stage_mask: STAGE_COLOR_ATTACHMENT_OUTPUT,
            dst_access_mask: ACCESS_COLOR_ATTACHMENT_READ_WRITE,
        },
    }
}

/// An image view that a framebuffer attaches.
#[derive(Clone, Copy, Debug, PartialEq, Eq, Structural)]
pub enum AttachmentView {
    ColorTexture,
    DepthTexture,
    SwapchainImage(u32),
}

/// A framebuffer with its views in the order of the render pass.
#[derive(Clone, Copy, Debug, PartialEq, Eq, Structural)]
pub struct FramebufferDesc {
    pub color: AttachmentView,
    pub depth: AttachmentView,
    pub resolve: AttachmentView,
    pub width: u32,
    pub height: u32,
    pub layers: u32,
}

/// The framebuffer that presents swapchain image `image`.
pub open spec fn framebuffer_for(image: u32, extent: Extent2D) -> FramebufferDesc {
    FramebufferDesc {
        color: AttachmentView::ColorTexture,
        depth: AttachmentView::DepthTexture,
        resolve: AttachmentView::SwapchainImage(image),
        width: extent.width,
        height: extent.height,
        layers: 1,
    }
}

/// The framebuffer that presents swapchain image `image`.
pub fn framebuffer_desc(image: u32, extent: Extent2D) -> (desc: FramebufferDesc)
    ensures
        desc == framebuffer_for(image, extent),
{
    FramebufferDesc {
        color: AttachmentView::ColorTexture,
        depth: AttachmentView::DepthTexture,
        resolve: AttachmentView::SwapchainImage(image),
        width: extent.width,
        height: extent.height,
        layers: 1,
    }
}

/// Law: of the formats tried for the depth texture the first is the most precise
/// without a stencil, and the others differ from it; what is found first is taken,
/// and it is reported where there is none.
pub proof fn law_depth_formats_are_tried_in_order(
    query: DepthFormatQuery,
    supported: Option<i32>,
    format: Result<i32, SetupError>,
)
    requires
        call_ensures(depth_format_query, (), query),
        call_ensures(find_depth_format, (supported,), format),
    ensures
        query.first == 126 && query.second == 130 && query.third == 129,
        query.tiling == 0 && query.features == 0x200,
        supported is Some <==> format is Ok,
        format matches Ok(f) ==> supported == Some(f),
        format matches Err(error) ==> error == SetupError::NoDepthFormat,
{
}

} // verus!
