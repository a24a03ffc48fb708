use ash::vk;
use renderinstance::descriptors::{MAX_FRAMES_IN_FLIGHT, PAGE_SIZE, UNIFORM_ALIGNMENT};
use renderinstance::frame::NO_TIMEOUT;
use renderinstance::pipeline::{TEXTURE_INDEX_SIZE, TRANSFORM_SIZE};
use renderinstance::scene::{
    Transform, Vertex, COLOR_COUNT, COLOR_LIST, INDEX_SIZE, NO_CHILD, SCALAR_SIZE, VERTEX_SIZE,
};
use renderinstance::vulkan;

#[test]
fn status_and_subpass_numbers() {
    assert_eq!(vulkan::VK_TRUE, vk::TRUE);
    assert_eq!(vulkan::ERROR_OUT_OF_DATE_KHR, vk::Result::ERROR_OUT_OF_DATE_KHR.as_raw());
    assert_eq!(vulkan::SUBPASS_EXTERNAL, vk::SUBPASS_EXTERNAL);
    assert_eq!(vulkan::SUBPASS_CONTENTS_INLINE, vk::SubpassContents::INLINE.as_raw());
    assert_eq!(vulkan::BIND_POINT_GRAPHICS, vk::PipelineBindPoint::GRAPHICS.as_raw());
}

#[test]
fn queue_numbers() {
    assert_eq!(vulkan::QUEUE_GRAPHICS, vk::QueueFlags::GRAPHICS.as_raw());
    assert_eq!(vulkan::QUEUE_TRANSFER, vk::QueueFlags::TRANSFER.as_raw());
}

#[test]
fn format_numbers() {
    assert_eq!(vulkan::FORMAT_D32_SFLOAT, vk::Format::D32_SFLOAT.as_raw());
    assert_eq!(vulkan::FORMAT_D32_SFLOAT_S8_UINT, vk::Format::D32_SFLOAT_S8_UINT.as_raw());
    assert_eq!(vulkan::FORMAT_D24_UNORM_S8_UINT, vk::Format::D24_UNORM_S8_UINT.as_raw());
    assert_eq!(vulkan::IMAGE_TILING_OPTIMAL, vk::ImageTiling::OPTIMAL.as_raw());
    assert_eq!(
        vulkan::FORMAT_FEATURE_DEPTH_STENCIL_ATTACHMENT,
        vk::FormatFeatureFlags::DEPTH_STENCIL_ATTACHMENT.as_raw()
    );
}

#[test]
fn attachment_numbers() {
    assert_eq!(vulkan::SAMPLE_COUNT_1, vk::SampleCountFlags::TYPE_1.as_raw());
    assert_eq!(vulkan::LOAD_OP_LOAD, vk::AttachmentLoadOp::LOAD.as_raw());
    assert_eq!(vulkan::LOAD_OP_CLEAR, vk::AttachmentLoadOp::CLEAR.as_raw());
    assert_eq!(vulkan::LOAD_OP_DONT_CARE, vk::AttachmentLoadOp::DONT_CARE.as_raw());
    assert_eq!(vulkan::STORE_OP_STORE, vk::AttachmentStoreOp::STORE.as_raw());
    assert_eq!(vulkan::STORE_OP_DONT_CARE, vk::AttachmentStoreOp::DONT_CARE.as_raw());
    assert_eq!(vulkan::LAYOUT_UNDEFINED, vk::ImageLayout::UNDEFINED.as_raw());
    assert_eq!(
        vulkan::LAYOUT_COLOR_ATTACHMENT_OPTIMAL,
        vk::ImageLayout::COLOR_ATTACHMENT_OPTIMAL.as_raw()
    );
    assert_eq!(
        vulkan::LAYOUT_DEPTH_STENCIL_ATTACHMENT_OPTIMAL,
        vk::ImageLayout::DEPTH_STENCIL_ATTACHMENT_OPTIMAL.as_raw()
    );
    assert_eq!(
        vulkan::LAYOUT_SHADER_READ_ONLY_OPTIMAL,
        vk::ImageLayout::SHADER_READ_ONLY_OPTIMAL.as_raw()
    );
    assert_eq!(vulkan::LAYOUT_PRESENT_SRC_KHR, vk::ImageLayout::PRESENT_SRC_KHR.as_raw());
}

#[test]
fn stage_numbers() {
    assert_eq!(
        vulkan::STAGE_COLOR_ATTACHMENT_OUTPUT,
        vk::PipelineStageFlags::COLOR_ATTACHMENT_OUTPUT.as_raw()
    );
    assert_eq!(vulkan::ACCESS_NONE, vk::AccessFlags::empty().as_raw());
    assert_eq!(
        vulkan::ACCESS_COLOR_ATTACHMENT_READ_WRITE,
        (vk::AccessFlags::COLOR_ATTACHMENT_READ | vk::AccessFlags::COLOR_ATTACHMENT_WRITE).as_raw()
    );
    assert_eq!(vulkan::SHADER_STAGE_VERTEX, vk::ShaderStageFlags::VERTEX.as_raw());
    assert_eq!(vulkan::SHADER_STAGE_FRAGMENT, vk::ShaderStageFlags::FRAGMENT.as_raw());
}

#[test]
fn pipeline_numbers() {
    assert_eq!(vulkan::TOPOLOGY_TRIANGLE_LIST, vk::PrimitiveTopology::TRIANGLE_LIST.as_raw());
    assert_eq!(vulkan::POLYGON_MODE_FILL, vk::PolygonMode::FILL.as_raw());
    assert_eq!(vulkan::CULL_MODE_BACK, vk::CullModeFlags::BACK.as_raw());
    assert_eq!(
        vulkan::FRONT_FACE_COUNTER_CLOCKWISE,
        vk::FrontFace::COUNTER_CLOCKWISE.as_raw()
    );
    assert_eq!(vulkan::COMPARE_OP_LESS, vk::CompareOp::LESS.as_raw());
    assert_eq!(vulkan::COMPARE_OP_ALWAYS, vk::CompareOp::ALWAYS.as_raw());
    assert_eq!(vulkan::COLOR_COMPONENT_RGBA, vk::ColorComponentFlags::RGBA.as_raw());
    assert_eq!(vulkan::BLEND_FACTOR_ZERO, vk::BlendFactor::ZERO.as_raw());
    assert_eq!(vulkan::BLEND_FACTOR_ONE, vk::BlendFactor::ONE.as_raw());
    assert_eq!(vulkan::BLEND_OP_ADD, vk::BlendOp::ADD.as_raw());
    assert_eq!(vulkan::LOGIC_OP_COPY, vk::LogicOp::COPY.as_raw());
}

#[test]
fn descriptor_numbers() {
    assert_eq!(
        vulkan::DESCRIPTOR_COMBINED_IMAGE_SAMPLER,
        vk::DescriptorType::COMBINED_IMAGE_SAMPLER.as_raw()
    );
    assert_eq!(vulkan::DESCRIPTOR_UNIFORM_BUFFER, vk::DescriptorType::UNIFORM_BUFFER.as_raw());
    assert_eq!(
        vulkan::DESCRIPTOR_BINDING_PARTIALLY_BOUND,
        vk::DescriptorBindingFlags::PARTIALLY_BOUND_EXT.as_raw()
    );
    assert_eq!(
        vulkan::DESCRIPTOR_BINDING_VARIABLE_DESCRIPTOR_COUNT,
        vk::DescriptorBindingFlags::VARIABLE_DESCRIPTOR_COUNT.as_raw()
    );
    assert_eq!(vulkan::FILTER_LINEAR, vk::Filter::LINEAR.as_raw());
    assert_eq!(vulkan::ADDRESS_MODE_REPEAT, vk::SamplerAddressMode::REPEAT.as_raw());
    assert_eq!(
        vulkan::BORDER_COLOR_INT_OPAQUE_BLACK,
        vk::BorderColor::INT_OPAQUE_BLACK.as_raw()
    );
    assert_eq!(vulkan::MIPMAP_MODE_LINEAR, vk::SamplerMipmapMode::LINEAR.as_raw());
}

#[test]
fn command_numbers() {
    assert_eq!(vulkan::COMMAND_POOL_CREATE_NONE, vk::CommandPoolCreateFlags::empty().as_raw());
    assert_eq!(
        vulkan::COMMAND_POOL_CREATE_TRANSIENT,
        vk::CommandPoolCreateFlags::TRANSIENT.as_raw()
    );
    assert_eq!(vulkan::COMMAND_BUFFER_LEVEL_PRIMARY, vk::CommandBufferLevel::PRIMARY.as_raw());
    assert_eq!(
        vulkan::COMMAND_BUFFER_USAGE_SIMULTANEOUS_USE,
        vk::CommandBufferUsageFlags::SIMULTANEOUS_USE.as_raw()
    );
    assert_eq!(vulkan::INDEX_TYPE_UINT32, vk::IndexType::UINT32.as_raw());
}

#[test]
fn buffer_numbers() {
    assert_eq!(
        vulkan::BUFFER_USAGE_UNIFORM_BUFFER,
        vk::BufferUsageFlags::UNIFORM_BUFFER.as_raw()
    );
    assert_eq!(vulkan::BUFFER_USAGE_INDEX_BUFFER, vk::BufferUsageFlags::INDEX_BUFFER.as_raw());
    assert_eq!(vulkan::BUFFER_USAGE_VERTEX_BUFFER, vk::BufferUsageFlags::VERTEX_BUFFER.as_raw());
    assert_eq!(
        vulkan::MEMORY_HOST_VISIBLE_COHERENT,
        (vk::MemoryPropertyFlags::HOST_VISIBLE | vk::MemoryPropertyFlags::HOST_COHERENT).as_raw()
    );
}

#[test]
fn bits_of_floating_point_numbers() {
    assert_eq!(f32::from_bits(vulkan::FLOAT_ZERO), 0.0);
    assert_eq!(f32::from_bits(vulkan::FLOAT_HALF), 0.5);
    assert_eq!(f32::from_bits(vulkan::FLOAT_THREE_QUARTERS), 0.75);
    assert_eq!(f32::from_bits(vulkan::FLOAT_ONE), 1.0);
    assert_eq!(f32::from_bits(vulkan::FLOAT_SIXTEEN), 16.0);
}

#[test]
fn sizes_in_bytes() {
    assert_eq!(VERTEX_SIZE, std::mem::size_of::<Vertex>() as u64);
    assert_eq!(INDEX_SIZE, std::mem::size_of::<u32>() as u64);
    assert_eq!(SCALAR_SIZE, std::mem::size_of::<f32>() as u64);
    assert_eq!(TRANSFORM_SIZE as usize, std::mem::size_of::<cgmath::Matrix4<f32>>());
    assert_eq!(TRANSFORM_SIZE as usize, std::mem::size_of::<Transform>());
    assert_eq!(TEXTURE_INDEX_SIZE as usize, std::mem::size_of::<u32>());
    assert_eq!(UNIFORM_ALIGNMENT as usize, std::mem::align_of::<f32>());
}

#[test]
fn limits() {
    assert_eq!(MAX_FRAMES_IN_FLIGHT, 3);
    assert_eq!(PAGE_SIZE, 4294967296);
    assert_eq!(NO_TIMEOUT, u64::MAX);
    assert_eq!(NO_CHILD, u32::MAX);
}

#[test]
fn colors_of_clusters() {
    let expected: [[f32; 3]; 15] = [
        [1.0, 1.0, 1.0],
        [1.0, 0.0, 0.0],
        [0.0, 1.0, 0.0],
        [0.0, 0.0, 1.0],
        [1.0, 1.0, 0.0],
        [0.0, 1.0, 1.0],
        [1.0, 0.0, 1.0],
        [0.75, 0.75, 0.75],
        [0.5, 0.5, 0.5],
        [0.5, 0.0, 0.0],
        [0.5, 0.5, 0.0],
        [0.0, 0.5, 0.0],
        [0.5, 0.0, 0.5],
        [0.0, 0.5, 0.5],
        [0.0, 0.0, 0.5],
    ];
    assert_eq!(COLOR_COUNT, expected.len());
    for (color, wanted) in COLOR_LIST.iter().zip(expected.iter()) {
        for (bits, number) in color.iter().zip(wanted.iter()) {
            assert_eq!(f32::from_bits(*bits), *number);
        }
    }
}
