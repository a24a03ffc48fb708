use ash::vk;
use renderinstance::descriptors::{
    descriptor_pool_desc, descriptor_set_layout_desc, index_buffer_desc, sampler_desc,
    texture_write, uniform_buffer_desc, uniform_write, vertex_buffer_desc,
    DescriptorSetLayoutBinding,
};
use renderinstance::device::SetupError;
use renderinstance::pipeline::{
    pipeline_desc, shader_stage, texture_index_push_range, transform_push_range, Shader,
    VertexAttribute, VertexBinding, VertexInput,
};
use renderinstance::targets::{
    depth_format_query, find_depth_format, framebuffer_desc, render_pass_desc, AttachmentView,
};
use renderinstance::vulkan::Extent2D;

fn vertex_input() -> VertexInput {
    let attribute = |location, format, offset| VertexAttribute {
        location,
        binding: 0,
        format,
        offset,
    };
    VertexInput {
        binding: VertexBinding { binding: 0, stride: 32, input_rate: 0 },
        pos: attribute(0, 106, 0),
        color: attribute(1, 106, 12),
        coords: attribute(2, 103, 24),
    }
}

#[test]
fn depth_formats_in_order_of_preference() {
    let query = depth_format_query();
    assert_eq!(query.first, vk::Format::D32_SFLOAT.as_raw());
    assert_eq!(query.second, vk::Format::D32_SFLOAT_S8_UINT.as_raw());
    assert_eq!(query.third, vk::Format::D24_UNORM_S8_UINT.as_raw());
    assert_eq!(query.tiling, vk::ImageTiling::OPTIMAL.as_raw());
    assert_eq!(query.features, vk::FormatFeatureFlags::DEPTH_STENCIL_ATTACHMENT.as_raw());
}

#[test]
fn depth_format_is_the_supported_one() {
    assert_eq!(find_depth_format(Some(129)), Ok(129));
    assert_eq!(find_depth_format(None), Err(SetupError::NoDepthFormat));
}

#[test]
fn render_pass_resolves_into_the_presented_image() {
    let desc = render_pass_desc(44, 8, 126);
    assert_eq!(desc.color.format, 44);
    assert_eq!(desc.color.samples, 8);
    assert_eq!(desc.color.load_op, vk::AttachmentLoadOp::CLEAR.as_raw());
    assert_eq!(desc.color.store_op, vk::AttachmentStoreOp::STORE.as_raw());
    assert_eq!(desc.color.stencil_load_op, vk::AttachmentLoadOp::default().as_raw());
    assert_eq!(desc.color.stencil_store_op, vk::AttachmentStoreOp::default().as_raw());
    assert_eq!(desc.color.final_layout, vk::ImageLayout::COLOR_ATTACHMENT_OPTIMAL.as_raw());
    assert_eq!(desc.depth.format, 126);
    assert_eq!(desc.depth.samples, 8);
    assert_eq!(desc.depth.store_op, vk::AttachmentStoreOp::DONT_CARE.as_raw());
    assert_eq!(
        desc.depth.final_layout,
        vk::ImageLayout::DEPTH_STENCIL_ATTACHMENT_OPTIMAL.as_raw()
    );
    assert_eq!(desc.resolve.format, 44);
    assert_eq!(desc.resolve.samples, 1);
    assert_eq!(desc.resolve.load_op, vk::AttachmentLoadOp::DONT_CARE.as_raw());
    assert_eq!(desc.resolve.final_layout, vk::ImageLayout::PRESENT_SRC_KHR.as_raw());
    assert_eq!(desc.color_reference.attachment, 0);
    assert_eq!(desc.depth_reference.attachment, 1);
    assert_eq!(desc.resolve_reference.attachment, 2);
    assert_eq!(
        desc.resolve_reference.layout,
        vk::ImageLayout::COLOR_ATTACHMENT_OPTIMAL.as_raw()
    );
    assert_eq!(desc.dependency.src_subpass, vk::SUBPASS_EXTERNAL);
    assert_eq!(desc.dependency.dst_subpass, 0);
    assert_eq!(desc.dependency.src_access_mask, 0);
    assert_eq!(desc.dependency.dst_access_mask, 0x180);
}

#[test]
fn framebuffer_views_follow_the_render_pass() {
    let desc = framebuffer_desc(2, Extent2D { width: 800, height: 600 });
    assert_eq!(desc.color, AttachmentView::ColorTexture);
    assert_eq!(desc.depth, AttachmentView::DepthTexture);
    assert_eq!(desc.resolve, AttachmentView::SwapchainImage(2));
    assert_eq!((desc.width, desc.height, desc.layers), (800, 600, 1));
}

#[test]
fn pipeline_fills_the_render_area() {
    let extent = Extent2D { width: 1920, height: 1080 };
    let desc = pipeline_desc(extent, 4, vertex_input());
    assert_eq!(desc.viewport.extent, extent);
    assert_eq!(f32::from_bits(desc.viewport.min_depth), 0.0);
    assert_eq!(f32::from_bits(desc.viewport.max_depth), 1.0);
    assert_eq!((desc.scissor.x, desc.scissor.y), (0, 0));
    assert_eq!(desc.scissor.extent, extent);
    assert_eq!(desc.multisample.rasterization_samples, 4);
    assert_eq!(desc.input_assembly.topology, vk::PrimitiveTopology::TRIANGLE_LIST.as_raw());
    assert_eq!(desc.rasterization.cull_mode, vk::CullModeFlags::BACK.as_raw());
    assert_eq!(f32::from_bits(desc.rasterization.line_width), 1.0);
    assert!(desc.depth_stencil.depth_test_enable);
    assert!(desc.depth_stencil.depth_write_enable);
    assert_eq!(desc.depth_stencil.depth_compare_op, vk::CompareOp::LESS.as_raw());
    assert!(!desc.color_blend.blend_enable);
    assert_eq!(desc.color_blend.color_write_mask, vk::ColorComponentFlags::RGBA.as_raw());
    assert_eq!(desc.subpass, 0);
}

#[test]
fn push_constant_ranges_adjoin() {
    let transform = transform_push_range();
    let texture_index = texture_index_push_range();
    assert_eq!((transform.offset, transform.size), (0, 64));
    assert_eq!((texture_index.offset, texture_index.size), (64, 4));
    assert_eq!(transform.stage_flags, vk::ShaderStageFlags::VERTEX.as_raw());
    assert_eq!(texture_index.stage_flags, vk::ShaderStageFlags::FRAGMENT.as_raw());
    let desc = pipeline_desc(Extent2D { width: 1, height: 1 }, 1, vertex_input());
    assert_eq!(desc.transform_range, transform);
    assert_eq!(desc.texture_index_range, texture_index);
}

#[test]
fn stages_run_both_shaders() {
    let desc = pipeline_desc(Extent2D { width: 1, height: 1 }, 1, vertex_input());
    assert_eq!(desc.vertex_stage, shader_stage(Shader::Vertex));
    assert_eq!(desc.vertex_stage.shader, Shader::Vertex);
    assert_eq!(desc.vertex_stage.stage, vk::ShaderStageFlags::VERTEX.as_raw());
    assert_eq!(desc.vertex_stage.path, "shaders/shader_stage.vert.spv");
    assert_eq!(desc.vertex_stage.entry_point, "main");
    assert_eq!(desc.fragment_stage, shader_stage(Shader::Fragment));
    assert_eq!(desc.fragment_stage.shader, Shader::Fragment);
    assert_eq!(desc.fragment_stage.stage, vk::ShaderStageFlags::FRAGMENT.as_raw());
    assert_eq!(desc.fragment_stage.path, "shaders/shader_stage.frag.spv");
    assert_eq!(desc.fragment_stage.entry_point, "main");
    assert_eq!(desc.vertex_input, vertex_input());
}

#[test]
fn descriptor_set_layout_adds_the_texture_array() {
    let uniform = DescriptorSetLayoutBinding {
        binding: 0,
        descriptor_type: vk::DescriptorType::UNIFORM_BUFFER.as_raw(),
        descriptor_count: 1,
        stage_flags: vk::ShaderStageFlags::VERTEX.as_raw(),
    };
    let desc = descriptor_set_layout_desc(uniform);
    assert_eq!(desc.uniform, uniform);
    assert_eq!(desc.textures.binding, 1);
    assert_eq!(desc.textures.descriptor_count, 1048576);
    assert_eq!(
        desc.textures.descriptor_type,
        vk::DescriptorType::COMBINED_IMAGE_SAMPLER.as_raw()
    );
    assert_eq!(desc.textures.stage_flags, vk::ShaderStageFlags::FRAGMENT.as_raw());
    assert_eq!(desc.uniform_flags, vk::DescriptorBindingFlags::PARTIALLY_BOUND_EXT.as_raw());
    assert_eq!(
        desc.textures_flags,
        vk::DescriptorBindingFlags::VARIABLE_DESCRIPTOR_COUNT.as_raw()
    );
    assert_eq!(desc.flag_count, 0);
}

#[test]
fn descriptor_pool_has_a_set_for_each_frame() {
    let desc = descriptor_pool_desc(3);
    assert_eq!(desc.uniforms.descriptor_type, vk::DescriptorType::UNIFORM_BUFFER.as_raw());
    assert_eq!(desc.uniforms.descriptor_count, 3);
    assert_eq!(
        desc.samplers.descriptor_type,
        vk::DescriptorType::COMBINED_IMAGE_SAMPLER.as_raw()
    );
    assert_eq!(desc.samplers.descriptor_count, 3);
    assert_eq!(desc.max_sets, 3);
}

#[test]
fn descriptor_writes() {
    let write = uniform_write(2, 192);
    assert_eq!((write.set, write.buffer), (2, 2));
    assert_eq!((write.binding, write.array_element), (0, 0));
    assert_eq!((write.offset, write.range), (0, 192));
    assert_eq!(write.descriptor_type, vk::DescriptorType::UNIFORM_BUFFER.as_raw());
    let write = texture_write(1, 5);
    assert_eq!(write.set, 1);
    assert_eq!((write.binding, write.array_element, write.texture), (1, 5, 5));
    assert_eq!(write.image_layout, vk::ImageLayout::SHADER_READ_ONLY_OPTIMAL.as_raw());
    assert_eq!(write.descriptor_type, vk::DescriptorType::COMBINED_IMAGE_SAMPLER.as_raw());
}

#[test]
fn textures_are_sampled_smoothly() {
    let desc = sampler_desc();
    assert_eq!(desc.mag_filter, vk::Filter::LINEAR.as_raw());
    assert_eq!(desc.min_filter, vk::Filter::LINEAR.as_raw());
    assert_eq!(desc.address_mode_u, vk::SamplerAddressMode::REPEAT.as_raw());
    assert_eq!(desc.address_mode_v, vk::SamplerAddressMode::REPEAT.as_raw());
    assert_eq!(desc.address_mode_w, vk::SamplerAddressMode::REPEAT.as_raw());
    assert!(desc.anisotropy_enable);
    assert_eq!(f32::from_bits(desc.max_anisotropy), 16.0);
    assert_eq!(desc.border_color, vk::BorderColor::INT_OPAQUE_BLACK.as_raw());
    assert!(!desc.unnormalized_coordinates);
    assert!(!desc.compare_enable);
    assert_eq!(desc.compare_op, vk::CompareOp::ALWAYS.as_raw());
    assert_eq!(desc.mipmap_mode, vk::SamplerMipmapMode::LINEAR.as_raw());
    assert_eq!(f32::from_bits(desc.max_lod), 0.0);
}

#[test]
fn buffers_by_use() {
    let uniform = uniform_buffer_desc(256);
    assert_eq!(uniform.size, 256);
    assert_eq!(uniform.usage, vk::BufferUsageFlags::UNIFORM_BUFFER.as_raw());
    assert_eq!(uniform.memory_properties, 6);
    assert_eq!(vertex_buffer_desc().size, 1 << 32);
    assert_eq!(vertex_buffer_desc().usage, vk::BufferUsageFlags::VERTEX_BUFFER.as_raw());
    assert_eq!(index_buffer_desc().size, 1 << 32);
    assert_eq!(index_buffer_desc().usage, vk::BufferUsageFlags::INDEX_BUFFER.as_raw());
}

#[test]
fn descriptions_fit_together() {
    let extent = Extent2D { width: 640, height: 480 };
    let pass = render_pass_desc(50, 2, 130);
    let pipeline = pipeline_desc(extent, 2, vertex_input());
    assert_eq!(pipeline.multisample.rasterization_samples, pass.color.samples);
    assert_eq!(pipeline.multisample.rasterization_samples, pass.depth.samples);
    assert_eq!(pass.resolve.format, pass.color.format);
    let framebuffer = framebuffer_desc(1, extent);
    let views = [framebuffer.color, framebuffer.depth, framebuffer.resolve];
    let at = |attachment: u32| views[attachment as usize];
    assert_eq!(at(pass.color_reference.attachment), AttachmentView::ColorTexture);
    assert_eq!(at(pass.depth_reference.attachment), AttachmentView::DepthTexture);
    assert_eq!(at(pass.resolve_reference.attachment), AttachmentView::SwapchainImage(1));
    assert_eq!(framebuffer.width, pipeline.scissor.extent.width);
    assert_eq!(framebuffer.height, pipeline.scissor.extent.height);
}

#[test]
fn writes_fit_the_layout_and_the_buffer() {
    let uniform = DescriptorSetLayoutBinding {
        binding: 0,
        descriptor_type: 6,
        descriptor_count: 1,
        stage_flags: 1,
    };
    let textures = descriptor_set_layout_desc(uniform).textures;
    let write = texture_write(2, 1048575);
    assert_eq!(write.binding, textures.binding);
    assert_eq!(write.descriptor_type, textures.descriptor_type);
    assert!(write.array_element < textures.descriptor_count);
    let write = uniform_write(1, 320);
    assert_eq!(write.offset + write.range, uniform_buffer_desc(320).size);
    assert_eq!(write.descriptor_type, descriptor_pool_desc(3).uniforms.descriptor_type);
}
