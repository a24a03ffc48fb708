//! What the pipeline makes of triangles: which of them are filled, which of
//! their fragments are seen, and what they leave in the attachments.

use vstd::prelude::*;

use crate::pipeline::{
    pipeline_desc, pipeline_for, stage_for, ColorBlendDesc, DepthStencilDesc, PipelineDesc,
    RasterizationDesc, Shader, VertexInput,
};
use crate::recording::clear_values;
use crate::vulkan::Extent2D;

verus! {

/// How the corners of a triangle run on the screen.
pub ghost enum Winding {
    CounterClockwise,
    Clockwise,
}

/// A color, channel by channel.
pub ghost struct Rgba {
    pub red: int,
    pub green: int,
    pub blue: int,
    pub alpha: int,
}

/// One sample that a triangle covers. The depth is given by its bits, which are
/// in the order of the numbers between 0 and 1.
pub ghost struct Fragment {
    pub winding: Winding,
    pub x: int,
    pub y: int,
    pub depth: u32,
    pub color: Rgba,
}

/// What the attachments hold for one sample.
pub ghost struct Sample {
    pub color: Rgba,
    pub depth: u32,
}

/// Whether a triangle faces the viewer: front face 0 is counter-clockwise.
pub open spec fn faces_viewer(desc: RasterizationDesc, winding: Winding) -> bool {
    (desc.front_face == 0) == (winding is CounterClockwise)
}

/// Whether a triangle is culled: bit 1 culls front faces, bit 2 back faces.
pub open spec fn is_culled(desc: RasterizationDesc, winding: Winding) -> bool {
    if faces_viewer(desc, winding) {
        desc.cull_mode & 1 != 0
    } else {
        desc.cull_mode & 2 != 0
    }
}

/// Whether the inside of a triangle becomes fragments.
pub open spec fn is_filled(desc: RasterizationDesc, winding: Winding) -> bool {
    &&& !desc.rasterizer_discard_enable
    &&& desc.polygon_mode == 0
    &&& !is_culled(desc, winding)
}

/// Whether a comparison holds, by its code.
pub open spec fn compares(op: i32, new: u32, stored: u32) -> bool {
    if op == 0 {
        false
    } else if op == 1 {
        new < stored
    } else if op == 2 {
        new == stored
    } else if op == 3 {
        new <= stored
    } else if op == 4 {
        new > stored
    } else if op == 5 {
        new != stored
    } else if op == 6 {
        new >= stored
    } else {
        true
    }
}

/// Whether a fragment of depth `new` passes over what is stored.
pub open spec fn passes(desc: DepthStencilDesc, new: u32, stored: u32) -> bool {
    &&& desc.depth_test_enable ==> compares(desc.depth_compare_op, new, stored)
    &&& desc.depth_bounds_test_enable ==> desc.min_depth_bounds <= stored <= desc.max_depth_bounds
    &&& !desc.stencil_test_enable
}

/// The blend factor of a code, of which 0 stands for zero and 1 for one.
pub open spec fn blend_factor(code: i32) -> int {
    if code == 1 {
        1
    } else {
        0
    }
}

/// A channel after blending: operation 0 adds, any other subtracts.
pub open spec fn blended(op: i32, new: int, new_factor: i32, stored: int, stored_factor: i32) -> int {
    let kept = if blend_factor(stored_factor) == 1 {
        stored
    } else {
        0
    };
    let added = if blend_factor(new_factor) == 1 {
        new
    } else {
        0
    };
    if op == 0 {
        added + kept
    } else {
        added - kept
    }
}

/// The color after a fragment was blended, without regard to the write mask.
pub open spec fn blended_color(desc: ColorBlendDesc, new: Rgba, stored: Rgba) -> Rgba {
    Rgba {
        red: blended(
            desc.color_blend_op,
            new.red,
            desc.src_color_blend_factor,
            stored.red,
            desc.dst_color_blend_factor,
        ),
        green: blended(
            desc.color_blend_op,
            new.green,
            desc.src_color_blend_factor,
            stored.green,
            desc.dst_color_blend_factor,
        ),
        blue: blended(
            desc.color_blend_op,
            new.blue,
            desc.src_color_blend_factor,
            stored.blue,
            desc.dst_color_blend_factor,
        ),
        alpha: blended(
            desc.alpha_blend_op,
            new.alpha,
            desc.src_alpha_blend_factor,
            stored.alpha,
            desc.dst_alpha_blend_factor,
        ),
    }
}

/// The color after a fragment was written, each channel as the mask allows.
pub open spec fn written_color(desc: ColorBlendDesc, new: Rgba, stored: Rgba) -> Rgba {
    let color = if desc.blend_enable {
        blended_color(desc, new, stored)
    } else {
        new
    };
    Rgba {
        red: if desc.color_write_mask & 1 != 0 {
            color.red
        } else {
            stored.red
        },
        green: if desc.color_write_mask & 2 != 0 {
            color.green
        } else {
            stored.green
        },
        blue: if desc.color_write_mask & 4 != 0 {
            color.blue
        } else {
            stored.blue
        },
        alpha: if desc.color_write_mask & 8 != 0 {
            color.alpha
        } else {
            stored.alpha
        },
    }
}

/// Whether a position can be written.
pub open spec fn is_inside(pipeline: PipelineDesc, x: int, y: int) -> bool {
    let scissor = pipeline.scissor;
    &&& scissor.x <= x < scissor.x + scissor.extent.width
    &&& scissor.y <= y < scissor.y + scissor.extent.height
}

/// What a sample holds after a fragment.
pub open spec fn drawn_over(pipeline: PipelineDesc, sample: Sample, fragment: Fragment) -> Sample {
    if is_filled(pipeline.rasterization, fragment.winding) && is_inside(
        pipeline,
        fragment.x,
        fragment.y,
    ) && passes(pipeline.depth_stencil, fragment.depth, sample.depth) {
        Sample {
            color: written_color(pipeline.color_blend, fragment.color, sample.color),
            depth: if pipeline.depth_stencil.depth_write_enable
                && pipeline.depth_stencil.depth_test_enable {
                fragment.depth
            } else {
                sample.depth
            },
        }
    } else {
        sample
    }
}

/// What a sample holds after fragments, one after the other.
pub open spec fn painted(pipeline: PipelineDesc, sample: Sample, fragments: Seq<Fragment>) -> Sample
    decreases fragments.len(),
{
    if fragments.len() == 0 {
        sample
    } else {
        drawn_over(
            pipeline,
            painted(pipeline, sample, fragments.drop_last()),
            fragments.last(),
        )
    }
}

/// What the bits of the cull mode and of the write mask say.
proof fn lemma_bits()
    ensures
        2u32 & 1 == 0,
        2u32 & 2 != 0,
        0xfu32 & 1 != 0,
        0xfu32 & 2 != 0,
        0xfu32 & 4 != 0,
        0xfu32 & 8 != 0,
{
    assert(2u32 & 1 == 0 && 2u32 & 2 != 0) by (bit_vector);
    assert(0xfu32 & 1 != 0 && 0xfu32 & 2 != 0 && 0xfu32 & 4 != 0 && 0xfu32 & 8 != 0)
        by (bit_vector);
}

/// Law: a triangle that faces the viewer is filled, and one that shows its back
/// is not: triangles are not discarded before they become fragments, their
/// insides are filled, and only back faces are culled. Triangles that face the
/// viewer run counter-clockwise.
pub proof fn law_triangles_that_face_the_viewer_are_filled(
    extent: Extent2D,
    msaa_samples: u32,
    vertex_input: VertexInput,
    winding: Winding,
)
    ensures
        ({
            let desc = pipeline_for(extent, msaa_samples, vertex_input).rasterization;
            &&& faces_viewer(desc, winding) <==> winding is CounterClockwise
            &&& is_filled(desc, winding) <==> faces_viewer(desc, winding)
            &&& !desc.rasterizer_discard_enable
            &&& !is_culled(desc, Winding::CounterClockwise)
            &&& is_culled(desc, Winding::Clockwise)
        }),
{
    lemma_bits();
}

/// Law: a fragment of a triangle that faces the viewer, inside the rendered
/// area and nearer than what was drawn before, replaces the color and the depth
/// there in full. Any other fragment changes nothing.
pub proof fn law_nearer_fragments_replace_what_is_there(
    extent: Extent2D,
    msaa_samples: u32,
    vertex_input: VertexInput,
    sample: Sample,
    fragment: Fragment,
)
    ensures
        drawn_over(pipeline_for(extent, msaa_samples, vertex_input), sample, fragment) == (if {
            &&& fragment.winding is CounterClockwise
            &&& 0 <= fragment.x < extent.width
            &&& 0 <= fragment.y < extent.height
            &&& fragment.depth < sample.depth
        } {
            Sample { color: fragment.color, depth: fragment.depth }
        } else {
            sample
        }),
{
    lemma_bits();
}

/// Law: whatever the order in which triangles that face the viewer are drawn,
/// the nearest of their fragments is seen in the end, the earliest of them where
/// several are equally near; where all are farther than what was there, that
/// stays.
pub proof fn law_nearest_fragment_is_seen(
    extent: Extent2D,
    msaa_samples: u32,
    vertex_input: VertexInput,
    sample: Sample,
    fragments: Seq<Fragment>,
)
    requires
        forall|k: int|
            0 <= k < fragments.len() ==> (#[trigger] fragments[k]).winding is CounterClockwise
                && 0 <= fragments[k].x < extent.width && 0 <= fragments[k].y < extent.height,
    ensures
        ({
            let seen = painted(
                pipeline_for(extent, msaa_samples, vertex_input),
                sample,
                fragments,
            );
            &&& seen.depth <= sample.depth
            &&& forall|k: int| 0 <= k < fragments.len() ==> seen.depth <= (#[trigger] fragments[k]).depth
            &&& seen == sample || exists|k: int|
                {
                    &&& 0 <= k < fragments.len()
                    &&& seen == (Sample {
                        color: (#[trigger] fragments[k]).color,
                        depth: fragments[k].depth,
                    })
                    &&& forall|j: int|
                        0 <= j < k ==> (#[trigger] fragments[j]).depth > fragments[k].depth
                }
        }),
    decreases fragments.len(),
{
    let pipeline = pipeline_for(extent, msaa_samples, vertex_input);
    if fragments.len() > 0 {
        let front = fragments.drop_last();
        let last = fragments.len() - 1;
        assert forall|k: int| 0 <= k < front.len() implies (
        #[trigger] front[k]).winding is CounterClockwise && 0 <= front[k].x < extent.width && 0
            <= front[k].y < extent.height by {
            assert(front[k] == fragments[k]);
        }
        law_nearest_fragment_is_seen(extent, msaa_samples, vertex_input, sample, front);
        let before = painted(pipeline, sample, front);
        law_nearer_fragments_replace_what_is_there(
            extent,
            msaa_samples,
            vertex_input,
            before,
            fragments[last],
        );
        assert forall|j: int| 0 <= j < last implies fragments[j] == #[trigger] front[j] by {}
        let seen = painted(pipeline, sample, fragments);
        assert forall|k: int| 0 <= k < fragments.len() implies seen.depth <= (
        #[trigger] fragments[k]).depth by {
            if k < last {
                assert(front[k].depth >= before.depth);
            }
        }
        if seen == before {
            if seen != sample {
                let k = choose|k: int|
                    {
                        &&& 0 <= k < front.len()
                        &&& before == (Sample {
                            color: (#[trigger] front[k]).color,
                            depth: front[k].depth,
                        })
                        &&& forall|j: int|
                            0 <= j < k ==> (#[trigger] front[j]).depth > front[k].depth
                    };
                assert(fragments[k] == front[k]);
                assert forall|j: int| 0 <= j < k implies (#[trigger] fragments[j]).depth
                    > fragments[k].depth by {
                    assert(front[j] == fragments[j]);
                }
            }
        } else {
            assert forall|j: int| 0 <= j < last implies (#[trigger] fragments[j]).depth
                > fragments[last].depth by {
                assert(front[j].depth >= before.depth);
            }
        }
    }
}

/// Law: on a cleared sample every fragment in front of the far plane is seen,
/// as long as it faces the viewer and lies inside the rendered area.
pub proof fn law_anything_is_seen_on_a_cleared_sample(
    extent: Extent2D,
    msaa_samples: u32,
    vertex_input: VertexInput,
    background: Rgba,
    fragment: Fragment,
)
    requires
        fragment.winding is CounterClockwise,
        0 <= fragment.x < extent.width,
        0 <= fragment.y < extent.height,
        fragment.depth < 0x3f80_0000,
    ensures
        drawn_over(
            pipeline_for(extent, msaa_samples, vertex_input),
            Sample { color: background, depth: clear_values().depth },
            fragment,
        ).color == fragment.color,
{
    lemma_bits();
}

/// Law: the viewport is the rendered area: it starts at the origin, is as large
/// as the image, and spans all depths from 0 to 1; every position of the image
/// can be written, and none beside it.
pub proof fn law_viewport_is_the_whole_image(
    extent: Extent2D,
    msaa_samples: u32,
    vertex_input: VertexInput,
    x: int,
    y: int,
)
    ensures
        ({
            let pipeline = pipeline_for(extent, msaa_samples, vertex_input);
            let viewport = pipeline.viewport;
            &&& viewport.x == 0 && viewport.y == 0
            &&& viewport.extent == extent
            &&& viewport.min_depth == 0 && viewport.max_depth == 0x3f80_0000
            &&& pipeline.scissor.extent == viewport.extent
            &&& is_inside(pipeline, x, y) <==> (0 <= x < extent.width && 0 <= y < extent.height)
        }),
{
}

/// Law: fragments come to the attachments as the shaders made them: depths are
/// neither clamped nor biased nor bounded, colors neither blended nor combined,
/// coverage does not depend on alpha, and every channel is written.
pub proof fn law_fragments_are_stored_unaltered(
    extent: Extent2D,
    msaa_samples: u32,
    vertex_input: VertexInput,
    new: Rgba,
    stored: Rgba,
)
    ensures
        ({
            let pipeline = pipeline_for(extent, msaa_samples, vertex_input);
            let rasterization = pipeline.rasterization;
            let blend = pipeline.color_blend;
            &&& !rasterization.depth_clamp_enable && !rasterization.depth_bias_enable
            &&& rasterization.depth_bias_constant_factor == 0
            &&& rasterization.depth_bias_slope_factor == 0
            &&& rasterization.depth_bias_clamp == 0
            &&& !pipeline.depth_stencil.depth_bounds_test_enable
            &&& pipeline.depth_stencil.min_depth_bounds == pipeline.viewport.min_depth
            &&& pipeline.depth_stencil.max_depth_bounds == pipeline.viewport.max_depth
            &&& !pipeline.multisample.alpha_to_coverage_enable
            &&& !pipeline.multisample.alpha_to_one_enable
            &&& !blend.blend_enable && !blend.logic_op_enable
            &&& blend.logic_op == 3 && blend.blend_constants == 0
            &&& blend.color_blend_op == 0 && blend.alpha_blend_op == 0
            &&& written_color(blend, new, stored) == new
            &&& blended_color(blend, new, stored) == new
        }),
{
    lemma_bits();
}

/// Law: every three indices are a triangle, with edges one pixel wide, sampled
/// as often as the attachments are and shaded once for each pixel.
pub proof fn law_indices_are_read_as_triangles(
    extent: Extent2D,
    msaa_samples: u32,
    vertex_input: VertexInput,
)
    ensures
        ({
            let pipeline = pipeline_for(extent, msaa_samples, vertex_input);
            &&& pipeline.input_assembly.topology == 3
            &&& !pipeline.input_assembly.primitive_restart_enable
            &&& pipeline.rasterization.line_width == 0x3f80_0000
            &&& pipeline.multisample.rasterization_samples == msaa_samples
            &&& !pipeline.multisample.sample_shading_enable
            &&& pipeline.multisample.min_sample_shading == 0x3f80_0000
            &&& pipeline.vertex_input == vertex_input
            &&& pipeline.subpass == 0
        }),
{
}

/// Law: each shader runs at the stage it was written for, from its own file, and
/// the pipeline runs the vertex shader and then the fragment shader.
pub proof fn law_shaders_run_at_their_stage(
    extent: Extent2D,
    msaa_samples: u32,
    vertex_input: VertexInput,
    shader: Shader,
)
    ensures
        ({
            let pipeline = pipeline_for(extent, msaa_samples, vertex_input);
            &&& stage_for(shader).shader == shader
            &&& stage_for(shader).entry_point == "main"
            &&& pipeline.vertex_stage.shader == Shader::Vertex
            &&& pipeline.vertex_stage.stage == 1
            &&& pipeline.vertex_stage.entry_point == "main"
            &&& pipeline.vertex_stage.path == "shaders/shader_stage.vert.spv"
            &&& pipeline.fragment_stage.shader == Shader::Fragment
            &&& pipeline.fragment_stage.stage == 0x10
            &&& pipeline.fragment_stage.entry_point == "main"
            &&& pipeline.fragment_stage.path == "shaders/shader_stage.frag.spv"
            &&& shader is Vertex ==> stage_for(shader) == pipeline.vertex_stage
            &&& shader is Fragment ==> stage_for(shader) == pipeline.fragment_stage
        }),
{
}

/// Law: the created pipeline shows a triangle that faces the viewer: of a fragment
/// inside the rendered area and nearer than what is there, the color and the depth
/// reach the attachments; of a triangle that shows its back nothing does.
pub proof fn law_created_pipeline_shows_what_faces_the_viewer(
    extent: Extent2D,
    msaa_samples: u32,
    vertex_input: VertexInput,
    desc: PipelineDesc,
    sample: Sample,
    fragment: Fragment,
)
    requires
        call_ensures(pipeline_desc, (extent, msaa_samples, vertex_input), desc),
        0 <= fragment.x < extent.width,
        0 <= fragment.y < extent.height,
        fragment.depth < sample.depth,
    ensures
        fragment.winding is CounterClockwise ==> drawn_over(desc, sample, fragment) == (Sample {
            color: fragment.color,
            depth: fragment.depth,
        }),
        fragment.winding is Clockwise ==> drawn_over(desc, sample, fragment) == sample,
{
    lemma_bits();
}

} // verus!
