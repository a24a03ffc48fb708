use renderinstance::recording::{draw_indexed, record_commands, Command};
use renderinstance::scene::{
    cluster_vertices, find_leaves, AllocationId, BuffPtr, ClusterNode, Column, GeometryBuffer,
    Mesh, Renderable, Texture, Transform, UploadRequest, COLOR_LIST,
};
use renderinstance::vulkan::Extent2D;

const NONE: u32 = u32::MAX;
const EXTENT: Extent2D = Extent2D { width: 640, height: 480 };

fn node(children: &[u32]) -> ClusterNode {
    ClusterNode { children: children.to_vec() }
}

fn mesh(vertex_offset: u64, index_offset: u64, index_count: usize) -> Mesh {
    Mesh {
        vertex_buffer_ptr: BuffPtr { handle: AllocationId(1), offset: vertex_offset, size: 96 },
        vertex_count: 3,
        index_buffer_ptr: BuffPtr { handle: AllocationId(2), offset: index_offset, size: 12 },
        index_count,
    }
}

fn shifted(x: f32) -> Transform {
    let mut transform = Transform::identity();
    transform.w.x = x.to_bits();
    transform
}

fn renderable(texture: Option<u32>, meshes: Vec<Mesh>, instances: Vec<Transform>) -> Renderable {
    Renderable {
        texture_index: texture,
        texture: texture.map(Texture),
        meshes,
        asset_path: "asset".to_string(),
        instances,
    }
}

#[test]
fn identity_is_the_unit_matrix() {
    let unit: cgmath::Matrix4<f32> = cgmath::SquareMatrix::identity();
    let own = Transform::identity();
    let columns = [(own.x, unit.x), (own.y, unit.y), (own.z, unit.z), (own.w, unit.w)];
    for (column, wanted) in columns.iter() {
        let Column { x, y, z, w } = *column;
        assert_eq!(f32::from_bits(x), wanted.x);
        assert_eq!(f32::from_bits(y), wanted.y);
        assert_eq!(f32::from_bits(z), wanted.z);
        assert_eq!(f32::from_bits(w), wanted.w);
    }
}

#[test]
fn leaves_have_no_children() {
    let nodes = vec![
        node(&[2, 3, NONE, NONE]),
        node(&[NONE, NONE, NONE, NONE]),
        node(&[NONE, NONE, NONE, 4]),
        node(&[NONE, NONE, NONE, NONE]),
        node(&[]),
    ];
    assert_eq!(find_leaves(&nodes), vec![1, 3, 4]);
    assert_eq!(find_leaves(&vec![]), Vec::<usize>::new());
    assert_eq!(find_leaves(&vec![node(&[0])]), Vec::<usize>::new());
}

#[test]
fn positions_become_vertices_of_one_color() {
    let pos: Vec<u32> = [1.0f32, 2.0, 3.0, 4.0, 5.0, 6.0].iter().map(|p| p.to_bits()).collect();
    let vertices = cluster_vertices(&pos, 7);
    assert_eq!(vertices.len(), 2);
    assert_eq!(vertices[0].pos.map(f32::from_bits), [1.0, 2.0, 3.0]);
    assert_eq!(vertices[1].pos.map(f32::from_bits), [4.0, 5.0, 6.0]);
    for vertex in &vertices {
        assert_eq!(vertex.color, COLOR_LIST[7]);
        assert_eq!(vertex.color.map(f32::from_bits), [0.75, 0.75, 0.75]);
        assert_eq!(vertex.coords.map(f32::from_bits), [0.0, 0.0]);
    }
}

#[test]
fn no_positions_need_no_color() {
    assert!(cluster_vertices(&vec![], 15).is_empty());
}

#[test]
fn upload_is_placed_where_it_was_allocated() {
    let request = UploadRequest { buffer: GeometryBuffer::Index, reserve: 12 };
    assert_eq!(
        request.placed(AllocationId(9), 4096, 12),
        BuffPtr { handle: AllocationId(9), offset: 4096, size: 12 }
    );
}

#[test]
fn draw_call_pushes_its_constants_first() {
    let mut commands = vec![Command::EndRenderPass];
    draw_indexed(&mut commands, 36, shifted(2.0), 10, -3, 5);
    assert_eq!(commands.len(), 4);
    assert_eq!(commands[0], Command::EndRenderPass);
    match commands[1] {
        Command::PushTransform { range, transform } => {
            assert_eq!((range.offset, range.size), (0, 64));
            assert_eq!(transform, shifted(2.0));
        }
        _ => panic!("no transform"),
    }
    match commands[2] {
        Command::PushTextureIndex { range, texture_index } => {
            assert_eq!((range.offset, range.size), (64, 4));
            assert_eq!(texture_index, 5);
        }
        _ => panic!("no texture index"),
    }
    assert_eq!(
        commands[3],
        Command::DrawIndexed {
            index_count: 36,
            instance_count: 1,
            first_index: 10,
            vertex_offset: -3,
            first_instance: 0,
        }
    );
}

#[test]
fn index_count_wraps_at_the_width_of_the_command() {
    let mut commands = vec![];
    draw_indexed(&mut commands, (1usize << 32) + 6, Transform::identity(), 0, 0, 0);
    assert!(matches!(commands[2], Command::DrawIndexed { index_count: 6, .. }));
}

#[test]
fn empty_scene_is_cleared_and_bound() {
    let commands = record_commands(1, EXTENT, &vec![]);
    assert_eq!(commands.len(), 8);
    assert_eq!(commands[0], Command::BeginCommandBuffer { usage: 4 });
    match commands[1] {
        Command::BeginRenderPass { framebuffer, x, y, extent, clear, contents } => {
            assert_eq!(framebuffer, 1);
            assert_eq!((x, y), (0, 0));
            assert_eq!(extent, EXTENT);
            assert_eq!(f32::from_bits(clear.red), 0.0);
            assert_eq!(f32::from_bits(clear.green), 0.0);
            assert_eq!(f32::from_bits(clear.blue), 0.0);
            assert_eq!(f32::from_bits(clear.alpha), 1.0);
            assert_eq!(f32::from_bits(clear.depth), 1.0);
            assert_eq!(clear.stencil, 0);
            assert_eq!(contents, 0);
        }
        _ => panic!("no render pass"),
    }
    assert_eq!(commands[2], Command::BindPipeline { bind_point: 0 });
    assert_eq!(commands[3], Command::BindVertexBuffer { first_binding: 0, offset: 0 });
    assert_eq!(commands[4], Command::BindIndexBuffer { offset: 0, index_type: 1 });
    assert_eq!(
        commands[5],
        Command::BindDescriptorSet { bind_point: 0, first_set: 0, set: 1 }
    );
    assert_eq!(commands[6], Command::EndRenderPass);
    assert_eq!(commands[7], Command::EndCommandBuffer);
}

#[test]
fn meshes_are_drawn_in_their_turn() {
    let scene = vec![
        renderable(Some(3), vec![mesh(0, 0, 3)], vec![shifted(1.0)]),
        renderable(None, vec![], vec![]),
        renderable(
            None,
            vec![mesh(96, 12, 6), mesh(4096, 8192, 9)],
            vec![shifted(2.0), shifted(3.0), shifted(4.0)],
        ),
    ];
    let commands = record_commands(0, EXTENT, &scene);
    assert_eq!(commands.len(), 6 + 3 * 3 + 2);
    let expected = [(1.0, 3, 3, 0, 0), (2.0, 0, 6, 3, 3), (3.0, 0, 9, 2048, 128)];
    for (k, (x, texture, count, first, offset)) in expected.iter().enumerate() {
        let at = 6 + 3 * k;
        assert!(matches!(commands[at], Command::PushTransform { transform, .. }
            if transform == shifted(*x)));
        assert!(matches!(commands[at + 1], Command::PushTextureIndex { texture_index, .. }
            if texture_index == *texture));
        assert_eq!(
            commands[at + 2],
            Command::DrawIndexed {
                index_count: *count,
                instance_count: 1,
                first_index: *first,
                vertex_offset: *offset,
                first_instance: 0,
            }
        );
    }
}

#[test]
fn draws_start_at_the_uploaded_ranges() {
    let last_vertex: u64 = (1 << 32) - 32;
    let last_index: u64 = (1 << 32) - 4;
    let scene =
        vec![renderable(None, vec![mesh(last_vertex, last_index, 1)], vec![Transform::identity()])];
    match record_commands(0, EXTENT, &scene)[8] {
        Command::DrawIndexed { first_index, vertex_offset, .. } => {
            assert_eq!(first_index as u64 * 4, last_index);
            assert_eq!(vertex_offset as u64 * 32, last_vertex);
        }
        _ => panic!("no draw"),
    }
}
