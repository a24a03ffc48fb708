//! Geometry and the objects that are drawn: vertices, meshes, renderables, and
//! the cluster trees that meshes are made from.

use vstd::prelude::*;

use crate::vulkan::{FLOAT_HALF, FLOAT_ONE, FLOAT_THREE_QUARTERS, FLOAT_ZERO};

verus! {

/// The bytes of a vertex in the vertex buffer.
pub const VERTEX_SIZE: u64 = 32;

/// The bytes of an index in the index buffer.
pub const INDEX_SIZE: u64 = 4;

/// The bytes of one 32-bit number.
pub const SCALAR_SIZE: u64 = 4;

/// How many colors a color is drawn from; the last of them is not in the list.
pub const COLOR_DRAWS: usize = 16;

/// How many colors the list holds.
pub const COLOR_COUNT: usize = 15;

/// Marks a child of a cluster node that is not there.
pub const NO_CHILD: u32 = 0xffff_ffff;

/// The colors of clusters: red, green and blue, as the bits of each number.
pub const COLOR_LIST: [[u32; 3]; 15] = [
    [FLOAT_ONE, FLOAT_ONE, FLOAT_ONE],
    [FLOAT_ONE, FLOAT_ZERO, FLOAT_ZERO],
    [FLOAT_ZERO, FLOAT_ONE, FLOAT_ZERO],
    [FLOAT_ZERO, FLOAT_ZERO, FLOAT_ONE],
    [FLOAT_ONE, FLOAT_ONE, FLOAT_ZERO],
    [FLOAT_ZERO, FLOAT_ONE, FLOAT_ONE],
    [FLOAT_ONE, FLOAT_ZERO, FLOAT_ONE],
    [FLOAT_THREE_QUARTERS, FLOAT_THREE_QUARTERS, FLOAT_THREE_QUARTERS],
    [FLOAT_HALF, FLOAT_HALF, FLOAT_HALF],
    [FLOAT_HALF, FLOAT_ZERO, FLOAT_ZERO],
    [FLOAT_HALF, FLOAT_HALF, FLOAT_ZERO],
    [FLOAT_ZERO, FLOAT_HALF, FLOAT_ZERO],
    [FLOAT_HALF, FLOAT_ZERO, FLOAT_HALF],
    [FLOAT_ZERO, FLOAT_HALF, FLOAT_HALF],
    [FLOAT_ZERO, FLOAT_ZERO, FLOAT_HALF],
];

/// A vertex: position, color and texture coordinates, as the bits of each
/// number.
#[derive(Clone, Copy, Debug, PartialEq, Eq)]
pub struct Vertex {
    pub pos: [u32; 3],
    pub color: [u32; 3],
    pub coords: [u32; 2],
}

/// A column of a matrix, as the bits of each number.
#[derive(Clone, Copy, Debug, PartialEq, Eq, Structural)]
pub struct Column {
    pub x: u32,
    pub y: u32,
    pub z: u32,
    pub w: u32,
}

/// A four by four matrix by its columns.
#[derive(Clone, Copy, Debug, PartialEq, Eq, Structural)]
pub struct Transform {
    pub x: Column,
    pub y: Column,
    pub z: Column,
    pub w: Column,
}

impl Transform {
    /// The matrix that leaves every point in place.
    pub open spec fn identity_matrix() -> Transform {
        Transform {
            x: Column { x: FLOAT_ONE, y: FLOAT_ZERO, z: FLOAT_ZERO, w: FLOAT_ZERO },
            y: Column { x: FLOAT_ZERO, y: FLOAT_ONE, z: FLOAT_ZERO, w: FLOAT_ZERO },
            z: Column { x: FLOAT_ZERO, y: FLOAT_ZERO, z: FLOAT_ONE, w: FLOAT_ZERO },
            w: Column { x: FLOAT_ZERO, y: FLOAT_ZERO, z: FLOAT_ZERO, w: FLOAT_ONE },
        }
    }

    /// The matrix that leaves every point in place.
    pub fn identity() -> (transform: Transform)
        ensures
            transform == Transform::identity_matrix(),
    {
        Transform {
            x: Column { x: FLOAT_ONE, y: FLOAT_ZERO, z: FLOAT_ZERO, w: FLOAT_ZERO },
            y: Column { x: FLOAT_ZERO, y: FLOAT_ONE, z: FLOAT_ZERO, w: FLOAT_ZERO },
            z: Column { x: FLOAT_ZERO, y: FLOAT_ZERO, z: FLOAT_ONE, w: FLOAT_ZERO },
            w: Column { x: FLOAT_ZERO, y: FLOAT_ZERO, z: FLOAT_ZERO, w: FLOAT_ONE },
        }
    }
}

/// The number under which the holder of the allocators keeps an allocation.
#[derive(Clone, Copy, Debug, PartialEq, Eq, Structural)]
pub struct AllocationId(pub u64);

/// A range of the vertex buffer or of the index buffer.
#[derive(Clone, Copy, Debug, PartialEq, Eq, Structural)]
pub struct BuffPtr {
    pub handle: AllocationId,
    pub offset: u64,
    pub size: u64,
}

/// The buffer that geometry is uploaded to.
#[derive(Clone, Copy, Debug, PartialEq, Eq, Structural)]
pub enum GeometryBuffer {
    Vertex,
    Index,
}

/// The wish for `reserve` bytes of a buffer, to be filled with geometry.
#[derive(Clone, Copy, Debug, PartialEq, Eq, Structural)]
pub struct UploadRequest {
    pub buffer: GeometryBuffer,
    pub reserve: u64,
}

impl UploadRequest {
    /// The range of an upload, given the allocation made for it and how many
    /// bytes were transferred.
    pub fn placed(self, handle: AllocationId, offset: u64, transferred: u64) -> (ptr: BuffPtr)
        ensures
            ptr == (BuffPtr { handle, offset, size: transferred }),
    {
        BuffPtr { handle, offset, size: transferred }
    }
}

/// A piece of geometry that is drawn with one call.
#[derive(Clone, Copy, Debug, PartialEq, Eq, Structural)]
pub struct Mesh {
    pub vertex_buffer_ptr: BuffPtr,
    pub vertex_count: usize,
    pub index_buffer_ptr: BuffPtr,
    pub index_count: usize,
}

/// A texture, by its index in the texture array.
#[derive(Clone, Copy, Debug, PartialEq, Eq, Structural)]
pub struct Texture(pub u32);

/// An object of the scene: its meshes and where each of them is drawn.
#[derive(Debug)]
pub struct Renderable {
    pub texture_index: Option<u32>,
    pub texture: Option<Texture>,
    pub meshes: Vec<Mesh>,
    pub asset_path: String,
    pub instances: Vec<Transform>,
}

/// A node of a cluster tree; children that are not there are `NO_CHILD`.
#[derive(Debug)]
pub struct ClusterNode {
    pub children: Vec<u32>,
}

/// The geometry of a cluster: indices, and three numbers for each position.
#[derive(Debug)]
pub struct Cluster {
    pub idx: Vec<u32>,
    pub pos: Vec<u32>,
}

/// A tree of clusters, each the finer version of its parent.
#[derive(Debug)]
pub struct ClusterTree {
    pub roots: Vec<u32>,
    pub nodes: Vec<ClusterNode>,
    /// The cluster of the node of that index, where it was loaded.
    pub clusters: Vec<Option<Cluster>>,
}

/// Whether a node has no children.
pub open spec fn is_leaf(node: ClusterNode) -> bool {
    forall|j: int| 0 <= j < node.children@.len() ==> node.children@[j] == NO_CHILD
}

/// The indices of the nodes without children, ascending.
pub open spec fn leaf_indices(nodes: Seq<ClusterNode>) -> Seq<usize>
    decreases nodes.len(),
{
    if nodes.len() == 0 {
        Seq::empty()
    } else if is_leaf(nodes.last()) {
        leaf_indices(nodes.drop_last()).push((nodes.len() - 1) as usize)
    } else {
        leaf_indices(nodes.drop_last())
    }
}

impl ClusterTree {
    /// The leaves of the tree.
    pub open spec fn leaves(&self) -> Seq<usize> {
        leaf_indices(self.nodes@)
    }

    /// The cluster of node `node`.
    pub open spec fn cluster(&self, node: usize) -> Cluster {
        self.clusters@[node as int]->Some_0
    }

    /// Node `node` has a loaded cluster, made of whole positions, that fits the
    /// address space when uploaded.
    pub open spec fn loaded(&self, node: usize) -> bool {
        &&& node < self.clusters@.len()
        &&& self.clusters@[node as int] is Some
        &&& self.cluster(node).pos@.len() % 3 == 0
        &&& self.cluster(node).pos@.len() / 3 * VERTEX_SIZE <= usize::MAX
        &&& self.cluster(node).idx@.len() * INDEX_SIZE <= usize::MAX
    }

    /// There are two roots, and every leaf has its cluster.
    pub open spec fn wf(&self) -> bool {
        &&& self.roots@.len() >= 2
        &&& forall|k: int|
            0 <= k < self.leaves().len() ==> #[trigger] self.loaded(self.leaves()[k])
    }
}

/// Vertex `k` of a cluster at the positions `pos`, in color `color`.
pub open spec fn is_cluster_vertex(vertex: Vertex, pos: Seq<u32>, color: int, k: int) -> bool {
    &&& vertex.pos@ == seq![pos[3 * k], pos[3 * k + 1], pos[3 * k + 2]]
    &&& vertex.color@ == COLOR_LIST@[color]@
    &&& vertex.coords@ == seq![FLOAT_ZERO, FLOAT_ZERO]
}

/// The vertices of a cluster at the positions `pos`, all in color `color`.
pub open spec fn are_cluster_vertices(vertices: Seq<Vertex>, pos: Seq<u32>, color: int) -> bool {
    &&& vertices.len() == pos.len() / 3
    &&& forall|k: int|
        0 <= k < vertices.len() ==> is_cluster_vertex(#[trigger] vertices[k], pos, color, k)
}

/// Turns the positions of a cluster into vertices of one color.
pub fn cluster_vertices(pos: &Vec<u32>, color: usize) -> (vertices: Vec<Vertex>)
    requires
        pos@.len() % 3 == 0,
        pos@.len() > 0 ==> color < COLOR_COUNT,
    ensures
        are_cluster_vertices(vertices@, pos@, color as int),
{
    let mut vertices: Vec<Vertex> = Vec::new();
    let mut i: usize = 0;
    while i < pos.len()
        invariant
            i <= pos@.len(),
            i % 3 == 0,
            pos@.len() % 3 == 0,
            pos@.len() > 0 ==> color < COLOR_COUNT,
            vertices@.len() == i / 3,
            forall|k: int|
                0 <= k < vertices@.len() ==> is_cluster_vertex(
                    #[trigger] vertices@[k],
                    pos@,
                    color as int,
                    k,
                ),
        decreases pos@.len() - i,
    {
        let vertex = Vertex {
            pos: [pos[i], pos[i + 1], pos[i + 2]],
            color: COLOR_LIST[color],
            coords: [FLOAT_ZERO, FLOAT_ZERO],
        };
        proof {
            let k = (i / 3) as int;
            assert(3 * k == i);
            assert(vertex.pos@ =~= seq![pos@[3 * k], pos@[3 * k + 1], pos@[3 * k + 2]]);
            assert(vertex.coords@ =~= seq![FLOAT_ZERO, FLOAT_ZERO]);
            assert(is_cluster_vertex(vertex, pos@, color as int, k));
        }
        vertices.push(vertex);
        i = i + 3;
    }
    vertices
}

/// Finds the nodes without children.
pub fn find_leaves(nodes: &Vec<ClusterNode>) -> (leaves: Vec<usize>)
    ensures
        leaves@ == leaf_indices(nodes@),
{
    let mut leaves: Vec<usize> = Vec::new();
    let mut idx: usize = 0;
    assert(nodes@.take(0) =~= Seq::<ClusterNode>::empty());
    assert(nodes@.take(nodes@.len() as int) =~= nodes@);
    while idx < nodes.len()
        invariant
            idx <= nodes@.len(),
            leaves@ == leaf_indices(nodes@.take(idx as int)),
        decreases nodes@.len() - idx,
    {
        let node = &nodes[idx];
        let mut leaf = true;
        let mut j: usize = 0;
        while j < node.children.len()
            invariant
                j <= node.children@.len(),
                leaf == forall|c: int| 0 <= c < j ==> node.children@[c] == NO_CHILD,
            decreases node.children@.len() - j,
        {
            if node.children[j] != NO_CHILD {
                leaf = false;
            }
            j = j + 1;
        }
        proof {
            let next = nodes@.take(idx + 1);
            assert(next.drop_last() =~= nodes@.take(idx as int));
            assert(next.last() == *node);
            assert(leaf == is_leaf(*node));
        }
        if leaf {
            leaves.push(idx);
        }
        idx = idx + 1;
    }
    leaves
}

/// Law: the leaves are exactly the nodes without children, each listed once and
/// in ascending order.
pub proof fn law_leaves_are_the_childless_nodes(nodes: Seq<ClusterNode>)
    requires
        nodes.len() <= usize::MAX,
    ensures
        forall|i: int|
            0 <= i < nodes.len() ==> (leaf_indices(nodes).contains(i as usize) <==> is_leaf(
                #[trigger] nodes[i],
            )),
        forall|k: int|
            0 <= k < leaf_indices(nodes).len() ==> #[trigger] leaf_indices(nodes)[k]
                < nodes.len(),
        forall|j: int, k: int|
            0 <= j < k < leaf_indices(nodes).len() ==> #[trigger] leaf_indices(nodes)[j]
                < #[trigger] leaf_indices(nodes)[k],
    decreases nodes.len(),
{
    if nodes.len() > 0 {
        let front = nodes.drop_last();
        law_leaves_are_the_childless_nodes(front);
        let before = leaf_indices(front);
        let after = leaf_indices(nodes);
        let last = (nodes.len() - 1) as usize;
        assert forall|i: int| 0 <= i < nodes.len() implies (after.contains(i as usize) <==> is_leaf(
            #[trigger] nodes[i],
        )) by {
            if i < front.len() {
                assert(front[i] == nodes[i]);
                if after.contains(i as usize) {
                    let k = choose|k: int| 0 <= k < after.len() && after[k] == i as usize;
                    assert(k < before.len());
                    assert(before[k] == after[k]);
                    assert(before.contains(i as usize));
                }
                if before.contains(i as usize) {
                    let k = choose|k: int| 0 <= k < before.len() && before[k] == i as usize;
                    assert(after[k] == before[k]);
                }
            } else {
                if after.contains(last) {
                    let k = choose|k: int| 0 <= k < after.len() && after[k] == last;
                    if !is_leaf(nodes.last()) {
                        assert(before[k] < front.len());
                    }
                }
                if is_leaf(nodes.last()) {
                    assert(after[after.len() - 1] == last);
                }
            }
        }
    }
}

/// The position numbers of vertices, one vertex after the other.
pub open spec fn flat_positions(vertices: Seq<Vertex>) -> Seq<u32>
    decreases vertices.len(),
{
    if vertices.len() == 0 {
        Seq::empty()
    } else {
        flat_positions(vertices.drop_last()) + vertices.last().pos@
    }
}

/// The first vertices hold the first positions.
proof fn lemma_flat_positions(vertices: Seq<Vertex>, pos: Seq<u32>, color: int, n: nat)
    requires
        are_cluster_vertices(vertices, pos, color),
        n <= vertices.len(),
    ensures
        flat_positions(vertices.take(n as int)) == pos.take(3 * n as int),
    decreases n,
{
    if n == 0 {
        assert(vertices.take(0) =~= Seq::<Vertex>::empty());
        assert(pos.take(0) =~= Seq::<u32>::empty());
    } else {
        let k = n - 1;
        lemma_flat_positions(vertices, pos, color, k as nat);
        assert(vertices.take(n as int).drop_last() =~= vertices.take(k));
        assert(is_cluster_vertex(vertices[k], pos, color, k));
        assert(vertices.take(n as int).last() == vertices[k]);
        assert(pos.take(3 * n as int) =~= pos.take(3 * k) + vertices[k].pos@);
    }
}

/// Law: the positions of the vertices of a cluster, one vertex after the other, are
/// the positions of the cluster: none is lost, repeated or moved. All its vertices
/// have the color asked for and the texture coordinates zero.
pub proof fn law_cluster_vertices_hold_all_positions(
    pos: Vec<u32>,
    color: usize,
    vertices: Vec<Vertex>,
)
    requires
        call_ensures(cluster_vertices, (&pos, color), vertices),
        pos@.len() % 3 == 0,
    ensures
        flat_positions(vertices@) == pos@,
        vertices@.len() * 3 == pos@.len(),
        forall|k: int|
            0 <= k < vertices@.len() ==> (#[trigger] vertices@[k]).color@
                == COLOR_LIST@[color as int]@ && vertices@[k].coords@ == seq![0u32, 0u32],
{
    law_cluster_positions_are_kept(vertices@, pos@, color as int);
    assert forall|k: int| 0 <= k < vertices@.len() implies (#[trigger] vertices@[k]).color@
        == COLOR_LIST@[color as int]@ && vertices@[k].coords@ == seq![0u32, 0u32] by {
        assert(is_cluster_vertex(vertices@[k], pos@, color as int, k));
    }
}

/// Law: vertices are those of a cluster only where they hold all its positions in
/// order.
pub proof fn law_cluster_positions_are_kept(vertices: Seq<Vertex>, pos: Seq<u32>, color: int)
    requires
        are_cluster_vertices(vertices, pos, color),
        pos.len() % 3 == 0,
    ensures
        flat_positions(vertices) == pos,
        vertices.len() * 3 == pos.len(),
{
    lemma_flat_positions(vertices, pos, color, vertices.len());
    assert(vertices.take(vertices.len() as int) =~= vertices);
    assert(pos.take(3 * vertices.len() as int) =~= pos);
}

/// Law: clusters at different positions get different vertices.
pub proof fn law_different_clusters_get_different_vertices(
    vertices: Seq<Vertex>,
    pos: Seq<u32>,
    color: int,
    other_pos: Seq<u32>,
    other_color: int,
)
    requires
        pos.len() % 3 == 0,
        other_pos.len() % 3 == 0,
        are_cluster_vertices(vertices, pos, color),
        are_cluster_vertices(vertices, other_pos, other_color),
    ensures
        pos == other_pos,
{
    law_cluster_positions_are_kept(vertices, pos, color);
    law_cluster_positions_are_kept(vertices, other_pos, other_color);
}

/// A number times the number that the bits stand for, for the bits of 0 and 1;
/// any other bits are taken for 2.
pub open spec fn scaled(bits: u32, number: int) -> int {
    if bits == 0 {
        0
    } else if bits == 0x3f80_0000 {
        number
    } else {
        2 * number
    }
}

/// A point after a transform: the columns, each scaled by its coordinate, summed.
pub open spec fn transformed(transform: Transform, x: int, y: int, z: int, w: int) -> (
    int,
    int,
    int,
    int,
) {
    (
        scaled(transform.x.x, x) + scaled(transform.y.x, y) + scaled(transform.z.x, z) + scaled(
            transform.w.x,
            w,
        ),
        scaled(transform.x.y, x) + scaled(transform.y.y, y) + scaled(transform.z.y, z) + scaled(
            transform.w.y,
            w,
        ),
        scaled(transform.x.z, x) + scaled(transform.y.z, y) + scaled(transform.z.z, z) + scaled(
            transform.w.z,
            w,
        ),
        scaled(transform.x.w, x) + scaled(transform.y.w, y) + scaled(transform.z.w, z) + scaled(
            transform.w.w,
            w,
        ),
    )
}

/// Law: the identity transform leaves every point in place.
pub proof fn law_identity_leaves_points_in_place(
    transform: Transform,
    x: int,
    y: int,
    z: int,
    w: int,
)
    requires
        call_ensures(Transform::identity, (), transform),
    ensures
        transform == Transform::identity_matrix(),
        transformed(transform, x, y, z, w) == (x, y, z, w),
{
}

/// Law: a node is a leaf exactly where none of its children is there.
pub proof fn law_leaf_has_no_child(node: ClusterNode)
    ensures
        is_leaf(node) <==> !exists|j: int|
            0 <= j < node.children@.len() && #[trigger] node.children@[j] != u32::MAX,
{
}

/// Law: the leaves found in a tree are positions of nodes all of whose children
/// are missing, ascending, and every such node is found.
pub proof fn law_leaves_are_found(nodes: Vec<ClusterNode>, leaves: Vec<usize>, i: int)
    requires
        call_ensures(find_leaves, (&nodes,), leaves),
        0 <= i < nodes@.len() <= usize::MAX,
    ensures
        leaves@.contains(i as usize) <==> forall|j: int|
            0 <= j < nodes@[i].children@.len() ==> #[trigger] nodes@[i].children@[j] == u32::MAX,
        forall|k: int| 0 <= k < leaves@.len() ==> #[trigger] leaves@[k] < nodes@.len(),
        forall|j: int, k: int|
            0 <= j < k < leaves@.len() ==> #[trigger] leaves@[j] < #[trigger] leaves@[k],
{
    law_leaves_are_the_childless_nodes(nodes@);
    assert(leaves@.contains(i as usize) <==> is_leaf(nodes@[i]));
}

/// Law: what was placed is found where its allocation starts, and is as large as
/// what was transferred.
pub proof fn law_placed_geometry_is_found_where_it_lies(
    request: UploadRequest,
    handle: AllocationId,
    offset: u64,
    transferred: u64,
    ptr: BuffPtr,
)
    requires
        call_ensures(UploadRequest::placed, (request, handle, offset, transferred), ptr),
    ensures
        ptr.handle == handle,
        ptr.offset == offset,
        ptr.size == transferred,
{
}

/// Law: a tree can be loaded exactly where it has two roots or more and every node
/// without children has a cluster made of whole positions, as far as that fits the
/// address space.
pub proof fn law_loadable_trees_have_all_leaves(tree: ClusterTree)
    ensures
        tree.wf() <==> {
            &&& tree.roots@.len() >= 2
            &&& forall|k: int|
                0 <= k < tree.leaves().len() ==> {
                    let leaf = #[trigger] tree.leaves()[k] as int;
                    &&& leaf < tree.clusters@.len()
                    &&& tree.clusters@[leaf] matches Some(cluster) && {
                        &&& cluster.pos@.len() % 3 == 0
                        &&& 32 * (cluster.pos@.len() / 3) <= usize::MAX
                        &&& 4 * cluster.idx@.len() <= usize::MAX
                    }
                }
        },
{
    if forall|k: int|
        0 <= k < tree.leaves().len() ==> {
            let leaf = #[trigger] tree.leaves()[k] as int;
            &&& leaf < tree.clusters@.len()
            &&& tree.clusters@[leaf] matches Some(cluster) && {
                &&& cluster.pos@.len() % 3 == 0
                &&& 32 * (cluster.pos@.len() / 3) <= usize::MAX
                &&& 4 * cluster.idx@.len() <= usize::MAX
            }
        } {
        assert forall|k: int| 0 <= k < tree.leaves().len() implies #[trigger] tree.loaded(
            tree.leaves()[k],
        ) by {
            let leaf = tree.leaves()[k] as int;
            assert(leaf < tree.clusters@.len());
        }
    }
    if tree.wf() {
        assert forall|k: int| 0 <= k < tree.leaves().len() implies {
            let leaf = #[trigger] tree.leaves()[k] as int;
            &&& leaf < tree.clusters@.len()
            &&& tree.clusters@[leaf] matches Some(cluster) && {
                &&& cluster.pos@.len() % 3 == 0
                &&& 32 * (cluster.pos@.len() / 3) <= usize::MAX
                &&& 4 * cluster.idx@.len() <= usize::MAX
            }
        } by {
            assert(tree.loaded(tree.leaves()[k]));
        }
    }
}

} // verus!
