//! The nodes of the oct-tree and the cubes that view them.
use vstd::prelude::*;

use crate::edit::{extent_fits, Cursor};
use crate::geometry::Geometry;
use crate::math::{Clamp, UPoint3};
use crate::resource::ResourceId;
use crate::space::{
    aabb_contains, aabb_fits, aabbs_intersect, exp_spec, index_at_point, index_spec, mask_point, max_width, min_width, Intersects,
    LogWidth, Partition, Spatial, AABB,
};

verus! {

broadcast use crate::space::Partition::lemma_child_width;

/// Bookkeeping of a node: the number of branches below (and including) it,
/// as last counted by `Root::instrument`.
#[derive(Clone, Copy)]
struct Hint {
    pub load: usize,
}

impl Hint {
    fn new() -> (r: Self)
        ensures
            r.load == 0,
    {
        Hint { load: 0 }
    }
}

/// The data of a leaf: its geometry and material.
#[derive(Clone, Copy)]
pub struct LeafPayload {
    pub geometry: Geometry,
    pub material: ResourceId,
    hint: Hint,
}

impl LeafPayload {
    /// A leaf with full geometry and material zero.
    pub closed spec fn fresh(self) -> bool {
        &&& self.material == 0
        &&& self.load() == 0
        &&& forall|a: int, i: int|
            0 <= a < 3 && 0 <= i < 4 ==> #[trigger] self.geometry.edge(a, i).front_spec() == 0
                && self.geometry.edge(a, i).back_spec() == 15
    }

    /// The load recorded in the leaf's hint.
    pub closed spec fn load(self) -> usize {
        self.hint.load
    }

    /// The geometry of the leaf.
    pub closed spec fn geometry_spec(self) -> Geometry {
        self.geometry
    }

    /// The material of the leaf.
    pub closed spec fn material_spec(self) -> ResourceId {
        self.material
    }

    pub fn new() -> (r: Self)
        ensures
            r.fresh(),
    {
        LeafPayload { geometry: Geometry::full(), material: 0, hint: Hint::new() }
    }
}

/// The data of a branch.
#[derive(Clone, Copy)]
pub struct BranchPayload {
    hint: Hint,
}

impl BranchPayload {
    /// The load recorded in the branch's hint.
    pub closed spec fn load(self) -> usize {
        self.hint.load
    }

    pub fn new() -> (r: Self)
        ensures
            r.load() == 0,
    {
        BranchPayload { hint: Hint::new() }
    }
}

/// A leaf node.
#[derive(Clone, Copy)]
pub struct LeafNode {
    pub payload: LeafPayload,
}

impl LeafNode {
    pub fn new() -> (r: Self)
        ensures
            r.payload.fresh(),
    {
        LeafNode { payload: LeafPayload::new() }
    }
}

/// A branch node with its eight sub-nodes.
pub struct BranchNode {
    pub payload: BranchPayload,
    nodes: Vec<Node>,
}

impl BranchNode {
    /// The sub-nodes of the branch.
    pub closed spec fn children(self) -> Seq<Node> {
        self.nodes@
    }

    /// The payload of the branch.
    pub closed spec fn payload_spec(self) -> BranchPayload {
        self.payload
    }

    fn new(nodes: Vec<Node>) -> (r: Self)
        ensures
            r.payload.load() == 0,
            r.children() == nodes@,
    {
        BranchNode { payload: BranchPayload::new(), nodes }
    }

    /// Gets the sub-node at an index.
    pub fn child(&self, index: usize) -> (r: &Node)
        requires
            index < self.children().len(),
        ensures
            *r == self.children()[index as int],
    {
        &self.nodes[index]
    }
}

/// A node of the oct-tree: a leaf with geometry or a branch with eight
/// sub-nodes.
pub enum Node {
    Leaf(LeafNode),
    Branch(BranchNode),
}

/// The sub-node at `i` of a branch node.
pub open spec fn child_of(node: Node, i: int) -> Node {
    node->Branch_0.children()[i]
}

impl Node {
    /// The node is well formed at logarithmic width `w`: every branch is
    /// wider than the minimum width and has eight sub-nodes, each well formed
    /// at the width one less.
    pub open spec fn wf_at(self, w: u8) -> bool
        decreases self,
    {
        match self {
            Node::Leaf(_) => true,
            Node::Branch(b) => {
                &&& w > min_width()
                &&& b.children().len() == 8
                &&& forall|i: int| 0 <= i < 8 ==> (#[trigger] b.children()[i]).wf_at((w - 1) as u8)
            },
        }
    }

    pub fn new() -> (r: Self)
        ensures
            r is Leaf,
            r->Leaf_0.payload.fresh(),
    {
        Node::Leaf(LeafNode::new())
    }

    pub fn is_leaf(&self) -> (r: bool)
        ensures
            r == (*self is Leaf),
    {
        match self {
            Node::Leaf(..) => true,
            _ => false,
        }
    }

    pub fn as_leaf(&self) -> (r: Option<&LeafNode>)
        ensures
            r == (match *self {
                Node::Leaf(l) => Some(&l),
                _ => None,
            }),
    {
        match self {
            Node::Leaf(leaf) => Some(leaf),
            _ => None,
        }
    }

    /// The leaf, for modification, where the node is a leaf.
    pub fn as_leaf_mut(&mut self) -> (r: Option<&mut LeafNode>)
        ensures
            *old(self) is Leaf <==> r is Some,
            r is Some ==> *r->0 == (*old(self))->Leaf_0 && *final(self) == Node::Leaf(*final(r->0)),
            r is None ==> *final(self) == *old(self),
    {
        match self {
            Node::Leaf(leaf) => Some(leaf),
            _ => None,
        }
    }

    /// The branch, for modification, where the node is a branch.
    pub fn as_branch_mut(&mut self) -> (r: Option<&mut BranchNode>)
        ensures
            *old(self) is Branch <==> r is Some,
            r is Some ==> *r->0 == (*old(self))->Branch_0 && *final(self) == Node::Branch(
                *final(r->0),
            ),
            r is None ==> *final(self) == *old(self),
    {
        match self {
            Node::Branch(branch) => Some(branch),
            _ => None,
        }
    }

    pub fn as_branch(&self) -> (r: Option<&BranchNode>)
        ensures
            r == (match *self {
                Node::Branch(b) => Some(&b),
                _ => None,
            }),
    {
        match self {
            Node::Branch(branch) => Some(branch),
            _ => None,
        }
    }
}

/// Two trees are equal node for node.
pub open spec fn same_tree(a: Node, b: Node) -> bool
    decreases a,
{
    match a {
        Node::Leaf(x) => b is Leaf && b->Leaf_0 == x,
        Node::Branch(x) => {
            &&& b is Branch
            &&& x.payload_spec() == b->Branch_0.payload_spec()
            &&& x.children().len() == b->Branch_0.children().len()
            &&& forall|i: int|
                0 <= i < x.children().len() ==> same_tree(
                    #[trigger] x.children()[i],
                    b->Branch_0.children()[i],
                )
        },
    }
}

/// Copies a node and, recursively, its sub-nodes.
fn clone_node(node: &Node) -> (r: Node)
    ensures
        same_tree(*node, r),
    decreases node,
{
    match node {
        Node::Leaf(leaf) => Node::Leaf(*leaf),
        Node::Branch(branch) => {
            let mut nodes: Vec<Node> = Vec::new();
            let mut i: usize = 0;
            while i < branch.nodes.len()
                invariant
                    *node == Node::Branch(*branch),
                    i <= branch.nodes.len(),
                    nodes.len() == i,
                    forall|j: int| 0 <= j < i ==> same_tree(#[trigger] branch.nodes@[j], nodes@[j]),
                decreases branch.nodes.len() - i,
            {
                proof {
                    vstd::std_specs::vec::axiom_vec_index_decreases(branch.nodes, i as int);
                    assert(decreases_to!(*node => node->Branch_0.children()[i as int]));
                }
                nodes.push(clone_node(&branch.nodes[i]));
                i = i + 1;
            }
            let r = Node::Branch(BranchNode { payload: branch.payload, nodes });
            assert(r->Branch_0.children() == nodes@);
            r
        },
    }
}

impl Clone for Node {
    fn clone(&self) -> (r: Self)
        ensures
            same_tree(*self, r),
    {
        clone_node(self)
    }
}

impl Clone for BranchNode {
    fn clone(&self) -> (r: Self)
        ensures
            same_tree(Node::Branch(*self), Node::Branch(r)),
    {
        let mut nodes: Vec<Node> = Vec::new();
        let mut i: usize = 0;
        while i < self.nodes.len()
            invariant
                i <= self.nodes.len(),
                nodes.len() == i,
                forall|j: int| 0 <= j < i ==> same_tree(#[trigger] self.nodes@[j], nodes@[j]),
            decreases self.nodes.len() - i,
        {
            nodes.push(clone_node(&self.nodes[i]));
            i = i + 1;
        }
        BranchNode { payload: self.payload, nodes }
    }
}

/// Errors of editing cubes.
#[derive(Clone, Copy, Debug, PartialEq, Eq, Structural)]
pub enum CubeError {
    LimitExceeded,
    JoinLeaf,
    SubdivideBranch,
}

impl CubeError {
    /// A description of the error.
    pub fn description(&self) -> (r: &'static str)
        ensures
            *self == CubeError::LimitExceeded ==> r@ == "minimum width limit exceeded"@,
            *self == CubeError::JoinLeaf ==> r@ == "attempted to join leaf"@,
            *self == CubeError::SubdivideBranch ==> r@ == "attempted to subdivide branch"@,
    {
        match self {
            CubeError::LimitExceeded => "minimum width limit exceeded",
            CubeError::JoinLeaf => "attempted to join leaf",
            CubeError::SubdivideBranch => "attempted to subdivide branch",
        }
    }
}

impl From<JoinError> for CubeError {
    fn from(error: JoinError) -> (r: CubeError) {
        CubeError::JoinLeaf
    }
}

impl vstd::std_specs::convert::FromSpecImpl<JoinError> for CubeError {
    open spec fn obeys_from_spec() -> bool {
        true
    }

    open spec fn from_spec(error: JoinError) -> CubeError {
        CubeError::JoinLeaf
    }
}

impl From<SubdivideError> for CubeError {
    fn from(error: SubdivideError) -> (r: CubeError) {
        match error {
            SubdivideError::LimitExceeded => CubeError::LimitExceeded,
            SubdivideError::AlreadySubdivided => CubeError::SubdivideBranch,
        }
    }
}

impl vstd::std_specs::convert::FromSpecImpl<SubdivideError> for CubeError {
    open spec fn obeys_from_spec() -> bool {
        true
    }

    open spec fn from_spec(error: SubdivideError) -> CubeError {
        match error {
            SubdivideError::LimitExceeded => CubeError::LimitExceeded,
            SubdivideError::AlreadySubdivided => CubeError::SubdivideBranch,
        }
    }
}

/// Error of joining a cube.
#[derive(Clone, Copy, Debug, PartialEq, Eq, Structural)]
pub enum JoinError {
    AlreadyJoined,
}

impl JoinError {
    /// A description of the error.
    pub fn description(&self) -> (r: &'static str)
        ensures
            r@ == "attempted to join leaf"@,
    {
        match self {
            JoinError::AlreadyJoined => "attempted to join leaf",
        }
    }
}

/// Error of subdividing a cube.
#[derive(Clone, Copy, Debug, PartialEq, Eq, Structural)]
pub enum SubdivideError {
    LimitExceeded,
    AlreadySubdivided,
}

impl SubdivideError {
    /// A description of the error.
    pub fn description(&self) -> (r: &'static str)
        ensures
            *self == SubdivideError::LimitExceeded ==> r@ == "minimum width limit exceeded"@,
            *self == SubdivideError::AlreadySubdivided ==> r@ == "attempted to subdivide branch"@,
    {
        match self {
            SubdivideError::LimitExceeded => "minimum width limit exceeded",
            SubdivideError::AlreadySubdivided => "attempted to subdivide branch",
        }
    }
}

/// The node that subdividing `old` gives: a leaf becomes a branch whose eight
/// sub-nodes are copies of the leaf; a branch stays as it is.
pub open spec fn subdivided(old: Node, new: Node) -> bool {
    if old is Leaf {
        &&& new is Branch
        &&& new->Branch_0.payload_spec().load() == 0
        &&& new->Branch_0.children().len() == 8
        &&& forall|i: int| 0 <= i < 8 ==> #[trigger] new->Branch_0.children()[i] == old
    } else {
        new == old
    }
}

/// Subdividing a leaf wider than the minimum width keeps the tree well formed.
pub proof fn lemma_subdivided_wf(old: Node, new: Node, w: u8)
    requires
        old is Leaf,
        subdivided(old, new),
        w > min_width(),
    ensures
        new.wf_at(w),
{
    assert forall|j: int| 0 <= j < 8 implies (#[trigger] new->Branch_0.children()[j]).wf_at(
        (w - 1) as u8,
    ) by {
        assert(new->Branch_0.children()[j] == old);
    }
}

impl Node {
    /// Joins a branch: it becomes a fresh leaf.
    fn join(&mut self) -> (r: Result<(), JoinError>)
        ensures
            *old(self) is Branch ==> r == Ok::<(), JoinError>(()) && *final(self) is Leaf
                && final(self)->Leaf_0.payload.fresh(),
            *old(self) is Leaf ==> r == Err::<(), JoinError>(JoinError::AlreadyJoined)
                && *final(self) == *old(self),
    {
        if let Node::Branch(..) = self {
            *self = Node::new();
            Ok(())
        } else {
            Err(JoinError::AlreadyJoined)
        }
    }

    /// Subdivides a leaf into a branch of eight copies of it.
    fn subdivide(&mut self) -> (r: Result<(), SubdivideError>)
        ensures
            subdivided(*old(self), *final(self)),
            *old(self) is Leaf ==> r == Ok::<(), SubdivideError>(()),
            *old(self) is Branch ==> r == Err::<(), SubdivideError>(
                SubdivideError::AlreadySubdivided,
            ),
    {
        let copy = match self {
            Node::Leaf(leaf) => Some(*leaf),
            Node::Branch(..) => None,
        };
        match copy {
            Some(leaf) => {
                let mut nodes: Vec<Node> = Vec::new();
                let mut i: usize = 0;
                while i < 8
                    invariant
                        i <= 8,
                        nodes.len() == i,
                        forall|j: int| 0 <= j < i ==> #[trigger] nodes@[j] == Node::Leaf(leaf),
                    decreases 8 - i,
                {
                    nodes.push(Node::Leaf(leaf));
                    i = i + 1;
                }
                *self = Node::Branch(BranchNode::new(nodes));
                Ok(())
            },
            None => Err(SubdivideError::AlreadySubdivided),
        }
    }
}

/// Follows `point` down from a node of width `depth` towards width `target`,
/// stopping early at a leaf. Yields the node reached and its width.
pub open spec fn descend(node: Node, depth: u8, point: UPoint3, target: u8) -> (Node, u8)
    decreases node,
{
    if target < depth && depth > min_width() && node is Branch && node->Branch_0.children().len()
        == 8 && 0 <= index_spec(point, (depth - 1) as u8) < 8 {
        descend(
            node->Branch_0.children()[index_spec(point, (depth - 1) as u8)],
            (depth - 1) as u8,
            point,
            target,
        )
    } else {
        (node, depth)
    }
}

/// A point clamped into the space spanned by a root of width `w`.
pub open spec fn clamp_to_root(p: UPoint3, w: u8) -> UPoint3 {
    UPoint3 {
        x: crate::math::clamp_u32(p.x, 0, (exp_spec(w) - 1) as u32),
        y: crate::math::clamp_u32(p.y, 0, (exp_spec(w) - 1) as u32),
        z: crate::math::clamp_u32(p.z, 0, (exp_spec(w) - 1) as u32),
    }
}

/// A width clamped into `[min_width(), w]`.
pub open spec fn clamp_width(width: u8, w: u8) -> u8 {
    if width < min_width() {
        min_width()
    } else if width > w {
        w
    } else {
        width
    }
}

/// A view of a node of a tree together with its spatial partition.
#[derive(Clone, Copy)]
pub struct Cube<'a> {
    node: &'a Node,
    root: Partition,
    partition: Partition,
}

impl<'a> Cube<'a> {
    #[verifier::type_invariant]
    spec fn cube_inv(self) -> bool {
        &&& self.node.wf_at(self.partition.width_spec())
        &&& self.partition.width_spec() <= self.root.width_spec()
    }

    /// The node viewed.
    pub closed spec fn node_spec(self) -> Node {
        *self.node
    }

    /// The partition of the root of the tree.
    pub closed spec fn root_spec(self) -> Partition {
        self.root
    }

    /// The partition of the cube.
    pub closed spec fn partition_spec(self) -> Partition {
        self.partition
    }

    fn new(node: &'a Node, root: Partition, partition: Partition) -> (r: Self)
        requires
            node.wf_at(partition.width_spec()),
            partition.width_spec() <= root.width_spec(),
        ensures
            r.node_spec() == *node,
            r.root_spec() == root,
            r.partition_spec() == partition,
    {
        Cube { node, root, partition }
    }

    /// The node that the cube views.
    pub fn node(&self) -> (r: &'a Node)
        ensures
            *r == self.node_spec(),
            r.wf_at(self.partition_spec().width_spec()),
    {
        proof {
            use_type_invariant(self);
        }
        self.node
    }

    /// Returns `true` if the cube is a leaf.
    pub fn is_leaf(&self) -> (r: bool)
        ensures
            r == (self.node_spec() is Leaf),
    {
        self.node.is_leaf()
    }

    /// Returns `true` unless the cube is a leaf whose geometry encloses volume.
    pub fn is_empty(&self) -> (r: bool)
        ensures
            r == (match self.node_spec() {
                Node::Leaf(l) => exists|a: int|
                    0 <= a < 3 && #[trigger] l.payload.geometry_spec().axis_collapsed(a),
                Node::Branch(_) => true,
            }),
    {
        match self.node {
            Node::Leaf(leaf) => {
                let g = leaf.payload.geometry;
                assert(g == leaf.payload.geometry_spec());
                g.is_empty()
            },
            Node::Branch(..) => true,
        }
    }

    /// The cube at `point`, going down towards `width` but stopping at a
    /// leaf. `None` if the point is outside the cube.
    pub fn at_point(&self, point: &UPoint3, width: LogWidth) -> (r: Option<Cube<'a>>)
        ensures
            r is Some <==> aabb_contains(self.partition_spec().aabb_spec(), *point),
            r is Some ==> {
                let q = clamp_to_root(*point, self.root_spec().width_spec());
                let t = clamp_width(width.inner(), self.partition_spec().width_spec());
                let (n, d) = descend(self.node_spec(), self.partition_spec().width_spec(), q, t);
                &&& r->0.node_spec() == n
                &&& r->0.root_spec() == self.root_spec()
                &&& r->0.partition_spec().width_spec() == d
                &&& r->0.partition_spec().origin_spec() == mask_point(q, d)
            },
    {
        proof {
            use_type_invariant(self);
        }
        let aabb = self.partition.aabb();
        if aabb.intersects(point) {
            let mut node = self.node;
            let mut depth = self.partition.width();
            let e = self.root.width().exp();
            let point = point.clamp(0, e - 1);
            let width = width.clamp(LogWidth::min_value(), depth);
            let ghost q = point;
            let ghost t = width.inner();
            let ghost goal = descend(*self.node, self.partition.width_spec(), q, t);
            while width.to_inner() < depth.to_inner()
                invariant_except_break
                    node.wf_at(depth.inner()),
                    descend(*node, depth.inner(), q, t) == goal,
                    depth.inner() <= self.partition.width_spec(),
                    min_width() <= t,
                    point == q,
                    t == width.inner(),
                ensures
                    node.wf_at(depth.inner()),
                    descend(*node, depth.inner(), q, t) == (*node, depth.inner()),
                    descend(*node, depth.inner(), q, t) == goal,
                    depth.inner() <= self.partition.width_spec(),
                decreases depth.inner(),
            {
                match node {
                    Node::Branch(branch) => {
                        let d = depth.to_inner();
                        depth = depth.sub_inner(1);
                        let i = index_at_point(&point, depth);
                        node = branch.child(i);
                    },
                    _ => {
                        break ;
                    },
                }
            }
            Some(Cube::new(node, self.root, Partition::at_point(&point, depth)))
        } else {
            None
        }
    }
}

impl<'a> Cube<'a> {
    /// The node and partition of the cube.
    pub open spec fn view_pair(self) -> (Node, Partition) {
        (self.node_spec(), self.partition_spec())
    }

    /// The sub-cube at `index`; `None` for a leaf.
    pub fn at_index(&self, index: usize) -> (r: Option<Cube<'a>>)
        requires
            index < 8,
        ensures
            r is Some <==> self.node_spec() is Branch,
            r is Some ==> r->0.node_spec() == child_of(self.node_spec(), index as int),
            r is Some ==> r->0.partition_spec() == self.partition_spec().child(index as int),
            r is Some ==> r->0.root_spec() == self.root_spec(),
    {
        proof {
            use_type_invariant(self);
        }
        match self.node {
            Node::Branch(branch) => {
                let p = self.partition.at_index(index);
                match p {
                    Some(p) => {
                        proof {
                            self.partition.lemma_child(index as int);
                        }
                        Some(Cube::new(branch.child(index), self.root, p))
                    },
                    None => None,
                }
            },
            _ => None,
        }
    }

    /// The cubes of the sub-tree in traversal order: each cube comes before
    /// its sub-cubes, which are visited from the last index to the first.
    pub fn iter(&self) -> (r: Vec<Cube<'a>>)
        ensures
            r@.map_values(|c: Cube<'a>| c.view_pair()) == preorder(
                self.node_spec(),
                self.partition_spec(),
            ),
            forall|i: int| 0 <= i < r.len() ==> #[trigger] r@[i].root_spec() == self.root_spec(),
            r.len() == node_count(self.node_spec()),
            r@[0].node_spec() == self.node_spec() && r@[0].partition_spec() == self.partition_spec(),
    {
        proof {
            use_type_invariant(self);
        }
        let mut out: Vec<Cube<'a>> = Vec::new();
        collect_preorder(self.node, self.root, self.partition, &mut out);
        assert(out@.map_values(|c: Cube<'a>| c.view_pair()) =~= preorder(
            self.node_spec(),
            self.partition_spec(),
        ));
        proof {
            lemma_preorder_len(self.node_spec(), self.partition_spec());
            let first = out@.map_values(|c: Cube<'a>| c.view_pair())[0];
            assert(first == out@[0].view_pair());
        }
        out
    }

    /// The cube itself and its sub-cubes (`None` for a leaf).
    pub fn into_subdivisions(self) -> (r: (Cube<'a>, Option<Vec<Cube<'a>>>))
        ensures
            r.0 == self,
            r.1 is Some <==> self.node_spec() is Branch,
            r.1 is Some ==> r.1->0.len() == 8,
            r.1 is Some ==> forall|i: int|
                0 <= i < 8 ==> (#[trigger] r.1->0@[i]).node_spec() == child_of(self.node_spec(), i)
                    && r.1->0@[i].partition_spec() == self.partition_spec().child(i)
                    && r.1->0@[i].root_spec() == self.root_spec(),
    {
        proof {
            use_type_invariant(&self);
        }
        match self.node {
            Node::Branch(_) => {
                let mut cubes: Vec<Cube<'a>> = Vec::new();
                let mut i: usize = 0;
                while i < 8
                    invariant
                        i <= 8,
                        cubes.len() == i,
                        self.node_spec() is Branch,
                        forall|j: int|
                            0 <= j < i ==> (#[trigger] cubes@[j]).node_spec() == child_of(
                                self.node_spec(),
                                j,
                            ) && cubes@[j].partition_spec() == self.partition_spec().child(j)
                                && cubes@[j].root_spec() == self.root_spec(),
                    decreases 8 - i,
                {
                    let c = self.at_index(i);
                    match c {
                        Some(c) => cubes.push(c),
                        None => {
                            assert(false);
                        },
                    }
                    i = i + 1;
                }
                (self, Some(cubes))
            },
            _ => (self, None),
        }
    }
}

impl<'a> Spatial for Cube<'a> {
    open spec fn spatial_partition(&self) -> Partition {
        self.partition_spec()
    }

    fn partition(&self) -> (r: &Partition) {
        &self.partition
    }

    /// The depth of the cube: the root's width less the cube's width.
    fn depth(&self) -> (r: u8)
        ensures
            r == self.root_spec().width_spec() - self.partition_spec().width_spec(),
    {
        proof {
            use_type_invariant(self);
        }
        self.root.width().to_inner() - self.partition.width().to_inner()
    }
}

/// The nodes and partitions of a sub-tree in traversal order.
pub open spec fn preorder(node: Node, part: Partition) -> Seq<(Node, Partition)>
    decreases node, 9nat,
{
    seq![(node, part)] + preorder_children(node, part, 8)
}

/// The traversals of the sub-nodes at indices `k - 1` down to `0`.
pub open spec fn preorder_children(node: Node, part: Partition, k: nat) -> Seq<(Node, Partition)>
    decreases node, k,
{
    if k == 0 || k > 8 || !(node is Branch) || node->Branch_0.children().len() != 8 {
        Seq::empty()
    } else {
        preorder(node->Branch_0.children()[k - 1], part.child(k - 1)) + preorder_children(
            node,
            part,
            (k - 1) as nat,
        )
    }
}

/// The number of nodes in a sub-tree, its own node included.
pub open spec fn node_count(node: Node) -> nat
    decreases node, 9nat,
{
    1 + children_count(node, 8)
}

/// The number of nodes under the sub-nodes at indices `k - 1` down to `0`.
pub open spec fn children_count(node: Node, k: nat) -> nat
    decreases node, k,
{
    if k == 0 || k > 8 || !(node is Branch) || node->Branch_0.children().len() != 8 {
        0
    } else {
        node_count(node->Branch_0.children()[k - 1]) + children_count(node, (k - 1) as nat)
    }
}

/// A traversal visits every node of the sub-tree once: it is as long as the
/// sub-tree has nodes, and it starts with the sub-tree's own node.
pub proof fn lemma_preorder_len(node: Node, part: Partition)
    ensures
        preorder(node, part).len() == node_count(node),
        preorder(node, part)[0] == (node, part),
    decreases node, 9nat,
{
    lemma_preorder_children_len(node, part, 8);
}

/// The traversals of the sub-nodes at indices `k - 1` down to `0` are as
/// long as those sub-trees have nodes.
pub proof fn lemma_preorder_children_len(node: Node, part: Partition, k: nat)
    ensures
        preorder_children(node, part, k).len() == children_count(node, k),
    decreases node, k,
{
    if k == 0 || k > 8 || !(node is Branch) || node->Branch_0.children().len() != 8 {
    } else {
        lemma_preorder_len(node->Branch_0.children()[k - 1], part.child(k - 1));
        lemma_preorder_children_len(node, part, (k - 1) as nat);
    }
}

/// Appends the traversal of a sub-tree to `out`.
fn collect_preorder<'a>(node: &'a Node, root: Partition, part: Partition, out: &mut Vec<Cube<'a>>)
    requires
        node.wf_at(part.width_spec()),
        part.width_spec() <= root.width_spec(),
    ensures
        final(out)@.map_values(|c: Cube<'a>| c.view_pair()) == old(out)@.map_values(
            |c: Cube<'a>| c.view_pair(),
        ) + preorder(*node, part),
        forall|i: int| 0 <= i < old(out).len() ==> #[trigger] final(out)@[i] == old(out)@[i],
        forall|i: int|
            old(out).len() <= i < final(out).len() ==> #[trigger] final(out)@[i].root_spec() == root,
        final(out).len() == old(out).len() + preorder(*node, part).len(),
    decreases node,
{
    let ghost start = out@;
    let cube = Cube::new(node, root, part);
    out.push(cube);
    assert(out@.map_values(|c: Cube<'a>| c.view_pair()) =~= start.map_values(
        |c: Cube<'a>| c.view_pair(),
    ) + seq![(*node, part)]);
    match node {
        Node::Branch(branch) => {
            let mut k: usize = 8;
            let ghost mut pushed: Seq<(Node, Partition)> = Seq::empty();
            while k > 0
                invariant
                    *node == Node::Branch(*branch),
                    node.wf_at(part.width_spec()),
                    part.width_spec() <= root.width_spec(),
                    k <= 8,
                    pushed + preorder_children(*node, part, k as nat) == preorder_children(
                        *node,
                        part,
                        8,
                    ),
                    out@.map_values(|c: Cube<'a>| c.view_pair()) == start.map_values(
                        |c: Cube<'a>| c.view_pair(),
                    ) + seq![(*node, part)] + pushed,
                    out.len() == start.len() + 1 + pushed.len(),
                    forall|i: int| 0 <= i < start.len() ==> #[trigger] out@[i] == start[i],
                    forall|i: int| start.len() <= i < out.len() ==> #[trigger] out@[i].root_spec() == root,
                decreases k,
            {
                k = k - 1;
                let p = part.at_index(k);
                match p {
                    Some(p) => {
                        proof {
                            part.lemma_child(k as int);
                            assert(decreases_to!(*node => node->Branch_0.children()[k as int]));
                        }
                        let ghost before = out@;
                        collect_preorder(branch.child(k), root, p, out);
                        proof {
                            let pre = preorder(branch.children()[k as int], p);
                            assert(preorder_children(*node, part, (k + 1) as nat) == pre
                                + preorder_children(*node, part, k as nat));
                            assert(pushed + pre + preorder_children(*node, part, k as nat)
                                =~= pushed + preorder_children(*node, part, (k + 1) as nat));
                            pushed = pushed + pre;
                            assert(out@.map_values(|c: Cube<'a>| c.view_pair()) =~= start.map_values(
                                |c: Cube<'a>| c.view_pair(),
                            ) + seq![(*node, part)] + pushed);
                        }
                    },
                    None => {
                        assert(false);
                    },
                }
            }
            assert(pushed =~= preorder_children(*node, part, 8));
        },
        Node::Leaf(_) => {
            assert(preorder_children(*node, part, 8) =~= Seq::empty());
        },
    }
    assert(out@.map_values(|c: Cube<'a>| c.view_pair()) =~= start.map_values(
        |c: Cube<'a>| c.view_pair(),
    ) + preorder(*node, part));
}

/// `new` is `old` with every node on the way from width `depth` down to
/// width `t` towards `p` subdivided: a leaf on the way becomes a branch of
/// eight copies of itself, and the walk continues into the sub-node that
/// contains `p`. Nodes off the way are unchanged.
pub open spec fn refined_to_point(old: Node, new: Node, depth: u8, p: UPoint3, t: u8) -> bool
    decreases old, depth,
{
    let i = index_spec(p, (depth - 1) as u8);
    if t < depth && depth > min_width() && 0 <= i < 8 {
        &&& new is Branch
        &&& new->Branch_0.children().len() == 8
        &&& if old is Leaf {
            &&& new->Branch_0.payload_spec().load() == 0
            &&& forall|j: int| 0 <= j < 8 && j != i ==> #[trigger] new->Branch_0.children()[j] == old
            &&& refined_to_point(old, new->Branch_0.children()[i], (depth - 1) as u8, p, t)
        } else {
            &&& old->Branch_0.children().len() == 8
            &&& new->Branch_0.payload_spec() == old->Branch_0.payload_spec()
            &&& forall|j: int|
                0 <= j < 8 && j != i ==> #[trigger] new->Branch_0.children()[j]
                    == old->Branch_0.children()[j]
            &&& refined_to_point(
                old->Branch_0.children()[i],
                new->Branch_0.children()[i],
                (depth - 1) as u8,
                p,
                t,
            )
        }
    } else {
        new == old
    }
}

/// Subdivides every node from `node` (of width `depth`) towards `point` down
/// to width `target`.
fn subdivide_toward(node: &mut Node, depth: LogWidth, point: &UPoint3, target: LogWidth)
    requires
        old(node).wf_at(depth.inner()),
        min_width() <= target.inner(),
    ensures
        refined_to_point(*old(node), *final(node), depth.inner(), *point, target.inner()),
        final(node).wf_at(depth.inner()),
    decreases *old(node), depth.inner(),
{
    let d = depth.to_inner();
    if target.to_inner() < d {
        let ghost before = *node;
        let _ = node.subdivide();
        proof {
            if before is Leaf {
                lemma_subdivided_wf(before, *node, d);
            }
        }
        match node {
            Node::Branch(branch) => {
                let sub = depth.sub_inner(1);
                let i = index_at_point(point, sub);
                proof {
                    if before is Branch {
                        assert(decreases_to!(before => before->Branch_0.children()[i as int]));
                    }
                }
                let ghost child_before = branch.nodes@[i as int];
                subdivide_toward(&mut branch.nodes[i], sub, point, target);
                proof {
                    assert(branch.nodes@.len() == 8);
                }
            },
            Node::Leaf(_) => {
                assert(false);
            },
        }
    }
}

/// Walking towards a point after subdividing towards it reaches the target
/// width.
pub proof fn lemma_refined_reaches(old: Node, new: Node, depth: u8, p: UPoint3, t: u8)
    requires
        refined_to_point(old, new, depth, p, t),
        min_width() <= t <= depth <= max_width(),
    ensures
        descend(new, depth, p, t).1 == t,
    decreases old, depth,
{
    let i = index_spec(p, (depth - 1) as u8);
    if t < depth {
        crate::space::lemma_bit_le_one(p.x, (depth - 1) as u8);
        crate::space::lemma_bit_le_one(p.y, (depth - 1) as u8);
        crate::space::lemma_bit_le_one(p.z, (depth - 1) as u8);
        if old is Leaf {
            lemma_refined_reaches(old, new->Branch_0.children()[i], (depth - 1) as u8, p, t);
        } else {
            lemma_refined_reaches(
                old->Branch_0.children()[i],
                new->Branch_0.children()[i],
                (depth - 1) as u8,
                p,
                t,
            );
        }
    }
}

/// An edit of the cube reached by walking towards a point.
enum Edit {
    Subdivide,
    Join,
    SetLeaf(Geometry, ResourceId),
}

/// The outcome of an edit.
enum Edited {
    Subdivide(Result<(), SubdivideError>),
    Join(Result<(), JoinError>),
    SetLeaf(bool),
}

/// Subdividing a cube of width `d`: refused at the minimum width and for a
/// branch, otherwise a leaf becomes a branch of eight copies of itself.
pub open spec fn subdivide_change(old: Node, new: Node, d: u8, r: Result<(), SubdivideError>) -> bool {
    if d == min_width() {
        new == old && r == Err::<(), SubdivideError>(SubdivideError::LimitExceeded)
    } else if old is Leaf {
        subdivided(old, new) && r == Ok::<(), SubdivideError>(())
    } else {
        new == old && r == Err::<(), SubdivideError>(SubdivideError::AlreadySubdivided)
    }
}

/// Subdividing succeeds only on a leaf and leaves a branch; joining that
/// branch then succeeds and gives a fresh leaf again.
pub proof fn lemma_join_after_subdivide(old: Node, mid: Node, new: Node, d: u8, subdivided_r: Result<
    (),
    SubdivideError,
>, joined_r: Result<(), JoinError>)
    requires
        subdivide_change(old, mid, d, subdivided_r),
        subdivided_r is Ok,
        join_change(mid, new, joined_r),
    ensures
        old is Leaf,
        mid is Branch,
        joined_r is Ok,
        new is Leaf,
        new->Leaf_0.payload.fresh(),
{
}

/// Joining a cube: a branch becomes a fresh leaf; a leaf is refused.
pub open spec fn join_change(old: Node, new: Node, r: Result<(), JoinError>) -> bool {
    if old is Branch {
        new is Leaf && new->Leaf_0.payload.fresh() && r == Ok::<(), JoinError>(())
    } else {
        new == old && r == Err::<(), JoinError>(JoinError::AlreadyJoined)
    }
}

/// Setting the geometry and material of a leaf (keeping its load); a branch
/// is left as it is.
pub open spec fn set_leaf_change(old: Node, new: Node, g: Geometry, m: ResourceId, r: bool) -> bool {
    if old is Leaf {
        &&& new is Leaf
        &&& new->Leaf_0.payload.geometry_spec() == g
        &&& new->Leaf_0.payload.material_spec() == m
        &&& new->Leaf_0.payload.load() == old->Leaf_0.payload.load()
        &&& r
    } else {
        new == old && !r
    }
}

/// What an edit does to the node it reaches, of width `d`.
spec fn edit_spec(edit: Edit, old: Node, new: Node, d: u8, out: Edited) -> bool {
    match edit {
        Edit::Subdivide => out is Subdivide && subdivide_change(old, new, d, out->Subdivide_0),
        Edit::Join => out is Join && join_change(old, new, out->Join_0),
        Edit::SetLeaf(g, m) => out is SetLeaf && set_leaf_change(old, new, g, m, out->SetLeaf_0),
    }
}

/// `new` is `old` with the node that `descend` reaches (towards `p`, from
/// width `depth` down to `t`) changed as `change(reached, changed, width)`
/// says; every other node is unchanged.
pub open spec fn changed_at(
    old: Node,
    new: Node,
    depth: u8,
    p: UPoint3,
    t: u8,
    change: spec_fn(Node, Node, u8) -> bool,
) -> bool
    decreases old,
{
    let i = index_spec(p, (depth - 1) as u8);
    if t < depth && depth > min_width() && old is Branch && old->Branch_0.children().len() == 8
        && 0 <= i < 8 {
        &&& new is Branch
        &&& new->Branch_0.children().len() == 8
        &&& new->Branch_0.payload_spec() == old->Branch_0.payload_spec()
        &&& forall|j: int|
            0 <= j < 8 && j != i ==> #[trigger] new->Branch_0.children()[j]
                == old->Branch_0.children()[j]
        &&& changed_at(
            old->Branch_0.children()[i],
            new->Branch_0.children()[i],
            (depth - 1) as u8,
            p,
            t,
            change,
        )
    } else {
        change(old, new, depth)
    }
}

/// A change that follows from another applies along the same way.
pub proof fn lemma_changed_at_weaken(
    old: Node,
    new: Node,
    depth: u8,
    p: UPoint3,
    t: u8,
    c1: spec_fn(Node, Node, u8) -> bool,
    c2: spec_fn(Node, Node, u8) -> bool,
)
    requires
        changed_at(old, new, depth, p, t, c1),
        forall|o: Node, n: Node, d: u8| #[trigger] c1(o, n, d) ==> c2(o, n, d),
    ensures
        changed_at(old, new, depth, p, t, c2),
    decreases old,
{
    let i = index_spec(p, (depth - 1) as u8);
    if t < depth && depth > min_width() && old is Branch && old->Branch_0.children().len() == 8
        && 0 <= i < 8 {
        lemma_changed_at_weaken(
            old->Branch_0.children()[i],
            new->Branch_0.children()[i],
            (depth - 1) as u8,
            p,
            t,
            c1,
            c2,
        );
    }
}

/// Applies an edit to the node reached from `node` (of width `depth`)
/// towards `point` and down to `target`.
fn edit_toward(node: &mut Node, depth: LogWidth, point: &UPoint3, target: LogWidth, edit: Edit) -> (out:
    Edited)
    requires
        old(node).wf_at(depth.inner()),
        min_width() <= target.inner() <= depth.inner(),
    ensures
        changed_at(
            *old(node),
            *final(node),
            depth.inner(),
            *point,
            target.inner(),
            |o: Node, n: Node, d: u8| edit_spec(edit, o, n, d, out),
        ),
        final(node).wf_at(depth.inner()),
        edit is Subdivide ==> out is Subdivide,
        edit is Join ==> out is Join,
        edit is SetLeaf ==> out is SetLeaf,
    decreases *old(node),
{
    let d = depth.to_inner();
    let is_branch = !node.is_leaf();
    if target.to_inner() < d && is_branch {
        match node {
            Node::Branch(branch) => {
                let sub = depth.sub_inner(1);
                let i = index_at_point(point, sub);
                proof {
                    assert(decreases_to!(*old(node) => old(node)->Branch_0.children()[i as int]));
                }
                let out = edit_toward(&mut branch.nodes[i], sub, point, target, edit);
                proof {
                    assert(branch.nodes@.len() == 8);
                    assert(changed_at(
                        *old(node),
                        *node,
                        depth.inner(),
                        *point,
                        target.inner(),
                        |o: Node, n: Node, d: u8| edit_spec(edit, o, n, d, out),
                    ));
                }
                out
            },
            Node::Leaf(_) => {
                assert(false);
                Edited::SetLeaf(false)
            },
        }
    } else {
        let ghost before = *node;
        let out = match edit {
            Edit::Subdivide => {
                if d == 4 {
                    Edited::Subdivide(Err(SubdivideError::LimitExceeded))
                } else {
                    let r = node.subdivide();
                    proof {
                        if before is Leaf {
                            lemma_subdivided_wf(before, *node, d);
                        }
                    }
                    Edited::Subdivide(r)
                }
            },
            Edit::Join => Edited::Join(node.join()),
            Edit::SetLeaf(g, m) => {
                match node {
                    Node::Leaf(leaf) => {
                        leaf.payload.geometry = g;
                        leaf.payload.material = m;
                        Edited::SetLeaf(true)
                    },
                    Node::Branch(_) => Edited::SetLeaf(false),
                }
            },
        };
        assert(edit_spec(edit, before, *node, d, out));
        assert(changed_at(
            before,
            *node,
            depth.inner(),
            *point,
            target.inner(),
            |o: Node, n: Node, d: u8| edit_spec(edit, o, n, d, out),
        ));
        out
    }
}

/// The partitions of width `cw` that intersect `b`, below `part`, in
/// traversal order.
pub open spec fn cursor_partitions(part: Partition, cw: u8, b: AABB) -> Seq<Partition>
    decreases part.width_spec(), 9nat,
{
    if !aabbs_intersect(part.aabb_spec(), b) {
        Seq::empty()
    } else if part.width_spec() == cw {
        seq![part]
    } else if part.width_spec() > cw && part.width_spec() > min_width() {
        cursor_children(part, cw, b, 8)
    } else {
        Seq::empty()
    }
}

/// `cursor_partitions` of the sub-partitions at indices `k - 1` down to `0`.
pub open spec fn cursor_children(part: Partition, cw: u8, b: AABB, k: nat) -> Seq<Partition>
    decreases part.width_spec(), k,
{
    if k == 0 || k > 8 || part.width_spec() <= min_width() {
        Seq::empty()
    } else {
        proof {
            part.lemma_child(k - 1);
        }
        cursor_partitions(part.child(k - 1), cw, b) + cursor_children(part, cw, b, (k - 1) as nat)
    }
}

/// `new` is `old` (a node of the cube with the given origin and width) with
/// every cube wider than `cw` that intersects `b` subdivided, recursively.
pub open spec fn refined_at(old: Node, new: Node, origin: UPoint3, w: u8, cw: u8, b: AABB) -> bool
    decreases w,
{
    if aabbs_intersect(crate::space::cube_aabb(origin, w), b) && w > cw && w > min_width() {
        let sub = (w - 1) as u8;
        &&& new is Branch
        &&& new->Branch_0.children().len() == 8
        &&& if old is Leaf {
            &&& new->Branch_0.payload_spec().load() == 0
            &&& forall|j: int|
                0 <= j < 8 ==> refined_at(
                    old,
                    #[trigger] new->Branch_0.children()[j],
                    crate::space::translate(origin, crate::space::vector_spec(j as u32, sub)),
                    sub,
                    cw,
                    b,
                )
        } else {
            &&& old->Branch_0.children().len() == 8
            &&& new->Branch_0.payload_spec() == old->Branch_0.payload_spec()
            &&& forall|j: int|
                0 <= j < 8 ==> refined_at(
                    old->Branch_0.children()[j],
                    #[trigger] new->Branch_0.children()[j],
                    crate::space::translate(origin, crate::space::vector_spec(j as u32, sub)),
                    sub,
                    cw,
                    b,
                )
        }
    } else {
        new == old
    }
}

/// `new` is `old` (a node with partition `part`) with every cube wider than
/// `cw` that intersects `b` subdivided, recursively.
pub open spec fn refined_to_cursor(old: Node, new: Node, part: Partition, cw: u8, b: AABB) -> bool {
    refined_at(old, new, part.origin_spec(), part.width_spec(), cw, b)
}

/// Subdivides the cubes below `node` that a cursor selects down to the
/// cursor's width, and appends the partitions of the selected cubes to `out`.
fn subdivide_cursor(node: &mut Node, part: Partition, cw: LogWidth, b: &AABB, out: &mut Vec<
    Partition,
>)
    requires
        old(node).wf_at(part.width_spec()),
        aabb_fits(*b),
    ensures
        refined_to_cursor(*old(node), *final(node), part, cw.inner(), *b),
        final(node).wf_at(part.width_spec()),
        final(out)@ == old(out)@ + cursor_partitions(part, cw.inner(), *b),
    decreases part.width_spec(),
{
    let a = part.aabb();
    if a.intersects(b) {
        let w = part.width().to_inner();
        let c = cw.to_inner();
        if w == c {
            out.push(part);
        } else if w > c && w > 4 {
            let ghost before = *node;
            let _ = node.subdivide();
            proof {
                if before is Leaf {
                    lemma_subdivided_wf(before, *node, w);
                }
            }
            let mut taken = Node::new();
            std::mem::swap(&mut taken, node);
            let ghost mid = taken;
            match taken {
                Node::Branch(mut branch) => {
                    let mut k: usize = 8;
                    let ghost start = out@;
                    let ghost mut pushed: Seq<Partition> = Seq::empty();
                    while k > 0
                        invariant
                            k <= 8,
                            mid is Branch,
                            mid.wf_at(w),
                            w == part.width_spec(),
                            w > min_width(),
                            aabb_fits(*b),
                            branch.payload == mid->Branch_0.payload,
                            branch.nodes@.len() == 8,
                            forall|j: int|
                                0 <= j < k ==> #[trigger] branch.nodes@[j]
                                    == mid->Branch_0.children()[j],
                            forall|j: int|
                                k <= j < 8 ==> #[trigger] refined_to_cursor(
                                    mid->Branch_0.children()[j],
                                    branch.nodes@[j],
                                    part.child(j),
                                    cw.inner(),
                                    *b,
                                ),
                            forall|j: int|
                                k <= j < 8 ==> (#[trigger] branch.nodes@[j]).wf_at((w - 1) as u8),
                            pushed + cursor_children(part, cw.inner(), *b, k as nat)
                                == cursor_children(part, cw.inner(), *b, 8),
                            out@ == start + pushed,
                        decreases k,
                    {
                        k = k - 1;
                        let p = part.at_index(k);
                        match p {
                            Some(p) => {
                                proof {
                                    part.lemma_child(k as int);
                                }
                                let ghost before_out = out@;
                                subdivide_cursor(&mut branch.nodes[k], p, cw, b, out);
                                proof {
                                    let cp = cursor_partitions(p, cw.inner(), *b);
                                    assert(cursor_children(part, cw.inner(), *b, (k + 1) as nat)
                                        == cp + cursor_children(part, cw.inner(), *b, k as nat));
                                    assert(pushed + cp + cursor_children(part, cw.inner(), *b, k as nat)
                                        =~= pushed + cursor_children(part, cw.inner(), *b, (k + 1) as nat));
                                    pushed = pushed + cp;
                                    assert(out@ =~= start + pushed);
                                }
                            },
                            None => {
                                assert(false);
                            },
                        }
                    }
                    assert(pushed =~= cursor_children(part, cw.inner(), *b, 8));
                    *node = Node::Branch(branch);
                    proof {
                        let nn = *node;
                        let sub = (w - 1) as u8;
                        assert(nn->Branch_0.children() == branch.nodes@);
                        assert forall|j: int| 0 <= j < 8 implies refined_at(
                            if before is Leaf {
                                before
                            } else {
                                before->Branch_0.children()[j]
                            },
                            #[trigger] nn->Branch_0.children()[j],
                            crate::space::translate(
                                part.origin_spec(),
                                crate::space::vector_spec(j as u32, sub),
                            ),
                            sub,
                            cw.inner(),
                            *b,
                        ) by {
                            part.lemma_child(j);
                            assert(refined_to_cursor(
                                mid->Branch_0.children()[j],
                                branch.nodes@[j],
                                part.child(j),
                                cw.inner(),
                                *b,
                            ));
                            if before is Leaf {
                                assert(mid->Branch_0.children()[j] == before);
                            } else {
                                assert(mid == before);
                            }
                        }
                        assert(refined_to_cursor(before, nn, part, cw.inner(), *b));
                    }
                },
                Node::Leaf(_) => {
                    assert(false);
                },
            }
        }
    }
}

/// The root of a tree: owns the root node and the root partition.
pub struct Root {
    node: Node,
    partition: Partition,
}

/// A tree of cubes.
pub type Tree = Root;

impl Root {
    #[verifier::type_invariant]
    spec fn root_inv(self) -> bool {
        self.node.wf_at(self.partition.width_spec())
    }

    /// The root node.
    pub closed spec fn node_spec(self) -> Node {
        self.node
    }

    /// The root partition.
    pub closed spec fn partition_spec(self) -> Partition {
        self.partition
    }

    /// A tree of one fresh leaf of the given width at the origin.
    pub fn new(width: LogWidth) -> (r: Self)
        ensures
            r.node_spec() is Leaf,
            r.node_spec()->Leaf_0.payload.fresh(),
            r.partition_spec() == Partition::at_point_spec(UPoint3::origin_spec(), width.inner()),
            r.partition_spec().width_spec() == width.inner(),
    {
        let partition = Partition::at_point(&UPoint3::origin(), width);
        Root { node: Node::new(), partition }
    }

    /// The cube of the whole tree.
    pub fn to_cube(&self) -> (r: Cube<'_>)
        ensures
            r.node_spec() == self.node_spec(),
            r.root_spec() == self.partition_spec(),
            r.partition_spec() == self.partition_spec(),
    {
        proof {
            use_type_invariant(self);
        }
        Cube::new(&self.node, self.partition, self.partition)
    }

    /// Subdivides every cube from the root towards `point` down to `width`
    /// (clamped to the root's width). Returns the partition of the cube
    /// reached, or `None` (changing nothing) if the point is outside the tree.
    pub fn subdivide_to_point(&mut self, point: &UPoint3, width: LogWidth) -> (r: Option<Partition>)
        ensures
            final(self).partition_spec() == old(self).partition_spec(),
            r is Some <==> aabb_contains(old(self).partition_spec().aabb_spec(), *point),
            r is None ==> final(self).node_spec() == old(self).node_spec(),
            r is Some ==> {
                let w = old(self).partition_spec().width_spec();
                let q = clamp_to_root(*point, w);
                let t = clamp_width(width.inner(), w);
                &&& refined_to_point(old(self).node_spec(), final(self).node_spec(), w, q, t)
                &&& r->0 == Partition::at_point_spec(q, t)
            },
    {
        proof {
            use_type_invariant(&*self);
        }
        let aabb = self.partition.aabb();
        if aabb.intersects(point) {
            let depth = self.partition.width();
            let e = depth.exp();
            let q = point.clamp(0, e - 1);
            let t = width.clamp(LogWidth::min_value(), depth);
            let mut node = Node::new();
            std::mem::swap(&mut node, &mut self.node);
            subdivide_toward(&mut node, depth, &q, t);
            self.node = node;
            Some(Partition::at_point(&q, t))
        } else {
            None
        }
    }
}

impl Root {
    /// Applies an edit to the cube at `point` and `width`; `None` (changing
    /// nothing) if the point is outside the tree.
    fn edit_at_point(&mut self, point: &UPoint3, width: LogWidth, edit: Edit) -> (r: Option<Edited>)
        ensures
            final(self).partition_spec() == old(self).partition_spec(),
            r is Some <==> aabb_contains(old(self).partition_spec().aabb_spec(), *point),
            r is None ==> final(self).node_spec() == old(self).node_spec(),
            r is Some ==> {
                let w = old(self).partition_spec().width_spec();
                changed_at(
                    old(self).node_spec(),
                    final(self).node_spec(),
                    w,
                    clamp_to_root(*point, w),
                    clamp_width(width.inner(), w),
                    |o: Node, n: Node, d: u8| edit_spec(edit, o, n, d, r->0),
                )
            },
            r is Some ==> (edit is Subdivide ==> r->0 is Subdivide),
            r is Some ==> (edit is Join ==> r->0 is Join),
            r is Some ==> (edit is SetLeaf ==> r->0 is SetLeaf),
    {
        proof {
            use_type_invariant(&*self);
        }
        let aabb = self.partition.aabb();
        if aabb.intersects(point) {
            let depth = self.partition.width();
            let e = depth.exp();
            let q = point.clamp(0, e - 1);
            let t = width.clamp(LogWidth::min_value(), depth);
            let mut node = Node::new();
            std::mem::swap(&mut node, &mut self.node);
            let out = edit_toward(&mut node, depth, &q, t, edit);
            self.node = node;
            Some(out)
        } else {
            None
        }
    }

    /// Subdivides the cube at `point` and `width` (see `Cube::at_point` for
    /// how the cube is found). `None` if the point is outside the tree.
    pub fn subdivide_at_point(&mut self, point: &UPoint3, width: LogWidth) -> (r: Option<
        Result<(), SubdivideError>,
    >)
        ensures
            final(self).partition_spec() == old(self).partition_spec(),
            r is Some <==> aabb_contains(old(self).partition_spec().aabb_spec(), *point),
            r is None ==> final(self).node_spec() == old(self).node_spec(),
            r is Some ==> {
                let w = old(self).partition_spec().width_spec();
                changed_at(
                    old(self).node_spec(),
                    final(self).node_spec(),
                    w,
                    clamp_to_root(*point, w),
                    clamp_width(width.inner(), w),
                    |o: Node, n: Node, d: u8| subdivide_change(o, n, d, r->0),
                )
            },
    {
        let out = self.edit_at_point(point, width, Edit::Subdivide);
        match out {
            Some(Edited::Subdivide(r)) => {
                proof {
                    let w = old(self).partition_spec().width_spec();
                    lemma_changed_at_weaken(
                        old(self).node_spec(),
                        self.node_spec(),
                        w,
                        clamp_to_root(*point, w),
                        clamp_width(width.inner(), w),
                        |o: Node, n: Node, d: u8| edit_spec(Edit::Subdivide, o, n, d, Edited::Subdivide(r)),
                        |o: Node, n: Node, d: u8| subdivide_change(o, n, d, r),
                    );
                }
                Some(r)
            },
            Some(_) => {
                assert(false);
                None
            },
            None => None,
        }
    }

    /// Joins the cube at `point` and `width` (see `Cube::at_point` for how
    /// the cube is found). `None` if the point is outside the tree.
    pub fn join_at_point(&mut self, point: &UPoint3, width: LogWidth) -> (r: Option<
        Result<(), JoinError>,
    >)
        ensures
            final(self).partition_spec() == old(self).partition_spec(),
            r is Some <==> aabb_contains(old(self).partition_spec().aabb_spec(), *point),
            r is None ==> final(self).node_spec() == old(self).node_spec(),
            r is Some ==> {
                let w = old(self).partition_spec().width_spec();
                changed_at(
                    old(self).node_spec(),
                    final(self).node_spec(),
                    w,
                    clamp_to_root(*point, w),
                    clamp_width(width.inner(), w),
                    |o: Node, n: Node, d: u8| join_change(o, n, r->0),
                )
            },
    {
        let out = self.edit_at_point(point, width, Edit::Join);
        match out {
            Some(Edited::Join(r)) => {
                proof {
                    let w = old(self).partition_spec().width_spec();
                    lemma_changed_at_weaken(
                        old(self).node_spec(),
                        self.node_spec(),
                        w,
                        clamp_to_root(*point, w),
                        clamp_width(width.inner(), w),
                        |o: Node, n: Node, d: u8| edit_spec(Edit::Join, o, n, d, Edited::Join(r)),
                        |o: Node, n: Node, d: u8| join_change(o, n, r),
                    );
                }
                Some(r)
            },
            Some(_) => {
                assert(false);
                None
            },
            None => None,
        }
    }

    /// Sets the geometry and material of the leaf at `point` and `width` (see
    /// `Cube::at_point` for how the cube is found). `Some(false)` if the cube
    /// found is a branch; `None` if the point is outside the tree.
    pub fn set_leaf_at_point(
        &mut self,
        point: &UPoint3,
        width: LogWidth,
        geometry: Geometry,
        material: ResourceId,
    ) -> (r: Option<bool>)
        ensures
            final(self).partition_spec() == old(self).partition_spec(),
            r is Some <==> aabb_contains(old(self).partition_spec().aabb_spec(), *point),
            r is None ==> final(self).node_spec() == old(self).node_spec(),
            r is Some ==> {
                let w = old(self).partition_spec().width_spec();
                changed_at(
                    old(self).node_spec(),
                    final(self).node_spec(),
                    w,
                    clamp_to_root(*point, w),
                    clamp_width(width.inner(), w),
                    |o: Node, n: Node, d: u8| set_leaf_change(o, n, geometry, material, r->0),
                )
            },
    {
        let out = self.edit_at_point(point, width, Edit::SetLeaf(geometry, material));
        match out {
            Some(Edited::SetLeaf(r)) => {
                proof {
                    let w = old(self).partition_spec().width_spec();
                    lemma_changed_at_weaken(
                        old(self).node_spec(),
                        self.node_spec(),
                        w,
                        clamp_to_root(*point, w),
                        clamp_width(width.inner(), w),
                        |o: Node, n: Node, d: u8|
                            edit_spec(Edit::SetLeaf(geometry, material), o, n, d, Edited::SetLeaf(r)),
                        |o: Node, n: Node, d: u8| set_leaf_change(o, n, geometry, material, r),
                    );
                }
                Some(r)
            },
            Some(_) => {
                assert(false);
                None
            },
            None => None,
        }
    }
}

impl Root {
    /// Subdivides the tree so that the cubes the cursor selects exist at the
    /// cursor's width, and returns their partitions in traversal order.
    pub fn subdivide_to_cursor(&mut self, cursor: &Cursor) -> (r: Vec<Partition>)
        requires
            extent_fits(cursor.span_spec(), cursor.width_spec()),
            aabb_fits(cursor.aabb_spec()),
        ensures
            final(self).partition_spec() == old(self).partition_spec(),
            refined_to_cursor(
                old(self).node_spec(),
                final(self).node_spec(),
                old(self).partition_spec(),
                cursor.width_spec(),
                cursor.aabb_spec(),
            ),
            r@ == cursor_partitions(
                old(self).partition_spec(),
                cursor.width_spec(),
                cursor.aabb_spec(),
            ),
    {
        proof {
            use_type_invariant(&*self);
        }
        let b = cursor.aabb();
        let mut out: Vec<Partition> = Vec::new();
        let mut node = Node::new();
        std::mem::swap(&mut node, &mut self.node);
        subdivide_cursor(&mut node, self.partition, cursor.width(), &b, &mut out);
        self.node = node;
        assert(out@ =~= cursor_partitions(self.partition, cursor.width_spec(), b));
        out
    }
}

/// Every partition a cursor selects has the cursor's width and meets the
/// cursor's box.
pub proof fn lemma_cursor_partitions_selected(part: Partition, cw: u8, b: AABB)
    ensures
        forall|i: int|
            0 <= i < cursor_partitions(part, cw, b).len() ==> (#[trigger] cursor_partitions(
                part,
                cw,
                b,
            )[i]).width_spec() == cw && aabbs_intersect(
                cursor_partitions(part, cw, b)[i].aabb_spec(),
                b,
            ),
    decreases part.width_spec(), 9nat,
{
    let s = cursor_partitions(part, cw, b);
    if aabbs_intersect(part.aabb_spec(), b) && part.width_spec() == cw {
        assert(s == seq![part]);
        assert forall|i: int| 0 <= i < s.len() implies (#[trigger] s[i]).width_spec() == cw
            && aabbs_intersect(s[i].aabb_spec(), b) by {
            assert(s[i] == part);
        }
    } else if aabbs_intersect(part.aabb_spec(), b) && part.width_spec() > cw && part.width_spec()
        > min_width() {
        lemma_cursor_children_selected(part, cw, b, 8);
        assert(s == cursor_children(part, cw, b, 8));
    }
}

/// `cursor_children` holds whatever `cursor_partitions` selects in any of the
/// first `k` sub-partitions.
proof fn lemma_cursor_children_hold(part: Partition, cw: u8, b: AABB, k: nat, i: int, x: Partition)
    requires
        part.width_spec() > min_width(),
        0 <= i < k <= 8,
        cursor_partitions(part.child(i), cw, b).contains(x),
    ensures
        cursor_children(part, cw, b, k).contains(x),
    decreases k,
{
    part.lemma_child(k - 1);
    let a = cursor_partitions(part.child(k - 1), cw, b);
    let c = cursor_children(part, cw, b, (k - 1) as nat);
    assert(cursor_children(part, cw, b, k) == a + c);
    if i == k - 1 {
        let j = choose|j: int| 0 <= j < a.len() && a[j] == x;
        assert((a + c)[j] == x);
    } else {
        lemma_cursor_children_hold(part, cw, b, (k - 1) as nat, i, x);
        let j = choose|j: int| 0 <= j < c.len() && c[j] == x;
        assert((a + c)[a.len() + j] == x);
    }
}

/// A cursor isolates the cubes of its width that meet its box: every cube of
/// the cursor's width within the partition that meets the box is selected
/// (and, by `lemma_cursor_partitions_selected`, nothing else is).
pub proof fn lemma_cursor_selects_every_meeting_cube(part: Partition, cw: u8, b: AABB, q: UPoint3)
    requires
        part.valid(),
        min_width() <= cw <= part.width_spec(),
        aabb_contains(part.aabb_spec(), q),
        aabbs_intersect(Partition::at_point_spec(q, cw).aabb_spec(), b),
    ensures
        cursor_partitions(part, cw, b).contains(Partition::at_point_spec(q, cw)),
    decreases part.width_spec(),
{
    let w = part.width_spec();
    let o = part.origin_spec();
    crate::space::lemma_mask_within(q.x, o.x, w);
    crate::space::lemma_mask_within(q.y, o.y, w);
    crate::space::lemma_mask_within(q.z, o.z, w);
    assert(mask_point(q, w) == o);
    Partition::lemma_at_point_spec(q, cw);
    let target = Partition::at_point_spec(q, cw);
    crate::space::lemma_mask_nested(q.x, cw, w);
    crate::space::lemma_mask_nested(q.y, cw, w);
    crate::space::lemma_mask_nested(q.z, cw, w);
    assert(aabbs_intersect(part.aabb_spec(), b));
    if w == cw {
        part.lemma_is_at_point(q);
        assert(cursor_partitions(part, cw, b) == seq![part]);
        assert(seq![part][0] == target);
    } else {
        let v = (w - 1) as u8;
        let i = index_spec(q, v);
        crate::space::lemma_point_location(q, w);
        part.lemma_child(i);
        let child = part.child(i);
        Partition::lemma_at_point_spec(q, v);
        assert(child.origin_spec() == mask_point(q, v));
        crate::space::lemma_mask_aligned(q.x, v);
        crate::space::lemma_mask_aligned(q.y, v);
        crate::space::lemma_mask_aligned(q.z, v);
        crate::space::lemma_aligned_fits(child.origin_spec().x, v);
        crate::space::lemma_aligned_fits(child.origin_spec().y, v);
        crate::space::lemma_aligned_fits(child.origin_spec().z, v);
        assert(child.valid());
        assert(aabb_contains(child.aabb_spec(), q));
        lemma_cursor_selects_every_meeting_cube(child, cw, b, q);
        lemma_cursor_children_hold(part, cw, b, 8, i, target);
        assert(cursor_partitions(part, cw, b) == cursor_children(part, cw, b, 8));
    }
}

/// Every partition that `cursor_children` yields has the cursor's width and
/// meets the cursor's box.
pub proof fn lemma_cursor_children_selected(part: Partition, cw: u8, b: AABB, k: nat)
    ensures
        forall|i: int|
            0 <= i < cursor_children(part, cw, b, k).len() ==> (#[trigger] cursor_children(
                part,
                cw,
                b,
                k,
            )[i]).width_spec() == cw && aabbs_intersect(
                cursor_children(part, cw, b, k)[i].aabb_spec(),
                b,
            ),
    decreases part.width_spec(), k,
{
    if !(k == 0 || k > 8 || part.width_spec() <= min_width()) {
        part.lemma_child(k - 1);
        lemma_cursor_partitions_selected(part.child(k - 1), cw, b);
        lemma_cursor_children_selected(part, cw, b, (k - 1) as nat);
        let a = cursor_partitions(part.child(k - 1), cw, b);
        let c = cursor_children(part, cw, b, (k - 1) as nat);
        assert(cursor_children(part, cw, b, k) == a + c);
        assert forall|i: int| 0 <= i < (a + c).len() implies (#[trigger] (a + c)[i]).width_spec()
            == cw && aabbs_intersect((a + c)[i].aabb_spec(), b) by {
            if i < a.len() {
                assert((a + c)[i] == a[i]);
            } else {
                assert((a + c)[i] == c[i - a.len()]);
            }
        }
    }
}

/// The number of branches in a sub-tree (the sub-tree's root included).
pub open spec fn branch_count(node: Node) -> nat
    decreases node, 9nat,
{
    if node is Branch && node->Branch_0.children().len() == 8 {
        1 + children_branch_count(node, 8)
    } else {
        0
    }
}

/// The number of branches below the sub-nodes at indices `0` to `k - 1`.
pub open spec fn children_branch_count(node: Node, k: nat) -> nat
    decreases node, k,
{
    if k == 0 || k > 8 || !(node is Branch) || node->Branch_0.children().len() != 8 {
        0
    } else {
        children_branch_count(node, (k - 1) as nat) + branch_count(
            node->Branch_0.children()[k - 1],
        )
    }
}

/// The load recorded in a node's hint.
pub open spec fn node_load(node: Node) -> usize {
    match node {
        Node::Leaf(l) => l.payload.load(),
        Node::Branch(b) => b.payload_spec().load(),
    }
}

/// `new` is `old` with the load of every node set to its branch count.
pub open spec fn instrumented(old: Node, new: Node) -> bool
    decreases old,
{
    match old {
        Node::Leaf(l) => {
            &&& new is Leaf
            &&& new->Leaf_0.payload.geometry_spec() == l.payload.geometry_spec()
            &&& new->Leaf_0.payload.material_spec() == l.payload.material_spec()
            &&& new->Leaf_0.payload.load() == 0
        },
        Node::Branch(b) => {
            &&& new is Branch
            &&& new->Branch_0.payload_spec().load() == branch_count(old)
            &&& new->Branch_0.children().len() == b.children().len()
            &&& forall|j: int|
                0 <= j < b.children().len() ==> instrumented(
                    b.children()[j],
                    #[trigger] new->Branch_0.children()[j],
                )
        },
    }
}

/// The branch count of the first `k` sub-nodes is at most that of all eight.
proof fn lemma_children_count_le(node: Node, k: nat)
    requires
        k <= 8,
    ensures
        children_branch_count(node, k) <= children_branch_count(node, 8),
    decreases 8 - k,
{
    if k < 8 {
        lemma_children_count_le(node, k + 1);
    }
}

/// Records in every node's hint the number of branches in its sub-tree, and
/// returns that number for `node`.
fn instrument_node(node: &mut Node, Ghost(w): Ghost<u8>) -> (r: usize)
    requires
        old(node).wf_at(w),
        branch_count(*old(node)) <= usize::MAX,
    ensures
        r == branch_count(*old(node)),
        instrumented(*old(node), *final(node)),
        final(node).wf_at(w),
    decreases *old(node),
{
    let mut taken = Node::new();
    std::mem::swap(&mut taken, node);
    let ghost before = taken;
    match taken {
        Node::Leaf(mut leaf) => {
            leaf.payload.hint.load = 0;
            *node = Node::Leaf(leaf);
            0
        },
        Node::Branch(mut branch) => {
            let mut total: usize = 1;
            let mut j: usize = 0;
            while j < 8
                invariant
                    before is Branch,
                    before == *old(node),
                    before.wf_at(w),
                    branch.nodes@.len() == 8,
                    branch.payload == before->Branch_0.payload,
                    j <= 8,
                    total == 1 + children_branch_count(before, j as nat),
                    branch_count(before) <= usize::MAX,
                    forall|i: int|
                        0 <= i < j ==> instrumented(
                            before->Branch_0.children()[i],
                            #[trigger] branch.nodes@[i],
                        ),
                    forall|i: int| 0 <= i < j ==> (#[trigger] branch.nodes@[i]).wf_at((w - 1) as u8),
                    forall|i: int|
                        j <= i < 8 ==> #[trigger] branch.nodes@[i] == before->Branch_0.children()[i],
                decreases 8 - j,
            {
                proof {
                    lemma_children_count_le(before, (j + 1) as nat);
                    assert(decreases_to!(*old(node) => old(node)->Branch_0.children()[j as int]));
                }
                let c = instrument_node(&mut branch.nodes[j], Ghost((w - 1) as u8));
                total = total + c;
                j = j + 1;
            }
            branch.payload.hint.load = total;
            *node = Node::Branch(branch);
            proof {
                assert(node->Branch_0.children() == branch.nodes@);
            }
            total
        },
    }
}

impl Root {
    /// Records in every node's hint the number of branches in its sub-tree
    /// (zero for a leaf), and returns that number for the root.
    pub fn instrument(&mut self) -> (r: usize)
        requires
            branch_count(old(self).node_spec()) <= usize::MAX,
        ensures
            r == branch_count(old(self).node_spec()),
            instrumented(old(self).node_spec(), final(self).node_spec()),
            final(self).partition_spec() == old(self).partition_spec(),
    {
        proof {
            use_type_invariant(&*self);
        }
        let mut node = Node::new();
        std::mem::swap(&mut node, &mut self.node);
        let r = instrument_node(&mut node, Ghost(self.partition.width_spec()));
        self.node = node;
        r
    }
}

impl Spatial for Root {
    open spec fn spatial_partition(&self) -> Partition {
        self.partition_spec()
    }

    fn partition(&self) -> (r: &Partition) {
        &self.partition
    }

    /// The root is at depth zero.
    fn depth(&self) -> (r: u8)
        ensures
            r == 0,
    {
        0
    }
}

/// The payload of a node without its links to sub-nodes.
pub enum OrphanNode<'a> {
    Leaf(&'a LeafPayload),
    Branch(&'a BranchPayload),
}

impl<'a> OrphanNode<'a> {
    pub fn is_leaf(&self) -> (r: bool)
        ensures
            r == (*self is Leaf),
    {
        match self {
            OrphanNode::Leaf(..) => true,
            _ => false,
        }
    }

    pub fn as_leaf(&self) -> (r: Option<&'a LeafPayload>)
        ensures
            r == (match *self {
                OrphanNode::Leaf(l) => Some(l),
                _ => None,
            }),
    {
        match self {
            OrphanNode::Leaf(leaf) => Some(*leaf),
            _ => None,
        }
    }

    pub fn as_branch(&self) -> (r: Option<&'a BranchPayload>)
        ensures
            r == (match *self {
                OrphanNode::Branch(b) => Some(b),
                _ => None,
            }),
    {
        match self {
            OrphanNode::Branch(branch) => Some(*branch),
            _ => None,
        }
    }

    /// The load recorded in the payload's hint.
    pub fn load(&self) -> (r: usize)
        ensures
            r == (match *self {
                OrphanNode::Leaf(l) => l.load(),
                OrphanNode::Branch(b) => b.load(),
            }),
    {
        match self {
            OrphanNode::Leaf(leaf) => leaf.hint.load,
            OrphanNode::Branch(branch) => branch.hint.load,
        }
    }
}

/// The payload of a node paired with its spatial partition, without links to
/// sub-nodes.
pub struct OrphanCube<'a> {
    node: OrphanNode<'a>,
    root: Partition,
    partition: Partition,
}

impl<'a> OrphanCube<'a> {
    #[verifier::type_invariant]
    spec fn orphan_inv(self) -> bool {
        self.partition.width_spec() <= self.root.width_spec()
    }

    /// The payload.
    pub closed spec fn node_spec(self) -> OrphanNode<'a> {
        self.node
    }

    /// The partition of the root of the tree.
    pub closed spec fn root_spec(self) -> Partition {
        self.root
    }

    /// The partition of the cube.
    pub closed spec fn partition_spec(self) -> Partition {
        self.partition
    }

    /// Gets the payload.
    pub fn node(&self) -> (r: &OrphanNode<'a>)
        ensures
            *r == self.node_spec(),
    {
        &self.node
    }
}

impl<'a> Spatial for OrphanCube<'a> {
    open spec fn spatial_partition(&self) -> Partition {
        self.partition_spec()
    }

    fn partition(&self) -> (r: &Partition) {
        &self.partition
    }

    /// The depth of the cube: the root's width less the cube's width.
    fn depth(&self) -> (r: u8)
        ensures
            r == self.root_spec().width_spec() - self.partition_spec().width_spec(),
    {
        proof {
            use_type_invariant(self);
        }
        self.root.width().to_inner() - self.partition.width().to_inner()
    }
}

impl<'a> Cube<'a> {
    /// The payload of the cube with its partition.
    pub fn to_orphan(&self) -> (r: OrphanCube<'a>)
        ensures
            r.node_spec() == (match self.node_spec() {
                Node::Leaf(l) => OrphanNode::Leaf(&l.payload),
                Node::Branch(b) => OrphanNode::Branch(&b.payload_spec()),
            }),
            r.root_spec() == self.root_spec(),
            r.partition_spec() == self.partition_spec(),
    {
        proof {
            use_type_invariant(self);
        }
        let node = match self.node {
            Node::Leaf(leaf) => OrphanNode::Leaf(&leaf.payload),
            Node::Branch(branch) => OrphanNode::Branch(&branch.payload),
        };
        OrphanCube { node, root: self.root, partition: self.partition }
    }

    /// The load recorded in the hint of the cube's node.
    pub fn load(&self) -> (r: usize)
        ensures
            r == node_load(self.node_spec()),
    {
        match self.node {
            Node::Leaf(leaf) => leaf.payload.hint.load,
            Node::Branch(branch) => branch.payload.hint.load,
        }
    }

    /// The cubes of the cursor's width that exist below this cube and meet
    /// the cursor's box, in traversal order: each views the tree's own node
    /// at its partition.
    pub fn iter_cursor(&self, cursor: &Cursor) -> (r: Vec<Cube<'a>>)
        requires
            extent_fits(cursor.span_spec(), cursor.width_spec()),
            aabb_fits(cursor.aabb_spec()),
        ensures
            r@.map_values(|c: Cube<'a>| c.view_pair()) == existing_at_cursor(
                self.node_spec(),
                self.partition_spec(),
                cursor.width_spec(),
                cursor.aabb_spec(),
            ),
            forall|i: int|
                0 <= i < r.len() ==> (#[trigger] r@[i]).partition_spec().width_spec()
                    == cursor.width_spec() && aabbs_intersect(
                    r@[i].partition_spec().aabb_spec(),
                    cursor.aabb_spec(),
                ),
    {
        proof {
            use_type_invariant(self);
        }
        let b = cursor.aabb();
        let mut out: Vec<Cube<'a>> = Vec::new();
        collect_at_cursor(self.node, self.root, self.partition, cursor.width(), &b, &mut out);
        assert(out@.map_values(|c: Cube<'a>| c.view_pair()) =~= existing_at_cursor(
            self.node_spec(),
            self.partition_spec(),
            cursor.width_spec(),
            b,
        ));
        proof {
            lemma_existing_at_cursor_selects(
                self.node_spec(),
                self.partition_spec(),
                cursor.width_spec(),
                b,
            );
            assert forall|i: int| 0 <= i < out.len() implies (#[trigger] out@[i]).partition_spec().width_spec()
                == cursor.width_spec() && aabbs_intersect(
                out@[i].partition_spec().aabb_spec(),
                cursor.aabb_spec(),
            ) by {
                let m = out@.map_values(|c: Cube<'a>| c.view_pair());
                assert(m[i] == out@[i].view_pair());
            }
        }
        out
    }
}

/// The nodes and partitions of the existing cubes of width `cw` below `node`
/// that meet `b`, in traversal order.
pub open spec fn existing_at_cursor(node: Node, part: Partition, cw: u8, b: AABB) -> Seq<(Node, Partition)>
    decreases node, 9nat,
{
    if !aabbs_intersect(part.aabb_spec(), b) {
        Seq::empty()
    } else if part.width_spec() == cw {
        seq![(node, part)]
    } else if part.width_spec() > cw {
        existing_children(node, part, cw, b, 8)
    } else {
        Seq::empty()
    }
}

/// `existing_at_cursor` of the sub-nodes at indices `k - 1` down to `0`.
pub open spec fn existing_children(node: Node, part: Partition, cw: u8, b: AABB, k: nat) -> Seq<
    (Node, Partition),
>
    decreases node, k,
{
    if k == 0 || k > 8 || !(node is Branch) || node->Branch_0.children().len() != 8 {
        Seq::empty()
    } else {
        existing_at_cursor(node->Branch_0.children()[k - 1], part.child(k - 1), cw, b)
            + existing_children(node, part, cw, b, (k - 1) as nat)
    }
}

/// The cursor selects only cubes of its own width that meet its box: every
/// cube that `existing_at_cursor` lists has width `cw` and meets `b`, so a
/// leaf wider than the cursor gives nothing.
pub proof fn lemma_existing_at_cursor_selects(node: Node, part: Partition, cw: u8, b: AABB)
    ensures
        forall|i: int|
            0 <= i < existing_at_cursor(node, part, cw, b).len() ==> (#[trigger] existing_at_cursor(
                node,
                part,
                cw,
                b,
            )[i]).1.width_spec() == cw && aabbs_intersect(
                existing_at_cursor(node, part, cw, b)[i].1.aabb_spec(),
                b,
            ),
    decreases node, 9nat,
{
    let r = existing_at_cursor(node, part, cw, b);
    if !aabbs_intersect(part.aabb_spec(), b) {
        assert(r =~= Seq::<(Node, Partition)>::empty());
    } else if part.width_spec() == cw {
        assert(r =~= seq![(node, part)]);
        assert(r[0] == (node, part));
    } else if part.width_spec() > cw {
        lemma_existing_children_select(node, part, cw, b, 8);
        assert(r == existing_children(node, part, cw, b, 8));
    } else {
        assert(r =~= Seq::<(Node, Partition)>::empty());
    }
}

/// Every cube that `existing_children` lists has width `cw` and meets `b`.
pub proof fn lemma_existing_children_select(node: Node, part: Partition, cw: u8, b: AABB, k: nat)
    ensures
        forall|i: int|
            0 <= i < existing_children(node, part, cw, b, k).len() ==> (#[trigger] existing_children(
                node,
                part,
                cw,
                b,
                k,
            )[i]).1.width_spec() == cw && aabbs_intersect(
                existing_children(node, part, cw, b, k)[i].1.aabb_spec(),
                b,
            ),
    decreases node, k,
{
    if k == 0 || k > 8 || !(node is Branch) || node->Branch_0.children().len() != 8 {
    } else {
        let child = node->Branch_0.children()[k - 1];
        lemma_existing_at_cursor_selects(child, part.child(k - 1), cw, b);
        lemma_existing_children_select(node, part, cw, b, (k - 1) as nat);
        let first = existing_at_cursor(child, part.child(k - 1), cw, b);
        let rest = existing_children(node, part, cw, b, (k - 1) as nat);
        assert(existing_children(node, part, cw, b, k) == first + rest);
        assert forall|i: int| 0 <= i < first.len() + rest.len() implies (#[trigger] (first
            + rest)[i]).1.width_spec() == cw && aabbs_intersect((first + rest)[i].1.aabb_spec(), b) by {
            if i < first.len() {
                assert((first + rest)[i] == first[i]);
            } else {
                assert((first + rest)[i] == rest[i - first.len()]);
            }
        }
    }
}

/// Appends the cubes of width `cw` below `node` that meet `b` to `out`.
fn collect_at_cursor<'a>(
    node: &'a Node,
    root: Partition,
    part: Partition,
    cw: LogWidth,
    b: &AABB,
    out: &mut Vec<Cube<'a>>,
)
    requires
        node.wf_at(part.width_spec()),
        part.width_spec() <= root.width_spec(),
        aabb_fits(*b),
    ensures
        final(out)@.map_values(|c: Cube<'a>| c.view_pair()) == old(out)@.map_values(
            |c: Cube<'a>| c.view_pair(),
        ) + existing_at_cursor(*node, part, cw.inner(), *b),
    decreases node,
{
    let ghost start = out@;
    let a = part.aabb();
    if a.intersects(b) {
        let w = part.width().to_inner();
        let c = cw.to_inner();
        if w == c {
            out.push(Cube::new(node, root, part));
            assert(out@.map_values(|c: Cube<'a>| c.view_pair()) =~= start.map_values(
                |c: Cube<'a>| c.view_pair(),
            ) + existing_at_cursor(*node, part, cw.inner(), *b));
        } else if w > c {
            match node {
                Node::Branch(branch) => {
                    let mut k: usize = 8;
                    let ghost mut pushed: Seq<(Node, Partition)> = Seq::empty();
                    while k > 0
                        invariant
                            *node == Node::Branch(*branch),
                            node.wf_at(part.width_spec()),
                            part.width_spec() <= root.width_spec(),
                            aabb_fits(*b),
                            k <= 8,
                            pushed + existing_children(*node, part, cw.inner(), *b, k as nat)
                                == existing_children(*node, part, cw.inner(), *b, 8),
                            out@.map_values(|c: Cube<'a>| c.view_pair()) == start.map_values(
                                |c: Cube<'a>| c.view_pair(),
                            ) + pushed,
                        decreases k,
                    {
                        k = k - 1;
                        let p = part.at_index(k);
                        match p {
                            Some(p) => {
                                proof {
                                    part.lemma_child(k as int);
                                    assert(decreases_to!(*node => node->Branch_0.children()[k as int]));
                                }
                                collect_at_cursor(branch.child(k), root, p, cw, b, out);
                                proof {
                                    let e = existing_at_cursor(
                                        branch.children()[k as int],
                                        p,
                                        cw.inner(),
                                        *b,
                                    );
                                    assert(existing_children(*node, part, cw.inner(), *b, (k + 1) as nat)
                                        == e + existing_children(*node, part, cw.inner(), *b, k as nat));
                                    assert(pushed + e + existing_children(*node, part, cw.inner(), *b, k as nat)
                                        =~= pushed + existing_children(*node, part, cw.inner(), *b, (k + 1) as nat));
                                    pushed = pushed + e;
                                    assert(out@.map_values(|c: Cube<'a>| c.view_pair()) =~= start.map_values(
                                        |c: Cube<'a>| c.view_pair(),
                                    ) + pushed);
                                }
                            },
                            None => {
                                assert(false);
                            },
                        }
                    }
                    assert(pushed =~= existing_children(*node, part, cw.inner(), *b, 8));
                },
                Node::Leaf(_) => {
                    assert(existing_children(*node, part, cw.inner(), *b, 8) =~= Seq::<(Node, Partition)>::empty());
                    assert(out@.map_values(|c: Cube<'a>| c.view_pair()) =~= start.map_values(
                        |c: Cube<'a>| c.view_pair(),
                    ) + existing_at_cursor(*node, part, cw.inner(), *b));
                },
            }
        } else {
            assert(out@.map_values(|c: Cube<'a>| c.view_pair()) =~= start.map_values(
                |c: Cube<'a>| c.view_pair(),
            ) + existing_at_cursor(*node, part, cw.inner(), *b));
        }
    } else {
        assert(out@.map_values(|c: Cube<'a>| c.view_pair()) =~= start.map_values(
            |c: Cube<'a>| c.view_pair(),
        ) + existing_at_cursor(*node, part, cw.inner(), *b));
    }
}

} // verus!
