use crate::matrix::Matrix4;
use crate::render::TextureHandle;
use vstd::prelude::*;

verus! {

/// A leaf of the scene as the renderer sees it: the models on the way from
/// the root down to the leaf, the leaf's own model last, and its texture.
/// Multiplied in this order the models give the leaf's world transform.
pub type Placement = (Seq<Matrix4>, TextureHandle);

/// A tree of models. Inner nodes group their children under a model of their
/// own; leaves carry a texture.
pub enum SceneGraph {
    Parent { model: Matrix4, total_children: u32, children: Vec<SceneGraph> },
    Child { model: Matrix4, texture_handle: TextureHandle },
}

/// Puts `model` in front of the path of every placement.
pub open spec fn under_model(model: Matrix4, placements: Seq<Placement>) -> Seq<Placement> {
    under_path(seq![model], placements)
}

/// Puts `path` in front of the path of every placement.
pub open spec fn under_path(path: Seq<Matrix4>, placements: Seq<Placement>) -> Seq<Placement> {
    Seq::new(placements.len(), |i: int| (path + placements[i].0, placements[i].1))
}

/// The placements of the first `n` of `children`, in order.
pub open spec fn leaves_of(children: Seq<SceneGraph>, n: nat) -> Seq<Placement>
    decreases children, n,
{
    if n == 0 || n > children.len() {
        Seq::empty()
    } else {
        leaves_of(children, (n - 1) as nat) + children[n - 1].leaves()
    }
}

/// Whether the first `n` of `children` are well formed.
pub open spec fn all_well_formed(children: Seq<SceneGraph>, n: nat) -> bool
    decreases children, n,
{
    if n == 0 || n > children.len() {
        true
    } else {
        all_well_formed(children, (n - 1) as nat) && children[n - 1].well_formed()
    }
}

impl SceneGraph {
    /// The leaves in depth-first order, children from first to last.
    pub open spec fn leaves(self) -> Seq<Placement>
        decreases self, 0nat,
    {
        match self {
            SceneGraph::Parent { model, total_children, children } => under_model(
                model,
                leaves_of(children@, children@.len()),
            ),
            SceneGraph::Child { model, texture_handle } => seq![(seq![model], texture_handle)],
        }
    }

    /// The number of leaves.
    pub open spec fn leaf_count(self) -> nat {
        self.leaves().len()
    }

    /// Whether every inner node records the number of leaves below it.
    pub open spec fn well_formed(self) -> bool
        decreases self, 0nat,
    {
        match self {
            SceneGraph::Parent { model, total_children, children } => {
                &&& total_children == self.leaf_count()
                &&& all_well_formed(children@, children@.len())
            },
            SceneGraph::Child { model, texture_handle } => true,
        }
    }
}

/// The placements of the first `n` children depend on those children only.
pub proof fn lemma_leaves_of_prefix(a: Seq<SceneGraph>, b: Seq<SceneGraph>, n: nat)
    requires
        n <= a.len(),
        n <= b.len(),
        forall|i: int| 0 <= i < n ==> a[i] == b[i],
    ensures
        leaves_of(a, n) == leaves_of(b, n),
        all_well_formed(a, n) == all_well_formed(b, n),
    decreases n,
{
    if n > 0 {
        lemma_leaves_of_prefix(a, b, (n - 1) as nat);
    }
}

/// Putting a path in front works placement by placement, so it goes through
/// concatenation.
pub proof fn lemma_under_path_concat(path: Seq<Matrix4>, a: Seq<Placement>, b: Seq<Placement>)
    ensures
        under_path(path, a + b) == under_path(path, a) + under_path(path, b),
{
    assert(under_path(path, a + b) =~= under_path(path, a) + under_path(path, b));
}

/// Putting `inner` and then `outer` in front is putting `outer + inner` in
/// front.
pub proof fn lemma_under_path_nested(
    outer: Seq<Matrix4>,
    inner: Seq<Matrix4>,
    placements: Seq<Placement>,
)
    ensures
        under_path(outer, under_path(inner, placements)) == under_path(outer + inner, placements),
{
    let left = under_path(outer, under_path(inner, placements));
    let right = under_path(outer + inner, placements);
    assert forall|i: int| 0 <= i < left.len() implies left[i] == right[i] by {
        assert(outer + (inner + placements[i].0) =~= (outer + inner) + placements[i].0);
    }
    assert(left =~= right);
}

/// Putting the empty path in front changes nothing.
pub proof fn lemma_under_empty_path(placements: Seq<Placement>)
    ensures
        under_path(Seq::empty(), placements) == placements,
{
    let left = under_path(Seq::empty(), placements);
    assert forall|i: int| 0 <= i < left.len() implies left[i] == placements[i] by {
        assert(Seq::<Matrix4>::empty() + placements[i].0 =~= placements[i].0);
    }
    assert(left =~= placements);
}

impl SceneGraph {
    /// The node's own model.
    pub open spec fn model(self) -> Matrix4 {
        match self {
            SceneGraph::Parent { model, total_children, children } => model,
            SceneGraph::Child { model, texture_handle } => model,
        }
    }

    /// The children of an inner node, in order; a leaf has none.
    pub open spec fn kids(self) -> Seq<SceneGraph> {
        match self {
            SceneGraph::Parent { model, total_children, children } => children@,
            SceneGraph::Child { model, texture_handle } => Seq::empty(),
        }
    }

    /// The number of leaves that the node records: the stored count of an
    /// inner node, one for a leaf.
    pub open spec fn recorded_children(self) -> u32 {
        match self {
            SceneGraph::Parent { model, total_children, children } => total_children,
            SceneGraph::Child { model, texture_handle } => 1,
        }
    }

    /// The children that the node has once `child` was added to it: an inner
    /// node gets it as its last child; a leaf moves down to become the first
    /// child, under the identity, and `child` the second.
    pub open spec fn kids_with(self, child: SceneGraph) -> Seq<SceneGraph> {
        match self {
            SceneGraph::Parent { model, total_children, children } => children@.push(child),
            SceneGraph::Child { model, texture_handle } => seq![
                SceneGraph::Child { model: Matrix4::spec_identity(), texture_handle },
                child,
            ],
        }
    }

    /// The placements that the node has once `child` was added to it.
    pub open spec fn leaves_with(self, child: SceneGraph) -> Seq<Placement> {
        match self {
            SceneGraph::Parent { model, total_children, children } => self.leaves() + under_model(
                model,
                child.leaves(),
            ),
            SceneGraph::Child { model, texture_handle } => seq![
                (seq![model, Matrix4::spec_identity()], texture_handle),
            ] + under_model(model, child.leaves()),
        }
    }

    /// An inner node is well formed exactly if its count is right and each
    /// of its children is well formed.
    pub proof fn lemma_well_formed_children(self)
        requires
            self is Parent,
        ensures
            self.well_formed() <==> (self.recorded_children() == self.leaf_count() && forall|i: int|
                0 <= i < self.kids().len() ==> (#[trigger] self.kids()[i]).well_formed()),
    {
        Self::lemma_all_well_formed(self.kids(), self.kids().len());
    }

    proof fn lemma_all_well_formed(children: Seq<SceneGraph>, n: nat)
        requires
            n <= children.len(),
        ensures
            all_well_formed(children, n) <==> (forall|i: int|
                0 <= i < n ==> (#[trigger] children[i]).well_formed()),
        decreases n,
    {
        if n > 0 {
            Self::lemma_all_well_formed(children, (n - 1) as nat);
        }
    }

    /// What adding a child does to the placements: on any node whose
    /// children become `kids_with(child)`, they become `leaves_with(child)`.
    pub proof fn lemma_leaves_with(self, child: SceneGraph, after: SceneGraph)
        requires
            after is Parent,
            after.model() == self.model(),
            after.kids() == self.kids_with(child),
        ensures
            after.leaves() == self.leaves_with(child),
    {
        let kids = after.kids();
        let model = self.model();
        match self {
            SceneGraph::Parent { model, total_children, children } => {
                let n = children@.len();
                lemma_leaves_of_prefix(kids, children@, n);
                assert(leaves_of(kids, n + 1) == leaves_of(kids, n) + child.leaves());
                lemma_under_path_concat(seq![model], leaves_of(children@, n), child.leaves());
            },
            SceneGraph::Child { model, texture_handle } => {
                let first = SceneGraph::Child { model: Matrix4::spec_identity(), texture_handle };
                assert(leaves_of(kids, 0) =~= Seq::<Placement>::empty());
                assert(leaves_of(kids, 1) == leaves_of(kids, 0) + first.leaves());
                assert(leaves_of(kids, 2) == leaves_of(kids, 1) + child.leaves());
                assert(leaves_of(kids, 1) =~= first.leaves());
                lemma_under_path_concat(seq![model], first.leaves(), child.leaves());
                let moved = under_model(model, first.leaves());
                assert(moved.len() == 1);
                assert(seq![model] + seq![Matrix4::spec_identity()] =~= seq![
                    model,
                    Matrix4::spec_identity(),
                ]);
                assert(moved =~= seq![(seq![model, Matrix4::spec_identity()], texture_handle)]);
            },
        }
    }

    /// An empty inner node under the identity.
    pub fn new() -> (scene: Self)
        ensures
            scene is Parent,
            scene.model() == Matrix4::spec_identity(),
            scene.recorded_children() == 0,
            scene.kids() == Seq::<SceneGraph>::empty(),
            scene.leaves() == Seq::<Placement>::empty(),
            scene.well_formed(),
    {
        let scene = SceneGraph::Parent {
            model: Matrix4::identity(),
            total_children: 0,
            children: Vec::new(),
        };
        assert(scene.kids() =~= Seq::<SceneGraph>::empty());
        assert(scene.leaves() =~= Seq::<Placement>::empty());
        scene
    }

    /// A leaf.
    pub fn new_child(model: Matrix4, texture_handle: TextureHandle) -> (scene: Self)
        ensures
            scene == (SceneGraph::Child { model, texture_handle }),
    {
        SceneGraph::Child { model, texture_handle }
    }

    pub fn get_model(&self) -> (model: &Matrix4)
        ensures
            *model == self.model(),
    {
        match self {
            SceneGraph::Parent { model, total_children, children } => model,
            SceneGraph::Child { model, texture_handle } => model,
        }
    }

    /// The node's model, for writing. Nothing else about the node changes.
    pub fn get_model_mut(&mut self) -> (model: &mut Matrix4)
        ensures
            *model == old(self).model(),
            final(self).model() == *final(model),
            (*final(self) is Parent) == (*old(self) is Parent),
            final(self).recorded_children() == old(self).recorded_children(),
            final(self).kids() == old(self).kids(),
            *old(self) matches SceneGraph::Child { model: m, texture_handle } ==> *final(self) == (
            SceneGraph::Child { model: *final(model), texture_handle }),
    {
        match self {
            SceneGraph::Parent { model, total_children, children } => model,
            SceneGraph::Child { model, texture_handle } => model,
        }
    }

    /// The number of leaves that the node records.
    pub fn num_total_children(&self) -> (n: u32)
        ensures
            n == self.recorded_children(),
            self.well_formed() ==> n == self.leaf_count(),
    {
        match self {
            SceneGraph::Parent { model, total_children, children } => *total_children,
            SceneGraph::Child { model, texture_handle } => 1,
        }
    }

    /// Adds `child` below this node. An inner node gets it as its last
    /// child. A leaf turns into an inner node with its old model and two
    /// children: itself under the identity, and `child`.
    pub fn add_child(&mut self, child: SceneGraph)
        requires
            old(self).recorded_children() + child.recorded_children() <= u32::MAX,
        ensures
            *final(self) is Parent,
            final(self).model() == old(self).model(),
            final(self).recorded_children() == old(self).recorded_children()
                + child.recorded_children(),
            final(self).kids() == old(self).kids_with(child),
            final(self).leaves() == old(self).leaves_with(child),
            old(self).well_formed() && child.well_formed() ==> final(self).well_formed(),
    {
        let ghost before = *self;
        match self {
            SceneGraph::Parent { model, total_children, children } => {
                *total_children += child.num_total_children();
                children.push(child);
            },
            SceneGraph::Child { model, texture_handle } => {
                let mut children: Vec<SceneGraph> = Vec::new();
                children.push(
                    SceneGraph::Child { model: Matrix4::identity(), texture_handle: *texture_handle },
                );
                let total_children = 1 + child.num_total_children();
                children.push(child);
                *self = SceneGraph::Parent { model: *model, total_children, children };
            },
        };
        proof {
            assert(self.kids() =~= before.kids_with(child));
            before.lemma_leaves_with(child, *self);
            if before.well_formed() && child.well_formed() {
                self.lemma_well_formed_children();
                if before is Parent {
                    before.lemma_well_formed_children();
                }
                assert(under_model(before.model(), child.leaves()).len() == child.leaves().len());
                assert(self.leaf_count() == before.leaf_count() + child.leaf_count());
                assert forall|i: int| 0 <= i < self.kids().len() implies (#[trigger] self.kids()[i]).well_formed() by {
                    if before is Parent {
                        if i < before.kids().len() {
                            assert(self.kids()[i] == before.kids()[i]);
                        } else {
                            assert(self.kids()[i] == child);
                        }
                    } else {
                        if i == 1 {
                            assert(self.kids()[i] == child);
                        }
                    }
                }
            }
        }
    }
}

/// A node that a walk has still to visit, with the models above it.
pub struct PendingNode {
    pub path: Vec<Matrix4>,
    pub node: SceneGraph,
}

/// The placements below the first `n` pending nodes, the last node first.
pub open spec fn pending_leaves(stack: Seq<PendingNode>, n: nat) -> Seq<Placement>
    decreases n,
{
    if n == 0 || n > stack.len() {
        Seq::empty()
    } else {
        under_path(stack[n - 1].path@, stack[n - 1].node.leaves()) + pending_leaves(
            stack,
            (n - 1) as nat,
        )
    }
}

/// The number of nodes in the first `n` of `children`, their descendants
/// included.
pub open spec fn nodes_of(children: Seq<SceneGraph>, n: nat) -> nat
    decreases children, n,
{
    if n == 0 || n > children.len() {
        0
    } else {
        nodes_of(children, (n - 1) as nat) + children[n - 1].node_count()
    }
}

/// The number of nodes below the first `n` pending nodes, themselves
/// included.
pub open spec fn pending_nodes(stack: Seq<PendingNode>, n: nat) -> nat
    decreases n,
{
    if n == 0 || n > stack.len() {
        0
    } else {
        pending_nodes(stack, (n - 1) as nat) + stack[n - 1].node.node_count()
    }
}

impl SceneGraph {
    /// The number of nodes of the tree.
    pub open spec fn node_count(self) -> nat
        decreases self, 0nat,
    {
        match self {
            SceneGraph::Parent { model, total_children, children } => 1 + nodes_of(
                children@,
                children@.len(),
            ),
            SceneGraph::Child { model, texture_handle } => 1,
        }
    }
}

/// What is below the first `n` pending nodes depends on those nodes only.
proof fn lemma_pending_prefix(a: Seq<PendingNode>, b: Seq<PendingNode>, n: nat)
    requires
        n <= a.len(),
        n <= b.len(),
        forall|i: int| 0 <= i < n ==> a[i] == b[i],
    ensures
        pending_leaves(a, n) == pending_leaves(b, n),
        pending_nodes(a, n) == pending_nodes(b, n),
    decreases n,
{
    if n > 0 {
        lemma_pending_prefix(a, b, (n - 1) as nat);
    }
}

/// The nodes among the first `n` children depend on those children only.
proof fn lemma_nodes_of_prefix(a: Seq<SceneGraph>, b: Seq<SceneGraph>, n: nat)
    requires
        n <= a.len(),
        n <= b.len(),
        forall|i: int| 0 <= i < n ==> a[i] == b[i],
    ensures
        nodes_of(a, n) == nodes_of(b, n),
    decreases n,
{
    if n > 0 {
        lemma_nodes_of_prefix(a, b, (n - 1) as nat);
    }
}

/// A copy of a path.
fn copy_path(path: &Vec<Matrix4>) -> (copy: Vec<Matrix4>)
    ensures
        copy@ == path@,
{
    let mut copy: Vec<Matrix4> = Vec::new();
    let mut index: usize = 0;
    while index < path.len()
        invariant
            index <= path@.len(),
            copy@ == path@.take(index as int),
        decreases path@.len() - index,
    {
        copy.push(path[index]);
        index += 1;
    }
    assert(copy@ =~= path@);
    copy
}

/// A depth-first walk over the leaves of a scene.
pub struct SceneGraphIter {
    pending: Vec<PendingNode>,
}

impl SceneGraph {
    /// A walk over the leaves, in the order of `leaves`.
    pub fn into_iter(self) -> (iter: SceneGraphIter)
        ensures
            iter.remaining() == self.leaves(),
    {
        let mut pending: Vec<PendingNode> = Vec::new();
        pending.push(PendingNode { path: Vec::new(), node: self });
        proof {
            lemma_under_empty_path(self.leaves());
            assert(pending_leaves(pending@, 0) =~= Seq::<Placement>::empty());
            assert(pending_leaves(pending@, 1) =~= self.leaves());
        }
        SceneGraphIter { pending }
    }
}

impl SceneGraphIter {
    /// The placements that `next` has yet to hand out, in order.
    pub closed spec fn remaining(&self) -> Seq<Placement> {
        pending_leaves(self.pending@, self.pending@.len())
    }

    /// Hands out the next leaf: the models from the root down to it, and
    /// its texture. `None` once every leaf was handed out.
    pub fn next(&mut self) -> (item: Option<(Vec<Matrix4>, TextureHandle)>)
        ensures
            match item {
                Some(placement) => {
                    &&& old(self).remaining().len() > 0
                    &&& placement.0@ == old(self).remaining()[0].0
                    &&& placement.1 == old(self).remaining()[0].1
                    &&& final(self).remaining() == old(self).remaining().skip(1)
                },
                None => {
                    &&& old(self).remaining().len() == 0
                    &&& final(self).remaining() == old(self).remaining()
                },
            },
    {
        let ghost start = self.remaining();
        loop
            invariant
                start == old(self).remaining(),
                self.remaining() == start,
            decreases pending_nodes(self.pending@, self.pending@.len()),
        {
            let ghost stack = self.pending@;
            match self.pending.pop() {
                None => {
                    return None;
                },
                Some(top) => {
                    let ghost rest = self.pending@;
                    let ghost base = pending_leaves(rest, rest.len());
                    let ghost base_nodes = pending_nodes(rest, rest.len());
                    proof {
                        lemma_pending_prefix(stack, rest, rest.len());
                        assert(start == under_path(top.path@, top.node.leaves()) + base);
                    }
                    let PendingNode { path, node } = top;
                    match node {
                        SceneGraph::Child { model, texture_handle } => {
                            let mut chain = path;
                            chain.push(model);
                            proof {
                                let first = under_path(path@, node.leaves());
                                assert(first.len() == 1);
                                assert(first[0].0 =~= chain@);
                                assert(start.skip(1) =~= base);
                            }
                            return Some((chain, texture_handle));
                        },
                        SceneGraph::Parent { model, total_children, children } => {
                            let mut prefix = path;
                            prefix.push(model);
                            let mut children = children;
                            let ghost all = children@;
                            let ghost tail = Seq::<Placement>::empty();
                            let ghost tail_nodes = 0nat;
                            proof {
                                assert(seq![model] =~= Seq::<Matrix4>::empty().push(model));
                                assert(prefix@ =~= path@ + seq![model]);
                                lemma_under_path_nested(
                                    path@,
                                    seq![model],
                                    leaves_of(all, all.len()),
                                );
                                assert(under_path(prefix@, tail) =~= Seq::<Placement>::empty());
                                assert(leaves_of(all, all.len()) + tail =~= leaves_of(
                                    all,
                                    all.len(),
                                ));
                            }
                            loop
                                invariant
                                    children@.len() <= all.len(),
                                    children@ == all.take(children@.len() as int),
                                    leaves_of(all, children@.len()) + tail == leaves_of(
                                        all,
                                        all.len(),
                                    ),
                                    nodes_of(all, children@.len()) + tail_nodes == nodes_of(
                                        all,
                                        all.len(),
                                    ),
                                    pending_leaves(self.pending@, self.pending@.len())
                                        == under_path(prefix@, tail) + base,
                                    pending_nodes(self.pending@, self.pending@.len()) == tail_nodes
                                        + base_nodes,
                                ensures
                                    children@.len() == 0,
                                decreases children@.len(),
                            {
                                let ghost known = children@.len();
                                let ghost before = self.pending@;
                                match children.pop() {
                                    None => {
                                        break ;
                                    },
                                    Some(child) => {
                                        let entry = PendingNode {
                                            path: copy_path(&prefix),
                                            node: child,
                                        };
                                        self.pending.push(entry);
                                        proof {
                                            assert(child == all[known - 1]);
                                            assert(children@ =~= all.take(known - 1));
                                            lemma_pending_prefix(
                                                self.pending@,
                                                before,
                                                before.len(),
                                            );
                                            lemma_under_path_concat(
                                                prefix@,
                                                child.leaves(),
                                                tail,
                                            );
                                            assert(leaves_of(all, known) == leaves_of(
                                                all,
                                                (known - 1) as nat,
                                            ) + child.leaves());
                                            assert((leaves_of(all, (known - 1) as nat)
                                                + child.leaves()) + tail =~= leaves_of(
                                                all,
                                                (known - 1) as nat,
                                            ) + (child.leaves() + tail));
                                            assert((under_path(prefix@, child.leaves())
                                                + under_path(prefix@, tail)) + base =~= under_path(
                                                prefix@,
                                                child.leaves(),
                                            ) + (under_path(prefix@, tail) + base));
                                            tail = child.leaves() + tail;
                                            tail_nodes = child.node_count() + tail_nodes;
                                        }
                                    },
                                }
                            }
                            proof {
                                assert(leaves_of(all, 0) =~= Seq::<Placement>::empty());
                                assert(tail =~= leaves_of(all, all.len()));
                            }
                        },
                    }
                },
            }
        }
    }
}

} // verus!
