//! A tree of append-only text buffers.
//!
//! A sink holds text and, in between, child sinks. A child stands where the
//! text of its parent ended when the child was made, so that text written to
//! the child later still comes out at that place. The text of a sink is what
//! an in-order walk reads: its own text, with the text of each child where the
//! child stands.
use vstd::prelude::*;

verus! {

/// The handle of a sink: its index in the tree. The root is sink 0.
pub type SinkId = usize;

/// One sink: the pieces of its own text, and its children between them.
/// Piece `k` stands before child `k`; the last piece is the one that grows.
pub struct SinkNode {
    texts: Vec<Vec<u8>>,
    children: Vec<SinkId>,
}

pub struct NodeView {
    pub texts: Seq<Seq<u8>>,
    pub children: Seq<SinkId>,
}

pub struct SinkTree {
    nodes: Vec<SinkNode>,
}

pub struct TreeView {
    pub nodes: Seq<NodeView>,
}

impl SinkNode {
    pub closed spec fn view(&self) -> NodeView {
        NodeView {
            texts: Seq::new(self.texts@.len(), |j: int| self.texts@[j]@),
            children: self.children@,
        }
    }
}

impl NodeView {
    /// A sink has one piece of text more than it has children.
    pub open spec fn wf(self) -> bool {
        self.texts.len() == self.children.len() + 1
    }

    /// The sink with `bytes` appended to its text.
    pub open spec fn write(self, bytes: Seq<u8>) -> NodeView {
        NodeView {
            texts: self.texts.update(self.texts.len() - 1, self.texts.last() + bytes),
            children: self.children,
        }
    }

    /// The sink with child `c` put at the end of its text.
    pub open spec fn adopt(self, c: SinkId) -> NodeView {
        NodeView { texts: self.texts.push(Seq::empty()), children: self.children.push(c) }
    }

    /// A sink without text or children.
    pub open spec fn empty() -> NodeView {
        NodeView { texts: seq![Seq::empty()], children: Seq::empty() }
    }
}

impl TreeView {
    /// Whether `id` is a sink of the tree.
    pub open spec fn has(self, id: SinkId) -> bool {
        id < self.nodes.len()
    }

    /// Every sink is well formed, and every child was made after its parent.
    pub open spec fn wf(self) -> bool {
        &&& 1 <= self.nodes.len() <= usize::MAX
        &&& forall|i: int|
            0 <= i < self.nodes.len() ==> {
                &&& (#[trigger] self.nodes[i]).wf()
                &&& forall|k: int|
                    0 <= k < self.nodes[i].children.len() ==> i < #[trigger] self.nodes[i].children[k]
                        < self.nodes.len()
            }
    }

    /// A tree with a root and nothing in it.
    pub open spec fn fresh() -> TreeView {
        TreeView { nodes: seq![NodeView::empty()] }
    }

    /// The tree after `bytes` were written to sink `id`.
    pub open spec fn write(self, id: SinkId, bytes: Seq<u8>) -> TreeView {
        TreeView { nodes: self.nodes.update(id as int, self.nodes[id as int].write(bytes)) }
    }

    /// The handle that the next child will get.
    pub open spec fn next_id(self) -> SinkId {
        self.nodes.len() as SinkId
    }

    /// The tree after sink `id` got a new child, which is `self.next_id()`.
    pub open spec fn spawn(self, id: SinkId) -> TreeView {
        TreeView {
            nodes: self.nodes.update(id as int, self.nodes[id as int].adopt(self.next_id())).push(
                NodeView::empty(),
            ),
        }
    }

    /// The text of sink `id` from its piece `k` on: piece `k`, the text of
    /// child `k`, and so on to the last piece.
    pub open spec fn text_from(self, id: int, k: int) -> Seq<u8>
        decreases self.nodes.len() - id, self.nodes[id].children.len() - k,
    {
        if 0 <= id < self.nodes.len() && 0 <= k < self.nodes[id].children.len() && id
            < self.nodes[id].children[k] < self.nodes.len() {
            self.nodes[id].texts[k] + self.text_from(self.nodes[id].children[k] as int, 0)
                + self.text_from(id, k + 1)
        } else if 0 <= id < self.nodes.len() && k == self.nodes[id].children.len() {
            self.nodes[id].texts[k]
        } else {
            Seq::empty()
        }
    }

    /// The text of sink `id`, read in order with the text of its children.
    pub open spec fn text(self, id: SinkId) -> Seq<u8> {
        self.text_from(id as int, 0)
    }
}

impl SinkTree {
    pub closed spec fn view(&self) -> TreeView {
        TreeView { nodes: Seq::new(self.nodes@.len(), |i: int| self.nodes@[i]@) }
    }

    /// The tree is well formed and small enough to take another sink.
    pub open spec fn wf(&self) -> bool {
        self@.wf()
    }

    /// A tree that holds only its root, sink 0, with no text.
    pub fn new() -> (r: SinkTree)
        ensures
            r.wf(),
            r@ == TreeView::fresh(),
    {
        let mut texts: Vec<Vec<u8>> = Vec::new();
        texts.push(Vec::new());
        let mut nodes: Vec<SinkNode> = Vec::new();
        nodes.push(SinkNode { texts, children: Vec::new() });
        let r = SinkTree { nodes };
        proof {
            assert(r@.nodes.len() == 1);
            assert(r@.nodes[0].texts =~~= NodeView::empty().texts);
            assert(r@.nodes[0].children =~~= NodeView::empty().children);
            assert(r@.nodes =~~= TreeView::fresh().nodes);
        }
        r
    }

    /// The number of sinks in the tree.
    pub fn len(&self) -> (n: usize)
        ensures
            n == self@.nodes.len(),
    {
        self.nodes.len()
    }

    /// Makes a child of sink `parent` at the end of the parent's text, and
    /// returns the child's handle. The text of every sink stays as it was.
    pub fn spawn(&mut self, parent: SinkId) -> (id: SinkId)
        requires
            old(self).wf(),
            old(self)@.has(parent),
        ensures
            final(self).wf(),
            id == old(self)@.next_id(),
            final(self)@ == old(self)@.spawn(parent),
            final(self)@.has(id),
            forall|j: SinkId| old(self)@.has(j) ==> final(self)@.has(j),
    {
        let id: usize = self.nodes.len();
        let ghost before = self@;
        self.nodes[parent].texts.push(Vec::new());
        self.nodes[parent].children.push(id);
        let mut texts: Vec<Vec<u8>> = Vec::new();
        texts.push(Vec::new());
        self.nodes.push(SinkNode { texts, children: Vec::new() });
        let total: usize = self.nodes.len();
        proof {
            let after = self@;
            let want = before.spawn(parent);
            assert(after.nodes.len() == want.nodes.len());
            assert forall|i: int| 0 <= i < after.nodes.len() implies after.nodes[i] =~~= want.nodes[i] by {
                if i == parent as int {
                    assert(after.nodes[i].texts =~~= want.nodes[i].texts);
                    assert(after.nodes[i].children =~~= want.nodes[i].children);
                } else if i == id as int {
                    assert(after.nodes[i].texts =~~= want.nodes[i].texts);
                    assert(after.nodes[i].children =~~= want.nodes[i].children);
                } else {
                    assert(after.nodes[i] == before.nodes[i]);
                }
            }
            assert(after.nodes =~~= want.nodes);
            lemma_spawn_wf(before, parent);
        }
        id
    }

    /// Appends `bytes` to the text of sink `id`.
    pub fn write(&mut self, id: SinkId, bytes: &[u8])
        requires
            old(self).wf(),
            old(self)@.has(id),
        ensures
            final(self).wf(),
            final(self)@ == old(self)@.write(id, bytes@),
            final(self)@.nodes.len() == old(self)@.nodes.len(),
    {
        let ghost before = self@;
        assert(before.nodes[id as int].wf());
        let k: usize = self.nodes[id].texts.len() - 1;
        self.nodes[id].texts[k].extend_from_slice(bytes);
        proof {
            let after = self@;
            let want = before.write(id, bytes@);
            assert forall|i: int| 0 <= i < after.nodes.len() implies after.nodes[i] =~~= want.nodes[i] by {
                if i == id as int {
                    assert(after.nodes[i].texts =~~= want.nodes[i].texts);
                } else {
                    assert(after.nodes[i] == before.nodes[i]);
                }
            }
            assert(after.nodes =~~= want.nodes);
            lemma_write_wf(before, id, bytes@);
        }
    }

    /// Appends `bytes` and a line feed to the text of sink `id`.
    pub fn writeln(&mut self, id: SinkId, bytes: &[u8])
        requires
            old(self).wf(),
            old(self)@.has(id),
        ensures
            final(self).wf(),
            final(self)@ == old(self)@.write(id, bytes@).write(id, seq![10u8]),
            final(self)@.nodes.len() == old(self)@.nodes.len(),
    {
        self.write(id, bytes);
        let mut nl: Vec<u8> = Vec::new();
        nl.push(10u8);
        assert(nl@ =~= seq![10u8]);
        self.write(id, nl.as_slice());
    }

    /// Appends the text of sink `id`, read in order, to `out`.
    pub fn read_into(&self, id: SinkId, out: &mut Vec<u8>)
        requires
            self.wf(),
            self@.has(id),
        ensures
            final(out)@ == old(out)@ + self@.text(id),
        decreases self@.nodes.len() - id,
    {
        let ghost t = self@;
        assert(t.nodes[id as int].wf());
        let n: usize = self.nodes[id].children.len();
        let mut k: usize = 0;
        while k < n
            invariant
                self.wf(),
                t == self@,
                t.has(id),
                n == t.nodes[id as int].children.len(),
                n == self.nodes@[id as int].children@.len(),
                n + 1 == self.nodes@[id as int].texts@.len(),
                0 <= k <= n,
                out@ + t.text_from(id as int, k as int) == old(out)@ + t.text(id),
            decreases n - k,
        {
            let ghost o0 = out@;
            let child: usize = self.nodes[id].children[k];
            assert(child == t.nodes[id as int].children[k as int]);
            assert(id < child < t.nodes.len());
            out.extend_from_slice(self.nodes[id].texts[k].as_slice());
            assert(self.nodes@[id as int].texts@[k as int]@ == t.nodes[id as int].texts[k as int]);
            self.read_into(child, out);
            assert(out@ + t.text_from(id as int, k + 1) =~= o0 + t.text_from(id as int, k as int));
            k += 1;
        }
        let ghost o1 = out@;
        out.extend_from_slice(self.nodes[id].texts[k].as_slice());
        assert(self.nodes@[id as int].texts@[k as int]@ == t.nodes[id as int].texts[k as int]);
        assert(out@ =~= o1 + t.text_from(id as int, k as int));
    }

    /// The text of the whole tree: that of the root, read in order.
    pub fn get(&self) -> (r: Vec<u8>)
        requires
            self.wf(),
        ensures
            r@ == self@.text(0),
    {
        let mut r: Vec<u8> = Vec::new();
        self.read_into(0, &mut r);
        assert(r@ =~= self@.text(0));
        r
    }
}

/// Writing keeps a tree well formed.
pub proof fn lemma_write_wf(t: TreeView, id: SinkId, bytes: Seq<u8>)
    requires
        t.wf(),
        t.has(id),
    ensures
        t.write(id, bytes).wf(),
{
    let u = t.write(id, bytes);
    assert forall|i: int| 0 <= i < u.nodes.len() implies {
        &&& (#[trigger] u.nodes[i]).wf()
        &&& forall|k: int|
            0 <= k < u.nodes[i].children.len() ==> i < #[trigger] u.nodes[i].children[k]
                < u.nodes.len()
    } by {
        assert(t.nodes[i].wf());
    }
}

/// Spawning keeps a tree well formed.
pub proof fn lemma_spawn_wf(t: TreeView, id: SinkId)
    requires
        t.wf(),
        t.has(id),
        t.nodes.len() < usize::MAX,
    ensures
        t.spawn(id).wf(),
{
    let u = t.spawn(id);
    assert forall|i: int| 0 <= i < u.nodes.len() implies {
        &&& (#[trigger] u.nodes[i]).wf()
        &&& forall|k: int|
            0 <= k < u.nodes[i].children.len() ==> i < #[trigger] u.nodes[i].children[k]
                < u.nodes.len()
    } by {
        if i < t.nodes.len() {
            assert(t.nodes[i].wf());
            assert forall|k: int| 0 <= k < u.nodes[i].children.len() implies i
                < #[trigger] u.nodes[i].children[k] < u.nodes.len() by {
                if k < t.nodes[i].children.len() {
                    assert(u.nodes[i].children[k] == t.nodes[i].children[k]);
                }
            }
        }
    }
}

impl TreeView {
    /// Whether sink `id` is child `k` of sink `j` or a later child, or stands
    /// below one of them.
    pub open spec fn below_from(self, j: int, k: int, id: int) -> bool
        decreases self.nodes.len() - j, self.nodes[j].children.len() - k,
    {
        if 0 <= j < self.nodes.len() && 0 <= k < self.nodes[j].children.len() && j
            < self.nodes[j].children[k] < self.nodes.len() {
            id == self.nodes[j].children[k] || self.below_from(
                self.nodes[j].children[k] as int,
                0,
                id,
            ) || self.below_from(j, k + 1, id)
        } else {
            false
        }
    }

    /// Whether sink `id` is sink `j` or stands anywhere below it.
    pub open spec fn below(self, j: int, id: int) -> bool {
        id == j || self.below_from(j, 0, id)
    }
}

/// What stands below a child of a sink was made after the sink.
pub proof fn lemma_below_from_is_later(t: TreeView, j: int, k: int, id: int)
    requires
        0 <= j,
    ensures
        t.below_from(j, k, id) ==> id > j,
    decreases t.nodes.len() - j, t.nodes[j].children.len() - k,
{
    if 0 <= j < t.nodes.len() && 0 <= k < t.nodes[j].children.len() && j
        < t.nodes[j].children[k] < t.nodes.len() {
        lemma_below_from_is_later(t, t.nodes[j].children[k] as int, 0, id);
        lemma_below_from_is_later(t, j, k + 1, id);
    }
}

/// What stands below a sink is the sink or was made after it.
pub proof fn lemma_below_is_later(t: TreeView, j: int, id: int)
    requires
        0 <= j,
    ensures
        t.below(j, id) ==> id >= j,
{
    lemma_below_from_is_later(t, j, 0, id);
}

/// A write changes no text but that of the sink and of the sinks above it:
/// the text of a sink that the written sink does not stand below stays as
/// it is.
pub proof fn lemma_write_elsewhere(t: TreeView, id: SinkId, bytes: Seq<u8>, j: int, k: int)
    requires
        t.wf(),
        t.has(id),
        0 <= j < t.nodes.len(),
        0 <= k,
        j != id,
        !t.below_from(j, k, id as int),
    ensures
        t.write(id, bytes).text_from(j, k) == t.text_from(j, k),
    decreases t.nodes.len() - j, t.nodes[j].children.len() - k,
{
    let u = t.write(id, bytes);
    assert(u.nodes[j] == t.nodes[j]);
    assert(t.nodes[j].wf());
    if k < t.nodes[j].children.len() {
        let c = t.nodes[j].children[k];
        assert(j < c < t.nodes.len());
        assert(!t.below(c as int, id as int));
        assert(c != id);
        lemma_write_elsewhere(t, id, bytes, c as int, 0);
        lemma_write_elsewhere(t, id, bytes, j, k + 1);
    }
}

/// What is written to a sink comes at the end of its text.
pub proof fn lemma_write_appends(t: TreeView, id: SinkId, bytes: Seq<u8>)
    requires
        t.wf(),
        t.has(id),
    ensures
        t.write(id, bytes).text(id) == t.text(id) + bytes,
{
    lemma_write_appends_from(t, id, bytes, 0);
}

/// The part of `lemma_write_appends` for the text from piece `k` on.
pub proof fn lemma_write_appends_from(t: TreeView, id: SinkId, bytes: Seq<u8>, k: int)
    requires
        t.wf(),
        t.has(id),
        0 <= k <= t.nodes[id as int].children.len(),
    ensures
        t.write(id, bytes).text_from(id as int, k) == t.text_from(id as int, k) + bytes,
    decreases t.nodes[id as int].children.len() - k,
{
    let u = t.write(id, bytes);
    let node = t.nodes[id as int];
    assert(node.wf());
    if k < node.children.len() {
        let c = node.children[k];
        assert(id < c < t.nodes.len());
        lemma_below_is_later(t, c as int, id as int);
        lemma_write_elsewhere(t, id, bytes, c as int, 0);
        lemma_write_appends_from(t, id, bytes, k + 1);
        assert(u.text_from(id as int, k) =~= t.text_from(id as int, k) + bytes);
    } else {
        assert(u.text_from(id as int, k) =~= t.text_from(id as int, k) + bytes);
    }
}

/// A new child has no text, and making it changes the text of no sink.
pub proof fn lemma_spawn_keeps_texts(t: TreeView, parent: SinkId, j: int, k: int)
    requires
        t.wf(),
        t.has(parent),
        t.nodes.len() < usize::MAX,
        0 <= j < t.nodes.len(),
        0 <= k <= t.nodes[j].children.len(),
    ensures
        t.spawn(parent).text_from(j, k) == t.text_from(j, k),
        t.spawn(parent).text(t.next_id()) == Seq::<u8>::empty(),
    decreases t.nodes.len() - j, t.nodes[j].children.len() - k,
{
    let u = t.spawn(parent);
    let n = t.next_id();
    assert(u.nodes[n as int] == NodeView::empty());
    assert(u.text_from(n as int, 0) =~= Seq::<u8>::empty());
    assert(t.nodes[j].wf());
    if k < t.nodes[j].children.len() {
        let c = t.nodes[j].children[k];
        assert(j < c < t.nodes.len());
        assert(u.nodes[j].children[k] == c);
        assert(u.nodes[j].texts[k] == t.nodes[j].texts[k]);
        lemma_spawn_keeps_texts(t, parent, c as int, 0);
        lemma_spawn_keeps_texts(t, parent, j, k + 1);
    } else if j == parent as int {
        assert(u.nodes[j].children[k] == n);
        assert(u.nodes[j].texts[k] == t.nodes[j].texts[k]);
        assert(u.nodes[j].texts[k + 1] == Seq::<u8>::empty());
        assert(u.text_from(j, k + 1) =~= Seq::<u8>::empty());
        assert(u.text_from(j, k) =~= t.text_from(j, k));
    } else {
        assert(u.nodes[j] == t.nodes[j]);
    }
}

/// The text of a sink with one child is its text before the child, the
/// text of the child, and its text behind the child: what is written to the
/// child later comes out where the child was made.
pub proof fn lemma_child_stands_in_place(t: TreeView, id: SinkId)
    requires
        t.wf(),
        t.has(id),
        t.nodes[id as int].children.len() == 1,
    ensures
        t.text(id) == t.nodes[id as int].texts[0] + t.text(t.nodes[id as int].children[0])
            + t.nodes[id as int].texts[1],
{
    assert(t.nodes[id as int].wf());
    assert(id < t.nodes[id as int].children[0] < t.nodes.len());
    assert(t.text_from(id as int, 1) == t.nodes[id as int].texts[1]);
}

} // verus!
