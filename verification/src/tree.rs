//! The syntax-tree data model: an arena of nodes addressed by stable indices.
//!
//! Every node carries a kind and a half-open byte range `[start, end)` into
//! the tree's source text. Parent, child and sibling relations are index-based
//! lookups into the arena. A closed kind enumeration classifies each node as
//! trivia (whitespace, comments), punctuation, or a semantic item.

use vstd::prelude::*;
use vstd::pervasive::VecAdditionalExecFns;

verus! {

/// The closed set of node categories. `Composite` is the only kind that may
/// have children; every other kind is a leaf token.
#[derive(Clone, Copy, PartialEq, Eq, Structural, Debug)]
pub enum NodeKind {
    /// The separator the flip edit acts around.
    Comma,
    Semicolon,
    OpenParen,
    CloseParen,
    OpenBrace,
    CloseBrace,
    OpenBracket,
    CloseBracket,
    /// Any other punctuation token (an operator, a colon, an arrow).
    OtherPunct,
    /// Whitespace between tokens: trivia.
    Whitespace,
    /// A comment: trivia.
    Comment,
    Ident,
    Literal,
    Keyword,
    /// An interior node covering a subtree (a parameter, an expression, a list).
    Composite,
}

/// The two symmetric navigation queries over siblings.
#[derive(Clone, Copy, PartialEq, Eq, Structural, Debug)]
pub enum Direction {
    Prev,
    Next,
}

/// Trivia carries no semantic weight and is skipped when looking for the
/// previous or next meaningful sibling.
pub open spec fn is_trivia(k: NodeKind) -> bool {
    k == NodeKind::Whitespace || k == NodeKind::Comment
}

/// Punctuation kinds, used by the applicability rule that refuses a flip
/// whose right-hand neighbor is itself punctuation (a trailing separator).
pub open spec fn is_punct(k: NodeKind) -> bool {
    match k {
        NodeKind::Comma => true,
        NodeKind::Semicolon => true,
        NodeKind::OpenParen => true,
        NodeKind::CloseParen => true,
        NodeKind::OpenBrace => true,
        NodeKind::CloseBrace => true,
        NodeKind::OpenBracket => true,
        NodeKind::CloseBracket => true,
        NodeKind::OtherPunct => true,
        NodeKind::Whitespace => false,
        NodeKind::Comment => false,
        NodeKind::Ident => false,
        NodeKind::Literal => false,
        NodeKind::Keyword => false,
        NodeKind::Composite => false,
    }
}

/// Runtime classification matching `is_trivia`.
pub fn kind_is_trivia(k: NodeKind) -> (r: bool)
    ensures
        r == is_trivia(k),
{
    k == NodeKind::Whitespace || k == NodeKind::Comment
}

/// Runtime classification matching `is_punct`.
pub fn kind_is_punct(k: NodeKind) -> (r: bool)
    ensures
        r == is_punct(k),
{
    match k {
        NodeKind::Comma => true,
        NodeKind::Semicolon => true,
        NodeKind::OpenParen => true,
        NodeKind::CloseParen => true,
        NodeKind::OpenBrace => true,
        NodeKind::CloseBrace => true,
        NodeKind::OpenBracket => true,
        NodeKind::CloseBracket => true,
        NodeKind::OtherPunct => true,
        _ => false,
    }
}

/// One arena slot. `children` lists the indices of this node's children in
/// text order; `idx_in_parent` is this node's position in its parent's list.
pub struct Node {
    pub kind: NodeKind,
    pub start: usize,
    pub end: usize,
    pub parent: Option<usize>,
    pub idx_in_parent: usize,
    pub children: Vec<usize>,
}

/// An ordered, immutable tree over a source text. Node `0` is the root.
pub struct SyntaxTree {
    pub text: Vec<u8>,
    pub nodes: Vec<Node>,
}

impl SyntaxTree {
    /// Structural soundness of the arena slot `i`: range within the text,
    /// parent and child links mutually consistent, child ranges nested in the
    /// parent's range, sibling ranges non-overlapping and in text order, and
    /// only `Composite` nodes carrying children.
    pub open spec fn node_ok(self, i: int) -> bool {
        let n = self.nodes@[i];
        &&& n.start <= n.end <= self.text@.len()
        &&& match n.parent {
            Some(p) => {
                &&& p < self.nodes@.len()
                &&& n.idx_in_parent < self.nodes@[p as int].children@.len()
                &&& self.nodes@[p as int].children@[n.idx_in_parent as int] == i
                &&& self.nodes@[p as int].start <= n.start
                &&& n.end <= self.nodes@[p as int].end
            },
            None => true,
        }
        &&& n.kind != NodeKind::Composite ==> n.children@.len() == 0
        &&& forall|j: int|
            0 <= j < n.children@.len() ==> {
                &&& #[trigger] n.children@[j] < self.nodes@.len()
                &&& self.nodes@[n.children@[j] as int].parent == Some(i as usize)
                &&& self.nodes@[n.children@[j] as int].idx_in_parent == j
            }
        &&& forall|j1: int, j2: int|
            #![trigger n.children@[j1], n.children@[j2]]
            0 <= j1 < j2 < n.children@.len()
                ==> self.nodes@[n.children@[j1] as int].end
                    <= self.nodes@[n.children@[j2] as int].start
    }

    /// Well-formedness of the whole tree: every slot is sound.
    pub open spec fn wf(self) -> bool {
        forall|i: int| 0 <= i < self.nodes@.len() ==> #[trigger] self.node_ok(i)
    }

    /// A fresh tree over `text`, holding only a root `Composite` node that
    /// spans the whole text.
    pub fn new(text: Vec<u8>) -> (t: SyntaxTree)
        ensures
            t.wf(),
            t.text@ == text@,
            t.nodes@.len() == 1,
            t.nodes@[0].kind == NodeKind::Composite,
            t.nodes@[0].start == 0,
            t.nodes@[0].end == text@.len(),
            t.nodes@[0].parent is None,
            t.nodes@[0].children@.len() == 0,
    {
        let len = text.len();
        let root = Node {
            kind: NodeKind::Composite,
            start: 0,
            end: len,
            parent: None,
            idx_in_parent: 0,
            children: Vec::new(),
        };
        let mut nodes: Vec<Node> = Vec::new();
        nodes.push(root);
        let t = SyntaxTree { text, nodes };
        assert forall|i: int| 0 <= i < t.nodes@.len() implies #[trigger] t.node_ok(i) by {
            assert(t.nodes@[0].children@.len() == 0);
        }
        t
    }

    /// Whether a child covering `[start, end)` may be appended under
    /// `parent`: the parent exists and is `Composite`, the range is a valid
    /// sub-range of the text nested in the parent's range, and it begins at
    /// or after the end of the parent's current last child.
    pub open spec fn can_add_child(self, parent: int, start: int, end: int) -> bool {
        &&& 0 <= parent < self.nodes@.len()
        &&& self.nodes@[parent].kind == NodeKind::Composite
        &&& start <= end <= self.text@.len()
        &&& self.nodes@[parent].start <= start
        &&& end <= self.nodes@[parent].end
        &&& (self.nodes@[parent].children@.len() == 0 || self.nodes@[self.nodes@[parent].children@[
            self.nodes@[parent].children@.len() - 1] as int].end <= start)
    }

    /// Append a new node of kind `kind` covering `[start, end)` as the last
    /// child of `parent`. Returns the new node's index, or `None` — leaving
    /// the tree unchanged — when the placement is invalid.
    pub fn add_child(&mut self, parent: usize, kind: NodeKind, start: usize, end: usize) -> (r:
        Option<usize>)
        requires
            old(self).wf(),
        ensures
            final(self).wf(),
            final(self).text@ == old(self).text@,
            r is Some <==> old(self).can_add_child(parent as int, start as int, end as int),
            r is None ==> *final(self) == *old(self),
            (r matches Some(id) ==> {
                &&& id == old(self).nodes@.len()
                &&& final(self).nodes@.len() == old(self).nodes@.len() + 1
                &&& final(self).nodes@[id as int].kind == kind
                &&& final(self).nodes@[id as int].start == start
                &&& final(self).nodes@[id as int].end == end
                &&& final(self).nodes@[id as int].parent == Some(parent)
                &&& final(self).nodes@[id as int].idx_in_parent == old(self).nodes@[
                    parent as int].children@.len()
                &&& final(self).nodes@[id as int].children@.len() == 0
                &&& final(self).nodes@[parent as int].children@ == old(self).nodes@[
                    parent as int].children@.push(id)
                &&& final(self).nodes@[parent as int].kind == old(self).nodes@[parent as int].kind
                &&& final(self).nodes@[parent as int].start == old(self).nodes@[
                    parent as int].start
                &&& final(self).nodes@[parent as int].end == old(self).nodes@[parent as int].end
                &&& final(self).nodes@[parent as int].parent == old(self).nodes@[
                    parent as int].parent
                &&& forall|i: int|
                    0 <= i < old(self).nodes@.len() && i != parent ==> final(self).nodes@[i]
                        == old(self).nodes@[i]
            }),
    {
        if parent >= self.nodes.len() {
            return None;
        }
        proof {
            assert(self.node_ok(parent as int));
        }
        if !(self.nodes[parent].kind == NodeKind::Composite) {
            return None;
        }
        if !(start <= end && end <= self.text.len()) {
            return None;
        }
        if !(self.nodes[parent].start <= start && end <= self.nodes[parent].end) {
            return None;
        }
        let ccount = self.nodes[parent].children.len();
        if ccount > 0 {
            let last = self.nodes[parent].children[ccount - 1];
            if !(self.nodes[last].end <= start) {
                return None;
            }
        }
        let id = self.nodes.len();
        let child = Node {
            kind,
            start,
            end,
            parent: Some(parent),
            idx_in_parent: ccount,
            children: Vec::new(),
        };
        self.nodes.push(child);
        let mut taken = Node {
            kind: NodeKind::Composite,
            start: 0,
            end: 0,
            parent: None,
            idx_in_parent: 0,
            children: Vec::new(),
        };
        self.nodes.set_and_swap(parent, &mut taken);
        taken.children.push(id);
        self.nodes.set_and_swap(parent, &mut taken);
        proof {
            let pre = *old(self);
            let post = *self;
            assert(post.nodes@[parent as int].children@ == pre.nodes@[
                parent as int].children@.push(id as usize));
            let pc = pre.nodes@[parent as int].children@;
            assert forall|i: int| 0 <= i < post.nodes@.len() implies #[trigger] post.node_ok(i) by {
                if i == id {
                    assert(pre.node_ok(parent as int));
                    if pc.len() > 0 {
                        assert(pre.node_ok(pc[pc.len() - 1] as int));
                    }
                    assert(post.nodes@[parent as int].children@[pc.len() as int] == id as usize);
                } else if i == parent {
                    assert(pre.node_ok(parent as int));
                    assert forall|j1: int, j2: int|
                        #![trigger post.nodes@[i].children@[j1], post.nodes@[i].children@[j2]]
                        0 <= j1 < j2 < post.nodes@[i].children@.len() implies post.nodes@[
                        post.nodes@[i].children@[j1] as int].end <= post.nodes@[post.nodes@[
                        i].children@[j2] as int].start by {
                        assert(pre.node_ok(parent as int));
                        if j2 < pc.len() {
                            assert(pre.nodes@[pc[j1] as int].end <= pre.nodes@[pc[j2] as int].start);
                            assert(pc[j1] != id && pc[j2] != id);
                        } else {
                            assert(j2 == pc.len() && j1 < pc.len());
                            assert(pre.node_ok(pc[j1] as int));
                            if j1 < pc.len() - 1 {
                                assert(pre.nodes@[pc[j1] as int].end <= pre.nodes@[pc[pc.len()
                                    - 1] as int].start);
                                assert(pre.node_ok(pc[pc.len() - 1] as int));
                            }
                        }
                    }
                    assert forall|j: int| 0 <= j < post.nodes@[i].children@.len() implies {
                        &&& #[trigger] post.nodes@[i].children@[j] < post.nodes@.len()
                        &&& post.nodes@[post.nodes@[i].children@[j] as int].parent == Some(
                            i as usize)
                        &&& post.nodes@[post.nodes@[i].children@[j] as int].idx_in_parent == j
                    } by {
                        assert(pre.node_ok(parent as int));
                        if j < pc.len() {
                            assert(pc[j] < pre.nodes@.len());
                        }
                    }
                } else {
                    assert(pre.node_ok(i));
                    assert forall|j: int| 0 <= j < post.nodes@[i].children@.len() implies {
                        &&& #[trigger] post.nodes@[i].children@[j] < post.nodes@.len()
                        &&& post.nodes@[post.nodes@[i].children@[j] as int].parent == Some(
                            i as usize)
                        &&& post.nodes@[post.nodes@[i].children@[j] as int].idx_in_parent == j
                    } by {
                        assert(pre.node_ok(i));
                        assert(pre.nodes@[i].children@[j] < pre.nodes@.len());
                    }
                    assert forall|j1: int, j2: int|
                        #![trigger post.nodes@[i].children@[j1], post.nodes@[i].children@[j2]]
                        0 <= j1 < j2 < post.nodes@[i].children@.len() implies post.nodes@[
                        post.nodes@[i].children@[j1] as int].end <= post.nodes@[post.nodes@[
                        i].children@[j2] as int].start by {
                        assert(pre.node_ok(i));
                        assert(pre.nodes@[pre.nodes@[i].children@[j1] as int].end <= pre.nodes@[
                            pre.nodes@[i].children@[j2] as int].start);
                    }
                }
            }
        }
        Some(id)
    }

    /// Number of nodes in the arena.
    pub fn node_count(&self) -> (r: usize)
        ensures
            r == self.nodes@.len(),
    {
        self.nodes.len()
    }

    /// The kind of node `id`.
    pub fn kind_of(&self, id: usize) -> (r: NodeKind)
        requires
            id < self.nodes@.len(),
        ensures
            r == self.nodes@[id as int].kind,
    {
        self.nodes[id].kind
    }

    /// The start offset of node `id`'s range.
    pub fn start_of(&self, id: usize) -> (r: usize)
        requires
            id < self.nodes@.len(),
        ensures
            r == self.nodes@[id as int].start,
    {
        self.nodes[id].start
    }

    /// A copy of the bytes that node `id`'s range covers.
    pub fn text_of(&self, id: usize) -> (r: Vec<u8>)
        requires
            self.wf(),
            id < self.nodes@.len(),
        ensures
            r@ == self.text@.subrange(
                self.nodes@[id as int].start as int,
                self.nodes@[id as int].end as int,
            ),
    {
        proof {
            assert(self.node_ok(id as int));
        }
        let mut r: Vec<u8> = Vec::new();
        crate::edit::push_range(&mut r, &self.text, self.nodes[id].start, self.nodes[id].end);
        r
    }

    /// The end offset of node `id`'s range.
    pub fn end_of(&self, id: usize) -> (r: usize)
        requires
            id < self.nodes@.len(),
        ensures
            r == self.nodes@[id as int].end,
    {
        self.nodes[id].end
    }
}

} // verus!
