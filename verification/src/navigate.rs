//! The tree navigator: from any node, find the nearest preceding or
//! following *semantic* sibling, skipping trivia.

use vstd::prelude::*;

use crate::tree::Direction;
use crate::tree::NodeKind;
use crate::tree::SyntaxTree;
use crate::tree::is_trivia;
use crate::tree::kind_is_trivia;

verus! {

impl SyntaxTree {
    /// The `j`-th child of node `p`.
    pub open spec fn child(self, p: int, j: int) -> usize {
        self.nodes@[p].children@[j]
    }

    /// The kind of the `j`-th child of node `p`.
    pub open spec fn child_kind(self, p: int, j: int) -> NodeKind {
        self.nodes@[self.child(p, j) as int].kind
    }

    /// The first non-trivia child of `p` at position `j` or later, if any.
    pub open spec fn next_semantic_from(self, p: int, j: int) -> Option<usize>
        decreases self.nodes@[p].children@.len() - j,
    {
        if j < 0 || j >= self.nodes@[p].children@.len() {
            None
        } else if !is_trivia(self.child_kind(p, j)) {
            Some(self.child(p, j))
        } else {
            self.next_semantic_from(p, j + 1)
        }
    }

    /// The last non-trivia child of `p` at position `j` or earlier, if any.
    pub open spec fn prev_semantic_from(self, p: int, j: int) -> Option<usize>
        decreases j + 1,
    {
        if j < 0 || j >= self.nodes@[p].children@.len() {
            None
        } else if !is_trivia(self.child_kind(p, j)) {
            Some(self.child(p, j))
        } else {
            self.prev_semantic_from(p, j - 1)
        }
    }

    /// The nearest semantic sibling of node `id` in direction `dir`: the
    /// first sibling in that direction whose kind is not trivia. `None` when
    /// `id` is the root or no such sibling exists at this level.
    pub open spec fn semantic_sibling(self, id: int, dir: Direction) -> Option<usize> {
        match self.nodes@[id].parent {
            None => None,
            Some(p) => match dir {
                Direction::Prev => self.prev_semantic_from(
                    p as int,
                    self.nodes@[id].idx_in_parent - 1,
                ),
                Direction::Next => self.next_semantic_from(
                    p as int,
                    self.nodes@[id].idx_in_parent + 1,
                ),
            },
        }
    }

    /// Walk the siblings of `id` in direction `dir` and return the first one
    /// that is not trivia, or `None` if the siblings run out first.
    pub fn find_semantic_sibling(&self, id: usize, dir: Direction) -> (r: Option<usize>)
        requires
            self.wf(),
            id < self.nodes@.len(),
        ensures
            r == self.semantic_sibling(id as int, dir),
    {
        proof {
            assert(self.node_ok(id as int));
        }
        let parent = self.nodes[id].parent;
        match parent {
            None => None,
            Some(p) => {
                proof {
                    assert(self.node_ok(p as int));
                }
                let jc = self.nodes[id].idx_in_parent;
                let clen = self.nodes[p].children.len();
                match dir {
                    Direction::Next => {
                        let mut j: usize = jc + 1;
                        loop
                            invariant
                                self.wf(),
                                dir == Direction::Next,
                                id < self.nodes@.len(),
                                p < self.nodes@.len(),
                                self.nodes@[id as int].parent == Some(p),
                                jc == self.nodes@[id as int].idx_in_parent,
                                clen == self.nodes@[p as int].children@.len(),
                                jc + 1 <= j <= clen,
                                self.next_semantic_from(p as int, jc + 1)
                                    == self.next_semantic_from(p as int, j as int),
                            decreases clen - j,
                        {
                            if j >= clen {
                                return None;
                            }
                            proof {
                                assert(self.node_ok(p as int));
                            }
                            let c = self.nodes[p].children[j];
                            if !kind_is_trivia(self.nodes[c].kind) {
                                return Some(c);
                            }
                            j = j + 1;
                        }
                    },
                    Direction::Prev => {
                        let mut j: usize = jc;
                        loop
                            invariant
                                self.wf(),
                                dir == Direction::Prev,
                                id < self.nodes@.len(),
                                p < self.nodes@.len(),
                                self.nodes@[id as int].parent == Some(p),
                                jc == self.nodes@[id as int].idx_in_parent,
                                clen == self.nodes@[p as int].children@.len(),
                                j <= jc < clen,
                                self.prev_semantic_from(p as int, jc - 1)
                                    == self.prev_semantic_from(p as int, j - 1),
                            decreases j,
                        {
                            if j == 0 {
                                return None;
                            }
                            proof {
                                assert(self.node_ok(p as int));
                            }
                            let c = self.nodes[p].children[j - 1];
                            if !kind_is_trivia(self.nodes[c].kind) {
                                return Some(c);
                            }
                            j = j - 1;
                        }
                    },
                }
            },
        }
    }
}

/// Whatever `next_semantic_from` returns is a real child of `p`, sits at or
/// after position `j`, and is not trivia.
pub proof fn lemma_next_semantic_from_props(t: SyntaxTree, p: int, j: int)
    requires
        t.wf(),
        0 <= p < t.nodes@.len(),
    ensures
        t.next_semantic_from(p, j) matches Some(s) ==> {
            &&& s < t.nodes@.len()
            &&& t.nodes@[s as int].parent == Some(p as usize)
            &&& j <= t.nodes@[s as int].idx_in_parent < t.nodes@[p].children@.len()
            &&& t.child(p, t.nodes@[s as int].idx_in_parent as int) == s
            &&& !is_trivia(t.nodes@[s as int].kind)
        },
    decreases t.nodes@[p].children@.len() - j,
{
    assert(t.node_ok(p));
    if j < 0 || j >= t.nodes@[p].children@.len() {
    } else if !is_trivia(t.child_kind(p, j)) {
        assert(t.nodes@[p].children@[j] < t.nodes@.len());
    } else {
        lemma_next_semantic_from_props(t, p, j + 1);
    }
}

/// Whatever `prev_semantic_from` returns is a real child of `p`, sits at or
/// before position `j`, and is not trivia.
pub proof fn lemma_prev_semantic_from_props(t: SyntaxTree, p: int, j: int)
    requires
        t.wf(),
        0 <= p < t.nodes@.len(),
    ensures
        t.prev_semantic_from(p, j) matches Some(s) ==> {
            &&& s < t.nodes@.len()
            &&& t.nodes@[s as int].parent == Some(p as usize)
            &&& 0 <= t.nodes@[s as int].idx_in_parent <= j
            &&& t.child(p, t.nodes@[s as int].idx_in_parent as int) == s
            &&& !is_trivia(t.nodes@[s as int].kind)
        },
    decreases j + 1,
{
    assert(t.node_ok(p));
    if j < 0 || j >= t.nodes@[p].children@.len() {
    } else if !is_trivia(t.child_kind(p, j)) {
        assert(t.nodes@[p].children@[j] < t.nodes@.len());
    } else {
        lemma_prev_semantic_from_props(t, p, j - 1);
    }
}

/// Scanning backward from `j` lands on child `ja` when `ja` is not trivia
/// and every child strictly between `ja` and `j` (inclusive) is trivia.
proof fn lemma_prev_scan_lands_on(t: SyntaxTree, p: int, ja: int, j: int)
    requires
        0 <= p < t.nodes@.len(),
        0 <= ja <= j < t.nodes@[p].children@.len(),
        !is_trivia(t.child_kind(p, ja)),
        forall|k: int| ja < k <= j ==> is_trivia(#[trigger] t.child_kind(p, k)),
    ensures
        t.prev_semantic_from(p, j) == Some(t.child(p, ja)),
    decreases j - ja,
{
    if j == ja {
    } else {
        lemma_prev_scan_lands_on(t, p, ja, j - 1);
    }
}

/// Scanning forward from `j` lands on child `jb` when `jb` is not trivia
/// and every child between `j` (inclusive) and `jb` is trivia.
proof fn lemma_next_scan_lands_on(t: SyntaxTree, p: int, j: int, jb: int)
    requires
        0 <= p < t.nodes@.len(),
        0 <= j <= jb < t.nodes@[p].children@.len(),
        !is_trivia(t.child_kind(p, jb)),
        forall|k: int| j <= k < jb ==> is_trivia(#[trigger] t.child_kind(p, k)),
    ensures
        t.next_semantic_from(p, j) == Some(t.child(p, jb)),
    decreases jb - j,
{
    if j == jb {
    } else {
        lemma_next_scan_lands_on(t, p, j + 1, jb);
    }
}

/// Symmetry of navigation around a separator. Let `A`, the separator and
/// `B` be the children of `p` at positions `ja < jc < jb`, with nothing but
/// trivia strictly between `A` and the separator and between the separator
/// and `B`. Then the navigator resolves `A` as the separator's Prev
/// neighbor and `B` as its Next neighbor — so a flip around the separator
/// swaps exactly `A` and `B`.
pub proof fn lemma_navigator_resolves(t: SyntaxTree, p: int, ja: int, jc: int, jb: int)
    requires
        t.wf(),
        0 <= p < t.nodes@.len(),
        0 <= ja < jc < jb < t.nodes@[p].children@.len(),
        !is_trivia(t.child_kind(p, ja)),
        !is_trivia(t.child_kind(p, jb)),
        forall|k: int| ja < k < jc ==> is_trivia(#[trigger] t.child_kind(p, k)),
        forall|k: int| jc < k < jb ==> is_trivia(#[trigger] t.child_kind(p, k)),
    ensures
        t.semantic_sibling(t.child(p, jc) as int, Direction::Prev) == Some(t.child(p, ja)),
        t.semantic_sibling(t.child(p, jc) as int, Direction::Next) == Some(t.child(p, jb)),
{
    assert(t.node_ok(p));
    assert(t.nodes.len() == t.nodes@.len());
    assert((p as usize) as int == p);
    let c = t.child(p, jc) as int;
    assert(t.nodes@[c].parent == Some(p as usize));
    assert(t.nodes@[c].idx_in_parent == jc);
    lemma_prev_scan_lands_on(t, p, ja, jc - 1);
    lemma_next_scan_lands_on(t, p, jc + 1, jb);
    assert(t.semantic_sibling(c, Direction::Prev) == t.prev_semantic_from(p, jc - 1));
    assert(t.semantic_sibling(c, Direction::Next) == t.next_semantic_from(p, jc + 1));
}

/// A resolved semantic sibling shares `id`'s parent, is not trivia, and its
/// whole range lies on `dir`'s side of `id`'s range: before `id` for `Prev`,
/// after `id` for `Next`.
pub proof fn lemma_semantic_sibling_props(t: SyntaxTree, id: int, dir: Direction)
    requires
        t.wf(),
        0 <= id < t.nodes@.len(),
    ensures
        t.semantic_sibling(id, dir) matches Some(s) ==> {
            &&& s < t.nodes@.len()
            &&& t.nodes@[s as int].parent == t.nodes@[id].parent
            &&& !is_trivia(t.nodes@[s as int].kind)
            &&& (dir == Direction::Prev ==> t.nodes@[s as int].idx_in_parent
                < t.nodes@[id].idx_in_parent && t.nodes@[s as int].end <= t.nodes@[id].start)
            &&& (dir == Direction::Next ==> t.nodes@[id].idx_in_parent
                < t.nodes@[s as int].idx_in_parent && t.nodes@[id].end <= t.nodes@[s as int].start)
        },
{
    assert(t.node_ok(id));
    match t.nodes@[id].parent {
        None => {},
        Some(p) => {
            assert(t.node_ok(p as int));
            let jc = t.nodes@[id].idx_in_parent as int;
            match dir {
                Direction::Prev => {
                    lemma_prev_semantic_from_props(t, p as int, jc - 1);
                    if t.prev_semantic_from(p as int, jc - 1) is Some {
                        let s = t.prev_semantic_from(p as int, jc - 1)->Some_0;
                        let js = t.nodes@[s as int].idx_in_parent as int;
                        assert(t.nodes@[p as int].children@[js] == s);
                        assert(t.nodes@[p as int].children@[jc] == id);
                        assert(t.nodes@[t.nodes@[p as int].children@[js] as int].end
                            <= t.nodes@[t.nodes@[p as int].children@[jc] as int].start);
                    }
                },
                Direction::Next => {
                    lemma_next_semantic_from_props(t, p as int, jc + 1);
                    if t.next_semantic_from(p as int, jc + 1) is Some {
                        let s = t.next_semantic_from(p as int, jc + 1)->Some_0;
                        let js = t.nodes@[s as int].idx_in_parent as int;
                        assert(t.nodes@[p as int].children@[js] == s);
                        assert(t.nodes@[p as int].children@[jc] == id);
                        assert(t.nodes@[t.nodes@[p as int].children@[jc] as int].end
                            <= t.nodes@[t.nodes@[p as int].children@[js] as int].start);
                    }
                },
            }
        },
    }
}

} // verus!
