//! The flip transformation: locate the separator under the cursor, resolve
//! its two semantic neighbors, gate on the trailing-separator rule, and
//! synthesize the swap edit.

use vstd::prelude::*;

use crate::edit::FlipEdit;
use crate::edit::Replacement;
use crate::edit::TextRange;
use crate::edit::edit_wf;
use crate::navigate::lemma_semantic_sibling_props;
use crate::tree::Direction;
use crate::tree::NodeKind;
use crate::tree::SyntaxTree;
use crate::tree::is_punct;

verus! {

impl SyntaxTree {
    /// Node `i` is a separator token whose range touches `offset`: the
    /// offset lies inside the range or on either of its boundaries.
    pub open spec fn comma_touches(self, i: int, offset: int) -> bool {
        &&& self.nodes@[i].kind == NodeKind::Comma
        &&& self.nodes@[i].start <= offset <= self.nodes@[i].end
    }

    /// The first arena slot at position `i` or later holding a comma token
    /// that touches `offset`, if any.
    pub open spec fn comma_at_from(self, offset: int, i: int) -> Option<usize>
        decreases self.nodes@.len() - i,
    {
        if i < 0 || i >= self.nodes@.len() {
            None
        } else if self.comma_touches(i, offset) {
            Some(i as usize)
        } else {
            self.comma_at_from(offset, i + 1)
        }
    }

    /// The comma token under the cursor: the first comma in the arena whose
    /// range touches `offset`.
    pub open spec fn comma_at(self, offset: int) -> Option<usize> {
        self.comma_at_from(offset, 0)
    }

    /// Scan the arena for a comma token touching `offset`.
    pub fn find_comma_at(&self, offset: usize) -> (r: Option<usize>)
        ensures
            r == self.comma_at(offset as int),
    {
        let n = self.nodes.len();
        let mut i: usize = 0;
        loop
            invariant
                i <= n,
                n == self.nodes@.len(),
                self.comma_at(offset as int) == self.comma_at_from(offset as int, i as int),
            decreases n - i,
        {
            if i >= n {
                return None;
            }
            if self.nodes[i].kind == NodeKind::Comma && self.nodes[i].start <= offset && offset
                <= self.nodes[i].end {
                return Some(i);
            }
            i = i + 1;
        }
    }

    /// The flip applies at `offset`: a comma token is there, it has a
    /// semantic neighbor on each side, and the next neighbor is not itself
    /// punctuation (which would mark a trailing separator).
    pub open spec fn flip_applicable(self, offset: int) -> bool {
        &&& self.comma_at(offset) is Some
        &&& {
            let c = self.comma_at(offset)->Some_0 as int;
            &&& self.semantic_sibling(c, Direction::Prev) is Some
            &&& self.semantic_sibling(c, Direction::Next) is Some
            &&& !is_punct(
                self.nodes@[self.semantic_sibling(c, Direction::Next)->Some_0 as int].kind,
            )
        }
    }
}

/// Whatever `comma_at_from` returns is a comma token in the arena whose
/// range touches `offset`.
pub proof fn lemma_comma_at_from_props(t: SyntaxTree, offset: int, i: int)
    ensures
        t.comma_at_from(offset, i) matches Some(c) ==> c < t.nodes@.len() && t.comma_touches(
            c as int,
            offset,
        ),
    decreases t.nodes@.len() - i,
{
    if i < 0 || i >= t.nodes@.len() {
    } else if t.comma_touches(i, offset) {
        assert(t.nodes.len() == t.nodes@.len());
        assert((i as usize) as int == i);
    } else {
        lemma_comma_at_from_props(t, offset, i + 1);
    }
}

/// The applicability checker: a flip needs both neighbors resolved, and the
/// next neighbor must not itself be punctuation — a separator whose next
/// semantic sibling is punctuation is a trailing separator, with no second
/// item to flip.
pub fn is_flip_applicable(tree: &SyntaxTree, prev: Option<usize>, next: Option<usize>) -> (r:
    bool)
    requires
        next matches Some(n) ==> n < tree.nodes@.len(),
    ensures
        r <==> (prev is Some && next is Some && !is_punct(
            tree.nodes@[next->Some_0 as int].kind,
        )),
{
    match (prev, next) {
        (Some(_), Some(n)) => !crate::tree::kind_is_punct(tree.kind_of(n)),
        _ => false,
    }
}

/// The edit synthesizer: given the separator and its two neighbors, emit the
/// edit whose focus is the separator's own range and whose two replacements
/// swap the neighbors' texts. The neighbors' ranges lie on either side of
/// the separator, so the three ranges are pairwise disjoint.
pub fn build_flip_edit(tree: &SyntaxTree, separator: usize, prev: usize, next: usize) -> (e:
    FlipEdit)
    requires
        tree.wf(),
        separator < tree.nodes@.len(),
        prev < tree.nodes@.len(),
        next < tree.nodes@.len(),
        tree.nodes@[prev as int].end <= tree.nodes@[separator as int].start,
        tree.nodes@[separator as int].end <= tree.nodes@[next as int].start,
    ensures
        e.target.start == tree.nodes@[separator as int].start,
        e.target.end == tree.nodes@[separator as int].end,
        e.first.range.start == tree.nodes@[prev as int].start,
        e.first.range.end == tree.nodes@[prev as int].end,
        e.first.text@ == tree.text@.subrange(
            tree.nodes@[next as int].start as int,
            tree.nodes@[next as int].end as int,
        ),
        e.second.range.start == tree.nodes@[next as int].start,
        e.second.range.end == tree.nodes@[next as int].end,
        e.second.text@ == tree.text@.subrange(
            tree.nodes@[prev as int].start as int,
            tree.nodes@[prev as int].end as int,
        ),
        e.first.range.end <= e.target.start,
        e.target.end <= e.second.range.start,
        edit_wf(e, tree.text@.len() as int),
{
    proof {
        assert(tree.node_ok(separator as int));
        assert(tree.node_ok(prev as int));
        assert(tree.node_ok(next as int));
    }
    let prev_text = tree.text_of(prev);
    let next_text = tree.text_of(next);
    FlipEdit {
        target: TextRange { start: tree.start_of(separator), end: tree.end_of(separator) },
        first: Replacement {
            range: TextRange { start: tree.start_of(prev), end: tree.end_of(prev) },
            text: next_text,
        },
        second: Replacement {
            range: TextRange { start: tree.start_of(next), end: tree.end_of(next) },
            text: prev_text,
        },
    }
}

/// The single entry point: decide whether the flip applies at `offset` and,
/// if so, produce the edit that swaps the separator's two semantic
/// neighbors. The edit's focus is exactly the separator's own range; its
/// first replacement rewrites the previous neighbor's range with the next
/// neighbor's text and its second replacement rewrites the next neighbor's
/// range with the previous neighbor's text; the two replacement ranges are
/// disjoint from each other and from the separator's range.
pub fn try_flip(tree: &SyntaxTree, offset: usize) -> (r: Option<FlipEdit>)
    requires
        tree.wf(),
    ensures
        r is Some <==> tree.flip_applicable(offset as int),
        (r matches Some(e) ==> {
            let c = tree.comma_at(offset as int)->Some_0 as int;
            let p = tree.semantic_sibling(c, Direction::Prev)->Some_0 as int;
            let n = tree.semantic_sibling(c, Direction::Next)->Some_0 as int;
            &&& e.target.start == tree.nodes@[c].start
            &&& e.target.end == tree.nodes@[c].end
            &&& e.first.range.start == tree.nodes@[p].start
            &&& e.first.range.end == tree.nodes@[p].end
            &&& e.first.text@ == tree.text@.subrange(
                tree.nodes@[n].start as int,
                tree.nodes@[n].end as int,
            )
            &&& e.second.range.start == tree.nodes@[n].start
            &&& e.second.range.end == tree.nodes@[n].end
            &&& e.second.text@ == tree.text@.subrange(
                tree.nodes@[p].start as int,
                tree.nodes@[p].end as int,
            )
            &&& e.first.range.end <= e.target.start
            &&& e.target.end <= e.second.range.start
            &&& edit_wf(e, tree.text@.len() as int)
        }),
{
    let c = match tree.find_comma_at(offset) {
        None => {
            return None;
        },
        Some(c) => c,
    };
    proof {
        lemma_comma_at_from_props(*tree, offset as int, 0);
    }
    let prev = tree.find_semantic_sibling(c, Direction::Prev);
    let next = tree.find_semantic_sibling(c, Direction::Next);
    proof {
        lemma_semantic_sibling_props(*tree, c as int, Direction::Prev);
        lemma_semantic_sibling_props(*tree, c as int, Direction::Next);
    }
    if !is_flip_applicable(tree, prev, next) {
        return None;
    }
    let p = match prev {
        None => {
            return None;
        },
        Some(p) => p,
    };
    let n = match next {
        None => {
            return None;
        },
        Some(n) => n,
    };
    Some(build_flip_edit(tree, c, p, n))
}

/// The exclusion rule, stated on its own: wherever the separator's next
/// semantic neighbor is itself punctuation, the flip is not applicable.
pub proof fn lemma_trailing_separator_excluded(t: SyntaxTree, offset: int)
    requires
        t.comma_at(offset) is Some,
        ({
            let c = t.comma_at(offset)->Some_0 as int;
            t.semantic_sibling(c, Direction::Next) matches Some(n) && is_punct(
                t.nodes@[n as int].kind,
            )
        }),
    ensures
        !t.flip_applicable(offset),
{
}

} // verus!
