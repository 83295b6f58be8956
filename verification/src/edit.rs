//! Text edits: a focus range plus two replacement spans, and the function
//! that applies such an edit to a text buffer.

use vstd::prelude::*;

verus! {

/// A half-open byte interval `[start, end)` into a source text.
#[derive(Clone, Copy, PartialEq, Eq, Structural, Debug)]
pub struct TextRange {
    pub start: usize,
    pub end: usize,
}

/// One replacement: the bytes at `range` are replaced by `text`.
pub struct Replacement {
    pub range: TextRange,
    pub text: Vec<u8>,
}

/// The flip edit: `target` is the separator's own range, reported for
/// cursor placement and highlighting but never rewritten; `first` and
/// `second` are the two replacements, in text order.
pub struct FlipEdit {
    pub target: TextRange,
    pub first: Replacement,
    pub second: Replacement,
}

/// The two replacement ranges are orderly and disjoint, and lie within a
/// text of length `text_len`.
pub open spec fn edit_wf(e: FlipEdit, text_len: int) -> bool {
    &&& e.first.range.start <= e.first.range.end
    &&& e.first.range.end <= e.second.range.start
    &&& e.second.range.start <= e.second.range.end
    &&& e.second.range.end <= text_len
}

/// The text that results from replacing `[a0, a1)` by `sa` and `[b0, b1)`
/// by `sb` in `t`, for `a0 <= a1 <= b0 <= b1 <= t.len()`.
pub open spec fn splice_two(
    t: Seq<u8>,
    a0: int,
    a1: int,
    sa: Seq<u8>,
    b0: int,
    b1: int,
    sb: Seq<u8>,
) -> Seq<u8> {
    t.subrange(0, a0) + sa + t.subrange(a1, b0) + sb + t.subrange(b1, t.len() as int)
}

/// Append the bytes `src[from..to]` to `dst`.
pub fn push_range(dst: &mut Vec<u8>, src: &Vec<u8>, from: usize, to: usize)
    requires
        from <= to <= src@.len(),
    ensures
        final(dst)@ == old(dst)@ + src@.subrange(from as int, to as int),
{
    let mut i: usize = from;
    while i < to
        invariant
            from <= i <= to <= src@.len(),
            dst@ == old(dst)@ + src@.subrange(from as int, i as int),
        decreases to - i,
    {
        dst.push(src[i]);
        proof {
            assert(src@.subrange(from as int, i + 1 as int) =~= src@.subrange(
                from as int,
                i as int,
            ).push(src@[i as int]));
        }
        i = i + 1;
    }
    proof {
        assert(dst@ =~= old(dst)@ + src@.subrange(from as int, to as int));
    }
}

/// Apply a flip edit to `text`: the bytes of each replacement range are
/// replaced by the replacement's text; everything else — in particular the
/// separator and all trivia around it — is copied through unchanged.
pub fn apply_flip_edit(text: &Vec<u8>, edit: &FlipEdit) -> (r: Vec<u8>)
    requires
        edit_wf(*edit, text@.len() as int),
    ensures
        r@ == splice_two(
            text@,
            edit.first.range.start as int,
            edit.first.range.end as int,
            edit.first.text@,
            edit.second.range.start as int,
            edit.second.range.end as int,
            edit.second.text@,
        ),
{
    let mut out: Vec<u8> = Vec::new();
    push_range(&mut out, text, 0, edit.first.range.start);
    push_range(&mut out, &edit.first.text, 0, edit.first.text.len());
    push_range(&mut out, text, edit.first.range.end, edit.second.range.start);
    push_range(&mut out, &edit.second.text, 0, edit.second.text.len());
    push_range(&mut out, text, edit.second.range.end, text.len());
    proof {
        assert(edit.first.text@.subrange(0, edit.first.text@.len() as int) =~= edit.first.text@);
        assert(edit.second.text@.subrange(0, edit.second.text@.len() as int)
            =~= edit.second.text@);
        assert(out@ =~= splice_two(
            text@,
            edit.first.range.start as int,
            edit.first.range.end as int,
            edit.first.text@,
            edit.second.range.start as int,
            edit.second.range.end as int,
            edit.second.text@,
        ));
    }
    out
}

/// Everything outside the two replaced ranges is preserved byte-for-byte by
/// a splice: the prefix before the first range, the whole segment between
/// the two ranges — which holds the separator and all trivia around it —
/// and the suffix after the second range reappear verbatim, only shifted by
/// the change in the first replacement's length.
pub proof fn lemma_splice_preserves_outside(
    t: Seq<u8>,
    a0: int,
    a1: int,
    sa: Seq<u8>,
    b0: int,
    b1: int,
    sb: Seq<u8>,
)
    requires
        0 <= a0 <= a1 <= b0 <= b1 <= t.len(),
    ensures
        ({
            let t1 = splice_two(t, a0, a1, sa, b0, b1, sb);
            &&& t1.len() == t.len() - (a1 - a0) - (b1 - b0) + sa.len() + sb.len()
            &&& t1.subrange(0, a0) == t.subrange(0, a0)
            &&& t1.subrange(a0 + sa.len(), a0 + sa.len() + (b0 - a1)) == t.subrange(a1, b0)
            &&& t1.subrange(a0 + sa.len() + (b0 - a1) + sb.len(), t1.len() as int) == t.subrange(
                b1,
                t.len() as int,
            )
            &&& t1.subrange(a0, a0 + sa.len()) == sa
            &&& t1.subrange(a0 + sa.len() + (b0 - a1), a0 + sa.len() + (b0 - a1) + sb.len()) == sb
        }),
{
    let t1 = splice_two(t, a0, a1, sa, b0, b1, sb);
    assert(t1.subrange(0, a0) =~= t.subrange(0, a0));
    assert(t1.subrange(a0 + sa.len(), a0 + sa.len() + (b0 - a1)) =~= t.subrange(a1, b0));
    assert(t1.subrange(a0 + sa.len() + (b0 - a1) + sb.len(), t1.len() as int) =~= t.subrange(
        b1,
        t.len() as int,
    ));
    assert(t1.subrange(a0, a0 + sa.len()) =~= sa);
    assert(t1.subrange(a0 + sa.len() + (b0 - a1), a0 + sa.len() + (b0 - a1) + sb.len()) =~= sb);
}

/// Trivia preservation, stated of the edit itself: applying a well-formed
/// flip edit to `t` keeps every byte outside the two replacement ranges.
/// In particular the whole segment between the two ranges — the separator
/// and all whitespace and comments around it — reappears byte-identical,
/// shifted only by the length change of the first replacement.
pub proof fn lemma_apply_preserves_outside(t: Seq<u8>, e: FlipEdit)
    requires
        edit_wf(e, t.len() as int),
    ensures
        ({
            let a0 = e.first.range.start as int;
            let a1 = e.first.range.end as int;
            let b0 = e.second.range.start as int;
            let b1 = e.second.range.end as int;
            let out = splice_two(t, a0, a1, e.first.text@, b0, b1, e.second.text@);
            &&& out.subrange(0, a0) == t.subrange(0, a0)
            &&& out.subrange(a0 + e.first.text@.len(), a0 + e.first.text@.len() + (b0 - a1))
                == t.subrange(a1, b0)
            &&& out.subrange(
                a0 + e.first.text@.len() + (b0 - a1) + e.second.text@.len(),
                out.len() as int,
            ) == t.subrange(b1, t.len() as int)
        }),
{
    lemma_splice_preserves_outside(
        t,
        e.first.range.start as int,
        e.first.range.end as int,
        e.first.text@,
        e.second.range.start as int,
        e.second.range.end as int,
        e.second.text@,
    );
}

/// Flipping twice restores the original text. Swapping the spans `[a0, a1)`
/// and `[b0, b1)` of `t` yields `t1`; in `t1` the swapped items sit at
/// `[a0, a1x)` and `[b0x, b1x)`. Swapping those two spans of `t1` — which is
/// exactly the edit a second flip around the same separator produces —
/// gives back `t` itself.
pub proof fn lemma_double_flip_restores(t: Seq<u8>, a0: int, a1: int, b0: int, b1: int)
    requires
        0 <= a0 <= a1 <= b0 <= b1 <= t.len(),
    ensures
        ({
            let sa = t.subrange(a0, a1);
            let sb = t.subrange(b0, b1);
            let t1 = splice_two(t, a0, a1, sb, b0, b1, sa);
            let a1x = a0 + (b1 - b0);
            let b0x = b0 + (b1 - b0) - (a1 - a0);
            let b1x = b0 + (b1 - b0);
            &&& t1.len() == t.len()
            &&& a0 <= a1x <= b0x <= b1x <= t1.len()
            &&& t1.subrange(a0, a1x) == sb
            &&& t1.subrange(b0x, b1x) == sa
            &&& splice_two(t1, a0, a1x, t1.subrange(b0x, b1x), b0x, b1x, t1.subrange(a0, a1x))
                == t
        }),
{
    let sa = t.subrange(a0, a1);
    let sb = t.subrange(b0, b1);
    let t1 = splice_two(t, a0, a1, sb, b0, b1, sa);
    let a1x = a0 + (b1 - b0);
    let b0x = b0 + (b1 - b0) - (a1 - a0);
    let b1x = b0 + (b1 - b0);
    lemma_splice_preserves_outside(t, a0, a1, sb, b0, b1, sa);
    assert(t1.subrange(a0, a1x) == sb);
    assert(t1.subrange(b0x, b1x) == sa);
    let t2 = splice_two(t1, a0, a1x, t1.subrange(b0x, b1x), b0x, b1x, t1.subrange(a0, a1x));
    assert(t1.subrange(a1x, b0x) == t.subrange(a1, b0));
    assert(t1.subrange(b1x, t1.len() as int) == t.subrange(b1, t.len() as int));
    assert(t1.subrange(0, a0) == t.subrange(0, a0));
    assert(t2 =~= t);
}

} // verus!
