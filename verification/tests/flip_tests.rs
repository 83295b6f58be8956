use flip_comma::edit::apply_flip_edit;
use flip_comma::flip::is_flip_applicable;
use flip_comma::flip::try_flip;
use flip_comma::tree::Direction;
use flip_comma::tree::NodeKind;
use flip_comma::tree::SyntaxTree;

/// Split a source string on the `<|>` cursor marker: the marker's byte
/// offset, and the text with the marker removed.
fn strip_marker(s: &str) -> (usize, String) {
    let pos = s.find("<|>").expect("marker");
    let mut t = String::new();
    t.push_str(&s[..pos]);
    t.push_str(&s[pos + 3..]);
    (pos, t)
}

/// The tree for `fn foo(x: i32, y: Result<(), ()>) {}` with the cursor
/// offset taken from the marker in `src`.
fn fn_foo_tree(src: &str) -> (SyntaxTree, usize) {
    let (offset, text) = strip_marker(src);
    assert_eq!(text, "fn foo(x: i32, y: Result<(), ()>) {}");
    let mut t = SyntaxTree::new(text.as_bytes().to_vec());
    t.add_child(0, NodeKind::Keyword, 0, 2).unwrap();
    t.add_child(0, NodeKind::Whitespace, 2, 3).unwrap();
    t.add_child(0, NodeKind::Ident, 3, 6).unwrap();
    let pl = t.add_child(0, NodeKind::Composite, 6, 33).unwrap();
    t.add_child(pl, NodeKind::OpenParen, 6, 7).unwrap();
    t.add_child(pl, NodeKind::Composite, 7, 13).unwrap();
    t.add_child(pl, NodeKind::Comma, 13, 14).unwrap();
    t.add_child(pl, NodeKind::Whitespace, 14, 15).unwrap();
    t.add_child(pl, NodeKind::Composite, 15, 32).unwrap();
    t.add_child(pl, NodeKind::CloseParen, 32, 33).unwrap();
    t.add_child(0, NodeKind::Whitespace, 33, 34).unwrap();
    t.add_child(0, NodeKind::Composite, 34, 36).unwrap();
    (t, offset)
}

/// Assert the flip applies and return the target range, as a host showing
/// the edit's focus would; panics when the flip is not applicable.
fn flip_target(t: &SyntaxTree, offset: usize) -> (usize, usize) {
    let edit = try_flip(t, offset).expect("flip applicable");
    (edit.target.start, edit.target.end)
}

#[test]
fn flip_comma_works_for_function_parameters() {
    let (t, offset) = fn_foo_tree("fn foo(x: i32,<|> y: Result<(), ()>) {}");
    let (_, expected) = strip_marker("fn foo(y: Result<(), ()>,<|> x: i32) {}");
    let edit = try_flip(&t, offset).expect("flip applicable");
    let out = apply_flip_edit(&t.text, &edit);
    assert_eq!(String::from_utf8(out).unwrap(), expected);
}

#[test]
fn flip_comma_target() {
    let (t, offset) = fn_foo_tree("fn foo(x: i32,<|> y: Result<(), ()>) {}");
    let (start, end) = flip_target(&t, offset);
    assert_eq!(&t.text[start..end], b",");
}

#[test]
#[should_panic]
fn flip_comma_before_punct() {
    // A trailing comma in an enum or struct declaration body has no second
    // item to flip with, so the flip must not be applicable there.
    let (offset, text) = strip_marker(
        "pub enum Test { \
             A,<|> \
             }",
    );
    assert_eq!(text, "pub enum Test { A, }");
    let mut t = SyntaxTree::new(text.as_bytes().to_vec());
    t.add_child(0, NodeKind::Keyword, 0, 3).unwrap();
    t.add_child(0, NodeKind::Whitespace, 3, 4).unwrap();
    t.add_child(0, NodeKind::Keyword, 4, 8).unwrap();
    t.add_child(0, NodeKind::Whitespace, 8, 9).unwrap();
    t.add_child(0, NodeKind::Ident, 9, 13).unwrap();
    t.add_child(0, NodeKind::Whitespace, 13, 14).unwrap();
    let body = t.add_child(0, NodeKind::Composite, 14, 20).unwrap();
    t.add_child(body, NodeKind::OpenBrace, 14, 15).unwrap();
    t.add_child(body, NodeKind::Whitespace, 15, 16).unwrap();
    t.add_child(body, NodeKind::Composite, 16, 17).unwrap();
    t.add_child(body, NodeKind::Comma, 17, 18).unwrap();
    t.add_child(body, NodeKind::Whitespace, 18, 19).unwrap();
    t.add_child(body, NodeKind::CloseBrace, 19, 20).unwrap();
    flip_target(&t, offset);

    let (offset, text) = strip_marker(
        "pub struct Test { \
             foo: usize,<|> \
             }",
    );
    assert_eq!(text, "pub struct Test { foo: usize, }");
    let mut t = SyntaxTree::new(text.as_bytes().to_vec());
    t.add_child(0, NodeKind::Keyword, 0, 3).unwrap();
    t.add_child(0, NodeKind::Whitespace, 3, 4).unwrap();
    t.add_child(0, NodeKind::Keyword, 4, 10).unwrap();
    t.add_child(0, NodeKind::Whitespace, 10, 11).unwrap();
    t.add_child(0, NodeKind::Ident, 11, 15).unwrap();
    t.add_child(0, NodeKind::Whitespace, 15, 16).unwrap();
    let body = t.add_child(0, NodeKind::Composite, 16, 31).unwrap();
    t.add_child(body, NodeKind::OpenBrace, 16, 17).unwrap();
    t.add_child(body, NodeKind::Whitespace, 17, 18).unwrap();
    t.add_child(body, NodeKind::Composite, 18, 28).unwrap();
    t.add_child(body, NodeKind::Comma, 28, 29).unwrap();
    t.add_child(body, NodeKind::Whitespace, 29, 30).unwrap();
    t.add_child(body, NodeKind::CloseBrace, 30, 31).unwrap();
    flip_target(&t, offset);
}

#[test]
fn trailing_comma_in_struct_body_not_applicable() {
    // Non-panicking form of the exclusion rule: the next semantic neighbor
    // is closing punctuation, so the result is "not applicable".
    let text = "pub struct Test { foo: usize, }";
    let mut t = SyntaxTree::new(text.as_bytes().to_vec());
    let body = t.add_child(0, NodeKind::Composite, 16, 31).unwrap();
    t.add_child(body, NodeKind::OpenBrace, 16, 17).unwrap();
    t.add_child(body, NodeKind::Whitespace, 17, 18).unwrap();
    t.add_child(body, NodeKind::Composite, 18, 28).unwrap();
    t.add_child(body, NodeKind::Comma, 28, 29).unwrap();
    t.add_child(body, NodeKind::Whitespace, 29, 30).unwrap();
    t.add_child(body, NodeKind::CloseBrace, 30, 31).unwrap();
    assert!(try_flip(&t, 29).is_none());
}

#[test]
fn flip_swaps_nested_lists_opaquely() {
    // Inner sub-lists are swapped whole, never recursed into.
    let (offset, text) = strip_marker("((1, 2),<|> (3, 4))");
    let mut t = SyntaxTree::new(text.as_bytes().to_vec());
    t.add_child(0, NodeKind::OpenParen, 0, 1).unwrap();
    t.add_child(0, NodeKind::Composite, 1, 7).unwrap();
    t.add_child(0, NodeKind::Comma, 7, 8).unwrap();
    t.add_child(0, NodeKind::Whitespace, 8, 9).unwrap();
    t.add_child(0, NodeKind::Composite, 9, 15).unwrap();
    t.add_child(0, NodeKind::CloseParen, 15, 16).unwrap();
    let edit = try_flip(&t, offset).expect("flip applicable");
    let out = apply_flip_edit(&t.text, &edit);
    assert_eq!(String::from_utf8(out).unwrap(), "((3, 4), (1, 2))");
}

#[test]
fn double_flip_restores_original() {
    let (t, offset) = fn_foo_tree("fn foo(x: i32,<|> y: Result<(), ()>) {}");
    let edit = try_flip(&t, offset).expect("flip applicable");
    let once = apply_flip_edit(&t.text, &edit);
    assert_eq!(String::from_utf8(once.clone()).unwrap(), "fn foo(y: Result<(), ()>, x: i32) {}");

    // Reparse the edited text and flip again at the same separator.
    let mut t2 = SyntaxTree::new(once);
    t2.add_child(0, NodeKind::Keyword, 0, 2).unwrap();
    t2.add_child(0, NodeKind::Whitespace, 2, 3).unwrap();
    t2.add_child(0, NodeKind::Ident, 3, 6).unwrap();
    let pl = t2.add_child(0, NodeKind::Composite, 6, 33).unwrap();
    t2.add_child(pl, NodeKind::OpenParen, 6, 7).unwrap();
    t2.add_child(pl, NodeKind::Composite, 7, 24).unwrap();
    t2.add_child(pl, NodeKind::Comma, 24, 25).unwrap();
    t2.add_child(pl, NodeKind::Whitespace, 25, 26).unwrap();
    t2.add_child(pl, NodeKind::Composite, 26, 32).unwrap();
    t2.add_child(pl, NodeKind::CloseParen, 32, 33).unwrap();
    t2.add_child(0, NodeKind::Whitespace, 33, 34).unwrap();
    t2.add_child(0, NodeKind::Composite, 34, 36).unwrap();
    let edit2 = try_flip(&t2, 25).expect("second flip applicable");
    let twice = apply_flip_edit(&t2.text, &edit2);
    assert_eq!(String::from_utf8(twice).unwrap(), "fn foo(x: i32, y: Result<(), ()>) {}");
}

#[test]
fn trivia_and_separator_preserved() {
    // The separator and the comment between the neighbors survive the edit
    // byte for byte.
    let (offset, text) = strip_marker("(x,<|> /* keep */ y)");
    let mut t = SyntaxTree::new(text.as_bytes().to_vec());
    t.add_child(0, NodeKind::OpenParen, 0, 1).unwrap();
    t.add_child(0, NodeKind::Ident, 1, 2).unwrap();
    t.add_child(0, NodeKind::Comma, 2, 3).unwrap();
    t.add_child(0, NodeKind::Whitespace, 3, 4).unwrap();
    t.add_child(0, NodeKind::Comment, 4, 14).unwrap();
    t.add_child(0, NodeKind::Whitespace, 14, 15).unwrap();
    t.add_child(0, NodeKind::Ident, 15, 16).unwrap();
    t.add_child(0, NodeKind::CloseParen, 16, 17).unwrap();
    let edit = try_flip(&t, offset).expect("flip applicable");
    let out = apply_flip_edit(&t.text, &edit);
    assert_eq!(out[2..15], t.text[2..15]);
    assert_eq!(String::from_utf8(out).unwrap(), "(y, /* keep */ x)");
}

#[test]
fn replacement_ranges_disjoint_and_target_untouched() {
    let (t, offset) = fn_foo_tree("fn foo(x: i32,<|> y: Result<(), ()>) {}");
    let edit = try_flip(&t, offset).expect("flip applicable");
    assert!(edit.first.range.start <= edit.first.range.end);
    assert!(edit.first.range.end <= edit.target.start);
    assert!(edit.target.end <= edit.second.range.start);
    assert!(edit.second.range.start <= edit.second.range.end);
    // The reported focus is exactly the separator token's original range.
    assert_eq!(edit.target.start, 13);
    assert_eq!(edit.target.end, 14);
}

#[test]
fn navigator_resolves_both_neighbors() {
    // In `A, B` the navigator must resolve A as the Prev neighbor and B as
    // the Next neighbor of the separator, and the flip yields `B, A`.
    let text = "A, B";
    let mut t = SyntaxTree::new(text.as_bytes().to_vec());
    let a = t.add_child(0, NodeKind::Ident, 0, 1).unwrap();
    let comma = t.add_child(0, NodeKind::Comma, 1, 2).unwrap();
    t.add_child(0, NodeKind::Whitespace, 2, 3).unwrap();
    let b = t.add_child(0, NodeKind::Ident, 3, 4).unwrap();
    assert_eq!(t.find_semantic_sibling(comma, Direction::Prev), Some(a));
    assert_eq!(t.find_semantic_sibling(comma, Direction::Next), Some(b));
    // The root has no siblings in either direction.
    assert_eq!(t.find_semantic_sibling(0, Direction::Prev), None);
    assert_eq!(t.find_semantic_sibling(0, Direction::Next), None);
    let edit = try_flip(&t, 2).expect("flip applicable");
    assert_eq!(String::from_utf8(apply_flip_edit(&t.text, &edit)).unwrap(), "B, A");
}

#[test]
fn not_applicable_without_prev_neighbor() {
    let text = ", b";
    let mut t = SyntaxTree::new(text.as_bytes().to_vec());
    t.add_child(0, NodeKind::Comma, 0, 1).unwrap();
    t.add_child(0, NodeKind::Whitespace, 1, 2).unwrap();
    t.add_child(0, NodeKind::Ident, 2, 3).unwrap();
    assert!(try_flip(&t, 1).is_none());
}

#[test]
fn not_applicable_without_next_neighbor() {
    let text = "a,";
    let mut t = SyntaxTree::new(text.as_bytes().to_vec());
    t.add_child(0, NodeKind::Ident, 0, 1).unwrap();
    t.add_child(0, NodeKind::Comma, 1, 2).unwrap();
    assert!(try_flip(&t, 2).is_none());
}

#[test]
fn not_applicable_away_from_comma() {
    let (t, _) = fn_foo_tree("fn foo(x: i32,<|> y: Result<(), ()>) {}");
    // On an identifier, and in whitespace far from any comma.
    assert!(try_flip(&t, 4).is_none());
    assert!(try_flip(&t, 34).is_none());
}

#[test]
fn builder_rejects_bad_placement() {
    let mut t = SyntaxTree::new(b"ab".to_vec());
    let first = t.add_child(0, NodeKind::Ident, 0, 1);
    assert_eq!(first, Some(1));
    // Overlaps the previous sibling.
    assert_eq!(t.add_child(0, NodeKind::Ident, 0, 2), None);
    // Ends past the text.
    assert_eq!(t.add_child(0, NodeKind::Ident, 1, 3), None);
    // No such parent.
    assert_eq!(t.add_child(5, NodeKind::Ident, 1, 2), None);
    // A token cannot take children.
    assert_eq!(t.add_child(1, NodeKind::Ident, 0, 1), None);
    // A correct placement still works afterwards.
    assert_eq!(t.add_child(0, NodeKind::Ident, 1, 2), Some(2));
    // Rejected placements left the arena unchanged.
    assert_eq!(t.node_count(), 3);
}

#[test]
fn applicability_checker_gates() {
    let text = "A, )";
    let mut t = SyntaxTree::new(text.as_bytes().to_vec());
    let a = t.add_child(0, NodeKind::Ident, 0, 1).unwrap();
    t.add_child(0, NodeKind::Comma, 1, 2).unwrap();
    t.add_child(0, NodeKind::Whitespace, 2, 3).unwrap();
    let close = t.add_child(0, NodeKind::CloseParen, 3, 4).unwrap();
    assert!(is_flip_applicable(&t, Some(a), Some(a)));
    assert!(!is_flip_applicable(&t, Some(a), Some(close)));
    assert!(!is_flip_applicable(&t, None, Some(a)));
    assert!(!is_flip_applicable(&t, Some(a), None));
    assert!(try_flip(&t, 2).is_none());
}
