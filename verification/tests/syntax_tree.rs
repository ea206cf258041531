use r_lsp::syntax_tree::{parse_r, tree_from_preorder, SyntaxNodeData};

fn entry(kind: &str, children: usize) -> SyntaxNodeData {
    SyntaxNodeData {
        kind: kind.to_string(),
        start_row: 0,
        start_column: 0,
        end_row: 0,
        end_column: 1,
        has_error: false,
        child_count: children,
    }
}

#[test]
fn preorder_listing_reads_back_into_a_tree() {
    let flat = vec![entry("a", 2), entry("b", 1), entry("c", 0), entry("d", 0)];
    let t = tree_from_preorder(&flat).unwrap();
    assert_eq!(t.kind, "a");
    assert_eq!(t.children.len(), 2);
    assert_eq!(t.children[0].kind, "b");
    assert_eq!(t.children[0].children.len(), 1);
    assert_eq!(t.children[0].children[0].kind, "c");
    assert_eq!(t.children[1].kind, "d");
    assert!(t.children[1].children.is_empty());
}

#[test]
fn short_listing_is_no_tree() {
    assert!(tree_from_preorder(&vec![entry("a", 2), entry("b", 0)]).is_none());
    assert!(tree_from_preorder(&vec![]).is_none());
}

#[test]
fn listing_with_leftovers_is_no_tree() {
    assert!(tree_from_preorder(&vec![entry("a", 0), entry("b", 0)]).is_none());
}

#[test]
fn parser_marks_syntax_errors() {
    assert!(parse_r("f(").unwrap().has_error);
    assert!(!parse_r("f()\n").unwrap().has_error);
}

#[test]
fn parser_positions_are_rows_and_byte_columns() {
    let t = parse_r("é <- 1\n").unwrap();
    let assignment = &t.children[0];
    assert_eq!(assignment.kind, "binary_operator");
    assert_eq!((assignment.start_row, assignment.start_column), (0, 0));
    assert_eq!((assignment.end_row, assignment.end_column), (0, 7));
}
