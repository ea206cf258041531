use r_lsp::folding_range::{
    bracket_range, comment_range, folding_range, folding_range_of_tree, FoldingRange,
    FoldingRangeError, FoldingRangeKind,
};
use r_lsp::syntax_tree::{parse_r, SyntaxNode};
use r_lsp::text::Document;

fn doc(text: &str) -> Document {
    Document { contents: text.to_string() }
}

type Span = (u32, Option<u32>, u32, Option<u32>);

fn spans(ranges: &[FoldingRange]) -> Vec<Span> {
    ranges
        .iter()
        .map(|r| (r.start_line, r.start_character, r.end_line, r.end_character))
        .collect()
}

fn fold(text: &str) -> Vec<Span> {
    spans(&folding_range(&doc(text)).expect("folding ranges"))
}

#[test]
fn function_parameters_and_body_fold() {
    let text = "f <- function(x,\n              y) {\n  x + y\n}\n";
    assert_eq!(fold(text), vec![(0, Some(13), 1, Some(14)), (1, Some(17), 2, None)]);
}

#[test]
fn every_range_is_a_region_without_collapsed_text() {
    let text = "f <- function(x,\n              y) {\n  x + y\n}\n";
    let ranges = folding_range(&doc(text)).unwrap();
    assert!(!ranges.is_empty());
    for r in &ranges {
        assert_eq!(r.kind, Some(FoldingRangeKind::Region));
        assert!(r.collapsed_text.is_none());
    }
}

#[test]
fn single_line_brackets_do_not_fold() {
    assert_eq!(fold("f <- function(x, y) { x + y }\n"), Vec::<Span>::new());
}

#[test]
fn call_arguments_fold() {
    let text = "list(\n  a = 1,\n  b = 2\n)\n";
    assert_eq!(fold(text), vec![(0, Some(4), 2, None)]);
}

#[test]
fn closing_bracket_after_code_keeps_its_line() {
    let text = "list(a = 1,\n     b = 2)\n";
    assert_eq!(fold(text), vec![(0, Some(4), 1, Some(9))]);
}

#[test]
fn nested_comment_sections() {
    let text = "# Section A ----\nx <- 1\n## Sub A1 ----\ny <- 2\n# Section B ----\nz <- 3\n";
    assert_eq!(
        fold(text),
        vec![(2, None, 3, None), (0, None, 3, None), (4, None, 5, None)]
    );
}

#[test]
fn regions_fold_to_their_end_marker() {
    let text = "# region Setup\nx <- 1\n# endregion\ny <- 2\n";
    assert_eq!(fold(text), vec![(0, None, 2, None)]);
}

#[test]
fn unclosed_region_closes_at_the_end() {
    let text = "# region Setup\nx <- 1\n";
    assert_eq!(fold(text), vec![(0, None, 1, None)]);
}

#[test]
fn cells_fold_up_to_the_next_cell() {
    let text = "# %% first\nx <- 1\n# %% second\ny <- 2\n";
    assert_eq!(fold(text), vec![(0, None, 1, None), (2, None, 3, None)]);
}

#[test]
fn comment_after_code_is_ignored() {
    let text = "x <- 1 # Section ----\ny <- 2\n";
    assert_eq!(fold(text), Vec::<Span>::new());
}

#[test]
fn sections_inside_braces_close_with_the_braces() {
    let text = "f <- function() {\n  # Inner ----\n  x <- 1\n}\n";
    assert_eq!(fold(text), vec![(0, Some(16), 2, None), (1, None, 2, None)]);
}

#[test]
fn syntax_error_is_reported() {
    assert_eq!(
        folding_range(&doc("f <- function(\n")).err(),
        Some(FoldingRangeError::ParseError)
    );
}

#[test]
fn section_on_last_line_without_newline_is_out_of_range() {
    assert_eq!(
        folding_range(&doc("# Title ----")).err(),
        Some(FoldingRangeError::PositionOutOfRange)
    );
}

#[test]
fn empty_document_has_no_ranges() {
    assert_eq!(fold(""), Vec::<Span>::new());
}

fn leaf(kind: &str, start: (usize, usize), end: (usize, usize)) -> SyntaxNode {
    SyntaxNode {
        kind: kind.to_string(),
        start_row: start.0,
        start_column: start.1,
        end_row: end.0,
        end_column: end.1,
        has_error: false,
        children: Vec::new(),
    }
}

#[test]
fn tree_with_error_flag_is_refused() {
    let mut root = leaf("program", (0, 0), (1, 0));
    root.has_error = true;
    assert_eq!(
        folding_range_of_tree(&doc("x\n"), &root).err(),
        Some(FoldingRangeError::ParseError)
    );
}

#[test]
fn hand_built_tree_folds() {
    let text = "{\n  1\n}\n";
    let mut braces = leaf("braced_expression", (0, 0), (2, 1));
    braces.children.push(leaf("{", (0, 0), (0, 1)));
    braces.children.push(leaf("float", (1, 2), (1, 3)));
    braces.children.push(leaf("}", (2, 0), (2, 1)));
    let mut root = leaf("program", (0, 0), (3, 0));
    root.children.push(braces);
    let ranges = folding_range_of_tree(&doc(text), &root).unwrap();
    assert_eq!(spans(&ranges), vec![(0, Some(0), 1, None)]);
}

#[test]
fn bracket_at_column_zero_is_out_of_range() {
    let mut root = leaf("program", (0, 0), (3, 0));
    root.children.push(leaf("braced_expression", (0, 0), (2, 0)));
    assert_eq!(
        folding_range_of_tree(&doc("{\n\n\n"), &root).err(),
        Some(FoldingRangeError::PositionOutOfRange)
    );
}

#[test]
fn parse_r_gives_a_program() {
    let tree = parse_r("x <- 1\n").unwrap();
    assert_eq!(tree.kind, "program");
    assert_eq!((tree.start_row, tree.start_column), (0, 0));
    assert!(!tree.has_error);
    assert_eq!(tree.children.len(), 1);
    assert_eq!(tree.children[0].kind, "binary_operator");
}

#[test]
fn bracket_range_examples() {
    // closing bracket first on its line: stop at the end of the line before
    let r = bracket_range(0, 4, 3, 2, 2);
    assert_eq!((r.start_line, r.start_character, r.end_line, r.end_character), (0, Some(4), 2, None));
    // code before the closing bracket: stop one character before it
    let r = bracket_range(0, 4, 3, 7, 2);
    assert_eq!((r.start_line, r.start_character, r.end_line, r.end_character), (0, Some(4), 3, Some(6)));
    // bracket inside the indentation: the end stays at the bracket
    let r = bracket_range(1, 0, 3, 1, 4);
    assert_eq!((r.start_line, r.start_character, r.end_line, r.end_character), (1, Some(0), 3, Some(1)));
    assert_eq!(r.kind, Some(FoldingRangeKind::Region));
}

#[test]
fn comment_range_example() {
    let r = comment_range(4, 9);
    assert_eq!((r.start_line, r.start_character, r.end_line, r.end_character), (4, None, 9, None));
    assert!(r.collapsed_text.is_none());
}

#[test]
fn endregion_without_region_folds_nothing() {
    assert_eq!(fold("# endregion\nx <- 1\n"), Vec::<Span>::new());
}

#[test]
fn second_region_start_replaces_the_first() {
    let text = "# region a\nx <- 1\n# region b\ny <- 2\n# endregion\n";
    assert_eq!(fold(text), vec![(2, None, 4, None)]);
}
