use r_lsp::node_factory::{
    r_argument, r_argument_list, r_binary_expression, r_bogus, r_expression_list, r_if_statement,
    r_parameter, r_parameter_list, r_root, RSyntaxKind, RawSyntaxNode, SyntaxElement,
};

#[derive(Debug, PartialEq, Clone, Copy)]
enum Slot {
    N(&'static str),
    T(&'static str),
    Empty,
}

fn slots(node: RawSyntaxNode<&'static str, &'static str>) -> Vec<Slot> {
    node.slots
        .into_iter()
        .map(|s| match s {
            Some(SyntaxElement::Node(n)) => Slot::N(n),
            Some(SyntaxElement::Token(t)) => Slot::T(t),
            None => Slot::Empty,
        })
        .collect()
}

#[test]
fn binary_expression_slots() {
    let n = r_binary_expression("x", "+", "y");
    assert_eq!(n.kind, RSyntaxKind::R_BINARY_EXPRESSION);
    assert_eq!(slots(n), vec![Slot::N("x"), Slot::T("+"), Slot::N("y")]);
}

#[test]
fn argument_builder_fills_optional_slots() {
    let n = r_argument().build::<&'static str>();
    assert_eq!(n.kind, RSyntaxKind::R_ARGUMENT);
    assert_eq!(slots(n), vec![Slot::Empty, Slot::Empty]);
    let n = r_argument().with_value("1").build::<&'static str>();
    assert_eq!(slots(n), vec![Slot::Empty, Slot::N("1")]);
    let n = r_argument().with_name_clause("a =").with_value("1").build::<&'static str>();
    assert_eq!(slots(n), vec![Slot::N("a ="), Slot::N("1")]);
}

#[test]
fn if_statement_builder() {
    let n = r_if_statement("if", "(", "c", ")", "a").build();
    assert_eq!(n.kind, RSyntaxKind::R_IF_STATEMENT);
    assert_eq!(
        slots(n),
        vec![Slot::T("if"), Slot::T("("), Slot::N("c"), Slot::T(")"), Slot::N("a"), Slot::Empty]
    );
    let n = r_if_statement("if", "(", "c", ")", "a").with_else_clause("else b").build();
    assert_eq!(slots(n)[5], Slot::N("else b"));
}

#[test]
fn parameter_and_root_builders() {
    let n = r_parameter("x").with_default("= 1").build::<&'static str>();
    assert_eq!(n.kind, RSyntaxKind::R_PARAMETER);
    assert_eq!(slots(n), vec![Slot::N("x"), Slot::N("= 1")]);
    let n = r_root("exprs", "EOF").build();
    assert_eq!(slots(n), vec![Slot::Empty, Slot::N("exprs"), Slot::T("EOF")]);
    let n = r_root("exprs", "EOF").with_bom_token("BOM").build();
    assert_eq!(n.kind, RSyntaxKind::R_ROOT);
    assert_eq!(slots(n), vec![Slot::T("BOM"), Slot::N("exprs"), Slot::T("EOF")]);
}

#[test]
fn separated_lists_alternate() {
    let n = r_argument_list(vec!["a", "b", "c"], vec![",", ","]);
    assert_eq!(n.kind, RSyntaxKind::R_ARGUMENT_LIST);
    assert_eq!(
        slots(n),
        vec![Slot::N("a"), Slot::T(","), Slot::N("b"), Slot::T(","), Slot::N("c")]
    );
    let n = r_parameter_list(vec!["a", "b"], vec![",", ","]);
    assert_eq!(n.kind, RSyntaxKind::R_PARAMETER_LIST);
    assert_eq!(slots(n), vec![Slot::N("a"), Slot::T(","), Slot::N("b"), Slot::T(",")]);
}

#[test]
fn separated_list_with_too_few_items_has_empty_slots() {
    let n = r_argument_list(vec!["a"], vec![",", ",", ","]);
    assert_eq!(
        slots(n),
        vec![Slot::N("a"), Slot::T(","), Slot::Empty, Slot::T(",")]
    );
    let n = r_argument_list::<&'static str, &'static str>(vec![], vec![]);
    assert_eq!(slots(n), vec![]);
}

#[test]
fn expression_list_and_bogus() {
    let n = r_expression_list::<&'static str, &'static str>(vec!["x", "y"]);
    assert_eq!(n.kind, RSyntaxKind::R_EXPRESSION_LIST);
    assert_eq!(slots(n), vec![Slot::N("x"), Slot::N("y")]);
    let n = r_bogus(vec![Some(SyntaxElement::Token("?")), None]);
    assert_eq!(n.kind, RSyntaxKind::R_BOGUS);
    assert_eq!(slots(n), vec![Slot::T("?"), Slot::Empty]);
}
