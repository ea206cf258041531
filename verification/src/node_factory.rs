use vstd::prelude::*;

verus! {

/// The kinds of the nodes of an R syntax tree that this factory makes.
#[allow(non_camel_case_types)]
#[derive(PartialEq, Eq, Structural, Clone, Copy, Debug)]
pub enum RSyntaxKind {
    R_ARGUMENT,
    R_ARGUMENT_NAME_CLAUSE,
    R_BINARY_EXPRESSION,
    R_BRACED_EXPRESSIONS,
    R_BREAK_EXPRESSION,
    R_CALL,
    R_CALL_ARGUMENTS,
    R_COMPLEX_VALUE,
    R_DOT_DOT_I,
    R_DOTS,
    R_DOUBLE_VALUE,
    R_ELSE_CLAUSE,
    R_EXTRACT_EXPRESSION,
    R_FALSE_EXPRESSION,
    R_FOR_STATEMENT,
    R_FUNCTION_DEFINITION,
    R_IDENTIFIER,
    R_IF_STATEMENT,
    R_INF_EXPRESSION,
    R_INTEGER_VALUE,
    R_NA_EXPRESSION,
    R_NAMESPACE_EXPRESSION,
    R_NAN_EXPRESSION,
    R_NEXT_EXPRESSION,
    R_NULL_EXPRESSION,
    R_PARAMETER,
    R_PARAMETER_DEFAULT,
    R_PARAMETERS,
    R_PARENTHESIZED_EXPRESSION,
    R_REPEAT_STATEMENT,
    R_RETURN_EXPRESSION,
    R_ROOT,
    R_STRING_VALUE,
    R_SUBSET,
    R_SUBSET2,
    R_SUBSET2_ARGUMENTS,
    R_SUBSET_ARGUMENTS,
    R_TRUE_EXPRESSION,
    R_UNARY_EXPRESSION,
    R_WHILE_STATEMENT,
    R_ARGUMENT_LIST,
    R_EXPRESSION_LIST,
    R_PARAMETER_LIST,
    R_BOGUS,
    R_BOGUS_EXPRESSION,
    R_BOGUS_VALUE,
}

/// A child of a syntax node: a node (`N`) or a token (`T`).
pub enum SyntaxElement<N, T> {
    Node(N),
    Token(T),
}

/// A syntax node not yet attached to a tree: its kind and its slots, in order;
/// an empty slot is a child that is absent.
pub struct RawSyntaxNode<N, T> {
    pub kind: RSyntaxKind,
    pub slots: Vec<Option<SyntaxElement<N, T>>>,
}

/// A slot that holds the node `n`.
pub open spec fn node<N, T>(n: N) -> Option<SyntaxElement<N, T>> {
    Some(SyntaxElement::Node(n))
}

/// A slot that holds the token `t`.
pub open spec fn token<N, T>(t: T) -> Option<SyntaxElement<N, T>> {
    Some(SyntaxElement::Token(t))
}

/// A slot that holds the node `n`, if there is one.
pub open spec fn optional_node<N, T>(n: Option<N>) -> Option<SyntaxElement<N, T>> {
    match n {
        Some(v) => Some(SyntaxElement::Node(v)),
        None => None,
    }
}

/// A slot that holds the token `t`, if there is one.
pub open spec fn optional_token<N, T>(t: Option<T>) -> Option<SyntaxElement<N, T>> {
    match t {
        Some(v) => Some(SyntaxElement::Token(v)),
        None => None,
    }
}

fn node_slot<N, T>(n: Option<N>) -> (r: Option<SyntaxElement<N, T>>)
    ensures
        r == optional_node::<N, T>(n),
{
    match n {
        Some(v) => Some(SyntaxElement::Node(v)),
        None => None,
    }
}

fn token_slot<N, T>(t: Option<T>) -> (r: Option<SyntaxElement<N, T>>)
    ensures
        r == optional_token::<N, T>(t),
{
    match t {
        Some(v) => Some(SyntaxElement::Token(v)),
        None => None,
    }
}

// ---------------------------------------------------------------------------
// Nodes with optional children: builders
// ---------------------------------------------------------------------------

/// An `R_ARGUMENT` node under construction: an optional name clause and an
/// optional value.
pub struct RArgumentBuilder<N> {
    name_clause: Option<N>,
    value: Option<N>,
}

impl<N> View for RArgumentBuilder<N> {
    type V = (Option<N>, Option<N>);

    closed spec fn view(&self) -> (Option<N>, Option<N>) {
        (self.name_clause, self.value)
    }
}

/// An argument with neither name clause nor value yet.
pub fn r_argument<N>() -> (b: RArgumentBuilder<N>)
    ensures
        b@ == (None::<N>, None::<N>),
{
    RArgumentBuilder { name_clause: None, value: None }
}

impl<N> RArgumentBuilder<N> {
    pub fn with_name_clause(self, name_clause: N) -> (b: Self)
        ensures
            b@ == (Some(name_clause), self@.1),
    {
        let mut b = self;
        b.name_clause = Some(name_clause);
        b
    }

    pub fn with_value(self, value: N) -> (b: Self)
        ensures
            b@ == (self@.0, Some(value)),
    {
        let mut b = self;
        b.value = Some(value);
        b
    }

    /// The node: the name clause's slot, then the value's.
    pub fn build<T>(self) -> (r: RawSyntaxNode<N, T>)
        ensures
            r.kind == RSyntaxKind::R_ARGUMENT,
            r.slots@ == seq![optional_node::<N, T>(self@.0), optional_node::<N, T>(self@.1)],
    {
        let slots = vec![node_slot(self.name_clause), node_slot(self.value)];
        RawSyntaxNode { kind: RSyntaxKind::R_ARGUMENT, slots }
    }
}

/// A detached `R_ARGUMENT_NAME_CLAUSE` node.
pub fn r_argument_name_clause<N, T>(name: N, eq_token: T) -> (r: RawSyntaxNode<N, T>)
    ensures
        r.kind == RSyntaxKind::R_ARGUMENT_NAME_CLAUSE,
        r.slots@ == seq![node::<N, T>(name), token::<N, T>(eq_token)],
{
    let slots = vec![
            Some(SyntaxElement::Node(name)),
            Some(SyntaxElement::Token(eq_token)),
        ];
    RawSyntaxNode { kind: RSyntaxKind::R_ARGUMENT_NAME_CLAUSE, slots }
}

/// A detached `R_BINARY_EXPRESSION` node.
pub fn r_binary_expression<N, T>(left: N, operator_token: T, right: N) -> (r: RawSyntaxNode<N, T>)
    ensures
        r.kind == RSyntaxKind::R_BINARY_EXPRESSION,
        r.slots@ == seq![node::<N, T>(left), token::<N, T>(operator_token), node::<N, T>(right)],
{
    let slots = vec![
            Some(SyntaxElement::Node(left)),
            Some(SyntaxElement::Token(operator_token)),
            Some(SyntaxElement::Node(right)),
        ];
    RawSyntaxNode { kind: RSyntaxKind::R_BINARY_EXPRESSION, slots }
}

/// A detached `R_BRACED_EXPRESSIONS` node.
pub fn r_braced_expressions<N, T>(l_curly_token: T, expressions: N, r_curly_token: T) -> (r: RawSyntaxNode<N, T>)
    ensures
        r.kind == RSyntaxKind::R_BRACED_EXPRESSIONS,
        r.slots@ == seq![token::<N, T>(l_curly_token), node::<N, T>(expressions), token::<N, T>(r_curly_token)],
{
    let slots = vec![
            Some(SyntaxElement::Token(l_curly_token)),
            Some(SyntaxElement::Node(expressions)),
            Some(SyntaxElement::Token(r_curly_token)),
        ];
    RawSyntaxNode { kind: RSyntaxKind::R_BRACED_EXPRESSIONS, slots }
}

/// A detached `R_BREAK_EXPRESSION` node.
pub fn r_break_expression<N, T>(break_token: T) -> (r: RawSyntaxNode<N, T>)
    ensures
        r.kind == RSyntaxKind::R_BREAK_EXPRESSION,
        r.slots@ == seq![token::<N, T>(break_token)],
{
    let slots = vec![
            Some(SyntaxElement::Token(break_token)),
        ];
    RawSyntaxNode { kind: RSyntaxKind::R_BREAK_EXPRESSION, slots }
}

/// A detached `R_CALL` node.
pub fn r_call<N, T>(function: N, arguments: N) -> (r: RawSyntaxNode<N, T>)
    ensures
        r.kind == RSyntaxKind::R_CALL,
        r.slots@ == seq![node::<N, T>(function), node::<N, T>(arguments)],
{
    let slots = vec![
            Some(SyntaxElement::Node(function)),
            Some(SyntaxElement::Node(arguments)),
        ];
    RawSyntaxNode { kind: RSyntaxKind::R_CALL, slots }
}

/// A detached `R_CALL_ARGUMENTS` node.
pub fn r_call_arguments<N, T>(l_paren_token: T, items: N, r_paren_token: T) -> (r: RawSyntaxNode<N, T>)
    ensures
        r.kind == RSyntaxKind::R_CALL_ARGUMENTS,
        r.slots@ == seq![token::<N, T>(l_paren_token), node::<N, T>(items), token::<N, T>(r_paren_token)],
{
    let slots = vec![
            Some(SyntaxElement::Token(l_paren_token)),
            Some(SyntaxElement::Node(items)),
            Some(SyntaxElement::Token(r_paren_token)),
        ];
    RawSyntaxNode { kind: RSyntaxKind::R_CALL_ARGUMENTS, slots }
}

/// A detached `R_COMPLEX_VALUE` node.
pub fn r_complex_value<N, T>(value_token: T) -> (r: RawSyntaxNode<N, T>)
    ensures
        r.kind == RSyntaxKind::R_COMPLEX_VALUE,
        r.slots@ == seq![token::<N, T>(value_token)],
{
    let slots = vec![
            Some(SyntaxElement::Token(value_token)),
        ];
    RawSyntaxNode { kind: RSyntaxKind::R_COMPLEX_VALUE, slots }
}

/// A detached `R_DOT_DOT_I` node.
pub fn r_dot_dot_i<N, T>(value_token: T) -> (r: RawSyntaxNode<N, T>)
    ensures
        r.kind == RSyntaxKind::R_DOT_DOT_I,
        r.slots@ == seq![token::<N, T>(value_token)],
{
    let slots = vec![
            Some(SyntaxElement::Token(value_token)),
        ];
    RawSyntaxNode { kind: RSyntaxKind::R_DOT_DOT_I, slots }
}

/// A detached `R_DOTS` node.
pub fn r_dots<N, T>(value_token: T) -> (r: RawSyntaxNode<N, T>)
    ensures
        r.kind == RSyntaxKind::R_DOTS,
        r.slots@ == seq![token::<N, T>(value_token)],
{
    let slots = vec![
            Some(SyntaxElement::Token(value_token)),
        ];
    RawSyntaxNode { kind: RSyntaxKind::R_DOTS, slots }
}

/// A detached `R_DOUBLE_VALUE` node.
pub fn r_double_value<N, T>(value_token: T) -> (r: RawSyntaxNode<N, T>)
    ensures
        r.kind == RSyntaxKind::R_DOUBLE_VALUE,
        r.slots@ == seq![token::<N, T>(value_token)],
{
    let slots = vec![
            Some(SyntaxElement::Token(value_token)),
        ];
    RawSyntaxNode { kind: RSyntaxKind::R_DOUBLE_VALUE, slots }
}

/// A detached `R_ELSE_CLAUSE` node.
pub fn r_else_clause<N, T>(else_token: T, alternative: N) -> (r: RawSyntaxNode<N, T>)
    ensures
        r.kind == RSyntaxKind::R_ELSE_CLAUSE,
        r.slots@ == seq![token::<N, T>(else_token), node::<N, T>(alternative)],
{
    let slots = vec![
            Some(SyntaxElement::Token(else_token)),
            Some(SyntaxElement::Node(alternative)),
        ];
    RawSyntaxNode { kind: RSyntaxKind::R_ELSE_CLAUSE, slots }
}

/// A detached `R_EXTRACT_EXPRESSION` node.
pub fn r_extract_expression<N, T>(left: N, operator_token: T, right: N) -> (r: RawSyntaxNode<N, T>)
    ensures
        r.kind == RSyntaxKind::R_EXTRACT_EXPRESSION,
        r.slots@ == seq![node::<N, T>(left), token::<N, T>(operator_token), node::<N, T>(right)],
{
    let slots = vec![
            Some(SyntaxElement::Node(left)),
            Some(SyntaxElement::Token(operator_token)),
            Some(SyntaxElement::Node(right)),
        ];
    RawSyntaxNode { kind: RSyntaxKind::R_EXTRACT_EXPRESSION, slots }
}

/// A detached `R_FALSE_EXPRESSION` node.
pub fn r_false_expression<N, T>(false_token: T) -> (r: RawSyntaxNode<N, T>)
    ensures
        r.kind == RSyntaxKind::R_FALSE_EXPRESSION,
        r.slots@ == seq![token::<N, T>(false_token)],
{
    let slots = vec![
            Some(SyntaxElement::Token(false_token)),
        ];
    RawSyntaxNode { kind: RSyntaxKind::R_FALSE_EXPRESSION, slots }
}

/// A detached `R_FOR_STATEMENT` node.
pub fn r_for_statement<N, T>(for_token: T, l_paren_token: T, variable: N, in_token: T, sequence: N, r_paren_token: T, body: N) -> (r: RawSyntaxNode<N, T>)
    ensures
        r.kind == RSyntaxKind::R_FOR_STATEMENT,
        r.slots@ == seq![token::<N, T>(for_token), token::<N, T>(l_paren_token), node::<N, T>(variable), token::<N, T>(in_token), node::<N, T>(sequence), token::<N, T>(r_paren_token), node::<N, T>(body)],
{
    let slots = vec![
            Some(SyntaxElement::Token(for_token)),
            Some(SyntaxElement::Token(l_paren_token)),
            Some(SyntaxElement::Node(variable)),
            Some(SyntaxElement::Token(in_token)),
            Some(SyntaxElement::Node(sequence)),
            Some(SyntaxElement::Token(r_paren_token)),
            Some(SyntaxElement::Node(body)),
        ];
    RawSyntaxNode { kind: RSyntaxKind::R_FOR_STATEMENT, slots }
}

/// A detached `R_FUNCTION_DEFINITION` node.
pub fn r_function_definition<N, T>(name_token: T, parameters: N, body: N) -> (r: RawSyntaxNode<N, T>)
    ensures
        r.kind == RSyntaxKind::R_FUNCTION_DEFINITION,
        r.slots@ == seq![token::<N, T>(name_token), node::<N, T>(parameters), node::<N, T>(body)],
{
    let slots = vec![
            Some(SyntaxElement::Token(name_token)),
            Some(SyntaxElement::Node(parameters)),
            Some(SyntaxElement::Node(body)),
        ];
    RawSyntaxNode { kind: RSyntaxKind::R_FUNCTION_DEFINITION, slots }
}

/// A detached `R_IDENTIFIER` node.
pub fn r_identifier<N, T>(name_token: T) -> (r: RawSyntaxNode<N, T>)
    ensures
        r.kind == RSyntaxKind::R_IDENTIFIER,
        r.slots@ == seq![token::<N, T>(name_token)],
{
    let slots = vec![
            Some(SyntaxElement::Token(name_token)),
        ];
    RawSyntaxNode { kind: RSyntaxKind::R_IDENTIFIER, slots }
}

/// A detached `R_INF_EXPRESSION` node.
pub fn r_inf_expression<N, T>(inf_token: T) -> (r: RawSyntaxNode<N, T>)
    ensures
        r.kind == RSyntaxKind::R_INF_EXPRESSION,
        r.slots@ == seq![token::<N, T>(inf_token)],
{
    let slots = vec![
            Some(SyntaxElement::Token(inf_token)),
        ];
    RawSyntaxNode { kind: RSyntaxKind::R_INF_EXPRESSION, slots }
}

/// A detached `R_INTEGER_VALUE` node.
pub fn r_integer_value<N, T>(value_token: T) -> (r: RawSyntaxNode<N, T>)
    ensures
        r.kind == RSyntaxKind::R_INTEGER_VALUE,
        r.slots@ == seq![token::<N, T>(value_token)],
{
    let slots = vec![
            Some(SyntaxElement::Token(value_token)),
        ];
    RawSyntaxNode { kind: RSyntaxKind::R_INTEGER_VALUE, slots }
}

/// A detached `R_NA_EXPRESSION` node.
pub fn r_na_expression<N, T>(value_token: T) -> (r: RawSyntaxNode<N, T>)
    ensures
        r.kind == RSyntaxKind::R_NA_EXPRESSION,
        r.slots@ == seq![token::<N, T>(value_token)],
{
    let slots = vec![
            Some(SyntaxElement::Token(value_token)),
        ];
    RawSyntaxNode { kind: RSyntaxKind::R_NA_EXPRESSION, slots }
}

/// A detached `R_NAMESPACE_EXPRESSION` node.
pub fn r_namespace_expression<N, T>(left: N, operator_token: T, right: N) -> (r: RawSyntaxNode<N, T>)
    ensures
        r.kind == RSyntaxKind::R_NAMESPACE_EXPRESSION,
        r.slots@ == seq![node::<N, T>(left), token::<N, T>(operator_token), node::<N, T>(right)],
{
    let slots = vec![
            Some(SyntaxElement::Node(left)),
            Some(SyntaxElement::Token(operator_token)),
            Some(SyntaxElement::Node(right)),
        ];
    RawSyntaxNode { kind: RSyntaxKind::R_NAMESPACE_EXPRESSION, slots }
}

/// A detached `R_NAN_EXPRESSION` node.
pub fn r_nan_expression<N, T>(nan_token: T) -> (r: RawSyntaxNode<N, T>)
    ensures
        r.kind == RSyntaxKind::R_NAN_EXPRESSION,
        r.slots@ == seq![token::<N, T>(nan_token)],
{
    let slots = vec![
            Some(SyntaxElement::Token(nan_token)),
        ];
    RawSyntaxNode { kind: RSyntaxKind::R_NAN_EXPRESSION, slots }
}

/// A detached `R_NEXT_EXPRESSION` node.
pub fn r_next_expression<N, T>(next_token: T) -> (r: RawSyntaxNode<N, T>)
    ensures
        r.kind == RSyntaxKind::R_NEXT_EXPRESSION,
        r.slots@ == seq![token::<N, T>(next_token)],
{
    let slots = vec![
            Some(SyntaxElement::Token(next_token)),
        ];
    RawSyntaxNode { kind: RSyntaxKind::R_NEXT_EXPRESSION, slots }
}

/// A detached `R_NULL_EXPRESSION` node.
pub fn r_null_expression<N, T>(null_token: T) -> (r: RawSyntaxNode<N, T>)
    ensures
        r.kind == RSyntaxKind::R_NULL_EXPRESSION,
        r.slots@ == seq![token::<N, T>(null_token)],
{
    let slots = vec![
            Some(SyntaxElement::Token(null_token)),
        ];
    RawSyntaxNode { kind: RSyntaxKind::R_NULL_EXPRESSION, slots }
}

/// A detached `R_PARAMETER_DEFAULT` node.
pub fn r_parameter_default<N, T>(eq_token: T, value: N) -> (r: RawSyntaxNode<N, T>)
    ensures
        r.kind == RSyntaxKind::R_PARAMETER_DEFAULT,
        r.slots@ == seq![token::<N, T>(eq_token), node::<N, T>(value)],
{
    let slots = vec![
            Some(SyntaxElement::Token(eq_token)),
            Some(SyntaxElement::Node(value)),
        ];
    RawSyntaxNode { kind: RSyntaxKind::R_PARAMETER_DEFAULT, slots }
}

/// A detached `R_PARAMETERS` node.
pub fn r_parameters<N, T>(l_paren_token: T, items: N, r_paren_token: T) -> (r: RawSyntaxNode<N, T>)
    ensures
        r.kind == RSyntaxKind::R_PARAMETERS,
        r.slots@ == seq![token::<N, T>(l_paren_token), node::<N, T>(items), token::<N, T>(r_paren_token)],
{
    let slots = vec![
            Some(SyntaxElement::Token(l_paren_token)),
            Some(SyntaxElement::Node(items)),
            Some(SyntaxElement::Token(r_paren_token)),
        ];
    RawSyntaxNode { kind: RSyntaxKind::R_PARAMETERS, slots }
}

/// A detached `R_PARENTHESIZED_EXPRESSION` node.
pub fn r_parenthesized_expression<N, T>(l_paren_token: T, body: N, r_paren_token: T) -> (r: RawSyntaxNode<N, T>)
    ensures
        r.kind == RSyntaxKind::R_PARENTHESIZED_EXPRESSION,
        r.slots@ == seq![token::<N, T>(l_paren_token), node::<N, T>(body), token::<N, T>(r_paren_token)],
{
    let slots = vec![
            Some(SyntaxElement::Token(l_paren_token)),
            Some(SyntaxElement::Node(body)),
            Some(SyntaxElement::Token(r_paren_token)),
        ];
    RawSyntaxNode { kind: RSyntaxKind::R_PARENTHESIZED_EXPRESSION, slots }
}

/// A detached `R_REPEAT_STATEMENT` node.
pub fn r_repeat_statement<N, T>(repeat_token: T, body: N) -> (r: RawSyntaxNode<N, T>)
    ensures
        r.kind == RSyntaxKind::R_REPEAT_STATEMENT,
        r.slots@ == seq![token::<N, T>(repeat_token), node::<N, T>(body)],
{
    let slots = vec![
            Some(SyntaxElement::Token(repeat_token)),
            Some(SyntaxElement::Node(body)),
        ];
    RawSyntaxNode { kind: RSyntaxKind::R_REPEAT_STATEMENT, slots }
}

/// A detached `R_RETURN_EXPRESSION` node.
pub fn r_return_expression<N, T>(return_token: T) -> (r: RawSyntaxNode<N, T>)
    ensures
        r.kind == RSyntaxKind::R_RETURN_EXPRESSION,
        r.slots@ == seq![token::<N, T>(return_token)],
{
    let slots = vec![
            Some(SyntaxElement::Token(return_token)),
        ];
    RawSyntaxNode { kind: RSyntaxKind::R_RETURN_EXPRESSION, slots }
}

/// A detached `R_STRING_VALUE` node.
pub fn r_string_value<N, T>(value_token: T) -> (r: RawSyntaxNode<N, T>)
    ensures
        r.kind == RSyntaxKind::R_STRING_VALUE,
        r.slots@ == seq![token::<N, T>(value_token)],
{
    let slots = vec![
            Some(SyntaxElement::Token(value_token)),
        ];
    RawSyntaxNode { kind: RSyntaxKind::R_STRING_VALUE, slots }
}

/// A detached `R_SUBSET` node.
pub fn r_subset<N, T>(function: N, arguments: N) -> (r: RawSyntaxNode<N, T>)
    ensures
        r.kind == RSyntaxKind::R_SUBSET,
        r.slots@ == seq![node::<N, T>(function), node::<N, T>(arguments)],
{
    let slots = vec![
            Some(SyntaxElement::Node(function)),
            Some(SyntaxElement::Node(arguments)),
        ];
    RawSyntaxNode { kind: RSyntaxKind::R_SUBSET, slots }
}

/// A detached `R_SUBSET2` node.
pub fn r_subset2<N, T>(function: N, arguments: N) -> (r: RawSyntaxNode<N, T>)
    ensures
        r.kind == RSyntaxKind::R_SUBSET2,
        r.slots@ == seq![node::<N, T>(function), node::<N, T>(arguments)],
{
    let slots = vec![
            Some(SyntaxElement::Node(function)),
            Some(SyntaxElement::Node(arguments)),
        ];
    RawSyntaxNode { kind: RSyntaxKind::R_SUBSET2, slots }
}

/// A detached `R_SUBSET2_ARGUMENTS` node.
pub fn r_subset2_arguments<N, T>(l_brack2_token: T, items: N, r_brack2_token: T) -> (r: RawSyntaxNode<N, T>)
    ensures
        r.kind == RSyntaxKind::R_SUBSET2_ARGUMENTS,
        r.slots@ == seq![token::<N, T>(l_brack2_token), node::<N, T>(items), token::<N, T>(r_brack2_token)],
{
    let slots = vec![
            Some(SyntaxElement::Token(l_brack2_token)),
            Some(SyntaxElement::Node(items)),
            Some(SyntaxElement::Token(r_brack2_token)),
        ];
    RawSyntaxNode { kind: RSyntaxKind::R_SUBSET2_ARGUMENTS, slots }
}

/// A detached `R_SUBSET_ARGUMENTS` node.
pub fn r_subset_arguments<N, T>(l_brack_token: T, items: N, r_brack_token: T) -> (r: RawSyntaxNode<N, T>)
    ensures
        r.kind == RSyntaxKind::R_SUBSET_ARGUMENTS,
        r.slots@ == seq![token::<N, T>(l_brack_token), node::<N, T>(items), token::<N, T>(r_brack_token)],
{
    let slots = vec![
            Some(SyntaxElement::Token(l_brack_token)),
            Some(SyntaxElement::Node(items)),
            Some(SyntaxElement::Token(r_brack_token)),
        ];
    RawSyntaxNode { kind: RSyntaxKind::R_SUBSET_ARGUMENTS, slots }
}

/// A detached `R_TRUE_EXPRESSION` node.
pub fn r_true_expression<N, T>(true_token: T) -> (r: RawSyntaxNode<N, T>)
    ensures
        r.kind == RSyntaxKind::R_TRUE_EXPRESSION,
        r.slots@ == seq![token::<N, T>(true_token)],
{
    let slots = vec![
            Some(SyntaxElement::Token(true_token)),
        ];
    RawSyntaxNode { kind: RSyntaxKind::R_TRUE_EXPRESSION, slots }
}

/// A detached `R_UNARY_EXPRESSION` node.
pub fn r_unary_expression<N, T>(operator_token: T, argument: N) -> (r: RawSyntaxNode<N, T>)
    ensures
        r.kind == RSyntaxKind::R_UNARY_EXPRESSION,
        r.slots@ == seq![token::<N, T>(operator_token), node::<N, T>(argument)],
{
    let slots = vec![
            Some(SyntaxElement::Token(operator_token)),
            Some(SyntaxElement::Node(argument)),
        ];
    RawSyntaxNode { kind: RSyntaxKind::R_UNARY_EXPRESSION, slots }
}

/// A detached `R_WHILE_STATEMENT` node.
pub fn r_while_statement<N, T>(while_token: T, l_paren_token: T, condition: N, r_paren_token: T, body: N) -> (r: RawSyntaxNode<N, T>)
    ensures
        r.kind == RSyntaxKind::R_WHILE_STATEMENT,
        r.slots@ == seq![token::<N, T>(while_token), token::<N, T>(l_paren_token), node::<N, T>(condition), token::<N, T>(r_paren_token), node::<N, T>(body)],
{
    let slots = vec![
            Some(SyntaxElement::Token(while_token)),
            Some(SyntaxElement::Token(l_paren_token)),
            Some(SyntaxElement::Node(condition)),
            Some(SyntaxElement::Token(r_paren_token)),
            Some(SyntaxElement::Node(body)),
        ];
    RawSyntaxNode { kind: RSyntaxKind::R_WHILE_STATEMENT, slots }
}

/// An `R_IF_STATEMENT` node under construction: `if`, `(`, condition, `)`,
/// consequence, and an optional else clause.
pub struct RIfStatementBuilder<N, T> {
    if_token: T,
    l_paren_token: T,
    condition: N,
    r_paren_token: T,
    consequence: N,
    else_clause: Option<N>,
}

impl<N, T> View for RIfStatementBuilder<N, T> {
    type V = (T, T, N, T, N, Option<N>);

    closed spec fn view(&self) -> (T, T, N, T, N, Option<N>) {
        (
            self.if_token,
            self.l_paren_token,
            self.condition,
            self.r_paren_token,
            self.consequence,
            self.else_clause,
        )
    }
}

/// An if statement without an else clause yet.
pub fn r_if_statement<N, T>(
    if_token: T,
    l_paren_token: T,
    condition: N,
    r_paren_token: T,
    consequence: N,
) -> (b: RIfStatementBuilder<N, T>)
    ensures
        b@ == (if_token, l_paren_token, condition, r_paren_token, consequence, None::<N>),
{
    RIfStatementBuilder {
        if_token,
        l_paren_token,
        condition,
        r_paren_token,
        consequence,
        else_clause: None,
    }
}

impl<N, T> RIfStatementBuilder<N, T> {
    pub fn with_else_clause(self, else_clause: N) -> (b: Self)
        ensures
            b@ == (self@.0, self@.1, self@.2, self@.3, self@.4, Some(else_clause)),
    {
        let mut b = self;
        b.else_clause = Some(else_clause);
        b
    }

    /// The node: `if`, `(`, condition, `)`, consequence, then the else
    /// clause's slot.
    pub fn build(self) -> (r: RawSyntaxNode<N, T>)
        ensures
            r.kind == RSyntaxKind::R_IF_STATEMENT,
            r.slots@ == seq![
                token::<N, T>(self@.0),
                token::<N, T>(self@.1),
                node::<N, T>(self@.2),
                token::<N, T>(self@.3),
                node::<N, T>(self@.4),
                optional_node::<N, T>(self@.5),
            ],
    {
        let slots = vec![
            Some(SyntaxElement::Token(self.if_token)),
            Some(SyntaxElement::Token(self.l_paren_token)),
            Some(SyntaxElement::Node(self.condition)),
            Some(SyntaxElement::Token(self.r_paren_token)),
            Some(SyntaxElement::Node(self.consequence)),
            node_slot(self.else_clause),
        ];
        RawSyntaxNode { kind: RSyntaxKind::R_IF_STATEMENT, slots }
    }
}

/// An `R_PARAMETER` node under construction: a name and an optional default.
pub struct RParameterBuilder<N> {
    name: N,
    default: Option<N>,
}

impl<N> View for RParameterBuilder<N> {
    type V = (N, Option<N>);

    closed spec fn view(&self) -> (N, Option<N>) {
        (self.name, self.default)
    }
}

/// A parameter without a default yet.
pub fn r_parameter<N>(name: N) -> (b: RParameterBuilder<N>)
    ensures
        b@ == (name, None::<N>),
{
    RParameterBuilder { name, default: None }
}

impl<N> RParameterBuilder<N> {
    pub fn with_default(self, default: N) -> (b: Self)
        ensures
            b@ == (self@.0, Some(default)),
    {
        let mut b = self;
        b.default = Some(default);
        b
    }

    /// The node: the name, then the default's slot.
    pub fn build<T>(self) -> (r: RawSyntaxNode<N, T>)
        ensures
            r.kind == RSyntaxKind::R_PARAMETER,
            r.slots@ == seq![node::<N, T>(self@.0), optional_node::<N, T>(self@.1)],
    {
        let slots = vec![Some(SyntaxElement::Node(self.name)), node_slot(self.default)];
        RawSyntaxNode { kind: RSyntaxKind::R_PARAMETER, slots }
    }
}

/// An `R_ROOT` node under construction: the expressions, the end-of-file token
/// and an optional byte-order mark.
pub struct RRootBuilder<N, T> {
    expressions: N,
    eof_token: T,
    bom_token: Option<T>,
}

impl<N, T> View for RRootBuilder<N, T> {
    type V = (N, T, Option<T>);

    closed spec fn view(&self) -> (N, T, Option<T>) {
        (self.expressions, self.eof_token, self.bom_token)
    }
}

/// A root without a byte-order mark yet.
pub fn r_root<N, T>(expressions: N, eof_token: T) -> (b: RRootBuilder<N, T>)
    ensures
        b@ == (expressions, eof_token, None::<T>),
{
    RRootBuilder { expressions, eof_token, bom_token: None }
}

impl<N, T> RRootBuilder<N, T> {
    pub fn with_bom_token(self, bom_token: T) -> (b: Self)
        ensures
            b@ == (self@.0, self@.1, Some(bom_token)),
    {
        let mut b = self;
        b.bom_token = Some(bom_token);
        b
    }

    /// The node: the byte-order mark's slot, the expressions, then the
    /// end-of-file token.
    pub fn build(self) -> (r: RawSyntaxNode<N, T>)
        ensures
            r.kind == RSyntaxKind::R_ROOT,
            r.slots@ == seq![
                optional_token::<N, T>(self@.2),
                node::<N, T>(self@.0),
                token::<N, T>(self@.1),
            ],
    {
        let slots = vec![
            token_slot(self.bom_token),
            Some(SyntaxElement::Node(self.expressions)),
            Some(SyntaxElement::Token(self.eof_token)),
        ];
        RawSyntaxNode { kind: RSyntaxKind::R_ROOT, slots }
    }
}

// ---------------------------------------------------------------------------
// Lists
// ---------------------------------------------------------------------------

/// Slot `i` of a separated list: even slots take the items in order, odd
/// slots the separators in order; a slot whose item or separator has run out
/// is empty.
pub open spec fn separated_slot<N, T>(items: Seq<N>, separators: Seq<T>, i: int) -> Option<
    SyntaxElement<N, T>,
> {
    if i % 2 == 0 {
        if i / 2 < items.len() {
            node::<N, T>(items[i / 2])
        } else {
            None
        }
    } else {
        if i / 2 < separators.len() {
            token::<N, T>(separators[i / 2])
        } else {
            None
        }
    }
}

/// The slots of a separated list: as many slots as items and separators
/// together, alternating item and separator.
pub open spec fn separated_slots<N, T>(items: Seq<N>, separators: Seq<T>) -> Seq<
    Option<SyntaxElement<N, T>>,
> {
    Seq::new(items.len() + separators.len(), |i: int| separated_slot(items, separators, i))
}

pub open spec fn min_int(a: int, b: int) -> int {
    if a < b {
        a
    } else {
        b
    }
}

fn separated_list<N, T>(kind: RSyntaxKind, items: Vec<N>, separators: Vec<T>) -> (r: RawSyntaxNode<
    N,
    T,
>)
    requires
        items.len() + separators.len() <= usize::MAX,
    ensures
        r.kind == kind,
        r.slots@ == separated_slots(items@, separators@),
{
    let ghost all_items = items@;
    let ghost all_separators = separators@;
    let length = items.len() + separators.len();
    let mut items = items;
    let mut separators = separators;
    let mut slots: Vec<Option<SyntaxElement<N, T>>> = Vec::new();
    let mut index: usize = 0;
    while index < length
        invariant
            length == all_items.len() + all_separators.len(),
            index <= length,
            items@ == all_items.skip(min_int((index as int + 1) / 2, all_items.len() as int)),
            separators@ == all_separators.skip(
                min_int(index as int / 2, all_separators.len() as int),
            ),
            slots@.len() == index,
            forall|j: int|
                0 <= j < index ==> #[trigger] slots@[j] == separated_slot(
                    all_items,
                    all_separators,
                    j,
                ),
        decreases length - index,
    {
        if index % 2 == 0 {
            if items.len() > 0 {
                let item = items.remove(0);
                slots.push(Some(SyntaxElement::Node(item)));
            } else {
                slots.push(None);
            }
        } else {
            if separators.len() > 0 {
                let separator = separators.remove(0);
                slots.push(Some(SyntaxElement::Token(separator)));
            } else {
                slots.push(None);
            }
        }
        index = index + 1;
    }
    assert(slots@ =~= separated_slots(all_items, all_separators));
    RawSyntaxNode { kind, slots }
}

/// A list of arguments separated by commas.
pub fn r_argument_list<N, T>(items: Vec<N>, separators: Vec<T>) -> (r: RawSyntaxNode<N, T>)
    requires
        items.len() + separators.len() <= usize::MAX,
    ensures
        r.kind == RSyntaxKind::R_ARGUMENT_LIST,
        r.slots@ == separated_slots(items@, separators@),
{
    separated_list(RSyntaxKind::R_ARGUMENT_LIST, items, separators)
}

/// A list of parameters separated by commas.
pub fn r_parameter_list<N, T>(items: Vec<N>, separators: Vec<T>) -> (r: RawSyntaxNode<N, T>)
    requires
        items.len() + separators.len() <= usize::MAX,
    ensures
        r.kind == RSyntaxKind::R_PARAMETER_LIST,
        r.slots@ == separated_slots(items@, separators@),
{
    separated_list(RSyntaxKind::R_PARAMETER_LIST, items, separators)
}

/// A list of expressions, one slot each.
pub fn r_expression_list<N, T>(items: Vec<N>) -> (r: RawSyntaxNode<N, T>)
    ensures
        r.kind == RSyntaxKind::R_EXPRESSION_LIST,
        r.slots@ == Seq::new(items@.len(), |i: int| node::<N, T>(items@[i])),
{
    let ghost all_items = items@;
    let n = items.len();
    let mut items = items;
    let mut slots: Vec<Option<SyntaxElement<N, T>>> = Vec::new();
    let mut i: usize = 0;
    while i < n
        invariant
            n == all_items.len(),
            i <= n,
            items@ == all_items.skip(i as int),
            slots@.len() == i,
            forall|j: int| 0 <= j < i ==> #[trigger] slots@[j] == node::<N, T>(all_items[j]),
        decreases n - i,
    {
        let item = items.remove(0);
        slots.push(Some(SyntaxElement::Node(item)));
        i = i + 1;
    }
    assert(slots@ =~= Seq::new(all_items.len(), |i: int| node::<N, T>(all_items[i])));
    RawSyntaxNode { kind: RSyntaxKind::R_EXPRESSION_LIST, slots }
}

/// A node that holds what could not be parsed, with the slots as given.
pub fn r_bogus<N, T>(slots: Vec<Option<SyntaxElement<N, T>>>) -> (r: RawSyntaxNode<N, T>)
    ensures
        r.kind == RSyntaxKind::R_BOGUS,
        r.slots@ == slots@,
{
    RawSyntaxNode { kind: RSyntaxKind::R_BOGUS, slots }
}

/// An expression that could not be parsed, with the slots as given.
pub fn r_bogus_expression<N, T>(slots: Vec<Option<SyntaxElement<N, T>>>) -> (r: RawSyntaxNode<N, T>)
    ensures
        r.kind == RSyntaxKind::R_BOGUS_EXPRESSION,
        r.slots@ == slots@,
{
    RawSyntaxNode { kind: RSyntaxKind::R_BOGUS_EXPRESSION, slots }
}

/// A value that could not be parsed, with the slots as given.
pub fn r_bogus_value<N, T>(slots: Vec<Option<SyntaxElement<N, T>>>) -> (r: RawSyntaxNode<N, T>)
    ensures
        r.kind == RSyntaxKind::R_BOGUS_VALUE,
        r.slots@ == slots@,
{
    RawSyntaxNode { kind: RSyntaxKind::R_BOGUS_VALUE, slots }
}

/// The slots of a separated list alternate: items sit at even slots and
/// separators at odd slots, each in its order.
pub proof fn lemma_separated_slots_alternate<N, T>(items: Seq<N>, separators: Seq<T>)
    ensures
        forall|k: int|
            0 <= k < items.len() && 2 * k < items.len() + separators.len() ==> #[trigger] separated_slots(
                items,
                separators,
            )[2 * k] == node::<N, T>(items[k]),
        forall|k: int|
            0 <= k < separators.len() && 2 * k + 1 < items.len() + separators.len()
                ==> #[trigger] separated_slots(items, separators)[2 * k + 1] == token::<N, T>(
                separators[k],
            ),
        separated_slots(items, separators).len() == items.len() + separators.len(),
{
    assert forall|k: int|
        0 <= k < items.len() && 2 * k < items.len() + separators.len() implies #[trigger] separated_slots(
        items,
        separators,
    )[2 * k] == node::<N, T>(items[k]) by {
        assert((2 * k) % 2 == 0);
        assert((2 * k) / 2 == k);
    }
    assert forall|k: int|
        0 <= k < separators.len() && 2 * k + 1 < items.len() + separators.len()
            implies #[trigger] separated_slots(items, separators)[2 * k + 1] == token::<N, T>(
        separators[k],
    ) by {
        assert((2 * k + 1) % 2 == 1);
        assert((2 * k + 1) / 2 == k);
    }
}
} // verus!
