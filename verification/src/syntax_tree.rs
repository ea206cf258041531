use vstd::prelude::*;

verus! {

/// What the folding logic reads of one node of a concrete syntax tree, with
/// the number of children the node has.
pub struct SyntaxNodeData {
    pub kind: String,
    pub start_row: usize,
    pub start_column: usize,
    pub end_row: usize,
    pub end_column: usize,
    pub has_error: bool,
    pub child_count: usize,
}

/// The mathematical value of a `SyntaxNodeData`.
pub struct NodeEntry {
    pub kind: Seq<char>,
    pub start_row: nat,
    pub start_column: nat,
    pub end_row: nat,
    pub end_column: nat,
    pub has_error: bool,
    pub child_count: nat,
}

impl View for SyntaxNodeData {
    type V = NodeEntry;

    open spec fn view(&self) -> NodeEntry {
        NodeEntry {
            kind: self.kind@,
            start_row: self.start_row as nat,
            start_column: self.start_column as nat,
            end_row: self.end_row as nat,
            end_column: self.end_column as nat,
            has_error: self.has_error,
            child_count: self.child_count as nat,
        }
    }
}

/// A node of a concrete syntax tree: its kind, the (row, column) positions
/// where it starts and ends, whether it holds a syntax error, and its children
/// in document order.
pub struct SyntaxNode {
    pub kind: String,
    pub start_row: usize,
    pub start_column: usize,
    pub end_row: usize,
    pub end_column: usize,
    pub has_error: bool,
    pub children: Vec<SyntaxNode>,
}

/// The mathematical value of a `SyntaxNode`.
pub struct SyntaxTree {
    pub kind: Seq<char>,
    pub start_row: nat,
    pub start_column: nat,
    pub end_row: nat,
    pub end_column: nat,
    pub has_error: bool,
    pub children: Seq<SyntaxTree>,
}

pub open spec fn empty_tree() -> SyntaxTree {
    SyntaxTree {
        kind: Seq::empty(),
        start_row: 0,
        start_column: 0,
        end_row: 0,
        end_column: 0,
        has_error: false,
        children: Seq::empty(),
    }
}

pub open spec fn tree_of(n: SyntaxNode) -> SyntaxTree
    decreases n,
{
    SyntaxTree {
        kind: n.kind@,
        start_row: n.start_row as nat,
        start_column: n.start_column as nat,
        end_row: n.end_row as nat,
        end_column: n.end_column as nat,
        has_error: n.has_error,
        children: Seq::new(
            n.children.len() as nat,
            |i: int|
                if 0 <= i < n.children.len() {
                    tree_of(n.children@[i])
                } else {
                    empty_tree()
                },
        ),
    }
}

impl View for SyntaxNode {
    type V = SyntaxTree;

    open spec fn view(&self) -> SyntaxTree {
        tree_of(*self)
    }
}

/// The views of a sequence of nodes.
pub open spec fn trees_of(v: Seq<SyntaxNode>) -> Seq<SyntaxTree> {
    Seq::new(v.len(), |i: int| v[i]@)
}

/// The views of a sequence of node records.
pub open spec fn entries_of(v: Seq<SyntaxNodeData>) -> Seq<NodeEntry> {
    Seq::new(v.len(), |i: int| v[i]@)
}

// ---------------------------------------------------------------------------
// Pre-order listing of a tree
// ---------------------------------------------------------------------------

/// The record of the root of `t`.
pub open spec fn entry_of(t: SyntaxTree) -> NodeEntry {
    NodeEntry {
        kind: t.kind,
        start_row: t.start_row,
        start_column: t.start_column,
        end_row: t.end_row,
        end_column: t.end_column,
        has_error: t.has_error,
        child_count: t.children.len(),
    }
}

/// The nodes of `t` in pre-order (a node before its children, children in
/// document order).
pub open spec fn preorder(t: SyntaxTree) -> Seq<NodeEntry>
    decreases t, 1nat,
{
    seq![entry_of(t)] + preorder_children(t, t.children.len())
}

/// The pre-order listings of the first `k` children of `t`, one after another.
pub open spec fn preorder_children(t: SyntaxTree, k: nat) -> Seq<NodeEntry>
    decreases t, 0nat, k,
{
    if k == 0 || k > t.children.len() {
        Seq::empty()
    } else {
        preorder_children(t, (k - 1) as nat) + preorder(t.children[k - 1])
    }
}

/// The tree whose root is `e` and whose children are `cs`.
pub open spec fn tree_from(e: NodeEntry, cs: Seq<SyntaxTree>) -> SyntaxTree {
    SyntaxTree {
        kind: e.kind,
        start_row: e.start_row,
        start_column: e.start_column,
        end_row: e.end_row,
        end_column: e.end_column,
        has_error: e.has_error,
        children: cs,
    }
}

/// Reads one tree from the pre-order listing `flat`, starting at `i`: the
/// tree, and the index just past it.
pub open spec fn tree_at(flat: Seq<NodeEntry>, i: int) -> Option<(SyntaxTree, int)>
    decreases flat.len() - i, 0int,
{
    if 0 <= i < flat.len() {
        match children_at(flat, i + 1, flat[i].child_count) {
            Some((cs, j)) => Some((tree_from(flat[i], cs), j)),
            None => None,
        }
    } else {
        None
    }
}

/// Reads `count` consecutive trees from `flat`, starting at `i`.
pub open spec fn children_at(flat: Seq<NodeEntry>, i: int, count: nat) -> Option<
    (Seq<SyntaxTree>, int),
>
    decreases flat.len() - i, count + 1,
{
    if count == 0 {
        Some((Seq::empty(), i))
    } else {
        match tree_at(flat, i) {
            Some((t, j)) => if i < j <= flat.len() {
                match children_at(flat, j, (count - 1) as nat) {
                    Some((ts, k)) => Some((seq![t] + ts, k)),
                    None => None,
                }
            } else {
                None
            },
            None => None,
        }
    }
}

/// The tree that `flat` lists in pre-order, if `flat` is such a listing.
pub open spec fn preorder_tree(flat: Seq<NodeEntry>) -> Option<SyntaxTree> {
    match tree_at(flat, 0) {
        Some((t, j)) => if j == flat.len() {
            Some(t)
        } else {
            None
        },
        None => None,
    }
}

/// A node built from a record and children has the record's fields and the
/// children's views.
proof fn lemma_tree_of_built(n: SyntaxNode, d: SyntaxNodeData, children: Seq<SyntaxNode>)
    requires
        n.kind == d.kind,
        n.start_row == d.start_row,
        n.start_column == d.start_column,
        n.end_row == d.end_row,
        n.end_column == d.end_column,
        n.has_error == d.has_error,
        n.children@ == children,
    ensures
        n@ == tree_from(d@, trees_of(children)),
{
    assert(n@.children =~= trees_of(children));
}

fn build_at(flat: &Vec<SyntaxNodeData>, i: usize) -> (r: Option<(SyntaxNode, usize)>)
    ensures
        match r {
            Some((n, j)) => tree_at(entries_of(flat@), i as int) == Some((n@, j as int)),
            None => tree_at(entries_of(flat@), i as int) is None,
        },
    decreases flat.len() - i,
{
    let ghost es = entries_of(flat@);
    if i >= flat.len() {
        return None;
    }
    let d = &flat[i];
    let count = d.child_count;
    let mut children: Vec<SyntaxNode> = Vec::new();
    let mut j: usize = i + 1;
    let mut remaining: usize = count;
    assert(es[i as int] == d@);
    while remaining > 0
        invariant
            es == entries_of(flat@),
            i < flat.len(),
            i < j <= flat.len(),
            remaining <= count,
            es[i as int].child_count == count,
            children_at(es, i as int + 1, count as nat) == match children_at(
                es,
                j as int,
                remaining as nat,
            ) {
                Some((ts, k)) => Some((trees_of(children@) + ts, k)),
                None => None,
            },
        decreases remaining,
    {
        let ghost before = children@;
        match build_at(flat, j) {
            Some((child, k)) => {
                if !(j < k && k <= flat.len()) {
                    assert(children_at(es, j as int, remaining as nat) is None);
                    assert(tree_at(es, i as int) is None);
                    return None;
                }
                children.push(child);
                proof {
                    assert(trees_of(children@) =~= trees_of(before) + seq![child@]);
                    let rest = children_at(es, k as int, (remaining - 1) as nat);
                    match rest {
                        Some((ts, m)) => {
                            assert(trees_of(before) + (seq![child@] + ts) =~= trees_of(
                                children@,
                            ) + ts);
                        },
                        None => {},
                    }
                }
                j = k;
                remaining = remaining - 1;
            },
            None => {
                assert(children_at(es, j as int, remaining as nat) is None);
                assert(tree_at(es, i as int) is None);
                return None;
            },
        }
    }
    assert(trees_of(children@) + Seq::<SyntaxTree>::empty() =~= trees_of(children@));
    let node = SyntaxNode {
        kind: d.kind.clone(),
        start_row: d.start_row,
        start_column: d.start_column,
        end_row: d.end_row,
        end_column: d.end_column,
        has_error: d.has_error,
        children,
    };
    proof {
        lemma_tree_of_built(node, *d, node.children@);
    }
    Some((node, j))
}

/// Rebuilds the tree that `flat` lists in pre-order; `None` when `flat` is not
/// the pre-order listing of one tree.
pub fn tree_from_preorder(flat: &Vec<SyntaxNodeData>) -> (r: Option<SyntaxNode>)
    ensures
        match r {
            Some(n) => preorder_tree(entries_of(flat@)) == Some(n@) && preorder(n@) == entries_of(
                flat@,
            ),
            None => preorder_tree(entries_of(flat@)) is None && forall|t: SyntaxTree|
                preorder(t) != entries_of(flat@),
        },
{
    proof {
        assert forall|t: SyntaxTree|
            preorder_tree(entries_of(flat@)) is None implies #[trigger] preorder(t)
                != entries_of(flat@) by {
            lemma_preorder_round_trip(entries_of(flat@), t);
        }
        lemma_preorder_round_trip(entries_of(flat@), empty_tree());
    }
    match build_at(flat, 0) {
        Some((n, j)) => if j == flat.len() {
            Some(n)
        } else {
            None
        },
        None => None,
    }
}

/// The pre-order listings of `ts`, one after another.
pub open spec fn concat_preorders(ts: Seq<SyntaxTree>) -> Seq<NodeEntry>
    decreases ts.len(),
{
    if ts.len() == 0 {
        Seq::empty()
    } else {
        preorder(ts[0]) + concat_preorders(ts.drop_first())
    }
}

proof fn lemma_concat_preorders_push(ts: Seq<SyntaxTree>, t: SyntaxTree)
    ensures
        concat_preorders(ts.push(t)) == concat_preorders(ts) + preorder(t),
    decreases ts.len(),
{
    if ts.len() == 0 {
        assert(ts.push(t).drop_first() =~= Seq::<SyntaxTree>::empty());
        assert(ts.push(t)[0] == t);
        assert(concat_preorders(Seq::<SyntaxTree>::empty()) == Seq::<NodeEntry>::empty());
        assert(concat_preorders(ts.push(t)) =~= preorder(t));
    } else {
        assert(ts.push(t).drop_first() =~= ts.drop_first().push(t));
        lemma_concat_preorders_push(ts.drop_first(), t);
        assert(concat_preorders(ts.push(t)) =~= concat_preorders(ts) + preorder(t));
    }
}

proof fn lemma_preorder_children(t: SyntaxTree, k: nat)
    requires
        k <= t.children.len(),
    ensures
        preorder_children(t, k) == concat_preorders(t.children.take(k as int)),
    decreases k,
{
    if k == 0 {
        assert(t.children.take(0) =~= Seq::<SyntaxTree>::empty());
    } else {
        lemma_preorder_children(t, (k - 1) as nat);
        assert(t.children.take(k as int) =~= t.children.take(k - 1).push(t.children[k - 1]));
        lemma_concat_preorders_push(t.children.take(k - 1), t.children[k - 1]);
    }
}

/// What `tree_at` reads is what it lists.
proof fn lemma_tree_at_lists(flat: Seq<NodeEntry>, i: int)
    ensures
        tree_at(flat, i) matches Some((t, j)) ==> i < j <= flat.len() && preorder(t)
            == flat.subrange(i, j),
    decreases flat.len() - i, 0int,
{
    if 0 <= i < flat.len() {
        let e = flat[i];
        lemma_children_at_lists(flat, i + 1, e.child_count);
        if let Some((cs, j)) = children_at(flat, i + 1, e.child_count) {
            let t = tree_from(e, cs);
            lemma_preorder_children(t, cs.len());
            assert(t.children.take(cs.len() as int) =~= cs);
            assert(entry_of(t) == e);
            assert(preorder(t) =~= flat.subrange(i, j));
        }
    }
}

/// What `children_at` reads is what it lists, one tree for each child.
proof fn lemma_children_at_lists(flat: Seq<NodeEntry>, i: int, count: nat)
    ensures
        0 <= i <= flat.len() ==> (children_at(flat, i, count) matches Some((ts, k)) ==> ts.len()
            == count && i <= k <= flat.len() && concat_preorders(ts) == flat.subrange(i, k)),
    decreases flat.len() - i, count + 1,
{
    if count == 0 {
        if 0 <= i <= flat.len() {
            assert(flat.subrange(i, i) =~= Seq::<NodeEntry>::empty());
        }
    } else {
        lemma_tree_at_lists(flat, i);
        if let Some((t, j)) = tree_at(flat, i) {
            if i < j <= flat.len() {
                lemma_children_at_lists(flat, j, (count - 1) as nat);
                if let Some((ts, k)) = children_at(flat, j, (count - 1) as nat) {
                    let all = seq![t] + ts;
                    assert(all[0] == t);
                    assert(all.drop_first() =~= ts);
                    assert(concat_preorders(all) =~= flat.subrange(i, k));
                }
            }
        }
    }
}

/// Listing the nodes of `t` in pre-order, then reading them back, gives `t`,
/// whatever follows the listing.
proof fn lemma_tree_at_reads_back(t: SyntaxTree, flat: Seq<NodeEntry>, i: int)
    requires
        0 <= i,
        i + preorder(t).len() <= flat.len(),
        flat.subrange(i, i + preorder(t).len()) == preorder(t),
    ensures
        tree_at(flat, i) == Some((t, i + preorder(t).len())),
    decreases t, 1nat,
{
    assert(flat[i] == preorder(t)[0]);
    lemma_preorder_children(t, t.children.len());
    assert(t.children.take(t.children.len() as int) =~= t.children);
    let rest = preorder_children(t, t.children.len());
    assert(preorder(t).subrange(1, preorder(t).len() as int) =~= rest);
    assert(flat.subrange(i + 1, i + preorder(t).len()) =~= rest);
    lemma_children_at_reads_back(t, 0, flat, i + 1);
    assert(t.children.skip(0) =~= t.children);
    assert(tree_from(entry_of(t), t.children) == t);
}

/// Reading back the listings of the children of `t` from index `m` on.
proof fn lemma_children_at_reads_back(t: SyntaxTree, m: nat, flat: Seq<NodeEntry>, i: int)
    requires
        m <= t.children.len(),
        0 <= i,
        i + concat_preorders(t.children.skip(m as int)).len() <= flat.len(),
        flat.subrange(i, i + concat_preorders(t.children.skip(m as int)).len())
            == concat_preorders(t.children.skip(m as int)),
    ensures
        children_at(flat, i, (t.children.len() - m) as nat) == Some(
            (
                t.children.skip(m as int),
                i + concat_preorders(t.children.skip(m as int)).len(),
            ),
        ),
    decreases t, 0nat, t.children.len() - m,
{
    let ts = t.children.skip(m as int);
    if m == t.children.len() {
        assert(ts =~= Seq::<SyntaxTree>::empty());
    } else {
        let c = t.children[m as int];
        assert(ts[0] == c);
        assert(ts.drop_first() =~= t.children.skip(m as int + 1));
        let first = preorder(c);
        let later = concat_preorders(t.children.skip(m as int + 1));
        assert(concat_preorders(ts) == first + later);
        assert(flat.subrange(i, i + first.len()) =~= first) by {
            assert(flat.subrange(i, i + first.len()) =~= flat.subrange(
                i,
                i + concat_preorders(ts).len(),
            ).subrange(0, first.len() as int));
        }
        assert(first.len() > 0);
        lemma_tree_at_reads_back(c, flat, i);
        let j = i + first.len();
        assert(flat.subrange(j, j + later.len()) =~= later) by {
            assert(flat.subrange(j, j + later.len()) =~= flat.subrange(
                i,
                i + concat_preorders(ts).len(),
            ).subrange(first.len() as int, (first.len() + later.len()) as int));
        }
        lemma_children_at_reads_back(t, m + 1, flat, j);
        assert(seq![c] + t.children.skip(m as int + 1) =~= ts);
    }
}

/// Reading a pre-order listing back into a tree is exact: the tree read from
/// `flat` lists as `flat`, and a listing of a tree reads back as that tree. So
/// `preorder_tree(flat)` is `None` exactly when `flat` lists no tree.
pub proof fn lemma_preorder_round_trip(flat: Seq<NodeEntry>, t: SyntaxTree)
    ensures
        preorder_tree(flat) matches Some(u) ==> preorder(u) == flat,
        preorder_tree(preorder(t)) == Some(t),
        preorder_tree(flat) is None ==> preorder(t) != flat,
{
    lemma_tree_at_lists(flat, 0);
    if let Some((u, j)) = tree_at(flat, 0) {
        if j == flat.len() {
            assert(flat.subrange(0, j) =~= flat);
        }
    }
    let p = preorder(t);
    assert(p.subrange(0, p.len() as int) =~= p);
    lemma_tree_at_reads_back(t, p, 0);
}

// ---------------------------------------------------------------------------
// Parsing R source
// ---------------------------------------------------------------------------

/// The pre-order listing of the nodes of the tree that tree-sitter, with the R
/// grammar of `tree_sitter_r`, parses from `text`; `None` when the parser gives
/// no tree.
pub uninterp spec fn parsed_r_nodes(text: Seq<char>) -> Option<Seq<NodeEntry>>;

/// Parses `text` with `tree_sitter::Parser::parse` and the language
/// `tree_sitter_r::LANGUAGE`, and lists the nodes of the tree in pre-order
/// (`TreeCursor::goto_descendant` numbers them so), each with its kind, start
/// and end positions, `has_error` and `child_count`. It gives `None` when
/// `set_language` or `parse` fails. Trusted: the result is `parsed_r_nodes`
/// of the text, and it is the pre-order listing of one tree: the cursor's
/// descendant numbering and `Node::child_count` both count the visible nodes
/// (a hidden node's visible children count as its parent's), so each entry's
/// child count matches the entries that follow it. Which tree the grammar
/// gives is not claimed.
#[verifier::external_body]
fn parse_r_nodes(text: &str) -> (r: Option<Vec<SyntaxNodeData>>)
    ensures
        match r {
            Some(v) => parsed_r_nodes(text@) == Some(entries_of(v@)),
            None => parsed_r_nodes(text@) is None,
        },
        r matches Some(v) ==> preorder_tree(entries_of(v@)) is Some,
{
    let mut parser = tree_sitter::Parser::new();
    parser.set_language(&tree_sitter_r::LANGUAGE.into()).ok()?;
    let tree = parser.parse(text, None)?;
    let mut cursor = tree.walk();
    let count = tree.root_node().descendant_count();
    Some((0..count).map(|i| {
        cursor.goto_descendant(i);
        let (n, s, e) = (cursor.node(), cursor.node().start_position(), cursor.node().end_position());
        SyntaxNodeData { kind: n.kind().to_string(), start_row: s.row, start_column: s.column,
            end_row: e.row, end_column: e.column, has_error: n.has_error(), child_count: n.child_count() }
    }).collect())
}

/// The syntax tree of R source `text`, as the R grammar parses it.
pub open spec fn parsed_r_tree(text: Seq<char>) -> Option<SyntaxTree> {
    match parsed_r_nodes(text) {
        Some(flat) => preorder_tree(flat),
        None => None,
    }
}

/// Parses R source into a syntax tree; `None` when the parser gives no tree.
pub fn parse_r(text: &str) -> (r: Option<SyntaxNode>)
    ensures
        match r {
            Some(n) => parsed_r_tree(text@) == Some(n@),
            None => parsed_r_tree(text@) is None,
        },
        r is None <==> parsed_r_nodes(text@) is None,
{
    match parse_r_nodes(text) {
        Some(flat) => tree_from_preorder(&flat),
        None => None,
    }
}

} // verus!
