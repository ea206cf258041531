use vstd::prelude::*;

verus! {

/// `after` begins with `before`: what was there is kept, and only appended to.
pub open spec fn extends<A>(before: Seq<A>, after: Seq<A>) -> bool {
    before.len() <= after.len() && after.subrange(0, before.len() as int) == before
}

/// Nothing appended.
pub broadcast proof fn lemma_extends_same<A>(a: Seq<A>)
    ensures
        #[trigger] extends(a, a),
{
    assert(a.subrange(0, a.len() as int) =~= a);
}

/// Appending keeps what was there.
pub broadcast proof fn lemma_extends_append<A>(a: Seq<A>, b: Seq<A>)
    ensures
        #[trigger] extends(a, a + b),
{
    assert((a + b).subrange(0, a.len() as int) =~= a);
}

/// Extending an extension extends the first sequence.
pub proof fn lemma_extends_trans<A>(a: Seq<A>, b: Seq<A>, c: Seq<A>)
    requires
        extends(a, b),
        extends(b, c),
    ensures
        extends(a, c),
{
    assert(c.subrange(0, a.len() as int) =~= c.subrange(0, b.len() as int).subrange(
        0,
        a.len() as int,
    ));
}

pub broadcast group group_extends {
    lemma_extends_same,
    lemma_extends_append,
}

} // verus!
