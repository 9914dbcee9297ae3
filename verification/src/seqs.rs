use vstd::prelude::*;

verus! {

/// Concatenation of byte sequences is associative (left-nested trigger).
pub broadcast proof fn seq_add_assoc_l<A>(a: Seq<A>, b: Seq<A>, c: Seq<A>)
    ensures
        #[trigger] ((a + b) + c) == a + (b + c),
{
    assert((a + b) + c =~= a + (b + c));
}

/// Concatenation of byte sequences is associative (right-nested trigger).
pub broadcast proof fn seq_add_assoc_r<A>(a: Seq<A>, b: Seq<A>, c: Seq<A>)
    ensures
        #[trigger] (a + (b + c)) == (a + b) + c,
{
    assert((a + b) + c =~= a + (b + c));
}

/// The empty sequence is a left identity of concatenation.
pub broadcast proof fn seq_add_empty_left<A>(a: Seq<A>)
    ensures
        #[trigger] (Seq::<A>::empty() + a) == a,
{
    assert(Seq::<A>::empty() + a =~= a);
}

/// The empty sequence is a right identity of concatenation.
pub broadcast proof fn seq_add_empty_right<A>(a: Seq<A>)
    ensures
        #[trigger] (a + Seq::<A>::empty()) == a,
{
    assert(a + Seq::<A>::empty() =~= a);
}

/// Pulling a three-part concatenation out of parentheses.
pub proof fn seq_pull3<A>(x: Seq<A>, a: Seq<A>, b: Seq<A>, c: Seq<A>)
    ensures
        x + (a + b + c) == x + a + b + c,
{
    assert(x + (a + b + c) =~= x + a + b + c);
}

pub broadcast group group_seq_facts {
    seq_add_assoc_l,
    seq_add_assoc_r,
    seq_add_empty_left,
    seq_add_empty_right,
}

} // verus!
