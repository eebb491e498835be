//! Bridging facts between a vector's deep view and the elementwise deep
//! view of its contents.
use vstd::prelude::*;

verus! {

/// Elementwise deep view of a sequence of values.
pub open spec fn seq_deep<T: DeepView>(s: Seq<T>) -> Seq<T::V> {
    Seq::new(s.len(), |i: int| s[i].deep_view())
}

/// A vector's deep view is the elementwise deep view of its view.
pub broadcast proof fn lemma_vec_deep_view<T: DeepView>(v: &Vec<T>)
    ensures
        #[trigger] v.deep_view() == seq_deep(v@),
{
    assert(v.deep_view() =~= seq_deep(v@));
}

/// Deep view distributes over push.
pub broadcast proof fn lemma_seq_deep_push<T: DeepView>(s: Seq<T>, x: T)
    ensures
        #[trigger] seq_deep(s.push(x)) == seq_deep(s).push(x.deep_view()),
{
    assert(seq_deep(s.push(x)) =~= seq_deep(s).push(x.deep_view()));
}

/// Deep view distributes over subrange.
pub broadcast proof fn lemma_seq_deep_subrange<T: DeepView>(s: Seq<T>, a: int, b: int)
    requires
        0 <= a <= b <= s.len(),
    ensures
        #[trigger] seq_deep(s.subrange(a, b)) == seq_deep(s).subrange(a, b),
{
    assert(seq_deep(s.subrange(a, b)) =~= seq_deep(s).subrange(a, b));
}

/// A sequence is a prefix of itself.
pub broadcast proof fn lemma_prefix_refl<T>(s: Seq<T>)
    ensures
        #[trigger] s.is_prefix_of(s),
{
    assert(s =~= s.subrange(0, s.len() as int));
}

/// Prefixes chain.
pub broadcast proof fn lemma_prefix_chain<T>(a: Seq<T>, b: Seq<T>, c: Seq<T>)
    requires
        a.is_prefix_of(b),
        b.is_prefix_of(c),
    ensures
        #![trigger a.is_prefix_of(b), b.is_prefix_of(c)]
        a.is_prefix_of(c),
{
    assert(a =~= c.subrange(0, a.len() as int));
}

/// A sequence is a prefix of itself extended.
pub broadcast proof fn lemma_prefix_push<T>(s: Seq<T>, x: T)
    ensures
        #[trigger] s.is_prefix_of(s.push(x)),
{
    assert(s =~= s.push(x).subrange(0, s.len() as int));
}

} // verus!
