//! Views of collections: a vector of values is modelled by the sequence of
//! the values' own views.

use vstd::prelude::*;

verus! {

/// The sequence of the views of the elements of `s`.
pub open spec fn seq_view<T: View>(s: Seq<T>) -> Seq<T::V> {
    Seq::new(s.len(), |i: int| s[i]@)
}

pub proof fn lemma_seq_view_push<T: View>(s: Seq<T>, x: T)
    ensures
        seq_view(s.push(x)) == seq_view(s).push(x@),
{
    assert(seq_view(s.push(x)) =~= seq_view(s).push(x@));
}

pub proof fn lemma_seq_view_take<T: View>(s: Seq<T>, n: int)
    requires
        0 <= n <= s.len(),
    ensures
        seq_view(s.take(n)) == seq_view(s).take(n),
        seq_view(s).take(s.len() as int) == seq_view(s),
        seq_view(s).take(0) == Seq::<T::V>::empty(),
{
    assert(seq_view(s.take(n)) =~= seq_view(s).take(n));
    assert(seq_view(s).take(s.len() as int) =~= seq_view(s));
    assert(seq_view(s).take(0) =~= Seq::<T::V>::empty());
}

/// Taking one element more extends the prefix by that element.
pub proof fn lemma_take_step<A>(s: Seq<A>, i: int)
    requires
        0 <= i < s.len(),
    ensures
        s.take(i + 1) == s.take(i).push(s[i]),
        s.take(i + 1).drop_last() == s.take(i),
        s.take(i + 1).last() == s[i],
{
    assert(s.take(i + 1) =~= s.take(i).push(s[i]));
    assert(s.take(i + 1).drop_last() =~= s.take(i));
}

/// Appends `x` to `v`; the view of the vector grows by the view of `x`.
pub fn push_view<T: View>(v: &mut Vec<T>, x: T)
    ensures
        final(v)@ == old(v)@.push(x),
        seq_view(final(v)@) == seq_view(old(v)@).push(x@),
{
    proof {
        lemma_seq_view_push(v@, x);
    }
    v.push(x);
}

/// A fresh copy of a string, with the same characters.
pub fn clone_string(s: &String) -> (r: String)
    ensures
        r@ == s@,
{
    s.clone()
}

/// A fresh copy of a vector of strings.
pub fn clone_strings(v: &Vec<String>) -> (r: Vec<String>)
    ensures
        seq_view(r@) == seq_view(v@),
{
    let mut r: Vec<String> = Vec::new();
    let mut i: usize = 0;
    proof {
        lemma_seq_view_take(v@, 0);
        assert(seq_view(r@) =~= seq_view(v@).take(0));
    }
    while i < v.len()
        invariant
            i <= v.len(),
            seq_view(r@) == seq_view(v@).take(i as int),
        decreases v.len() - i,
    {
        proof {
            lemma_take_step(seq_view(v@), i as int);
        }
        push_view(&mut r, clone_string(&v[i]));
        i += 1;
    }
    proof {
        lemma_seq_view_take(v@, v.len() as int);
    }
    r
}

} // verus!
