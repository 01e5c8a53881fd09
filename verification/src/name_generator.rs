//! Fresh names. One counter, owned by the compiler invocation and handed
//! through the stages, numbers every temporary, renamed variable and label.

use vstd::prelude::*;
use vstd::string::*;
use crate::text::{decimal, push_usize, lemma_decimal_digits, lemma_decimal_injective};

verus! {

/// The counter after one name was minted. It wraps at the machine's limit.
pub open spec fn next_counter(c: usize) -> usize {
    if c == usize::MAX {
        0
    } else {
        (c + 1) as usize
    }
}

/// The name made of a prefix, a dot and a number.
pub open spec fn numbered(prefix: Seq<char>, n: usize) -> Seq<char> {
    (prefix + seq!['.']) + decimal(n as nat)
}

/// The name of the temporary that the counter value `n` stands for.
pub open spec fn tmp_name(n: usize) -> Seq<char> {
    numbered("tmp"@, n)
}

fn numbered_name(prefix: &str, counter: &mut usize) -> (r: String)
    ensures
        r@ == numbered(prefix@, *old(counter)),
        *final(counter) == next_counter(*old(counter)),
{
    let n = *counter;
    *counter = n.wrapping_add(1);
    let mut s = String::from_str(prefix);
    s.push('.');
    push_usize(&mut s, n);
    s
}

/// Mints a temporary name `tmp.N`.
pub fn gen_tmp_name(counter: &mut usize) -> (r: String)
    ensures
        r@ == tmp_name(*old(counter)),
        *final(counter) == next_counter(*old(counter)),
{
    numbered_name("tmp", counter)
}

/// Mints the unique name `name.N` for a declared identifier.
pub fn uniquify_identifier(name: &String, counter: &mut usize) -> (r: String)
    ensures
        r@ == numbered(name@, *old(counter)),
        *final(counter) == next_counter(*old(counter)),
{
    numbered_name(name.as_str(), counter)
}

/// Mints a label `name.N`.
pub fn gen_label(name: &str, counter: &mut usize) -> (r: String)
    ensures
        r@ == numbered(name@, *old(counter)),
        *final(counter) == next_counter(*old(counter)),
{
    numbered_name(name, counter)
}

/// Two names `prefix.N` are the same only if their prefixes and their
/// numbers are the same: the number starts after the last dot.
pub proof fn lemma_numbered_injective(p: Seq<char>, n: usize, q: Seq<char>, m: usize)
    requires
        numbered(p, n) == numbered(q, m),
    ensures
        p == q,
        n == m,
{
    let s = numbered(p, n);
    let t = numbered(q, m);
    lemma_decimal_digits(n as nat);
    lemma_decimal_digits(m as nat);
    assert(s[p.len() as int] == '.');
    assert(t[q.len() as int] == '.');
    assert(s.len() == p.len() + 1 + decimal(n as nat).len());
    assert(t.len() == q.len() + 1 + decimal(m as nat).len());
    if p.len() < q.len() {
        let i = q.len() as int;
        let head = p + seq!['.'];
        assert(head.len() == p.len() + 1);
        assert(s[i] == decimal(n as nat)[i - head.len()]);
    } else if q.len() < p.len() {
        let i = p.len() as int;
        let head = q + seq!['.'];
        assert(head.len() == q.len() + 1);
        assert(t[i] == decimal(m as nat)[i - head.len()]);
    } else {
        assert forall|i: int| 0 <= i < p.len() implies p[i] == q[i] by {
            assert(s[i] == p[i]);
            assert(t[i] == q[i]);
        }
        assert(p =~= q);
        assert(decimal(n as nat) =~= s.subrange(p.len() as int + 1, s.len() as int));
        assert(decimal(m as nat) =~= t.subrange(q.len() as int + 1, t.len() as int));
        lemma_decimal_injective(n as nat, m as nat);
    }
}

/// Two names minted from different values of the counter are different.
pub proof fn lemma_fresh_names_differ(p: Seq<char>, n: usize, q: Seq<char>, m: usize)
    requires
        n != m,
    ensures
        numbered(p, n) != numbered(q, m),
{
    if numbered(p, n) == numbered(q, m) {
        lemma_numbered_injective(p, n, q, m);
    }
}

} // verus!
