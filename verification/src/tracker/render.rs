//! Configurations as text.
use std::collections::HashSet;

use itertools::Itertools;
use vstd::prelude::*;
use vstd::string::*;

use crate::sets;

verus! {

/// A decimal digit.
pub open spec fn digit(d: nat) -> char {
    (48 + d) as char
}

/// A number in decimal, without leading zeros.
pub open spec fn decimal(n: nat) -> Seq<char>
    decreases n,
{
    if n < 10 {
        seq![digit(n)]
    } else {
        decimal(n / 10).push(digit(n % 10))
    }
}

/// Numbers in decimal with a blank between any two.
pub open spec fn joined(ids: Seq<u64>) -> Seq<char>
    decreases ids.len(),
{
    if ids.len() == 0 {
        Seq::empty()
    } else if ids.len() == 1 {
        decimal(ids[0] as nat)
    } else {
        joined(ids.drop_last()).push(' ') + decimal(ids.last() as nat)
    }
}

/// The members of a set from the least to the greatest.
pub open spec fn is_ascending(ids: Seq<u64>, s: Set<u64>) -> bool {
    &&& sets::enumerates(ids, s)
    &&& forall|i: int, j: int| 0 <= i < j < ids.len() ==> ids[i] < ids[j]
}

/// The members of a set from the least to the greatest.
pub open spec fn ascending(s: Set<u64>) -> Seq<u64> {
    choose|ids: Seq<u64>| is_ascending(ids, s)
}

/// A set as text: its members in ascending order, in brackets, with blanks between them.
pub open spec fn set_text(s: Set<u64>) -> Seq<char> {
    seq!['('] + joined(ascending(s)).push(')')
}

/// There is one way only to list a set in ascending order.
pub proof fn lemma_ascending_unique(a: Seq<u64>, b: Seq<u64>, s: Set<u64>)
    requires
        is_ascending(a, s),
        is_ascending(b, s),
    ensures
        a == b,
    decreases a.len(),
{
    a.unique_seq_to_set();
    b.unique_seq_to_set();
    if a.len() > 0 {
        assert(s.contains(a.last()) && s.contains(b.last())) by {
            assert(a.contains(a.last()));
            assert(b.contains(b.last()));
        }
        let i = choose|i: int| 0 <= i < a.len() && a[i] == b.last();
        let j = choose|j: int| 0 <= j < b.len() && b[j] == a.last();
        assert(a.contains(b.last()) && b.contains(a.last()));
        assert(a.last() == b.last());
        let x = a.drop_last();
        let y = b.drop_last();
        assert(a == x.push(a.last()));
        assert(b == y.push(a.last()));
        x.lemma_push_to_set_commute(a.last());
        y.lemma_push_to_set_commute(a.last());
        assert(!x.contains(a.last())) by {
            if x.contains(a.last()) {
                let k = choose|k: int| 0 <= k < x.len() && x[k] == a.last();
                assert(a[k] < a[a.len() - 1]);
            }
        }
        assert(!y.contains(a.last())) by {
            if y.contains(a.last()) {
                let k = choose|k: int| 0 <= k < y.len() && y[k] == a.last();
                assert(b[k] < b[b.len() - 1]);
            }
        }
        assert(x.to_set() =~= s.remove(a.last()));
        assert(y.to_set() =~= s.remove(a.last()));
        lemma_ascending_unique(x, y, s.remove(a.last()));
    }
}

/// `Itertools::sorted`: the same numbers, as often as before, in ascending order.
#[verifier::external_body]
fn sorted(ids: Vec<u64>) -> (r: Vec<u64>)
    ensures
        r@.to_multiset() == ids@.to_multiset(),
        forall|i: int, j: int| 0 <= i <= j < r@.len() ==> r@[i] <= r@[j],
{
    ids.into_iter().sorted().collect()
}

/// Lists a set in ascending order.
pub fn sorted_ids(s: &HashSet<u64>) -> (ids: Vec<u64>)
    ensures
        ids@ == ascending(s@),
        is_ascending(ids@, s@),
{
    let listed = sets::to_vec(s);
    let ghost before = listed@;
    let ids = sorted(listed);
    proof {
        broadcast use vstd::multiset::group_multiset_axioms;
        broadcast use vstd::seq_lib::group_to_multiset_ensures;

        before.lemma_multiset_has_no_duplicates();
        assert(ids@.to_multiset() == before.to_multiset());
        ids@.lemma_multiset_has_no_duplicates_conv();
        assert forall|id: u64| ids@.to_set().contains(id) <==> s@.contains(id) by {
            assert(ids@.contains(id) <==> ids@.to_multiset().count(id) > 0);
            assert(before.contains(id) <==> before.to_multiset().count(id) > 0);
        }
        assert(ids@.to_set() =~= s@);
        assert(is_ascending(ids@, s@));
        lemma_ascending_unique(ids@, ascending(s@), s@);
    }
    ids
}

/// A digit as text.
fn digit_str(d: u64) -> (s: &'static str)
    requires
        d < 10,
    ensures
        s@ == seq![digit(d as nat)],
{
    proof {
        reveal_strlit("0");
        reveal_strlit("1");
        reveal_strlit("2");
        reveal_strlit("3");
        reveal_strlit("4");
        reveal_strlit("5");
        reveal_strlit("6");
        reveal_strlit("7");
        reveal_strlit("8");
        reveal_strlit("9");
    }
    let s = match d {
        0 => "0",
        1 => "1",
        2 => "2",
        3 => "3",
        4 => "4",
        5 => "5",
        6 => "6",
        7 => "7",
        8 => "8",
        _ => "9",
    };
    assert(s@ =~= seq![digit(d as nat)]);
    s
}

/// Appends a number in decimal.
fn push_decimal(out: &mut String, n: u64)
    ensures
        final(out)@ == old(out)@ + decimal(n as nat),
    decreases n,
{
    if n >= 10 {
        push_decimal(out, n / 10);
    }
    out.append(digit_str(n % 10));
    assert(out@ =~= old(out)@ + decimal(n as nat));
}

/// Appends a set as text.
pub fn push_set(out: &mut String, s: &HashSet<u64>)
    ensures
        final(out)@ == old(out)@ + set_text(s@),
{
    let ids = sorted_ids(s);
    proof {
        reveal_strlit("(");
        reveal_strlit(" ");
        reveal_strlit(")");
    }
    out.append("(");
    let ghost head = out@;
    let mut i: usize = 0;
    assert(out@ =~= head + joined(ids@.take(0)));
    while i < ids.len()
        invariant
            i <= ids@.len(),
            out@ == head + joined(ids@.take(i as int)),
            " "@ == seq![' '],
        decreases ids@.len() - i,
    {
        let ghost before = out@;
        if i > 0 {
            out.append(" ");
        }
        push_decimal(out, ids[i]);
        proof {
            let next = ids@.take(i + 1);
            assert(next.drop_last() == ids@.take(i as int));
            assert(next.last() == ids@[i as int]);
            assert(ids@.take(0) == Seq::<u64>::empty());
            assert(out@ =~= head + joined(next));
        }
        i = i + 1;
    }
    assert(ids@.take(i as int) == ids@);
    out.append(")");
    assert(out@ =~= old(out)@ + set_text(s@));
}

}
