//! What the text of a membership says.
use vstd::prelude::*;

use crate::tracker::configuration::ConfigurationView;
use crate::tracker::render;

verus! {

/// The number that decimal digits denote.
pub open spec fn value(text: Seq<char>) -> int
    decreases text.len(),
{
    if text.len() == 0 {
        0
    } else {
        10 * value(text.drop_last()) + (text.last() as int - '0' as int)
    }
}

/// Numbers in decimal with a blank between any two, from the first on.
pub open spec fn words(ids: Seq<u64>) -> Seq<char>
    decreases ids.len(),
{
    if ids.len() == 0 {
        Seq::empty()
    } else if ids.len() == 1 {
        render::decimal(ids[0] as nat)
    } else {
        render::decimal(ids[0] as nat) + seq![' '] + words(ids.drop_first())
    }
}

/// `ids` lists a set from the least member to the greatest.
pub open spec fn lists(ids: Seq<u64>, s: Set<u64>) -> bool {
    &&& forall|i: int, j: int| 0 <= i < j < ids.len() ==> ids[i] < ids[j]
    &&& forall|id: u64| #[trigger] ids.contains(id) <==> s.contains(id)
}

/// A list in brackets.
pub open spec fn bracketed(ids: Seq<u64>) -> Seq<char> {
    seq!['('] + words(ids) + seq![')']
}

/// A number in decimal is made of digits, denotes the number, and has no leading zero.
pub proof fn law_decimal_denotes_number(n: nat)
    ensures
        value(render::decimal(n)) == n,
        render::decimal(n).len() > 0,
        forall|i: int|
            0 <= i < render::decimal(n).len() ==> {
                let c = #[trigger] render::decimal(n)[i];
                '0' as int <= c as int <= '9' as int
            },
        n > 0 ==> render::decimal(n)[0] != '0',
        n == 0 ==> render::decimal(n).len() == 1,
    decreases n,
{
    let text = render::decimal(n);
    if n < 10 {
        assert(text.drop_last() =~= Seq::empty());
        assert(value(text.drop_last()) == 0);
    } else {
        law_decimal_denotes_number(n / 10);
        assert(text.drop_last() =~= render::decimal(n / 10));
    }
}

proof fn lemma_words_push(ids: Seq<u64>, id: u64)
    requires
        ids.len() > 0,
    ensures
        words(ids.push(id)) == words(ids) + seq![' '] + render::decimal(id as nat),
    decreases ids.len(),
{
    let all = ids.push(id);
    if ids.len() == 1 {
        assert(all.drop_first() =~= seq![id]);
        assert(words(all.drop_first()) == render::decimal(id as nat));
    } else {
        assert(all.drop_first() =~= ids.drop_first().push(id));
        lemma_words_push(ids.drop_first(), id);
        assert(words(all) =~= words(ids) + seq![' '] + render::decimal(id as nat));
    }
}

proof fn lemma_joined_is_words(ids: Seq<u64>)
    ensures
        render::joined(ids) == words(ids),
    decreases ids.len(),
{
    if ids.len() >= 2 {
        lemma_joined_is_words(ids.drop_last());
        lemma_words_push(ids.drop_last(), ids.last());
        assert(ids.drop_last().push(ids.last()) =~= ids);
        assert(render::joined(ids) =~= words(ids));
    }
}

/// A set is shown by its members in ascending order, with blanks between them, in brackets.
pub proof fn law_set_is_shown_in_order(s: Set<u64>, ids: Seq<u64>)
    requires
        lists(ids, s),
    ensures
        render::set_text(s) == bracketed(ids),
{
    assert(ids.to_set() =~= s) by {
        assert forall|id: u64| #[trigger] ids.to_set().contains(id) <==> s.contains(id) by {
            assert(ids.contains(id) <==> s.contains(id));
        }
    }
    assert(render::is_ascending(ids, s));
    render::lemma_ascending_unique(ids, render::ascending(s), s);
    lemma_joined_is_words(ids);
    assert(render::set_text(s) =~= bracketed(ids));
}

/// A membership is shown by its voters, in a joint configuration those of both halves, and by those
/// of its learners, its next learners and its mark for leaving that are there, in this order.
pub proof fn law_membership_is_shown_in_full(
    c: ConfigurationView,
    incoming: Seq<u64>,
    outgoing: Seq<u64>,
    learners: Seq<u64>,
    next: Seq<u64>,
)
    requires
        lists(incoming, c.voters.incoming),
        lists(outgoing, c.voters.outgoing),
        lists(learners, c.learners),
        lists(next, c.learners_next),
    ensures
        ({
            let none = Seq::<char>::empty();
            let voters = if outgoing.len() == 0 {
                "voters="@ + bracketed(incoming)
            } else {
                "voters="@ + bracketed(incoming) + "&&"@ + bracketed(outgoing)
            };
            let others = if learners.len() == 0 {
                none
            } else {
                " learners="@ + bracketed(learners)
            };
            let coming = if next.len() == 0 {
                none
            } else {
                " learners_next="@ + bracketed(next)
            };
            let mark = if c.auto_leave {
                " autoleave"@
            } else {
                none
            };
            c.text() == voters + others + coming + mark
        }),
{
    law_set_is_shown_in_order(c.voters.incoming, incoming);
    law_set_is_shown_in_order(c.voters.outgoing, outgoing);
    law_set_is_shown_in_order(c.learners, learners);
    law_set_is_shown_in_order(c.learners_next, next);
    lemma_empty_list(c.voters.outgoing, outgoing);
    lemma_empty_list(c.learners, learners);
    lemma_empty_list(c.learners_next, next);
}

proof fn lemma_empty_list(s: Set<u64>, ids: Seq<u64>)
    requires
        lists(ids, s),
    ensures
        s.is_empty() <==> ids.len() == 0,
{
    if ids.len() > 0 {
        assert(ids.contains(ids[0]));
        assert(s.contains(ids[0]));
    } else {
        assert forall|id: u64| !s.contains(id) by {
            assert(!ids.contains(id));
        }
        assert(s =~= Set::empty());
    }
}

}
