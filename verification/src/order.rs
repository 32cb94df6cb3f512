//! The order ids are listed in: by code point, shorter first where one is a prefix of the other.
use vstd::prelude::*;

use crate::text;
use crate::text::chars_of;

verus! {

/// `a` comes no later than `b` when texts are ordered by code point.
pub open spec fn text_le(a: Seq<char>, b: Seq<char>) -> bool
    decreases a.len(),
{
    if a.len() == 0 {
        true
    } else if b.len() == 0 {
        false
    } else if a[0] != b[0] {
        (a[0] as int) < (b[0] as int)
    } else {
        text_le(a.drop_first(), b.drop_first())
    }
}

/// The same texts in the order of [`text_le`].
pub open spec fn in_order(ids: Seq<Seq<char>>) -> Seq<Seq<char>> {
    ids.sort_by(|a: Seq<char>, b: Seq<char>| text_le(a, b))
}

proof fn lemma_reflexive(a: Seq<char>)
    ensures
        text_le(a, a),
    decreases a.len(),
{
    if a.len() > 0 {
        lemma_reflexive(a.drop_first());
    }
}

proof fn lemma_total(a: Seq<char>, b: Seq<char>)
    ensures
        text_le(a, b) || text_le(b, a),
    decreases a.len(),
{
    if a.len() > 0 && b.len() > 0 && a[0] == b[0] {
        lemma_total(a.drop_first(), b.drop_first());
    }
}

proof fn lemma_antisymmetric(a: Seq<char>, b: Seq<char>)
    requires
        text_le(a, b),
        text_le(b, a),
    ensures
        a == b,
    decreases a.len(),
{
    if a.len() > 0 && b.len() > 0 {
        lemma_antisymmetric(a.drop_first(), b.drop_first());
        assert(a =~= seq![a[0]] + a.drop_first());
        assert(b =~= seq![b[0]] + b.drop_first());
    } else {
        assert(a =~= b);
    }
}

proof fn lemma_transitive(a: Seq<char>, b: Seq<char>, c: Seq<char>)
    requires
        text_le(a, b),
        text_le(b, c),
    ensures
        text_le(a, c),
    decreases a.len(),
{
    if a.len() > 0 && b.len() > 0 && c.len() > 0 && a[0] == b[0] && b[0] == c[0] {
        lemma_transitive(a.drop_first(), b.drop_first(), c.drop_first());
    }
}

/// Texts are totally ordered, so a list of them has one sorted form.
pub proof fn lemma_text_order_is_total()
    ensures
        vstd::relations::total_ordering(|a: Seq<char>, b: Seq<char>| text_le(a, b)),
{
    let le = |a: Seq<char>, b: Seq<char>| text_le(a, b);
    assert forall|a: Seq<char>| #[trigger] le(a, a) by {
        lemma_reflexive(a);
    }
    assert forall|a: Seq<char>, b: Seq<char>| #[trigger] le(a, b) && #[trigger] le(b, a) implies a
        == b by {
        lemma_antisymmetric(a, b);
    }
    assert forall|a: Seq<char>, b: Seq<char>, c: Seq<char>| #[trigger]
        le(a, b) && #[trigger] le(b, c) implies le(a, c) by {
        lemma_transitive(a, b, c);
    }
    assert forall|a: Seq<char>, b: Seq<char>| #[trigger] le(a, b) || #[trigger] le(b, a) by {
        lemma_total(a, b);
    }
}

/// Two lists have the same sorted form exactly when they hold the same texts the same number of
/// times.
pub proof fn lemma_in_order_identifies_multisets(a: Seq<Seq<char>>, b: Seq<Seq<char>>)
    ensures
        in_order(a) == in_order(b) <==> a.to_multiset() == b.to_multiset(),
{
    let le = |x: Seq<char>, y: Seq<char>| text_le(x, y);
    lemma_text_order_is_total();
    a.lemma_sort_by_ensures(le);
    b.lemma_sort_by_ensures(le);
    if a.to_multiset() == b.to_multiset() {
        vstd::seq_lib::lemma_sorted_unique(in_order(a), in_order(b), le);
    }
}

/// Whether `a` comes no later than `b`.
pub fn text_at_most(a: &str, b: &str) -> (r: bool)
    ensures
        r == text_le(a@, b@),
{
    let x = chars_of(a);
    let y = chars_of(b);
    let mut i: usize = 0;
    assert(a@.skip(0) =~= a@);
    assert(b@.skip(0) =~= b@);
    while i < x.len() && i < y.len()
        invariant
            x@ == a@,
            y@ == b@,
            i <= x.len(),
            i <= y.len(),
            text_le(a@, b@) == text_le(a@.skip(i as int), b@.skip(i as int)),
        decreases x.len() - i,
    {
        if x[i] != y[i] {
            return x[i] < y[i];
        }
        assert(a@.skip(i as int).drop_first() =~= a@.skip(i + 1));
        assert(b@.skip(i as int).drop_first() =~= b@.skip(i + 1));
        i = i + 1;
    }
    i == x.len()
}

/// Inserting an element adds it to the elements there are, once.
proof fn lemma_insert_multiset(s: Seq<Seq<char>>, i: int, x: Seq<char>)
    requires
        0 <= i <= s.len(),
    ensures
        s.insert(i, x).to_multiset() == s.to_multiset().insert(x),
{
    broadcast use vstd::seq_lib::group_to_multiset_ensures;

    let t = s.insert(i, x);
    assert(t.remove(i) =~= s);
    assert(t[i] == x);
    assert(t.contains(x));
    assert(s.to_multiset() =~= t.to_multiset().remove(x));
    assert(t.to_multiset().contains(x));
    assert(t.to_multiset() =~= t.to_multiset().remove(x).insert(x));
}

/// The texts of `ids`, in order.
pub fn sorted_texts(ids: &Vec<String>) -> (out: Vec<String>)
    ensures
        text::texts(out@) == in_order(text::texts(ids@)),
{
    let ghost le = |a: Seq<char>, b: Seq<char>| text_le(a, b);
    let mut out: Vec<String> = Vec::new();
    let mut i: usize = 0;
    proof {
        lemma_text_order_is_total();
        assert(text::texts(ids@).subrange(0, 0) =~= text::texts(out@));
    }
    while i < ids.len()
        invariant
            i <= ids.len(),
            le == (|a: Seq<char>, b: Seq<char>| text_le(a, b)),
            vstd::relations::total_ordering(le),
            vstd::relations::sorted_by(text::texts(out@), le),
            text::texts(out@).to_multiset() == text::texts(ids@).subrange(0, i as int).to_multiset(),
        decreases ids.len() - i,
    {
        let mut j: usize = 0;
        while j < out.len() && text_at_most(out[j].as_str(), ids[i].as_str())
            invariant
                i < ids.len(),
                j <= out.len(),
                forall|k: int| 0 <= k < j ==> text_le(#[trigger] text::texts(out@)[k], ids@[i as int]@),
            decreases out.len() - j,
        {
            j = j + 1;
        }
        let ghost before = text::texts(out@);
        let ghost x = ids@[i as int]@;
        out.insert(j, ids[i].clone());
        proof {
            assert(text::texts(out@) =~= before.insert(j as int, x));
            lemma_insert_multiset(before, j as int, x);
            assert(text::texts(ids@).subrange(0, i + 1) =~= text::texts(ids@).subrange(0, i as int).push(x));
            broadcast use vstd::seq_lib::group_to_multiset_ensures;

            if j < before.len() {
                assert(!text_le(before[j as int], x));
                lemma_total(before[j as int], x);
            }
            assert forall|p: int, q: int| 0 <= p < q < text::texts(out@).len() implies #[trigger] le(
                text::texts(out@)[p],
                text::texts(out@)[q],
            ) by {
                let t = text::texts(out@);
                if p < j && q < j {
                    assert(le(before[p], before[q]));
                } else if p < j && q == j {
                } else if p < j {
                    assert(le(before[p], before[q - 1]));
                } else if p == j {
                    if q - 1 > j {
                        assert(le(before[j as int], before[q - 1]));
                        lemma_transitive(x, before[j as int], before[q - 1]);
                    }
                } else {
                    assert(le(before[p - 1], before[q - 1]));
                }
            }
        }
        i = i + 1;
    }
    proof {
        assert(text::texts(ids@).subrange(0, i as int) =~= text::texts(ids@));
        text::texts(ids@).lemma_sort_by_ensures(le);
        vstd::seq_lib::lemma_sorted_unique(text::texts(out@), in_order(text::texts(ids@)), le);
    }
    out
}

/// Texts are ordered by the first character in which they differ, and a text comes before what goes
/// on from it.
pub proof fn law_texts_are_ordered_by_their_first_difference(
    same: Seq<char>,
    c: char,
    d: char,
    x: Seq<char>,
    y: Seq<char>,
)
    requires
        c != d,
    ensures
        text_le(same + seq![c] + x, same + seq![d] + y) <==> (c as int) < (d as int),
        text_le(same, same + x),
        x.len() > 0 ==> !text_le(same + x, same),
    decreases same.len(),
{
    let a = same + seq![c] + x;
    let b = same + seq![d] + y;
    if same.len() > 0 {
        let rest = same.drop_first();
        law_texts_are_ordered_by_their_first_difference(rest, c, d, x, y);
        assert(a.drop_first() =~= rest + seq![c] + x);
        assert(b.drop_first() =~= rest + seq![d] + y);
        assert((same + x).drop_first() =~= rest + x);
    } else {
        assert(a[0] == c && b[0] == d);
        assert(same + x =~= x);
    }
}

} // verus!
