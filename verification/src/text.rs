//! Small helpers on strings that the rest of the crate shares.

use vstd::prelude::*;

verus! {

/// `str`'s `==`: two string slices are equal exactly when they hold the same
/// characters.
pub assume_specification[ <str as PartialEq>::eq ](a: &str, b: &str) -> (r: bool)
    ensures
        r == (a@ == b@),
;

/// The character sequences of a list of strings, in order.
pub open spec fn views(items: Seq<String>) -> Seq<Seq<char>> {
    Seq::new(items.len(), |i: int| items[i]@)
}

/// Whether `needle` occurs in `items`.
pub fn contains_str(items: &Vec<String>, needle: &str) -> (found: bool)
    ensures
        found == views(items@).contains(needle@),
{
    let mut i: usize = 0;
    while i < items.len()
        invariant
            i <= items.len(),
            forall|j: int| 0 <= j < i ==> views(items@)[j] != needle@,
        decreases items.len() - i,
    {
        if items[i].as_str().eq(needle) {
            assert(views(items@)[i as int] == needle@);
            return true;
        }
        i += 1;
    }
    false
}

/// Whether `a` stands before `b` or equals it in the order of strings:
/// character by character from the left, by the number of the character.
pub open spec fn text_le(a: Seq<char>, b: Seq<char>) -> bool
    decreases a.len(),
{
    if a.len() == 0 {
        true
    } else if b.len() == 0 {
        false
    } else if a[0] != b[0] {
        (a[0] as u32) < (b[0] as u32)
    } else {
        text_le(a.skip(1), b.skip(1))
    }
}

/// Whether a list of strings is in order.
pub open spec fn is_sorted(items: Seq<Seq<char>>) -> bool {
    forall|i: int, j: int| 0 <= i < j < items.len() ==> text_le(#[trigger] items[i], #[trigger] items[j])
}

/// Two strings of which each stands before the other or equals it are
/// equal.
pub proof fn lemma_text_le_antisymmetric(a: Seq<char>, b: Seq<char>)
    requires
        text_le(a, b),
        text_le(b, a),
    ensures
        a == b,
    decreases a.len(),
{
    if a.len() == 0 {
        assert(b.len() == 0);
        assert(a =~= b);
    } else {
        assert(b.len() > 0);
        assert(a[0] == b[0]);
        lemma_text_le_antisymmetric(a.skip(1), b.skip(1));
        assert(a =~= seq![a[0]] + a.skip(1));
        assert(b =~= seq![b[0]] + b.skip(1));
    }
}

/// There is one way only to put given strings in order: two lists in order
/// that hold the same strings, each once, are equal.
pub proof fn lemma_sorted_is_unique(a: Seq<Seq<char>>, b: Seq<Seq<char>>)
    requires
        is_sorted(a),
        is_sorted(b),
        a.no_duplicates(),
        b.no_duplicates(),
        a.to_set() == b.to_set(),
    ensures
        a == b,
    decreases a.len(),
{
    if a.len() == 0 {
        if b.len() > 0 {
            assert(b.to_set().contains(b[0]));
            assert(a.contains(b[0]));
        }
        assert(a =~= b);
    } else {
        assert(a.to_set().contains(a[0]));
        assert(b.contains(a[0]));
        let j = choose|j: int| 0 <= j < b.len() && b[j] == a[0];
        assert(b.to_set().contains(b[0]));
        assert(a.contains(b[0]));
        let i = choose|i: int| 0 <= i < a.len() && a[i] == b[0];
        assert(text_le(b[0], a[0])) by {
            if j > 0 {
                assert(text_le(b[0], b[j]));
            } else {
                lemma_text_le_reflexive(b[0]);
            }
        }
        assert(text_le(a[0], b[0])) by {
            if i > 0 {
                assert(text_le(a[0], a[i]));
            } else {
                lemma_text_le_reflexive(a[0]);
            }
        }
        lemma_text_le_antisymmetric(a[0], b[0]);
        let rest_a = a.skip(1);
        let rest_b = b.skip(1);
        assert forall|x: Seq<char>| rest_a.to_set().contains(x) <==> rest_b.to_set().contains(
            x,
        ) by {
            if rest_a.contains(x) {
                let k = choose|k: int| 0 <= k < rest_a.len() && rest_a[k] == x;
                assert(a[k + 1] == x);
                assert(x != a[0]);
                assert(a.to_set().contains(x));
                assert(b.contains(x));
                let m = choose|m: int| 0 <= m < b.len() && b[m] == x;
                assert(m > 0);
                assert(rest_b[m - 1] == x);
            }
            if rest_b.contains(x) {
                let k = choose|k: int| 0 <= k < rest_b.len() && rest_b[k] == x;
                assert(b[k + 1] == x);
                assert(x != b[0]);
                assert(b.to_set().contains(x));
                assert(a.contains(x));
                let m = choose|m: int| 0 <= m < a.len() && a[m] == x;
                assert(m > 0);
                assert(rest_a[m - 1] == x);
            }
        }
        assert(rest_a.to_set() =~= rest_b.to_set());
        assert forall|p: int, q: int| 0 <= p < q < rest_a.len() implies text_le(
            #[trigger] rest_a[p],
            #[trigger] rest_a[q],
        ) by {
            assert(text_le(a[p + 1], a[q + 1]));
        }
        assert forall|p: int, q: int| 0 <= p < q < rest_b.len() implies text_le(
            #[trigger] rest_b[p],
            #[trigger] rest_b[q],
        ) by {
            assert(text_le(b[p + 1], b[q + 1]));
        }
        lemma_sorted_is_unique(rest_a, rest_b);
        assert(a =~= seq![a[0]] + rest_a);
        assert(b =~= seq![b[0]] + rest_b);
    }
}

/// Every string stands before itself or equals it.
pub proof fn lemma_text_le_reflexive(a: Seq<char>)
    ensures
        text_le(a, a),
    decreases a.len(),
{
    if a.len() > 0 {
        lemma_text_le_reflexive(a.skip(1));
    }
}

/// The slice method `sort`, on strings: afterwards the list holds the same
/// strings as before, each as often as before, in the order of strings.
#[verifier::external_body]
pub(crate) fn sort_strings(items: &mut Vec<String>)
    ensures
        views(final(items)@).to_multiset() == views(old(items)@).to_multiset(),
        is_sorted(views(final(items)@)),
{
    items.sort()
}

/// A sorted list holds what the list it was sorted from held: no string is
/// added or lost, and none becomes double.
pub proof fn lemma_same_strings(before: Seq<Seq<char>>, after: Seq<Seq<char>>)
    requires
        before.to_multiset() == after.to_multiset(),
    ensures
        before.to_set() == after.to_set(),
        before.len() == after.len(),
        before.no_duplicates() ==> after.no_duplicates(),
{
    broadcast use vstd::seq_lib::group_to_multiset_ensures;

    assert forall|x: Seq<char>| before.to_set().contains(x) <==> after.to_set().contains(x) by {
        assert(before.contains(x) <==> before.to_multiset().count(x) > 0);
        assert(after.contains(x) <==> after.to_multiset().count(x) > 0);
    }
    assert(before.to_set() =~= after.to_set());
    assert(before.len() == before.to_multiset().len());
    assert(after.len() == after.to_multiset().len());
    if before.no_duplicates() {
        before.lemma_multiset_has_no_duplicates();
        after.lemma_multiset_has_no_duplicates_conv();
    }
}

} // verus!
