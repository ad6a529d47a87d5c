//! The order of texts by code point, and ascending lists of texts.

use vstd::prelude::*;

use super::chars::to_chars;
use super::concat::views;

verus! {

/// `left` comes before `right`: at the first difference it has the smaller
/// character, or it is a proper prefix.
pub open spec fn before(left: Seq<char>, right: Seq<char>) -> bool
    decreases left.len(),
{
    if right.len() == 0 {
        false
    } else if left.len() == 0 {
        true
    } else if left[0] != right[0] {
        left[0] < right[0]
    } else {
        before(left.drop_first(), right.drop_first())
    }
}

/// No text comes before itself.
pub proof fn before_irreflexive(text: Seq<char>)
    ensures
        !before(text, text),
    decreases text.len(),
{
    if text.len() > 0 {
        before_irreflexive(text.drop_first());
    }
}

/// Of two different texts one comes before the other.
pub proof fn before_total(left: Seq<char>, right: Seq<char>)
    ensures
        left == right || before(left, right) || before(right, left),
    decreases left.len(),
{
    if left.len() == 0 || right.len() == 0 {
        if left.len() == 0 && right.len() == 0 {
            assert(left =~= right);
        }
    } else if left[0] == right[0] {
        before_total(left.drop_first(), right.drop_first());
        if left.drop_first() == right.drop_first() {
            assert(left =~= seq![left[0]] + left.drop_first());
            assert(right =~= seq![right[0]] + right.drop_first());
        }
    }
}

/// The order is transitive.
pub proof fn before_transitive(first: Seq<char>, second: Seq<char>, third: Seq<char>)
    requires
        before(first, second),
        before(second, third),
    ensures
        before(first, third),
    decreases first.len(),
{
    if first.len() > 0 && first[0] == second[0] && second[0] == third[0] {
        before_transitive(first.drop_first(), second.drop_first(), third.drop_first());
    }
}

/// Whether one text comes before another.
pub fn is_before(left: &str, right: &str) -> (found: bool)
    ensures
        found == before(left@, right@),
{
    let a: Vec<char> = to_chars(left);
    let b: Vec<char> = to_chars(right);
    let mut at: usize = 0;
    assert(a@.skip(0) =~= a@);
    assert(b@.skip(0) =~= b@);
    while at < a.len() && at < b.len()
        invariant
            at <= a@.len(),
            at <= b@.len(),
            a@ == left@,
            b@ == right@,
            before(left@, right@) == before(a@.skip(at as int), b@.skip(at as int)),
        decreases a@.len() - at,
    {
        assert(a@.skip(at as int)[0] == a@[at as int]);
        assert(b@.skip(at as int)[0] == b@[at as int]);
        if a[at] != b[at] {
            return a[at] < b[at];
        }
        assert(a@.skip(at as int).drop_first() =~= a@.skip(at + 1));
        assert(b@.skip(at as int).drop_first() =~= b@.skip(at + 1));
        at += 1;
    }
    at < b.len()
}

/// A strictly ascending list.
pub open spec fn ascending(list: Seq<Seq<char>>) -> bool {
    forall|i: int, j: int| 0 <= i < j < list.len() ==> before(#[trigger] list[i], #[trigger] list[j])
}

/// Adds a text to a strictly ascending list, unless it is there already.
pub fn insert_ascending(list: &mut Vec<String>, text: &str)
    requires
        ascending(views(old(list)@)),
    ensures
        ascending(views(final(list)@)),
        forall|other: Seq<char>|
            #![trigger views(final(list)@).contains(other)]
            views(final(list)@).contains(other) <==> views(old(list)@).contains(other) || other
                == text@,
{
    let ghost start = views(list@);
    let mut at: usize = 0;
    while at < list.len() && is_before(list[at].as_str(), text)
        invariant
            at <= list@.len(),
            views(list@) == start,
            forall|i: int| 0 <= i < at ==> before(#[trigger] start[i], text@),
        decreases list@.len() - at,
    {
        at += 1;
    }
    if at < list.len() && list[at] == text.to_owned() {
        assert(start[at as int] == text@);
        assert forall|other: Seq<char>| #[trigger] views(list@).contains(other)
            <==> start.contains(other) || other == text@ by {
            if other == text@ {
                assert(views(list@)[at as int] == other);
            }
        }
        return;
    }
    let ghost kept = list@;
    list.insert(at, text.to_owned());
    proof {
        let result = views(list@);
        assert(result =~= start.insert(at as int, text@));
        assert forall|i: int, j: int| 0 <= i < j < result.len() implies before(
            #[trigger] result[i],
            #[trigger] result[j],
        ) by {
            if j == at {
                assert(result[i] == start[i]);
            } else if i == at {
                let later = start[j - 1];
                before_total(text@, start[at as int]);
                assert(before(text@, start[at as int]));
                if j - 1 > at {
                    assert(before(start[at as int], start[j - 1]));
                    before_transitive(text@, start[at as int], later);
                }
            } else {
                let a = if i < at {
                    i
                } else {
                    i - 1
                };
                let b = if j < at {
                    j
                } else {
                    j - 1
                };
                assert(before(start[a], start[b]));
            }
        }
        assert forall|other: Seq<char>| #[trigger] result.contains(other) <==> start.contains(other)
            || other == text@ by {
            if start.contains(other) {
                let i = choose|i: int| 0 <= i < start.len() && start[i] == other;
                assert(result[if i < at {
                    i
                } else {
                    i + 1
                }] == other);
            }
            if other == text@ {
                assert(result[at as int] == other);
            }
            if result.contains(other) {
                let i = choose|i: int| 0 <= i < result.len() && result[i] == other;
                if i < at {
                    assert(start[i] == other);
                } else if i > at {
                    assert(start[i - 1] == other);
                }
            }
        }
    }
}

/// A text comes before another exactly if, behind a common beginning, it ends
/// first or has the smaller character.
pub proof fn before_is_decided_at_the_first_difference(left: Seq<char>, right: Seq<char>)
    ensures
        before(left, right) <==> exists|k: int|
            0 <= k <= left.len() && k < right.len() && #[trigger] left.take(k) == right.take(k) && (k
                == left.len() || left[k] < right[k]),
    decreases left.len(),
{
    if before(left, right) {
        if left.len() == 0 {
            assert(left.take(0) =~= right.take(0));
        } else if left[0] != right[0] {
            assert(left.take(0) =~= right.take(0));
        } else {
            let (a, b) = (left.drop_first(), right.drop_first());
            before_is_decided_at_the_first_difference(a, b);
            let k = choose|k: int|
                0 <= k <= a.len() && k < b.len() && #[trigger] a.take(k) == b.take(k) && (k
                    == a.len() || a[k] < b[k]);
            assert(left.take(k + 1) =~= seq![left[0]] + a.take(k));
            assert(right.take(k + 1) =~= seq![right[0]] + b.take(k));
        }
    }
    if exists|k: int|
        0 <= k <= left.len() && k < right.len() && #[trigger] left.take(k) == right.take(k) && (k
            == left.len() || left[k] < right[k]) {
        let k = choose|k: int|
            0 <= k <= left.len() && k < right.len() && #[trigger] left.take(k) == right.take(k) && (
            k == left.len() || left[k] < right[k]);
        if k > 0 {
            let (a, b) = (left.drop_first(), right.drop_first());
            assert(left.take(k)[0] == right.take(k)[0]);
            assert(a.take(k - 1) =~= left.take(k).drop_first());
            assert(b.take(k - 1) =~= right.take(k).drop_first());
            before_is_decided_at_the_first_difference(a, b);
        }
    }
}

} // verus!
