//! Sequences without repetition: the mathematical model of an insertion-ordered set.

use vstd::prelude::*;

verus! {

/// `s` with `x` appended, unless `s` already holds `x`.
pub open spec fn push_unique<T>(s: Seq<T>, x: T) -> Seq<T> {
    if s.contains(x) {
        s
    } else {
        s.push(x)
    }
}

/// `s` with every repetition removed; the first occurrence of each item stays,
/// in its place.
pub open spec fn unique<T>(s: Seq<T>) -> Seq<T>
    decreases s.len(),
{
    if s.len() == 0 {
        Seq::empty()
    } else {
        push_unique(unique(s.drop_last()), s.last())
    }
}

/// `acc` followed by the items of `s` that are new, each once.
pub open spec fn extend_unique<T>(acc: Seq<T>, s: Seq<T>) -> Seq<T>
    decreases s.len(),
{
    if s.len() == 0 {
        acc
    } else {
        push_unique(extend_unique(acc, s.drop_last()), s.last())
    }
}

/// Appending an absent item keeps a sequence free of repetition, and
/// `push_unique` adds exactly `x` to what the sequence holds.
pub proof fn lemma_push_unique<T>(s: Seq<T>, x: T)
    ensures
        s.no_duplicates() ==> push_unique(s, x).no_duplicates(),
        forall|y: T| #[trigger] push_unique(s, x).contains(y) <==> (s.contains(y) || y == x),
{
    let r = push_unique(s, x);
    if !s.contains(x) {
        assert(r[s.len() as int] == x);
        assert forall|y: T| r.contains(y) implies (s.contains(y) || y == x) by {
            let i = choose|i: int| 0 <= i < r.len() && r[i] == y;
            if i < s.len() {
                assert(s[i] == y);
            }
        }
        assert forall|y: T| (s.contains(y) || y == x) implies r.contains(y) by {
            if s.contains(y) {
                let i = choose|i: int| 0 <= i < s.len() && s[i] == y;
                assert(r[i] == y);
            }
        }
        if s.no_duplicates() {
            assert forall|i: int, j: int|
                0 <= i < r.len() && 0 <= j < r.len() && i != j implies r[i] != r[j] by {
                if i < s.len() && j < s.len() {
                    assert(s[i] != s[j]);
                } else if i < s.len() {
                    assert(s.contains(s[i]));
                } else {
                    assert(s.contains(s[j]));
                }
            }
        }
    }
}

/// `extend_unique` keeps freedom from repetition and holds what `acc` or `s` holds.
pub proof fn lemma_extend_unique<T>(acc: Seq<T>, s: Seq<T>)
    ensures
        acc.no_duplicates() ==> extend_unique(acc, s).no_duplicates(),
        forall|y: T|
            #[trigger] extend_unique(acc, s).contains(y) <==> (acc.contains(y) || s.contains(y)),
    decreases s.len(),
{
    if s.len() == 0 {
    } else {
        let prev = extend_unique(acc, s.drop_last());
        lemma_extend_unique(acc, s.drop_last());
        lemma_push_unique(prev, s.last());
        assert forall|y: T| extend_unique(acc, s).contains(y) <==> (acc.contains(y) || s.contains(
            y,
        )) by {
            if s.contains(y) {
                let i = choose|i: int| 0 <= i < s.len() && s[i] == y;
                if i < s.len() - 1 {
                    assert(s.drop_last()[i] == y);
                }
            }
            if s.drop_last().contains(y) {
                let i = choose|i: int| 0 <= i < s.drop_last().len() && s.drop_last()[i] == y;
                assert(s[i] == y);
            }
            assert(s[s.len() - 1] == s.last());
        }
    }
}

/// `unique(s)` is `s` folded into the empty sequence.
pub proof fn lemma_unique_is_extend<T>(s: Seq<T>)
    ensures
        unique(s) == extend_unique(Seq::<T>::empty(), s),
    decreases s.len(),
{
    if s.len() > 0 {
        lemma_unique_is_extend(s.drop_last());
    }
}

/// `unique(s)` has no repetition and holds exactly the items of `s`.
pub proof fn lemma_unique<T>(s: Seq<T>)
    ensures
        unique(s).no_duplicates(),
        forall|y: T| #[trigger] unique(s).contains(y) <==> s.contains(y),
{
    lemma_unique_is_extend(s);
    lemma_extend_unique(Seq::<T>::empty(), s);
}

/// A filtered sequence holds the items of the sequence that meet the predicate,
/// and repeats nothing that the sequence does not repeat.
pub proof fn lemma_filter<T>(s: Seq<T>, pred: spec_fn(T) -> bool)
    ensures
        forall|x: T| #[trigger] s.filter(pred).contains(x) <==> (s.contains(x) && pred(x)),
        s.no_duplicates() ==> s.filter(pred).no_duplicates(),
    decreases s.len(),
{
    if s.len() == 0 {
        reveal(Seq::filter);
    } else {
        let front = s.drop_last();
        let kept = front.filter(pred);
        lemma_filter(front, pred);
        front.lemma_filter_push(s.last(), pred);
        assert(front.push(s.last()) =~= s);
        assert forall|x: T| s.filter(pred).contains(x) <==> (s.contains(x) && pred(x)) by {
            if s.contains(x) {
                let i = choose|i: int| 0 <= i < s.len() && s[i] == x;
                if i < s.len() - 1 {
                    assert(front[i] == x);
                }
            }
            if front.contains(x) {
                let i = choose|i: int| 0 <= i < front.len() && front[i] == x;
                assert(s[i] == x);
            }
            assert(s[s.len() - 1] == s.last());
            if pred(s.last()) {
                lemma_push_holds(kept, s.last(), x);
            }
        }
        if s.no_duplicates() {
            assert forall|i: int, j: int| 0 <= i < front.len() && 0 <= j < front.len() && i
                != j implies front[i] != front[j] by {
                assert(s[i] != s[j]);
            }
            if pred(s.last()) {
                if kept.contains(s.last()) {
                    assert(front.filter(pred).contains(s.last()));
                    assert(front.contains(s.last()));
                    let i = choose|i: int| 0 <= i < front.len() && front[i] == s.last();
                    assert(s[i] == s[s.len() - 1]);
                }
                lemma_push_unique(kept, s.last());
                assert(push_unique(kept, s.last()) == kept.push(s.last()));
            }
        }
    }
}

/// A filter that every item passes changes nothing.
pub proof fn lemma_filter_all<T>(s: Seq<T>, pred: spec_fn(T) -> bool)
    requires
        forall|i: int| 0 <= i < s.len() ==> pred(#[trigger] s[i]),
    ensures
        s.filter(pred) == s,
    decreases s.len(),
{
    if s.len() == 0 {
        reveal(Seq::filter);
    } else {
        let front = s.drop_last();
        assert forall|i: int| 0 <= i < front.len() implies pred(#[trigger] front[i]) by {
            assert(front[i] == s[i]);
        }
        lemma_filter_all(front, pred);
        front.lemma_filter_push(s.last(), pred);
        assert(front.push(s.last()) =~= s);
    }
}

/// What a sequence holds after a push.
pub proof fn lemma_push_holds<T>(s: Seq<T>, x: T, y: T)
    ensures
        s.push(x).contains(y) <==> (s.contains(y) || y == x),
{
    let r = s.push(x);
    assert(r[s.len() as int] == x);
    if r.contains(y) {
        let i = choose|i: int| 0 <= i < r.len() && r[i] == y;
        if i < s.len() {
            assert(s[i] == y);
        }
    }
    if s.contains(y) {
        let i = choose|i: int| 0 <= i < s.len() && s[i] == y;
        assert(r[i] == y);
    }
}

} // verus!
