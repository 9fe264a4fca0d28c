use vstd::prelude::*;

verus! {

/// The mathematical values that a sequence of records stands for.
pub open spec fn views<T: View>(items: Seq<T>) -> Seq<T::V> {
    Seq::new(items.len(), |i: int| items[i]@)
}

/// The characters of an optional text.
pub open spec fn text_of(text: Option<String>) -> Option<Seq<char>> {
    match text {
        Some(value) => Some(value@),
        None => None,
    }
}

/// The characters of each text of a sequence.
pub open spec fn texts(items: Seq<String>) -> Seq<Seq<char>> {
    Seq::new(items.len(), |i: int| items[i]@)
}

/// The first place at which a test holds, if it holds anywhere.
pub open spec fn first_where<T>(items: Seq<T>, test: spec_fn(T) -> bool) -> Option<int>
    decreases items.len(),
{
    if items.len() == 0 {
        None
    } else if test(items[0]) {
        Some(0)
    } else {
        match first_where(items.drop_first(), test) {
            Some(at) => Some(at + 1),
            None => None,
        }
    }
}

/// What `first_where` finds: a place where the test holds and before which
/// it does not, or no place where it holds.
pub proof fn lemma_first_where<T>(items: Seq<T>, test: spec_fn(T) -> bool)
    ensures
        match first_where(items, test) {
            Some(at) => 0 <= at < items.len() && test(items[at]) && forall|j: int|
                0 <= j < at ==> !test(#[trigger] items[j]),
            None => forall|j: int| 0 <= j < items.len() ==> !test(#[trigger] items[j]),
        },
    decreases items.len(),
{
    if items.len() > 0 && !test(items[0]) {
        let rest = items.drop_first();
        lemma_first_where(rest, test);
        match first_where(rest, test) {
            Some(at) => {
                assert(items[at + 1] == rest[at]);
                assert forall|j: int| 0 <= j < at + 1 implies !test(#[trigger] items[j]) by {
                    if j > 0 {
                        assert(items[j] == rest[j - 1]);
                    }
                }
            },
            None => {
                assert forall|j: int| 0 <= j < items.len() implies !test(#[trigger] items[j]) by {
                    if j > 0 {
                        assert(items[j] == rest[j - 1]);
                    }
                }
            },
        }
    }
}

/// A place that a scan from the front stops at is what `first_where` finds.
pub proof fn lemma_first_where_found<T>(items: Seq<T>, test: spec_fn(T) -> bool, at: int)
    requires
        0 <= at <= items.len(),
        forall|j: int| 0 <= j < at ==> !test(#[trigger] items[j]),
        at < items.len() ==> test(items[at]),
    ensures
        first_where(items, test) == if at < items.len() {
            Some(at)
        } else {
            None::<int>
        },
{
    lemma_first_where(items, test);
}

/// Whether items stand in strictly ascending order under `before`.
pub open spec fn ascending<T>(items: Seq<T>, before: spec_fn(T, T) -> bool) -> bool {
    forall|i: int, j: int|
        0 <= i < j < items.len() ==> before(#[trigger] items[i], #[trigger] items[j])
}

/// An ascending sequence is determined by the set of its items: two
/// ascending sequences of the same items are the same sequence. The order
/// has to be one in which no item comes before itself and no two items come
/// before each other.
pub proof fn lemma_ascending_unique<T>(a: Seq<T>, b: Seq<T>, before: spec_fn(T, T) -> bool)
    requires
        ascending(a, before),
        ascending(b, before),
        a.to_set() == b.to_set(),
        forall|x: T| !#[trigger] before(x, x),
        forall|x: T, y: T| #[trigger] before(x, y) ==> !before(y, x),
    ensures
        a == b,
    decreases a.len(),
{
    assert(a.no_duplicates());
    assert(b.no_duplicates());
    a.unique_seq_to_set();
    b.unique_seq_to_set();
    if a.len() == 0 {
        assert(a =~= b);
    } else {
        let n = a.len() as int;
        let top = a[n - 1];
        assert(a.contains(top));
        assert(a.to_set().contains(top));
        assert(b.contains(top));
        let j = choose|j: int| 0 <= j < b.len() && b[j] == top;
        let other = b[n - 1];
        assert(b.contains(other));
        assert(b.to_set().contains(other));
        assert(a.contains(other));
        let i = choose|i: int| 0 <= i < a.len() && a[i] == other;
        if j < n - 1 {
            // `top` comes before `other` in b, and `other` no later than `top` in a
            assert(before(b[j], b[n - 1]));
            if i < n - 1 {
                assert(before(a[i], a[n - 1]));
            }
            assert(false);
        }
        assert(b[n - 1] == top);
        let a_front = a.drop_last();
        let b_front = b.drop_last();
        assert forall|i: int, k: int| 0 <= i < k < a_front.len() implies before(
            #[trigger] a_front[i],
            #[trigger] a_front[k],
        ) by {
            assert(a_front[i] == a[i] && a_front[k] == a[k]);
        }
        assert forall|i: int, k: int| 0 <= i < k < b_front.len() implies before(
            #[trigger] b_front[i],
            #[trigger] b_front[k],
        ) by {
            assert(b_front[i] == b[i] && b_front[k] == b[k]);
        }
        assert forall|x: T| a_front.to_set().contains(x) <==> b_front.to_set().contains(x) by {
            if a_front.contains(x) {
                let p = choose|p: int| 0 <= p < a_front.len() && a_front[p] == x;
                assert(a[p] == x);
                assert(a.contains(x));
                assert(a.to_set().contains(x));
                assert(b.contains(x));
                let q = choose|q: int| 0 <= q < b.len() && b[q] == x;
                if q == n - 1 {
                    assert(before(a[p], a[n - 1]));
                }
                assert(b_front[q] == x);
                assert(b_front.contains(x));
            }
            if b_front.contains(x) {
                let q = choose|q: int| 0 <= q < b_front.len() && b_front[q] == x;
                assert(b[q] == x);
                assert(b.contains(x));
                assert(b.to_set().contains(x));
                assert(a.contains(x));
                let p = choose|p: int| 0 <= p < a.len() && a[p] == x;
                if p == n - 1 {
                    assert(before(b[q], b[n - 1]));
                }
                assert(a_front[p] == x);
                assert(a_front.contains(x));
            }
        }
        assert(a_front.to_set() =~= b_front.to_set());
        lemma_ascending_unique(a_front, b_front, before);
        assert(a =~= a_front.push(top));
        assert(b =~= b_front.push(top));
    }
}

} // verus!
