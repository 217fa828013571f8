//! Keyed comparison of two collections.
//!
//! [`diff`] sorts the items of two collections into three groups by the key
//! of each item: the items whose key only the first collection has, the pairs
//! of items that share a key, and the items whose key only the second
//! collection has.

use crate::change::{changes_of, ChangeType};
use vstd::hash_map::StringHashMap;
use vstd::prelude::*;
use vstd::std_specs::cmp::PartialEqSpec;

verus! {

/// An item that is identified by a key.
pub trait Keyed {
    /// The identity of an item.
    type Key;

    /// The key of this item.
    spec fn key(&self) -> Self::Key;

    /// The text under which an item with the key `k` is filed in an index.
    /// Different keys may have the same text.
    spec fn index_text(k: Self::Key) -> Seq<char>;

    /// The text under which this item is filed in an index.
    fn index_key(&self) -> (r: String)
        ensures
            r@ == Self::index_text(self.key()),
    ;

    /// Whether two items have the same key.
    fn same_key(&self, other: &Self) -> (r: bool)
        ensures
            r == (self.key() == other.key()),
    ;
}

/// Whether some item of `s` has the key `k`.
pub open spec fn has_key<T: Keyed>(s: Seq<T>, k: T::Key) -> bool {
    exists|i: int| 0 <= i < s.len() && #[trigger] s[i].key() == k
}

/// Whether no two items of `s` share a key.
pub open spec fn keys_unique<T: Keyed>(s: Seq<T>) -> bool {
    forall|i: int, j: int| 0 <= i < j < s.len() ==> #[trigger] s[i].key() != #[trigger] s[j].key()
}

/// The position of the last item of `s` with the key `k`, or -1 if there is none.
pub open spec fn last_with_key<T: Keyed>(s: Seq<T>, k: T::Key) -> int
    decreases s.len(),
{
    if s.len() == 0 {
        -1
    } else if s.last().key() == k {
        s.len() - 1
    } else {
        last_with_key(s.drop_last(), k)
    }
}

/// Whether the last item of `b` is paired with an item of `a`: some item of
/// `a` has its key, and no earlier item of `b` has taken that item already.
pub open spec fn last_is_paired<T: Keyed>(a: Seq<T>, b: Seq<T>) -> bool
    recommends
        b.len() > 0,
{
    has_key(a, b.last().key()) && !has_key(b.drop_last(), b.last().key())
}

/// The test for an item that its key is the key of no item of `b`.
pub open spec fn absent_from<T: Keyed>(b: Seq<T>) -> spec_fn(T) -> bool {
    |x: T| !has_key(b, x.key())
}

/// The items of `a` whose key no item of `b` has, in the order of `a`.
pub open spec fn only_in_first<T: Keyed>(a: Seq<T>, b: Seq<T>) -> Seq<T> {
    a.filter(absent_from(b))
}

/// The pairs of an item of `a` and an item of `b` with the same key, in the
/// order of `b`.
///
/// Where several items of `a` share a key, the last of them is paired. Where
/// several items of `b` share a key, the first of them is paired and the
/// others count as items that only `b` has.
pub open spec fn in_both<T: Keyed>(a: Seq<T>, b: Seq<T>) -> Seq<(T, T)>
    decreases b.len(),
{
    if b.len() == 0 {
        Seq::empty()
    } else if last_is_paired(a, b) {
        in_both(a, b.drop_last()).push((a[last_with_key(a, b.last().key())], b.last()))
    } else {
        in_both(a, b.drop_last())
    }
}

/// The items of `b` that are not paired with an item of `a`, in the order of `b`.
pub open spec fn only_in_second<T: Keyed>(a: Seq<T>, b: Seq<T>) -> Seq<T>
    decreases b.len(),
{
    if b.len() == 0 {
        Seq::empty()
    } else if last_is_paired(a, b) {
        only_in_second(a, b.drop_last())
    } else {
        only_in_second(a, b.drop_last()).push(b.last())
    }
}

/// The outcome of comparing two collections by key.
#[derive(Debug)]
pub struct Diff<'a, T> {
    /// The items whose key only the first collection has.
    pub a_only: Vec<&'a T>,
    /// The pairs of items that share a key, first collection first.
    pub a_and_b: Vec<(&'a T, &'a T)>,
    /// The items whose key only the second collection has.
    pub b_only: Vec<&'a T>,
}

/// The three groups of a [`Diff`] as sequences of items.
pub struct DiffView<T> {
    pub a_only: Seq<T>,
    pub a_and_b: Seq<(T, T)>,
    pub b_only: Seq<T>,
}

impl<'a, T> View for Diff<'a, T> {
    type V = DiffView<T>;

    open spec fn view(&self) -> DiffView<T> {
        DiffView {
            a_only: self.a_only@.map_values(|x: &T| *x),
            a_and_b: self.a_and_b@.map_values(|p: (&T, &T)| (*p.0, *p.1)),
            b_only: self.b_only@.map_values(|x: &T| *x),
        }
    }
}

/// What [`diff`] returns for the collections `a` and `b`.
pub open spec fn diff_of<T: Keyed>(a: Seq<T>, b: Seq<T>) -> DiffView<T> {
    DiffView { a_only: only_in_first(a, b), a_and_b: in_both(a, b), b_only: only_in_second(a, b) }
}

/// `last_with_key` finds an item with the key whenever there is one.
pub proof fn lemma_last_with_key<T: Keyed>(s: Seq<T>, k: T::Key)
    ensures
        -1 <= last_with_key(s, k) < s.len(),
        has_key(s, k) <==> last_with_key(s, k) >= 0,
        last_with_key(s, k) >= 0 ==> s[last_with_key(s, k)].key() == k,
        forall|i: int| last_with_key(s, k) < i < s.len() ==> #[trigger] s[i].key() != k,
    decreases s.len(),
{
    if s.len() > 0 {
        let t = s.drop_last();
        lemma_last_with_key(t, k);
        if s.last().key() == k {
            assert(s[s.len() - 1].key() == k);
        } else {
            if has_key(s, k) {
                let i = choose|i: int| 0 <= i < s.len() && #[trigger] s[i].key() == k;
                assert(t[i].key() == k);
            }
            if has_key(t, k) {
                let i = choose|i: int| 0 <= i < t.len() && #[trigger] t[i].key() == k;
                assert(s[i].key() == k);
            }
            assert forall|i: int| last_with_key(s, k) < i < s.len() implies #[trigger] s[i].key()
                != k by {
                if i < t.len() {
                    assert(t[i].key() != k);
                }
            }
        }
    }
}

/// The position in `a` of the last item with the key of `x`.
fn find_last<T: Keyed>(a: &[T], x: &T) -> (r: Option<usize>)
    ensures
        match r {
            Some(i) => i as int == last_with_key(a@, x.key()) && i < a@.len(),
            None => last_with_key(a@, x.key()) == -1,
        },
{
    let mut i: usize = a.len();
    proof {
        lemma_last_with_key(a@, x.key());
    }
    while i > 0
        invariant
            i <= a@.len(),
            last_with_key(a@, x.key()) < i,
            -1 <= last_with_key(a@, x.key()),
            last_with_key(a@, x.key()) >= 0 ==> a@[last_with_key(a@, x.key())].key() == x.key(),
            forall|j: int| last_with_key(a@, x.key()) < j < a@.len() ==> #[trigger] a@[j].key() != x.key(),
        decreases i,
    {
        i -= 1;
        if a[i].same_key(x) {
            return Some(i);
        }
    }
    None
}

/// The position of the last of the first `n` items of `a` that is filed
/// under `text`, or -1 if there is none.
pub open spec fn last_filed<T: Keyed>(a: Seq<T>, text: Seq<char>, n: int) -> int
    decreases n,
{
    if n <= 0 {
        -1
    } else if T::index_text(a[n - 1].key()) == text {
        n - 1
    } else {
        last_filed(a, text, n - 1)
    }
}

/// `last_filed` finds an item filed under the text whenever there is one
/// among the first `n`.
proof fn lemma_last_filed<T: Keyed>(a: Seq<T>, text: Seq<char>, n: int)
    requires
        0 <= n <= a.len(),
    ensures
        -1 <= last_filed(a, text, n) < n,
        last_filed(a, text, n) >= 0 ==> T::index_text(a[last_filed(a, text, n)].key()) == text,
        forall|i: int| last_filed(a, text, n) < i < n ==> T::index_text(#[trigger] a[i].key()) != text,
    decreases n,
{
    if n > 0 && T::index_text(a[n - 1].key()) != text {
        lemma_last_filed(a, text, n - 1);
    }
}

/// Whether `link` leads from the item at `i` to the item before it that is
/// filed under the same text.
spec fn leads_back<T: Keyed>(link: Option<usize>, a: Seq<T>, i: int) -> bool {
    match link {
        Some(p) => p as int == last_filed(a, T::index_text(a[i].key()), i),
        None => last_filed(a, T::index_text(a[i].key()), i) == -1,
    }
}

/// Whether `last` says where the last of the first `n` items of `a` is that
/// is filed under `text`.
spec fn leads_to_last<T: Keyed>(last: Map<Seq<char>, usize>, a: Seq<T>, text: Seq<char>, n: int) -> bool {
    if last_filed(a, text, n) >= 0 {
        last.contains_key(text) && last[text] as int == last_filed(a, text, n)
    } else {
        !last.contains_key(text)
    }
}

/// A lookup from the text of a key to the items of a collection: for each
/// text the last item filed under it, and for each item the one before it
/// that is filed under the same text.
struct Index {
    last: StringHashMap<usize>,
    before: Vec<Option<usize>>,
}

impl Index {
    /// Whether the index holds the first `n` items of `a`.
    spec fn holds<T: Keyed>(&self, a: Seq<T>, n: int) -> bool {
        &&& self.before@.len() == n
        &&& forall|text: Seq<char>| #[trigger] leads_to_last(self.last@, a, text, n)
        &&& forall|i: int| 0 <= i < n ==> leads_back(#[trigger] self.before@[i], a, i)
    }

    /// Files the items of a collection.
    fn build<T: Keyed>(a: &[T]) -> (r: Index)
        ensures
            r.holds(a@, a@.len() as int),
    {
        let mut index = Index { last: StringHashMap::new(), before: Vec::new() };
        let mut i: usize = 0;
        while i < a.len()
            invariant
                i <= a@.len(),
                index.holds(a@, i as int),
            decreases a@.len() - i,
        {
            let text = a[i].index_key();
            let ghost filed = index;
            assert(filed.holds(a@, i as int));
            let before = match index.last.get(text.as_str()) {
                Some(p) => Some(*p),
                None => None,
            };
            index.before.push(before);
            index.last.insert(text, i);
            proof {
                assert forall|t: Seq<char>| #[trigger]
                    leads_to_last(index.last@, a@, t, i + 1) by {
                    assert(leads_to_last(filed.last@, a@, t, i as int));
                }
                assert forall|k: int| 0 <= k < i + 1 implies leads_back(
                    #[trigger] index.before@[k],
                    a@,
                    k,
                ) by {
                    if k < i {
                        assert(leads_back(filed.before@[k], a@, k));
                    } else {
                        assert(leads_to_last(filed.last@, a@, text@, i as int));
                        lemma_last_filed(a@, text@, i as int);
                    }
                }
            }
            i += 1;
        }
        index
    }

    /// The position in `a` of the last item with the key of `x`.
    fn find_last<T: Keyed>(&self, a: &[T], x: &T) -> (r: Option<usize>)
        requires
            self.holds(a@, a@.len() as int),
        ensures
            match r {
                Some(i) => i as int == last_with_key(a@, x.key()) && i < a@.len(),
                None => last_with_key(a@, x.key()) == -1,
            },
    {
        let text = x.index_key();
        let mut at: Option<usize> = match self.last.get(text.as_str()) {
            Some(p) => Some(*p),
            None => None,
        };
        let mut bound: usize = a.len();
        proof {
            lemma_last_filed(a@, text@, a@.len() as int);
            assert(leads_to_last(self.last@, a@, text@, a@.len() as int));
        }
        loop
            invariant
                self.holds(a@, a@.len() as int),
                text@ == T::index_text(x.key()),
                bound <= a@.len(),
                match at {
                    Some(p) => p as int == last_filed(a@, text@, bound as int),
                    None => last_filed(a@, text@, bound as int) == -1,
                },
                forall|i: int| bound <= i < a@.len() ==> #[trigger] a@[i].key() != x.key(),
            decreases bound,
        {
            proof {
                lemma_last_filed(a@, text@, bound as int);
                lemma_last_with_key(a@, x.key());
            }
            match at {
                None => {
                    assert forall|i: int| 0 <= i < a@.len() implies #[trigger] a@[i].key()
                        != x.key() by {
                        if i < bound {
                            assert(T::index_text(a@[i].key()) != text@);
                        }
                    }
                    return None;
                },
                Some(p) => {
                    if a[p].same_key(x) {
                        assert forall|i: int| p < i < a@.len() implies #[trigger] a@[i].key()
                            != x.key() by {
                            if i < bound {
                                assert(T::index_text(a@[i].key()) != text@);
                            }
                        }
                        return Some(p);
                    }
                    assert forall|i: int| p <= i < a@.len() implies #[trigger] a@[i].key()
                        != x.key() by {
                        if p < i < bound {
                            assert(T::index_text(a@[i].key()) != text@);
                        }
                    }
                    assert(leads_back(self.before@[p as int], a@, p as int));
                    at = self.before[p];
                    bound = p;
                },
            }
        }
    }
}

/// An item added at the end of a collection adds its key to the keys of the
/// collection, and no other.
proof fn lemma_has_key_push<T: Keyed>(s: Seq<T>, x: T, k: T::Key)
    ensures
        has_key(s.push(x), k) <==> has_key(s, k) || x.key() == k,
{
    let t = s.push(x);
    if has_key(t, k) {
        let i = choose|i: int| 0 <= i < t.len() && #[trigger] t[i].key() == k;
        if i < s.len() {
            assert(s[i].key() == k);
        }
    }
    if has_key(s, k) {
        let i = choose|i: int| 0 <= i < s.len() && #[trigger] s[i].key() == k;
        assert(t[i].key() == k);
    }
    if x.key() == k {
        assert(t[s.len() as int].key() == k);
    }
}

/// Whether `taken` marks the items of `a` that an item of `b` has been
/// paired with: of the items with one key the last, if `b` has the key.
spec fn marks<T: Keyed>(taken: Seq<bool>, a: Seq<T>, b: Seq<T>) -> bool {
    &&& taken.len() == a.len()
    &&& forall|i: int|
        0 <= i < a.len() ==> (#[trigger] taken[i] <==> i == last_with_key(a, a[i].key())
            && has_key(b, a[i].key()))
}

/// Compares two collections by the key of their items.
///
/// The result holds references to the items of `a` and `b`, each of them in
/// exactly one group. Keys are expected to be unique within `a` and within
/// `b`; where they are not, the last of several items of `a` with one key is
/// the one that is paired, and only the first of several items of `b` with one
/// key is paired.
///
/// The items of `a` are filed in an index by the text of their keys, and each
/// item of `b` is looked up there.
pub fn diff<'a, T: Keyed>(a: &'a [T], b: &'a [T]) -> (d: Diff<'a, T>)
    ensures
        d@ == diff_of(a@, b@),
{
    let index = Index::build(a);
    let mut taken: Vec<bool> = Vec::new();
    let mut i: usize = 0;
    while i < a.len()
        invariant
            i <= a@.len(),
            taken@.len() == i,
            forall|k: int| 0 <= k < i ==> !(#[trigger] taken@[k]),
        decreases a@.len() - i,
    {
        taken.push(false);
        i += 1;
    }
    let mut a_only: Vec<&'a T> = Vec::new();
    let mut a_and_b: Vec<(&'a T, &'a T)> = Vec::new();
    let mut b_only: Vec<&'a T> = Vec::new();
    let mut j: usize = 0;
    proof {
        assert(b@.take(0) =~= Seq::empty());
        assert forall|i: int| 0 <= i < a@.len() implies !has_key(
            b@.take(0),
            #[trigger] a@[i].key(),
        ) by {}
    }
    while j < b.len()
        invariant
            j <= b@.len(),
            index.holds(a@, a@.len() as int),
            marks(taken@, a@, b@.take(j as int)),
            a_and_b@.map_values(|p: (&T, &T)| (*p.0, *p.1)) == in_both(a@, b@.take(j as int)),
            b_only@.map_values(|x: &T| *x) == only_in_second(a@, b@.take(j as int)),
        decreases b@.len() - j,
    {
        let x = &b[j];
        let found = index.find_last(a, x);
        let ghost seen = b@.take(j as int);
        let ghost next = b@.take(j + 1);
        let ghost marked = taken@;
        proof {
            lemma_last_with_key(a@, x.key());
            assert(next.drop_last() =~= seen);
            assert(next.last() == *x);
            assert(next =~= seen.push(*x));
            assert forall|i: int| 0 <= i < a@.len() implies (has_key(next, #[trigger] a@[i].key())
                <==> has_key(seen, a@[i].key()) || x.key() == a@[i].key()) by {
                lemma_has_key_push(seen, *x, a@[i].key());
            }
        }
        let free = match found {
            Some(i) => !taken[i],
            None => false,
        };
        if free {
            let i = found.unwrap();
            assert(marked[i as int] <==> i == last_with_key(a@, a@[i as int].key()) && has_key(
                seen,
                a@[i as int].key(),
            ));
            a_and_b.push((&a[i], x));
            taken.set(i, true);
            proof {
                assert(a_and_b@.map_values(|p: (&T, &T)| (*p.0, *p.1)) =~= in_both(a@, seen).push(
                    (a@[i as int], *x),
                ));
                assert forall|k: int| 0 <= k < a@.len() implies (#[trigger] taken@[k] <==> k
                    == last_with_key(a@, a@[k].key()) && has_key(next, a@[k].key())) by {
                    assert(marked[k] <==> k == last_with_key(a@, a@[k].key()) && has_key(
                        seen,
                        a@[k].key(),
                    ));
                }
            }
        } else {
            b_only.push(x);
            proof {
                if found is Some {
                    let i = found->0 as int;
                    assert(marked[i] <==> i == last_with_key(a@, a@[i].key()) && has_key(
                        seen,
                        a@[i].key(),
                    ));
                }
                assert(b_only@.map_values(|x: &T| *x) =~= only_in_second(a@, seen).push(*x));
                assert forall|k: int| 0 <= k < a@.len() implies (#[trigger] taken@[k] <==> k
                    == last_with_key(a@, a@[k].key()) && has_key(next, a@[k].key())) by {
                    assert(marked[k] <==> k == last_with_key(a@, a@[k].key()) && has_key(
                        seen,
                        a@[k].key(),
                    ));
                    if x.key() == a@[k].key() {
                        assert(has_key(a@, x.key()));
                    }
                }
            }
        }
        j += 1;
    }
    assert(b@.take(b@.len() as int) =~= b@);
    let mut i: usize = 0;
    while i < a.len()
        invariant
            i <= a@.len(),
            index.holds(a@, a@.len() as int),
            marks(taken@, a@, b@),
            a_only@.map_values(|x: &T| *x) == only_in_first(a@.take(i as int), b@),
        decreases a@.len() - i,
    {
        let x = &a[i];
        let kept = match index.find_last(a, x) {
            Some(last) => !taken[last],
            None => true,
        };
        proof {
            lemma_last_with_key(a@, x.key());
            let last = last_with_key(a@, x.key());
            assert(a@[i as int].key() == x.key());
            assert(has_key(a@, x.key()));
            assert(taken@[last] <==> last == last_with_key(a@, a@[last].key()) && has_key(
                b@,
                a@[last].key(),
            ));
            assert(kept == absent_from(b@)(*x));
            assert(a@.take(i + 1) =~= a@.take(i as int).push(*x));
            a@.take(i as int).lemma_filter_push(*x, absent_from(b@));
        }
        if kept {
            a_only.push(x);
            assert(a_only@.map_values(|x: &T| *x) =~= only_in_first(a@.take(i as int), b@).push(
                *x,
            ));
        }
        i += 1;
    }
    assert(a@.take(a@.len() as int) =~= a@);
    Diff { a_only, a_and_b, b_only }
}

/// The collection `s` with the item `x` put in: in the place of the item that
/// has its key, or at the end where no item has it.
pub open spec fn upserted<T: Keyed>(s: Seq<T>, x: T) -> Seq<T> {
    if last_with_key(s, x.key()) >= 0 {
        s.update(last_with_key(s, x.key()), x)
    } else {
        s.push(x)
    }
}

/// Putting an item into a collection with unique keys leaves the keys unique.
pub proof fn lemma_upserted_unique<T: Keyed>(s: Seq<T>, x: T)
    requires
        keys_unique(s),
    ensures
        keys_unique(upserted(s, x)),
        has_key(upserted(s, x), x.key()),
{
    lemma_last_with_key(s, x.key());
    let p = last_with_key(s, x.key());
    let out = upserted(s, x);
    if p >= 0 {
        assert(out[p].key() == x.key());
        assert forall|i: int, j: int| 0 <= i < j < out.len() implies #[trigger] out[i].key()
            != #[trigger] out[j].key() by {
            assert(s[i].key() != s[j].key());
        }
    } else {
        assert(out[s.len() as int].key() == x.key());
        assert forall|i: int, j: int| 0 <= i < j < out.len() implies #[trigger] out[i].key()
            != #[trigger] out[j].key() by {
            if j < s.len() {
                assert(s[i].key() != s[j].key());
            } else {
                assert(s[i].key() != x.key());
            }
        }
    }
}

/// Puts an item into a collection: in the place of the item that has its
/// key, or at the end where no item has it.
pub fn upsert<T: Keyed>(v: &mut Vec<T>, x: T)
    ensures
        final(v)@ == upserted(old(v)@, x),
{
    match find_last(v.as_slice(), &x) {
        Some(i) => {
            v.set(i, x);
        },
        None => {
            v.push(x);
        },
    }
}

/// Tells whether no two items of a collection share a key.
pub fn has_unique_keys<T: Keyed>(v: &[T]) -> (r: bool)
    ensures
        r == keys_unique(v@),
{
    let index = Index::build(v);
    let mut j: usize = 0;
    while j < v.len()
        invariant
            j <= v@.len(),
            index.holds(v@, v@.len() as int),
            forall|i: int| 0 <= i < j ==> last_with_key(v@, #[trigger] v@[i].key()) == i,
        decreases v@.len() - j,
    {
        let last = index.find_last(v, &v[j]);
        proof {
            lemma_last_with_key(v@, v@[j as int].key());
        }
        if last != Some(j) {
            let ghost i = last_with_key(v@, v@[j as int].key());
            assert(v@[j as int].key() == v@[i].key() && j < i);
            return false;
        }
        j += 1;
    }
    proof {
        assert forall|a: int, b: int| 0 <= a < b < v@.len() implies #[trigger] v@[a].key()
            != #[trigger] v@[b].key() by {
            lemma_last_with_key(v@, v@[a].key());
        }
    }
    true
}

/// Whether two collections hold the same items under the same keys, in
/// whatever order: every item of either is paired with an item of the other,
/// and `same` holds of the items of each pair.
pub open spec fn same_items<T: Keyed>(a: Seq<T>, b: Seq<T>, same: spec_fn(T, T) -> bool) -> bool {
    &&& diff_of(a, b).a_only.len() == 0
    &&& diff_of(a, b).b_only.len() == 0
    &&& forall|i: int|
        0 <= i < diff_of(a, b).a_and_b.len() ==> same(
            (#[trigger] diff_of(a, b).a_and_b[i]).0,
            diff_of(a, b).a_and_b[i].1,
        )
}

/// Tells whether two collections hold equal items under the same keys, in
/// whatever order. Items are compared with `==`.
pub fn items_eq<T: Keyed + PartialEq>(a: &[T], b: &[T]) -> (r: bool)
    requires
        T::obeys_eq_spec(),
    ensures
        r == same_items(a@, b@, |x: T, y: T| x.eq_spec(&y)),
{
    let d = diff(a, b);
    if d.a_only.len() > 0 || d.b_only.len() > 0 {
        return false;
    }
    let mut i: usize = 0;
    while i < d.a_and_b.len()
        invariant
            i <= d.a_and_b@.len(),
            T::obeys_eq_spec(),
            d@ == diff_of(a@, b@),
            forall|j: int| 0 <= j < i ==> (#[trigger] d@.a_and_b[j]).0.eq_spec(&d@.a_and_b[j].1),
        decreases d.a_and_b@.len() - i,
    {
        let (x, y) = d.a_and_b[i];
        assert(d@.a_and_b[i as int] == (*x, *y));
        if !(*x == *y) {
            return false;
        }
        i += 1;
    }
    true
}

/// An item paired with itself.
pub open spec fn with_itself<T>() -> spec_fn(T) -> (T, T) {
    |x: T| (x, x)
}

/// A collection with unique keys, compared with its first `n` items, has each
/// of those items paired with itself and none left over.
proof fn lemma_diff_with_prefix<T: Keyed>(a: Seq<T>, n: int)
    requires
        keys_unique(a),
        0 <= n <= a.len(),
    ensures
        in_both(a, a.take(n)) == a.take(n).map_values(with_itself()),
        only_in_second(a, a.take(n)) == Seq::<T>::empty(),
    decreases n,
{
    let b = a.take(n);
    if n == 0 {
        assert(b.map_values(with_itself::<T>()) =~= Seq::empty());
    } else {
        let k = a[n - 1].key();
        lemma_diff_with_prefix(a, n - 1);
        assert(b.drop_last() =~= a.take(n - 1));
        assert(b.last() == a[n - 1]);
        assert(has_key(a, k));
        if has_key(b.drop_last(), k) {
            let i = choose|i: int| 0 <= i < b.drop_last().len() && #[trigger] b.drop_last()[i].key() == k;
            assert(a[i].key() == k);
        }
        lemma_last_with_key(a, k);
        let j = last_with_key(a, k);
        if j < n - 1 {
            assert(a[j].key() != a[n - 1].key());
        } else if j > n - 1 {
            assert(a[n - 1].key() != a[j].key());
        }
        assert(b.map_values(with_itself()) =~= a.take(n - 1).map_values(with_itself()).push(
            (a[n - 1], a[n - 1]),
        ));
    }
}

/// A collection with unique keys, compared with itself, has every item
/// paired with itself, and no item on one side only.
pub proof fn lemma_diff_with_itself<T: Keyed>(a: Seq<T>)
    requires
        keys_unique(a),
    ensures
        diff_of(a, a) == (DiffView {
            a_only: Seq::empty(),
            a_and_b: a.map_values(with_itself()),
            b_only: Seq::empty(),
        }),
{
    lemma_diff_with_prefix(a, a.len() as int);
    assert(a.take(a.len() as int) =~= a);
    assert forall|i: int| 0 <= i < a.len() implies !absent_from(a)(#[trigger] a[i]) by {
        assert(a[i].key() == a[i].key());
    }
    assert(a.all(|x: T| !absent_from(a)(x)));
    a.lemma_all_neg_filter_empty(absent_from(a));
    assert(only_in_first(a, a) =~= Seq::empty());
}

/// Where `f` gives nothing for any item of `s`, it gives nothing for `s`.
pub proof fn lemma_flat_map_nothing<A, B>(s: Seq<A>, f: spec_fn(A) -> Seq<B>)
    requires
        forall|i: int| 0 <= i < s.len() ==> (#[trigger] f(s[i])).len() == 0,
    ensures
        s.flat_map(f) == Seq::<B>::empty(),
    decreases s.len(),
{
    if s.len() == 0 {
        assert(s.map_values(f) =~= Seq::empty());
        assert(s.flat_map(f) =~= Seq::empty());
    } else {
        let t = s.drop_last();
        assert forall|i: int| 0 <= i < t.len() implies (#[trigger] f(t[i])).len() == 0 by {
            assert(f(s[i]).len() == 0);
        }
        lemma_flat_map_nothing(t, f);
        t.lemma_flat_map_push(f, s.last());
        assert(s =~= t.push(s.last()));
        assert(f(s[s.len() - 1]).len() == 0);
        assert(s.flat_map(f) =~= Seq::empty());
    }
}

/// Two items with the same key, one of each of two collections with unique
/// keys, are paired by the time the second of them has been passed.
proof fn lemma_paired_by<T: Keyed>(a: Seq<T>, b: Seq<T>, i: int, j: int, n: int)
    requires
        keys_unique(a),
        keys_unique(b),
        0 <= i < a.len(),
        0 <= j < n <= b.len(),
        a[i].key() == b[j].key(),
    ensures
        in_both(a, b.take(n)).contains((a[i], b[j])),
    decreases n,
{
    let upto = b.take(n);
    let before = upto.drop_last();
    assert(before =~= b.take(n - 1));
    let pairs = in_both(a, upto);
    if j == n - 1 {
        let k = b[j].key();
        assert(upto.last() == b[j]);
        assert(has_key(a, k));
        if has_key(before, k) {
            let e = choose|e: int| 0 <= e < before.len() && #[trigger] before[e].key() == k;
            assert(b[e].key() != b[j].key());
        }
        lemma_last_with_key(a, k);
        let p = last_with_key(a, k);
        if p < i {
            assert(a[p].key() != a[i].key());
        } else if p > i {
            assert(a[i].key() != a[p].key());
        }
        assert(pairs.last() == (a[i], b[j]));
    } else {
        lemma_paired_by(a, b, i, j, n - 1);
        let earlier = in_both(a, before);
        let e = choose|e: int| 0 <= e < earlier.len() && earlier[e] == (a[i], b[j]);
        assert(pairs[e] == (a[i], b[j]));
    }
}

/// Two items with the same key, one of each of two collections with unique
/// keys, are paired with each other.
pub proof fn lemma_same_key_is_paired<T: Keyed>(a: Seq<T>, b: Seq<T>, i: int, j: int)
    requires
        keys_unique(a),
        keys_unique(b),
        0 <= i < a.len(),
        0 <= j < b.len(),
        a[i].key() == b[j].key(),
    ensures
        in_both(a, b).contains((a[i], b[j])),
{
    lemma_paired_by(a, b, i, j, b.len() as int);
    assert(b.take(b.len() as int) =~= b);
}

/// What `f` gives for an item of `s` is part of what it gives for `s`.
pub proof fn lemma_flat_map_contains<A, B>(s: Seq<A>, f: spec_fn(A) -> Seq<B>, p: int, x: B)
    requires
        0 <= p < s.len(),
        f(s[p]).contains(x),
    ensures
        s.flat_map(f).contains(x),
    decreases s.len(),
{
    let t = s.drop_last();
    t.lemma_flat_map_push(f, s.last());
    assert(s =~= t.push(s.last()));
    if p == s.len() - 1 {
        let part = f(s[p]);
        let k = choose|k: int| 0 <= k < part.len() && part[k] == x;
        assert(s.flat_map(f)[t.flat_map(f).len() + k] == x);
    } else {
        assert(t[p] == s[p]);
        lemma_flat_map_contains(t, f, p, x);
        let k = choose|k: int| 0 <= k < t.flat_map(f).len() && t.flat_map(f)[k] == x;
        assert(s.flat_map(f)[k] == x);
    }
}

/// Where `f` gives `n` things for each item of `s` that meets `p` and nothing
/// for the others, it gives `n` things for `s` as often as an item meets `p`.
pub proof fn lemma_flat_map_len<A, B>(s: Seq<A>, f: spec_fn(A) -> Seq<B>, p: spec_fn(A) -> bool, n: nat)
    requires
        forall|i: int|
            0 <= i < s.len() ==> (#[trigger] f(s[i])).len() == if p(s[i]) {
                n
            } else {
                0
            },
    ensures
        s.flat_map(f).len() == n * s.filter(p).len(),
    decreases s.len(),
{
    if s.len() == 0 {
        assert(s.map_values(f) =~= Seq::empty());
        assert(s.flat_map(f) =~= Seq::empty());
        s.lemma_filter_len(p);
        assert(n * 0 == 0) by (nonlinear_arith);
    } else {
        let t = s.drop_last();
        assert forall|i: int| 0 <= i < t.len() implies (#[trigger] f(t[i])).len() == if p(t[i]) {
            n
        } else {
            0
        } by {
            assert(f(s[i]).len() == if p(s[i]) {
                n
            } else {
                0
            });
        }
        lemma_flat_map_len(t, f, p, n);
        t.lemma_flat_map_push(f, s.last());
        t.lemma_filter_push(s.last(), p);
        assert(s =~= t.push(s.last()));
        assert(f(s[s.len() - 1]).len() == if p(s.last()) {
            n
        } else {
            0
        });
        let k = t.filter(p).len();
        assert(n * (k + 1) == n * k + n) by (nonlinear_arith);
    }
}

/// The test for an item that its key is the key of an item of `b`.
pub open spec fn present_in<T: Keyed>(b: Seq<T>) -> spec_fn(T) -> bool {
    |x: T| has_key(b, x.key())
}

/// Tests that agree on every item of `s` keep the same items.
proof fn lemma_filter_same<A>(s: Seq<A>, p: spec_fn(A) -> bool, q: spec_fn(A) -> bool)
    requires
        forall|i: int| 0 <= i < s.len() ==> p(#[trigger] s[i]) == q(s[i]),
    ensures
        s.filter(p) == s.filter(q),
    decreases s.len(),
{
    if s.len() == 0 {
        s.lemma_filter_len(p);
        s.lemma_filter_len(q);
        assert(s.filter(p) =~= s.filter(q));
    } else {
        let t = s.drop_last();
        assert forall|i: int| 0 <= i < t.len() implies p(#[trigger] t[i]) == q(t[i]) by {
            assert(p(s[i]) == q(s[i]));
        }
        lemma_filter_same(t, p, q);
        t.lemma_filter_push(s.last(), p);
        t.lemma_filter_push(s.last(), q);
        assert(s =~= t.push(s.last()));
        assert(p(s[s.len() - 1]) == q(s[s.len() - 1]));
    }
}

/// A test that one more item of `s` meets keeps one more item.
proof fn lemma_filter_one_more<A>(s: Seq<A>, p: spec_fn(A) -> bool, q: spec_fn(A) -> bool, j: int)
    requires
        0 <= j < s.len(),
        !p(s[j]),
        q(s[j]),
        forall|i: int| 0 <= i < s.len() && i != j ==> p(#[trigger] s[i]) == q(s[i]),
    ensures
        s.filter(q).len() == s.filter(p).len() + 1,
    decreases s.len(),
{
    let t = s.drop_last();
    t.lemma_filter_push(s.last(), p);
    t.lemma_filter_push(s.last(), q);
    assert(s =~= t.push(s.last()));
    assert forall|i: int| 0 <= i < t.len() && i != j implies p(#[trigger] t[i]) == q(t[i]) by {
        assert(p(s[i]) == q(s[i]));
    }
    if j == s.len() - 1 {
        lemma_filter_same(t, p, q);
    } else {
        assert(t[j] == s[j]);
        lemma_filter_one_more(t, p, q, j);
        assert(p(s[s.len() - 1]) == q(s[s.len() - 1]));
    }
}

/// Every item of `s` either meets a test or fails it.
proof fn lemma_filter_divides<A>(s: Seq<A>, p: spec_fn(A) -> bool, q: spec_fn(A) -> bool)
    requires
        forall|i: int| 0 <= i < s.len() ==> p(#[trigger] s[i]) != q(s[i]),
    ensures
        s.filter(p).len() + s.filter(q).len() == s.len(),
    decreases s.len(),
{
    if s.len() == 0 {
        s.lemma_filter_len(p);
        s.lemma_filter_len(q);
    } else {
        let t = s.drop_last();
        assert forall|i: int| 0 <= i < t.len() implies p(#[trigger] t[i]) != q(t[i]) by {
            assert(p(s[i]) != q(s[i]));
        }
        lemma_filter_divides(t, p, q);
        t.lemma_filter_push(s.last(), p);
        t.lemma_filter_push(s.last(), q);
        assert(s =~= t.push(s.last()));
        assert(p(s[s.len() - 1]) != q(s[s.len() - 1]));
    }
}

/// Of a collection with unique keys, as many items are paired as have a key
/// that the second collection has.
proof fn lemma_paired_count<T: Keyed>(a: Seq<T>, b: Seq<T>)
    requires
        keys_unique(a),
    ensures
        in_both(a, b).len() == a.filter(present_in(b)).len(),
    decreases b.len(),
{
    if b.len() == 0 {
        assert forall|i: int| 0 <= i < a.len() implies !present_in(b)(#[trigger] a[i]) by {}
        assert(a.all(|x: T| !present_in(b)(x)));
        a.lemma_all_neg_filter_empty(present_in(b));
    } else {
        let rest = b.drop_last();
        let x = b.last();
        let k = x.key();
        lemma_paired_count(a, rest);
        assert(b =~= rest.push(x));
        assert forall|i: int| 0 <= i < a.len() implies (present_in(b)(#[trigger] a[i])
            <==> present_in(rest)(a[i]) || a[i].key() == k) by {
            lemma_has_key_push(rest, x, a[i].key());
        }
        lemma_last_with_key(a, k);
        if last_is_paired(a, b) {
            let j = last_with_key(a, k);
            assert forall|i: int| 0 <= i < a.len() && i != j implies present_in(rest)(
                #[trigger] a[i],
            ) == present_in(b)(a[i]) by {
                if i < j {
                    assert(a[i].key() != a[j].key());
                } else {
                    assert(a[j].key() != a[i].key());
                }
            }
            lemma_filter_one_more(a, present_in(rest), present_in(b), j);
        } else {
            assert forall|i: int| 0 <= i < a.len() implies present_in(rest)(#[trigger] a[i])
                == present_in(b)(a[i]) by {
                if a[i].key() == k {
                    assert(has_key(a, k));
                }
            }
            lemma_filter_same(a, present_in(rest), present_in(b));
        }
    }
}

/// A comparison has each item of a first collection with unique keys in
/// exactly one of two groups: only in the first, or paired.
pub proof fn lemma_first_is_divided<T: Keyed>(a: Seq<T>, b: Seq<T>)
    requires
        keys_unique(a),
    ensures
        only_in_first(a, b).len() + in_both(a, b).len() == a.len(),
{
    lemma_paired_count(a, b);
    lemma_filter_divides(a, absent_from(b), present_in(b));
}

/// A comparison has each item of the second collection in exactly one of two
/// groups: paired, or only in the second.
pub proof fn lemma_second_is_divided<T: Keyed>(a: Seq<T>, b: Seq<T>)
    ensures
        in_both(a, b).len() + only_in_second(a, b).len() == b.len(),
    decreases b.len(),
{
    if b.len() > 0 {
        lemma_second_is_divided(a, b.drop_last());
    }
}

/// A difference for which no SQL can be rendered: a schema that only one of
/// the two sides has.
#[derive(Debug)]
pub struct Unsupported {
    /// What would have to be done: `DropSchema` or `CreateSchema`.
    pub change: ChangeType,
    /// The name of the schema.
    pub schema: String,
}

/// A difference that renders itself as changes.
pub trait DiffSql {
    /// The first difference that cannot be rendered, as the kind of change
    /// and the name of the schema, if there is one.
    spec fn unsupported(&self) -> Option<(ChangeType, Seq<char>)>;

    /// The changes that make the first side into the second, in the order in
    /// which they are found.
    spec fn changes(&self) -> Seq<(ChangeType, Seq<char>)>;

    /// Renders the changes, each with its kind, or reports the difference
    /// that cannot be rendered.
    fn sql(&self) -> (r: Result<Vec<(ChangeType, String)>, Unsupported>)
        ensures
            match r {
                Ok(v) => self.unsupported() is None && changes_of(v@) == self.changes(),
                Err(e) => self.unsupported() == Some((e.change, e.schema@)),
            },
    ;
}

} // verus!
