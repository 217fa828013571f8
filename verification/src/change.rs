//! The kinds of change a script is made of, and the order of a script.

use crate::models::constraint::ConstraintType;
use itertools::Itertools;
use std::cmp::Ordering;
use vstd::prelude::*;
use vstd::std_specs::cmp::PartialOrdSpecImpl;

verus! {

/// The kind of a change to a database structure.
///
/// The variants are listed in the order in which changes are written to a
/// script. Constraints are dropped in the reverse of the order in which they
/// are created.
#[derive(Clone, Copy, Debug, PartialEq, Eq, Structural, Hash)]
pub enum ChangeType {
    DropConstraint(ConstraintType),
    DropColumn,
    DropTable,
    DropSchema,
    AlterColumn,
    CreateSchema,
    CreateTable,
    CreateColumn,
    CreateConstraint(ConstraintType),
}

/// The number of places in the order of changes.
pub const RANKS: u8 = 19;

impl ChangeType {
    /// The place of this kind of change in a script, from 0.
    pub open spec fn spec_rank(self) -> int {
        match self {
            ChangeType::DropConstraint(t) => 5 - t.spec_rank(),
            ChangeType::DropColumn => 6,
            ChangeType::DropTable => 7,
            ChangeType::DropSchema => 8,
            ChangeType::AlterColumn => 9,
            ChangeType::CreateSchema => 10,
            ChangeType::CreateTable => 11,
            ChangeType::CreateColumn => 12,
            ChangeType::CreateConstraint(t) => 13 + t.spec_rank(),
        }
    }

    /// The place of this kind of change in a script, from 0.
    pub fn rank(self) -> (r: u8)
        ensures
            r == self.spec_rank(),
            r < RANKS,
    {
        match self {
            ChangeType::DropConstraint(t) => 5 - t.rank(),
            ChangeType::DropColumn => 6,
            ChangeType::DropTable => 7,
            ChangeType::DropSchema => 8,
            ChangeType::AlterColumn => 9,
            ChangeType::CreateSchema => 10,
            ChangeType::CreateTable => 11,
            ChangeType::CreateColumn => 12,
            ChangeType::CreateConstraint(t) => 13 + t.rank(),
        }
    }

    /// Whether a change of this kind is written before a change of kind `other`.
    pub fn precedes(self, other: ChangeType) -> (r: bool)
        ensures
            r == (self.spec_rank() < other.spec_rank()),
    {
        self.rank() < other.rank()
    }
}

impl PartialOrd for ChangeType {
    /// Kinds of change are ordered by their place in a script.
    fn partial_cmp(&self, other: &Self) -> (r: Option<Ordering>) {
        let a = self.rank();
        let b = other.rank();
        if a < b {
            Some(Ordering::Less)
        } else if a == b {
            Some(Ordering::Equal)
        } else {
            Some(Ordering::Greater)
        }
    }
}

impl PartialOrdSpecImpl for ChangeType {
    open spec fn obeys_partial_cmp_spec() -> bool {
        true
    }

    open spec fn partial_cmp_spec(&self, other: &Self) -> Option<Ordering> {
        if self.spec_rank() < other.spec_rank() {
            Some(Ordering::Less)
        } else if self.spec_rank() == other.spec_rank() {
            Some(Ordering::Equal)
        } else {
            Some(Ordering::Greater)
        }
    }
}

/// The changes of a list of changes: each kind with the characters of its SQL.
pub open spec fn changes_of(v: Seq<(ChangeType, String)>) -> Seq<(ChangeType, Seq<char>)> {
    v.map_values(|c: (ChangeType, String)| (c.0, c.1@))
}

/// The SQL of each change of a list.
pub open spec fn sql_of(s: Seq<(ChangeType, Seq<char>)>) -> Seq<Seq<char>> {
    s.map_values(|c: (ChangeType, Seq<char>)| c.1)
}

/// The test for a change that its kind has the place `k`.
pub open spec fn has_rank(k: int) -> spec_fn((ChangeType, Seq<char>)) -> bool {
    |c: (ChangeType, Seq<char>)| c.0.spec_rank() == k
}

/// Whether no change of `s` stands before a change of a kind with an earlier place.
pub open spec fn in_order(s: Seq<(ChangeType, Seq<char>)>) -> bool {
    forall|i: int, j: int|
        0 <= i < j < s.len() ==> (#[trigger] s[i]).0.spec_rank() <= (#[trigger] s[j]).0.spec_rank()
}

/// The changes of `s` whose kind has a place before `n`, by place, and those
/// of one place in the order in which they stand in `s`.
pub open spec fn ranked_below(s: Seq<(ChangeType, Seq<char>)>, n: int) -> Seq<
    (ChangeType, Seq<char>),
>
    decreases n,
{
    if n <= 0 {
        Seq::empty()
    } else {
        ranked_below(s, n - 1) + s.filter(has_rank(n - 1))
    }
}

/// The changes of `s` in the order of a script: sorted by the place of their
/// kind, and those of one kind in the order in which they stand in `s`.
pub open spec fn sorted_changes(s: Seq<(ChangeType, Seq<char>)>) -> Seq<(ChangeType, Seq<char>)> {
    ranked_below(s, RANKS as int)
}

/// The place of a list item, for sorting.
pub fn change_rank(c: &(ChangeType, String)) -> (r: u8)
    ensures
        r == c.0.spec_rank(),
{
    c.0.rank()
}

/// Sorts changes by the place of their kind, keeping the order of changes of
/// one kind.
///
/// Trusted: calls `Itertools::sorted_by_key` with [`change_rank`] as the key
/// and collects the result. The method sorts in ascending order of the key
/// and is stable, so the changes of each place are those of the input in
/// their order.
#[verifier::external_body]
pub(crate) fn sort_by_rank(v: Vec<(ChangeType, String)>) -> (r: Vec<(ChangeType, String)>)
    ensures
        in_order(changes_of(r@)),
        forall|k: int| #[trigger]
            changes_of(r@).filter(has_rank(k)) == changes_of(v@).filter(has_rank(k)),
{
    v.into_iter().sorted_by_key(change_rank).collect()
}

/// Nothing stands below any place in an empty list.
proof fn lemma_ranked_below_empty(n: int)
    ensures
        ranked_below(Seq::empty(), n) == Seq::<(ChangeType, Seq<char>)>::empty(),
    decreases n,
{
    if n > 0 {
        lemma_ranked_below_empty(n - 1);
        Seq::<(ChangeType, Seq<char>)>::empty().lemma_filter_len(has_rank(n - 1));
        assert(ranked_below(Seq::empty(), n) =~= Seq::<(ChangeType, Seq<char>)>::empty());
    }
}

/// Lists that hold the same changes at every place hold the same changes
/// below every place.
proof fn lemma_ranked_below_same(
    r: Seq<(ChangeType, Seq<char>)>,
    v: Seq<(ChangeType, Seq<char>)>,
    n: int,
)
    requires
        forall|k: int| #[trigger] r.filter(has_rank(k)) == v.filter(has_rank(k)),
    ensures
        ranked_below(r, n) == ranked_below(v, n),
    decreases n,
{
    if n > 0 {
        lemma_ranked_below_same(r, v, n - 1);
    }
}

/// A change whose place is not before that of any change of `s`, added at the
/// end of `s`, comes last of the changes below `n`.
proof fn lemma_ranked_below_push(
    s: Seq<(ChangeType, Seq<char>)>,
    x: (ChangeType, Seq<char>),
    n: int,
)
    requires
        forall|i: int| 0 <= i < s.len() ==> (#[trigger] s[i]).0.spec_rank() <= x.0.spec_rank(),
    ensures
        ranked_below(s.push(x), n) == if x.0.spec_rank() < n {
            ranked_below(s, n).push(x)
        } else {
            ranked_below(s, n)
        },
    decreases n,
{
    if n > 0 {
        lemma_ranked_below_push(s, x, n - 1);
        s.lemma_filter_push(x, has_rank(n - 1));
        if x.0.spec_rank() < n - 1 {
            assert(s.all(|c: (ChangeType, Seq<char>)| !has_rank(n - 1)(c)));
            s.lemma_all_neg_filter_empty(has_rank(n - 1));
            assert(ranked_below(s.push(x), n) =~= ranked_below(s, n).push(x));
        } else if x.0.spec_rank() == n - 1 {
            assert(ranked_below(s.push(x), n) =~= ranked_below(s, n).push(x));
        }
    }
}

/// A list in order, with all its changes below `n`, is the list of its changes below `n`.
proof fn lemma_in_order_is_ranked(s: Seq<(ChangeType, Seq<char>)>, n: int)
    requires
        in_order(s),
        forall|i: int| 0 <= i < s.len() ==> (#[trigger] s[i]).0.spec_rank() < n,
    ensures
        s == ranked_below(s, n),
    decreases s.len(),
{
    if s.len() == 0 {
        lemma_ranked_below_empty(n);
        assert(s =~= Seq::empty());
    } else {
        let t = s.drop_last();
        let x = s.last();
        assert forall|i: int, j: int| 0 <= i < j < t.len() implies (#[trigger] t[i]).0.spec_rank()
            <= (#[trigger] t[j]).0.spec_rank() by {
            assert(s[i].0.spec_rank() <= s[j].0.spec_rank());
        }
        assert forall|i: int| 0 <= i < t.len() implies (#[trigger] t[i]).0.spec_rank()
            <= x.0.spec_rank() by {
            assert(s[i].0.spec_rank() <= s[s.len() - 1].0.spec_rank());
        }
        assert forall|i: int| 0 <= i < t.len() implies (#[trigger] t[i]).0.spec_rank() < n by {
            assert(s[i].0.spec_rank() < n);
        }
        lemma_in_order_is_ranked(t, n);
        lemma_ranked_below_push(t, x, n);
        assert(s =~= t.push(x));
    }
}

/// The changes below `n` are in order, each of them is a change of `s` with a
/// place below `n`, and each such change of `s` is among them.
pub proof fn lemma_ranked_below(s: Seq<(ChangeType, Seq<char>)>, n: int)
    ensures
        in_order(ranked_below(s, n)),
        forall|i: int|
            0 <= i < ranked_below(s, n).len() ==> (#[trigger] ranked_below(s, n)[i]).0.spec_rank()
                < n && s.contains(ranked_below(s, n)[i]),
        forall|i: int|
            0 <= i < s.len() && s[i].0.spec_rank() < n ==> ranked_below(s, n).contains(
                #[trigger] s[i],
            ),
    decreases n,
{
    let out = ranked_below(s, n);
    if n > 0 {
        let below = ranked_below(s, n - 1);
        let here = s.filter(has_rank(n - 1));
        lemma_ranked_below(s, n - 1);
        assert forall|i: int| 0 <= i < here.len() implies (#[trigger] here[i]).0.spec_rank() == n
            - 1 && s.contains(here[i]) by {
            s.lemma_filter_pred(has_rank(n - 1), i);
            assert(here.contains(here[i]));
            s.lemma_filter_contains_rev(has_rank(n - 1), here[i]);
        }
        assert forall|i: int| 0 <= i < out.len() implies (#[trigger] out[i]).0.spec_rank() < n
            && s.contains(out[i]) by {
            if i < below.len() {
                assert(out[i] == below[i]);
            } else {
                assert(out[i] == here[i - below.len()]);
            }
        }
        assert forall|i: int, j: int| 0 <= i < j < out.len() implies (#[trigger] out[i]).0.spec_rank()
            <= (#[trigger] out[j]).0.spec_rank() by {
            if j < below.len() {
                assert(out[i] == below[i] && out[j] == below[j]);
            } else if i < below.len() {
                assert(out[i] == below[i] && out[j] == here[j - below.len()]);
            } else {
                assert(out[i] == here[i - below.len()] && out[j] == here[j - below.len()]);
            }
        }
        assert forall|i: int| 0 <= i < s.len() && s[i].0.spec_rank() < n implies out.contains(
            #[trigger] s[i],
        ) by {
            if s[i].0.spec_rank() < n - 1 {
                assert(below.contains(s[i]));
                let k = choose|k: int| 0 <= k < below.len() && below[k] == s[i];
                assert(out[k] == s[i]);
            } else {
                s.lemma_filter_contains(has_rank(n - 1), i);
                let k = choose|k: int| 0 <= k < here.len() && here[k] == s[i];
                assert(out[below.len() + k] == s[i]);
            }
        }
    }
}

/// The SQL of each change of a list, in the order of the list.
pub fn sql_texts(v: &Vec<(ChangeType, String)>) -> (r: Vec<String>)
    ensures
        crate::text::texts(r@) == sql_of(changes_of(v@)),
{
    let mut r: Vec<String> = Vec::new();
    let mut i: usize = 0;
    while i < v.len()
        invariant
            i <= v@.len(),
            crate::text::texts(r@) == sql_of(changes_of(v@)).take(i as int),
        decreases v@.len() - i,
    {
        let ghost before = crate::text::texts(r@);
        r.push(v[i].1.clone());
        proof {
            let all = sql_of(changes_of(v@));
            assert(crate::text::texts(r@) =~= before.push(v@[i as int].1@));
            assert(all.take(i + 1) =~= all.take(i as int).push(all[i as int]));
        }
        i += 1;
    }
    assert(sql_of(changes_of(v@)).take(i as int) =~= sql_of(changes_of(v@)));
    r
}

/// Sorts changes into the order of a script.
pub fn sort_changes(v: Vec<(ChangeType, String)>) -> (r: Vec<(ChangeType, String)>)
    ensures
        changes_of(r@) == sorted_changes(changes_of(v@)),
{
    let ghost before = changes_of(v@);
    let r = sort_by_rank(v);
    proof {
        let after = changes_of(r@);
        lemma_in_order_is_ranked(after, RANKS as int);
        lemma_ranked_below_same(after, before, RANKS as int);
    }
    r
}

/// In a sorted script every change of a kind with an earlier place stands
/// before every change of a kind with a later place. In particular all
/// changes that drop a constraint stand before all that drop a table, those
/// before all that create a table, and those before all that create a
/// constraint.
pub proof fn script_order(s: Seq<(ChangeType, Seq<char>)>)
    ensures
        in_order(sorted_changes(s)),
        forall|i: int, j: int|
            #![trigger sorted_changes(s)[i], sorted_changes(s)[j]]
            0 <= i < sorted_changes(s).len() && 0 <= j < sorted_changes(s).len() && sorted_changes(
                s,
            )[i].0.spec_rank() < sorted_changes(s)[j].0.spec_rank() ==> i < j,
        forall|i: int, j: int|
            #![trigger sorted_changes(s)[i], sorted_changes(s)[j]]
            0 <= i < sorted_changes(s).len() && 0 <= j < sorted_changes(s).len() ==> {
                let x = sorted_changes(s)[i].0;
                let y = sorted_changes(s)[j].0;
                &&& x is DropConstraint && y is DropTable ==> i < j
                &&& x is DropTable && y is CreateTable ==> i < j
                &&& x is CreateTable && y is CreateConstraint ==> i < j
                &&& x is DropConstraint && y is CreateConstraint ==> i < j
            },
{
    lemma_ranked_below(s, RANKS as int);
    let out = sorted_changes(s);
    assert forall|i: int, j: int|
        #![trigger sorted_changes(s)[i], sorted_changes(s)[j]]
        0 <= i < out.len() && 0 <= j < out.len() && out[i].0.spec_rank()
            < out[j].0.spec_rank() implies i < j by {
        if j < i {
            assert(out[j].0.spec_rank() <= out[i].0.spec_rank());
        }
    }
}

/// A sorted script holds the changes of the list it was sorted from, and no others.
pub proof fn script_changes(s: Seq<(ChangeType, Seq<char>)>, c: (ChangeType, Seq<char>))
    ensures
        sorted_changes(s).contains(c) <==> s.contains(c),
{
    lemma_ranked_below(s, RANKS as int);
    let out = sorted_changes(s);
    if s.contains(c) {
        let i = choose|i: int| 0 <= i < s.len() && s[i] == c;
        assert(s[i].0.spec_rank() < RANKS);
        assert(out.contains(s[i]));
    }
    if out.contains(c) {
        let i = choose|i: int| 0 <= i < out.len() && out[i] == c;
        assert(s.contains(out[i]));
    }
}

/// Of two changes of a list, the one whose kind has the earlier place stands
/// first in the sorted script.
pub proof fn earlier_kind_stands_first(
    s: Seq<(ChangeType, Seq<char>)>,
    x: (ChangeType, Seq<char>),
    y: (ChangeType, Seq<char>),
)
    requires
        s.contains(x),
        s.contains(y),
        x.0.spec_rank() < y.0.spec_rank(),
    ensures
        exists|i: int, j: int|
            0 <= i < j < sorted_changes(s).len() && sorted_changes(s)[i] == x && sorted_changes(
                s,
            )[j] == y,
{
    let out = sorted_changes(s);
    script_changes(s, x);
    script_changes(s, y);
    script_order(s);
    let i = choose|i: int| 0 <= i < out.len() && out[i] == x;
    let j = choose|j: int| 0 <= j < out.len() && out[j] == y;
    assert(sorted_changes(s)[i].0.spec_rank() < sorted_changes(s)[j].0.spec_rank());
    assert(0 <= i < j < sorted_changes(s).len() && sorted_changes(s)[i] == x && sorted_changes(
        s,
    )[j] == y);
}

} // verus!
