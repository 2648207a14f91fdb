//! Rows that pass a test: selecting them in table order, and counting them.

use vstd::multiset::Multiset;
use vstd::prelude::*;

verus! {

/// The rows that pass a test, in table order, each turned into an item of
/// the document.
pub open spec fn select<A, B>(rows: Seq<A>, wanted: spec_fn(A) -> bool, item: spec_fn(A) -> B) -> Seq<
    B,
> {
    rows.filter(wanted).map_values(item)
}

/// Selecting among the first `i + 1` rows is selecting among the first
/// `i`, then taking row `i` where it passes the test.
pub proof fn lemma_select_next<A, B>(
    rows: Seq<A>,
    wanted: spec_fn(A) -> bool,
    item: spec_fn(A) -> B,
    i: int,
)
    requires
        0 <= i < rows.len(),
    ensures
        select(rows.take(i + 1), wanted, item) == (if wanted(rows[i]) {
            select(rows.take(i), wanted, item).push(item(rows[i]))
        } else {
            select(rows.take(i), wanted, item)
        }),
{
    assert(rows.take(i + 1) =~= rows.take(i).push(rows[i]));
    rows.take(i).lemma_filter_push(rows[i], wanted);
    if wanted(rows[i]) {
        assert(rows.take(i).filter(wanted).push(rows[i]).map_values(item) =~= rows.take(i).filter(
            wanted,
        ).map_values(item).push(item(rows[i])));
    }
}

/// Selecting among no rows gives nothing; selecting among all the rows of
/// a prefix as long as the table is selecting among the table.
pub proof fn lemma_select_ends<A, B>(rows: Seq<A>, wanted: spec_fn(A) -> bool, item: spec_fn(A) -> B)
    ensures
        select(rows.take(0), wanted, item) == Seq::<B>::empty(),
        select(rows.take(rows.len() as int), wanted, item) == select(rows, wanted, item),
{
    assert(rows.take(0) =~= Seq::<A>::empty());
    rows.take(0).lemma_filter_len(wanted);
    assert(rows.take(0).filter(wanted).map_values(item) =~= Seq::<B>::empty());
    assert(rows.take(rows.len() as int) =~= rows);
}

/// Where no item passes the test, the filter keeps nothing.
pub proof fn lemma_filter_none<A>(s: Seq<A>, pred: spec_fn(A) -> bool)
    requires
        forall|i: int| 0 <= i < s.len() ==> !pred(#[trigger] s[i]),
    ensures
        s.filter(pred).len() == 0,
    decreases s.len(),
{
    if s.len() == 0 {
        s.lemma_filter_len(pred);
    } else {
        let front = s.drop_last();
        assert(s =~= front.push(s.last()));
        assert forall|i: int| 0 <= i < front.len() implies !pred(#[trigger] front[i]) by {
            assert(front[i] == s[i]);
        }
        lemma_filter_none(front, pred);
        front.lemma_filter_push(s.last(), pred);
    }
}

/// Where exactly one item passes the test, the filter keeps that item alone.
pub proof fn lemma_filter_one<A>(s: Seq<A>, pred: spec_fn(A) -> bool, i: int)
    requires
        0 <= i < s.len(),
        pred(s[i]),
        forall|j: int| 0 <= j < s.len() && pred(#[trigger] s[j]) ==> j == i,
    ensures
        s.filter(pred) == seq![s[i]],
    decreases s.len(),
{
    let front = s.drop_last();
    assert(s =~= front.push(s.last()));
    front.lemma_filter_push(s.last(), pred);
    if i == s.len() - 1 {
        assert forall|j: int| 0 <= j < front.len() implies !pred(#[trigger] front[j]) by {
            assert(front[j] == s[j]);
        }
        lemma_filter_none(front, pred);
        assert(front.filter(pred).push(s.last()) =~= seq![s[i]]);
    } else {
        assert(front[i] == s[i]);
        assert forall|j: int| 0 <= j < front.len() && pred(#[trigger] front[j]) implies j == i by {
            assert(front[j] == s[j]);
        }
        lemma_filter_one(front, pred, i);
        assert(!pred(s.last())) by {
            assert(s.last() == s[s.len() - 1]);
        }
    }
}

/// Where two items at different places pass the test, the filter keeps at
/// least two.
pub proof fn lemma_filter_two<A>(s: Seq<A>, pred: spec_fn(A) -> bool, i: int, j: int)
    requires
        0 <= i < j < s.len(),
        pred(s[i]),
        pred(s[j]),
    ensures
        s.filter(pred).len() >= 2,
    decreases s.len(),
{
    let front = s.drop_last();
    assert(s =~= front.push(s.last()));
    front.lemma_filter_push(s.last(), pred);
    if j == s.len() - 1 {
        assert(front[i] == s[i]);
        front.lemma_filter_contains(pred, i);
        assert(front.filter(pred).len() >= 1);
    } else {
        assert(front[i] == s[i]);
        assert(front[j] == s[j]);
        lemma_filter_two(front, pred, i, j);
    }
}

/// Every item that the filter keeps stands somewhere in the sequence and
/// passes the test.
pub proof fn lemma_filter_kept<A>(s: Seq<A>, pred: spec_fn(A) -> bool, k: int) -> (i: int)
    requires
        0 <= k < s.filter(pred).len(),
    ensures
        0 <= i < s.len(),
        s[i] == s.filter(pred)[k],
        pred(s[i]),
    decreases s.len(),
{
    if s.len() == 0 {
        s.lemma_filter_len(pred);
        0
    } else {
        let front = s.drop_last();
        assert(s =~= front.push(s.last()));
        front.lemma_filter_push(s.last(), pred);
        if pred(s.last()) && k == front.filter(pred).len() {
            s.len() - 1
        } else {
            let i = lemma_filter_kept(front, pred, k);
            assert(front[i] == s[i]);
            i
        }
    }
}

// ---------------------------------------------------------------------------
// Splitting a selection
// ---------------------------------------------------------------------------
/// The test that an item passes when it passes one of two tests.
pub open spec fn either<A>(p: spec_fn(A) -> bool, q: spec_fn(A) -> bool) -> spec_fn(A) -> bool {
    |x: A| p(x) || q(x)
}

/// Selecting from a table with one more row is selecting from the table,
/// then taking the new row where it passes the test.
pub proof fn lemma_select_push<A, B>(
    rows: Seq<A>,
    last: A,
    wanted: spec_fn(A) -> bool,
    item: spec_fn(A) -> B,
)
    ensures
        select(rows.push(last), wanted, item) == (if wanted(last) {
            select(rows, wanted, item).push(item(last))
        } else {
            select(rows, wanted, item)
        }),
{
    let all = rows.push(last);
    lemma_select_next(all, wanted, item, rows.len() as int);
    assert(all.take(rows.len() as int) =~= rows);
    assert(all.take(rows.len() as int + 1) =~= all);
}

/// Two tests that agree on every row of a table select the same rows.
pub proof fn lemma_select_same<A, B>(
    rows: Seq<A>,
    p: spec_fn(A) -> bool,
    q: spec_fn(A) -> bool,
    item: spec_fn(A) -> B,
)
    requires
        forall|i: int| 0 <= i < rows.len() ==> p(#[trigger] rows[i]) == q(rows[i]),
    ensures
        select(rows, p, item) == select(rows, q, item),
    decreases rows.len(),
{
    if rows.len() == 0 {
        lemma_select_ends(rows, p, item);
        lemma_select_ends(rows, q, item);
        assert(rows.take(0) =~= rows);
    } else {
        let front = rows.drop_last();
        assert(rows =~= front.push(rows.last()));
        assert forall|i: int| 0 <= i < front.len() implies p(#[trigger] front[i]) == q(
            front[i],
        ) by {
            assert(front[i] == rows[i]);
        }
        lemma_select_same(front, p, q, item);
        lemma_select_push(front, rows.last(), p, item);
        lemma_select_push(front, rows.last(), q, item);
        assert(p(rows[rows.len() - 1]) == q(rows[rows.len() - 1]));
    }
}

/// A test that no row of a table passes selects nothing.
pub proof fn lemma_select_nothing<A, B>(rows: Seq<A>, p: spec_fn(A) -> bool, item: spec_fn(A) -> B)
    requires
        forall|i: int| 0 <= i < rows.len() ==> !p(#[trigger] rows[i]),
    ensures
        select(rows, p, item) == Seq::<B>::empty(),
{
    lemma_filter_none(rows, p);
    assert(rows.filter(p).map_values(item) =~= Seq::<B>::empty());
}

/// Two tests that no row passes together split what either selects: the
/// rows that pass one of them are, as a collection, those that pass the
/// first together with those that pass the second.
pub proof fn lemma_select_split<A, B>(
    rows: Seq<A>,
    p: spec_fn(A) -> bool,
    q: spec_fn(A) -> bool,
    item: spec_fn(A) -> B,
)
    requires
        forall|i: int| 0 <= i < rows.len() ==> !(p(#[trigger] rows[i]) && q(rows[i])),
    ensures
        select(rows, either(p, q), item).to_multiset() == select(rows, p, item).to_multiset().add(
            select(rows, q, item).to_multiset(),
        ),
    decreases rows.len(),
{
    broadcast use vstd::multiset::group_multiset_axioms;

    if rows.len() == 0 {
        lemma_select_ends(rows, p, item);
        lemma_select_ends(rows, q, item);
        lemma_select_ends(rows, either(p, q), item);
        assert(rows.take(0) =~= rows);
        assert(Seq::<B>::empty().to_multiset() =~= Multiset::<B>::empty()) by {
            Seq::<B>::empty().to_multiset_ensures();
        }
        assert(Multiset::<B>::empty().add(Multiset::<B>::empty()) =~= Multiset::<B>::empty());
    } else {
        let front = rows.drop_last();
        let last = rows.last();
        assert(rows =~= front.push(last));
        assert forall|i: int| 0 <= i < front.len() implies !(p(#[trigger] front[i]) && q(
            front[i],
        )) by {
            assert(front[i] == rows[i]);
        }
        lemma_select_split(front, p, q, item);
        lemma_select_push(front, last, p, item);
        lemma_select_push(front, last, q, item);
        lemma_select_push(front, last, either(p, q), item);
        assert(!(p(rows[rows.len() - 1]) && q(rows[rows.len() - 1])));
        let sp = select(front, p, item);
        let sq = select(front, q, item);
        let se = select(front, either(p, q), item);
        vstd::seq_lib::to_multiset_build(sp, item(last));
        vstd::seq_lib::to_multiset_build(sq, item(last));
        vstd::seq_lib::to_multiset_build(se, item(last));
        if p(last) {
            assert(sp.to_multiset().insert(item(last)).add(sq.to_multiset()) =~= sp.to_multiset().add(
                sq.to_multiset(),
            ).insert(item(last)));
        } else if q(last) {
            assert(sp.to_multiset().add(sq.to_multiset().insert(item(last))) =~= sp.to_multiset().add(
                sq.to_multiset(),
            ).insert(item(last)));
        }
    }
}

// ---------------------------------------------------------------------------
// Tables that grow
// ---------------------------------------------------------------------------
/// Whether the table `after` has the rows of `before` and, behind them,
/// one row for each of `rows`, in order and with the same contents once
/// `strip` has taken away what storage assigns.
pub open spec fn grew_by<R>(
    before: Seq<R>,
    after: Seq<R>,
    rows: Seq<R>,
    strip: spec_fn(R) -> R,
) -> bool {
    &&& after.len() == before.len() + rows.len()
    &&& forall|k: int| 0 <= k < before.len() ==> after[k] == before[k]
    &&& forall|k: int| 0 <= k < rows.len() ==> strip(#[trigger] after[before.len() + k]) == rows[k]
}

/// Growing twice is growing by both lists of rows.
pub proof fn lemma_grew_twice<R>(
    a: Seq<R>,
    b: Seq<R>,
    c: Seq<R>,
    first: Seq<R>,
    second: Seq<R>,
    strip: spec_fn(R) -> R,
)
    requires
        grew_by(a, b, first, strip),
        grew_by(b, c, second, strip),
    ensures
        grew_by(a, c, first + second, strip),
{
    let n = a.len() as int;
    assert forall|k: int| 0 <= k < n implies c[k] == a[k] by {
        assert(c[k] == b[k]);
    }
    assert forall|k: int| 0 <= k < (first + second).len() implies strip(#[trigger] c[n + k]) == (
    first + second)[k] by {
        if k < first.len() {
            assert(c[n + k] == b[n + k]);
        } else {
            assert(c[b.len() + (k - first.len())] == c[n + k]);
        }
    }
}

/// A table that grew holds, behind its old rows, the new rows: stripped,
/// they are the rows it grew by.
pub proof fn lemma_grown_rows<R>(before: Seq<R>, after: Seq<R>, rows: Seq<R>, strip: spec_fn(R) -> R)
    requires
        grew_by(before, after, rows, strip),
    ensures
        after.take(before.len() as int) == before,
        after.skip(before.len() as int).map_values(strip) == rows,
{
    let n = before.len() as int;
    assert(after.take(n) =~= before);
    assert forall|k: int| 0 <= k < rows.len() implies after.skip(n).map_values(strip)[k]
        == rows[k] by {
        assert(after.skip(n)[k] == after[n + k]);
    }
    assert(after.skip(n).map_values(strip) =~= rows);
}

// ---------------------------------------------------------------------------
// Rows filed under groups
// ---------------------------------------------------------------------------
/// The test that a row passes when its owner accepts it and it is filed
/// under this group, or under none.
pub open spec fn filed_under<R>(
    owned: spec_fn(R) -> bool,
    group_of: spec_fn(R) -> Option<Seq<char>>,
    group_name: Option<Seq<char>>,
) -> spec_fn(R) -> bool {
    |r: R| owned(r) && group_of(r) == group_name
}

/// The test that a row passes when its owner accepts it and it is filed
/// under one of these groups.
pub open spec fn filed_under_any<R>(
    owned: spec_fn(R) -> bool,
    group_of: spec_fn(R) -> Option<Seq<char>>,
    names: Seq<Seq<char>>,
) -> spec_fn(R) -> bool {
    |r: R| owned(r) && group_of(r) is Some && names.contains(group_of(r)->0)
}

/// The rows of an owner, group after group: for each name in turn, the
/// rows filed under it, in table order.
pub open spec fn selected_by_groups<R, B>(
    rows: Seq<R>,
    owned: spec_fn(R) -> bool,
    group_of: spec_fn(R) -> Option<Seq<char>>,
    names: Seq<Seq<char>>,
    item: spec_fn(R) -> B,
) -> Seq<B>
    decreases names.len(),
{
    if names.len() == 0 {
        Seq::empty()
    } else {
        select(rows, filed_under(owned, group_of, Some(names[0])), item) + selected_by_groups(
            rows,
            owned,
            group_of,
            names.skip(1),
            item,
        )
    }
}

/// Going through the groups loses no row and repeats none: where no name
/// occurs twice, the rows taken group after group are, as a collection, the
/// rows filed under any of the groups.
pub proof fn lemma_selected_by_groups<R, B>(
    rows: Seq<R>,
    owned: spec_fn(R) -> bool,
    group_of: spec_fn(R) -> Option<Seq<char>>,
    names: Seq<Seq<char>>,
    item: spec_fn(R) -> B,
)
    requires
        names.no_duplicates(),
    ensures
        selected_by_groups(rows, owned, group_of, names, item).to_multiset() == select(
            rows,
            filed_under_any(owned, group_of, names),
            item,
        ).to_multiset(),
    decreases names.len(),
{
    let any = filed_under_any(owned, group_of, names);
    if names.len() == 0 {
        lemma_select_nothing(rows, any, item);
    } else {
        let first = filed_under(owned, group_of, Some(names[0]));
        let others = filed_under_any(owned, group_of, names.skip(1));
        assert(names.skip(1).no_duplicates()) by {
            assert forall|i: int, j: int|
                0 <= i < names.skip(1).len() && 0 <= j < names.skip(1).len() && i != j implies names.skip(
                1,
            )[i] != names.skip(1)[j] by {
                assert(names[i + 1] != names[j + 1]);
            }
        }
        lemma_selected_by_groups(rows, owned, group_of, names.skip(1), item);
        vstd::seq_lib::lemma_multiset_commutative(
            select(rows, first, item),
            selected_by_groups(rows, owned, group_of, names.skip(1), item),
        );
        assert forall|i: int| 0 <= i < rows.len() implies !(first(#[trigger] rows[i]) && others(
            rows[i],
        )) by {
            if first(rows[i]) && others(rows[i]) {
                let k = choose|k: int| 0 <= k < names.skip(1).len() && names.skip(1)[k] == names[0];
                assert(names[k + 1] == names[0]);
            }
        }
        lemma_select_split(rows, first, others, item);
        assert forall|i: int| 0 <= i < rows.len() implies either(first, others)(#[trigger] rows[i])
            == any(rows[i]) by {
            let r = rows[i];
            if group_of(r) is Some {
                let x = group_of(r)->0;
                if names.contains(x) {
                    let k = choose|k: int| 0 <= k < names.len() && names[k] == x;
                    if k > 0 {
                        assert(names.skip(1)[k - 1] == x);
                    }
                }
                if names.skip(1).contains(x) {
                    let k = choose|k: int| 0 <= k < names.skip(1).len() && names.skip(1)[k] == x;
                    assert(names[k + 1] == x);
                }
                if x == names[0] {
                    assert(names.contains(x));
                }
            }
        }
        lemma_select_same(rows, either(first, others), any, item);
    }
}

/// The rows of an owner are those filed under no group together with
/// those filed under a group: where the names hold every group under which
/// a row of the owner is filed, and none twice, the ungrouped rows followed
/// by the rows taken group after group are, as a collection, the rows of
/// the owner.
pub proof fn lemma_selected_by_all_groups<R, B>(
    rows: Seq<R>,
    owned: spec_fn(R) -> bool,
    group_of: spec_fn(R) -> Option<Seq<char>>,
    names: Seq<Seq<char>>,
    item: spec_fn(R) -> B,
)
    requires
        names.no_duplicates(),
        forall|i: int|
            0 <= i < rows.len() && owned(#[trigger] rows[i]) && group_of(rows[i]) is Some
                ==> names.contains(group_of(rows[i])->0),
    ensures
        (select(rows, filed_under(owned, group_of, None), item) + selected_by_groups(
            rows,
            owned,
            group_of,
            names,
            item,
        )).to_multiset() == select(rows, owned, item).to_multiset(),
{
    let ungrouped = filed_under(owned, group_of, None);
    let grouped = filed_under_any(owned, group_of, names);
    lemma_selected_by_groups(rows, owned, group_of, names, item);
    vstd::seq_lib::lemma_multiset_commutative(
        select(rows, ungrouped, item),
        selected_by_groups(rows, owned, group_of, names, item),
    );
    lemma_select_split(rows, ungrouped, grouped, item);
    lemma_select_same(rows, either(ungrouped, grouped), owned, item);
}

/// Two tests that agree on every row of a table keep the same rows.
pub proof fn lemma_filter_same<A>(rows: Seq<A>, p: spec_fn(A) -> bool, q: spec_fn(A) -> bool)
    requires
        forall|i: int| 0 <= i < rows.len() ==> p(#[trigger] rows[i]) == q(rows[i]),
    ensures
        rows.filter(p) == rows.filter(q),
{
    let same = |x: A| x;
    lemma_select_same(rows, p, q, same);
    assert(rows.filter(p).map_values(same) =~= rows.filter(p));
    assert(rows.filter(q).map_values(same) =~= rows.filter(q));
}

/// Going through the groups ends with the last group: the rows taken
/// group after group are those taken for all names but the last, followed by
/// those filed under the last name.
pub proof fn lemma_selected_by_groups_last<R, B>(
    rows: Seq<R>,
    owned: spec_fn(R) -> bool,
    group_of: spec_fn(R) -> Option<Seq<char>>,
    names: Seq<Seq<char>>,
    item: spec_fn(R) -> B,
)
    requires
        names.len() > 0,
    ensures
        selected_by_groups(rows, owned, group_of, names, item) == selected_by_groups(
            rows,
            owned,
            group_of,
            names.drop_last(),
            item,
        ) + select(rows, filed_under(owned, group_of, Some(names.last())), item),
    decreases names.len(),
{
    let first = select(rows, filed_under(owned, group_of, Some(names[0])), item);
    let last = select(rows, filed_under(owned, group_of, Some(names.last())), item);
    let all = selected_by_groups(rows, owned, group_of, names, item);
    let front = selected_by_groups(rows, owned, group_of, names.drop_last(), item);
    assert(all == first + selected_by_groups(rows, owned, group_of, names.skip(1), item));
    if names.len() == 1 {
        assert(selected_by_groups(rows, owned, group_of, names.skip(1), item) == Seq::<B>::empty());
        assert(front == Seq::<B>::empty());
        assert(first + Seq::<B>::empty() =~= Seq::<B>::empty() + last);
    } else {
        let rest = names.skip(1);
        lemma_selected_by_groups_last(rows, owned, group_of, rest, item);
        assert(rest.drop_last() =~= names.drop_last().skip(1));
        assert(rest.last() == names.last());
        assert(names.drop_last()[0] == names[0]);
        let middle = selected_by_groups(rows, owned, group_of, rest.drop_last(), item);
        assert(front == first + middle);
        assert(first + (middle + last) =~= (first + middle) + last);
    }
}

// ---------------------------------------------------------------------------
// The one row that passes a test
// ---------------------------------------------------------------------------
/// Filtering the items of a sequence and counting each kept item is
/// counting each item and keeping the counts of those that pass.
pub proof fn lemma_filter_to_multiset<A>(s: Seq<A>, pred: spec_fn(A) -> bool)
    ensures
        s.filter(pred).to_multiset() == s.to_multiset().filter(pred),
    decreases s.len(),
{
    broadcast use vstd::multiset::group_multiset_axioms;

    if s.len() == 0 {
        s.lemma_filter_len(pred);
        s.to_multiset_ensures();
        s.filter(pred).to_multiset_ensures();
        assert(s.filter(pred).to_multiset() =~= s.to_multiset().filter(pred));
    } else {
        let front = s.drop_last();
        let last = s.last();
        assert(s =~= front.push(last));
        front.lemma_filter_push(last, pred);
        lemma_filter_to_multiset(front, pred);
        vstd::seq_lib::to_multiset_build(front, last);
        if pred(last) {
            vstd::seq_lib::to_multiset_build(front.filter(pred), last);
        }
        assert(s.filter(pred).to_multiset() =~= s.to_multiset().filter(pred));
    }
}

/// Filtering after a change of every item is filtering first, by what the
/// test says of the changed item, and changing the kept items.
pub proof fn lemma_filter_mapped<A, B>(
    s: Seq<A>,
    change: spec_fn(A) -> B,
    pred: spec_fn(B) -> bool,
    before: spec_fn(A) -> bool,
)
    requires
        forall|x: A| #[trigger] before(x) == pred(change(x)),
    ensures
        s.map_values(change).filter(pred) == s.filter(before).map_values(change),
    decreases s.len(),
{
    if s.len() == 0 {
        s.lemma_filter_len(before);
        s.map_values(change).lemma_filter_len(pred);
        assert(s.map_values(change).filter(pred) =~= s.filter(before).map_values(change));
    } else {
        let front = s.drop_last();
        let last = s.last();
        assert(s =~= front.push(last));
        assert(s.map_values(change) =~= front.map_values(change).push(change(last)));
        front.lemma_filter_push(last, before);
        front.map_values(change).lemma_filter_push(change(last), pred);
        lemma_filter_mapped(front, change, pred, before);
        if pred(change(last)) {
            assert(front.filter(before).push(last).map_values(change) =~= front.filter(
                before,
            ).map_values(change).push(change(last)));
        }
    }
}

/// Filtering twice is filtering once by both tests.
pub proof fn lemma_filter_twice<A>(
    s: Seq<A>,
    first: spec_fn(A) -> bool,
    second: spec_fn(A) -> bool,
    both: spec_fn(A) -> bool,
)
    requires
        forall|x: A| #[trigger] both(x) == (first(x) && second(x)),
    ensures
        s.filter(first).filter(second) == s.filter(both),
    decreases s.len(),
{
    if s.len() == 0 {
        s.lemma_filter_len(first);
        s.lemma_filter_len(both);
        s.filter(first).lemma_filter_len(second);
        assert(s.filter(first).filter(second) =~= s.filter(both));
    } else {
        let front = s.drop_last();
        let last = s.last();
        assert(s =~= front.push(last));
        front.lemma_filter_push(last, first);
        front.lemma_filter_push(last, both);
        lemma_filter_twice(front, first, second, both);
        if first(last) {
            front.filter(first).lemma_filter_push(last, second);
        }
    }
}

/// Where a sequence holds, in some order, the rows selected from a table,
/// and exactly one wanted row of the table passes a test once it is turned
/// into an item, the sequence holds exactly one item that passes the test:
/// that row's.
pub proof fn lemma_the_one_selected<A, B>(
    held: Seq<B>,
    rows: Seq<A>,
    wanted: spec_fn(A) -> bool,
    item: spec_fn(A) -> B,
    pred: spec_fn(B) -> bool,
    place: int,
)
    requires
        held.to_multiset() == select(rows, wanted, item).to_multiset(),
        0 <= place < rows.len(),
        wanted(rows[place]),
        pred(item(rows[place])),
        forall|j: int|
            0 <= j < rows.len() && wanted(#[trigger] rows[j]) && pred(item(rows[j])) ==> j == place,
    ensures
        held.filter(pred) == seq![item(rows[place])],
{
    broadcast use vstd::multiset::group_multiset_axioms;

    let listed = select(rows, wanted, item);
    let before = |x: A| pred(item(x));
    let both = |x: A| wanted(x) && before(x);
    lemma_filter_mapped(rows.filter(wanted), item, pred, before);
    lemma_filter_twice(rows, wanted, before, both);
    lemma_filter_one(rows, both, place);
    assert(listed.filter(pred) =~= seq![item(rows[place])]);
    lemma_filter_to_multiset(held, pred);
    lemma_filter_to_multiset(listed, pred);
    let kept = held.filter(pred);
    let one = seq![item(rows[place])];
    assert(kept.to_multiset() == one.to_multiset());
    kept.to_multiset_ensures();
    one.to_multiset_ensures();
    assert(kept.len() == 1);
    assert(kept.contains(kept[0]));
    assert(kept.to_multiset().count(kept[0]) > 0);
    assert(one.to_multiset().count(kept[0]) > 0);
    assert(one.contains(kept[0]));
    assert(kept =~= one);
}

} // verus!
