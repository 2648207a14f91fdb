//! Replaying a sequence of document items into storage, one after the
//! other, until one of them fails.

use vstd::prelude::*;
use crate::document::ServerWebsiteImportExportView;
use crate::select::{grew_by, lemma_grew_twice};
use crate::storage::{StorageError, StorageView};

verus! {

/// Why an import stopped.
#[derive(Clone, Copy, Debug, PartialEq, Eq, Structural)]
pub enum ImportError {
    /// Storage already has a project with the document's project name.
    ProjectAlreadyExists,
    /// A server link points to a server that is not in storage.
    LinkedServerNotFound,
    /// A note refers to a shared note that is not in storage.
    SharedNoteNotFound,
    /// Storage refused a row.
    Storage(StorageError),
}

/// A website whose row is written only in the second pass: the server it
/// belongs to, its group, and the website as the document gives it.
pub struct UnprocessedWebsiteView {
    pub server_id: i32,
    pub group_name: Option<Seq<char>>,
    pub website: ServerWebsiteImportExportView,
}

/// Storage after a step, and what the step returned.
pub type Written = (StorageView, Result<(), ImportError>);

/// Storage after a step, and the websites that the step left for the
/// second pass.
pub type Deferred = (StorageView, Result<Seq<UnprocessedWebsiteView>, ImportError>);

/// What an import step returns after an insertion.
pub open spec fn stored(r: Result<i32, StorageError>) -> Result<(), ImportError> {
    match r {
        Ok(_) => Ok(()),
        Err(e) => Err(ImportError::Storage(e)),
    }
}

/// The items replayed in order from `st`. Each item's step starts from the
/// storage that the step before it left. The first failure ends the replay:
/// the items after it are not looked at, and the rows written so far stay.
pub open spec fn replay<T>(
    st: StorageView,
    items: Seq<T>,
    step: spec_fn(StorageView, T) -> Written,
) -> Written
    decreases items.len(),
{
    if items.len() == 0 {
        (st, Ok(()))
    } else {
        let (after, r) = step(st, items[0]);
        match r {
            Err(e) => (after, Err(e)),
            Ok(_) => replay(after, items.skip(1), step),
        }
    }
}

/// An outcome with `earlier` put in front of the websites it deferred.
pub open spec fn after_deferring(
    earlier: Seq<UnprocessedWebsiteView>,
    outcome: Deferred,
) -> Deferred {
    match outcome.1 {
        Ok(later) => (outcome.0, Ok(earlier + later)),
        Err(e) => (outcome.0, Err(e)),
    }
}

/// The items replayed in order from `st`, as [`replay`] does, collecting in
/// order the websites that each step defers.
pub open spec fn replay_deferring<T>(
    st: StorageView,
    items: Seq<T>,
    step: spec_fn(StorageView, T) -> Deferred,
) -> Deferred
    decreases items.len(),
{
    if items.len() == 0 {
        (st, Ok(Seq::empty()))
    } else {
        let (after, r) = step(st, items[0]);
        match r {
            Err(e) => (after, Err(e)),
            Ok(deferred) => after_deferring(deferred, replay_deferring(after, items.skip(1), step)),
        }
    }
}

/// Replaying from item `i` on is item `i`'s step, then the replay from
/// item `i + 1` on.
pub proof fn lemma_replay_next<T>(
    st: StorageView,
    items: Seq<T>,
    step: spec_fn(StorageView, T) -> Written,
    i: int,
)
    requires
        0 <= i < items.len(),
    ensures
        replay(st, items.skip(i), step) == (match step(st, items[i]).1 {
            Err(e) => (step(st, items[i]).0, Err(e)),
            Ok(_) => replay(step(st, items[i]).0, items.skip(i + 1), step),
        }),
{
    assert(items.skip(i).skip(1) =~= items.skip(i + 1));
}

/// Replaying no item leaves storage as it is.
pub proof fn lemma_replay_end<T>(
    st: StorageView,
    items: Seq<T>,
    step: spec_fn(StorageView, T) -> Written,
)
    ensures
        replay(st, items.skip(items.len() as int), step) == (st, Ok::<(), ImportError>(())),
        replay(st, items.skip(0), step) == replay(st, items, step),
{
    assert(items.skip(0) =~= items);
}

/// Replaying from item `i` on is item `i`'s step, then the replay from
/// item `i + 1` on, with the websites of item `i` in front.
pub proof fn lemma_replay_deferring_next<T>(
    st: StorageView,
    items: Seq<T>,
    step: spec_fn(StorageView, T) -> Deferred,
    i: int,
)
    requires
        0 <= i < items.len(),
    ensures
        replay_deferring(st, items.skip(i), step) == (match step(st, items[i]).1 {
            Err(e) => (step(st, items[i]).0, Err(e)),
            Ok(deferred) => after_deferring(
                deferred,
                replay_deferring(step(st, items[i]).0, items.skip(i + 1), step),
            ),
        }),
{
    assert(items.skip(i).skip(1) =~= items.skip(i + 1));
}

/// Replaying no item leaves storage as it is and defers nothing.
pub proof fn lemma_replay_deferring_end<T>(
    st: StorageView,
    items: Seq<T>,
    step: spec_fn(StorageView, T) -> Deferred,
)
    ensures
        replay_deferring(st, items.skip(items.len() as int), step) == (
            st,
            Ok::<Seq<UnprocessedWebsiteView>, ImportError>(Seq::empty()),
        ),
        replay_deferring(st, items.skip(0), step) == replay_deferring(st, items, step),
{
    assert(items.skip(0) =~= items);
}

/// Putting websites in front twice is putting their concatenation in front.
pub proof fn lemma_after_deferring_twice(
    first: Seq<UnprocessedWebsiteView>,
    second: Seq<UnprocessedWebsiteView>,
    outcome: Deferred,
)
    ensures
        after_deferring(first, after_deferring(second, outcome)) == after_deferring(
            first + second,
            outcome,
        ),
        after_deferring(Seq::empty(), outcome) == outcome,
{
    match outcome.1 {
        Ok(later) => {
            assert(first + (second + later) =~= (first + second) + later);
            assert(Seq::<UnprocessedWebsiteView>::empty() + later =~= later);
        },
        Err(_) => {},
    }
}

/// What every step keeps, the replay keeps: where `kept` relates every
/// storage to itself, carries over from step to step, and holds between the
/// storage before and after each single step, it holds between the storage
/// before and after the replay.
pub proof fn lemma_replay_keeps<T>(
    st: StorageView,
    items: Seq<T>,
    step: spec_fn(StorageView, T) -> Written,
    kept: spec_fn(StorageView, StorageView) -> bool,
)
    requires
        forall|a: StorageView| #[trigger] kept(a, a),
        forall|a: StorageView, b: StorageView, c: StorageView|
            #[trigger] kept(a, b) && #[trigger] kept(b, c) ==> kept(a, c),
        forall|a: StorageView, x: T| kept(a, (#[trigger] step(a, x)).0),
    ensures
        kept(st, replay(st, items, step).0),
    decreases items.len(),
{
    if items.len() > 0 {
        let after = step(st, items[0]).0;
        lemma_replay_keeps(after, items.skip(1), step, kept);
    }
}

/// What every step keeps, the replay keeps, also where the steps defer
/// websites.
pub proof fn lemma_replay_deferring_keeps<T>(
    st: StorageView,
    items: Seq<T>,
    step: spec_fn(StorageView, T) -> Deferred,
    kept: spec_fn(StorageView, StorageView) -> bool,
)
    requires
        forall|a: StorageView| #[trigger] kept(a, a),
        forall|a: StorageView, b: StorageView, c: StorageView|
            #[trigger] kept(a, b) && #[trigger] kept(b, c) ==> kept(a, c),
        forall|a: StorageView, x: T| kept(a, (#[trigger] step(a, x)).0),
    ensures
        kept(st, replay_deferring(st, items, step).0),
    decreases items.len(),
{
    if items.len() > 0 {
        let after = step(st, items[0]).0;
        lemma_replay_deferring_keeps(after, items.skip(1), step, kept);
    }
}

/// The test that a table is the same in two storages.
pub open spec fn same_table<R>(table: spec_fn(StorageView) -> Seq<R>) -> spec_fn(
    StorageView,
    StorageView,
) -> bool {
    |a: StorageView, b: StorageView| table(a) == table(b)
}

/// Steps that each append one row make a replay append their rows: where
/// every step that succeeds leaves behind the rows of a table one row more,
/// the row of its item, a replay that succeeds leaves behind them one row
/// for each item, in order.
pub proof fn lemma_replay_appends<T, R>(
    st: StorageView,
    items: Seq<T>,
    step: spec_fn(StorageView, T) -> Written,
    table: spec_fn(StorageView) -> Seq<R>,
    row_of: spec_fn(T) -> R,
    strip: spec_fn(R) -> R,
)
    requires
        forall|a: StorageView, x: T|
            (#[trigger] step(a, x)).1 is Ok ==> grew_by(
                table(a),
                table(step(a, x).0),
                seq![row_of(x)],
                strip,
            ),
        replay(st, items, step).1 is Ok,
    ensures
        grew_by(table(st), table(replay(st, items, step).0), items.map_values(row_of), strip),
    decreases items.len(),
{
    if items.len() > 0 {
        let after = step(st, items[0]).0;
        lemma_replay_appends(after, items.skip(1), step, table, row_of, strip);
        lemma_grew_twice(
            table(st),
            table(after),
            table(replay(st, items, step).0),
            seq![row_of(items[0])],
            items.skip(1).map_values(row_of),
            strip,
        );
        assert(seq![row_of(items[0])] + items.skip(1).map_values(row_of) =~= items.map_values(
            row_of,
        ));
    }
}

/// The rows that the items bring, item after item.
pub open spec fn all_rows<T, R>(items: Seq<T>, rows_of: spec_fn(T) -> Seq<R>) -> Seq<R>
    decreases items.len(),
{
    if items.len() == 0 {
        Seq::empty()
    } else {
        rows_of(items[0]) + all_rows(items.skip(1), rows_of)
    }
}

/// Items that bring no row bring no rows.
pub proof fn lemma_all_rows_none<T, R>(items: Seq<T>, rows_of: spec_fn(T) -> Seq<R>)
    requires
        forall|i: int| 0 <= i < items.len() ==> rows_of(#[trigger] items[i]).len() == 0,
    ensures
        all_rows(items, rows_of) == Seq::<R>::empty(),
    decreases items.len(),
{
    if items.len() > 0 {
        assert forall|i: int| 0 <= i < items.skip(1).len() implies rows_of(
            #[trigger] items.skip(1)[i],
        ).len() == 0 by {
            assert(items.skip(1)[i] == items[i + 1]);
        }
        lemma_all_rows_none(items.skip(1), rows_of);
        assert(rows_of(items[0]) + Seq::<R>::empty() =~= Seq::<R>::empty());
    }
}

/// Items that bring one row each bring their rows in order.
pub proof fn lemma_all_rows_one_each<T, R>(
    items: Seq<T>,
    rows_of: spec_fn(T) -> Seq<R>,
    row_of: spec_fn(T) -> R,
)
    requires
        forall|i: int| 0 <= i < items.len() ==> rows_of(#[trigger] items[i]) == seq![row_of(items[i])],
    ensures
        all_rows(items, rows_of) == items.map_values(row_of),
    decreases items.len(),
{
    if items.len() > 0 {
        assert forall|i: int| 0 <= i < items.skip(1).len() implies rows_of(
            #[trigger] items.skip(1)[i],
        ) == seq![row_of(items.skip(1)[i])] by {
            assert(items.skip(1)[i] == items[i + 1]);
        }
        lemma_all_rows_one_each(items.skip(1), rows_of, row_of);
        assert(seq![row_of(items[0])] + items.skip(1).map_values(row_of) =~= items.map_values(
            row_of,
        ));
    } else {
        assert(items.map_values(row_of) =~= Seq::<R>::empty());
    }
}

/// Steps that each append some rows make a replay append all of them:
/// where every step that succeeds leaves behind the rows of a table the
/// rows of its item, a replay that succeeds leaves behind them the rows of
/// every item, in order.
pub proof fn lemma_replay_appends_rows<T, R>(
    st: StorageView,
    items: Seq<T>,
    step: spec_fn(StorageView, T) -> Written,
    table: spec_fn(StorageView) -> Seq<R>,
    rows_of: spec_fn(T) -> Seq<R>,
    strip: spec_fn(R) -> R,
)
    requires
        forall|a: StorageView, x: T|
            (#[trigger] step(a, x)).1 is Ok ==> grew_by(
                table(a),
                table(step(a, x).0),
                rows_of(x),
                strip,
            ),
        replay(st, items, step).1 is Ok,
    ensures
        grew_by(table(st), table(replay(st, items, step).0), all_rows(items, rows_of), strip),
    decreases items.len(),
{
    if items.len() > 0 {
        let after = step(st, items[0]).0;
        lemma_replay_appends_rows(after, items.skip(1), step, table, rows_of, strip);
        lemma_grew_twice(
            table(st),
            table(after),
            table(replay(st, items, step).0),
            rows_of(items[0]),
            all_rows(items.skip(1), rows_of),
            strip,
        );
    }
}

/// A replay with one more item at the end is the replay of the others,
/// then the step of the last, unless the others failed.
pub proof fn lemma_replay_push<T>(
    st: StorageView,
    items: Seq<T>,
    last: T,
    step: spec_fn(StorageView, T) -> Written,
)
    ensures
        replay(st, items.push(last), step) == (match replay(st, items, step).1 {
            Err(e) => replay(st, items, step),
            Ok(_) => (match step(replay(st, items, step).0, last).1 {
                Err(e) => (step(replay(st, items, step).0, last).0, Err(e)),
                Ok(_) => replay(step(replay(st, items, step).0, last).0, Seq::<T>::empty(), step),
            }),
        }),
    decreases items.len(),
{
    let all = items.push(last);
    if items.len() == 0 {
        assert(all[0] == last);
        assert(all.skip(1) =~= Seq::<T>::empty());
    } else {
        assert(all[0] == items[0]);
        assert(all.skip(1) =~= items.skip(1).push(last));
        let after = step(st, items[0]);
        if after.1 is Ok {
            lemma_replay_push(after.0, items.skip(1), last, step);
        }
    }
}

/// The rows of the items with one more item at the end are the rows of
/// the others, then the rows of the last.
pub proof fn lemma_all_rows_push<T, R>(items: Seq<T>, last: T, rows_of: spec_fn(T) -> Seq<R>)
    ensures
        all_rows(items.push(last), rows_of) == all_rows(items, rows_of) + rows_of(last),
    decreases items.len(),
{
    let all = items.push(last);
    if items.len() == 0 {
        assert(all[0] == last);
        assert(all.skip(1) =~= Seq::<T>::empty());
        assert(all_rows(all.skip(1), rows_of) =~= Seq::<R>::empty());
        assert(rows_of(last) + Seq::<R>::empty() =~= Seq::<R>::empty() + rows_of(last));
    } else {
        assert(all[0] == items[0]);
        assert(all.skip(1) =~= items.skip(1).push(last));
        lemma_all_rows_push(items.skip(1), last, rows_of);
        let head = rows_of(items[0]);
        let mid = all_rows(items.skip(1), rows_of);
        assert(head + (mid + rows_of(last)) =~= (head + mid) + rows_of(last));
    }
}

/// Whether an outcome, where it is a failure, is one of the allowed
/// failures.
pub open spec fn fails_as<T>(r: Result<T, ImportError>, allowed: spec_fn(ImportError) -> bool) -> bool {
    r is Err ==> allowed(r->Err_0)
}

/// A replay fails as its steps fail: where every failure of a step is
/// an allowed one, so is the failure of the replay.
pub proof fn lemma_replay_fails_as_its_steps<T>(
    st: StorageView,
    items: Seq<T>,
    step: spec_fn(StorageView, T) -> Written,
    allowed: spec_fn(ImportError) -> bool,
)
    requires
        forall|a: StorageView, x: T| fails_as((#[trigger] step(a, x)).1, allowed),
    ensures
        fails_as(replay(st, items, step).1, allowed),
    decreases items.len(),
{
    if items.len() > 0 {
        let after = step(st, items[0]);
        assert(fails_as(after.1, allowed));
        lemma_replay_fails_as_its_steps(after.0, items.skip(1), step, allowed);
    }
}

/// A replay fails as its steps fail, also where the steps defer websites.
pub proof fn lemma_replay_deferring_fails_as_its_steps<T>(
    st: StorageView,
    items: Seq<T>,
    step: spec_fn(StorageView, T) -> Deferred,
    allowed: spec_fn(ImportError) -> bool,
)
    requires
        forall|a: StorageView, x: T| fails_as((#[trigger] step(a, x)).1, allowed),
    ensures
        fails_as(replay_deferring(st, items, step).1, allowed),
    decreases items.len(),
{
    if items.len() > 0 {
        let after = step(st, items[0]);
        assert(fails_as(after.1, allowed));
        lemma_replay_deferring_fails_as_its_steps(after.0, items.skip(1), step, allowed);
    }
}

} // verus!
