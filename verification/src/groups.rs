//! Group names: the labels under which the items of a project or of a
//! server are filed, gathered from storage in order and without repeats.

use vstd::prelude::*;
use vstd::utf8::{encode_utf8, encode_utf8_decode_utf8};
use crate::rows::{
    ProjectNoteView, ProjectPointOfInterestView, ServerDatabaseView, ServerExtraUserAccountView,
    ServerLinkView, ServerNoteView, ServerPointOfInterestView, ServerView, ServerWebsiteView,
};
use crate::storage::{Storage, StorageView};
use crate::types::{opt_text, views};

verus! {

// ---------------------------------------------------------------------------
// The order of names
// ---------------------------------------------------------------------------
/// Whether `a` comes strictly before `b` when byte sequences are compared
/// position by position, a proper prefix coming before what it starts.
pub open spec fn bytes_before(a: Seq<u8>, b: Seq<u8>) -> bool
    decreases a.len(),
{
    if b.len() == 0 {
        false
    } else if a.len() == 0 {
        true
    } else if a[0] != b[0] {
        a[0] < b[0]
    } else {
        bytes_before(a.skip(1), b.skip(1))
    }
}

/// Whether the text `a` comes strictly before the text `b`: the order of
/// their UTF-8 encodings, which is the order in which strings sort.
pub open spec fn text_before(a: Seq<char>, b: Seq<char>) -> bool {
    bytes_before(encode_utf8(a), encode_utf8(b))
}

/// No byte sequence comes before itself.
pub proof fn lemma_bytes_before_irreflexive(a: Seq<u8>)
    ensures
        !bytes_before(a, a),
    decreases a.len(),
{
    if a.len() > 0 {
        lemma_bytes_before_irreflexive(a.skip(1));
    }
}

/// The order of byte sequences is transitive.
pub proof fn lemma_bytes_before_transitive(a: Seq<u8>, b: Seq<u8>, c: Seq<u8>)
    requires
        bytes_before(a, b),
        bytes_before(b, c),
    ensures
        bytes_before(a, c),
    decreases a.len(),
{
    if a.len() > 0 && a[0] == b[0] && b[0] == c[0] {
        lemma_bytes_before_transitive(a.skip(1), b.skip(1), c.skip(1));
    }
}

/// Of two different byte sequences one comes before the other.
pub proof fn lemma_bytes_before_total(a: Seq<u8>, b: Seq<u8>)
    requires
        a != b,
    ensures
        bytes_before(a, b) || bytes_before(b, a),
    decreases a.len(),
{
    if a.len() == 0 || b.len() == 0 {
        assert(a.len() != b.len()) by {
            if a.len() == b.len() {
                assert(a =~= b);
            }
        }
    } else if a[0] == b[0] {
        assert(a.skip(1) != b.skip(1)) by {
            if a.skip(1) == b.skip(1) {
                assert(a.skip(1).len() == b.skip(1).len());
                assert forall|i: int| 0 <= i < a.len() implies a[i] == b[i] by {
                    if i > 0 {
                        assert(a.skip(1)[i - 1] == a[i]);
                        assert(b.skip(1)[i - 1] == b[i]);
                    }
                }
                assert(a =~= b);
            }
        }
        lemma_bytes_before_total(a.skip(1), b.skip(1));
    }
}

/// The order of texts is strict and total: no text comes before itself,
/// of two different texts one comes before the other, and never both.
pub proof fn lemma_text_before_strict_total(a: Seq<char>, b: Seq<char>)
    ensures
        !text_before(a, a),
        a != b ==> text_before(a, b) || text_before(b, a),
        !(text_before(a, b) && text_before(b, a)),
{
    lemma_bytes_before_irreflexive(encode_utf8(a));
    if a != b {
        encode_utf8_decode_utf8(a);
        encode_utf8_decode_utf8(b);
        lemma_bytes_before_total(encode_utf8(a), encode_utf8(b));
    }
    if text_before(a, b) && text_before(b, a) {
        lemma_bytes_before_transitive(encode_utf8(a), encode_utf8(b), encode_utf8(a));
    }
}

/// The order of texts is transitive.
pub proof fn lemma_text_before_transitive(a: Seq<char>, b: Seq<char>, c: Seq<char>)
    requires
        text_before(a, b),
        text_before(b, c),
    ensures
        text_before(a, c),
{
    lemma_bytes_before_transitive(encode_utf8(a), encode_utf8(b), encode_utf8(c));
}

/// Whether `a` sorts strictly before `b`.
pub fn sorts_before(a: &String, b: &String) -> (r: bool)
    ensures
        r == text_before(a@, b@),
{
    let x = a.as_str().as_bytes();
    let y = b.as_str().as_bytes();
    let mut i: usize = 0;
    assert(x@.skip(0) =~= x@ && y@.skip(0) =~= y@);
    while i < x.len() && i < y.len()
        invariant
            i <= x.len(),
            i <= y.len(),
            x@ == encode_utf8(a@),
            y@ == encode_utf8(b@),
            bytes_before(x@, y@) == bytes_before(x@.skip(i as int), y@.skip(i as int)),
        decreases x.len() - i,
    {
        assert(x@.skip(i as int)[0] == x@[i as int] && y@.skip(i as int)[0] == y@[i as int]);
        if x[i] != y[i] {
            return x[i] < y[i];
        }
        assert(x@.skip(i as int).skip(1) =~= x@.skip(i + 1));
        assert(y@.skip(i as int).skip(1) =~= y@.skip(i + 1));
        i += 1;
    }
    i < y.len()
}

// ---------------------------------------------------------------------------
// Sorted lists of names without repeats
// ---------------------------------------------------------------------------
/// Whether each name of the list comes strictly before the next, so that
/// no name occurs twice.
pub open spec fn ascending(names: Seq<Seq<char>>) -> bool {
    forall|i: int, j: int| 0 <= i < j < names.len() ==> text_before(names[i], names[j])
}

/// The list with `name` put in at its place: before the first name that
/// comes after it, at the end where there is none, and not at all where the
/// list has it already.
pub open spec fn with_name(names: Seq<Seq<char>>, name: Seq<char>) -> Seq<Seq<char>>
    decreases names.len(),
{
    if names.len() == 0 {
        seq![name]
    } else if names[0] == name {
        names
    } else if text_before(name, names[0]) {
        seq![name] + names
    } else {
        seq![names[0]] + with_name(names.skip(1), name)
    }
}

/// The owner of an item and the group it is filed under, if any.
pub type Label = (i32, Option<Seq<char>>);

/// The list of names after the groups of the items that `owner` owns were
/// put in, item after item in table order.
pub open spec fn with_groups_of(names: Seq<Seq<char>>, labels: Seq<Label>, owner: i32) -> Seq<
    Seq<char>,
>
    decreases labels.len(),
{
    if labels.len() == 0 {
        names
    } else {
        let earlier = with_groups_of(names, labels.drop_last(), owner);
        let label = labels.last();
        if label.0 == owner && label.1 is Some {
            with_name(earlier, label.1->0)
        } else {
            earlier
        }
    }
}

/// Putting a name into an ascending list gives an ascending list, which
/// holds the name and the names of the list, and no other.
pub proof fn lemma_with_name(names: Seq<Seq<char>>, name: Seq<char>)
    requires
        ascending(names),
    ensures
        ascending(with_name(names, name)),
        forall|x: Seq<char>|
            #[trigger] with_name(names, name).contains(x) <==> (x == name || names.contains(x)),
    decreases names.len(),
{
    let out = with_name(names, name);
    if names.len() == 0 {
        assert(out[0] == name);
        assert forall|x: Seq<char>|
            #[trigger] out.contains(x) <==> (x == name || names.contains(x)) by {
            if out.contains(x) {
                let k = choose|k: int| 0 <= k < out.len() && out[k] == x;
            }
        }
    } else if names[0] == name {
        assert(names.contains(name));
    } else if text_before(name, names[0]) {
        assert forall|i: int, j: int|
            0 <= i < j < out.len() implies text_before(out[i], out[j]) by {
            if i == 0 {
                if j > 1 {
                    assert(text_before(names[0], names[j - 1]));
                    lemma_text_before_transitive(name, names[0], names[j - 1]);
                }
            } else {
                assert(text_before(names[i - 1], names[j - 1]));
            }
        }
        assert forall|x: Seq<char>|
            #[trigger] out.contains(x) <==> (x == name || names.contains(x)) by {
            if out.contains(x) {
                let k = choose|k: int| 0 <= k < out.len() && out[k] == x;
                if k > 0 {
                    assert(names[k - 1] == x);
                }
            }
            if x == name {
                assert(out[0] == x);
            }
            if names.contains(x) {
                let k = choose|k: int| 0 <= k < names.len() && names[k] == x;
                assert(out[k + 1] == x);
            }
        }
    } else {
        let rest = names.skip(1);
        assert forall|i: int, j: int|
            0 <= i < j < rest.len() implies text_before(rest[i], rest[j]) by {
            assert(text_before(names[i + 1], names[j + 1]));
        }
        lemma_with_name(rest, name);
        let tail = with_name(rest, name);
        lemma_text_before_strict_total(name, names[0]);
        assert forall|i: int, j: int|
            0 <= i < j < out.len() implies text_before(out[i], out[j]) by {
            if i == 0 {
                let x = tail[j - 1];
                assert(tail.contains(x));
                if x != name {
                    let k = choose|k: int| 0 <= k < rest.len() && rest[k] == x;
                    assert(text_before(names[0], names[k + 1]));
                }
            } else {
                assert(text_before(tail[i - 1], tail[j - 1]));
            }
        }
        assert forall|x: Seq<char>|
            #[trigger] out.contains(x) <==> (x == name || names.contains(x)) by {
            if out.contains(x) {
                let k = choose|k: int| 0 <= k < out.len() && out[k] == x;
                if k > 0 {
                    assert(tail[k - 1] == x);
                    assert(tail.contains(x));
                    if x != name {
                        let m = choose|m: int| 0 <= m < rest.len() && rest[m] == x;
                        assert(names[m + 1] == x);
                    }
                } else {
                    assert(names[0] == x);
                }
            }
            if x == name {
                assert(tail.contains(name));
                let k = choose|k: int| 0 <= k < tail.len() && tail[k] == name;
                assert(out[k + 1] == x);
            }
            if names.contains(x) {
                let k = choose|k: int| 0 <= k < names.len() && names[k] == x;
                if k == 0 {
                    assert(out[0] == x);
                } else {
                    assert(rest[k - 1] == x);
                    assert(rest.contains(x));
                    assert(tail.contains(x));
                    let m = choose|m: int| 0 <= m < tail.len() && tail[m] == x;
                    assert(out[m + 1] == x);
                }
            }
        }
    }
}

/// Gathering groups into an ascending list gives an ascending list. It
/// holds the names it held before and the group of every item that `owner`
/// owns, and no other name.
pub proof fn lemma_with_groups_of(names: Seq<Seq<char>>, labels: Seq<Label>, owner: i32)
    requires
        ascending(names),
    ensures
        ascending(with_groups_of(names, labels, owner)),
        forall|x: Seq<char>|
            #[trigger] with_groups_of(names, labels, owner).contains(x) <==> (names.contains(x)
                || labels.contains((owner, Some(x)))),
    decreases labels.len(),
{
    let out = with_groups_of(names, labels, owner);
    if labels.len() > 0 {
        let front = labels.drop_last();
        let earlier = with_groups_of(names, front, owner);
        let label = labels.last();
        lemma_with_groups_of(names, front, owner);
        if label.0 == owner && label.1 is Some {
            lemma_with_name(earlier, label.1->0);
        }
        assert forall|x: Seq<char>| #[trigger] out.contains(x) <==> (names.contains(x)
            || labels.contains((owner, Some(x)))) by {
            if labels.contains((owner, Some(x))) {
                let k = choose|k: int| 0 <= k < labels.len() && labels[k] == (owner, Some(x));
                if k < front.len() {
                    assert(front[k] == (owner, Some(x)));
                    assert(front.contains((owner, Some(x))));
                }
            }
            if front.contains((owner, Some(x))) {
                let k = choose|k: int| 0 <= k < front.len() && front[k] == (owner, Some(x));
                assert(labels[k] == (owner, Some(x)));
            }
            if label == (owner, Some(x)) {
                assert(labels[labels.len() - 1] == (owner, Some(x)));
            }
        }
    }
}

/// Puts `name` into an ascending list of names, unless it is there.
pub fn insert_name(names: &mut Vec<String>, name: &String)
    ensures
        views(final(names)@) == with_name(views(old(names)@), name@),
{
    let ghost before = views(names@);
    let mut i: usize = 0;
    assert(before.take(0) + with_name(before.skip(0), name@) =~= with_name(before, name@)) by {
        assert(before.skip(0) =~= before);
    }
    while i < names.len()
        invariant
            i <= names.len(),
            views(names@) == before,
            before == views(old(names)@),
            with_name(before, name@) == before.take(i as int) + with_name(
                before.skip(i as int),
                name@,
            ),
        decreases names.len() - i,
    {
        let ghost rest = before.skip(i as int);
        assert(rest[0] == names@[i as int]@);
        if names[i] == *name {
            assert(with_name(rest, name@) == rest);
            assert(before.take(i as int) + rest =~= before);
            return ;
        }
        if sorts_before(name, &names[i]) {
            assert(with_name(rest, name@) == seq![name@] + rest);
            names.insert(i, name.clone());
            assert(views(names@) =~= before.take(i as int) + (seq![name@] + rest));
            return ;
        }
        assert(with_name(rest, name@) == seq![rest[0]] + with_name(rest.skip(1), name@));
        proof {
            assert(rest.skip(1) =~= before.skip(i + 1));
            assert(before.take(i as int) + (seq![rest[0]] + with_name(before.skip(i + 1), name@))
                =~= before.take(i + 1) + with_name(before.skip(i + 1), name@));
        }
        i += 1;
    }
    names.push(name.clone());
    assert(views(names@) =~= before.take(i as int) + seq![name@]);
}

/// Puts the group of an item into the list, where the item belongs to
/// `owner` and is filed under a group.
fn note_group(names: &mut Vec<String>, item_owner: i32, group_name: &Option<String>, owner: i32)
    ensures
        views(final(names)@) == with_groups_of(
            views(old(names)@),
            seq![(item_owner, opt_text(*group_name))],
            owner,
        ),
{
    let ghost one = seq![(item_owner, opt_text(*group_name))];
    assert(one.drop_last() =~= Seq::<Label>::empty());
    assert(with_groups_of(views(names@), one.drop_last(), owner) == views(names@));
    if item_owner == owner {
        if let Some(g) = group_name {
            insert_name(names, g);
        }
    }
}

/// Gathering over a table that grew by one item is gathering over the
/// table, then taking in the new item's group.
pub proof fn lemma_with_groups_of_next(names: Seq<Seq<char>>, labels: Seq<Label>, owner: i32, i: int)
    requires
        0 <= i < labels.len(),
    ensures
        with_groups_of(names, labels.take(i + 1), owner) == with_groups_of(
            with_groups_of(names, labels.take(i), owner),
            seq![labels[i]],
            owner,
        ),
        with_groups_of(names, labels.take(0), owner) == names,
        with_groups_of(names, labels.take(labels.len() as int), owner) == with_groups_of(
            names,
            labels,
            owner,
        ),
{
    assert(labels.take(i + 1).drop_last() =~= labels.take(i));
    assert(labels.take(labels.len() as int) =~= labels);
    let gathered = with_groups_of(names, labels.take(i), owner);
    let one = seq![labels[i]];
    assert(one.drop_last() =~= Seq::<Label>::empty());
    assert(with_groups_of(gathered, one.drop_last(), owner) == gathered);
    assert(one.last() == labels[i]);
    assert(labels.take(i + 1).last() == labels[i]);
}

/// An ascending list holds no name twice.
pub proof fn lemma_ascending_no_duplicates(names: Seq<Seq<char>>)
    requires
        ascending(names),
    ensures
        names.no_duplicates(),
{
    assert forall|i: int, j: int|
        0 <= i < names.len() && 0 <= j < names.len() && i != j implies names[i] != names[j] by {
        lemma_text_before_strict_total(names[i], names[j]);
        if i < j {
            assert(text_before(names[i], names[j]));
        } else {
            assert(text_before(names[j], names[i]));
        }
    }
}

// ---------------------------------------------------------------------------
// The group names in storage
// ---------------------------------------------------------------------------
/// The owner and group of every server, in table order.
pub open spec fn server_labels(st: StorageView) -> Seq<Label> {
    st.servers.map_values(|r: ServerView| (r.project_id, r.group_name))
}

/// The owner and group of every project point of interest, in table order.
pub open spec fn project_poi_labels(st: StorageView) -> Seq<Label> {
    st.project_pois.map_values(|r: ProjectPointOfInterestView| (r.project_id, r.group_name))
}

/// The owner and group of every project note, in table order.
pub open spec fn project_note_labels(st: StorageView) -> Seq<Label> {
    st.project_notes.map_values(|r: ProjectNoteView| (r.project_id, r.group_name))
}

/// The owner and group of every server link, in table order.
pub open spec fn server_link_labels(st: StorageView) -> Seq<Label> {
    st.server_links.map_values(|r: ServerLinkView| (r.project_id, r.group_name))
}

/// The owner and group of every server point of interest, in table order.
pub open spec fn server_poi_labels(st: StorageView) -> Seq<Label> {
    st.server_pois.map_values(|r: ServerPointOfInterestView| (r.server_id, r.group_name))
}

/// The owner and group of every server website, in table order.
pub open spec fn server_website_labels(st: StorageView) -> Seq<Label> {
    st.server_websites.map_values(|r: ServerWebsiteView| (r.server_id, r.group_name))
}

/// The owner and group of every server database, in table order.
pub open spec fn server_database_labels(st: StorageView) -> Seq<Label> {
    st.server_databases.map_values(|r: ServerDatabaseView| (r.server_id, r.group_name))
}

/// The owner and group of every extra user account, in table order.
pub open spec fn server_extra_user_labels(st: StorageView) -> Seq<Label> {
    st.server_extra_users.map_values(|r: ServerExtraUserAccountView| (r.server_id, r.group_name))
}

/// The owner and group of every server note, in table order.
pub open spec fn server_note_labels(st: StorageView) -> Seq<Label> {
    st.server_notes.map_values(|r: ServerNoteView| (r.server_id, r.group_name))
}

/// The group names of a project's servers and points of interest, each
/// once, in ascending order.
pub open spec fn project_group_names(st: StorageView, project_id: i32) -> Seq<Seq<char>> {
    let names = Seq::empty();
    let names = with_groups_of(names, server_labels(st), project_id);
    let names = with_groups_of(names, project_poi_labels(st), project_id);
    names
}

/// The group names of a project's servers and points of interest are in
/// ascending order, and they are the groups under which a server or a point
/// of interest of the project is filed, and no other name.
pub proof fn lemma_project_group_names(st: StorageView, project_id: i32)
    ensures
        ascending(project_group_names(st, project_id)),
        forall|x: Seq<char>|
            #[trigger] project_group_names(st, project_id).contains(x) <==> (
                server_labels(st).contains((project_id, Some(x)))
                || project_poi_labels(st).contains((project_id, Some(x)))),
{
    let names = Seq::<Seq<char>>::empty();
    lemma_with_groups_of(names, server_labels(st), project_id);
    let names = with_groups_of(names, server_labels(st), project_id);
    lemma_with_groups_of(names, project_poi_labels(st), project_id);
}

/// The names of the groups under which the servers and the points of
/// interest of a project are filed: each name once, in ascending order.
pub fn get_project_group_names(storage: &Storage, project_id: i32) -> (names: Vec<String>)
    ensures
        views(names@) == project_group_names(storage@, project_id),
        ascending(views(names@)),
        forall|x: Seq<char>|
            #[trigger] views(names@).contains(x) <==> (
                server_labels(storage@).contains((project_id, Some(x)))
                || project_poi_labels(storage@).contains((project_id, Some(x)))),
{
    let mut names: Vec<String> = Vec::new();
    assert(views(names@) =~= Seq::empty());

    let rows = storage.servers();
    let ghost labels = server_labels(storage@);
    let ghost start = views(names@);
    let mut i: usize = 0;
    assert(labels.take(0) =~= Seq::<Label>::empty());
    while i < rows.len()
        invariant
            i <= rows.len(),
            views(rows@) == storage@.servers,
            labels == server_labels(storage@),
            views(names@) == with_groups_of(start, labels.take(i as int), project_id),
        decreases rows.len() - i,
    {
        proof {
            lemma_with_groups_of_next(start, labels, project_id, i as int);
            assert(storage@.servers[i as int] == rows@[i as int]@);
        }
        note_group(&mut names, rows[i].project_id, &rows[i].group_name, project_id);
        i += 1;
    }
    assert(labels.take(rows.len() as int) =~= labels);

    let rows = storage.project_pois();
    let ghost labels = project_poi_labels(storage@);
    let ghost start = views(names@);
    let mut i: usize = 0;
    assert(labels.take(0) =~= Seq::<Label>::empty());
    while i < rows.len()
        invariant
            i <= rows.len(),
            views(rows@) == storage@.project_pois,
            labels == project_poi_labels(storage@),
            views(names@) == with_groups_of(start, labels.take(i as int), project_id),
        decreases rows.len() - i,
    {
        proof {
            lemma_with_groups_of_next(start, labels, project_id, i as int);
            assert(storage@.project_pois[i as int] == rows@[i as int]@);
        }
        note_group(&mut names, rows[i].project_id, &rows[i].group_name, project_id);
        i += 1;
    }
    assert(labels.take(rows.len() as int) =~= labels);

    proof {
        lemma_project_group_names(storage@, project_id);
    }
    names
}

/// The group names of a server's points of interest, websites, databases,
/// extra user accounts and notes, each once, in ascending order.
pub open spec fn server_group_names(st: StorageView, server_id: i32) -> Seq<Seq<char>> {
    let names = Seq::empty();
    let names = with_groups_of(names, server_poi_labels(st), server_id);
    let names = with_groups_of(names, server_website_labels(st), server_id);
    let names = with_groups_of(names, server_database_labels(st), server_id);
    let names = with_groups_of(names, server_extra_user_labels(st), server_id);
    let names = with_groups_of(names, server_note_labels(st), server_id);
    names
}

/// The group names of a server's items are in ascending order, and they
/// are the groups under which a point of interest, a website, a database,
/// an extra user account or a note of the server is filed, and no other
/// name.
pub proof fn lemma_server_group_names(st: StorageView, server_id: i32)
    ensures
        ascending(server_group_names(st, server_id)),
        forall|x: Seq<char>|
            #[trigger] server_group_names(st, server_id).contains(x) <==> (
                server_poi_labels(st).contains((server_id, Some(x)))
                || server_website_labels(st).contains((server_id, Some(x)))
                || server_database_labels(st).contains((server_id, Some(x)))
                || server_extra_user_labels(st).contains((server_id, Some(x)))
                || server_note_labels(st).contains((server_id, Some(x)))),
{
    let names = Seq::<Seq<char>>::empty();
    lemma_with_groups_of(names, server_poi_labels(st), server_id);
    let names = with_groups_of(names, server_poi_labels(st), server_id);
    lemma_with_groups_of(names, server_website_labels(st), server_id);
    let names = with_groups_of(names, server_website_labels(st), server_id);
    lemma_with_groups_of(names, server_database_labels(st), server_id);
    let names = with_groups_of(names, server_database_labels(st), server_id);
    lemma_with_groups_of(names, server_extra_user_labels(st), server_id);
    let names = with_groups_of(names, server_extra_user_labels(st), server_id);
    lemma_with_groups_of(names, server_note_labels(st), server_id);
}

/// The names of the groups under which the items of a server are filed:
/// each name once, in ascending order.
pub fn get_server_group_names(storage: &Storage, server_id: i32) -> (names: Vec<String>)
    ensures
        views(names@) == server_group_names(storage@, server_id),
        ascending(views(names@)),
        forall|x: Seq<char>|
            #[trigger] views(names@).contains(x) <==> (
                server_poi_labels(storage@).contains((server_id, Some(x)))
                || server_website_labels(storage@).contains((server_id, Some(x)))
                || server_database_labels(storage@).contains((server_id, Some(x)))
                || server_extra_user_labels(storage@).contains((server_id, Some(x)))
                || server_note_labels(storage@).contains((server_id, Some(x)))),
{
    let mut names: Vec<String> = Vec::new();
    assert(views(names@) =~= Seq::empty());

    let rows = storage.server_pois();
    let ghost labels = server_poi_labels(storage@);
    let ghost start = views(names@);
    let mut i: usize = 0;
    assert(labels.take(0) =~= Seq::<Label>::empty());
    while i < rows.len()
        invariant
            i <= rows.len(),
            views(rows@) == storage@.server_pois,
            labels == server_poi_labels(storage@),
            views(names@) == with_groups_of(start, labels.take(i as int), server_id),
        decreases rows.len() - i,
    {
        proof {
            lemma_with_groups_of_next(start, labels, server_id, i as int);
            assert(storage@.server_pois[i as int] == rows@[i as int]@);
        }
        note_group(&mut names, rows[i].server_id, &rows[i].group_name, server_id);
        i += 1;
    }
    assert(labels.take(rows.len() as int) =~= labels);

    let rows = storage.server_websites();
    let ghost labels = server_website_labels(storage@);
    let ghost start = views(names@);
    let mut i: usize = 0;
    assert(labels.take(0) =~= Seq::<Label>::empty());
    while i < rows.len()
        invariant
            i <= rows.len(),
            views(rows@) == storage@.server_websites,
            labels == server_website_labels(storage@),
            views(names@) == with_groups_of(start, labels.take(i as int), server_id),
        decreases rows.len() - i,
    {
        proof {
            lemma_with_groups_of_next(start, labels, server_id, i as int);
            assert(storage@.server_websites[i as int] == rows@[i as int]@);
        }
        note_group(&mut names, rows[i].server_id, &rows[i].group_name, server_id);
        i += 1;
    }
    assert(labels.take(rows.len() as int) =~= labels);

    let rows = storage.server_databases();
    let ghost labels = server_database_labels(storage@);
    let ghost start = views(names@);
    let mut i: usize = 0;
    assert(labels.take(0) =~= Seq::<Label>::empty());
    while i < rows.len()
        invariant
            i <= rows.len(),
            views(rows@) == storage@.server_databases,
            labels == server_database_labels(storage@),
            views(names@) == with_groups_of(start, labels.take(i as int), server_id),
        decreases rows.len() - i,
    {
        proof {
            lemma_with_groups_of_next(start, labels, server_id, i as int);
            assert(storage@.server_databases[i as int] == rows@[i as int]@);
        }
        note_group(&mut names, rows[i].server_id, &rows[i].group_name, server_id);
        i += 1;
    }
    assert(labels.take(rows.len() as int) =~= labels);

    let rows = storage.server_extra_users();
    let ghost labels = server_extra_user_labels(storage@);
    let ghost start = views(names@);
    let mut i: usize = 0;
    assert(labels.take(0) =~= Seq::<Label>::empty());
    while i < rows.len()
        invariant
            i <= rows.len(),
            views(rows@) == storage@.server_extra_users,
            labels == server_extra_user_labels(storage@),
            views(names@) == with_groups_of(start, labels.take(i as int), server_id),
        decreases rows.len() - i,
    {
        proof {
            lemma_with_groups_of_next(start, labels, server_id, i as int);
            assert(storage@.server_extra_users[i as int] == rows@[i as int]@);
        }
        note_group(&mut names, rows[i].server_id, &rows[i].group_name, server_id);
        i += 1;
    }
    assert(labels.take(rows.len() as int) =~= labels);

    let rows = storage.server_notes();
    let ghost labels = server_note_labels(storage@);
    let ghost start = views(names@);
    let mut i: usize = 0;
    assert(labels.take(0) =~= Seq::<Label>::empty());
    while i < rows.len()
        invariant
            i <= rows.len(),
            views(rows@) == storage@.server_notes,
            labels == server_note_labels(storage@),
            views(names@) == with_groups_of(start, labels.take(i as int), server_id),
        decreases rows.len() - i,
    {
        proof {
            lemma_with_groups_of_next(start, labels, server_id, i as int);
            assert(storage@.server_notes[i as int] == rows@[i as int]@);
        }
        note_group(&mut names, rows[i].server_id, &rows[i].group_name, server_id);
        i += 1;
    }
    assert(labels.take(rows.len() as int) =~= labels);

    proof {
        lemma_server_group_names(storage@, server_id);
    }
    names
}

/// The group names of a project's servers, points of interest, notes and
/// server links, each once, in ascending order.
pub open spec fn project_item_group_names(st: StorageView, project_id: i32) -> Seq<Seq<char>> {
    let names = Seq::empty();
    let names = with_groups_of(names, server_labels(st), project_id);
    let names = with_groups_of(names, project_poi_labels(st), project_id);
    let names = with_groups_of(names, project_note_labels(st), project_id);
    let names = with_groups_of(names, server_link_labels(st), project_id);
    names
}

/// The group names of a project's items are in ascending order, and they
/// are the groups under which a server, a point of interest, a note or a
/// server link of the project is filed, and no other name.
pub proof fn lemma_project_item_group_names(st: StorageView, project_id: i32)
    ensures
        ascending(project_item_group_names(st, project_id)),
        forall|x: Seq<char>|
            #[trigger] project_item_group_names(st, project_id).contains(x) <==> (
                server_labels(st).contains((project_id, Some(x)))
                || project_poi_labels(st).contains((project_id, Some(x)))
                || project_note_labels(st).contains((project_id, Some(x)))
                || server_link_labels(st).contains((project_id, Some(x)))),
{
    let names = Seq::<Seq<char>>::empty();
    lemma_with_groups_of(names, server_labels(st), project_id);
    let names = with_groups_of(names, server_labels(st), project_id);
    lemma_with_groups_of(names, project_poi_labels(st), project_id);
    let names = with_groups_of(names, project_poi_labels(st), project_id);
    lemma_with_groups_of(names, project_note_labels(st), project_id);
    let names = with_groups_of(names, project_note_labels(st), project_id);
    lemma_with_groups_of(names, server_link_labels(st), project_id);
}

/// The names of the groups under which any item of a project is filed, the
/// notes and server links included: each name once, in ascending order.
pub fn get_project_item_group_names(storage: &Storage, project_id: i32) -> (names: Vec<String>)
    ensures
        views(names@) == project_item_group_names(storage@, project_id),
        ascending(views(names@)),
        forall|x: Seq<char>|
            #[trigger] views(names@).contains(x) <==> (
                server_labels(storage@).contains((project_id, Some(x)))
                || project_poi_labels(storage@).contains((project_id, Some(x)))
                || project_note_labels(storage@).contains((project_id, Some(x)))
                || server_link_labels(storage@).contains((project_id, Some(x)))),
{
    let mut names: Vec<String> = Vec::new();
    assert(views(names@) =~= Seq::empty());

    let rows = storage.servers();
    let ghost labels = server_labels(storage@);
    let ghost start = views(names@);
    let mut i: usize = 0;
    assert(labels.take(0) =~= Seq::<Label>::empty());
    while i < rows.len()
        invariant
            i <= rows.len(),
            views(rows@) == storage@.servers,
            labels == server_labels(storage@),
            views(names@) == with_groups_of(start, labels.take(i as int), project_id),
        decreases rows.len() - i,
    {
        proof {
            lemma_with_groups_of_next(start, labels, project_id, i as int);
            assert(storage@.servers[i as int] == rows@[i as int]@);
        }
        note_group(&mut names, rows[i].project_id, &rows[i].group_name, project_id);
        i += 1;
    }
    assert(labels.take(rows.len() as int) =~= labels);

    let rows = storage.project_pois();
    let ghost labels = project_poi_labels(storage@);
    let ghost start = views(names@);
    let mut i: usize = 0;
    assert(labels.take(0) =~= Seq::<Label>::empty());
    while i < rows.len()
        invariant
            i <= rows.len(),
            views(rows@) == storage@.project_pois,
            labels == project_poi_labels(storage@),
            views(names@) == with_groups_of(start, labels.take(i as int), project_id),
        decreases rows.len() - i,
    {
        proof {
            lemma_with_groups_of_next(start, labels, project_id, i as int);
            assert(storage@.project_pois[i as int] == rows@[i as int]@);
        }
        note_group(&mut names, rows[i].project_id, &rows[i].group_name, project_id);
        i += 1;
    }
    assert(labels.take(rows.len() as int) =~= labels);

    let rows = storage.project_notes();
    let ghost labels = project_note_labels(storage@);
    let ghost start = views(names@);
    let mut i: usize = 0;
    assert(labels.take(0) =~= Seq::<Label>::empty());
    while i < rows.len()
        invariant
            i <= rows.len(),
            views(rows@) == storage@.project_notes,
            labels == project_note_labels(storage@),
            views(names@) == with_groups_of(start, labels.take(i as int), project_id),
        decreases rows.len() - i,
    {
        proof {
            lemma_with_groups_of_next(start, labels, project_id, i as int);
            assert(storage@.project_notes[i as int] == rows@[i as int]@);
        }
        note_group(&mut names, rows[i].project_id, &rows[i].group_name, project_id);
        i += 1;
    }
    assert(labels.take(rows.len() as int) =~= labels);

    let rows = storage.server_links();
    let ghost labels = server_link_labels(storage@);
    let ghost start = views(names@);
    let mut i: usize = 0;
    assert(labels.take(0) =~= Seq::<Label>::empty());
    while i < rows.len()
        invariant
            i <= rows.len(),
            views(rows@) == storage@.server_links,
            labels == server_link_labels(storage@),
            views(names@) == with_groups_of(start, labels.take(i as int), project_id),
        decreases rows.len() - i,
    {
        proof {
            lemma_with_groups_of_next(start, labels, project_id, i as int);
            assert(storage@.server_links[i as int] == rows@[i as int]@);
        }
        note_group(&mut names, rows[i].project_id, &rows[i].group_name, project_id);
        i += 1;
    }
    assert(labels.take(rows.len() as int) =~= labels);

    proof {
        lemma_project_item_group_names(storage@, project_id);
    }
    names
}

} // verus!
