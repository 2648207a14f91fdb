//! From what a search found to what is shown: the servers and projects
//! to load above the rows that matched, and the projects that pass the
//! project filter.

use vstd::prelude::*;
use crate::items::SearchItemsType;
use crate::results::{SearchResult, SearchResultView};
use crate::rows::{
    Project, ProjectNoteView, ProjectPointOfInterestView, ProjectView, Server,
    ServerDatabaseView, ServerExtraUserAccountView, ServerLinkView, ServerNoteView,
    ServerPointOfInterestView, ServerView, ServerWebsiteView,
};
use crate::search::{lowercase, lowercased};
use crate::storage::increasing;
use crate::types::views;

verus! {

// ---------------------------------------------------------------------------
// Sets of identifiers
// ---------------------------------------------------------------------------
/// A sequence that grows by an item has that item more in its set.
pub proof fn lemma_to_set_push(s: Seq<i32>, a: i32)
    ensures
        s.push(a).to_set() == s.to_set().insert(a),
{
    assert forall|x: i32| s.push(a).to_set().contains(x) <==> s.to_set().insert(a).contains(x) by {
        if s.push(a).contains(x) {
            let k = choose|k: int| 0 <= k < s.push(a).len() && s.push(a)[k] == x;
            if k < s.len() {
                assert(s[k] == x);
            }
        }
        if s.contains(x) {
            let k = choose|k: int| 0 <= k < s.len() && s[k] == x;
            assert(s.push(a)[k] == x);
        }
        if x == a {
            assert(s.push(a)[s.len() as int] == x);
        }
    }
    assert(s.push(a).to_set() =~= s.to_set().insert(a));
}

/// Puts an identifier into an ascending list of identifiers, unless it is
/// there.
fn insert_id(ids: &mut Vec<i32>, id: i32)
    requires
        increasing(old(ids)@),
    ensures
        increasing(final(ids)@),
        final(ids)@.to_set() == old(ids)@.to_set().insert(id),
{
    let mut i: usize = 0;
    while i < ids.len() && ids[i] < id
        invariant
            i <= ids.len(),
            ids@ == old(ids)@,
            forall|k: int| 0 <= k < i ==> ids@[k] < id,
        decreases ids.len() - i,
    {
        i += 1;
    }
    if i < ids.len() && ids[i] == id {
        assert(ids@.contains(id));
        assert(ids@.to_set().insert(id) =~= ids@.to_set());
        return ;
    }
    let ghost before = ids@;
    ids.insert(i, id);
    proof {
        assert forall|a: int, b: int| 0 <= a < b < ids@.len() implies ids@[a] < ids@[b] by {
            if b == i {
            } else if a == i {
                assert(before[i as int] <= before[b - 1]);
            } else if a < i && b < i {
            } else if a < i && b > i {
                assert(before[a] < before[b - 1]);
            } else {
                assert(before[a - 1] < before[b - 1]);
            }
        }
        assert forall|x: i32| ids@.to_set().contains(x) <==> before.to_set().insert(id).contains(
            x,
        ) by {
            if ids@.contains(x) {
                let k = choose|k: int| 0 <= k < ids@.len() && ids@[k] == x;
                if k < i {
                    assert(before[k] == x);
                } else if k > i {
                    assert(before[k - 1] == x);
                }
            }
            if before.contains(x) {
                let k = choose|k: int| 0 <= k < before.len() && before[k] == x;
                if k < i {
                    assert(ids@[k] == x);
                } else {
                    assert(ids@[k + 1] == x);
                }
            }
            if x == id {
                assert(ids@[i as int] == x);
            }
        }
        assert(ids@.to_set() =~= before.to_set().insert(id));
    }
}

/// The identifiers of the servers that were found.
pub open spec fn server_ids(found: SearchResultView) -> Seq<i32> {
    found.servers.map_values(|r: ServerView| r.id)
}

/// The servers of the websites that were found.
pub open spec fn website_server_ids(found: SearchResultView) -> Seq<i32> {
    found.server_websites.map_values(|r: ServerWebsiteView| r.server_id)
}

/// The servers of the server notes that were found.
pub open spec fn note_server_ids(found: SearchResultView) -> Seq<i32> {
    found.server_notes.map_values(|r: ServerNoteView| r.server_id)
}

/// The servers that the server links that were found point to.
pub open spec fn linked_server_ids(found: SearchResultView) -> Seq<i32> {
    found.server_links.map_values(|r: ServerLinkView| r.linked_server_id)
}

/// The servers of the extra user accounts that were found.
pub open spec fn user_server_ids(found: SearchResultView) -> Seq<i32> {
    found.server_extra_users.map_values(|r: ServerExtraUserAccountView| r.server_id)
}

/// The servers of the server points of interest that were found.
pub open spec fn poi_server_ids(found: SearchResultView) -> Seq<i32> {
    found.server_pois.map_values(|r: ServerPointOfInterestView| r.server_id)
}

/// The servers of the databases that were found.
pub open spec fn database_server_ids(found: SearchResultView) -> Seq<i32> {
    found.server_databases.map_values(|r: ServerDatabaseView| r.server_id)
}

/// The identifiers of the projects that were found.
pub open spec fn project_ids(found: SearchResultView) -> Seq<i32> {
    found.projects.map_values(|r: ProjectView| r.id)
}

/// The projects of the project points of interest that were found.
pub open spec fn poi_project_ids(found: SearchResultView) -> Seq<i32> {
    found.project_pois.map_values(|r: ProjectPointOfInterestView| r.project_id)
}

/// The projects of the project notes that were found.
pub open spec fn note_project_ids(found: SearchResultView) -> Seq<i32> {
    found.project_notes.map_values(|r: ProjectNoteView| r.project_id)
}

/// The servers that a search result needs: those that were found, and
/// those that stand above a row that was found or that a link that was found
/// points to. Each occurs as often as it is needed.
pub open spec fn needed_server_ids(found: SearchResultView) -> Seq<i32> {
    server_ids(found)
        + website_server_ids(found)
        + note_server_ids(found)
        + linked_server_ids(found)
        + user_server_ids(found)
        + poi_server_ids(found)
        + database_server_ids(found)
}

/// The identifiers of the servers to load for a search: every server that
/// was found or that stands above something that was found, each once, in
/// ascending order.
pub fn server_ids_to_load(found: &SearchResult) -> (ids: Vec<i32>)
    ensures
        increasing(ids@),
        ids@.to_set() == needed_server_ids(found@).to_set(),
{
    let mut ids: Vec<i32> = Vec::new();
    let ghost gathered = Seq::<i32>::empty();

    let rows = &found.servers;
    let ghost keys = server_ids(found@);
    let ghost earlier = gathered;
    let mut i: usize = 0;
    assert(earlier + keys.take(0) =~= earlier);
    while i < rows.len()
        invariant
            i <= rows.len(),
            rows == &found.servers,
            keys == server_ids(found@),
            increasing(ids@),
            ids@.to_set() == (earlier + keys.take(i as int)).to_set(),
        decreases rows.len() - i,
    {
        proof {
            assert(keys[i as int] == rows@[i as int].id);
            assert(
                earlier + keys.take(i + 1) =~= (earlier + keys.take(i as int)).push(keys[i as int])
            );
            lemma_to_set_push(earlier + keys.take(i as int), keys[i as int]);
        }
        insert_id(&mut ids, rows[i].id);
        i += 1;
    }
    assert(keys.take(rows.len() as int) =~= keys);
    let ghost gathered = earlier + keys;

    let rows = &found.server_websites;
    let ghost keys = website_server_ids(found@);
    let ghost earlier = gathered;
    let mut i: usize = 0;
    assert(earlier + keys.take(0) =~= earlier);
    while i < rows.len()
        invariant
            i <= rows.len(),
            rows == &found.server_websites,
            keys == website_server_ids(found@),
            increasing(ids@),
            ids@.to_set() == (earlier + keys.take(i as int)).to_set(),
        decreases rows.len() - i,
    {
        proof {
            assert(keys[i as int] == rows@[i as int].server_id);
            assert(
                earlier + keys.take(i + 1) =~= (earlier + keys.take(i as int)).push(keys[i as int])
            );
            lemma_to_set_push(earlier + keys.take(i as int), keys[i as int]);
        }
        insert_id(&mut ids, rows[i].server_id);
        i += 1;
    }
    assert(keys.take(rows.len() as int) =~= keys);
    let ghost gathered = earlier + keys;

    let rows = &found.server_notes;
    let ghost keys = note_server_ids(found@);
    let ghost earlier = gathered;
    let mut i: usize = 0;
    assert(earlier + keys.take(0) =~= earlier);
    while i < rows.len()
        invariant
            i <= rows.len(),
            rows == &found.server_notes,
            keys == note_server_ids(found@),
            increasing(ids@),
            ids@.to_set() == (earlier + keys.take(i as int)).to_set(),
        decreases rows.len() - i,
    {
        proof {
            assert(keys[i as int] == rows@[i as int].server_id);
            assert(
                earlier + keys.take(i + 1) =~= (earlier + keys.take(i as int)).push(keys[i as int])
            );
            lemma_to_set_push(earlier + keys.take(i as int), keys[i as int]);
        }
        insert_id(&mut ids, rows[i].server_id);
        i += 1;
    }
    assert(keys.take(rows.len() as int) =~= keys);
    let ghost gathered = earlier + keys;

    let rows = &found.server_links;
    let ghost keys = linked_server_ids(found@);
    let ghost earlier = gathered;
    let mut i: usize = 0;
    assert(earlier + keys.take(0) =~= earlier);
    while i < rows.len()
        invariant
            i <= rows.len(),
            rows == &found.server_links,
            keys == linked_server_ids(found@),
            increasing(ids@),
            ids@.to_set() == (earlier + keys.take(i as int)).to_set(),
        decreases rows.len() - i,
    {
        proof {
            assert(keys[i as int] == rows@[i as int].linked_server_id);
            assert(
                earlier + keys.take(i + 1) =~= (earlier + keys.take(i as int)).push(keys[i as int])
            );
            lemma_to_set_push(earlier + keys.take(i as int), keys[i as int]);
        }
        insert_id(&mut ids, rows[i].linked_server_id);
        i += 1;
    }
    assert(keys.take(rows.len() as int) =~= keys);
    let ghost gathered = earlier + keys;

    let rows = &found.server_extra_users;
    let ghost keys = user_server_ids(found@);
    let ghost earlier = gathered;
    let mut i: usize = 0;
    assert(earlier + keys.take(0) =~= earlier);
    while i < rows.len()
        invariant
            i <= rows.len(),
            rows == &found.server_extra_users,
            keys == user_server_ids(found@),
            increasing(ids@),
            ids@.to_set() == (earlier + keys.take(i as int)).to_set(),
        decreases rows.len() - i,
    {
        proof {
            assert(keys[i as int] == rows@[i as int].server_id);
            assert(
                earlier + keys.take(i + 1) =~= (earlier + keys.take(i as int)).push(keys[i as int])
            );
            lemma_to_set_push(earlier + keys.take(i as int), keys[i as int]);
        }
        insert_id(&mut ids, rows[i].server_id);
        i += 1;
    }
    assert(keys.take(rows.len() as int) =~= keys);
    let ghost gathered = earlier + keys;

    let rows = &found.server_pois;
    let ghost keys = poi_server_ids(found@);
    let ghost earlier = gathered;
    let mut i: usize = 0;
    assert(earlier + keys.take(0) =~= earlier);
    while i < rows.len()
        invariant
            i <= rows.len(),
            rows == &found.server_pois,
            keys == poi_server_ids(found@),
            increasing(ids@),
            ids@.to_set() == (earlier + keys.take(i as int)).to_set(),
        decreases rows.len() - i,
    {
        proof {
            assert(keys[i as int] == rows@[i as int].server_id);
            assert(
                earlier + keys.take(i + 1) =~= (earlier + keys.take(i as int)).push(keys[i as int])
            );
            lemma_to_set_push(earlier + keys.take(i as int), keys[i as int]);
        }
        insert_id(&mut ids, rows[i].server_id);
        i += 1;
    }
    assert(keys.take(rows.len() as int) =~= keys);
    let ghost gathered = earlier + keys;

    let rows = &found.server_databases;
    let ghost keys = database_server_ids(found@);
    let ghost earlier = gathered;
    let mut i: usize = 0;
    assert(earlier + keys.take(0) =~= earlier);
    while i < rows.len()
        invariant
            i <= rows.len(),
            rows == &found.server_databases,
            keys == database_server_ids(found@),
            increasing(ids@),
            ids@.to_set() == (earlier + keys.take(i as int)).to_set(),
        decreases rows.len() - i,
    {
        proof {
            assert(keys[i as int] == rows@[i as int].server_id);
            assert(
                earlier + keys.take(i + 1) =~= (earlier + keys.take(i as int)).push(keys[i as int])
            );
            lemma_to_set_push(earlier + keys.take(i as int), keys[i as int]);
        }
        insert_id(&mut ids, rows[i].server_id);
        i += 1;
    }
    assert(keys.take(rows.len() as int) =~= keys);
    let ghost gathered = earlier + keys;

    assert(gathered =~= needed_server_ids(found@));
    ids
}

/// The projects that a search result needs: those of the servers that
/// were loaded, those that were found, and those that stand above a point of
/// interest or a note that was found.
pub open spec fn needed_project_ids(all_servers: Seq<ServerView>, found: SearchResultView) -> Seq<
    i32,
> {
    all_servers.map_values(|s: ServerView| s.project_id)
        + project_ids(found)
        + poi_project_ids(found)
        + note_project_ids(found)
}

/// The identifiers of the projects to load for a search: every project
/// that was found, that owns a loaded server, or that stands above something
/// that was found, each once, in ascending order.
pub fn project_ids_to_load(all_servers: &Vec<Server>, found: &SearchResult) -> (ids: Vec<i32>)
    ensures
        increasing(ids@),
        ids@.to_set() == needed_project_ids(views(all_servers@), found@).to_set(),
{
    let mut ids: Vec<i32> = Vec::new();
    let ghost owners = views(all_servers@).map_values(|s: ServerView| s.project_id);
    let mut i: usize = 0;
    assert(owners.take(0) =~= Seq::<i32>::empty());
    while i < all_servers.len()
        invariant
            i <= all_servers.len(),
            owners == views(all_servers@).map_values(|s: ServerView| s.project_id),
            increasing(ids@),
            ids@.to_set() == owners.take(i as int).to_set(),
        decreases all_servers.len() - i,
    {
        proof {
            assert(owners[i as int] == all_servers@[i as int].project_id);
            assert(owners.take(i + 1) =~= owners.take(i as int).push(owners[i as int]));
            lemma_to_set_push(owners.take(i as int), owners[i as int]);
        }
        insert_id(&mut ids, all_servers[i].project_id);
        i += 1;
    }
    assert(owners.take(all_servers.len() as int) =~= owners);
    let ghost gathered = owners;

    let rows = &found.projects;
    let ghost keys = project_ids(found@);
    let ghost earlier = gathered;
    let mut i: usize = 0;
    assert(earlier + keys.take(0) =~= earlier);
    while i < rows.len()
        invariant
            i <= rows.len(),
            rows == &found.projects,
            keys == project_ids(found@),
            increasing(ids@),
            ids@.to_set() == (earlier + keys.take(i as int)).to_set(),
        decreases rows.len() - i,
    {
        proof {
            assert(keys[i as int] == rows@[i as int].id);
            assert(
                earlier + keys.take(i + 1) =~= (earlier + keys.take(i as int)).push(keys[i as int])
            );
            lemma_to_set_push(earlier + keys.take(i as int), keys[i as int]);
        }
        insert_id(&mut ids, rows[i].id);
        i += 1;
    }
    assert(keys.take(rows.len() as int) =~= keys);
    let ghost gathered = earlier + keys;

    let rows = &found.project_pois;
    let ghost keys = poi_project_ids(found@);
    let ghost earlier = gathered;
    let mut i: usize = 0;
    assert(earlier + keys.take(0) =~= earlier);
    while i < rows.len()
        invariant
            i <= rows.len(),
            rows == &found.project_pois,
            keys == poi_project_ids(found@),
            increasing(ids@),
            ids@.to_set() == (earlier + keys.take(i as int)).to_set(),
        decreases rows.len() - i,
    {
        proof {
            assert(keys[i as int] == rows@[i as int].project_id);
            assert(
                earlier + keys.take(i + 1) =~= (earlier + keys.take(i as int)).push(keys[i as int])
            );
            lemma_to_set_push(earlier + keys.take(i as int), keys[i as int]);
        }
        insert_id(&mut ids, rows[i].project_id);
        i += 1;
    }
    assert(keys.take(rows.len() as int) =~= keys);
    let ghost gathered = earlier + keys;

    let rows = &found.project_notes;
    let ghost keys = note_project_ids(found@);
    let ghost earlier = gathered;
    let mut i: usize = 0;
    assert(earlier + keys.take(0) =~= earlier);
    while i < rows.len()
        invariant
            i <= rows.len(),
            rows == &found.project_notes,
            keys == note_project_ids(found@),
            increasing(ids@),
            ids@.to_set() == (earlier + keys.take(i as int)).to_set(),
        decreases rows.len() - i,
    {
        proof {
            assert(keys[i as int] == rows@[i as int].project_id);
            assert(
                earlier + keys.take(i + 1) =~= (earlier + keys.take(i as int)).push(keys[i as int])
            );
            lemma_to_set_push(earlier + keys.take(i as int), keys[i as int]);
        }
        insert_id(&mut ids, rows[i].project_id);
        i += 1;
    }
    assert(keys.take(rows.len() as int) =~= keys);
    let ghost gathered = earlier + keys;

    assert(gathered =~= needed_project_ids(views(all_servers@), found@));
    ids
}

// ---------------------------------------------------------------------------
// The project filter
// ---------------------------------------------------------------------------
/// Whether `needle` occurs in `text` as a run of consecutive characters.
pub open spec fn contains_text(text: Seq<char>, needle: Seq<char>) -> bool {
    exists|i: int|
        0 <= i && i + needle.len() <= text.len() && #[trigger] text.subrange(
            i,
            i + needle.len(),
        ) == needle
}

/// `str::contains` of the standard library, for a pattern that is a text:
/// whether the pattern occurs in the text.
#[verifier::external_body]
fn text_contains(text: &str, needle: &str) -> (r: bool)
    ensures
        r == contains_text(text@, needle@),
{
    text.contains(needle)
}

/// Whether a project passes a filter, given its name in lower case: the
/// filter must occur in it.
pub fn passes_project_filter(lowered_name: &str, project_pattern: &str) -> (r: bool)
    ensures
        r == contains_text(lowered_name@, project_pattern@),
{
    text_contains(lowered_name, project_pattern)
}

/// The test that a project passes when its name, in lower case, contains
/// the filter.
pub open spec fn named_like(project_pattern: Seq<char>) -> spec_fn(ProjectView) -> bool {
    |p: ProjectView| contains_text(lowercase(p.name), project_pattern)
}

/// The projects that are shown: all of them without a project filter, and
/// with one those whose name in lower case contains it, in the same order.
pub fn filter_projects(all_projects: Vec<Project>, project_pattern: &Option<String>) -> (r: Vec<
    Project,
>)
    ensures
        views(r@) == (match project_pattern {
            None => views(all_projects@),
            Some(prj) => views(all_projects@).filter(named_like(prj@)),
        }),
{
    match project_pattern {
        None => all_projects,
        Some(prj) => {
            let ghost all = views(all_projects@);
            let ghost wanted = named_like(prj@);
            let mut kept: Vec<Project> = Vec::new();
            let mut i: usize = 0;
            proof {
                assert(all.take(0) =~= Seq::empty());
                all.take(0).lemma_filter_len(wanted);
                assert(views(kept@) =~= all.take(0).filter(wanted));
            }
            while i < all_projects.len()
                invariant
                    i <= all_projects.len(),
                    all == views(all_projects@),
                    wanted == named_like(prj@),
                    views(kept@) == all.take(i as int).filter(wanted),
                decreases all_projects.len() - i,
            {
                let p = &all_projects[i];
                proof {
                    assert(all.take(i + 1) =~= all.take(i as int).push(p@));
                    all.take(i as int).lemma_filter_push(p@, wanted);
                }
                let lowered = lowercased(p.name.as_str());
                if passes_project_filter(lowered.as_str(), prj.as_str()) {
                    let ghost before = views(kept@);
                    kept.push(p.clone());
                    assert(views(kept@) =~= before.push(p@));
                }
                i += 1;
            }
            assert(all.take(all_projects.len() as int) =~= all);
            kept
        },
    }
}

// ---------------------------------------------------------------------------
// The kinds that a search looks for
// ---------------------------------------------------------------------------
/// Whether a search of these kinds looks for servers.
pub fn searches_servers(search_item_types: SearchItemsType) -> (r: bool)
    ensures
        r == (search_item_types == SearchItemsType::ServersOnly || search_item_types
            == SearchItemsType::All),
{
    search_item_types == SearchItemsType::ServersOnly || search_item_types == SearchItemsType::All
}

/// Whether a search of these kinds looks for databases.
pub fn searches_databases(search_item_types: SearchItemsType) -> (r: bool)
    ensures
        r == (search_item_types == SearchItemsType::ServerDbsOnly || search_item_types
            == SearchItemsType::All),
{
    search_item_types == SearchItemsType::ServerDbsOnly || search_item_types == SearchItemsType::All
}

/// Whether a search of these kinds looks for the kinds other than servers
/// and databases.
pub fn searches_other_kinds(search_item_types: SearchItemsType) -> (r: bool)
    ensures
        r == (search_item_types == SearchItemsType::All),
{
    search_item_types == SearchItemsType::All
}

} // verus!
