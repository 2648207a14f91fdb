//! A whole project, exported and imported again: what the tables hold of it
//! afterwards, stated in one place.

use vstd::prelude::*;
use crate::export::{project_by_id, spec_export_project};
use crate::guarantees::{
    deferred_by, exported_project_row_survives_import, import_resolves_websites_in_final_storage,
};
use crate::import::{note_answers, project_exists, spec_do_import, website_database};
use crate::items_round_trip::{
    all_databases_survive_export_and_import, all_extra_users_survive_export_and_import,
    all_server_notes_survive_export_and_import, all_server_pois_survive_export_and_import,
    all_websites_survive_export_and_import, new_server_ids, rows_of_servers, servers_in_document,
};
use crate::link_round_trip::{
    link_exported, link_exported_as, link_untargeted, links_of_document,
    links_survive_export_and_import, points_to,
};
use crate::note_round_trip::{
    holds_copy, note_exported, note_is_exported, note_unflagged, note_unflagged_in,
    notes_are_neither_lost_nor_added, notes_survive_export_and_import, titles_are_unique,
};
use crate::poi_round_trip::{
    has_any_environment, poi_moved_to, poi_of, poi_unnumbered, pois_survive_export_and_import,
};
use crate::round_trip::{
    moved_to, note_moved_to, server_exported, server_unnumbered, servers_survive_export_and_import,
};
use crate::rows::ProjectView;
use crate::select::{lemma_filter_none, select};
use crate::server_round_trip::{
    database_moved_to, database_of, database_rows_of_server, database_unnumbered,
    extra_user_moved_to, extra_user_of, extra_user_rows_of_server, extra_user_unnumbered,
    server_note_moved_to, server_note_of, server_note_rows_of_server, server_note_unnumbered,
    server_poi_moved_to, server_poi_of, server_poi_rows_of_server, server_poi_unnumbered,
    website_moved_to, website_of, website_rows_of_server, website_unreferenced,
};
use crate::storage::StorageView;

verus! {

/// Whether `dest` holds no note under the identifier `project_id`.
pub open spec fn holds_no_note_of(dest: StorageView, project_id: i32) -> bool {
    forall|i: int|
        0 <= i < dest.project_notes.len() ==> (#[trigger] dest.project_notes[i]).project_id
            != project_id
}

/// Whether `fin` holds the rows of `dest` and, behind them, the project
/// `source_id` of `source` under the next identifier of `dest`: its row, its
/// servers with their items, its points of interest, its notes and its
/// server links. Identifiers aside, the new rows of each table are the
/// project's rows of that table, each as often as the project has it; the
/// parts say what stands for an identifier.
///
/// - The project row is the project's own, with an empty icon.
/// - The servers that reach the document are those of the environments
///   that the project has; so with the points of interest, which need the
///   project to have an environment at all, and with the notes, which need
///   to be present in one of them.
/// - Each note comes back as one row, present where it was present in the
///   project's environments.
/// - Each server link points to the server that the document names for it
///   directly, or to a server of `fin` that answers to the description which
///   the document gives of its target.
/// - The items of a server stand under the identifier that their server
///   received, server after server in the document's order.
/// - Each website points to the database that its reference, as the
///   document describes it, resolves to in `fin`.
pub open spec fn restored(
    source: StorageView,
    source_id: i32,
    dest: StorageView,
    fin: StorageView,
) -> bool {
    let project = project_by_id(source, source_id)->0;
    let doc = spec_export_project(source, source_id)->Ok_0;
    let new_id = dest.next_project_id()->0;
    let servers = servers_in_document(doc);
    let ids = new_server_ids(dest, fin);
    let links = links_of_document(new_id, doc);
    let pending = deferred_by(dest, doc);
    &&& fin.projects == dest.projects.push(
        ProjectView { id: new_id, icon: Some(Seq::empty()), ..project },
    )
    &&& fin.servers.take(dest.servers.len() as int) == dest.servers
    &&& fin.servers.skip(dest.servers.len() as int).map_values(server_unnumbered()).to_multiset()
        == select(source.servers, server_exported(project), moved_to(new_id)).to_multiset()
    &&& ids.len() == servers.len()
    &&& has_any_environment(project) ==> {
        &&& fin.project_pois.take(dest.project_pois.len() as int) == dest.project_pois
        &&& fin.project_pois.skip(dest.project_pois.len() as int).map_values(
            poi_unnumbered(),
        ).to_multiset() == select(
            source.project_pois,
            poi_of(project.id),
            poi_moved_to(new_id),
        ).to_multiset()
    }
    &&& fin.project_notes.len() >= dest.project_notes.len()
    &&& fin.project_notes.take(dest.project_notes.len() as int).map_values(note_unflagged())
        == dest.project_notes.map_values(note_unflagged())
    &&& fin.project_notes.skip(dest.project_notes.len() as int).map_values(
        note_unflagged(),
    ).to_multiset() == select(
        source.project_notes,
        note_is_exported(project),
        note_unflagged_in(new_id),
    ).to_multiset()
    &&& forall|place: int|
        0 <= place < source.project_notes.len() && (#[trigger] source.project_notes[place]).project_id
            == project.id ==> holds_copy(
            fin,
            source.project_notes[place],
            new_id,
            if note_exported(project, source.project_notes[place]) {
                Some(note_moved_to(0, new_id, project, source.project_notes[place]))
            } else {
                None
            },
        )
    &&& fin.server_links.len() == dest.server_links.len() + links.len()
    &&& fin.server_links.take(dest.server_links.len() as int) == dest.server_links
    &&& forall|k: int|
        0 <= k < links.len() ==> link_untargeted(
            #[trigger] fin.server_links[dest.server_links.len() + k],
        ) == links[k].0 && points_to(
            fin,
            links[k].1,
            fin.server_links[dest.server_links.len() + k].linked_server_id,
        )
    &&& links.to_multiset() == select(
        source.server_links,
        link_exported(project),
        link_exported_as(source, project, new_id),
    ).to_multiset()
    &&& fin.server_databases.take(dest.server_databases.len() as int) == dest.server_databases
    &&& fin.server_databases.skip(dest.server_databases.len() as int).map_values(
        database_unnumbered(),
    ) == rows_of_servers(ids, servers, database_rows_of_server())
    &&& forall|k: int|
        0 <= k < servers.len() ==> (#[trigger] database_rows_of_server()(
            ids[k],
            servers[k],
        )).to_multiset() == select(
            source.server_databases,
            database_of(servers[k].server.id),
            database_moved_to(ids[k]),
        ).to_multiset()
    &&& fin.server_notes.take(dest.server_notes.len() as int) == dest.server_notes
    &&& fin.server_notes.skip(dest.server_notes.len() as int).map_values(
        server_note_unnumbered(),
    ) == rows_of_servers(ids, servers, server_note_rows_of_server())
    &&& forall|k: int|
        0 <= k < servers.len() ==> (#[trigger] server_note_rows_of_server()(
            ids[k],
            servers[k],
        )).to_multiset() == select(
            source.server_notes,
            server_note_of(servers[k].server.id),
            server_note_moved_to(ids[k]),
        ).to_multiset()
    &&& fin.server_pois.take(dest.server_pois.len() as int) == dest.server_pois
    &&& fin.server_pois.skip(dest.server_pois.len() as int).map_values(server_poi_unnumbered())
        == rows_of_servers(ids, servers, server_poi_rows_of_server())
    &&& forall|k: int|
        0 <= k < servers.len() ==> (#[trigger] server_poi_rows_of_server()(
            ids[k],
            servers[k],
        )).to_multiset() == select(
            source.server_pois,
            server_poi_of(servers[k].server.id),
            server_poi_moved_to(ids[k]),
        ).to_multiset()
    &&& fin.server_extra_users.take(dest.server_extra_users.len() as int)
        == dest.server_extra_users
    &&& fin.server_extra_users.skip(dest.server_extra_users.len() as int).map_values(
        extra_user_unnumbered(),
    ) == rows_of_servers(ids, servers, extra_user_rows_of_server())
    &&& forall|k: int|
        0 <= k < servers.len() ==> (#[trigger] extra_user_rows_of_server()(
            ids[k],
            servers[k],
        )).to_multiset() == select(
            source.server_extra_users,
            extra_user_of(servers[k].server.id),
            extra_user_moved_to(ids[k]),
        ).to_multiset()
    &&& fin.server_websites.take(dest.server_websites.len() as int) == dest.server_websites
    &&& fin.server_websites.skip(dest.server_websites.len() as int).map_values(
        website_unreferenced(),
    ) == rows_of_servers(ids, servers, website_rows_of_server())
    &&& forall|k: int|
        0 <= k < servers.len() ==> (#[trigger] website_rows_of_server()(
            ids[k],
            servers[k],
        )).to_multiset() == select(
            source.server_websites,
            website_of(servers[k].server.id),
            website_moved_to(ids[k]),
        ).to_multiset()
    &&& fin.server_websites.len() == dest.server_websites.len() + pending.len()
    &&& forall|k: int|
        0 <= k < pending.len() ==> (#[trigger] fin.server_websites[dest.server_websites.len()
            + k]).server_database_id == website_database(fin, pending[k].website)
}

/// A project survives export and import. Where a project whose notes
/// carry different titles within a group is exported, and the import of the
/// document into a storage succeeds, the storage holds afterwards what it
/// held before and the project, as [`restored`] says: its row with an empty
/// icon, and its servers, items, points of interest, notes and server links
/// with their contents, under new identifiers.
///
/// The storage that receives the project is well formed, holds no project
/// of that name and no note under the identifier that the project receives.
pub proof fn project_survives_export_and_import(
    source: StorageView,
    source_id: i32,
    dest: StorageView,
)
    requires
        spec_export_project(source, source_id) is Ok,
        titles_are_unique(source.project_notes, project_by_id(source, source_id)->0.id),
        dest.wf(),
        dest.next_project_id() is Some,
        !project_exists(dest, project_by_id(source, source_id)->0.name),
        holds_no_note_of(dest, dest.next_project_id()->0),
        spec_do_import(dest, spec_export_project(source, source_id)->Ok_0).1 is Ok,
    ensures
        restored(
            source,
            source_id,
            dest,
            spec_do_import(dest, spec_export_project(source, source_id)->Ok_0).0,
        ),
{
    let project = project_by_id(source, source_id)->0;
    let doc = spec_export_project(source, source_id)->Ok_0;
    let fin = spec_do_import(dest, doc).0;
    let new_id = dest.next_project_id()->0;
    exported_project_row_survives_import(source, source_id, dest);
    servers_survive_export_and_import(source, source_id, dest);
    if has_any_environment(project) {
        pois_survive_export_and_import(source, source_id, dest);
    }
    notes_are_neither_lost_nor_added(source, source_id, dest);
    assert forall|place: int|
        0 <= place < source.project_notes.len() && (#[trigger] source.project_notes[place]).project_id
            == project.id implies holds_copy(
        fin,
        source.project_notes[place],
        new_id,
        if note_exported(project, source.project_notes[place]) {
            Some(note_moved_to(0, new_id, project, source.project_notes[place]))
        } else {
            None
        },
    ) by {
        let note = source.project_notes[place];
        lemma_filter_none(dest.project_notes, note_answers(note.title, note.group_name, new_id));
        notes_survive_export_and_import(source, source_id, place, dest);
    }
    links_survive_export_and_import(source, source_id, dest);
    all_databases_survive_export_and_import(source, source_id, dest);
    all_server_notes_survive_export_and_import(source, source_id, dest);
    all_server_pois_survive_export_and_import(source, source_id, dest);
    all_extra_users_survive_export_and_import(source, source_id, dest);
    all_websites_survive_export_and_import(source, source_id, dest);
    import_resolves_websites_in_final_storage(dest, doc);
}

} // verus!
