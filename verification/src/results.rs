//! The result of a search, and the list of items that is shown for it.

use vstd::prelude::*;
use crate::items::{
    project_item_view, server_item_view, ProjectItem, ProjectItemView, ProjectPadItem,
    ProjectPadItemView, ServerItem, ServerItemView,
};
use crate::rows::{
    Project, ProjectNote, ProjectNoteView, ProjectPointOfInterest, ProjectPointOfInterestView,
    ProjectView, Server, ServerDatabase, ServerDatabaseView, ServerExtraUserAccount,
    ServerExtraUserAccountView, ServerLink, ServerLinkView, ServerNote, ServerNoteView,
    ServerPointOfInterest, ServerPointOfInterestView, ServerView, ServerWebsite,
    ServerWebsiteView,
};
use crate::select::{lemma_select_ends, lemma_select_next, select};
use crate::types::views;

verus! {

/// The height of one item of the search, in pixels.
pub const SEARCH_RESULT_WIDGET_HEIGHT: i32 = 75;

/// The rows that a search found, kind by kind.
pub struct SearchResult {
    pub projects: Vec<Project>,
    pub project_notes: Vec<ProjectNote>,
    pub project_pois: Vec<ProjectPointOfInterest>,
    pub server_links: Vec<ServerLink>,
    pub servers: Vec<Server>,
    pub server_databases: Vec<ServerDatabase>,
    pub server_extra_users: Vec<ServerExtraUserAccount>,
    pub server_notes: Vec<ServerNote>,
    pub server_pois: Vec<ServerPointOfInterest>,
    pub server_websites: Vec<ServerWebsite>,
}

/// What a [`SearchResult`] holds.
pub struct SearchResultView {
    pub projects: Seq<ProjectView>,
    pub project_notes: Seq<ProjectNoteView>,
    pub project_pois: Seq<ProjectPointOfInterestView>,
    pub server_links: Seq<ServerLinkView>,
    pub servers: Seq<ServerView>,
    pub server_databases: Seq<ServerDatabaseView>,
    pub server_extra_users: Seq<ServerExtraUserAccountView>,
    pub server_notes: Seq<ServerNoteView>,
    pub server_pois: Seq<ServerPointOfInterestView>,
    pub server_websites: Seq<ServerWebsiteView>,
}

impl View for SearchResult {
    type V = SearchResultView;

    open spec fn view(&self) -> SearchResultView {
        SearchResultView {
            projects: views(self.projects@),
            project_notes: views(self.project_notes@),
            project_pois: views(self.project_pois@),
            server_links: views(self.server_links@),
            servers: views(self.servers@),
            server_databases: views(self.server_databases@),
            server_extra_users: views(self.server_extra_users@),
            server_notes: views(self.server_notes@),
            server_pois: views(self.server_pois@),
            server_websites: views(self.server_websites@),
        }
    }
}

// ---------------------------------------------------------------------------
// The list that is shown
// ---------------------------------------------------------------------------
/// The test that the websites of a server pass.
pub open spec fn website_under(server_id: i32) -> spec_fn(ServerWebsiteView) -> bool {
    |r: ServerWebsiteView| r.server_id == server_id
}

/// A row of the websites as an item of the list.
pub open spec fn website_shown() -> spec_fn(ServerWebsiteView) -> ProjectPadItemView {
    |r: ServerWebsiteView| ProjectPadItemView::ServerWebsite(r)
}

/// The test that the notes of a server pass.
pub open spec fn server_note_under(server_id: i32) -> spec_fn(ServerNoteView) -> bool {
    |r: ServerNoteView| r.server_id == server_id
}

/// A row of the notes as an item of the list.
pub open spec fn server_note_shown() -> spec_fn(ServerNoteView) -> ProjectPadItemView {
    |r: ServerNoteView| ProjectPadItemView::ServerNote(r)
}

/// The test that the extra user accounts of a server pass.
pub open spec fn extra_user_under(server_id: i32) -> spec_fn(ServerExtraUserAccountView) -> bool {
    |r: ServerExtraUserAccountView| r.server_id == server_id
}

/// A row of the extra user accounts as an item of the list.
pub open spec fn extra_user_shown() -> spec_fn(ServerExtraUserAccountView) -> ProjectPadItemView {
    |r: ServerExtraUserAccountView| ProjectPadItemView::ServerExtraUserAccount(r)
}

/// The test that the databases of a server pass.
pub open spec fn database_under(server_id: i32) -> spec_fn(ServerDatabaseView) -> bool {
    |r: ServerDatabaseView| r.server_id == server_id
}

/// A row of the databases as an item of the list.
pub open spec fn database_shown() -> spec_fn(ServerDatabaseView) -> ProjectPadItemView {
    |r: ServerDatabaseView| ProjectPadItemView::ServerDatabase(r)
}

/// The test that the points of interest of a server pass.
pub open spec fn server_poi_under(server_id: i32) -> spec_fn(ServerPointOfInterestView) -> bool {
    |r: ServerPointOfInterestView| r.server_id == server_id
}

/// A row of the points of interest as an item of the list.
pub open spec fn server_poi_shown() -> spec_fn(ServerPointOfInterestView) -> ProjectPadItemView {
    |r: ServerPointOfInterestView| ProjectPadItemView::ServerPoi(r)
}

/// The test that the server links of a project pass.
pub open spec fn server_link_under(project_id: i32) -> spec_fn(ServerLinkView) -> bool {
    |r: ServerLinkView| r.project_id == project_id
}

/// A row of the server links as an item of the list.
pub open spec fn server_link_shown() -> spec_fn(ServerLinkView) -> ProjectPadItemView {
    |r: ServerLinkView| ProjectPadItemView::ServerLink(r)
}

/// The test that the notes of a project pass.
pub open spec fn project_note_under(project_id: i32) -> spec_fn(ProjectNoteView) -> bool {
    |r: ProjectNoteView| r.project_id == project_id
}

/// A row of the notes as an item of the list.
pub open spec fn project_note_shown() -> spec_fn(ProjectNoteView) -> ProjectPadItemView {
    |r: ProjectNoteView| ProjectPadItemView::ProjectNote(r)
}

/// The test that the points of interest of a project pass.
pub open spec fn project_poi_under(project_id: i32) -> spec_fn(ProjectPointOfInterestView) -> bool {
    |r: ProjectPointOfInterestView| r.project_id == project_id
}

/// A row of the points of interest as an item of the list.
pub open spec fn project_poi_shown() -> spec_fn(ProjectPointOfInterestView) -> ProjectPadItemView {
    |r: ProjectPointOfInterestView| ProjectPadItemView::ProjectPoi(r)
}

/// A server in the list, followed by what was found under it: its
/// websites, notes, extra user accounts, databases and points of interest.
pub open spec fn server_block(
    result: SearchResultView,
    server: ServerView,
) -> Seq<ProjectPadItemView> {
    seq![ProjectPadItemView::Server(server)] + select(
        result.server_websites,
        website_under(server.id),
        website_shown(),
    ) + select(result.server_notes, server_note_under(server.id), server_note_shown()) + select(
        result.server_extra_users,
        extra_user_under(server.id),
        extra_user_shown(),
    ) + select(result.server_databases, database_under(server.id), database_shown()) + select(
        result.server_pois,
        server_poi_under(server.id),
        server_poi_shown(),
    )
}

/// The blocks of those among `servers` that belong to the project, in order.
pub open spec fn server_blocks(result: SearchResultView, project_id: i32, servers: Seq<ServerView>) -> Seq<
    ProjectPadItemView,
>
    decreases servers.len(),
{
    if servers.len() == 0 {
        Seq::empty()
    } else {
        server_blocks(result, project_id, servers.drop_last()) + (if servers.last().project_id
            == project_id {
            server_block(result, servers.last())
        } else {
            Seq::empty()
        })
    }
}

/// A project in the list, followed by what was found under it: its
/// servers, each with its own items, then its server links, notes and
/// points of interest.
pub open spec fn project_block(result: SearchResultView, project: ProjectView) -> Seq<
    ProjectPadItemView,
> {
    seq![ProjectPadItemView::Project(project)] + server_blocks(result, project.id, result.servers)
        + select(result.server_links, server_link_under(project.id), server_link_shown())
        + select(result.project_notes, project_note_under(project.id), project_note_shown())
        + select(result.project_pois, project_poi_under(project.id), project_poi_shown())
}

/// The blocks of `projects`, in order.
pub open spec fn project_blocks(result: SearchResultView, projects: Seq<ProjectView>) -> Seq<
    ProjectPadItemView,
>
    decreases projects.len(),
{
    if projects.len() == 0 {
        Seq::empty()
    } else {
        project_blocks(result, projects.drop_last()) + project_block(result, projects.last())
    }
}

/// The list that is shown for a search result: project after project,
/// each followed by what was found under it. What was found under a project
/// or a server that is not in the result is not shown.
pub open spec fn search_items_of(result: SearchResultView) -> Seq<ProjectPadItemView> {
    project_blocks(result, result.projects)
}

/// Appends the websites found under one server to the list.
fn show_server_websites(items: &mut Vec<ProjectPadItem>, rows: &Vec<ServerWebsite>, server_id: i32)
    ensures
        views(final(items)@) == views(old(items)@) + select(
            views(rows@),
            website_under(server_id),
            website_shown(),
        ),
{
    let ghost start = views(items@);
    let ghost wanted = website_under(server_id);
    let ghost shown = website_shown();
    let mut i: usize = 0;
    proof {
        lemma_select_ends(views(rows@), wanted, shown);
        assert(views(items@) =~= start + Seq::<ProjectPadItemView>::empty());
    }
    while i < rows.len()
        invariant
            i <= rows.len(),
            start == views(old(items)@),
            wanted == website_under(server_id),
            shown == website_shown(),
            views(items@) == start + select(views(rows@).take(i as int), wanted, shown),
        decreases rows.len() - i,
    {
        proof {
            lemma_select_next(views(rows@), wanted, shown, i as int);
        }
        if rows[i].server_id == server_id {
            let ghost before = views(items@);
            let item = ProjectPadItem::ServerWebsite(rows[i].clone());
            items.push(item);
            assert(views(items@) =~= before.push(shown(rows@[i as int]@)));
            assert(views(items@) =~= start + select(
                views(rows@).take(i as int),
                wanted,
                shown,
            ).push(shown(rows@[i as int]@)));
        }
        i += 1;
    }
    proof {
        lemma_select_ends(views(rows@), wanted, shown);
    }
}

/// Appends the notes found under one server to the list.
fn show_server_notes(items: &mut Vec<ProjectPadItem>, rows: &Vec<ServerNote>, server_id: i32)
    ensures
        views(final(items)@) == views(old(items)@) + select(
            views(rows@),
            server_note_under(server_id),
            server_note_shown(),
        ),
{
    let ghost start = views(items@);
    let ghost wanted = server_note_under(server_id);
    let ghost shown = server_note_shown();
    let mut i: usize = 0;
    proof {
        lemma_select_ends(views(rows@), wanted, shown);
        assert(views(items@) =~= start + Seq::<ProjectPadItemView>::empty());
    }
    while i < rows.len()
        invariant
            i <= rows.len(),
            start == views(old(items)@),
            wanted == server_note_under(server_id),
            shown == server_note_shown(),
            views(items@) == start + select(views(rows@).take(i as int), wanted, shown),
        decreases rows.len() - i,
    {
        proof {
            lemma_select_next(views(rows@), wanted, shown, i as int);
        }
        if rows[i].server_id == server_id {
            let ghost before = views(items@);
            let item = ProjectPadItem::ServerNote(rows[i].clone());
            items.push(item);
            assert(views(items@) =~= before.push(shown(rows@[i as int]@)));
            assert(views(items@) =~= start + select(
                views(rows@).take(i as int),
                wanted,
                shown,
            ).push(shown(rows@[i as int]@)));
        }
        i += 1;
    }
    proof {
        lemma_select_ends(views(rows@), wanted, shown);
    }
}

/// Appends the extra user accounts found under one server to the list.
fn show_server_extra_users(items: &mut Vec<ProjectPadItem>, rows: &Vec<ServerExtraUserAccount>, server_id: i32)
    ensures
        views(final(items)@) == views(old(items)@) + select(
            views(rows@),
            extra_user_under(server_id),
            extra_user_shown(),
        ),
{
    let ghost start = views(items@);
    let ghost wanted = extra_user_under(server_id);
    let ghost shown = extra_user_shown();
    let mut i: usize = 0;
    proof {
        lemma_select_ends(views(rows@), wanted, shown);
        assert(views(items@) =~= start + Seq::<ProjectPadItemView>::empty());
    }
    while i < rows.len()
        invariant
            i <= rows.len(),
            start == views(old(items)@),
            wanted == extra_user_under(server_id),
            shown == extra_user_shown(),
            views(items@) == start + select(views(rows@).take(i as int), wanted, shown),
        decreases rows.len() - i,
    {
        proof {
            lemma_select_next(views(rows@), wanted, shown, i as int);
        }
        if rows[i].server_id == server_id {
            let ghost before = views(items@);
            let item = ProjectPadItem::ServerExtraUserAccount(rows[i].clone());
            items.push(item);
            assert(views(items@) =~= before.push(shown(rows@[i as int]@)));
            assert(views(items@) =~= start + select(
                views(rows@).take(i as int),
                wanted,
                shown,
            ).push(shown(rows@[i as int]@)));
        }
        i += 1;
    }
    proof {
        lemma_select_ends(views(rows@), wanted, shown);
    }
}

/// Appends the databases found under one server to the list.
fn show_server_databases(items: &mut Vec<ProjectPadItem>, rows: &Vec<ServerDatabase>, server_id: i32)
    ensures
        views(final(items)@) == views(old(items)@) + select(
            views(rows@),
            database_under(server_id),
            database_shown(),
        ),
{
    let ghost start = views(items@);
    let ghost wanted = database_under(server_id);
    let ghost shown = database_shown();
    let mut i: usize = 0;
    proof {
        lemma_select_ends(views(rows@), wanted, shown);
        assert(views(items@) =~= start + Seq::<ProjectPadItemView>::empty());
    }
    while i < rows.len()
        invariant
            i <= rows.len(),
            start == views(old(items)@),
            wanted == database_under(server_id),
            shown == database_shown(),
            views(items@) == start + select(views(rows@).take(i as int), wanted, shown),
        decreases rows.len() - i,
    {
        proof {
            lemma_select_next(views(rows@), wanted, shown, i as int);
        }
        if rows[i].server_id == server_id {
            let ghost before = views(items@);
            let item = ProjectPadItem::ServerDatabase(rows[i].clone());
            items.push(item);
            assert(views(items@) =~= before.push(shown(rows@[i as int]@)));
            assert(views(items@) =~= start + select(
                views(rows@).take(i as int),
                wanted,
                shown,
            ).push(shown(rows@[i as int]@)));
        }
        i += 1;
    }
    proof {
        lemma_select_ends(views(rows@), wanted, shown);
    }
}

/// Appends the points of interest found under one server to the list.
fn show_server_pois(items: &mut Vec<ProjectPadItem>, rows: &Vec<ServerPointOfInterest>, server_id: i32)
    ensures
        views(final(items)@) == views(old(items)@) + select(
            views(rows@),
            server_poi_under(server_id),
            server_poi_shown(),
        ),
{
    let ghost start = views(items@);
    let ghost wanted = server_poi_under(server_id);
    let ghost shown = server_poi_shown();
    let mut i: usize = 0;
    proof {
        lemma_select_ends(views(rows@), wanted, shown);
        assert(views(items@) =~= start + Seq::<ProjectPadItemView>::empty());
    }
    while i < rows.len()
        invariant
            i <= rows.len(),
            start == views(old(items)@),
            wanted == server_poi_under(server_id),
            shown == server_poi_shown(),
            views(items@) == start + select(views(rows@).take(i as int), wanted, shown),
        decreases rows.len() - i,
    {
        proof {
            lemma_select_next(views(rows@), wanted, shown, i as int);
        }
        if rows[i].server_id == server_id {
            let ghost before = views(items@);
            let item = ProjectPadItem::ServerPoi(rows[i].clone());
            items.push(item);
            assert(views(items@) =~= before.push(shown(rows@[i as int]@)));
            assert(views(items@) =~= start + select(
                views(rows@).take(i as int),
                wanted,
                shown,
            ).push(shown(rows@[i as int]@)));
        }
        i += 1;
    }
    proof {
        lemma_select_ends(views(rows@), wanted, shown);
    }
}

/// Appends the server links found under one project to the list.
fn show_server_links(items: &mut Vec<ProjectPadItem>, rows: &Vec<ServerLink>, project_id: i32)
    ensures
        views(final(items)@) == views(old(items)@) + select(
            views(rows@),
            server_link_under(project_id),
            server_link_shown(),
        ),
{
    let ghost start = views(items@);
    let ghost wanted = server_link_under(project_id);
    let ghost shown = server_link_shown();
    let mut i: usize = 0;
    proof {
        lemma_select_ends(views(rows@), wanted, shown);
        assert(views(items@) =~= start + Seq::<ProjectPadItemView>::empty());
    }
    while i < rows.len()
        invariant
            i <= rows.len(),
            start == views(old(items)@),
            wanted == server_link_under(project_id),
            shown == server_link_shown(),
            views(items@) == start + select(views(rows@).take(i as int), wanted, shown),
        decreases rows.len() - i,
    {
        proof {
            lemma_select_next(views(rows@), wanted, shown, i as int);
        }
        if rows[i].project_id == project_id {
            let ghost before = views(items@);
            let item = ProjectPadItem::ServerLink(rows[i].clone());
            items.push(item);
            assert(views(items@) =~= before.push(shown(rows@[i as int]@)));
            assert(views(items@) =~= start + select(
                views(rows@).take(i as int),
                wanted,
                shown,
            ).push(shown(rows@[i as int]@)));
        }
        i += 1;
    }
    proof {
        lemma_select_ends(views(rows@), wanted, shown);
    }
}

/// Appends the notes found under one project to the list.
fn show_project_notes(items: &mut Vec<ProjectPadItem>, rows: &Vec<ProjectNote>, project_id: i32)
    ensures
        views(final(items)@) == views(old(items)@) + select(
            views(rows@),
            project_note_under(project_id),
            project_note_shown(),
        ),
{
    let ghost start = views(items@);
    let ghost wanted = project_note_under(project_id);
    let ghost shown = project_note_shown();
    let mut i: usize = 0;
    proof {
        lemma_select_ends(views(rows@), wanted, shown);
        assert(views(items@) =~= start + Seq::<ProjectPadItemView>::empty());
    }
    while i < rows.len()
        invariant
            i <= rows.len(),
            start == views(old(items)@),
            wanted == project_note_under(project_id),
            shown == project_note_shown(),
            views(items@) == start + select(views(rows@).take(i as int), wanted, shown),
        decreases rows.len() - i,
    {
        proof {
            lemma_select_next(views(rows@), wanted, shown, i as int);
        }
        if rows[i].project_id == project_id {
            let ghost before = views(items@);
            let item = ProjectPadItem::ProjectNote(rows[i].clone());
            items.push(item);
            assert(views(items@) =~= before.push(shown(rows@[i as int]@)));
            assert(views(items@) =~= start + select(
                views(rows@).take(i as int),
                wanted,
                shown,
            ).push(shown(rows@[i as int]@)));
        }
        i += 1;
    }
    proof {
        lemma_select_ends(views(rows@), wanted, shown);
    }
}

/// Appends the points of interest found under one project to the list.
fn show_project_pois(items: &mut Vec<ProjectPadItem>, rows: &Vec<ProjectPointOfInterest>, project_id: i32)
    ensures
        views(final(items)@) == views(old(items)@) + select(
            views(rows@),
            project_poi_under(project_id),
            project_poi_shown(),
        ),
{
    let ghost start = views(items@);
    let ghost wanted = project_poi_under(project_id);
    let ghost shown = project_poi_shown();
    let mut i: usize = 0;
    proof {
        lemma_select_ends(views(rows@), wanted, shown);
        assert(views(items@) =~= start + Seq::<ProjectPadItemView>::empty());
    }
    while i < rows.len()
        invariant
            i <= rows.len(),
            start == views(old(items)@),
            wanted == project_poi_under(project_id),
            shown == project_poi_shown(),
            views(items@) == start + select(views(rows@).take(i as int), wanted, shown),
        decreases rows.len() - i,
    {
        proof {
            lemma_select_next(views(rows@), wanted, shown, i as int);
        }
        if rows[i].project_id == project_id {
            let ghost before = views(items@);
            let item = ProjectPadItem::ProjectPoi(rows[i].clone());
            items.push(item);
            assert(views(items@) =~= before.push(shown(rows@[i as int]@)));
            assert(views(items@) =~= start + select(
                views(rows@).take(i as int),
                wanted,
                shown,
            ).push(shown(rows@[i as int]@)));
        }
        i += 1;
    }
    proof {
        lemma_select_ends(views(rows@), wanted, shown);
    }
}

/// Appends a server and what was found under it to the list.
fn show_server(items: &mut Vec<ProjectPadItem>, search_result: &SearchResult, server: &Server)
    ensures
        views(final(items)@) == views(old(items)@) + server_block(search_result@, server@),
{
    let ghost start = views(items@);
    items.push(ProjectPadItem::Server(server.clone()));
    assert(views(items@) =~= start + seq![ProjectPadItemView::Server(server@)]);
    show_server_websites(items, &search_result.server_websites, server.id);
    show_server_notes(items, &search_result.server_notes, server.id);
    show_server_extra_users(items, &search_result.server_extra_users, server.id);
    show_server_databases(items, &search_result.server_databases, server.id);
    show_server_pois(items, &search_result.server_pois, server.id);
    assert(views(items@) =~= start + server_block(search_result@, server@));
}

/// Appends a project and what was found under it to the list.
fn show_project(items: &mut Vec<ProjectPadItem>, search_result: &SearchResult, project: &Project)
    ensures
        views(final(items)@) == views(old(items)@) + project_block(search_result@, project@),
{
    let ghost start = views(items@);
    items.push(ProjectPadItem::Project(project.clone()));
    let ghost head = start + seq![ProjectPadItemView::Project(project@)];
    assert(views(items@) =~= head);
    let mut j: usize = 0;
    proof {
        assert(search_result@.servers.take(0) =~= Seq::empty());
        assert(head + Seq::<ProjectPadItemView>::empty() =~= head);
    }
    while j < search_result.servers.len()
        invariant
            j <= search_result.servers.len(),
            views(items@) == head + server_blocks(
                search_result@,
                project.id,
                search_result@.servers.take(j as int),
            ),
        decreases search_result.servers.len() - j,
    {
        let server = &search_result.servers[j];
        let ghost before = views(items@);
        proof {
            assert(search_result@.servers.take(j + 1).drop_last() =~= search_result@.servers.take(
                j as int,
            ));
            assert(search_result@.servers.take(j + 1).last() == server@);
        }
        if server.project_id == project.id {
            show_server(items, search_result, server);
            assert(views(items@) =~= head + (server_blocks(
                search_result@,
                project.id,
                search_result@.servers.take(j as int),
            ) + server_block(search_result@, server@)));
        } else {
            assert(views(items@) =~= head + (server_blocks(
                search_result@,
                project.id,
                search_result@.servers.take(j as int),
            ) + Seq::<ProjectPadItemView>::empty()));
        }
        j += 1;
    }
    assert(search_result@.servers.take(search_result.servers.len() as int)
        =~= search_result@.servers);
    show_server_links(items, &search_result.server_links, project.id);
    show_project_notes(items, &search_result.project_notes, project.id);
    show_project_pois(items, &search_result.project_pois, project.id);
    assert(views(items@) =~= start + project_block(search_result@, project@));
}

/// Builds the list that is shown for a search result: each project that
/// was found, followed by its servers, each with its own items, then by its
/// server links, notes and points of interest.
pub fn build_search_items(search_result: &SearchResult) -> (items: Vec<ProjectPadItem>)
    ensures
        views(items@) == search_items_of(search_result@),
{
    let mut items: Vec<ProjectPadItem> = Vec::new();
    let mut i: usize = 0;
    proof {
        assert(search_result@.projects.take(0) =~= Seq::empty());
        assert(views(items@) =~= Seq::empty());
    }
    while i < search_result.projects.len()
        invariant
            i <= search_result.projects.len(),
            views(items@) == project_blocks(search_result@, search_result@.projects.take(i as int)),
        decreases search_result.projects.len() - i,
    {
        let project = &search_result.projects[i];
        proof {
            assert(search_result@.projects.take(i + 1).drop_last() =~= search_result@.projects.take(
                i as int,
            ));
            assert(search_result@.projects.take(i + 1).last() == project@);
        }
        show_project(&mut items, search_result, project);
        i += 1;
    }
    assert(search_result@.projects.take(search_result.projects.len() as int)
        =~= search_result@.projects);
    items
}

/// The height of the whole list in pixels, which is the upper end of the
/// scroll bar: the height of one item for each item. `None` where the height
/// does not fit a 32-bit integer.
pub fn scroll_upper(n_items: usize) -> (r: Option<i32>)
    ensures
        match r {
            Some(upper) => upper == n_items * 75,
            None => n_items * 75 > i32::MAX,
        },
{
    if n_items > 28633115 {
        None
    } else {
        let n: i32 = n_items as i32;
        Some(n * SEARCH_RESULT_WIDGET_HEIGHT)
    }
}

// ---------------------------------------------------------------------------
// Opening an item
// ---------------------------------------------------------------------------
/// The first project of the list with this identifier.
pub open spec fn listed_project(items: Seq<ProjectPadItemView>, id: i32) -> Option<ProjectView>
    decreases items.len(),
{
    if items.len() == 0 {
        None
    } else {
        match items[0] {
            ProjectPadItemView::Project(p) => if p.id == id {
                Some(p)
            } else {
                listed_project(items.skip(1), id)
            },
            _ => listed_project(items.skip(1), id),
        }
    }
}

/// The first server of the list with this identifier.
pub open spec fn listed_server(items: Seq<ProjectPadItemView>, id: i32) -> Option<ServerView>
    decreases items.len(),
{
    if items.len() == 0 {
        None
    } else {
        match items[0] {
            ProjectPadItemView::Server(s) => if s.id == id {
                Some(s)
            } else {
                listed_server(items.skip(1), id)
            },
            _ => listed_server(items.skip(1), id),
        }
    }
}

/// What to display for an item of the list: its project, the project item
/// to select, and the server item to select. A project comes alone. An item
/// of a project comes with its project. An item of a server comes with its
/// server, as the project item, and with that server's project. Projects and
/// servers are looked up in the list; nothing is displayed where one is
/// missing from it.
pub open spec fn opened(items: Seq<ProjectPadItemView>, item: ProjectPadItemView) -> Option<
    (ProjectView, Option<ProjectItemView>, Option<ServerItemView>),
> {
    match item {
        ProjectPadItemView::Project(p) => Some((p, None, None)),
        ProjectPadItemView::Server(s) => with_project(items, s.project_id, item.to_project_item(), None),
        ProjectPadItemView::ProjectNote(n) => with_project(
            items,
            n.project_id,
            item.to_project_item(),
            None,
        ),
        ProjectPadItemView::ProjectPoi(p) => with_project(
            items,
            p.project_id,
            item.to_project_item(),
            None,
        ),
        ProjectPadItemView::ServerLink(l) => with_project(
            items,
            l.project_id,
            item.to_project_item(),
            None,
        ),
        _ => match listed_server(items, item.to_server_item()->0.server_id()) {
            Some(server) => with_project(
                items,
                server.project_id,
                Some(ProjectItemView::Server(server)),
                item.to_server_item(),
            ),
            None => None,
        },
    }
}

/// The project of the list with this identifier, together with the items
/// to select in it.
pub open spec fn with_project(
    items: Seq<ProjectPadItemView>,
    project_id: i32,
    project_item: Option<ProjectItemView>,
    server_item: Option<ServerItemView>,
) -> Option<(ProjectView, Option<ProjectItemView>, Option<ServerItemView>)> {
    match listed_project(items, project_id) {
        Some(p) => Some((p, project_item, server_item)),
        None => None,
    }
}

/// What was chosen for display, seen through the views of its parts.
pub open spec fn opened_view(r: Option<(Project, Option<ProjectItem>, Option<ServerItem>)>) -> Option<
    (ProjectView, Option<ProjectItemView>, Option<ServerItemView>),
> {
    match r {
        Some((p, pi, si)) => Some((p@, project_item_view(pi), server_item_view(si))),
        None => None,
    }
}

/// Finds the first project of the list with this identifier.
fn project_by_id(search_items: &Vec<ProjectPadItem>, pid: i32) -> (r: Option<Project>)
    ensures
        crate::types::opt_view(r) == listed_project(views(search_items@), pid),
{
    let ghost all = views(search_items@);
    let mut i: usize = 0;
    assert(all.skip(0) =~= all);
    while i < search_items.len()
        invariant
            i <= search_items.len(),
            all == views(search_items@),
            listed_project(all, pid) == listed_project(all.skip(i as int), pid),
        decreases search_items.len() - i,
    {
        proof {
            assert(all.skip(i as int)[0] == search_items@[i as int]@);
            assert(all.skip(i as int).skip(1) =~= all.skip(i + 1));
        }
        if let ProjectPadItem::Project(p) = &search_items[i] {
            if p.id == pid {
                return Some(p.clone());
            }
        }
        i += 1;
    }
    None
}

/// Finds the first server of the list with this identifier.
fn server_by_id(search_items: &Vec<ProjectPadItem>, sid: i32) -> (r: Option<Server>)
    ensures
        crate::types::opt_view(r) == listed_server(views(search_items@), sid),
{
    let ghost all = views(search_items@);
    let mut i: usize = 0;
    assert(all.skip(0) =~= all);
    while i < search_items.len()
        invariant
            i <= search_items.len(),
            all == views(search_items@),
            listed_server(all, sid) == listed_server(all.skip(i as int), sid),
        decreases search_items.len() - i,
    {
        proof {
            assert(all.skip(i as int)[0] == search_items@[i as int]@);
            assert(all.skip(i as int).skip(1) =~= all.skip(i + 1));
        }
        if let ProjectPadItem::Server(s) = &search_items[i] {
            if s.id == sid {
                return Some(s.clone());
            }
        }
        i += 1;
    }
    None
}

/// Chooses what to display when an item of the list is opened: the
/// project to show, the item to select in the project, and the item to
/// select in the server. Returns nothing where the project or the server of
/// the item is not in the list.
pub fn open_item_full(search_items: &Vec<ProjectPadItem>, item: ProjectPadItem) -> (r: Option<
    (Project, Option<ProjectItem>, Option<ServerItem>),
>)
    ensures
        opened_view(r) == opened(views(search_items@), item@),
{
    match item {
        ProjectPadItem::Project(p) => Some((p, None, None)),
        ProjectPadItem::Server(s) => match project_by_id(search_items, s.project_id) {
            Some(p) => Some((p, Some(ProjectItem::Server(s)), None)),
            None => None,
        },
        ProjectPadItem::ProjectNote(n) => match project_by_id(search_items, n.project_id) {
            Some(p) => Some((p, Some(ProjectItem::ProjectNote(n)), None)),
            None => None,
        },
        ProjectPadItem::ProjectPoi(poi) => match project_by_id(search_items, poi.project_id) {
            Some(p) => Some((p, Some(ProjectItem::ProjectPointOfInterest(poi)), None)),
            None => None,
        },
        ProjectPadItem::ServerLink(l) => match project_by_id(search_items, l.project_id) {
            Some(p) => Some((p, Some(ProjectItem::ServerLink(l)), None)),
            None => None,
        },
        ProjectPadItem::ServerPoi(poi) => under_server(
            search_items,
            poi.server_id,
            ServerItem::PointOfInterest(poi),
        ),
        ProjectPadItem::ServerWebsite(w) => under_server(
            search_items,
            w.server_id,
            ServerItem::Website(w),
        ),
        ProjectPadItem::ServerDatabase(d) => under_server(
            search_items,
            d.server_id,
            ServerItem::Database(d),
        ),
        ProjectPadItem::ServerNote(n) => under_server(search_items, n.server_id, ServerItem::Note(n)),
        ProjectPadItem::ServerExtraUserAccount(u) => under_server(
            search_items,
            u.server_id,
            ServerItem::ExtraUserAccount(u),
        ),
    }
}

/// Chooses what to display for an item of a server: the server's project,
/// the server, and the item.
fn under_server(search_items: &Vec<ProjectPadItem>, server_id: i32, server_item: ServerItem) -> (r:
    Option<(Project, Option<ProjectItem>, Option<ServerItem>)>)
    ensures
        opened_view(r) == (match listed_server(views(search_items@), server_id) {
            Some(server) => with_project(
                views(search_items@),
                server.project_id,
                Some(ProjectItemView::Server(server)),
                Some(server_item@),
            ),
            None => None,
        }),
{
    let server = match server_by_id(search_items, server_id) {
        Some(server) => server,
        None => {
            return None;
        },
    };
    match project_by_id(search_items, server.project_id) {
        Some(p) => Some((p, Some(ProjectItem::Server(server)), Some(server_item))),
        None => None,
    }
}

// ---------------------------------------------------------------------------
// Keys
// ---------------------------------------------------------------------------
/// The level of an item in the list: 1 for a project, 2 for an item of a
/// project, 3 for an item of a server.
pub open spec fn level(item: ProjectPadItemView) -> int {
    if item is Project {
        1
    } else if item.to_project_item() is Some {
        2
    } else {
        3
    }
}

/// The test that the items of one level pass.
pub open spec fn at_level(l: int) -> spec_fn(ProjectPadItemView) -> bool {
    |item: ProjectPadItemView| level(item) == l
}

/// The item that the Enter key opens: the only item of the deepest level
/// that the list reaches, where every level down to it holds exactly one
/// item. So a lone project is opened; a project with a single item under it
/// has that item opened; and so on for a single item of a server under a
/// single item of a project. In every other list Enter opens nothing.
pub open spec fn entered(items: Seq<ProjectPadItemView>) -> Option<ProjectPadItemView> {
    let projects = items.filter(at_level(1));
    let project_items = items.filter(at_level(2));
    let server_items = items.filter(at_level(3));
    if projects.len() != 1 {
        None
    } else if project_items.len() == 0 && server_items.len() == 0 {
        Some(projects[0])
    } else if project_items.len() == 1 && server_items.len() == 0 {
        Some(project_items[0])
    } else if project_items.len() == 1 && server_items.len() == 1 {
        Some(server_items[0])
    } else {
        None
    }
}

/// The level of an item in the list.
fn level_of(item: &ProjectPadItem) -> (r: u8)
    ensures
        r == level(item@),
{
    match item {
        ProjectPadItem::Project(_) => 1,
        ProjectPadItem::Server(_) => 2,
        ProjectPadItem::ServerLink(_) => 2,
        ProjectPadItem::ProjectNote(_) => 2,
        ProjectPadItem::ProjectPoi(_) => 2,
        _ => 3,
    }
}

/// The place in the list of the item that the Enter key opens, if any.
pub fn item_opened_by_enter(items: &Vec<ProjectPadItem>) -> (r: Option<usize>)
    ensures
        match r {
            Some(k) => k < items.len() && entered(views(items@)) == Some(items@[k as int]@),
            None => entered(views(items@)) is None,
        },
{
    let ghost all = views(items@);
    let mut count1: usize = 0;
    let mut count2: usize = 0;
    let mut count3: usize = 0;
    let mut first1: usize = 0;
    let mut first2: usize = 0;
    let mut first3: usize = 0;
    let mut i: usize = 0;
    proof {
        assert(all.take(0) =~= Seq::empty());
        all.take(0).lemma_filter_len(at_level(1));
        all.take(0).lemma_filter_len(at_level(2));
        all.take(0).lemma_filter_len(at_level(3));
    }
    while i < items.len()
        invariant
            i <= items.len(),
            all == views(items@),
            count1 == all.take(i as int).filter(at_level(1)).len(),
            count2 == all.take(i as int).filter(at_level(2)).len(),
            count3 == all.take(i as int).filter(at_level(3)).len(),
            count1 <= i && count2 <= i && count3 <= i,
            count1 > 0 ==> first1 < i && all[first1 as int] == all.take(i as int).filter(
                at_level(1),
            )[0],
            count2 > 0 ==> first2 < i && all[first2 as int] == all.take(i as int).filter(
                at_level(2),
            )[0],
            count3 > 0 ==> first3 < i && all[first3 as int] == all.take(i as int).filter(
                at_level(3),
            )[0],
        decreases items.len() - i,
    {
        proof {
            assert(all.take(i + 1) =~= all.take(i as int).push(all[i as int]));
            all.take(i as int).lemma_filter_push(all[i as int], at_level(1));
            all.take(i as int).lemma_filter_push(all[i as int], at_level(2));
            all.take(i as int).lemma_filter_push(all[i as int], at_level(3));
        }
        let l = level_of(&items[i]);
        if l == 1 {
            if count1 == 0 {
                first1 = i;
            }
            count1 += 1;
        } else if l == 2 {
            if count2 == 0 {
                first2 = i;
            }
            count2 += 1;
        } else {
            if count3 == 0 {
                first3 = i;
            }
            count3 += 1;
        }
        i += 1;
    }
    assert(all.take(items.len() as int) =~= all);
    if count1 != 1 {
        None
    } else if count2 == 0 && count3 == 0 {
        Some(first1)
    } else if count2 == 1 && count3 == 0 {
        Some(first2)
    } else if count2 == 1 && count3 == 1 {
        Some(first3)
    } else {
        None
    }
}

/// The place in the list that a digit key stands for: the keys 1 to 9
/// stand for the first nine items, the key 0 for the tenth. Nothing where
/// the list is shorter, or for a number that is no digit.
pub fn shortcut_target(digit: u32, n_items: usize) -> (r: Option<usize>)
    ensures
        r == (if digit == 0 {
            if n_items > 9 {
                Some(9usize)
            } else {
                None
            }
        } else if digit <= 9 && digit - 1 < n_items {
            Some((digit - 1) as usize)
        } else {
            None
        }),
{
    if digit > 9 {
        return None;
    }
    let index: usize = if digit == 0 {
        9
    } else {
        digit as usize - 1
    };
    if index < n_items {
        Some(index)
    } else {
        None
    }
}

/// The digit that is drawn on an item as its shortcut: 1 to 9 on the
/// first nine items, 0 on the tenth, and none on the others.
pub fn shortcut_label(item_idx: usize) -> (r: Option<usize>)
    ensures
        r == (if item_idx < 10 {
            Some(((item_idx + 1) % 10) as usize)
        } else {
            None
        }),
{
    if item_idx < 10 {
        Some((item_idx + 1) % 10)
    } else {
        None
    }
}

} // verus!
