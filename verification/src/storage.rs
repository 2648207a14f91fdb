//! The vault's storage: ten tables of rows, each with integer identifiers
//! that grow with every insertion.

use vstd::prelude::*;
use crate::rows::{
    Project, ProjectNote, ProjectNoteView, ProjectPointOfInterest, ProjectPointOfInterestView,
    ProjectView, Server, ServerDatabase, ServerDatabaseView, ServerExtraUserAccount,
    ServerExtraUserAccountView, ServerLink, ServerLinkView, ServerNote, ServerNoteView,
    ServerPointOfInterest, ServerPointOfInterestView, ServerView, ServerWebsite,
    ServerWebsiteView,
};
use crate::types::{views, EnvironmentType};

verus! {

/// Why storage refused a row.
#[derive(Clone, Copy, Debug, PartialEq, Eq, Structural)]
pub enum StorageError {
    /// The table has used up its identifiers.
    IdentifiersExhausted,
}

/// Whether the identifiers grow strictly from each row to the next.
pub open spec fn increasing(ids: Seq<i32>) -> bool {
    forall|i: int, j: int| 0 <= i < j < ids.len() ==> ids[i] < ids[j]
}

/// The identifier that the next row of a table gets: one more than the
/// last, 1 in an empty table, none once the last has reached the largest
/// integer.
pub open spec fn next_id(ids: Seq<i32>) -> Option<i32> {
    if ids.len() == 0 {
        Some(1i32)
    } else if ids.last() == i32::MAX {
        None
    } else {
        Some((ids.last() + 1) as i32)
    }
}

/// What an insertion returns for the identifier that the table offers.
pub open spec fn inserted(next: Option<i32>) -> Result<i32, StorageError> {
    match next {
        Some(id) => Ok(id),
        None => Err(StorageError::IdentifiersExhausted),
    }
}

/// The ten tables as sequences of row values, in insertion order.
pub struct StorageView {
    pub projects: Seq<ProjectView>,
    pub project_pois: Seq<ProjectPointOfInterestView>,
    pub project_notes: Seq<ProjectNoteView>,
    pub server_links: Seq<ServerLinkView>,
    pub servers: Seq<ServerView>,
    pub server_databases: Seq<ServerDatabaseView>,
    pub server_notes: Seq<ServerNoteView>,
    pub server_pois: Seq<ServerPointOfInterestView>,
    pub server_extra_users: Seq<ServerExtraUserAccountView>,
    pub server_websites: Seq<ServerWebsiteView>,
}

impl StorageView {
    /// Storage without any row.
    pub open spec fn empty() -> StorageView {
        StorageView {
            projects: Seq::empty(),
            project_pois: Seq::empty(),
            project_notes: Seq::empty(),
            server_links: Seq::empty(),
            servers: Seq::empty(),
            server_databases: Seq::empty(),
            server_notes: Seq::empty(),
            server_pois: Seq::empty(),
            server_extra_users: Seq::empty(),
            server_websites: Seq::empty(),
        }
    }

    /// The identifiers of the projects, in table order.
    pub open spec fn project_ids(self) -> Seq<i32> {
        self.projects.map_values(|r: ProjectView| r.id)
    }

    /// The identifiers of the project points of interest, in table order.
    pub open spec fn project_poi_ids(self) -> Seq<i32> {
        self.project_pois.map_values(|r: ProjectPointOfInterestView| r.id)
    }

    /// The identifiers of the project notes, in table order.
    pub open spec fn project_note_ids(self) -> Seq<i32> {
        self.project_notes.map_values(|r: ProjectNoteView| r.id)
    }

    /// The identifiers of the server links, in table order.
    pub open spec fn server_link_ids(self) -> Seq<i32> {
        self.server_links.map_values(|r: ServerLinkView| r.id)
    }

    /// The identifiers of the servers, in table order.
    pub open spec fn server_ids(self) -> Seq<i32> {
        self.servers.map_values(|r: ServerView| r.id)
    }

    /// The identifiers of the server databases, in table order.
    pub open spec fn server_database_ids(self) -> Seq<i32> {
        self.server_databases.map_values(|r: ServerDatabaseView| r.id)
    }

    /// The identifiers of the server notes, in table order.
    pub open spec fn server_note_ids(self) -> Seq<i32> {
        self.server_notes.map_values(|r: ServerNoteView| r.id)
    }

    /// The identifiers of the server points of interest, in table order.
    pub open spec fn server_poi_ids(self) -> Seq<i32> {
        self.server_pois.map_values(|r: ServerPointOfInterestView| r.id)
    }

    /// The identifiers of the extra user accounts, in table order.
    pub open spec fn server_extra_user_ids(self) -> Seq<i32> {
        self.server_extra_users.map_values(|r: ServerExtraUserAccountView| r.id)
    }

    /// The identifiers of the server websites, in table order.
    pub open spec fn server_website_ids(self) -> Seq<i32> {
        self.server_websites.map_values(|r: ServerWebsiteView| r.id)
    }

    /// Every table's identifiers grow strictly, so none occurs twice.
    pub open spec fn wf(self) -> bool {
        &&& increasing(self.project_ids())
        &&& increasing(self.project_poi_ids())
        &&& increasing(self.project_note_ids())
        &&& increasing(self.server_link_ids())
        &&& increasing(self.server_ids())
        &&& increasing(self.server_database_ids())
        &&& increasing(self.server_note_ids())
        &&& increasing(self.server_poi_ids())
        &&& increasing(self.server_extra_user_ids())
        &&& increasing(self.server_website_ids())
    }

    /// The identifier that the next row of the table of projects gets.
    pub open spec fn next_project_id(self) -> Option<i32> {
        next_id(self.project_ids())
    }

    /// Storage after `row` was offered to the table of projects: the row
    /// stands last under the table's next identifier, or nothing changed
    /// where the table has none left.
    pub open spec fn add_project(self, row: ProjectView) -> StorageView {
        match self.next_project_id() {
            Some(id) => StorageView {
                projects: self.projects.push(ProjectView { id, ..row }),
                ..self
            },
            None => self,
        }
    }

    /// The identifier that the next row of the table of project points of interest gets.
    pub open spec fn next_project_poi_id(self) -> Option<i32> {
        next_id(self.project_poi_ids())
    }

    /// Storage after `row` was offered to the table of project points of interest: the row
    /// stands last under the table's next identifier, or nothing changed
    /// where the table has none left.
    pub open spec fn add_project_poi(self, row: ProjectPointOfInterestView) -> StorageView {
        match self.next_project_poi_id() {
            Some(id) => StorageView {
                project_pois: self.project_pois.push(ProjectPointOfInterestView { id, ..row }),
                ..self
            },
            None => self,
        }
    }

    /// The identifier that the next row of the table of project notes gets.
    pub open spec fn next_project_note_id(self) -> Option<i32> {
        next_id(self.project_note_ids())
    }

    /// Storage after `row` was offered to the table of project notes: the row
    /// stands last under the table's next identifier, or nothing changed
    /// where the table has none left.
    pub open spec fn add_project_note(self, row: ProjectNoteView) -> StorageView {
        match self.next_project_note_id() {
            Some(id) => StorageView {
                project_notes: self.project_notes.push(ProjectNoteView { id, ..row }),
                ..self
            },
            None => self,
        }
    }

    /// The identifier that the next row of the table of server links gets.
    pub open spec fn next_server_link_id(self) -> Option<i32> {
        next_id(self.server_link_ids())
    }

    /// Storage after `row` was offered to the table of server links: the row
    /// stands last under the table's next identifier, or nothing changed
    /// where the table has none left.
    pub open spec fn add_server_link(self, row: ServerLinkView) -> StorageView {
        match self.next_server_link_id() {
            Some(id) => StorageView {
                server_links: self.server_links.push(ServerLinkView { id, ..row }),
                ..self
            },
            None => self,
        }
    }

    /// The identifier that the next row of the table of servers gets.
    pub open spec fn next_server_id(self) -> Option<i32> {
        next_id(self.server_ids())
    }

    /// Storage after `row` was offered to the table of servers: the row
    /// stands last under the table's next identifier, or nothing changed
    /// where the table has none left.
    pub open spec fn add_server(self, row: ServerView) -> StorageView {
        match self.next_server_id() {
            Some(id) => StorageView {
                servers: self.servers.push(ServerView { id, ..row }),
                ..self
            },
            None => self,
        }
    }

    /// The identifier that the next row of the table of server databases gets.
    pub open spec fn next_server_database_id(self) -> Option<i32> {
        next_id(self.server_database_ids())
    }

    /// Storage after `row` was offered to the table of server databases: the row
    /// stands last under the table's next identifier, or nothing changed
    /// where the table has none left.
    pub open spec fn add_server_database(self, row: ServerDatabaseView) -> StorageView {
        match self.next_server_database_id() {
            Some(id) => StorageView {
                server_databases: self.server_databases.push(ServerDatabaseView { id, ..row }),
                ..self
            },
            None => self,
        }
    }

    /// The identifier that the next row of the table of server notes gets.
    pub open spec fn next_server_note_id(self) -> Option<i32> {
        next_id(self.server_note_ids())
    }

    /// Storage after `row` was offered to the table of server notes: the row
    /// stands last under the table's next identifier, or nothing changed
    /// where the table has none left.
    pub open spec fn add_server_note(self, row: ServerNoteView) -> StorageView {
        match self.next_server_note_id() {
            Some(id) => StorageView {
                server_notes: self.server_notes.push(ServerNoteView { id, ..row }),
                ..self
            },
            None => self,
        }
    }

    /// The identifier that the next row of the table of server points of interest gets.
    pub open spec fn next_server_poi_id(self) -> Option<i32> {
        next_id(self.server_poi_ids())
    }

    /// Storage after `row` was offered to the table of server points of interest: the row
    /// stands last under the table's next identifier, or nothing changed
    /// where the table has none left.
    pub open spec fn add_server_poi(self, row: ServerPointOfInterestView) -> StorageView {
        match self.next_server_poi_id() {
            Some(id) => StorageView {
                server_pois: self.server_pois.push(ServerPointOfInterestView { id, ..row }),
                ..self
            },
            None => self,
        }
    }

    /// The identifier that the next row of the table of extra user accounts gets.
    pub open spec fn next_server_extra_user_id(self) -> Option<i32> {
        next_id(self.server_extra_user_ids())
    }

    /// Storage after `row` was offered to the table of extra user accounts: the row
    /// stands last under the table's next identifier, or nothing changed
    /// where the table has none left.
    pub open spec fn add_server_extra_user(self, row: ServerExtraUserAccountView) -> StorageView {
        match self.next_server_extra_user_id() {
            Some(id) => StorageView {
                server_extra_users: self.server_extra_users.push(ServerExtraUserAccountView { id, ..row }),
                ..self
            },
            None => self,
        }
    }

    /// The identifier that the next row of the table of server websites gets.
    pub open spec fn next_server_website_id(self) -> Option<i32> {
        next_id(self.server_website_ids())
    }

    /// Storage after `row` was offered to the table of server websites: the row
    /// stands last under the table's next identifier, or nothing changed
    /// where the table has none left.
    pub open spec fn add_server_website(self, row: ServerWebsiteView) -> StorageView {
        match self.next_server_website_id() {
            Some(id) => StorageView {
                server_websites: self.server_websites.push(ServerWebsiteView { id, ..row }),
                ..self
            },
            None => self,
        }
    }

}

/// The note, marked present in `env` as well.
pub open spec fn present_in(note: ProjectNoteView, env: EnvironmentType) -> ProjectNoteView {
    match env {
        EnvironmentType::EnvDevelopment => ProjectNoteView { has_dev: true, ..note },
        EnvironmentType::EnvStage => ProjectNoteView { has_stage: true, ..note },
        EnvironmentType::EnvUat => ProjectNoteView { has_uat: true, ..note },
        EnvironmentType::EnvProd => ProjectNoteView { has_prod: true, ..note },
    }
}

impl StorageView {
    /// Storage after every project note with the identifier `note_id` was
    /// marked present in `env`; all other rows are as they were.
    pub open spec fn mark_project_note(self, note_id: i32, env: EnvironmentType) -> StorageView {
        StorageView {
            project_notes: Seq::new(
                self.project_notes.len(),
                |i: int|
                    if self.project_notes[i].id == note_id {
                        present_in(self.project_notes[i], env)
                    } else {
                        self.project_notes[i]
                    },
            ),
            ..self
        }
    }
}

/// A table that grows by a row under its next identifier keeps growing
/// identifiers.
pub proof fn lemma_push_next_increasing(ids: Seq<i32>, id: i32)
    requires
        increasing(ids),
        next_id(ids) == Some(id),
    ensures
        increasing(ids.push(id)),
{
    assert forall|i: int, j: int| 0 <= i < j < ids.push(id).len() implies ids.push(id)[i]
        < ids.push(id)[j] by {
        if j == ids.len() {
            assert(ids[i] <= ids.last());
        }
    }
}

/// The vault's storage.
pub struct Storage {
    projects: Vec<Project>,
    project_pois: Vec<ProjectPointOfInterest>,
    project_notes: Vec<ProjectNote>,
    server_links: Vec<ServerLink>,
    servers: Vec<Server>,
    server_databases: Vec<ServerDatabase>,
    server_notes: Vec<ServerNote>,
    server_pois: Vec<ServerPointOfInterest>,
    server_extra_users: Vec<ServerExtraUserAccount>,
    server_websites: Vec<ServerWebsite>,
}

impl View for Storage {
    type V = StorageView;

    closed spec fn view(&self) -> StorageView {
        StorageView {
            projects: views(self.projects@),
            project_pois: views(self.project_pois@),
            project_notes: views(self.project_notes@),
            server_links: views(self.server_links@),
            servers: views(self.servers@),
            server_databases: views(self.server_databases@),
            server_notes: views(self.server_notes@),
            server_pois: views(self.server_pois@),
            server_extra_users: views(self.server_extra_users@),
            server_websites: views(self.server_websites@),
        }
    }
}

impl Storage {
    /// Storage without any row.
    pub fn new() -> (s: Storage)
        ensures
            s@ == StorageView::empty(),
            s@.wf(),
    {
        let s = Storage {
            projects: Vec::new(),
            project_pois: Vec::new(),
            project_notes: Vec::new(),
            server_links: Vec::new(),
            servers: Vec::new(),
            server_databases: Vec::new(),
            server_notes: Vec::new(),
            server_pois: Vec::new(),
            server_extra_users: Vec::new(),
            server_websites: Vec::new(),
        };
        assert(s@.projects =~= Seq::empty());
        assert(s@.project_pois =~= Seq::empty());
        assert(s@.project_notes =~= Seq::empty());
        assert(s@.server_links =~= Seq::empty());
        assert(s@.servers =~= Seq::empty());
        assert(s@.server_databases =~= Seq::empty());
        assert(s@.server_notes =~= Seq::empty());
        assert(s@.server_pois =~= Seq::empty());
        assert(s@.server_extra_users =~= Seq::empty());
        assert(s@.server_websites =~= Seq::empty());
        s
    }

    /// The table of projects, in insertion order.
    pub fn projects(&self) -> (rows: &Vec<Project>)
        ensures
            views(rows@) == self@.projects,
    {
        &self.projects
    }

    /// The table of project points of interest, in insertion order.
    pub fn project_pois(&self) -> (rows: &Vec<ProjectPointOfInterest>)
        ensures
            views(rows@) == self@.project_pois,
    {
        &self.project_pois
    }

    /// The table of project notes, in insertion order.
    pub fn project_notes(&self) -> (rows: &Vec<ProjectNote>)
        ensures
            views(rows@) == self@.project_notes,
    {
        &self.project_notes
    }

    /// The table of server links, in insertion order.
    pub fn server_links(&self) -> (rows: &Vec<ServerLink>)
        ensures
            views(rows@) == self@.server_links,
    {
        &self.server_links
    }

    /// The table of servers, in insertion order.
    pub fn servers(&self) -> (rows: &Vec<Server>)
        ensures
            views(rows@) == self@.servers,
    {
        &self.servers
    }

    /// The table of server databases, in insertion order.
    pub fn server_databases(&self) -> (rows: &Vec<ServerDatabase>)
        ensures
            views(rows@) == self@.server_databases,
    {
        &self.server_databases
    }

    /// The table of server notes, in insertion order.
    pub fn server_notes(&self) -> (rows: &Vec<ServerNote>)
        ensures
            views(rows@) == self@.server_notes,
    {
        &self.server_notes
    }

    /// The table of server points of interest, in insertion order.
    pub fn server_pois(&self) -> (rows: &Vec<ServerPointOfInterest>)
        ensures
            views(rows@) == self@.server_pois,
    {
        &self.server_pois
    }

    /// The table of extra user accounts, in insertion order.
    pub fn server_extra_users(&self) -> (rows: &Vec<ServerExtraUserAccount>)
        ensures
            views(rows@) == self@.server_extra_users,
    {
        &self.server_extra_users
    }

    /// The table of server websites, in insertion order.
    pub fn server_websites(&self) -> (rows: &Vec<ServerWebsite>)
        ensures
            views(rows@) == self@.server_websites,
    {
        &self.server_websites
    }

    /// Inserts `row` into the table of projects under the table's next
    /// identifier, whatever identifier `row` came with, and returns that
    /// identifier. Fails, leaving storage as it was, when the table has no
    /// identifier left.
    pub fn insert_project(&mut self, row: Project) -> (r: Result<i32, StorageError>)
        ensures
            r == inserted(old(self)@.next_project_id()),
            final(self)@ == old(self)@.add_project(row@),
            old(self)@.wf() ==> final(self)@.wf(),
    {
        let n = self.projects.len();
        let ghost ids = self@.project_ids();
        let id: i32 = if n == 0 {
            1
        } else {
            let last = self.projects[n - 1].id;
            if last == i32::MAX {
                return Err(StorageError::IdentifiersExhausted);
            }
            last + 1
        };
        let mut row = row;
        row.id = id;
        self.projects.push(row);
        proof {
            if old(self)@.wf() {
                lemma_push_next_increasing(ids, id);
            }
            assert(self@.projects =~= old(self)@.projects.push(row@));
            assert(self@.project_ids() =~= ids.push(id));
        }
        Ok(id)
    }

    /// Inserts `row` into the table of project points of interest under the table's next
    /// identifier, whatever identifier `row` came with, and returns that
    /// identifier. Fails, leaving storage as it was, when the table has no
    /// identifier left.
    pub fn insert_project_poi(&mut self, row: ProjectPointOfInterest) -> (r: Result<i32, StorageError>)
        ensures
            r == inserted(old(self)@.next_project_poi_id()),
            final(self)@ == old(self)@.add_project_poi(row@),
            old(self)@.wf() ==> final(self)@.wf(),
    {
        let n = self.project_pois.len();
        let ghost ids = self@.project_poi_ids();
        let id: i32 = if n == 0 {
            1
        } else {
            let last = self.project_pois[n - 1].id;
            if last == i32::MAX {
                return Err(StorageError::IdentifiersExhausted);
            }
            last + 1
        };
        let mut row = row;
        row.id = id;
        self.project_pois.push(row);
        proof {
            if old(self)@.wf() {
                lemma_push_next_increasing(ids, id);
            }
            assert(self@.project_pois =~= old(self)@.project_pois.push(row@));
            assert(self@.project_poi_ids() =~= ids.push(id));
        }
        Ok(id)
    }

    /// Inserts `row` into the table of project notes under the table's next
    /// identifier, whatever identifier `row` came with, and returns that
    /// identifier. Fails, leaving storage as it was, when the table has no
    /// identifier left.
    pub fn insert_project_note(&mut self, row: ProjectNote) -> (r: Result<i32, StorageError>)
        ensures
            r == inserted(old(self)@.next_project_note_id()),
            final(self)@ == old(self)@.add_project_note(row@),
            old(self)@.wf() ==> final(self)@.wf(),
    {
        let n = self.project_notes.len();
        let ghost ids = self@.project_note_ids();
        let id: i32 = if n == 0 {
            1
        } else {
            let last = self.project_notes[n - 1].id;
            if last == i32::MAX {
                return Err(StorageError::IdentifiersExhausted);
            }
            last + 1
        };
        let mut row = row;
        row.id = id;
        self.project_notes.push(row);
        proof {
            if old(self)@.wf() {
                lemma_push_next_increasing(ids, id);
            }
            assert(self@.project_notes =~= old(self)@.project_notes.push(row@));
            assert(self@.project_note_ids() =~= ids.push(id));
        }
        Ok(id)
    }

    /// Inserts `row` into the table of server links under the table's next
    /// identifier, whatever identifier `row` came with, and returns that
    /// identifier. Fails, leaving storage as it was, when the table has no
    /// identifier left.
    pub fn insert_server_link(&mut self, row: ServerLink) -> (r: Result<i32, StorageError>)
        ensures
            r == inserted(old(self)@.next_server_link_id()),
            final(self)@ == old(self)@.add_server_link(row@),
            old(self)@.wf() ==> final(self)@.wf(),
    {
        let n = self.server_links.len();
        let ghost ids = self@.server_link_ids();
        let id: i32 = if n == 0 {
            1
        } else {
            let last = self.server_links[n - 1].id;
            if last == i32::MAX {
                return Err(StorageError::IdentifiersExhausted);
            }
            last + 1
        };
        let mut row = row;
        row.id = id;
        self.server_links.push(row);
        proof {
            if old(self)@.wf() {
                lemma_push_next_increasing(ids, id);
            }
            assert(self@.server_links =~= old(self)@.server_links.push(row@));
            assert(self@.server_link_ids() =~= ids.push(id));
        }
        Ok(id)
    }

    /// Inserts `row` into the table of servers under the table's next
    /// identifier, whatever identifier `row` came with, and returns that
    /// identifier. Fails, leaving storage as it was, when the table has no
    /// identifier left.
    pub fn insert_server(&mut self, row: Server) -> (r: Result<i32, StorageError>)
        ensures
            r == inserted(old(self)@.next_server_id()),
            final(self)@ == old(self)@.add_server(row@),
            old(self)@.wf() ==> final(self)@.wf(),
    {
        let n = self.servers.len();
        let ghost ids = self@.server_ids();
        let id: i32 = if n == 0 {
            1
        } else {
            let last = self.servers[n - 1].id;
            if last == i32::MAX {
                return Err(StorageError::IdentifiersExhausted);
            }
            last + 1
        };
        let mut row = row;
        row.id = id;
        self.servers.push(row);
        proof {
            if old(self)@.wf() {
                lemma_push_next_increasing(ids, id);
            }
            assert(self@.servers =~= old(self)@.servers.push(row@));
            assert(self@.server_ids() =~= ids.push(id));
        }
        Ok(id)
    }

    /// Inserts `row` into the table of server databases under the table's next
    /// identifier, whatever identifier `row` came with, and returns that
    /// identifier. Fails, leaving storage as it was, when the table has no
    /// identifier left.
    pub fn insert_server_database(&mut self, row: ServerDatabase) -> (r: Result<i32, StorageError>)
        ensures
            r == inserted(old(self)@.next_server_database_id()),
            final(self)@ == old(self)@.add_server_database(row@),
            old(self)@.wf() ==> final(self)@.wf(),
    {
        let n = self.server_databases.len();
        let ghost ids = self@.server_database_ids();
        let id: i32 = if n == 0 {
            1
        } else {
            let last = self.server_databases[n - 1].id;
            if last == i32::MAX {
                return Err(StorageError::IdentifiersExhausted);
            }
            last + 1
        };
        let mut row = row;
        row.id = id;
        self.server_databases.push(row);
        proof {
            if old(self)@.wf() {
                lemma_push_next_increasing(ids, id);
            }
            assert(self@.server_databases =~= old(self)@.server_databases.push(row@));
            assert(self@.server_database_ids() =~= ids.push(id));
        }
        Ok(id)
    }

    /// Inserts `row` into the table of server notes under the table's next
    /// identifier, whatever identifier `row` came with, and returns that
    /// identifier. Fails, leaving storage as it was, when the table has no
    /// identifier left.
    pub fn insert_server_note(&mut self, row: ServerNote) -> (r: Result<i32, StorageError>)
        ensures
            r == inserted(old(self)@.next_server_note_id()),
            final(self)@ == old(self)@.add_server_note(row@),
            old(self)@.wf() ==> final(self)@.wf(),
    {
        let n = self.server_notes.len();
        let ghost ids = self@.server_note_ids();
        let id: i32 = if n == 0 {
            1
        } else {
            let last = self.server_notes[n - 1].id;
            if last == i32::MAX {
                return Err(StorageError::IdentifiersExhausted);
            }
            last + 1
        };
        let mut row = row;
        row.id = id;
        self.server_notes.push(row);
        proof {
            if old(self)@.wf() {
                lemma_push_next_increasing(ids, id);
            }
            assert(self@.server_notes =~= old(self)@.server_notes.push(row@));
            assert(self@.server_note_ids() =~= ids.push(id));
        }
        Ok(id)
    }

    /// Inserts `row` into the table of server points of interest under the table's next
    /// identifier, whatever identifier `row` came with, and returns that
    /// identifier. Fails, leaving storage as it was, when the table has no
    /// identifier left.
    pub fn insert_server_poi(&mut self, row: ServerPointOfInterest) -> (r: Result<i32, StorageError>)
        ensures
            r == inserted(old(self)@.next_server_poi_id()),
            final(self)@ == old(self)@.add_server_poi(row@),
            old(self)@.wf() ==> final(self)@.wf(),
    {
        let n = self.server_pois.len();
        let ghost ids = self@.server_poi_ids();
        let id: i32 = if n == 0 {
            1
        } else {
            let last = self.server_pois[n - 1].id;
            if last == i32::MAX {
                return Err(StorageError::IdentifiersExhausted);
            }
            last + 1
        };
        let mut row = row;
        row.id = id;
        self.server_pois.push(row);
        proof {
            if old(self)@.wf() {
                lemma_push_next_increasing(ids, id);
            }
            assert(self@.server_pois =~= old(self)@.server_pois.push(row@));
            assert(self@.server_poi_ids() =~= ids.push(id));
        }
        Ok(id)
    }

    /// Inserts `row` into the table of extra user accounts under the table's next
    /// identifier, whatever identifier `row` came with, and returns that
    /// identifier. Fails, leaving storage as it was, when the table has no
    /// identifier left.
    pub fn insert_server_extra_user(&mut self, row: ServerExtraUserAccount) -> (r: Result<i32, StorageError>)
        ensures
            r == inserted(old(self)@.next_server_extra_user_id()),
            final(self)@ == old(self)@.add_server_extra_user(row@),
            old(self)@.wf() ==> final(self)@.wf(),
    {
        let n = self.server_extra_users.len();
        let ghost ids = self@.server_extra_user_ids();
        let id: i32 = if n == 0 {
            1
        } else {
            let last = self.server_extra_users[n - 1].id;
            if last == i32::MAX {
                return Err(StorageError::IdentifiersExhausted);
            }
            last + 1
        };
        let mut row = row;
        row.id = id;
        self.server_extra_users.push(row);
        proof {
            if old(self)@.wf() {
                lemma_push_next_increasing(ids, id);
            }
            assert(self@.server_extra_users =~= old(self)@.server_extra_users.push(row@));
            assert(self@.server_extra_user_ids() =~= ids.push(id));
        }
        Ok(id)
    }

    /// Inserts `row` into the table of server websites under the table's next
    /// identifier, whatever identifier `row` came with, and returns that
    /// identifier. Fails, leaving storage as it was, when the table has no
    /// identifier left.
    pub fn insert_server_website(&mut self, row: ServerWebsite) -> (r: Result<i32, StorageError>)
        ensures
            r == inserted(old(self)@.next_server_website_id()),
            final(self)@ == old(self)@.add_server_website(row@),
            old(self)@.wf() ==> final(self)@.wf(),
    {
        let n = self.server_websites.len();
        let ghost ids = self@.server_website_ids();
        let id: i32 = if n == 0 {
            1
        } else {
            let last = self.server_websites[n - 1].id;
            if last == i32::MAX {
                return Err(StorageError::IdentifiersExhausted);
            }
            last + 1
        };
        let mut row = row;
        row.id = id;
        self.server_websites.push(row);
        proof {
            if old(self)@.wf() {
                lemma_push_next_increasing(ids, id);
            }
            assert(self@.server_websites =~= old(self)@.server_websites.push(row@));
            assert(self@.server_website_ids() =~= ids.push(id));
        }
        Ok(id)
    }

    /// Puts back a row of the table of projects under the identifier it
    /// carries. The row is taken, and stands last, where its identifier is
    /// larger than every identifier of the table; otherwise storage stays
    /// as it was.
    pub fn restore_project(&mut self, row: Project) -> (taken: bool)
        ensures
            taken == (old(self)@.projects.len() == 0 || old(self)@.projects.last().id < row.id),
            taken ==> final(self)@ == (StorageView {
                projects: old(self)@.projects.push(row@),
                ..old(self)@
            }),
            !taken ==> final(self)@ == old(self)@,
            old(self)@.wf() ==> final(self)@.wf(),
    {
        let n = self.projects.len();
        let ghost ids = self@.project_ids();
        if n > 0 && self.projects[n - 1].id >= row.id {
            return false;
        }
        let ghost id = row.id;
        self.projects.push(row);
        proof {
            assert(self@.projects =~= old(self)@.projects.push(row@));
            assert(self@.project_ids() =~= ids.push(id));
            if old(self)@.wf() {
                assert forall|i: int, j: int| 0 <= i < j < ids.push(id).len() implies ids.push(
                    id,
                )[i] < ids.push(id)[j] by {
                    if j == ids.len() {
                        assert(ids[i] <= ids.last());
                    }
                }
            }
        }
        true
    }

    /// Puts back a row of the table of project points of interest under the identifier it
    /// carries. The row is taken, and stands last, where its identifier is
    /// larger than every identifier of the table; otherwise storage stays
    /// as it was.
    pub fn restore_project_poi(&mut self, row: ProjectPointOfInterest) -> (taken: bool)
        ensures
            taken == (old(self)@.project_pois.len() == 0
                || old(self)@.project_pois.last().id < row.id),
            taken ==> final(self)@ == (StorageView {
                project_pois: old(self)@.project_pois.push(row@),
                ..old(self)@
            }),
            !taken ==> final(self)@ == old(self)@,
            old(self)@.wf() ==> final(self)@.wf(),
    {
        let n = self.project_pois.len();
        let ghost ids = self@.project_poi_ids();
        if n > 0 && self.project_pois[n - 1].id >= row.id {
            return false;
        }
        let ghost id = row.id;
        self.project_pois.push(row);
        proof {
            assert(self@.project_pois =~= old(self)@.project_pois.push(row@));
            assert(self@.project_poi_ids() =~= ids.push(id));
            if old(self)@.wf() {
                assert forall|i: int, j: int| 0 <= i < j < ids.push(id).len() implies ids.push(
                    id,
                )[i] < ids.push(id)[j] by {
                    if j == ids.len() {
                        assert(ids[i] <= ids.last());
                    }
                }
            }
        }
        true
    }

    /// Puts back a row of the table of project notes under the identifier it
    /// carries. The row is taken, and stands last, where its identifier is
    /// larger than every identifier of the table; otherwise storage stays
    /// as it was.
    pub fn restore_project_note(&mut self, row: ProjectNote) -> (taken: bool)
        ensures
            taken == (old(self)@.project_notes.len() == 0
                || old(self)@.project_notes.last().id < row.id),
            taken ==> final(self)@ == (StorageView {
                project_notes: old(self)@.project_notes.push(row@),
                ..old(self)@
            }),
            !taken ==> final(self)@ == old(self)@,
            old(self)@.wf() ==> final(self)@.wf(),
    {
        let n = self.project_notes.len();
        let ghost ids = self@.project_note_ids();
        if n > 0 && self.project_notes[n - 1].id >= row.id {
            return false;
        }
        let ghost id = row.id;
        self.project_notes.push(row);
        proof {
            assert(self@.project_notes =~= old(self)@.project_notes.push(row@));
            assert(self@.project_note_ids() =~= ids.push(id));
            if old(self)@.wf() {
                assert forall|i: int, j: int| 0 <= i < j < ids.push(id).len() implies ids.push(
                    id,
                )[i] < ids.push(id)[j] by {
                    if j == ids.len() {
                        assert(ids[i] <= ids.last());
                    }
                }
            }
        }
        true
    }

    /// Puts back a row of the table of server links under the identifier it
    /// carries. The row is taken, and stands last, where its identifier is
    /// larger than every identifier of the table; otherwise storage stays
    /// as it was.
    pub fn restore_server_link(&mut self, row: ServerLink) -> (taken: bool)
        ensures
            taken == (old(self)@.server_links.len() == 0
                || old(self)@.server_links.last().id < row.id),
            taken ==> final(self)@ == (StorageView {
                server_links: old(self)@.server_links.push(row@),
                ..old(self)@
            }),
            !taken ==> final(self)@ == old(self)@,
            old(self)@.wf() ==> final(self)@.wf(),
    {
        let n = self.server_links.len();
        let ghost ids = self@.server_link_ids();
        if n > 0 && self.server_links[n - 1].id >= row.id {
            return false;
        }
        let ghost id = row.id;
        self.server_links.push(row);
        proof {
            assert(self@.server_links =~= old(self)@.server_links.push(row@));
            assert(self@.server_link_ids() =~= ids.push(id));
            if old(self)@.wf() {
                assert forall|i: int, j: int| 0 <= i < j < ids.push(id).len() implies ids.push(
                    id,
                )[i] < ids.push(id)[j] by {
                    if j == ids.len() {
                        assert(ids[i] <= ids.last());
                    }
                }
            }
        }
        true
    }

    /// Puts back a row of the table of servers under the identifier it
    /// carries. The row is taken, and stands last, where its identifier is
    /// larger than every identifier of the table; otherwise storage stays
    /// as it was.
    pub fn restore_server(&mut self, row: Server) -> (taken: bool)
        ensures
            taken == (old(self)@.servers.len() == 0 || old(self)@.servers.last().id < row.id),
            taken ==> final(self)@ == (StorageView {
                servers: old(self)@.servers.push(row@),
                ..old(self)@
            }),
            !taken ==> final(self)@ == old(self)@,
            old(self)@.wf() ==> final(self)@.wf(),
    {
        let n = self.servers.len();
        let ghost ids = self@.server_ids();
        if n > 0 && self.servers[n - 1].id >= row.id {
            return false;
        }
        let ghost id = row.id;
        self.servers.push(row);
        proof {
            assert(self@.servers =~= old(self)@.servers.push(row@));
            assert(self@.server_ids() =~= ids.push(id));
            if old(self)@.wf() {
                assert forall|i: int, j: int| 0 <= i < j < ids.push(id).len() implies ids.push(
                    id,
                )[i] < ids.push(id)[j] by {
                    if j == ids.len() {
                        assert(ids[i] <= ids.last());
                    }
                }
            }
        }
        true
    }

    /// Puts back a row of the table of server databases under the identifier it
    /// carries. The row is taken, and stands last, where its identifier is
    /// larger than every identifier of the table; otherwise storage stays
    /// as it was.
    pub fn restore_server_database(&mut self, row: ServerDatabase) -> (taken: bool)
        ensures
            taken == (old(self)@.server_databases.len() == 0
                || old(self)@.server_databases.last().id < row.id),
            taken ==> final(self)@ == (StorageView {
                server_databases: old(self)@.server_databases.push(row@),
                ..old(self)@
            }),
            !taken ==> final(self)@ == old(self)@,
            old(self)@.wf() ==> final(self)@.wf(),
    {
        let n = self.server_databases.len();
        let ghost ids = self@.server_database_ids();
        if n > 0 && self.server_databases[n - 1].id >= row.id {
            return false;
        }
        let ghost id = row.id;
        self.server_databases.push(row);
        proof {
            assert(self@.server_databases =~= old(self)@.server_databases.push(row@));
            assert(self@.server_database_ids() =~= ids.push(id));
            if old(self)@.wf() {
                assert forall|i: int, j: int| 0 <= i < j < ids.push(id).len() implies ids.push(
                    id,
                )[i] < ids.push(id)[j] by {
                    if j == ids.len() {
                        assert(ids[i] <= ids.last());
                    }
                }
            }
        }
        true
    }

    /// Puts back a row of the table of server notes under the identifier it
    /// carries. The row is taken, and stands last, where its identifier is
    /// larger than every identifier of the table; otherwise storage stays
    /// as it was.
    pub fn restore_server_note(&mut self, row: ServerNote) -> (taken: bool)
        ensures
            taken == (old(self)@.server_notes.len() == 0
                || old(self)@.server_notes.last().id < row.id),
            taken ==> final(self)@ == (StorageView {
                server_notes: old(self)@.server_notes.push(row@),
                ..old(self)@
            }),
            !taken ==> final(self)@ == old(self)@,
            old(self)@.wf() ==> final(self)@.wf(),
    {
        let n = self.server_notes.len();
        let ghost ids = self@.server_note_ids();
        if n > 0 && self.server_notes[n - 1].id >= row.id {
            return false;
        }
        let ghost id = row.id;
        self.server_notes.push(row);
        proof {
            assert(self@.server_notes =~= old(self)@.server_notes.push(row@));
            assert(self@.server_note_ids() =~= ids.push(id));
            if old(self)@.wf() {
                assert forall|i: int, j: int| 0 <= i < j < ids.push(id).len() implies ids.push(
                    id,
                )[i] < ids.push(id)[j] by {
                    if j == ids.len() {
                        assert(ids[i] <= ids.last());
                    }
                }
            }
        }
        true
    }

    /// Puts back a row of the table of server points of interest under the identifier it
    /// carries. The row is taken, and stands last, where its identifier is
    /// larger than every identifier of the table; otherwise storage stays
    /// as it was.
    pub fn restore_server_poi(&mut self, row: ServerPointOfInterest) -> (taken: bool)
        ensures
            taken == (old(self)@.server_pois.len() == 0
                || old(self)@.server_pois.last().id < row.id),
            taken ==> final(self)@ == (StorageView {
                server_pois: old(self)@.server_pois.push(row@),
                ..old(self)@
            }),
            !taken ==> final(self)@ == old(self)@,
            old(self)@.wf() ==> final(self)@.wf(),
    {
        let n = self.server_pois.len();
        let ghost ids = self@.server_poi_ids();
        if n > 0 && self.server_pois[n - 1].id >= row.id {
            return false;
        }
        let ghost id = row.id;
        self.server_pois.push(row);
        proof {
            assert(self@.server_pois =~= old(self)@.server_pois.push(row@));
            assert(self@.server_poi_ids() =~= ids.push(id));
            if old(self)@.wf() {
                assert forall|i: int, j: int| 0 <= i < j < ids.push(id).len() implies ids.push(
                    id,
                )[i] < ids.push(id)[j] by {
                    if j == ids.len() {
                        assert(ids[i] <= ids.last());
                    }
                }
            }
        }
        true
    }

    /// Puts back a row of the table of extra user accounts under the identifier it
    /// carries. The row is taken, and stands last, where its identifier is
    /// larger than every identifier of the table; otherwise storage stays
    /// as it was.
    pub fn restore_server_extra_user(&mut self, row: ServerExtraUserAccount) -> (taken: bool)
        ensures
            taken == (old(self)@.server_extra_users.len() == 0
                || old(self)@.server_extra_users.last().id < row.id),
            taken ==> final(self)@ == (StorageView {
                server_extra_users: old(self)@.server_extra_users.push(row@),
                ..old(self)@
            }),
            !taken ==> final(self)@ == old(self)@,
            old(self)@.wf() ==> final(self)@.wf(),
    {
        let n = self.server_extra_users.len();
        let ghost ids = self@.server_extra_user_ids();
        if n > 0 && self.server_extra_users[n - 1].id >= row.id {
            return false;
        }
        let ghost id = row.id;
        self.server_extra_users.push(row);
        proof {
            assert(self@.server_extra_users =~= old(self)@.server_extra_users.push(row@));
            assert(self@.server_extra_user_ids() =~= ids.push(id));
            if old(self)@.wf() {
                assert forall|i: int, j: int| 0 <= i < j < ids.push(id).len() implies ids.push(
                    id,
                )[i] < ids.push(id)[j] by {
                    if j == ids.len() {
                        assert(ids[i] <= ids.last());
                    }
                }
            }
        }
        true
    }

    /// Puts back a row of the table of server websites under the identifier it
    /// carries. The row is taken, and stands last, where its identifier is
    /// larger than every identifier of the table; otherwise storage stays
    /// as it was.
    pub fn restore_server_website(&mut self, row: ServerWebsite) -> (taken: bool)
        ensures
            taken == (old(self)@.server_websites.len() == 0
                || old(self)@.server_websites.last().id < row.id),
            taken ==> final(self)@ == (StorageView {
                server_websites: old(self)@.server_websites.push(row@),
                ..old(self)@
            }),
            !taken ==> final(self)@ == old(self)@,
            old(self)@.wf() ==> final(self)@.wf(),
    {
        let n = self.server_websites.len();
        let ghost ids = self@.server_website_ids();
        if n > 0 && self.server_websites[n - 1].id >= row.id {
            return false;
        }
        let ghost id = row.id;
        self.server_websites.push(row);
        proof {
            assert(self@.server_websites =~= old(self)@.server_websites.push(row@));
            assert(self@.server_website_ids() =~= ids.push(id));
            if old(self)@.wf() {
                assert forall|i: int, j: int| 0 <= i < j < ids.push(id).len() implies ids.push(
                    id,
                )[i] < ids.push(id)[j] by {
                    if j == ids.len() {
                        assert(ids[i] <= ids.last());
                    }
                }
            }
        }
        true
    }

    /// Marks every project note with the identifier `note_id` as present in
    /// `env` too, and leaves every other row as it was.
    pub fn mark_project_note(&mut self, note_id: i32, env: EnvironmentType)
        ensures
            final(self)@ == old(self)@.mark_project_note(note_id, env),
            old(self)@.wf() ==> final(self)@.wf(),
    {
        let n = self.project_notes.len();
        let mut i: usize = 0;
        while i < n
            invariant
                i <= n,
                n == self.project_notes.len(),
                n == old(self)@.project_notes.len(),
                forall|k: int|
                    0 <= k < i ==> (#[trigger] self@.project_notes[k])
                        == old(self)@.mark_project_note(note_id, env).project_notes[k],
                forall|k: int|
                    i <= k < n ==> (#[trigger] self@.project_notes[k]) == old(self)@.project_notes[k],
                self@.projects == old(self)@.projects,
                self@.project_pois == old(self)@.project_pois,
                self@.server_links == old(self)@.server_links,
                self@.servers == old(self)@.servers,
                self@.server_databases == old(self)@.server_databases,
                self@.server_notes == old(self)@.server_notes,
                self@.server_pois == old(self)@.server_pois,
                self@.server_extra_users == old(self)@.server_extra_users,
                self@.server_websites == old(self)@.server_websites,
            decreases n - i,
        {
            let ghost before = self.project_notes@;
            assert(self@.project_notes[i as int] == before[i as int]@);
            if self.project_notes[i].id == note_id {
                match env {
                    EnvironmentType::EnvDevelopment => {
                        self.project_notes[i].has_dev = true;
                    },
                    EnvironmentType::EnvStage => {
                        self.project_notes[i].has_stage = true;
                    },
                    EnvironmentType::EnvUat => {
                        self.project_notes[i].has_uat = true;
                    },
                    EnvironmentType::EnvProd => {
                        self.project_notes[i].has_prod = true;
                    },
                }
            }
            proof {
                assert(self.project_notes@.len() == before.len());
                assert(forall|k: int| 0 <= k < n && k != i ==> self.project_notes@[k] == before[k]);
                assert forall|k: int| 0 <= k < n && k != i implies #[trigger] self@.project_notes[k]
                    == views(before)[k] by {
                    assert(self.project_notes@[k] == before[k]);
                }
            }
            i += 1;
        }
        proof {
            assert(
                self@.project_notes =~= old(self)@.mark_project_note(note_id, env).project_notes
            );
            assert(self@.project_note_ids() =~= old(self)@.project_note_ids());
        }
    }
}

} // verus!
