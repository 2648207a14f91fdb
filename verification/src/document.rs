//! The document model: one project as a tree of plain values, nested by
//! environment, then by group, then by kind of item.

use vstd::prelude::*;
use crate::rows::{Server, ServerDatabase, ServerDatabaseView, ServerView};
use crate::types::{
    clone_opt_string, named_views, opt_bytes, opt_text, opt_view, views, EnvironmentType,
    InterestType, RunOn,
};

verus! {

/// A server in a document. Of the row it wraps, the id, the group, the
/// environment and the owning project are not read when the document is
/// replayed: they follow from where the server stands in the document.
#[derive(Debug, PartialEq, Eq)]
pub struct ServerImportExport(pub Server);

impl View for ServerImportExport {
    type V = ServerView;

    open spec fn view(&self) -> ServerView {
        self.0@
    }
}

/// A database of a server in a document. Of the row it wraps, the id, the
/// group and the owning server are not read when the document is replayed.
#[derive(Debug, PartialEq, Eq)]
pub struct ServerDatabaseImportExport(pub ServerDatabase);

impl View for ServerDatabaseImportExport {
    type V = ServerDatabaseView;

    open spec fn view(&self) -> ServerDatabaseView {
        self.0@
    }
}

/// A reference to a server: a direct id, or the project name, environment and
/// description that designate it.
#[derive(Debug, PartialEq, Eq)]
pub struct ServerPath {
    pub server_id: Option<i32>,
    pub project_name: String,
    pub environment: EnvironmentType,
    pub server_desc: Option<String>,
}

/// What a [`ServerPath`] holds, with texts as character sequences.
pub struct ServerPathView {
    pub server_id: Option<i32>,
    pub project_name: Seq<char>,
    pub environment: EnvironmentType,
    pub server_desc: Option<Seq<char>>,
}

impl View for ServerPath {
    type V = ServerPathView;

    open spec fn view(&self) -> ServerPathView {
        ServerPathView {
            server_id: self.server_id,
            project_name: self.project_name@,
            environment: self.environment,
            server_desc: opt_text(self.server_desc),
        }
    }
}

impl Clone for ServerPath {
    fn clone(&self) -> (r: Self)
        ensures
            r@ == self@,
    {
        ServerPath {
            server_id: self.server_id,
            project_name: self.project_name.clone(),
            environment: self.environment,
            server_desc: clone_opt_string(&self.server_desc),
        }
    }
}

/// A reference to a database: a direct id, or a description under a server that
/// is itself given by id or by description.
#[derive(Debug, PartialEq, Eq)]
pub struct ServerDatabasePath {
    pub project_name: String,
    pub environment: EnvironmentType,
    pub server_id: Option<i32>,
    pub server_desc: Option<String>,
    pub database_id: Option<i32>,
    pub database_desc: Option<String>,
}

/// What a [`ServerDatabasePath`] holds, with texts as character sequences.
pub struct ServerDatabasePathView {
    pub project_name: Seq<char>,
    pub environment: EnvironmentType,
    pub server_id: Option<i32>,
    pub server_desc: Option<Seq<char>>,
    pub database_id: Option<i32>,
    pub database_desc: Option<Seq<char>>,
}

impl View for ServerDatabasePath {
    type V = ServerDatabasePathView;

    open spec fn view(&self) -> ServerDatabasePathView {
        ServerDatabasePathView {
            project_name: self.project_name@,
            environment: self.environment,
            server_id: self.server_id,
            server_desc: opt_text(self.server_desc),
            database_id: self.database_id,
            database_desc: opt_text(self.database_desc),
        }
    }
}

impl Clone for ServerDatabasePath {
    fn clone(&self) -> (r: Self)
        ensures
            r@ == self@,
    {
        ServerDatabasePath {
            project_name: self.project_name.clone(),
            environment: self.environment,
            server_id: self.server_id,
            server_desc: clone_opt_string(&self.server_desc),
            database_id: self.database_id,
            database_desc: clone_opt_string(&self.database_desc),
        }
    }
}

/// A project point of interest in a document.
#[derive(Debug, PartialEq, Eq)]
pub struct ProjectPoiImportExport {
    pub desc: String,
    pub path: String,
    pub text: String,
    pub interest_type: InterestType,
    pub shared_with_other_environments: Option<String>,
}

/// What a [`ProjectPoiImportExport`] holds, with texts as character sequences.
pub struct ProjectPoiImportExportView {
    pub desc: Seq<char>,
    pub path: Seq<char>,
    pub text: Seq<char>,
    pub interest_type: InterestType,
    pub shared_with_other_environments: Option<Seq<char>>,
}

impl View for ProjectPoiImportExport {
    type V = ProjectPoiImportExportView;

    open spec fn view(&self) -> ProjectPoiImportExportView {
        ProjectPoiImportExportView {
            desc: self.desc@,
            path: self.path@,
            text: self.text@,
            interest_type: self.interest_type,
            shared_with_other_environments: opt_text(self.shared_with_other_environments),
        }
    }
}

/// A project note in a document: its contents, or a marker naming the note it
/// shares with an earlier environment.
#[derive(Debug, PartialEq, Eq)]
pub struct ProjectNoteImportExport {
    pub title: String,
    pub contents: String,
    pub shared_with_other_environments: Option<String>,
}

/// What a [`ProjectNoteImportExport`] holds, with texts as character sequences.
pub struct ProjectNoteImportExportView {
    pub title: Seq<char>,
    pub contents: Seq<char>,
    pub shared_with_other_environments: Option<Seq<char>>,
}

impl View for ProjectNoteImportExport {
    type V = ProjectNoteImportExportView;

    open spec fn view(&self) -> ProjectNoteImportExportView {
        ProjectNoteImportExportView {
            title: self.title@,
            contents: self.contents@,
            shared_with_other_environments: opt_text(self.shared_with_other_environments),
        }
    }
}

/// A server link in a document.
#[derive(Debug, PartialEq, Eq)]
pub struct ServerLinkImportExport {
    pub desc: String,
    pub server: ServerPath,
}

/// What a [`ServerLinkImportExport`] holds, with texts as character sequences.
pub struct ServerLinkImportExportView {
    pub desc: Seq<char>,
    pub server: ServerPathView,
}

impl View for ServerLinkImportExport {
    type V = ServerLinkImportExportView;

    open spec fn view(&self) -> ServerLinkImportExportView {
        ServerLinkImportExportView {
            desc: self.desc@,
            server: self.server@,
        }
    }
}

/// A server note in a document.
#[derive(Debug, PartialEq, Eq)]
pub struct ServerNoteImportExport {
    pub title: String,
    pub contents: String,
}

/// What a [`ServerNoteImportExport`] holds, with texts as character sequences.
pub struct ServerNoteImportExportView {
    pub title: Seq<char>,
    pub contents: Seq<char>,
}

impl View for ServerNoteImportExport {
    type V = ServerNoteImportExportView;

    open spec fn view(&self) -> ServerNoteImportExportView {
        ServerNoteImportExportView {
            title: self.title@,
            contents: self.contents@,
        }
    }
}

/// A server point of interest in a document.
#[derive(Debug, PartialEq, Eq)]
pub struct ServerPoiImportExport {
    pub desc: String,
    pub path: String,
    pub text: String,
    pub interest_type: InterestType,
    pub run_on: RunOn,
}

/// What a [`ServerPoiImportExport`] holds, with texts as character sequences.
pub struct ServerPoiImportExportView {
    pub desc: Seq<char>,
    pub path: Seq<char>,
    pub text: Seq<char>,
    pub interest_type: InterestType,
    pub run_on: RunOn,
}

impl View for ServerPoiImportExport {
    type V = ServerPoiImportExportView;

    open spec fn view(&self) -> ServerPoiImportExportView {
        ServerPoiImportExportView {
            desc: self.desc@,
            path: self.path@,
            text: self.text@,
            interest_type: self.interest_type,
            run_on: self.run_on,
        }
    }
}

/// An extra user account of a server in a document.
#[derive(Debug, PartialEq, Eq)]
pub struct ServerExtraUserImportExport {
    pub username: String,
    pub password: String,
    pub desc: String,
    pub auth_key: Option<Vec<u8>>,
    pub auth_key_filename: Option<String>,
}

/// What a [`ServerExtraUserImportExport`] holds, with texts as character sequences.
pub struct ServerExtraUserImportExportView {
    pub username: Seq<char>,
    pub password: Seq<char>,
    pub desc: Seq<char>,
    pub auth_key: Option<Seq<u8>>,
    pub auth_key_filename: Option<Seq<char>>,
}

impl View for ServerExtraUserImportExport {
    type V = ServerExtraUserImportExportView;

    open spec fn view(&self) -> ServerExtraUserImportExportView {
        ServerExtraUserImportExportView {
            username: self.username@,
            password: self.password@,
            desc: self.desc@,
            auth_key: opt_bytes(self.auth_key),
            auth_key_filename: opt_text(self.auth_key_filename),
        }
    }
}

/// A website of a server in a document, with an optional reference to its database.
#[derive(Debug, PartialEq, Eq)]
pub struct ServerWebsiteImportExport {
    pub desc: String,
    pub url: String,
    pub text: String,
    pub username: String,
    pub password: String,
    pub server_database: Option<ServerDatabasePath>,
}

/// What a [`ServerWebsiteImportExport`] holds, with texts as character sequences.
pub struct ServerWebsiteImportExportView {
    pub desc: Seq<char>,
    pub url: Seq<char>,
    pub text: Seq<char>,
    pub username: Seq<char>,
    pub password: Seq<char>,
    pub server_database: Option<ServerDatabasePathView>,
}

impl View for ServerWebsiteImportExport {
    type V = ServerWebsiteImportExportView;

    open spec fn view(&self) -> ServerWebsiteImportExportView {
        ServerWebsiteImportExportView {
            desc: self.desc@,
            url: self.url@,
            text: self.text@,
            username: self.username@,
            password: self.password@,
            server_database: opt_view(self.server_database),
        }
    }
}

impl Clone for ServerWebsiteImportExport {
    fn clone(&self) -> (r: Self)
        ensures
            r@ == self@,
    {
        ServerWebsiteImportExport {
            desc: self.desc.clone(),
            url: self.url.clone(),
            text: self.text.clone(),
            username: self.username.clone(),
            password: self.password.clone(),
            server_database: match &self.server_database {
                Some(p) => Some(p.clone()),
                None => None,
            },
        }
    }
}

/// The items of a server that share one group, or that have none.
#[derive(Debug, PartialEq, Eq)]
pub struct ServerGroupImportExport {
    pub server_pois: Vec<ServerPoiImportExport>,
    pub server_websites: Vec<ServerWebsiteImportExport>,
    pub server_databases: Vec<ServerDatabaseImportExport>,
    pub server_notes: Vec<ServerNoteImportExport>,
    pub server_extra_users: Vec<ServerExtraUserImportExport>,
}

/// What a [`ServerGroupImportExport`] holds, with texts as character sequences.
pub struct ServerGroupImportExportView {
    pub server_pois: Seq<ServerPoiImportExportView>,
    pub server_websites: Seq<ServerWebsiteImportExportView>,
    pub server_databases: Seq<ServerDatabaseView>,
    pub server_notes: Seq<ServerNoteImportExportView>,
    pub server_extra_users: Seq<ServerExtraUserImportExportView>,
}

impl View for ServerGroupImportExport {
    type V = ServerGroupImportExportView;

    open spec fn view(&self) -> ServerGroupImportExportView {
        ServerGroupImportExportView {
            server_pois: views(self.server_pois@),
            server_websites: views(self.server_websites@),
            server_databases: views(self.server_databases@),
            server_notes: views(self.server_notes@),
            server_extra_users: views(self.server_extra_users@),
        }
    }
}

/// A server in a document with all its items: the ungrouped ones, then each
/// named group in document order.
#[derive(Debug, PartialEq, Eq)]
pub struct ServerWithItemsImportExport {
    pub server: ServerImportExport,
    pub items: ServerGroupImportExport,
    pub items_in_groups: Vec<(String, ServerGroupImportExport)>,
}

/// What a [`ServerWithItemsImportExport`] holds, with texts as character sequences.
pub struct ServerWithItemsImportExportView {
    pub server: ServerView,
    pub items: ServerGroupImportExportView,
    pub items_in_groups: Seq<(Seq<char>, ServerGroupImportExportView)>,
}

impl View for ServerWithItemsImportExport {
    type V = ServerWithItemsImportExportView;

    open spec fn view(&self) -> ServerWithItemsImportExportView {
        ServerWithItemsImportExportView {
            server: self.server@,
            items: self.items@,
            items_in_groups: named_views(self.items_in_groups@),
        }
    }
}

/// The items of one environment that share one group, or that have none.
#[derive(Debug, PartialEq, Eq)]
pub struct ProjectEnvGroupImportExport {
    pub project_pois: Vec<ProjectPoiImportExport>,
    pub project_notes: Vec<ProjectNoteImportExport>,
    pub server_links: Vec<ServerLinkImportExport>,
    pub servers: Vec<ServerWithItemsImportExport>,
}

/// What a [`ProjectEnvGroupImportExport`] holds, with texts as character sequences.
pub struct ProjectEnvGroupImportExportView {
    pub project_pois: Seq<ProjectPoiImportExportView>,
    pub project_notes: Seq<ProjectNoteImportExportView>,
    pub server_links: Seq<ServerLinkImportExportView>,
    pub servers: Seq<ServerWithItemsImportExportView>,
}

impl View for ProjectEnvGroupImportExport {
    type V = ProjectEnvGroupImportExportView;

    open spec fn view(&self) -> ProjectEnvGroupImportExportView {
        ProjectEnvGroupImportExportView {
            project_pois: views(self.project_pois@),
            project_notes: views(self.project_notes@),
            server_links: views(self.server_links@),
            servers: views(self.servers@),
        }
    }
}

/// One environment of a project in a document: the ungrouped items, then each
/// named group in document order.
#[derive(Debug, PartialEq, Eq)]
pub struct ProjectEnvImportExport {
    pub items: ProjectEnvGroupImportExport,
    pub items_in_groups: Vec<(String, ProjectEnvGroupImportExport)>,
}

/// What a [`ProjectEnvImportExport`] holds, with texts as character sequences.
pub struct ProjectEnvImportExportView {
    pub items: ProjectEnvGroupImportExportView,
    pub items_in_groups: Seq<(Seq<char>, ProjectEnvGroupImportExportView)>,
}

impl View for ProjectEnvImportExport {
    type V = ProjectEnvImportExportView;

    open spec fn view(&self) -> ProjectEnvImportExportView {
        ProjectEnvImportExportView {
            items: self.items@,
            items_in_groups: named_views(self.items_in_groups@),
        }
    }
}

/// A whole project as a document: its name and the environments it has.
#[derive(Debug, PartialEq, Eq)]
pub struct ProjectImportExport {
    pub project_name: String,
    pub development_environment: Option<ProjectEnvImportExport>,
    pub staging_environment: Option<ProjectEnvImportExport>,
    pub uat_environment: Option<ProjectEnvImportExport>,
    pub prod_environment: Option<ProjectEnvImportExport>,
}

/// What a [`ProjectImportExport`] holds, with texts as character sequences.
pub struct ProjectImportExportView {
    pub project_name: Seq<char>,
    pub development_environment: Option<ProjectEnvImportExportView>,
    pub staging_environment: Option<ProjectEnvImportExportView>,
    pub uat_environment: Option<ProjectEnvImportExportView>,
    pub prod_environment: Option<ProjectEnvImportExportView>,
}

impl View for ProjectImportExport {
    type V = ProjectImportExportView;

    open spec fn view(&self) -> ProjectImportExportView {
        ProjectImportExportView {
            project_name: self.project_name@,
            development_environment: opt_view(self.development_environment),
            staging_environment: opt_view(self.staging_environment),
            uat_environment: opt_view(self.uat_environment),
            prod_environment: opt_view(self.prod_environment),
        }
    }
}


} // verus!
