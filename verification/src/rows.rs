//! The rows of the vault's tables, and what each row holds as a
//! mathematical value.

use vstd::prelude::*;
use crate::types::{
    clone_opt_bytes, clone_opt_string, opt_bytes, opt_text, EnvironmentType, InterestType, RunOn,
    ServerAccessType, ServerType,
};

verus! {

/// A project: the root owner of servers, notes and points of interest.
#[derive(Debug, PartialEq, Eq)]
pub struct Project {
    pub id: i32,
    pub name: String,
    pub icon: Option<Vec<u8>>,
    pub has_dev: bool,
    pub has_uat: bool,
    pub has_stage: bool,
    pub has_prod: bool,
}

/// What a [`Project`] holds, with texts as character sequences.
pub struct ProjectView {
    pub id: i32,
    pub name: Seq<char>,
    pub icon: Option<Seq<u8>>,
    pub has_dev: bool,
    pub has_uat: bool,
    pub has_stage: bool,
    pub has_prod: bool,
}

impl View for Project {
    type V = ProjectView;

    open spec fn view(&self) -> ProjectView {
        ProjectView {
            id: self.id,
            name: self.name@,
            icon: opt_bytes(self.icon),
            has_dev: self.has_dev,
            has_uat: self.has_uat,
            has_stage: self.has_stage,
            has_prod: self.has_prod,
        }
    }
}

impl Clone for Project {
    fn clone(&self) -> (r: Self)
        ensures
            r@ == self@,
    {
        Project {
            id: self.id,
            name: self.name.clone(),
            icon: clone_opt_bytes(&self.icon),
            has_dev: self.has_dev,
            has_uat: self.has_uat,
            has_stage: self.has_stage,
            has_prod: self.has_prod,
        }
    }
}

/// A note of a project; one row may be present in several environments.
#[derive(Debug, PartialEq, Eq)]
pub struct ProjectNote {
    pub id: i32,
    pub title: String,
    pub contents: String,
    pub has_dev: bool,
    pub has_uat: bool,
    pub has_stage: bool,
    pub has_prod: bool,
    pub group_name: Option<String>,
    pub project_id: i32,
}

/// What a [`ProjectNote`] holds, with texts as character sequences.
pub struct ProjectNoteView {
    pub id: i32,
    pub title: Seq<char>,
    pub contents: Seq<char>,
    pub has_dev: bool,
    pub has_uat: bool,
    pub has_stage: bool,
    pub has_prod: bool,
    pub group_name: Option<Seq<char>>,
    pub project_id: i32,
}

impl View for ProjectNote {
    type V = ProjectNoteView;

    open spec fn view(&self) -> ProjectNoteView {
        ProjectNoteView {
            id: self.id,
            title: self.title@,
            contents: self.contents@,
            has_dev: self.has_dev,
            has_uat: self.has_uat,
            has_stage: self.has_stage,
            has_prod: self.has_prod,
            group_name: opt_text(self.group_name),
            project_id: self.project_id,
        }
    }
}

impl Clone for ProjectNote {
    fn clone(&self) -> (r: Self)
        ensures
            r@ == self@,
    {
        ProjectNote {
            id: self.id,
            title: self.title.clone(),
            contents: self.contents.clone(),
            has_dev: self.has_dev,
            has_uat: self.has_uat,
            has_stage: self.has_stage,
            has_prod: self.has_prod,
            group_name: clone_opt_string(&self.group_name),
            project_id: self.project_id,
        }
    }
}

/// A point of interest of a project: a path and a free text.
#[derive(Debug, PartialEq, Eq)]
pub struct ProjectPointOfInterest {
    pub id: i32,
    pub desc: String,
    pub path: String,
    pub text: String,
    pub interest_type: InterestType,
    pub group_name: Option<String>,
    pub project_id: i32,
}

/// What a [`ProjectPointOfInterest`] holds, with texts as character sequences.
pub struct ProjectPointOfInterestView {
    pub id: i32,
    pub desc: Seq<char>,
    pub path: Seq<char>,
    pub text: Seq<char>,
    pub interest_type: InterestType,
    pub group_name: Option<Seq<char>>,
    pub project_id: i32,
}

impl View for ProjectPointOfInterest {
    type V = ProjectPointOfInterestView;

    open spec fn view(&self) -> ProjectPointOfInterestView {
        ProjectPointOfInterestView {
            id: self.id,
            desc: self.desc@,
            path: self.path@,
            text: self.text@,
            interest_type: self.interest_type,
            group_name: opt_text(self.group_name),
            project_id: self.project_id,
        }
    }
}

impl Clone for ProjectPointOfInterest {
    fn clone(&self) -> (r: Self)
        ensures
            r@ == self@,
    {
        ProjectPointOfInterest {
            id: self.id,
            desc: self.desc.clone(),
            path: self.path.clone(),
            text: self.text.clone(),
            interest_type: self.interest_type,
            group_name: clone_opt_string(&self.group_name),
            project_id: self.project_id,
        }
    }
}

/// A server of a project, in exactly one environment.
#[derive(Debug, PartialEq, Eq)]
pub struct Server {
    pub id: i32,
    pub desc: String,
    pub is_retired: bool,
    pub ip: String,
    pub text: String,
    pub group_name: Option<String>,
    pub username: String,
    pub password: String,
    pub auth_key: Option<Vec<u8>>,
    pub auth_key_filename: Option<String>,
    pub server_type: ServerType,
    pub access_type: ServerAccessType,
    pub environment: EnvironmentType,
    pub project_id: i32,
}

/// What a [`Server`] holds, with texts as character sequences.
pub struct ServerView {
    pub id: i32,
    pub desc: Seq<char>,
    pub is_retired: bool,
    pub ip: Seq<char>,
    pub text: Seq<char>,
    pub group_name: Option<Seq<char>>,
    pub username: Seq<char>,
    pub password: Seq<char>,
    pub auth_key: Option<Seq<u8>>,
    pub auth_key_filename: Option<Seq<char>>,
    pub server_type: ServerType,
    pub access_type: ServerAccessType,
    pub environment: EnvironmentType,
    pub project_id: i32,
}

impl View for Server {
    type V = ServerView;

    open spec fn view(&self) -> ServerView {
        ServerView {
            id: self.id,
            desc: self.desc@,
            is_retired: self.is_retired,
            ip: self.ip@,
            text: self.text@,
            group_name: opt_text(self.group_name),
            username: self.username@,
            password: self.password@,
            auth_key: opt_bytes(self.auth_key),
            auth_key_filename: opt_text(self.auth_key_filename),
            server_type: self.server_type,
            access_type: self.access_type,
            environment: self.environment,
            project_id: self.project_id,
        }
    }
}

impl Clone for Server {
    fn clone(&self) -> (r: Self)
        ensures
            r@ == self@,
    {
        Server {
            id: self.id,
            desc: self.desc.clone(),
            is_retired: self.is_retired,
            ip: self.ip.clone(),
            text: self.text.clone(),
            group_name: clone_opt_string(&self.group_name),
            username: self.username.clone(),
            password: self.password.clone(),
            auth_key: clone_opt_bytes(&self.auth_key),
            auth_key_filename: clone_opt_string(&self.auth_key_filename),
            server_type: self.server_type,
            access_type: self.access_type,
            environment: self.environment,
            project_id: self.project_id,
        }
    }
}

/// A named pointer from a project to a server anywhere in storage.
#[derive(Debug, PartialEq, Eq)]
pub struct ServerLink {
    pub id: i32,
    pub desc: String,
    pub linked_server_id: i32,
    pub environment: EnvironmentType,
    pub group_name: Option<String>,
    pub project_id: i32,
}

/// What a [`ServerLink`] holds, with texts as character sequences.
pub struct ServerLinkView {
    pub id: i32,
    pub desc: Seq<char>,
    pub linked_server_id: i32,
    pub environment: EnvironmentType,
    pub group_name: Option<Seq<char>>,
    pub project_id: i32,
}

impl View for ServerLink {
    type V = ServerLinkView;

    open spec fn view(&self) -> ServerLinkView {
        ServerLinkView {
            id: self.id,
            desc: self.desc@,
            linked_server_id: self.linked_server_id,
            environment: self.environment,
            group_name: opt_text(self.group_name),
            project_id: self.project_id,
        }
    }
}

impl Clone for ServerLink {
    fn clone(&self) -> (r: Self)
        ensures
            r@ == self@,
    {
        ServerLink {
            id: self.id,
            desc: self.desc.clone(),
            linked_server_id: self.linked_server_id,
            environment: self.environment,
            group_name: clone_opt_string(&self.group_name),
            project_id: self.project_id,
        }
    }
}

/// A database hosted on a server.
#[derive(Debug, PartialEq, Eq)]
pub struct ServerDatabase {
    pub id: i32,
    pub desc: String,
    pub name: String,
    pub group_name: Option<String>,
    pub text: String,
    pub username: String,
    pub password: String,
    pub server_id: i32,
}

/// What a [`ServerDatabase`] holds, with texts as character sequences.
pub struct ServerDatabaseView {
    pub id: i32,
    pub desc: Seq<char>,
    pub name: Seq<char>,
    pub group_name: Option<Seq<char>>,
    pub text: Seq<char>,
    pub username: Seq<char>,
    pub password: Seq<char>,
    pub server_id: i32,
}

impl View for ServerDatabase {
    type V = ServerDatabaseView;

    open spec fn view(&self) -> ServerDatabaseView {
        ServerDatabaseView {
            id: self.id,
            desc: self.desc@,
            name: self.name@,
            group_name: opt_text(self.group_name),
            text: self.text@,
            username: self.username@,
            password: self.password@,
            server_id: self.server_id,
        }
    }
}

impl Clone for ServerDatabase {
    fn clone(&self) -> (r: Self)
        ensures
            r@ == self@,
    {
        ServerDatabase {
            id: self.id,
            desc: self.desc.clone(),
            name: self.name.clone(),
            group_name: clone_opt_string(&self.group_name),
            text: self.text.clone(),
            username: self.username.clone(),
            password: self.password.clone(),
            server_id: self.server_id,
        }
    }
}

/// A note attached to a server.
#[derive(Debug, PartialEq, Eq)]
pub struct ServerNote {
    pub id: i32,
    pub title: String,
    pub group_name: Option<String>,
    pub contents: String,
    pub server_id: i32,
}

/// What a [`ServerNote`] holds, with texts as character sequences.
pub struct ServerNoteView {
    pub id: i32,
    pub title: Seq<char>,
    pub group_name: Option<Seq<char>>,
    pub contents: Seq<char>,
    pub server_id: i32,
}

impl View for ServerNote {
    type V = ServerNoteView;

    open spec fn view(&self) -> ServerNoteView {
        ServerNoteView {
            id: self.id,
            title: self.title@,
            group_name: opt_text(self.group_name),
            contents: self.contents@,
            server_id: self.server_id,
        }
    }
}

impl Clone for ServerNote {
    fn clone(&self) -> (r: Self)
        ensures
            r@ == self@,
    {
        ServerNote {
            id: self.id,
            title: self.title.clone(),
            group_name: clone_opt_string(&self.group_name),
            contents: self.contents.clone(),
            server_id: self.server_id,
        }
    }
}

/// A point of interest on a server.
#[derive(Debug, PartialEq, Eq)]
pub struct ServerPointOfInterest {
    pub id: i32,
    pub desc: String,
    pub path: String,
    pub text: String,
    pub interest_type: InterestType,
    pub run_on: RunOn,
    pub group_name: Option<String>,
    pub server_id: i32,
}

/// What a [`ServerPointOfInterest`] holds, with texts as character sequences.
pub struct ServerPointOfInterestView {
    pub id: i32,
    pub desc: Seq<char>,
    pub path: Seq<char>,
    pub text: Seq<char>,
    pub interest_type: InterestType,
    pub run_on: RunOn,
    pub group_name: Option<Seq<char>>,
    pub server_id: i32,
}

impl View for ServerPointOfInterest {
    type V = ServerPointOfInterestView;

    open spec fn view(&self) -> ServerPointOfInterestView {
        ServerPointOfInterestView {
            id: self.id,
            desc: self.desc@,
            path: self.path@,
            text: self.text@,
            interest_type: self.interest_type,
            run_on: self.run_on,
            group_name: opt_text(self.group_name),
            server_id: self.server_id,
        }
    }
}

impl Clone for ServerPointOfInterest {
    fn clone(&self) -> (r: Self)
        ensures
            r@ == self@,
    {
        ServerPointOfInterest {
            id: self.id,
            desc: self.desc.clone(),
            path: self.path.clone(),
            text: self.text.clone(),
            interest_type: self.interest_type,
            run_on: self.run_on,
            group_name: clone_opt_string(&self.group_name),
            server_id: self.server_id,
        }
    }
}

/// An additional user account on a server.
#[derive(Debug, PartialEq, Eq)]
pub struct ServerExtraUserAccount {
    pub id: i32,
    pub desc: String,
    pub group_name: Option<String>,
    pub username: String,
    pub password: String,
    pub auth_key: Option<Vec<u8>>,
    pub auth_key_filename: Option<String>,
    pub server_id: i32,
}

/// What a [`ServerExtraUserAccount`] holds, with texts as character sequences.
pub struct ServerExtraUserAccountView {
    pub id: i32,
    pub desc: Seq<char>,
    pub group_name: Option<Seq<char>>,
    pub username: Seq<char>,
    pub password: Seq<char>,
    pub auth_key: Option<Seq<u8>>,
    pub auth_key_filename: Option<Seq<char>>,
    pub server_id: i32,
}

impl View for ServerExtraUserAccount {
    type V = ServerExtraUserAccountView;

    open spec fn view(&self) -> ServerExtraUserAccountView {
        ServerExtraUserAccountView {
            id: self.id,
            desc: self.desc@,
            group_name: opt_text(self.group_name),
            username: self.username@,
            password: self.password@,
            auth_key: opt_bytes(self.auth_key),
            auth_key_filename: opt_text(self.auth_key_filename),
            server_id: self.server_id,
        }
    }
}

impl Clone for ServerExtraUserAccount {
    fn clone(&self) -> (r: Self)
        ensures
            r@ == self@,
    {
        ServerExtraUserAccount {
            id: self.id,
            desc: self.desc.clone(),
            group_name: clone_opt_string(&self.group_name),
            username: self.username.clone(),
            password: self.password.clone(),
            auth_key: clone_opt_bytes(&self.auth_key),
            auth_key_filename: clone_opt_string(&self.auth_key_filename),
            server_id: self.server_id,
        }
    }
}

/// A website served by a server, optionally backed by a database.
#[derive(Debug, PartialEq, Eq)]
pub struct ServerWebsite {
    pub id: i32,
    pub desc: String,
    pub url: String,
    pub text: String,
    pub group_name: Option<String>,
    pub username: String,
    pub password: String,
    pub server_database_id: Option<i32>,
    pub server_id: i32,
}

/// What a [`ServerWebsite`] holds, with texts as character sequences.
pub struct ServerWebsiteView {
    pub id: i32,
    pub desc: Seq<char>,
    pub url: Seq<char>,
    pub text: Seq<char>,
    pub group_name: Option<Seq<char>>,
    pub username: Seq<char>,
    pub password: Seq<char>,
    pub server_database_id: Option<i32>,
    pub server_id: i32,
}

impl View for ServerWebsite {
    type V = ServerWebsiteView;

    open spec fn view(&self) -> ServerWebsiteView {
        ServerWebsiteView {
            id: self.id,
            desc: self.desc@,
            url: self.url@,
            text: self.text@,
            group_name: opt_text(self.group_name),
            username: self.username@,
            password: self.password@,
            server_database_id: self.server_database_id,
            server_id: self.server_id,
        }
    }
}

impl Clone for ServerWebsite {
    fn clone(&self) -> (r: Self)
        ensures
            r@ == self@,
    {
        ServerWebsite {
            id: self.id,
            desc: self.desc.clone(),
            url: self.url.clone(),
            text: self.text.clone(),
            group_name: clone_opt_string(&self.group_name),
            username: self.username.clone(),
            password: self.password.clone(),
            server_database_id: self.server_database_id,
            server_id: self.server_id,
        }
    }
}

} // verus!
