//! The items that a search shows: rows of any kind, and the two narrower
//! kinds that the project and server panes take.

use vstd::prelude::*;
use crate::rows::{
    Project, ProjectNote, ProjectNoteView, ProjectPointOfInterest, ProjectPointOfInterestView,
    ProjectView, Server, ServerDatabase, ServerDatabaseView, ServerExtraUserAccount,
    ServerExtraUserAccountView, ServerLink, ServerLinkView, ServerNote, ServerNoteView,
    ServerPointOfInterest, ServerPointOfInterestView, ServerView, ServerWebsite,
    ServerWebsiteView,
};
use crate::types::EnvironmentType;

verus! {

/// An item that stands directly under a project.
#[derive(Debug, PartialEq, Eq)]
pub enum ProjectItem {
    Server(Server),
    ServerLink(ServerLink),
    ProjectNote(ProjectNote),
    ProjectPointOfInterest(ProjectPointOfInterest),
}

/// What a [`ProjectItem`] holds.
pub enum ProjectItemView {
    Server(ServerView),
    ServerLink(ServerLinkView),
    ProjectNote(ProjectNoteView),
    ProjectPointOfInterest(ProjectPointOfInterestView),
}

impl View for ProjectItem {
    type V = ProjectItemView;

    open spec fn view(&self) -> ProjectItemView {
        match self {
            ProjectItem::Server(s) => ProjectItemView::Server(s@),
            ProjectItem::ServerLink(l) => ProjectItemView::ServerLink(l@),
            ProjectItem::ProjectNote(n) => ProjectItemView::ProjectNote(n@),
            ProjectItem::ProjectPointOfInterest(p) => ProjectItemView::ProjectPointOfInterest(p@),
        }
    }
}

/// An item that stands under a server.
#[derive(Debug, PartialEq, Eq)]
pub enum ServerItem {
    Website(ServerWebsite),
    PointOfInterest(ServerPointOfInterest),
    Note(ServerNote),
    ExtraUserAccount(ServerExtraUserAccount),
    Database(ServerDatabase),
}

/// What a [`ServerItem`] holds.
pub enum ServerItemView {
    Website(ServerWebsiteView),
    PointOfInterest(ServerPointOfInterestView),
    Note(ServerNoteView),
    ExtraUserAccount(ServerExtraUserAccountView),
    Database(ServerDatabaseView),
}

impl View for ServerItem {
    type V = ServerItemView;

    open spec fn view(&self) -> ServerItemView {
        match self {
            ServerItem::Website(w) => ServerItemView::Website(w@),
            ServerItem::PointOfInterest(p) => ServerItemView::PointOfInterest(p@),
            ServerItem::Note(n) => ServerItemView::Note(n@),
            ServerItem::ExtraUserAccount(u) => ServerItemView::ExtraUserAccount(u@),
            ServerItem::Database(d) => ServerItemView::Database(d@),
        }
    }
}

impl ServerItemView {
    /// The server that the item stands under.
    pub open spec fn server_id(self) -> i32 {
        match self {
            ServerItemView::Website(w) => w.server_id,
            ServerItemView::PointOfInterest(p) => p.server_id,
            ServerItemView::Note(n) => n.server_id,
            ServerItemView::ExtraUserAccount(u) => u.server_id,
            ServerItemView::Database(d) => d.server_id,
        }
    }
}

impl ServerItem {
    /// The server that the item stands under.
    pub fn server_id(&self) -> (id: i32)
        ensures
            id == self@.server_id(),
    {
        match self {
            ServerItem::Website(w) => w.server_id,
            ServerItem::PointOfInterest(p) => p.server_id,
            ServerItem::Note(n) => n.server_id,
            ServerItem::ExtraUserAccount(u) => u.server_id,
            ServerItem::Database(d) => d.server_id,
        }
    }
}

/// A row of any kind, as a search shows it.
#[derive(Debug, PartialEq, Eq)]
pub enum ProjectPadItem {
    Project(Project),
    ProjectNote(ProjectNote),
    ProjectPoi(ProjectPointOfInterest),
    ServerLink(ServerLink),
    Server(Server),
    ServerDatabase(ServerDatabase),
    ServerExtraUserAccount(ServerExtraUserAccount),
    ServerNote(ServerNote),
    ServerPoi(ServerPointOfInterest),
    ServerWebsite(ServerWebsite),
}

/// What a [`ProjectPadItem`] holds.
pub enum ProjectPadItemView {
    Project(ProjectView),
    ProjectNote(ProjectNoteView),
    ProjectPoi(ProjectPointOfInterestView),
    ServerLink(ServerLinkView),
    Server(ServerView),
    ServerDatabase(ServerDatabaseView),
    ServerExtraUserAccount(ServerExtraUserAccountView),
    ServerNote(ServerNoteView),
    ServerPoi(ServerPointOfInterestView),
    ServerWebsite(ServerWebsiteView),
}

impl View for ProjectPadItem {
    type V = ProjectPadItemView;

    open spec fn view(&self) -> ProjectPadItemView {
        match self {
            ProjectPadItem::Project(p) => ProjectPadItemView::Project(p@),
            ProjectPadItem::ProjectNote(n) => ProjectPadItemView::ProjectNote(n@),
            ProjectPadItem::ProjectPoi(p) => ProjectPadItemView::ProjectPoi(p@),
            ProjectPadItem::ServerLink(l) => ProjectPadItemView::ServerLink(l@),
            ProjectPadItem::Server(s) => ProjectPadItemView::Server(s@),
            ProjectPadItem::ServerDatabase(d) => ProjectPadItemView::ServerDatabase(d@),
            ProjectPadItem::ServerExtraUserAccount(u) => ProjectPadItemView::ServerExtraUserAccount(
                u@,
            ),
            ProjectPadItem::ServerNote(n) => ProjectPadItemView::ServerNote(n@),
            ProjectPadItem::ServerPoi(p) => ProjectPadItemView::ServerPoi(p@),
            ProjectPadItem::ServerWebsite(w) => ProjectPadItemView::ServerWebsite(w@),
        }
    }
}

impl Clone for ProjectPadItem {
    fn clone(&self) -> (r: Self)
        ensures
            r@ == self@,
    {
        match self {
            ProjectPadItem::Project(p) => ProjectPadItem::Project(p.clone()),
            ProjectPadItem::ProjectNote(n) => ProjectPadItem::ProjectNote(n.clone()),
            ProjectPadItem::ProjectPoi(p) => ProjectPadItem::ProjectPoi(p.clone()),
            ProjectPadItem::ServerLink(l) => ProjectPadItem::ServerLink(l.clone()),
            ProjectPadItem::Server(s) => ProjectPadItem::Server(s.clone()),
            ProjectPadItem::ServerDatabase(d) => ProjectPadItem::ServerDatabase(d.clone()),
            ProjectPadItem::ServerExtraUserAccount(u) => ProjectPadItem::ServerExtraUserAccount(
                u.clone(),
            ),
            ProjectPadItem::ServerNote(n) => ProjectPadItem::ServerNote(n.clone()),
            ProjectPadItem::ServerPoi(p) => ProjectPadItem::ServerPoi(p.clone()),
            ProjectPadItem::ServerWebsite(w) => ProjectPadItem::ServerWebsite(w.clone()),
        }
    }
}

impl ProjectPadItemView {
    /// The item as an item of a server, where it is one.
    pub open spec fn to_server_item(self) -> Option<ServerItemView> {
        match self {
            ProjectPadItemView::ServerDatabase(d) => Some(ServerItemView::Database(d)),
            ProjectPadItemView::ServerWebsite(w) => Some(ServerItemView::Website(w)),
            ProjectPadItemView::ServerNote(n) => Some(ServerItemView::Note(n)),
            ProjectPadItemView::ServerExtraUserAccount(u) => Some(
                ServerItemView::ExtraUserAccount(u),
            ),
            ProjectPadItemView::ServerPoi(p) => Some(ServerItemView::PointOfInterest(p)),
            _ => None,
        }
    }

    /// The item as an item of a project, where it is one.
    pub open spec fn to_project_item(self) -> Option<ProjectItemView> {
        match self {
            ProjectPadItemView::Server(s) => Some(ProjectItemView::Server(s)),
            ProjectPadItemView::ServerLink(l) => Some(ProjectItemView::ServerLink(l)),
            ProjectPadItemView::ProjectNote(n) => Some(ProjectItemView::ProjectNote(n)),
            ProjectPadItemView::ProjectPoi(p) => Some(ProjectItemView::ProjectPointOfInterest(p)),
            _ => None,
        }
    }
}

/// The optional server item seen through its view.
pub open spec fn server_item_view(o: Option<ServerItem>) -> Option<ServerItemView> {
    match o {
        Some(i) => Some(i@),
        None => None,
    }
}

/// The optional project item seen through its view.
pub open spec fn project_item_view(o: Option<ProjectItem>) -> Option<ProjectItemView> {
    match o {
        Some(i) => Some(i@),
        None => None,
    }
}

impl ProjectPadItem {
    /// The item as an item of a server: a database, a website, a note, an
    /// extra user account or a point of interest of a server, and nothing
    /// for any other kind.
    pub fn to_server_item(&self) -> (r: Option<ServerItem>)
        ensures
            server_item_view(r) == self@.to_server_item(),
    {
        match self {
            ProjectPadItem::ServerDatabase(d) => Some(ServerItem::Database(d.clone())),
            ProjectPadItem::ServerWebsite(w) => Some(ServerItem::Website(w.clone())),
            ProjectPadItem::ServerNote(n) => Some(ServerItem::Note(n.clone())),
            ProjectPadItem::ServerExtraUserAccount(u) => Some(
                ServerItem::ExtraUserAccount(u.clone()),
            ),
            ProjectPadItem::ServerPoi(p) => Some(ServerItem::PointOfInterest(p.clone())),
            _ => None,
        }
    }

    /// The item as an item of a project: a server, a server link, a
    /// project note or a project point of interest, and nothing for any
    /// other kind.
    pub fn to_project_item(&self) -> (r: Option<ProjectItem>)
        ensures
            project_item_view(r) == self@.to_project_item(),
    {
        match self {
            ProjectPadItem::Server(s) => Some(ProjectItem::Server(s.clone())),
            ProjectPadItem::ServerLink(l) => Some(ProjectItem::ServerLink(l.clone())),
            ProjectPadItem::ProjectNote(n) => Some(ProjectItem::ProjectNote(n.clone())),
            ProjectPadItem::ProjectPoi(p) => Some(ProjectItem::ProjectPointOfInterest(p.clone())),
            _ => None,
        }
    }
}

/// Which kinds of rows a search looks for.
#[derive(Clone, Copy, Debug, PartialEq, Eq, Structural)]
pub enum SearchItemsType {
    All,
    ServerDbsOnly,
    ServersOnly,
}

/// What a click on an item of the search does.
#[derive(Clone, Copy, Debug, PartialEq, Eq, Structural)]
pub enum OperationMode {
    ItemActions,
    SelectItem,
}

/// The environment in which a project item is shown. A server or a server
/// link has one environment. A note is shown in the last environment in
/// which it is present, in the order Development, Stage, Uat, Prod. A point
/// of interest belongs to none.
pub open spec fn shown_environment(item: Option<ProjectItemView>) -> Option<EnvironmentType> {
    match item {
        Some(ProjectItemView::Server(s)) => Some(s.environment),
        Some(ProjectItemView::ServerLink(l)) => Some(l.environment),
        Some(ProjectItemView::ProjectNote(n)) => if n.has_prod {
            Some(EnvironmentType::EnvProd)
        } else if n.has_uat {
            Some(EnvironmentType::EnvUat)
        } else if n.has_stage {
            Some(EnvironmentType::EnvStage)
        } else if n.has_dev {
            Some(EnvironmentType::EnvDevelopment)
        } else {
            None
        },
        _ => None,
    }
}

/// The environment to switch to when a project item is displayed.
pub fn environment_of(project_item: &Option<ProjectItem>) -> (r: Option<EnvironmentType>)
    ensures
        r == shown_environment(project_item_view(*project_item)),
{
    match project_item {
        Some(ProjectItem::Server(s)) => Some(s.environment),
        Some(ProjectItem::ServerLink(s)) => Some(s.environment),
        Some(ProjectItem::ProjectNote(n)) => {
            if n.has_prod {
                Some(EnvironmentType::EnvProd)
            } else if n.has_uat {
                Some(EnvironmentType::EnvUat)
            } else if n.has_stage {
                Some(EnvironmentType::EnvStage)
            } else if n.has_dev {
                Some(EnvironmentType::EnvDevelopment)
            } else {
                None
            }
        },
        _ => None,
    }
}

/// Whether a click may select the item, given the kinds that the search
/// was opened for.
pub fn can_select(search_item_types: SearchItemsType, item: &ProjectPadItem) -> (r: bool)
    ensures
        r == match search_item_types {
            SearchItemsType::All => true,
            SearchItemsType::ServersOnly => item@ is Server,
            SearchItemsType::ServerDbsOnly => item@ is ServerDatabase,
        },
{
    match search_item_types {
        SearchItemsType::All => true,
        SearchItemsType::ServersOnly => match item {
            ProjectPadItem::Server(_) => true,
            _ => false,
        },
        SearchItemsType::ServerDbsOnly => match item {
            ProjectPadItem::ServerDatabase(_) => true,
            _ => false,
        },
    }
}

/// The identifier and description that a selection dialog hands back for
/// the selected item: those of a database or of a server, and nothing for
/// any other kind or without a selection.
pub open spec fn summary_of(item: Option<ProjectPadItemView>) -> Option<(i32, Seq<char>)> {
    match item {
        Some(ProjectPadItemView::ServerDatabase(d)) => Some((d.id, d.desc)),
        Some(ProjectPadItemView::Server(s)) => Some((s.id, s.desc)),
        _ => None,
    }
}

/// What the selection dialog hands back for the selected item.
pub fn selected_summary(item: &Option<ProjectPadItem>) -> (r: Option<(i32, String)>)
    ensures
        match r {
            Some((id, desc)) => summary_of(crate::types::opt_view(*item)) == Some((id, desc@)),
            None => summary_of(crate::types::opt_view(*item)) is None,
        },
{
    match item {
        Some(ProjectPadItem::ServerDatabase(db)) => Some((db.id, db.desc.clone())),
        Some(ProjectPadItem::Server(srv)) => Some((srv.id, srv.desc.clone())),
        _ => None,
    }
}

} // verus!
