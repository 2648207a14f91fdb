//! What the edit dialogs start from: the fields of the row that is edited,
//! or the defaults for a row that is added.

use vstd::prelude::*;
use crate::rows::{
    ProjectPointOfInterest, ProjectPointOfInterestView, ServerExtraUserAccount,
    ServerExtraUserAccountView,
};
use crate::types::{clone_opt_string, opt_text, InterestType};

verus! {

/// The fields of the dialog that adds or edits a project point of interest.
#[derive(Debug, PartialEq, Eq)]
pub struct ProjectPoiForm {
    pub project_id: i32,
    pub description: String,
    pub path: String,
    pub text: String,
    pub group_name: Option<String>,
    pub interest_type: InterestType,
}

/// What a [`ProjectPoiForm`] holds.
pub struct ProjectPoiFormView {
    pub project_id: i32,
    pub description: Seq<char>,
    pub path: Seq<char>,
    pub text: Seq<char>,
    pub group_name: Option<Seq<char>>,
    pub interest_type: InterestType,
}

impl View for ProjectPoiForm {
    type V = ProjectPoiFormView;

    open spec fn view(&self) -> ProjectPoiFormView {
        ProjectPoiFormView {
            project_id: self.project_id,
            description: self.description@,
            path: self.path@,
            text: self.text@,
            group_name: opt_text(self.group_name),
            interest_type: self.interest_type,
        }
    }
}

/// The fields that the dialog starts from: those of the point of interest
/// that is edited, or empty texts, no group and the application kind for
/// one that is added.
pub open spec fn project_poi_fields(
    project_id: i32,
    poi: Option<ProjectPointOfInterestView>,
) -> ProjectPoiFormView {
    match poi {
        Some(p) => ProjectPoiFormView {
            project_id,
            description: p.desc,
            path: p.path,
            text: p.text,
            group_name: p.group_name,
            interest_type: p.interest_type,
        },
        None => ProjectPoiFormView {
            project_id,
            description: Seq::empty(),
            path: Seq::empty(),
            text: Seq::empty(),
            group_name: None,
            interest_type: InterestType::PoiApplication,
        },
    }
}

/// Fills the dialog for a project point of interest.
pub fn project_poi_form(project_id: i32, project_poi: &Option<ProjectPointOfInterest>) -> (r:
    ProjectPoiForm)
    ensures
        r@ == project_poi_fields(project_id, crate::types::opt_view(*project_poi)),
{
    match project_poi {
        Some(p) => ProjectPoiForm {
            project_id,
            description: p.desc.clone(),
            path: p.path.clone(),
            text: p.text.clone(),
            group_name: clone_opt_string(&p.group_name),
            interest_type: p.interest_type,
        },
        None => ProjectPoiForm {
            project_id,
            description: String::new(),
            path: String::new(),
            text: String::new(),
            group_name: None,
            interest_type: InterestType::PoiApplication,
        },
    }
}

/// The fields of the dialog that adds or edits an extra user account.
#[derive(Debug, PartialEq, Eq)]
pub struct ServerExtraUserForm {
    pub server_id: i32,
    pub description: String,
    pub group_name: Option<String>,
    pub username: String,
    pub password: String,
}

/// What a [`ServerExtraUserForm`] holds.
pub struct ServerExtraUserFormView {
    pub server_id: i32,
    pub description: Seq<char>,
    pub group_name: Option<Seq<char>>,
    pub username: Seq<char>,
    pub password: Seq<char>,
}

impl View for ServerExtraUserForm {
    type V = ServerExtraUserFormView;

    open spec fn view(&self) -> ServerExtraUserFormView {
        ServerExtraUserFormView {
            server_id: self.server_id,
            description: self.description@,
            group_name: opt_text(self.group_name),
            username: self.username@,
            password: self.password@,
        }
    }
}

/// The fields that the dialog starts from: those of the account that is
/// edited, or empty texts and no group for one that is added.
pub open spec fn server_extra_user_fields(
    server_id: i32,
    user: Option<ServerExtraUserAccountView>,
) -> ServerExtraUserFormView {
    match user {
        Some(u) => ServerExtraUserFormView {
            server_id,
            description: u.desc,
            group_name: u.group_name,
            username: u.username,
            password: u.password,
        },
        None => ServerExtraUserFormView {
            server_id,
            description: Seq::empty(),
            group_name: None,
            username: Seq::empty(),
            password: Seq::empty(),
        },
    }
}

/// Fills the dialog for an extra user account.
pub fn server_extra_user_form(server_id: i32, user: &Option<ServerExtraUserAccount>) -> (r:
    ServerExtraUserForm)
    ensures
        r@ == server_extra_user_fields(server_id, crate::types::opt_view(*user)),
{
    match user {
        Some(u) => ServerExtraUserForm {
            server_id,
            description: u.desc.clone(),
            group_name: clone_opt_string(&u.group_name),
            username: u.username.clone(),
            password: u.password.clone(),
        },
        None => ServerExtraUserForm {
            server_id,
            description: String::new(),
            group_name: None,
            username: String::new(),
            password: String::new(),
        },
    }
}

} // verus!
