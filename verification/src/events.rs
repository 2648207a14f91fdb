//! What the search list and the window do on a click or a key: which area
//! was meant, which dialog edits an item, and when typing starts a search.

use vstd::prelude::*;
use crate::items::{OperationMode, ProjectPadItem, ProjectPadItemView, SearchItemsType};
use crate::layout::{find_area, first_hit, place, Area};

verus! {

/// What a click on the search list does: the places, each in its own list
/// of areas, of the link to open, of the item whose actions to show, of the
/// item to open and of the item to select.
#[derive(Clone, Copy, Debug, PartialEq, Eq, Structural)]
pub struct ClickOutcome {
    pub link: Option<usize>,
    pub popover: Option<usize>,
    pub open: Option<usize>,
    pub select: Option<usize>,
}

/// Whether a click may select an item, given the kinds that the search
/// was opened for.
pub open spec fn selectable(search_item_types: SearchItemsType, item: ProjectPadItemView) -> bool {
    match search_item_types {
        SearchItemsType::All => true,
        SearchItemsType::ServersOnly => item is Server,
        SearchItemsType::ServerDbsOnly => item is ServerDatabase,
    }
}

/// What a click at a point does. A click on a link opens the link and does
/// nothing else. Otherwise, where clicks act on items, a click on the action
/// area of an item shows its actions, and a click on the title of an item
/// opens the item; where clicks select, a click on the action area of an
/// item selects the item if the search was opened for its kind. Of several
/// areas under the point the first counts.
pub open spec fn clicked(
    links: Seq<(Area, String)>,
    action_areas: Seq<(Area, ProjectPadItem)>,
    item_link_areas: Seq<(Area, ProjectPadItem)>,
    op_mode: OperationMode,
    search_item_types: SearchItemsType,
    x: int,
    y: int,
) -> (Option<int>, Option<int>, Option<int>, Option<int>) {
    if first_hit(links, x, y) is Some {
        (first_hit(links, x, y), None, None, None)
    } else {
        match op_mode {
            OperationMode::ItemActions => (
                None,
                first_hit(action_areas, x, y),
                first_hit(item_link_areas, x, y),
                None,
            ),
            OperationMode::SelectItem => (
                None,
                None,
                None,
                match first_hit(action_areas, x, y) {
                    Some(k) => if selectable(search_item_types, action_areas[k].1@) {
                        Some(k)
                    } else {
                        None
                    },
                    None => None,
                },
            ),
        }
    }
}

/// Decides what a click at a point of the search list does.
pub fn click_outcome(
    links: &Vec<(Area, String)>,
    action_areas: &Vec<(Area, ProjectPadItem)>,
    item_link_areas: &Vec<(Area, ProjectPadItem)>,
    op_mode: OperationMode,
    search_item_types: SearchItemsType,
    x: i32,
    y: i32,
) -> (r: ClickOutcome)
    ensures
        (place(r.link), place(r.popover), place(r.open), place(r.select)) == clicked(
            links@,
            action_areas@,
            item_link_areas@,
            op_mode,
            search_item_types,
            x as int,
            y as int,
        ),
{
    let link = find_area(links, x, y);
    if link.is_some() {
        return ClickOutcome { link, popover: None, open: None, select: None };
    }
    match op_mode {
        OperationMode::ItemActions => ClickOutcome {
            link: None,
            popover: find_area(action_areas, x, y),
            open: find_area(item_link_areas, x, y),
            select: None,
        },
        OperationMode::SelectItem => {
            let select = match find_area(action_areas, x, y) {
                Some(k) => if crate::items::can_select(search_item_types, &action_areas[k].1) {
                    Some(k)
                } else {
                    None
                },
                None => None,
            };
            ClickOutcome { link: None, popover: None, open: None, select }
        },
    }
}

/// The dialog that edits an item: its title, and the project or server
/// under which the item stands. A project stands under nothing.
#[derive(Clone, Copy, Debug, PartialEq, Eq)]
pub struct EditDialog {
    pub title: &'static str,
    pub owner_id: Option<i32>,
}

/// The title of the dialog that edits an item.
pub open spec fn edit_title(item: ProjectPadItemView) -> Seq<char> {
    match item {
        ProjectPadItemView::Server(_) => "Server"@,
        ProjectPadItemView::ProjectPoi(_) => "Project point of interest"@,
        ProjectPadItemView::ProjectNote(_) => "Project note"@,
        ProjectPadItemView::ServerLink(_) => "Server link"@,
        ProjectPadItemView::ServerPoi(_) => "Server POI"@,
        ProjectPadItemView::ServerDatabase(_) => "Server Database"@,
        ProjectPadItemView::ServerExtraUserAccount(_) => "Server Extra User"@,
        ProjectPadItemView::ServerWebsite(_) => "Server Website"@,
        ProjectPadItemView::ServerNote(_) => "Server Note"@,
        ProjectPadItemView::Project(_) => "Project"@,
    }
}

/// The project or server under which an item stands.
pub open spec fn owner_of(item: ProjectPadItemView) -> Option<i32> {
    match item {
        ProjectPadItemView::Server(s) => Some(s.project_id),
        ProjectPadItemView::ProjectPoi(p) => Some(p.project_id),
        ProjectPadItemView::ProjectNote(n) => Some(n.project_id),
        ProjectPadItemView::ServerLink(l) => Some(l.project_id),
        ProjectPadItemView::ServerPoi(p) => Some(p.server_id),
        ProjectPadItemView::ServerDatabase(d) => Some(d.server_id),
        ProjectPadItemView::ServerExtraUserAccount(u) => Some(u.server_id),
        ProjectPadItemView::ServerWebsite(w) => Some(w.server_id),
        ProjectPadItemView::ServerNote(n) => Some(n.server_id),
        ProjectPadItemView::Project(_) => None,
    }
}

/// Chooses the dialog that edits an item.
pub fn edit_dialog(item: &ProjectPadItem) -> (r: EditDialog)
    ensures
        r.title@ == edit_title(item@),
        r.owner_id == owner_of(item@),
{
    match item {
        ProjectPadItem::Server(srv) => EditDialog { title: "Server", owner_id: Some(srv.project_id) },
        ProjectPadItem::ProjectPoi(prj_poi) => EditDialog {
            title: "Project point of interest",
            owner_id: Some(prj_poi.project_id),
        },
        ProjectPadItem::ProjectNote(prj_note) => EditDialog {
            title: "Project note",
            owner_id: Some(prj_note.project_id),
        },
        ProjectPadItem::ServerLink(srv_link) => EditDialog {
            title: "Server link",
            owner_id: Some(srv_link.project_id),
        },
        ProjectPadItem::ServerPoi(srv_poi) => EditDialog {
            title: "Server POI",
            owner_id: Some(srv_poi.server_id),
        },
        ProjectPadItem::ServerDatabase(srv_db) => EditDialog {
            title: "Server Database",
            owner_id: Some(srv_db.server_id),
        },
        ProjectPadItem::ServerExtraUserAccount(srv_usr) => EditDialog {
            title: "Server Extra User",
            owner_id: Some(srv_usr.server_id),
        },
        ProjectPadItem::ServerWebsite(srv_www) => EditDialog {
            title: "Server Website",
            owner_id: Some(srv_www.server_id),
        },
        ProjectPadItem::ServerNote(srv_note) => EditDialog {
            title: "Server Note",
            owner_id: Some(srv_note.server_id),
        },
        ProjectPadItem::Project(_) => EditDialog { title: "Project", owner_id: None },
    }
}

/// What a key pressed in the window does.
#[derive(Clone, Copy, Debug, PartialEq, Eq, Structural)]
pub enum WindowKeyAction {
    /// Leave the search.
    CloseSearch,
    /// Start a search with this character.
    StartSearch(char),
    /// The key is not for the window.
    Nothing,
}

/// Decides what a key pressed in the window does. Escape leaves the
/// search. A key that types a character starts a search with it, unless a
/// modifier other than the lock keys is held, as in a keyboard shortcut. Any
/// other key does nothing.
pub fn window_key_action(is_escape: bool, typed: Option<char>, modifier_held: bool) -> (r:
    WindowKeyAction)
    ensures
        r == (if is_escape {
            WindowKeyAction::CloseSearch
        } else {
            match typed {
                Some(k) => if modifier_held {
                    WindowKeyAction::Nothing
                } else {
                    WindowKeyAction::StartSearch(k)
                },
                None => WindowKeyAction::Nothing,
            }
        }),
{
    if is_escape {
        WindowKeyAction::CloseSearch
    } else if let Some(k) = typed {
        if modifier_held {
            WindowKeyAction::Nothing
        } else {
            WindowKeyAction::StartSearch(k)
        }
    } else {
        WindowKeyAction::Nothing
    }
}

/// How far one notch of the mouse wheel moves the list, in pixels: up for
/// a wheel turned up or a negative delta, down otherwise.
pub fn wheel_step(direction_up: bool, delta_negative: bool) -> (r: i32)
    ensures
        r == (if direction_up || delta_negative {
            -20i32
        } else {
            20i32
        }),
{
    if direction_up || delta_negative {
        -20
    } else {
        20
    }
}

} // verus!
