//! A vault of projects, servers and their credentials: the storage model,
//! the export of a project into a document and the import of a document in
//! two passes, the resolution of references between rows, and the decisions
//! behind the search list and the command-line client.
//!
//! Every function comes with a contract over the mathematical content of
//! the values it takes and returns. What holds of export and import in
//! general is proved in `guarantees`, in `reimport` and in the `round_trip`
//! modules; `project_round_trip` states in one place what an import brings
//! back of an exported project, and `reference_round_trip` when a reference
//! to a database of the project finds its database again.

pub mod types;
pub mod select;
pub mod rows;
pub mod document;
pub mod storage;
pub mod resolve;
pub mod replay;
pub mod import;
pub mod groups;
pub mod export;
pub mod guarantees;
pub mod round_trip;
pub mod server_round_trip;
pub mod items_round_trip;
pub mod poi_round_trip;
pub mod note_round_trip;
pub mod link_round_trip;
pub mod project_round_trip;
pub mod reimport;
pub mod reference_round_trip;
pub mod search;
pub mod items;
pub mod results;
pub mod lookup;
pub mod layout;
pub mod events;
pub mod forms;
pub mod cli;
