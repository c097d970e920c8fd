//! The directory-listing and file-operation engine of a desktop file
//! browser: it classifies and orders a directory snapshot, resolves name
//! conflicts deterministically, plans the mutating operations (create,
//! rename, copy, delete), and tracks selection, clipboard and an in-place
//! rename edit. The presentation shell reads directories and performs the
//! planned OS calls; everything the engine decides is specified and proved
//! here.

pub mod errors;
pub mod fileops;
pub mod listing;
pub mod names;
pub mod pathops;
pub mod session;
pub mod timefmt;

pub use errors::EngineError;
pub use errors::FsCause;
pub use fileops::CopyPlan;
pub use fileops::DeleteAction;
pub use fileops::RenamePlan;
pub use listing::Entry;
pub use listing::RawEntry;
pub use session::ClipboardController;
pub use session::RenameController;
pub use session::RenameRequest;
pub use session::SelectionModel;
