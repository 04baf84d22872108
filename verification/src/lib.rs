//! The logic of the Fabbit desktop file agent: importing Inventor projects (reading the
//! project file, scanning and classifying the workspace, preparing the manifest, uploading),
//! the local HTTP bridge's routing and replies, the tray's texts and update badge, and the
//! folder watcher's bookkeeping.
use vstd::prelude::*;

pub mod import_state;
pub mod ipj;
pub mod model;
pub mod paths;
pub mod prepare;
pub mod scan;
pub mod server;
pub mod shell;
pub mod text;
pub mod tray;
pub mod updater;
pub mod upload;
pub mod watcher;
pub mod xml;

verus! {

} // verus!
