//! What a self-updating desktop widget needs and its panel does not: fetching a
//! release, replacing the running binary, and reinstalling the desktop payloads
//! from the same archive, so the binary and its frontends are never a release
//! apart.
//!
//! The rules and the decisions are made here, under contracts that are proved;
//! the work on disk, on the network and with other processes is not done here.
//! Where a decision needs such work, the library hands out what to do next and
//! takes back how it went: an
//! [`install::Install`], an [`apply::Job`], an [`aliases::Refresh`], a
//! [`write::Write`], a [`copy::Walk`], an [`msi::Upgrade`] and a
//! [`state::Announcing`] are each driven that way until they are over. What holds
//! of whole runs of them is proved beside them, and in [`one_release`] that an
//! update which succeeds leaves binaries and frontends of one archive behind.

pub mod aliases;
pub mod announcing_laws;
pub mod apply;
pub mod apply_laws;
pub mod cache_laws;
pub mod choice_laws;
pub mod copy;
pub mod frontend;
pub mod frontend_laws;
pub mod install;
pub mod install_laws;
pub mod job_laws;
pub mod msi;
pub mod msi_laws;
pub mod one_release;
pub mod place;
pub mod proc;
pub mod project;
pub mod release;
pub mod release_laws;
pub mod state;
pub mod text;
pub mod text_laws;
pub mod update;
pub mod version;
pub mod version_laws;
pub mod write;

pub use crate::frontend::{Frontend, Restart, VersionSource};
pub use crate::proc::which;
pub use crate::project::Project;
pub use crate::state::UpdateStatus;
