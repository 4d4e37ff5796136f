//! Verified core of a set of NSIS installer plugins: string replacement,
//! semantic-version comparison, process selection and the decisions that
//! drive process termination, unelevated launching and file download.

pub mod download;
pub mod launch;
pub mod process;
pub mod process_tasks;
pub mod semver_compare;
pub mod strings;
