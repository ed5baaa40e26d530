//! What the packaging tool works out: what a package manifest says, the
//! notes of a release, and the commands to run. Reading files and running
//! commands is left to the caller.

pub mod changelog;
pub mod commands;
pub mod manifest;

pub use changelog::get_changelog_notes;
pub use commands::{cargo_exec, exec, try_exec, xtask_exec};
pub use manifest::{
    get_cargo_toml, get_current_version, get_default_app_name, get_default_bin_name,
    get_default_build_dir, get_default_release_dir, get_default_target_dir, get_metadata_entry,
};
