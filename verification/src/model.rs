//! Entity model: the Project -> EnvFile -> Category -> Group tree that the
//! caller supplies for one menu build. The engine holds no state of its own;
//! every build walks a fresh snapshot of this tree.

use vstd::prelude::*;

verus! {

/// An actionable configuration group. `project_id` and `env_file_path` are
/// denormalized copies of the ancestor keys, so a group can be identified
/// without walking back up the tree.
#[derive(Debug)]
pub struct TrayGroup {
    pub id: String,
    pub name: String,
    pub project_id: String,
    pub env_file_path: String,
    pub category: String,
}

/// A grouping label with its ordered groups.
#[derive(Debug)]
pub struct TrayCategory {
    pub name: String,
    pub groups: Vec<TrayGroup>,
}

/// An environment file with its ordered categories. `path` is part of the
/// identity key, not displayed; it may hold arbitrary characters.
#[derive(Debug)]
pub struct TrayEnvFile {
    pub name: String,
    pub path: String,
    pub categories: Vec<TrayCategory>,
}

/// A project with its ordered environment files.
#[derive(Debug)]
pub struct TrayProjectData {
    pub id: String,
    pub name: String,
    pub env_files: Vec<TrayEnvFile>,
}

} // verus!
