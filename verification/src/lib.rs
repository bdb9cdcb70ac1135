//! Workspace orchestration for a monorepo: discovers sub-projects under the
//! `apps/` and `libs/` collections, aggregates their script tables into a
//! single namespaced root script table, synthesizes the root manifest from a
//! template, and plans bulk install / cleanup operations with per-item
//! failure accounting.

use vstd::prelude::*;

pub mod aggregate;
pub mod batch;
pub mod cleanup;
pub mod deps;
pub mod manifest;
pub mod reset;
pub mod scan;
pub mod scripts;

verus! {

use vstd::string::StringExecFns;

/// The error kinds a workspace operation can surface.
#[derive(Debug)]
pub enum WorkspaceError {
    /// No ancestor of the starting directory holds the sentinel template file.
    RootNotFound,
    /// The template manifest is absent, so initialization cannot proceed.
    TemplateMissing,
    /// A manifest's relative path has no parent component.
    InvalidManifestPath,
    /// A manifest file is present but is not well-formed structured data.
    ManifestParseError,
    /// Two sub-projects produced the same namespaced script key.
    DuplicateScriptKey(String),
}

impl WorkspaceError {
    /// A human-readable description of the error.
    pub fn message(&self) -> (r: String)
        ensures
            r@.len() > 0,
    {
        let r = match self {
            WorkspaceError::RootNotFound => String::from_str("cannot find workspace root"),
            WorkspaceError::TemplateMissing => String::from_str("template manifest not found"),
            WorkspaceError::InvalidManifestPath => String::from_str("invalid manifest path"),
            WorkspaceError::ManifestParseError => String::from_str("manifest is not well-formed"),
            WorkspaceError::DuplicateScriptKey(k) => {
                let mut s = String::from_str("duplicate script key: ");
                s.append(k.as_str());
                s
            },
        };
        proof {
            reveal_strlit("cannot find workspace root");
            reveal_strlit("template manifest not found");
            reveal_strlit("invalid manifest path");
            reveal_strlit("manifest is not well-formed");
            reveal_strlit("duplicate script key: ");
        }
        r
    }
}

} // verus!
