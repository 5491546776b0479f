//! The closed error taxonomy of the crate: one variant per failure kind, with
//! structured fields so that callers can branch on the kind.

use vstd::prelude::*;

use crate::path_model::{FsPath, path_text};

verus! {

/// Every failure the crate reports.
#[derive(Debug, Clone)]
pub enum ClearModelError {
    /// The configuration itself is unusable; a sweep never begins.
    Configuration { message: String },
    /// The process environment is missing or malformed.
    Environment { message: String },
    /// A path escaped its allowed base directory.
    PathTraversal { path: FsPath },
    /// A single file or directory operation failed; processing continues.
    FileOperation { message: String, path: Option<FsPath> },
    /// An operation was denied by the operating system.
    Permission { message: String },
    /// The sweep engine itself failed.
    ResourceManager { message: String },
    /// A cache-specific operation failed.
    Cache { message: String },
    /// A path was rejected by a security gate other than the base check.
    Security { message: String },
}

impl ClearModelError {
    pub fn configuration(message: String) -> (r: ClearModelError)
        ensures
            r == (ClearModelError::Configuration { message }),
    {
        ClearModelError::Configuration { message }
    }

    pub fn environment(message: String) -> (r: ClearModelError)
        ensures
            r == (ClearModelError::Environment { message }),
    {
        ClearModelError::Environment { message }
    }

    pub fn path_traversal(path: FsPath) -> (r: ClearModelError)
        ensures
            r == (ClearModelError::PathTraversal { path }),
    {
        ClearModelError::PathTraversal { path }
    }

    pub fn file_operation(message: String, path: Option<FsPath>) -> (r: ClearModelError)
        ensures
            r == (ClearModelError::FileOperation { message, path }),
    {
        ClearModelError::FileOperation { message, path }
    }

    pub fn permission(message: String) -> (r: ClearModelError)
        ensures
            r == (ClearModelError::Permission { message }),
    {
        ClearModelError::Permission { message }
    }

    pub fn resource_manager(message: String) -> (r: ClearModelError)
        ensures
            r == (ClearModelError::ResourceManager { message }),
    {
        ClearModelError::ResourceManager { message }
    }

    pub fn cache(message: String) -> (r: ClearModelError)
        ensures
            r == (ClearModelError::Cache { message }),
    {
        ClearModelError::Cache { message }
    }

    pub fn security(message: String) -> (r: ClearModelError)
        ensures
            r == (ClearModelError::Security { message }),
    {
        ClearModelError::Security { message }
    }

    /// A human-readable description of the error.
    pub fn message(&self) -> (r: String)
        ensures
            r@ == error_text(self),
    {
        let mut out = String::new();
        match self {
            ClearModelError::Configuration { message } => {
                out.append("Configuration error: ");
                out.append(message.as_str());
            },
            ClearModelError::Environment { message } => {
                out.append("Environment variable error: ");
                out.append(message.as_str());
            },
            ClearModelError::PathTraversal { path } => {
                out.append("Path traversal security violation: attempted to access ");
                let text = path.to_text();
                out.append(text.as_str());
            },
            ClearModelError::FileOperation { message, path } => {
                out.append("File operation error: ");
                out.append(message.as_str());
                match path {
                    Some(p) => {
                        out.append(" (path: ");
                        let text = p.to_text();
                        out.append(text.as_str());
                        out.append(")");
                    },
                    None => {},
                }
            },
            ClearModelError::Permission { message } => {
                out.append("Permission denied: ");
                out.append(message.as_str());
            },
            ClearModelError::ResourceManager { message } => {
                out.append("Resource manager error: ");
                out.append(message.as_str());
            },
            ClearModelError::Cache { message } => {
                out.append("Cache operation error: ");
                out.append(message.as_str());
            },
            ClearModelError::Security { message } => {
                out.append("Security validation failed: ");
                out.append(message.as_str());
            },
        }
        out
    }
}

/// The text that `message` renders for each variant.
pub open spec fn error_text(e: &ClearModelError) -> Seq<char> {
    match e {
        ClearModelError::Configuration { message } => "Configuration error: "@ + message@,
        ClearModelError::Environment { message } => "Environment variable error: "@ + message@,
        ClearModelError::PathTraversal { path } => "Path traversal security violation: attempted to access "@
            + path_text(path@),
        ClearModelError::FileOperation { message, path } => match path {
            Some(p) => "File operation error: "@ + message@ + " (path: "@ + path_text(p@) + ")"@,
            None => "File operation error: "@ + message@,
        },
        ClearModelError::Permission { message } => "Permission denied: "@ + message@,
        ClearModelError::ResourceManager { message } => "Resource manager error: "@ + message@,
        ClearModelError::Cache { message } => "Cache operation error: "@ + message@,
        ClearModelError::Security { message } => "Security validation failed: "@ + message@,
    }
}

} // verus!
