//! Error taxonomy of the engine: structural validation failures, permission
//! denials (carrying the user identity and the denied action), missing
//! records, and internal failures.

use vstd::prelude::*;

verus! {

/// The guarded action that a permission check refused.
#[derive(Clone, Copy, Debug, PartialEq, Eq, Structural)]
pub enum CollabAction {
    WriteWorkspace,
    UpdateCollab,
    ReadCollab,
    DeleteCollab,
}

/// A typed failure of the storage facade or of the dispatch pipeline.
#[derive(Clone, Debug)]
pub enum AppError {
    /// Malformed or internally inconsistent parameters, including a
    /// content-hash mismatch.
    Validation(String),
    /// A permission check refused `action` on `target` for user `uid`.
    PermissionDenied { uid: i64, action: CollabAction, target: String },
    /// The requested object or snapshot does not exist.
    NotFound(String),
    /// Decode failure or other unexpected internal failure.
    Internal(String),
}

impl AppError {
    /// True exactly of the `PermissionDenied` variant.
    pub open spec fn is_permission_denied(&self) -> bool {
        self matches AppError::PermissionDenied { .. }
    }

    /// True exactly of the `Validation` variant.
    pub open spec fn is_validation(&self) -> bool {
        self matches AppError::Validation(_)
    }

    /// True of a denial of `action` on `target` for `uid`.
    pub open spec fn denies(&self, uid: i64, action: CollabAction, target: Seq<char>) -> bool {
        match self {
            AppError::PermissionDenied { uid: u, action: a, target: t } => {
                *u == uid && *a == action && t@ == target
            },
            _ => false,
        }
    }
}

} // verus!
