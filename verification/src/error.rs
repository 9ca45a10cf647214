//! Errors of the command line.

use vstd::prelude::*;

use crate::paths;

verus! {

/// What went wrong while a command was carried out.
#[derive(Debug, Clone, PartialEq, Eq)]
pub enum NonoError {
    /// The input or the state of a session does not allow the request.
    ConfigParse(String),
    /// A path could not be made canonical.
    PathCanonicalization { path: Vec<u8>, source: String },
    /// A file could not be read.
    ConfigRead { path: Vec<u8>, source: String },
    /// Another client is attached to the session.
    AttachBusy,
    /// The session ended before it could be reached.
    SessionGone,
}

/// An error, with its texts as character sequences.
#[verifier::ext_equal]
pub enum ErrorView {
    ConfigParse(Seq<char>),
    PathCanonicalization { path: Seq<u8>, source: Seq<char> },
    ConfigRead { path: Seq<u8>, source: Seq<char> },
    AttachBusy,
    SessionGone,
}

impl View for NonoError {
    type V = ErrorView;

    open spec fn view(&self) -> ErrorView {
        match self {
            NonoError::ConfigParse(m) => ErrorView::ConfigParse(m@),
            NonoError::PathCanonicalization { path, source } => ErrorView::PathCanonicalization {
                path: path@,
                source: source@,
            },
            NonoError::ConfigRead { path, source } => ErrorView::ConfigRead {
                path: path@,
                source: source@,
            },
            NonoError::AttachBusy => ErrorView::AttachBusy,
            NonoError::SessionGone => ErrorView::SessionGone,
        }
    }
}

/// A fallible result, success and error both by their views.
pub open spec fn outcome<T: View>(r: Result<T, NonoError>) -> Result<T::V, ErrorView> {
    match r {
        Ok(v) => Ok(v@),
        Err(e) => Err(e@),
    }
}

/// The text shown to the user for an error.
pub open spec fn error_text(e: ErrorView) -> Seq<char> {
    match e {
        ErrorView::ConfigParse(m) => m,
        ErrorView::PathCanonicalization { path, source } => "Failed to canonicalize path "@
            + paths::shown(path) + ": "@ + source,
        ErrorView::ConfigRead { path, source } => "Failed to read "@ + paths::shown(path)
            + ": "@ + source,
        ErrorView::AttachBusy => "session already has an attached client"@,
        ErrorView::SessionGone => "session is gone"@,
    }
}

impl NonoError {
    /// The same error once more.
    pub fn duplicate(&self) -> (out: NonoError)
        ensures
            out@ == self@,
    {
        match self {
            NonoError::ConfigParse(m) => NonoError::ConfigParse(m.clone()),
            NonoError::PathCanonicalization { path, source } => NonoError::PathCanonicalization {
                path: paths::bytes_copy(path),
                source: source.clone(),
            },
            NonoError::ConfigRead { path, source } => NonoError::ConfigRead {
                path: paths::bytes_copy(path),
                source: source.clone(),
            },
            NonoError::AttachBusy => NonoError::AttachBusy,
            NonoError::SessionGone => NonoError::SessionGone,
        }
    }

    /// The text shown to the user.
    pub fn message(&self) -> (out: String)
        ensures
            out@ == error_text(self@),
    {
        match self {
            NonoError::ConfigParse(m) => m.clone(),
            NonoError::PathCanonicalization { path, source } => {
                let mut out = "Failed to canonicalize path ".to_owned();
                let shown = paths::display(path);
                out.append(shown.as_str());
                out.append(": ");
                out.append(source.as_str());
                out
            },
            NonoError::ConfigRead { path, source } => {
                let mut out = "Failed to read ".to_owned();
                let shown = paths::display(path);
                out.append(shown.as_str());
                out.append(": ");
                out.append(source.as_str());
                out
            },
            NonoError::AttachBusy => "session already has an attached client".to_owned(),
            NonoError::SessionGone => "session is gone".to_owned(),
        }
    }
}

/// What is shown of an error: its message, or what failed, with the path and the reason.
pub proof fn law_errors_name_what_failed(e: ErrorView)
    ensures
        e matches ErrorView::ConfigParse(m) ==> error_text(e) == m,
        e matches ErrorView::PathCanonicalization { path, source } ==> error_text(e)
            == "Failed to canonicalize path "@ + paths::shown(path) + ": "@ + source,
        e matches ErrorView::ConfigRead { path, source } ==> error_text(e) == "Failed to read "@
            + paths::shown(path) + ": "@ + source,
{
}

} // verus!
