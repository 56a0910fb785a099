//! The bridge's error taxonomy at the application surface.

use vstd::prelude::*;

verus! {

/// The failure families the application surfaces.
#[derive(Debug, Clone, PartialEq, Eq)]
pub enum AppError {
    Config(String),
    Database(String),
    Matrix(String),
    Slack(String),
    Bridge(String),
    Web(String),
    Io(String),
}

impl AppError {
    pub open spec fn spec_message(&self) -> Seq<char> {
        match self {
            AppError::Config(s) => "Configuration error: "@ + s@,
            AppError::Database(s) => "Database error: "@ + s@,
            AppError::Matrix(s) => "Matrix error: "@ + s@,
            AppError::Slack(s) => "Slack error: "@ + s@,
            AppError::Bridge(s) => "Bridge error: "@ + s@,
            AppError::Web(s) => "Web error: "@ + s@,
            AppError::Io(s) => "IO error: "@ + s@,
        }
    }

    /// The user-facing description of the failure.
    pub fn message(&self) -> (r: String)
        ensures
            r@ == self.spec_message(),
    {
        let (label, payload): (&'static str, &String) = match self {
            AppError::Config(s) => ("Configuration error: ", s),
            AppError::Database(s) => ("Database error: ", s),
            AppError::Matrix(s) => ("Matrix error: ", s),
            AppError::Slack(s) => ("Slack error: ", s),
            AppError::Bridge(s) => ("Bridge error: ", s),
            AppError::Web(s) => ("Web error: ", s),
            AppError::Io(s) => ("IO error: ", s),
        };
        let mut out = label.to_owned();
        out.append(payload.as_str());
        out
    }
}

} // verus!
