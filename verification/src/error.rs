//! Errors of the grammar engine.
use vstd::prelude::*;
use crate::text::{concat2, concat3};

verus! {

/// What can go wrong when deriving, analysing or serving.
#[derive(Debug)]
pub enum PaniniError {
    VidyaConnection(String),
    RuleParse(String),
    InvalidArgument { tool: String, argument: String, constraint: String, received: String },
    NoRulesLoaded(String),
}

/// The human-readable text of an error.
pub open spec fn error_text(e: PaniniError) -> Seq<char> {
    match e {
        PaniniError::VidyaConnection(s) => "vidya connection failed: "@ + s@,
        PaniniError::RuleParse(s) => "failed to parse rule: "@ + s@,
        PaniniError::InvalidArgument { tool, argument, constraint, received } => "invalid argument for "@
            + tool@ + "."@ + argument@ + ": "@ + constraint@ + " (got: "@ + received@ + ")"@,
        PaniniError::NoRulesLoaded(t) => "no rules loaded for template '"@ + t@ + "'"@,
    }
}

impl PaniniError {
    /// The human-readable text of the error.
    pub fn message(&self) -> (r: String)
        ensures
            r@ == error_text(*self),
    {
        match self {
            PaniniError::VidyaConnection(s) => concat2("vidya connection failed: ", s.as_str()),
            PaniniError::RuleParse(s) => concat2("failed to parse rule: ", s.as_str()),
            PaniniError::InvalidArgument { tool, argument, constraint, received } => {
                let mut r = concat3("invalid argument for ", tool.as_str(), ".");
                r.append(argument.as_str());
                r.append(": ");
                r.append(constraint.as_str());
                r.append(" (got: ");
                r.append(received.as_str());
                r.append(")");
                r
            },
            PaniniError::NoRulesLoaded(t) => concat3(
                "no rules loaded for template '",
                t.as_str(),
                "'",
            ),
        }
    }
}

} // verus!
