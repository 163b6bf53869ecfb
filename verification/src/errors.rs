//! The single failure kind of the resolver: a client/data error carrying
//! a human-readable message.  Fetch and parse failures are surfaced
//! as-is; missing coordinate fields and rootless documents get messages
//! of their own.

use vstd::prelude::*;
use vstd::string::StringExecFns;

use crate::model::{fqn_display, ArtifactFqn, FqnView};

verus! {

/// The kind of a resolution failure.
#[derive(Debug, Clone, Copy, PartialEq, Eq, Structural)]
pub enum ErrorKind {
    ClientError,
}

/// A resolution failure: its kind and a human-readable message.
#[derive(Debug)]
pub struct ResolverError {
    pub kind: ErrorKind,
    pub msg: String,
}

/// The message reported when a required coordinate field is absent.
pub open spec fn missing_parameter_msg(f: FqnView, field_name: Seq<char>) -> Seq<char> {
    "'"@ + field_name + "' is missing from "@ + fqn_display(f)
}

/// The message reported for malformed input data.
pub open spec fn invalid_data_msg(details: Seq<char>) -> Seq<char> {
    "Invalid input data: "@ + details
}

/// The message reported when a coordinate cannot be resolved.
pub open spec fn cant_resolve_msg(f: FqnView, cause: Seq<char>) -> Seq<char> {
    "Can't resolve "@ + fqn_display(f) + ": "@ + cause
}

impl ResolverError {
    /// A required coordinate field is absent, named together with the
    /// coordinate it is missing from.
    pub fn missing_parameter(fqn: &ArtifactFqn, field_name: &str) -> (r: Self)
        ensures
            r.kind == ErrorKind::ClientError,
            r.msg@ == missing_parameter_msg(fqn@, field_name@),
    {
        let mut msg = String::new();
        msg.append("'");
        msg.append(field_name);
        msg.append("' is missing from ");
        let shown = fqn.to_display_string();
        msg.append(shown.as_str());
        proof {
            assert(msg@ =~= missing_parameter_msg(fqn@, field_name@));
        }
        ResolverError { kind: ErrorKind::ClientError, msg }
    }

    /// The input document is malformed.
    pub fn invalid_data(details: &str) -> (r: Self)
        ensures
            r.kind == ErrorKind::ClientError,
            r.msg@ == invalid_data_msg(details@),
    {
        let mut msg = String::new();
        msg.append("Invalid input data: ");
        msg.append(details);
        proof {
            assert(msg@ =~= invalid_data_msg(details@));
        }
        ResolverError { kind: ErrorKind::ClientError, msg }
    }

    /// A coordinate cannot be resolved, for the given cause.
    pub fn cant_resolve(artifact_id: &ArtifactFqn, cause: &str) -> (r: Self)
        ensures
            r.kind == ErrorKind::ClientError,
            r.msg@ == cant_resolve_msg(artifact_id@, cause@),
    {
        let mut msg = String::new();
        msg.append("Can't resolve ");
        let shown = artifact_id.to_display_string();
        msg.append(shown.as_str());
        msg.append(": ");
        msg.append(cause);
        proof {
            assert(msg@ =~= cant_resolve_msg(artifact_id@, cause@));
        }
        ResolverError { kind: ErrorKind::ClientError, msg }
    }
}

} // verus!
