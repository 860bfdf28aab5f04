//! Rendering failures as flat strings. A local marshaling failure is always
//! rendered as `<context> failed: <reason>`. A collaborator's structured
//! error that was already serialized to JSON crosses the boundary verbatim;
//! only a failure of that serialization is itself rendered as a marshaling
//! failure.

use vstd::prelude::*;
use vstd::string::StringExecFns;

verus! {

use crate::envelope::outcome_view;

/// The uniform text of a local marshaling failure.
pub open spec fn marshal_error_text(context: Seq<char>, reason: Seq<char>) -> Seq<char> {
    context + " failed: "@ + reason
}

/// A marshaling failure is never rendered as the empty string.
pub proof fn lemma_marshal_error_nonempty(context: Seq<char>, reason: Seq<char>)
    ensures
        marshal_error_text(context, reason).len() > 0,
{
    reveal_strlit(" failed: ");
}

/// Render a local marshaling failure as `<context> failed: <reason>`.
pub fn marshal_error(context: &str, reason: &str) -> (r: String)
    ensures
        r@ == marshal_error_text(context@, reason@),
{
    let mut s = String::from_str(context);
    s.append(" failed: ");
    s.append(reason);
    proof {
        assert(s@ =~= marshal_error_text(context@, reason@));
    }
    s
}

/// The error payload under the structured-passthrough policy, given the
/// outcome of serializing the collaborator's structured error to JSON.
pub open spec fn link_error_text(serialized: Result<Seq<char>, Seq<char>>) -> Seq<char> {
    match serialized {
        Ok(s) => s,
        Err(e) => marshal_error_text("stringify link error"@, e),
    }
}

/// Choose the envelope's error payload for a link-checking operation: the
/// serialized structured error verbatim when serialization succeeded, else a
/// marshaling failure naming that step.
pub fn link_error_payload(serialized: Result<String, String>) -> (r: String)
    ensures
        r@ == link_error_text(outcome_view(serialized)),
{
    match serialized {
        Ok(s) => s,
        Err(e) => marshal_error("stringify link error", e.as_str()),
    }
}

} // verus!
