//! The two interface-description operations. The description parser is an
//! outside collaborator; everything around its call — the synthetic service
//! wrapper for function-only fragments, the rendering of failures, and the
//! result envelope — is defined and verified here.

use vstd::prelude::*;
use vstd::string::StringExecFns;

verus! {

use crate::envelope::envelope_json;
use crate::envelope::outcome_view;
use crate::envelope::wrap_outcome;
use crate::normalize::marshal_error;
use crate::normalize::marshal_error_text;

/// What the interface-description parser yields for a given description
/// text, rendered to plain strings: `Err(d)` when the parser rejects the
/// text, `d` being its diagnostic; `Ok(Ok(j))` when it accepts the text and
/// the parsed service serializes to the JSON text `j`; `Ok(Err(m))` when
/// that serialization itself fails with message `m`.
pub uninterp spec fn candid_parse_outcome(candid: Seq<char>) -> Result<
    Result<Seq<char>, Seq<char>>,
    Seq<char>,
>;

/// The view of an executable parse outcome, payloads as character sequences.
pub open spec fn parse_outcome_view(r: Result<Result<String, String>, String>) -> Result<
    Result<Seq<char>, Seq<char>>,
    Seq<char>,
> {
    match r {
        Ok(Ok(j)) => Ok(Ok(j@)),
        Ok(Err(m)) => Ok(Err(m@)),
        Err(d) => Err(d@),
    }
}

/// Relies on `ic_canister_kit::candid::parse_service_candid`, a pure
/// recursive-descent parser from description text to a service value, on
/// `serde_json::to_string` for that value, and on the parse error's `Debug`
/// rendering: the whole outcome is a function of the text alone.
#[verifier::external_body]
fn parse_candid_text(candid: &str) -> (r: Result<Result<String, String>, String>)
    ensures
        parse_outcome_view(r) == candid_parse_outcome(candid@),
{
    match ic_canister_kit::candid::parse_service_candid(candid) {
        Ok(service) => match serde_json::to_string(&service) {
            Ok(text) => Ok(Ok(text)),
            Err(err) => Ok(Err(err.to_string())),
        },
        Err(err) => Err(format!("{:?}", err)),
    }
}

/// Flatten a parse outcome into the boundary outcome: the parsed service's
/// JSON text on success, the parser's diagnostic on rejection, and a
/// marshaling failure when the parsed service could not be serialized.
pub open spec fn flat_service_reply(parsed: Result<Result<Seq<char>, Seq<char>>, Seq<char>>) -> Result<
    Seq<char>,
    Seq<char>,
> {
    match parsed {
        Ok(serialized) => match serialized {
            Ok(j) => Ok(j),
            Err(m) => Err(marshal_error_text("stringify service"@, m)),
        },
        Err(d) => Err(d),
    }
}

/// The outcome a service-description parse reports across the boundary, as a
/// function of the description text.
pub open spec fn service_reply(candid: Seq<char>) -> Result<Seq<char>, Seq<char>> {
    flat_service_reply(candid_parse_outcome(candid))
}

fn service_outcome(parsed: Result<Result<String, String>, String>) -> (r: Result<String, String>)
    ensures
        outcome_view(r) == flat_service_reply(parse_outcome_view(parsed)),
{
    match parsed {
        Ok(serialized) => match serialized {
            Ok(j) => Ok(j),
            Err(m) => Err(marshal_error("stringify service", m.as_str())),
        },
        Err(d) => Err(d),
    }
}

/// Parse a service description and answer with an envelope: the parsed
/// service as JSON text under `ok`, or a diagnostic under `err`.
pub fn parse_service_candid(candid: &str) -> (r: String)
    ensures
        r@ == envelope_json(service_reply(candid@)),
{
    let outcome = service_outcome(parse_candid_text(candid));
    wrap_outcome(outcome)
}

/// The synthetic service wrapper around a function-only fragment. The
/// fragment is embedded verbatim: no escaping is applied, so the caller owes
/// a syntactically valid fragment.
pub open spec fn func_service_text(func: Seq<char>) -> Seq<char> {
    "service : {\n    "@ + func + "\n}"@
}

/// Parse a function-only description fragment by embedding it in a synthetic
/// service wrapper; the answer is exactly what parsing the wrapped text as a
/// full service description answers.
pub fn parse_func_candid(func: &str) -> (r: String)
    ensures
        r@ == envelope_json(service_reply(func_service_text(func@))),
{
    let mut text = String::from_str("service : {\n    ");
    text.append(func);
    text.append("\n}");
    proof {
        assert(text@ =~= func_service_text(func@));
    }
    let outcome = service_outcome(parse_candid_text(text.as_str()));
    wrap_outcome(outcome)
}

} // verus!
