//! Checks on configuration variables and on request paths.

use vstd::prelude::*;

use crate::error::Error;
use crate::json::{is_json, parses_as_json};
use crate::text::{
    all_white_space, concat2, concat3, is_blank, lower, lower_text, same_text, split_on,
    split_text,
};

verus! {

/// The outcome of `validate_env_var` for a variable named `variable` whose
/// value is `value` (`None` when it is not defined), checked as `variable_type`.
pub open spec fn env_var_check(variable: Seq<char>, value: Option<Seq<char>>, variable_type: Seq<char>) -> Result<Seq<char>, Seq<char>> {
    match value {
        None => Err(variable + " is not defined."@),
        Some(v) => if all_white_space(v) {
            Err(variable + " is empty."@)
        } else if lower_text(variable_type) == "json"@ && !parses_as_json(v) {
            Err("Failed to parse "@ + variable + " as JSON."@)
        } else {
            Ok(variable + " validated successfully."@)
        },
    }
}

/// A variable checked as `string` is valid exactly when it is defined and
/// not blank.
pub proof fn lemma_string_variable(variable: Seq<char>, value: Option<Seq<char>>)
    ensures
        env_var_check(variable, value, "string"@) is Ok <==> (value matches Some(v) && !all_white_space(v)),
{
    crate::text::lemma_string_is_not_json();
}

/// Validates an environment variable: it must be defined and not blank, and
/// when `variable_type` is `json` (in any case) it must parse as JSON; any
/// other type counts as `string`.
pub fn validate_env_var(variable: &str, value: Option<&str>, variable_type: &str) -> (res: Result<String, Error>)
    ensures
        match env_var_check(variable@, match value { Some(v) => Some(v@), None => None }, variable_type@) {
            Ok(m) => res matches Ok(r) && r@ == m,
            Err(m) => res matches Err(e) && e@ == m,
        },
{
    let kind = lower(variable_type);
    let json_kind = same_text(kind.as_str(), "json");
    match value {
        None => Err(Error::new(concat2(variable, " is not defined."))),
        Some(v) => {
            if is_blank(v) {
                return Err(Error::new(concat2(variable, " is empty.")));
            }
            if json_kind && !is_json(v) {
                return Err(Error::new(concat3("Failed to parse ", variable, " as JSON.")));
            }
            Ok(concat2(variable, " validated successfully."))
        },
    }
}

/// The `/`-separated segments of a path.
pub open spec fn path_segments(path: Seq<char>) -> Seq<Seq<char>> {
    split_on(path, '/')
}

/// Extracts the AI version and backend from a path of the form
/// `/api/{version}/{backend}`: the third and fourth `/`-separated segments.
/// A path without a fourth segment is refused.
pub fn parse_path(path: &str) -> (res: Result<(String, String), Error>)
    ensures
        path_segments(path@).len() < 4 <==> res is Err,
        res matches Err(e) ==> e@ == "Invalid path."@,
        res matches Ok((version, backend)) ==> version@ == path_segments(path@)[2]
            && backend@ == path_segments(path@)[3],
{
    let parts = split_text(path, '/');
    if parts.len() < 4 {
        return Err(Error::new(crate::text::owned("Invalid path.")));
    }
    assert(parts@[2]@ == path_segments(path@)[2]);
    assert(parts@[3]@ == path_segments(path@)[3]);
    let version = parts[2].clone();
    let backend = parts[3].clone();
    Ok((version, backend))
}

} // verus!
