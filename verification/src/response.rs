use vstd::prelude::*;
use vstd::string::StringExecFns;
use vstd::utf8::{decode_utf8, valid_utf8};

use crate::model::{ErrorV, PluginError};
use crate::text::{decimal, to_decimal};

verus! {

/// `String::from_utf8`: the text that `bytes` encode, or `None` where they are not UTF-8.
#[verifier::external_body]
fn string_from_utf8(bytes: Vec<u8>) -> (r: Option<String>)
    ensures
        match r {
            Some(s) => valid_utf8(bytes@) && s@ == decode_utf8(bytes@),
            None => !valid_utf8(bytes@),
        },
{
    String::from_utf8(bytes).ok()
}

/// The error code for a catalog request that the provider answered with `status`.
///
/// `auth_errors` says whether 401 and 403 are told apart as an expired credential.
pub open spec fn status_error_code(status: u16, auth_errors: bool) -> Seq<char> {
    if status == 429 {
        "rate_limited"@
    } else if auth_errors && (status == 401 || status == 403) {
        "credential_expired"@
    } else {
        "upstream_unavailable"@
    }
}

/// What a catalog response comes to, in the order the checks are made: a truncated body,
/// a body that is not UTF-8, a status other than 200; else the body's text.
pub open spec fn response_outcome(
    label: Seq<char>,
    status: u16,
    body_truncated: bool,
    body: Seq<u8>,
    auth_errors: bool,
) -> Result<Seq<char>, ErrorV> {
    if body_truncated {
        Err(
            ErrorV {
                code: "upstream_unavailable"@,
                message: label + " model catalog response was truncated"@,
                retryable: true,
            },
        )
    } else if !valid_utf8(body) {
        Err(
            ErrorV {
                code: "protocol_error"@,
                message: label + " model catalog is not UTF-8"@,
                retryable: false,
            },
        )
    } else if status != 200 {
        Err(
            ErrorV {
                code: status_error_code(status, auth_errors),
                message: label + " model catalog returned HTTP "@ + decimal(status as nat),
                retryable: status == 429 || status >= 500,
            },
        )
    } else {
        Ok(decode_utf8(body))
    }
}

/// Whether a result of a catalog check matches its model.
pub open spec fn outcome_matches(r: Result<String, PluginError>, o: Result<Seq<char>, ErrorV>) -> bool {
    match r {
        Ok(text) => o == Ok::<Seq<char>, ErrorV>(text@),
        Err(e) => o == Err::<Seq<char>, ErrorV>(e@),
    }
}

/// The text of a catalog response, or the error it comes to (see [`response_outcome`]).
pub fn check_catalog_response(
    label: &str,
    status: u16,
    body_truncated: bool,
    body: Vec<u8>,
    auth_errors: bool,
) -> (r: Result<String, PluginError>)
    ensures
        outcome_matches(r, response_outcome(label@, status, body_truncated, body@, auth_errors)),
{
    let ghost bytes = body@;
    if body_truncated {
        let mut message = label.to_owned();
        message.append(" model catalog response was truncated");
        return Err(PluginError::new("upstream_unavailable", message.as_str(), true));
    }
    let text = match string_from_utf8(body) {
        Some(text) => text,
        None => {
            let mut message = label.to_owned();
            message.append(" model catalog is not UTF-8");
            return Err(PluginError::new("protocol_error", message.as_str(), false));
        },
    };
    if status != 200 {
        let code = if status == 429 {
            "rate_limited"
        } else if auth_errors && (status == 401 || status == 403) {
            "credential_expired"
        } else {
            "upstream_unavailable"
        };
        let mut message = label.to_owned();
        message.append(" model catalog returned HTTP ");
        let digits = to_decimal(status as u64);
        message.append(digits.as_str());
        return Err(PluginError::new(code, message.as_str(), status == 429 || status >= 500));
    }
    Ok(text)
}

/// The error for a catalog response that is not valid JSON; `detail` says why.
pub fn invalid_catalog_json(label: &str, detail: &str) -> (r: PluginError)
    ensures
        r@ == (ErrorV {
            code: "protocol_error"@,
            message: "invalid "@ + label@ + " model catalog JSON: "@ + detail@,
            retryable: false,
        }),
{
    let mut message = "invalid ".to_owned();
    message.append(label);
    message.append(" model catalog JSON: ");
    message.append(detail);
    PluginError::new("protocol_error", message.as_str(), false)
}

/// The error for an account of another provider than the one discovery was asked for.
pub open spec fn foreign_account_error() -> ErrorV {
    ErrorV {
        code: "invalid_configuration"@,
        message: "model discovery account does not belong to the requested provider"@,
        retryable: false,
    }
}

/// Accepts an account only for the provider that discovery was asked for.
pub fn check_account(provider_id: &str, account_provider_id: &str) -> (r: Result<(), PluginError>)
    ensures
        match r {
            Ok(()) => account_provider_id@ == provider_id@,
            Err(e) => account_provider_id@ != provider_id@ && e@ == foreign_account_error(),
        },
{
    if crate::text::str_eq(account_provider_id, provider_id) {
        Ok(())
    } else {
        Err(
            PluginError::new(
                "invalid_configuration",
                "model discovery account does not belong to the requested provider",
                false,
            ),
        )
    }
}

} // verus!
