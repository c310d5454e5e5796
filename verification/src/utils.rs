//! Small helpers: error texts, defaults for settings, and the expiry of a
//! marketplace credential.

use vstd::prelude::*;
use vstd::string::StringExecFns;

verus! {

/// The text of a failure: what was being done, and what went wrong.
pub open spec fn failure_text(process: Seq<char>, error: Seq<char>) -> Seq<char> {
    "Failed "@ + process + ": "@ + error
}

/// Describes a failure: `Failed <process>: <error>`.
pub fn make_err(err: &str, process: &str) -> (text: String)
    ensures
        text@ == failure_text(process@, err@),
{
    let mut text = String::from_str("Failed ");
    text.append(process);
    text.append(": ");
    text.append(err);
    text
}

/// The value of a setting, or the default where it is not set. Never fails.
pub fn get_env_or(value: Result<String, String>, default: String) -> (r: Result<String, String>)
    ensures
        r == Ok::<String, String>(
            match value {
                Ok(v) => v,
                Err(_) => default,
            },
        ),
{
    match value {
        Ok(v) => Ok(v),
        Err(_) => Ok(default),
    }
}

/// What `jsonwebtoken` reads from a token whose signature and expiry are
/// not checked: its `exp` claim where that is a non-negative integer, `None`
/// where the claims hold no such number, or the crate's error as text where
/// the token does not decode.
pub uninterp spec fn jwt_expiry(token: Seq<char>) -> Result<Option<u64>, Seq<char>>;

/// Decodes a token with `jsonwebtoken::decode`, with the default validation
/// but for two switches: the signature is not validated and the expiry is
/// not compared with the clock. Believed, not proved: the result is the
/// `exp` claim that the crate finds in the token, or the `Debug` text of the
/// crate's error.
#[verifier::external_body]
fn decode_expiry(jwt: &str) -> (r: Result<Option<u64>, String>)
    ensures
        jwt_expiry(jwt@) == match r {
            Ok(exp) => Ok::<Option<u64>, Seq<char>>(exp),
            Err(text) => Err::<Option<u64>, Seq<char>>(text@),
        },
{
    let mut validation = jsonwebtoken::Validation::default();
    validation.insecure_disable_signature_validation();
    validation.validate_exp = false;
    let key = jsonwebtoken::DecodingKey::from_secret(&[]);
    match jsonwebtoken::decode::<serde_json::Value>(jwt, &key, &validation) {
        Ok(data) => Ok(data.claims.get("exp").and_then(|v| v.as_u64())),
        Err(err) => Err(format!("{:?}", err)),
    }
}

/// What is read from a decoded token: the expiry in seconds, or the text of
/// the failure.
pub open spec fn spec_expire(decoded: Result<Option<u64>, Seq<char>>) -> Result<usize, Seq<char>> {
    match decoded {
        Ok(Some(exp)) => if exp <= usize::MAX {
            Ok(exp as usize)
        } else {
            Err(failure_text("decode jwt"@, "exp out of range"@))
        },
        Ok(None) => Err(failure_text("decode jwt"@, "missing exp"@)),
        Err(text) => Err(failure_text("decode jwt"@, text)),
    }
}

/// A result that holds a text, by the characters of the text.
pub open spec fn text_view(r: Result<usize, String>) -> Result<usize, Seq<char>> {
    match r {
        Ok(n) => Ok(n),
        Err(text) => Err(text@),
    }
}

/// Turns what was decoded from a token into the expiry in seconds.
pub fn expire_from(decoded: Result<Option<u64>, String>) -> (r: Result<usize, String>)
    ensures
        text_view(r) == spec_expire(
            match decoded {
                Ok(exp) => Ok(exp),
                Err(text) => Err(text@),
            },
        ),
{
    match decoded {
        Ok(Some(exp)) => {
            if exp <= usize::MAX as u64 {
                Ok(exp as usize)
            } else {
                Err(make_err("exp out of range", "decode jwt"))
            }
        },
        Ok(None) => Err(make_err("missing exp", "decode jwt")),
        Err(text) => Err(make_err(text.as_str(), "decode jwt")),
    }
}

/// The time, in seconds since the epoch, at which a marketplace credential
/// expires, read from the token without checking its signature.
pub fn get_jwt_expire(jwt: &str) -> (r: Result<usize, String>)
    ensures
        text_view(r) == spec_expire(jwt_expiry(jwt@)),
{
    expire_from(decode_expiry(jwt))
}

} // verus!
