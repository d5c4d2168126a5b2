//! Error normalization for remote failures.

use crate::text::{
    byte_len, chars_of, contains_chars, is_substring, longer_than, prefix_within, take_within,
};
use vstd::prelude::*;

verus! {

/// The longest error text, in bytes, that is shown in full.
pub const MAX_ERROR_BYTES: usize = 60;

/// The short message that a remote error's text is shown as.
///
/// The known failure categories are tried in this order: connectivity,
/// invalid credentials, expired credentials, access denied, missing
/// credentials, timeout, region. A text of no known category is shown as it
/// is where it takes at most 60 bytes, and else cut to its longest prefix of
/// at most 60 bytes, followed by three dots.
pub open spec fn normalized(text: Seq<char>) -> Seq<char> {
    if is_substring("dispatch failure"@, text) {
        "Connection failed - check internet/credentials"@
    } else if is_substring("InvalidClientTokenId"@, text) || is_substring(
        "SignatureDoesNotMatch"@,
        text,
    ) {
        "Invalid credentials - run 'aws configure'"@
    } else if is_substring("ExpiredToken"@, text) {
        "Credentials expired - refresh or reconfigure"@
    } else if is_substring("AccessDenied"@, text) || is_substring("UnauthorizedAccess"@, text) {
        "Access denied - check IAM permissions"@
    } else if is_substring("NoCredentialProviders"@, text) || is_substring(
        "no credentials"@,
        text,
    ) {
        "No credentials - run 'aws configure'"@
    } else if is_substring("timeout"@, text) || is_substring("Timeout"@, text) {
        "Request timed out - check connection"@
    } else if is_substring("region"@, text) {
        "Region error - check AWS_REGION"@
    } else if byte_len(text) > MAX_ERROR_BYTES {
        prefix_within(text, MAX_ERROR_BYTES as nat) + "..."@
    } else {
        text
    }
}

fn mentions(text: &Vec<char>, pattern: &str) -> (r: bool)
    ensures
        r == is_substring(pattern@, text@),
{
    let p = chars_of(pattern);
    contains_chars(text, &p)
}

/// Turns the text of a remote error into a short message for the user.
pub fn format_aws_error(err: &str) -> (r: String)
    ensures
        r@ == normalized(err@),
{
    let text = chars_of(err);
    if mentions(&text, "dispatch failure") {
        return "Connection failed - check internet/credentials".to_owned();
    }
    if mentions(&text, "InvalidClientTokenId") || mentions(&text, "SignatureDoesNotMatch") {
        return "Invalid credentials - run 'aws configure'".to_owned();
    }
    if mentions(&text, "ExpiredToken") {
        return "Credentials expired - refresh or reconfigure".to_owned();
    }
    if mentions(&text, "AccessDenied") || mentions(&text, "UnauthorizedAccess") {
        return "Access denied - check IAM permissions".to_owned();
    }
    if mentions(&text, "NoCredentialProviders") || mentions(&text, "no credentials") {
        return "No credentials - run 'aws configure'".to_owned();
    }
    if mentions(&text, "timeout") || mentions(&text, "Timeout") {
        return "Request timed out - check connection".to_owned();
    }
    if mentions(&text, "region") {
        return "Region error - check AWS_REGION".to_owned();
    }
    if longer_than(&text, MAX_ERROR_BYTES) {
        let mut r = take_within(&text, MAX_ERROR_BYTES);
        r.append("...");
        r
    } else {
        err.to_owned()
    }
}

} // verus!
