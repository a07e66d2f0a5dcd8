use vstd::prelude::*;
use vstd::utf8::*;

use crate::errors::Errors;
use crate::text::{trim, trimmed};

verus! {

/// Decodes `bytes` with `String::from_utf8` of std.
///
/// Trusted: std documents that `from_utf8` succeeds exactly on valid UTF-8
/// and that the string then holds the characters the bytes encode; the
/// contract states this with vstd's `valid_utf8` and `decode_utf8`.
#[verifier::external_body]
pub(crate) fn utf8_to_string(bytes: Vec<u8>) -> (r: Option<String>)
    ensures
        r is Some <==> valid_utf8(bytes@),
        r matches Some(s) ==> s@ == decode_utf8(bytes@),
{
    String::from_utf8(bytes).ok()
}

/// Turns the raw output of a process into text.
///
/// Succeeds exactly when the bytes are valid UTF-8, with the decoded text;
/// fails with `Errors::UTF8Error` otherwise.
pub fn string_from_uft8(str: Vec<u8>) -> (r: Result<String, Errors>)
    ensures
        valid_utf8(str@) ==> (r matches Ok(s) && s@ == decode_utf8(str@)),
        !valid_utf8(str@) ==> r == Err::<String, Errors>(Errors::UTF8Error),
{
    match utf8_to_string(str) {
        Some(s) => Ok(s),
        None => Err(Errors::UTF8Error),
    }
}

/// The path of the Docker executable from a run of `which docker`:
/// `Errors::DockerNotFound` when the run failed or printed nothing but
/// white space, `Errors::UTF8Error` when the output is not UTF-8, and
/// otherwise the printed text without surrounding white space.
pub fn docker_path(found: bool, which_output: Vec<u8>) -> (r: Result<String, Errors>)
    ensures
        !found ==> r == Err::<String, Errors>(Errors::DockerNotFound),
        found && !valid_utf8(which_output@) ==> r == Err::<String, Errors>(Errors::UTF8Error),
        found && valid_utf8(which_output@) && trimmed(decode_utf8(which_output@)).len() == 0 ==> r
            == Err::<String, Errors>(Errors::DockerNotFound),
        found && valid_utf8(which_output@) && trimmed(decode_utf8(which_output@)).len() > 0 ==> (r matches Ok(s)
            && s@ == trimmed(decode_utf8(which_output@))),
{
    if !found {
        return Err(Errors::DockerNotFound);
    }
    let path_string = string_from_uft8(which_output)?;
    let path = trim(path_string.as_str());
    if path.as_str().is_empty() {
        Err(Errors::DockerNotFound)
    } else {
        Ok(path)
    }
}

} // verus!
