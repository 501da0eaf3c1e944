use vstd::prelude::*;
use vstd::utf8::{decode_utf8, valid_utf8};

use crate::error::StatsError;

verus! {

/// The bytes that `shell_quote::Bash` produces to quote the text `s`.
pub uninterp spec fn bash_quoted(s: Seq<char>) -> Seq<u8>;

/// Relies on `shell_quote::Bash::quote_vec`: a word that Bash reads back as
/// exactly `s`; the empty text becomes the two bytes `''`.
#[verifier::external_body]
fn bash_quote_vec(s: &str) -> (r: Vec<u8>)
    ensures
        r@ == bash_quoted(s@),
        s@.len() == 0 ==> r@ == seq![39u8, 39u8],
{
    shell_quote::Bash::quote_vec(s)
}

/// Relies on `String::from_utf8`: it succeeds exactly on valid UTF-8 and then
/// holds the decoded characters.
#[verifier::external_body]
pub(crate) fn string_from_utf8(v: Vec<u8>) -> (r: Option<String>)
    ensures
        r is Some <==> valid_utf8(v@),
        r matches Some(s) ==> s@ == decode_utf8(v@),
{
    match String::from_utf8(v) {
        Ok(s) => Some(s),
        Err(_) => None,
    }
}

/// The text of the quoted form of `s`, when those bytes are valid UTF-8.
pub open spec fn quoted_text(s: Seq<char>) -> Option<Seq<char>> {
    if valid_utf8(bash_quoted(s)) {
        Some(decode_utf8(bash_quoted(s)))
    } else {
        None
    }
}

/// Quotes `s` so that a Bash command line reads it as one literal word.
pub fn shell_escape(s: &str) -> (r: Result<String, StatsError>)
    ensures
        quoted_text(s@) is None ==> r == Err::<String, StatsError>(StatsError::Encoding),
        quoted_text(s@) matches Some(t) ==> (r matches Ok(q) && q@ == t),
{
    let bytes = bash_quote_vec(s);
    match string_from_utf8(bytes) {
        Some(q) => Ok(q),
        None => Err(StatsError::Encoding),
    }
}

} // verus!
