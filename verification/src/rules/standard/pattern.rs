//! Regular expressions, and bytes read as text.

use vstd::prelude::*;
use vstd::string::*;
use vstd::utf8::*;

verus! {

/// A compiled regular expression of the `regex` crate.
#[verifier::external_type_specification]
#[verifier::external_body]
pub struct ExRegex(regex::Regex);

/// Why bytes are not UTF-8, of std.
#[verifier::external_type_specification]
#[verifier::external_body]
pub struct ExUtf8Error(std::str::Utf8Error);

/// What `regex::Regex::new` makes of a pattern: the expression, or what is
/// wrong with it.
pub uninterp spec fn regex_in(pattern: Seq<char>) -> Result<regex::Regex, Seq<char>>;

/// Whether a regular expression matches somewhere in a text.
pub uninterp spec fn regex_matches(regex: regex::Regex, text: Seq<char>) -> bool;

/// Calls `regex::Regex::new`, which compiles a pattern or says what is wrong
/// with it; which of the two, and in what words, follows from the pattern.
#[verifier::external_body]
pub(crate) fn compile_regex(pattern: &str) -> (r: Result<regex::Regex, String>)
    ensures
        match r {
            Ok(regex) => regex_in(pattern@) == Ok::<regex::Regex, Seq<char>>(regex),
            Err(error) => regex_in(pattern@) == Err::<regex::Regex, Seq<char>>(error@),
        },
{
    regex::Regex::new(pattern).map_err(|error| error.to_string())
}

/// Calls `regex::Regex::is_match`, which says whether the expression matches
/// somewhere in the text; that follows from the two.
#[verifier::external_body]
pub(crate) fn matches_regex(regex: &regex::Regex, text: &str) -> (r: bool)
    ensures
        r == regex_matches(*regex, text@),
{
    regex.is_match(text)
}

/// Calls `std::str::from_utf8`, which gives the string whose UTF-8 form the
/// bytes are, and fails exactly when they are not the UTF-8 form of one.
pub assume_specification[ std::str::from_utf8 ](v: &[u8]) -> (r: Result<
    &str,
    std::str::Utf8Error,
>)
    ensures
        r is Ok <==> valid_utf8(v@),
        r matches Ok(s) ==> s.spec_bytes() == v@,
;

/// The string that bytes are the UTF-8 form of.
pub fn text_from_bytes(bytes: &[u8]) -> (r: Option<&str>)
    ensures
        match r {
            Some(s) => valid_utf8(bytes@) && s@ == decode_utf8(bytes@),
            None => !valid_utf8(bytes@),
        },
{
    match std::str::from_utf8(bytes) {
        Ok(s) => {
            proof {
                encode_utf8_decode_utf8(s@);
            }
            Some(s)
        },
        Err(_) => None,
    }
}

} // verus!
