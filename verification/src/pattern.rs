use regex::Error as RegexError;
use regex::Regex;
use vstd::prelude::*;

verus! {

/// `regex::Regex`, a compiled expression.
#[verifier::external_type_specification]
#[verifier::external_body]
pub struct ExRegex(regex::Regex);

/// `regex::Error`, why a pattern was not accepted.
#[verifier::external_type_specification]
#[verifier::external_body]
pub struct ExRegexError(RegexError);

/// Whether `regex::Regex::new` accepts the pattern.
pub uninterp spec fn regex_compiles(pattern: Seq<char>) -> bool;

/// The pattern that a compiled expression was made from.
pub uninterp spec fn regex_source(expression: Regex) -> Seq<char>;

/// What `regex::Regex::replace_all` gives for the expression that
/// `regex::Regex::new` compiles from `pattern`: `haystack` with every match
/// replaced by `replacement`.
pub uninterp spec fn regex_replaced(
    pattern: Seq<char>,
    haystack: Seq<char>,
    replacement: Seq<char>,
) -> Seq<char>;

/// `regex::Regex::new`, which compiles with the default options. Whether a
/// pattern is accepted depends on the pattern alone, and the expression
/// remembers the pattern it was compiled from.
#[verifier::external_body]
pub(crate) fn compile(pattern: &str) -> (r: Result<Regex, RegexError>)
    ensures
        r is Ok <==> regex_compiles(pattern@),
        r matches Ok(expression) ==> regex_source(expression) == pattern@,
{
    Regex::new(pattern)
}

/// `regex::Regex::replace_all` with a text as the replacement. The result
/// depends on the pattern, the haystack and the replacement alone, for an
/// expression compiled with the default options. Every expression that this
/// library holds is one: it comes from `compile`, and neither `compile` nor
/// this function is to be had outside the library.
#[verifier::external_body]
pub(crate) fn replace_all(expression: &Regex, haystack: &str, replacement: &str) -> (r: String)
    ensures
        r@ == regex_replaced(regex_source(*expression), haystack@, replacement@),
{
    expression.replace_all(haystack, replacement).into_owned()
}

} // verus!
