use vstd::prelude::*;

verus! {

/// The error of the `regex` crate: a pattern that does not compile.
#[verifier::external_type_specification]
#[verifier::external_body]
pub struct ExRegexError(regex::Error);

/// Whether a pattern compiles: whether `regex::Regex::new` returns a regex
/// for it and no error. It does so for a pattern that is well formed and
/// whose compiled program keeps within the size limit that the `regex`
/// crate sets by default, as it counts the size where the library is built.
pub uninterp spec fn regex_compiles(pattern: Seq<char>) -> bool;

/// Whether a compiled pattern finds a match somewhere in a text: what
/// `regex::Regex::is_match` returns for the pattern and the text.
pub uninterp spec fn regex_matches(pattern: Seq<char>, text: Seq<char>) -> bool;

/// `regex::Regex::new` and `regex::Regex::is_match`: compiles `pattern` once
/// and searches each of `texts` with it. The result is an error exactly
/// where `new` returns one. Where the pattern compiles, the result has one
/// answer a text, in the order of the texts, and each answer is what
/// `is_match` returns.
#[verifier::external_body]
pub(crate) fn regex_match_each(pattern: &str, texts: &Vec<String>) -> (r: Result<
    Vec<bool>,
    regex::Error,
>)
    ensures
        r is Ok <==> regex_compiles(pattern@),
        r matches Ok(hits) ==> hits@.len() == texts@.len() && forall|i: int|
            0 <= i < texts@.len() ==> #[trigger] hits@[i] == regex_matches(pattern@, texts@[i]@),
{
    let re = regex::Regex::new(pattern)?;
    Ok(texts.iter().map(|text| re.is_match(text)).collect())
}

} // verus!
