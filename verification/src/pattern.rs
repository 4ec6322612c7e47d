//! The regular-expression engine behind the extractor.
//!
//! Nothing here is proved: each item states what the `regex` crate is taken
//! to do. What a search or a replacement returns is only given a name, so
//! that the extractor can say which call produced which text.

use vstd::prelude::*;

verus! {

/// `regex::Regex`, a compiled expression: nothing inside it is visible here.
#[verifier::external_type_specification]
#[verifier::external_body]
pub struct ExRegex(regex::Regex);

/// `regex::Error`, the engine's reason for rejecting a pattern.
#[verifier::external_type_specification]
#[verifier::external_body]
pub struct ExRegexError(regex::Error);

/// What `regex::Regex::new` makes of `pattern`: the compiled expression, or
/// `None` where the engine rejects the pattern.
pub uninterp spec fn compiled(pattern: Seq<char>) -> Option<regex::Regex>;

/// What `regex::Regex::replace_all` returns for `text` when every match of
/// `re` is replaced by the expansion of `rep`.
pub uninterp spec fn replaced_all(re: regex::Regex, text: Seq<char>, rep: Seq<char>) -> Seq<char>;

/// What `regex::Regex::splitn` yields for `text`: at most `limit` pieces of
/// `text`, cut at matches of `re`.
pub uninterp spec fn split_pieces(re: regex::Regex, text: Seq<char>, limit: nat) -> Seq<Seq<char>>;

/// Calls `regex::Regex::new`. The engine accepts or rejects a pattern by its
/// text alone, and an accepted pattern always compiles to the same
/// expression.
#[verifier::external_body]
pub(crate) fn compile(pattern: &str) -> (r: Result<regex::Regex, regex::Error>)
    ensures
        r is Ok <==> compiled(pattern@) is Some,
        r matches Ok(re) ==> compiled(pattern@) == Some(re),
{
    regex::Regex::new(pattern)
}

/// Calls `regex::Regex::replace_all` with a replacement string, in which
/// `$1`, `$2`, ... stand for capture groups. The result depends on the
/// expression, the text and the replacement only.
#[verifier::external_body]
pub(crate) fn replace_all(re: &regex::Regex, text: &str, rep: &str) -> (r: String)
    ensures
        r@ == replaced_all(*re, text@, rep@),
{
    re.replace_all(text, rep).into_owned()
}

/// Calls `regex::Regex::splitn` and collects the pieces. The pieces depend
/// on the expression, the text and the limit only.
#[verifier::external_body]
pub(crate) fn splitn(re: &regex::Regex, text: &str, limit: usize) -> (r: Vec<String>)
    ensures
        r@.len() == split_pieces(*re, text@, limit as nat).len(),
        forall|i: int|
            0 <= i < r@.len() ==> r@[i]@ == #[trigger] split_pieces(*re, text@, limit as nat)[i],
{
    re.splitn(text, limit).map(|piece| piece.to_string()).collect()
}

} // verus!
