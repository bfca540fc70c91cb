//! The places where this library calls code that Verus does not read.
//!
//! Each item states, and leaves unproved, what the called function is documented
//! to do. Everything else in the library is proved from these statements.

use crate::theme_parser::{
    Document, DocumentView, Leaves, Sections, BACKGROUND_WORD, FOREGROUND_WORD,
};
use vstd::prelude::*;

verus! {

/// `String::push` appends the character to the end of the string.
pub assume_specification[ String::push ](s: &mut String, c: char)
    ensures
        final(s)@ == old(s)@.push(c),
;

/// `s` in lower case, as `str::to_lowercase` gives it.
pub uninterp spec fn lowercase(s: Seq<char>) -> Seq<char>;

/// `str::to_lowercase` returns the text in lower case, by the Unicode rules that
/// the standard library documents. The contract gives the outcome its name,
/// `lowercase`: it depends on the text alone.
pub assume_specification[ str::to_lowercase ](s: &str) -> (r: String)
    ensures
        r@ == lowercase(s@),
;

/// The error with which `regex::Regex::new` turns a pattern down.
#[verifier::external_type_specification]
#[verifier::external_body]
pub struct ExRegexError(regex::Error);

/// The error with which the `toml` crate turns a text down.
#[verifier::external_type_specification]
#[verifier::external_body]
pub struct ExTomlError(toml::de::Error);

/// What a search of `haystack` for the regular expression `pattern` finds:
/// nothing where the pattern is not accepted as a regular expression, else
/// whether some part of `haystack` matches it.
pub uninterp spec fn regex_search(pattern: Seq<char>, haystack: Seq<char>) -> Option<bool>;

/// Compiles `pattern` with `regex::Regex::new` and asks `Regex::is_match` whether
/// it matches somewhere in `haystack`. The contract gives the outcome its name,
/// `regex_search`, and says nothing of what it is: only that it depends on the
/// pattern and the haystack alone. It is claimed of the two expressions that the
/// library searches for, and of no other.
#[verifier::external_body]
pub(crate) fn search(pattern: &str, haystack: &str) -> (r: Result<bool, regex::Error>)
    requires
        pattern@ == BACKGROUND_WORD@ || pattern@ == FOREGROUND_WORD@,
    ensures
        match r {
            Ok(found) => regex_search(pattern@, haystack@) == Some(found),
            Err(_) => regex_search(pattern@, haystack@) is None,
        },
{
    match regex::Regex::new(pattern) {
        Ok(expression) => Ok(expression.is_match(haystack)),
        Err(error) => Err(error),
    }
}

/// What the `toml` crate makes of `text`: nothing where it is not a TOML document,
/// else the entries of its root table, three levels deep, in the order in which
/// the crate's tables hand their entries out.
pub uninterp spec fn toml_document(text: Seq<char>) -> Option<DocumentView>;

/// Parses `text` as a `toml::Table` and copies out, with `Map::iter`,
/// `Value::as_table` and `Value::as_str`, the keys and the string values that lie
/// up to three tables deep. The contract gives the outcome its name,
/// `toml_document`, and says nothing of what it is: only that it depends on the
/// text alone.
#[verifier::external_body]
pub(crate) fn parse_document(text: &str) -> (r: Result<Document, toml::de::Error>)
    ensures
        match r {
            Ok(document) => toml_document(text@) == Some(document.deep_view()),
            Err(_) => toml_document(text@) is None,
        },
{
    let root = text.parse::<toml::Table>()?;
    let leaves = |t: &toml::Table| -> Leaves {
        t.iter().map(|(k, v)| (k.clone(), v.as_str().map(str::to_owned))).collect()
    };
    let sections = |t: &toml::Table| -> Sections {
        t.iter().map(|(k, v)| (k.clone(), v.as_table().map(leaves))).collect()
    };
    Ok(root.iter().map(|(k, v)| (k.clone(), v.as_table().map(sections))).collect())
}

} // verus!
