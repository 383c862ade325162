//! How a word is cased.
//!
//! Upper and lower case are those of the standard library, which follows
//! Unicode: the case of a text is a function of the text alone, and the
//! contracts here call it by name.

use vstd::prelude::*;

use crate::transform::WordTransform;

verus! {

/// The text that `str::to_uppercase` gives for `text`.
pub uninterp spec fn uppercase_of(text: Seq<char>) -> Seq<char>;

/// The text that `str::to_lowercase` gives for `text`.
pub uninterp spec fn lowercase_of(text: Seq<char>) -> Seq<char>;

/// `str::to_uppercase`: the upper case of `text` in a new string. Nothing is
/// proved of it; the contract only gives the result its name.
#[verifier::external_body]
fn to_uppercase(text: &str) -> (upper: String)
    ensures
        upper@ == uppercase_of(text@),
{
    text.to_uppercase()
}

/// `str::to_lowercase`: the lower case of `text` in a new string. Nothing is
/// proved of it; the contract only gives the result its name.
#[verifier::external_body]
fn to_lowercase(text: &str) -> (lower: String)
    ensures
        lower@ == lowercase_of(text@),
{
    text.to_lowercase()
}

/// A word as `transform` renders it. The altercase modes say nothing of a
/// single word: there, as by default, the word is put in lower case.
pub open spec fn rendered(word: Seq<char>, transform: WordTransform) -> Seq<char> {
    match transform {
        WordTransform::Titlecase => if word.len() == 0 {
            word
        } else {
            uppercase_of(word.take(1)) + word.skip(1)
        },
        WordTransform::Uppercase => uppercase_of(word),
        WordTransform::InversedTitlecase => if word.len() == 0 {
            word
        } else {
            lowercase_of(word.take(1)) + uppercase_of(word.skip(1))
        },
        _ => lowercase_of(word),
    }
}

/// Cuts a word behind its first character. An empty word gives two empty
/// parts.
pub fn split_first(word: &str) -> (parts: (&str, &str))
    ensures
        word@.len() == 0 ==> parts.0@.len() == 0 && parts.1@.len() == 0,
        word@.len() > 0 ==> parts.0@ == word@.take(1) && parts.1@ == word@.skip(1),
{
    let length = word.unicode_len();
    if length == 0 {
        (word, word)
    } else {
        (word.substring_char(0, 1), word.substring_char(1, length))
    }
}

/// A word out of its first character and its rest, each as it was cased.
pub fn recased(first: String, rest: &str) -> (word: String)
    ensures
        word@ == first@ + rest@,
{
    first.concat(rest)
}

/// Renders one word.
pub fn transform_word(word: &str, transform: WordTransform) -> (text: String)
    ensures
        text@ == rendered(word@, transform),
{
    match transform {
        WordTransform::Titlecase => {
            let (first, rest) = split_first(word);
            if first.is_empty() {
                String::from_str(word)
            } else {
                recased(to_uppercase(first), rest)
            }
        },
        WordTransform::Uppercase => to_uppercase(word),
        WordTransform::InversedTitlecase => {
            let (first, rest) = split_first(word);
            if first.is_empty() {
                String::from_str(word)
            } else {
                let upper_rest = to_uppercase(rest);
                recased(to_lowercase(first), upper_rest.as_str())
            }
        },
        _ => to_lowercase(word),
    }
}

} // verus!
