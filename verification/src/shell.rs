//! Command lines and their words.
use crate::text::chars::texts;
use vstd::prelude::*;

verus! {

/// What `shell_words::split` makes of a command: its words, where its quotes are closed.
pub uninterp spec fn shell_words_of(command: Seq<char>) -> Option<Seq<Seq<char>>>;

/// The command line that `shell_words::join` makes of words.
pub uninterp spec fn shell_joined(words: Seq<Seq<char>>) -> Seq<char>;

/// Calls `shell_words::split`, whose result is named: the words of a command, or none where
/// a quote is not closed.
#[verifier::external_body]
pub(crate) fn split_shell_words(command: &str) -> (r: Option<Vec<String>>)
    ensures
        r matches Some(w) ==> shell_words_of(command@) == Some(texts(w@)),
        r is None ==> shell_words_of(command@) is None,
{
    shell_words::split(command).ok()
}

/// The shell word that `shell_words::quote` makes of a text.
pub uninterp spec fn shell_word(text: Seq<char>) -> Seq<char>;

/// Calls `shell_words::quote`, whose result is named: the text as one word of a command,
/// quoted where it needs it. Split, it gives that one word back.
#[verifier::external_body]
pub(crate) fn quote_shell_word(text: &str) -> (r: String)
    ensures
        r@ == shell_word(text@),
        shell_words_of(r@) == Some(seq![text@]),
{
    shell_words::quote(text).into_owned()
}

/// Calls `shell_words::join`, whose result is named: the words, quoted where they need it,
/// with spaces between. Split, it gives the words back.
#[verifier::external_body]
pub(crate) fn join_shell_words(words: &Vec<String>) -> (r: String)
    ensures
        r@ == shell_joined(texts(words@)),
        shell_words_of(r@) == Some(texts(words@)),
{
    shell_words::join(words)
}

} // verus!
