//! Shell-style word splitting and quoting, done by the `shlex` crate.
use vstd::prelude::*;
use crate::text::views;

verus! {

/// The words `shlex::split` makes of `s`, or `None` when `s` is malformed
/// (an unterminated quote or a trailing backslash).
pub uninterp spec fn shlex_split(s: Seq<char>) -> Option<Seq<Seq<char>>>;

/// The shell-quoted form `shlex::try_quote` makes of a word it accepts.
pub uninterp spec fn shlex_quote(s: Seq<char>) -> Seq<char>;

/// The views of an optional vector of strings.
pub open spec fn opt_vec_views(o: Option<Vec<String>>) -> Option<Seq<Seq<char>>> {
    match o {
        Some(v) => Some(views(v@)),
        None => None,
    }
}

/// `shlex::split(s)`: splits `s` into words the way a POSIX shell would.
#[verifier::external_body]
pub(crate) fn split_words(s: &str) -> (r: Option<Vec<String>>)
    ensures
        opt_vec_views(r) == shlex_split(s@),
{
    shlex::split(s)
}

/// `shlex::try_quote(s)`: quotes a word for a shell. It refuses exactly the
/// non-empty words that contain a nul character, and quotes the empty word as
/// `''`.
#[verifier::external_body]
pub(crate) fn try_quote_word(s: &str) -> (r: Option<String>)
    ensures
        r.is_none() <==> (s@.len() > 0 && s@.contains('\0')),
        r.is_some() ==> r.unwrap()@ == shlex_quote(s@),
        s@.len() == 0 ==> r.is_some() && r.unwrap()@ == "''"@,
{
    match shlex::try_quote(s) {
        Ok(q) => Some(q.into_owned()),
        Err(_) => None,
    }
}

} // verus!
