//! Shell-style glob patterns, matched by the `glob` crate.

use vstd::prelude::*;

verus! {

/// Whether `glob::Pattern::new` accepts `pattern`.
pub uninterp spec fn glob_compiles(pattern: Seq<char>) -> bool;

/// Whether the compiled `pattern` matches `text` under the default options.
pub uninterp spec fn glob_accepts(pattern: Seq<char>, text: Seq<char>) -> bool;

/// `pattern` compiles and matches `text`.
pub open spec fn glob_hit(pattern: Seq<char>, text: Seq<char>) -> bool {
    glob_compiles(pattern) && glob_accepts(pattern, text)
}

/// Compiles `pattern` and matches it against `text`; `None` when the
/// pattern does not compile.
///
/// Relies on `glob::Pattern::new`, which fails exactly on malformed patterns,
/// and `glob::Pattern::matches`, whose answer depends on the pattern and the
/// text alone.
#[verifier::external_body]
pub(crate) fn glob_match(pattern: &str, text: &str) -> (r: Option<bool>)
    ensures
        r == (if glob_compiles(pattern@) {
            Some(glob_accepts(pattern@, text@))
        } else {
            None
        }),
{
    match glob::Pattern::new(pattern) {
        Ok(p) => Some(p.matches(text)),
        Err(_) => None,
    }
}

/// Whether `pattern` compiles and matches `text`.
pub fn glob_matches(pattern: &str, text: &str) -> (r: bool)
    ensures
        r == glob_hit(pattern@, text@),
{
    match glob_match(pattern, text) {
        Some(b) => b,
        None => false,
    }
}

} // verus!
