//! Relative paths as plain text, and the path operations the resolver
//! relies on.
//!
//! Splitting a path into components, normalising it and finding a file
//! name's extension are done by the `relative-path` crate. Each operation
//! has a name here for what it returns, so that contracts can speak of it.

use relative_path::RelativePath;
use vstd::prelude::*;

verus! {

/// The normalised path that `RelativePath::join_normalized` builds from a
/// directory and a path below it.
pub uninterp spec fn joined(dir: Seq<char>, name: Seq<char>) -> Seq<char>;

/// What `RelativePath::parent` returns for a path: the path without its
/// final component, or `None` where the path has none.
pub uninterp spec fn parent_of(path: Seq<char>) -> Option<Seq<char>>;

/// What `RelativePath::file_name` returns for a path: its final component,
/// where it has one that is a name.
pub uninterp spec fn file_name_of(path: Seq<char>) -> Option<Seq<char>>;

/// What `RelativePath::extension` returns for a path: the part of its file
/// name after the last dot, where there is one.
pub uninterp spec fn extension_of(path: Seq<char>) -> Option<Seq<char>>;

/// The path that `RelativePath::with_file_name` builds: `path` with its
/// final component replaced by `file_name`.
pub uninterp spec fn with_name(path: Seq<char>, file_name: Seq<char>) -> Seq<char>;

/// `text` with every occurrence of `from` replaced by `to`, found from left
/// to right without overlap.
pub open spec fn replaced(text: Seq<char>, from: Seq<char>, to: Seq<char>) -> Seq<char>
    decreases text.len(),
{
    if text.len() == 0 {
        text
    } else if from.len() > 0 && from.is_prefix_of(text) {
        to + replaced(text.skip(from.len() as int), from, to)
    } else {
        text.take(1) + replaced(text.skip(1), from, to)
    }
}

/// An optional string as optional text.
pub open spec fn text_of(s: Option<String>) -> Option<Seq<char>> {
    match s {
        Some(s) => Some(s@),
        None => None,
    }
}

/// The texts of a sequence of strings, in order.
pub open spec fn texts(v: Seq<String>) -> Seq<Seq<char>> {
    Seq::new(v.len(), |i: int| v[i]@)
}

/// Calls `RelativePath::join_normalized` on `dir` with `name`. Trusted: the
/// text returned is the one named [`joined`].
#[verifier::external_body]
pub(crate) fn join_normalized(dir: &str, name: &str) -> (r: String)
    ensures
        r@ == joined(dir@, name@),
{
    RelativePath::new(dir).join_normalized(name).into_string()
}

/// Calls `RelativePath::parent`. Trusted: the result is the one named
/// [`parent_of`].
#[verifier::external_body]
pub(crate) fn parent(path: &str) -> (r: Option<String>)
    ensures
        text_of(r) == parent_of(path@),
{
    RelativePath::new(path).parent().map(|dir| dir.as_str().to_owned())
}

/// Calls `RelativePath::file_name`. Trusted: the result is the one named
/// [`file_name_of`].
#[verifier::external_body]
pub(crate) fn file_name(path: &str) -> (r: Option<String>)
    ensures
        text_of(r) == file_name_of(path@),
{
    RelativePath::new(path).file_name().map(|name| name.to_owned())
}

/// Calls `RelativePath::extension`. Trusted: the result is the one named
/// [`extension_of`].
#[verifier::external_body]
pub(crate) fn extension(path: &str) -> (r: Option<String>)
    ensures
        text_of(r) == extension_of(path@),
{
    RelativePath::new(path).extension().map(|ext| ext.to_owned())
}

/// Calls `RelativePath::with_file_name`. Trusted: the text returned is the
/// one named [`with_name`].
#[verifier::external_body]
pub(crate) fn with_file_name(path: &str, file_name: &str) -> (r: String)
    ensures
        r@ == with_name(path@, file_name@),
{
    RelativePath::new(path).with_file_name(file_name).into_string()
}

/// Calls `str::replace`. Trusted: every occurrence of `from` in `text`,
/// taken from left to right without overlap, is replaced by `to`, and the
/// rest of `text` is kept. An empty `from` is left out.
#[verifier::external_body]
pub(crate) fn replace_all(text: &str, from: &str, to: &str) -> (r: String)
    requires
        from@.len() > 0,
    ensures
        r@ == replaced(text@, from@, to@),
{
    text.replace(from, to)
}

} // verus!
