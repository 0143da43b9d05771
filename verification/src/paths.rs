//! File-system paths as text, and the `std::path` operations the library
//! applies to them. Paths here are valid Unicode; the front end converts.

use std::path::Path;

use vstd::prelude::*;

verus! {

/// `PathBuf::push` of a relative path: append `child`, with a `/` between
/// the two unless `base` is empty or already ends in one.
pub open spec fn join_spec(base: Seq<char>, child: Seq<char>) -> Seq<char> {
    if base.len() == 0 || base.last() == '/' {
        base + child
    } else {
        base + seq!['/'] + child
    }
}

/// `Path::join` with a relative `child` (one that does not start with `/`).
#[verifier::external_body]
pub(crate) fn path_join(base: &str, child: &str) -> (r: String)
    requires
        child@.len() == 0 || child@[0] != '/',
    ensures
        r@ == join_spec(base@, child@),
{
    Path::new(base).join(child).to_string_lossy().into_owned()
}

/// What `Path::extension` yields for a path: the part of its final
/// component after the last `.`.
pub uninterp spec fn path_extension_spec(p: Seq<char>) -> Option<Seq<char>>;

/// `Path::extension`.
#[verifier::external_body]
pub(crate) fn path_extension(p: &str) -> (r: Option<String>)
    ensures
        match r {
            Some(e) => path_extension_spec(p@) == Some(e@),
            None => path_extension_spec(p@).is_none(),
        },
{
    Path::new(p).extension().map(|e| e.to_string_lossy().into_owned())
}

/// What `Path::file_stem` yields for a path: its final component without
/// the extension.
pub uninterp spec fn path_file_stem_spec(p: Seq<char>) -> Option<Seq<char>>;

/// `Path::file_stem`. Besides naming the result, the one fact stated is
/// that a stem, being part of a single path component, holds no `/`.
#[verifier::external_body]
pub(crate) fn path_file_stem(p: &str) -> (r: Option<String>)
    ensures
        match r {
            Some(e) => path_file_stem_spec(p@) == Some(e@) && !e@.contains('/'),
            None => path_file_stem_spec(p@).is_none(),
        },
{
    Path::new(p).file_stem().map(|e| e.to_string_lossy().into_owned())
}

/// What `Path::parent` yields for a path: the path without its final
/// component, if it has one.
pub uninterp spec fn path_parent_spec(p: Seq<char>) -> Option<Seq<char>>;

/// `Path::parent`.
#[verifier::external_body]
pub(crate) fn path_parent(p: &str) -> (r: Option<String>)
    ensures
        match r {
            Some(e) => path_parent_spec(p@) == Some(e@),
            None => path_parent_spec(p@).is_none(),
        },
{
    Path::new(p).parent().map(|e| e.to_string_lossy().into_owned())
}

/// What `PathBuf::set_extension` leaves of a path given a new extension.
pub uninterp spec fn path_with_extension_spec(p: Seq<char>, ext: Seq<char>) -> Seq<char>;

/// `PathBuf::set_extension` applied to a copy of `p`. The call panics on
/// an extension that holds a path separator, so such an extension is not
/// admitted.
#[verifier::external_body]
pub(crate) fn path_with_extension(p: &str, ext: &str) -> (r: String)
    requires
        !ext@.contains('/'),
    ensures
        r@ == path_with_extension_spec(p@, ext@),
{
    let mut out = Path::new(p).to_path_buf();
    out.set_extension(ext);
    out.to_string_lossy().into_owned()
}

} // verus!
