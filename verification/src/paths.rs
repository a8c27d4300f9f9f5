//! File-system paths, held as text.
use vstd::prelude::*;

verus! {

/// `PathBuf::push` of `rel` onto `base`, as Unix does it: an absolute `rel`
/// replaces `base`; otherwise a `/` goes between them unless `base` is empty
/// or already ends in one.
pub open spec fn path_join(base: Seq<char>, rel: Seq<char>) -> Seq<char> {
    if rel.len() > 0 && rel[0] == '/' {
        rel
    } else if base.len() == 0 || base.last() == '/' {
        base + rel
    } else {
        base + seq!['/'] + rel
    }
}

/// `Path::join` on Unix.
pub fn join_path(base: &str, rel: &str) -> (r: String)
    ensures
        r@ == path_join(base@, rel@),
{
    let b = crate::text::chars_of(base);
    let r = crate::text::chars_of(rel);
    if r.len() > 0 && r[0] == '/' {
        return crate::text::string_from(&r);
    }
    let mut out = crate::text::slice_of(&b, 0, b.len());
    assert(out@ =~= b@);
    if b.len() > 0 && b[b.len() - 1] != '/' {
        out.push('/');
    }
    let joined = crate::text::concat_chars(&out, &r);
    crate::text::string_from(&joined)
}

/// Names what `Path::parent` returns for a path: the path without its final
/// component, or nothing when it ends in a root or is empty.
pub uninterp spec fn path_parent(p: Seq<char>) -> Option<Seq<char>>;

/// `Path::parent`; its result is named by `path_parent`.
#[verifier::external_body]
pub(crate) fn parent_of(p: &str) -> (r: Option<String>)
    ensures
        r is None <==> path_parent(p@) is None,
        r matches Some(q) ==> path_parent(p@) == Some(q@),
{
    std::path::Path::new(p).parent().map(|q| q.to_string_lossy().into_owned())
}

/// Names what `PathBuf::set_extension` makes of a path: the extension of
/// its file name replaced by `ext`, or added when it has none; a path
/// without a file name stays as it is.
pub uninterp spec fn path_set_extension(p: Seq<char>, ext: Seq<char>) -> Seq<char>;

/// `PathBuf::set_extension`; its result is named by `path_set_extension`.
/// The call panics when the extension holds a path separator (`/` on
/// Unix), so such an extension is not admitted.
#[verifier::external_body]
pub(crate) fn with_extension(p: &str, ext: &str) -> (r: String)
    requires
        !ext@.contains('/'),
    ensures
        r@ == path_set_extension(p@, ext@),
{
    let mut buf = std::path::PathBuf::from(p);
    buf.set_extension(ext);
    buf.to_string_lossy().into_owned()
}

} // verus!
