//! Filesystem paths, held as text.

use vstd::prelude::*;

verus! {

/// The text of the path that `std::path::Path::join` forms from `base` and
/// `name`.
pub uninterp spec fn joined_path(base: Seq<char>, name: Seq<char>) -> Seq<char>;

/// `c` is a character some platform treats as a path separator or as the
/// mark of a drive prefix.
pub open spec fn is_path_mark(c: char) -> bool {
    c == '/' || c == '\\' || c == ':'
}

/// `base` is a directory path no platform reads specially when joining to
/// it: it is not empty, does not end in a slash, and holds no backslash or
/// colon.
pub open spec fn plain_base(base: Seq<char>) -> bool {
    &&& base.len() > 0
    &&& base.last() != '/'
    &&& forall|i: int| 0 <= i < base.len() ==> #[trigger] base[i] != '\\' && base[i] != ':'
}

/// `name` is a plain relative file name: not empty, with no slash,
/// backslash or colon.
pub open spec fn plain_name(name: Seq<char>) -> bool {
    &&& name.len() > 0
    &&& forall|i: int| 0 <= i < name.len() ==> !is_path_mark(#[trigger] name[i])
}

/// `r` is `base`, one separator (the platform's: a slash, or a backslash on
/// Windows), then `name`.
pub open spec fn separated(base: Seq<char>, name: Seq<char>, r: Seq<char>) -> bool {
    &&& r.len() == base.len() + 1 + name.len()
    &&& r.take(base.len() as int) == base
    &&& r.skip((base.len() + 1) as int) == name
    &&& (r[base.len() as int] == '/' || r[base.len() as int] == '\\')
}

/// Calls `std::path::Path::join` on `base` and `name` and returns the joined
/// path as text.
///
/// Trusted: the result is named `joined_path` of the two texts. Where `base`
/// is plain and `name` is a plain relative file name, the contract also
/// claims what std documents for `PathBuf::push` there: `base`, the
/// platform's main separator, then `name`. Which of a slash or a backslash
/// that separator is depends on the build target and is not stated, nor is
/// the join of any other texts.
#[verifier::external_body]
pub(crate) fn join_path(base: &str, name: &str) -> (r: String)
    ensures
        r@ == joined_path(base@, name@),
        plain_base(base@) && plain_name(name@) ==> separated(base@, name@, r@),
{
    std::path::Path::new(base).join(name).to_string_lossy().into_owned()
}

} // verus!
