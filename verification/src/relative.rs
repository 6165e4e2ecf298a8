//! Relative symbolic-link targets. When a symbolic link is to carry a
//! relative target, the engine computes the path from the link's own
//! directory to the canonicalized source. The path difference itself comes
//! from the `pathdiff` crate.

use vstd::prelude::*;
use crate::options::LinkError;
use crate::paths::spec_is_absolute;

verus! {

/// The relative path that `pathdiff::diff_paths` computes from `base` to
/// `path`.
pub uninterp spec fn diff_of(path: Seq<char>, base: Seq<char>) -> Seq<char>;

/// Whether some `/`-separated component of the path is exactly `..`.
pub open spec fn spec_has_dotdot_component(s: Seq<char>) -> bool {
    exists|i: int|
        0 <= i && i + 2 <= s.len() && #[trigger] s[i] == '.' && s[i + 1] == '.' && (i == 0 || s[i
            - 1] == '/') && (i + 2 == s.len() || s[i + 2] == '/')
}

/// Relies on pathdiff::diff_paths: the relative path from `base` to `path`,
/// a function of the two arguments alone. Its source returns a path for any
/// two absolute arguments whose base walks through no `..` component, and
/// answers nothing only when the computation cannot anchor the two paths to
/// each other.
#[verifier::external_body]
fn diff_paths_str(path: &str, base: &str) -> (r: Option<String>)
    ensures
        (match r {
            Some(d) => d@ == diff_of(path@, base@),
            None => true,
        }),
        spec_is_absolute(path@) && spec_is_absolute(base@) && !spec_has_dotdot_component(base@)
            ==> r is Some,
{
    pathdiff::diff_paths(std::path::Path::new(path), std::path::Path::new(base)).map(
        |p| p.to_string_lossy().into_owned(),
    )
}

/// The target a relative symbolic link stores: the path from the link's
/// directory to the source. Both arguments are expected canonicalized, so
/// the computation is owed a result; a failure is reported as
/// [`LinkError::InvalidPath`].
pub fn relative_target(source_canon: &str, link_dir_canon: &str) -> (r: Result<String, LinkError>)
    ensures
        (match r {
            Ok(t) => t@ == diff_of(source_canon@, link_dir_canon@),
            Err(e) => e == LinkError::InvalidPath,
        }),
        spec_is_absolute(source_canon@) && spec_is_absolute(link_dir_canon@)
            && !spec_has_dotdot_component(link_dir_canon@) ==> r is Ok,
{
    match diff_paths_str(source_canon, link_dir_canon) {
        Some(t) => Ok(t),
        None => Err(LinkError::InvalidPath),
    }
}

} // verus!
