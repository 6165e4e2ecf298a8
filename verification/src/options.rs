//! Configuration for one linking invocation, and the error kinds the engine
//! reports.

use vstd::prelude::*;
use vstd::string::StringExecFns;

verus! {

/// Options controlling the linking behavior.
pub struct LinkOptions {
    /// If true, creates symbolic links instead of hard links.
    pub symbolic: bool,
    /// If true and creating symbolic links, creates relative symbolic links.
    pub relative: bool,
    /// If true, removes existing destination files.
    pub force: bool,
    /// If true, creates backups of existing files; takes precedence over
    /// `force` when both are set.
    pub backup: bool,
    /// The suffix to use for backup files; an empty suffix stands for `~`.
    pub backup_suffix: String,
    /// When true and creating symbolic links, directories will not be
    /// symbolically linked.
    pub symlink_files_only: bool,
}

impl Clone for LinkOptions {
    fn clone(&self) -> (r: Self)
        ensures
            r == *self,
    {
        LinkOptions {
            symbolic: self.symbolic,
            relative: self.relative,
            force: self.force,
            backup: self.backup,
            backup_suffix: self.backup_suffix.clone(),
            symlink_files_only: self.symlink_files_only,
        }
    }
}

impl Default for LinkOptions {
    /// Hard links, no overwriting, and the customary `~` backup suffix.
    fn default() -> (r: Self)
        ensures
            !r.symbolic,
            !r.relative,
            !r.force,
            !r.backup,
            r.backup_suffix@ == "~"@,
            !r.symlink_files_only,
    {
        LinkOptions {
            symbolic: false,
            relative: false,
            force: false,
            backup: false,
            backup_suffix: String::from_str("~"),
            symlink_files_only: false,
        }
    }
}

/// The kinds of failure a linking invocation can end with. The first failure
/// aborts the whole operation and is reported to the caller.
#[derive(Clone, Copy, PartialEq, Eq, Structural, Debug)]
pub enum LinkError {
    /// The pattern directory or the source is missing.
    NotFound,
    /// The destination is present and neither `force` nor `backup` was set.
    AlreadyExists,
    /// The filesystem refused access.
    PermissionDenied,
    /// A hard link was requested across filesystem volumes.
    CrossDevice,
    /// A path computation failed, such as an unresolvable relative target.
    InvalidPath,
    /// Any other wrapped failure.
    Other,
}

} // verus!
