//! Resolution of executable locations given on the command line.
use vstd::prelude::*;

verus! {

/// What joining `sub` onto the path `base` gives, as text.
pub uninterp spec fn joined_path(base: Seq<char>, sub: Seq<char>) -> Seq<char>;

/// The file name looked for inside a directory given as an executable.
pub open spec fn default_exe_name() -> Seq<char> {
    "a.out"@
}

/// Relies on std::path::Path::join: the joined path, read back as text,
/// depends on the two texts alone.
#[verifier::external_body]
fn join_path(base: &str, sub: &str) -> (r: String)
    ensures
        r@ == joined_path(base@, sub@),
{
    std::path::Path::new(base).join(sub).to_string_lossy().into_owned()
}

/// The executable named by `opt`: when `opt` names a directory (`is_dir`),
/// the default executable inside it, else `opt` itself.
pub fn fix_ex_path(opt: &str, is_dir: bool) -> (r: String)
    ensures
        is_dir ==> r@ == joined_path(opt@, default_exe_name()),
        !is_dir ==> r@ == opt@,
{
    if is_dir {
        join_path(opt, "a.out")
    } else {
        opt.to_string()
    }
}

/// The path of the entry `sub` inside the directory `buf`.
pub fn path_child(buf: &str, sub: &str) -> (r: String)
    ensures
        r@ == joined_path(buf@, sub@),
{
    join_path(buf, sub)
}

} // verus!
