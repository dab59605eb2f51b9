//! Joining file-system paths for scripts, through `std::path::Path`.

use vstd::prelude::*;

verus! {

/// What `Path::join` gives for `base` and `rel`, as text.
pub uninterp spec fn path_join_of(base: Seq<char>, rel: Seq<char>) -> Seq<char>;

/// What `Path::parent` gives for `p`, as text: `None` for a root or an empty path.
pub uninterp spec fn path_parent_of(p: Seq<char>) -> Option<Seq<char>>;

/// `Path::new(base).join(rel)` as text (both are UTF-8, so the text is exact).
#[verifier::external_body]
fn path_join_text(base: &str, rel: &str) -> (r: String)
    ensures
        r@ == path_join_of(base@, rel@),
{
    std::path::Path::new(base).join(rel).to_string_lossy().into_owned()
}

/// `Path::new(p).parent()` as text.
#[verifier::external_body]
fn path_parent_text(p: &str) -> (r: Option<String>)
    ensures
        crate::url_message::option_view(r) == path_parent_of(p@),
{
    std::path::Path::new(p).parent().map(|q| q.to_string_lossy().into_owned())
}

/// `new_path` joined to `current_path`.
pub fn join_paths(current_path: &str, new_path: &str) -> (r: String)
    ensures
        r@ == path_join_of(current_path@, new_path@),
{
    path_join_text(current_path, new_path)
}

/// `new_path` joined to the directory of the script at `script_path`;
/// `None` when that path has no parent.
pub fn join_script_dir(script_path: &str, new_path: &str) -> (r: Option<String>)
    ensures
        crate::url_message::option_view(r) == (match path_parent_of(script_path@) {
            Some(d) => Some(path_join_of(d, new_path@)),
            None => None,
        }),
{
    match path_parent_text(script_path) {
        Some(dir) => Some(path_join_text(dir.as_str(), new_path)),
        None => None,
    }
}

} // verus!
