//! Files that are built into the program, and images that stand beside them.
use crate::inline_images::{kept_at, Kept, Registry};
use crate::lists::{first_where, lemma_first_index, retain_where};
use crate::model::clone_list;
use crate::text::{has_prefix, starts_with};
use vstd::prelude::*;
use vstd::string::*;

verus! {

/// The path of an icon.
pub open spec fn icon_path(name: Seq<char>) -> Seq<char> {
    "icons/"@ + name + ".svg"@
}

/// The path of an icon, by its name.
pub fn app_icon(name: &str) -> (path: String)
    ensures
        path@ == icon_path(name@),
{
    "icons/".to_owned().concat(name).concat(".svg")
}

/// What answers to a path: an image that is kept in memory under it comes first, then the
/// file that is built in.
pub open spec fn loaded(kept: Seq<Kept>, path: Seq<char>, built_in: Option<Seq<u8>>) -> Option<Seq<u8>> {
    match first_where(kept, kept_at(path)) {
        Some(entry) if has_prefix(path, "aviary-cid/"@) => Some(entry.1),
        _ => built_in,
    }
}

/// What answers to a path; `built_in` is the file that is built in under it.
pub fn load(registry: &Registry, path: &str, built_in: Option<Vec<u8>>) -> (bytes: Option<Vec<u8>>)
    ensures
        bytes.deep_view() == loaded(registry@, path@, built_in.deep_view()),
{
    proof {
        lemma_first_index(registry@, kept_at(path@));
    }
    match registry.load(path) {
        Some(bytes) => {
            assert(bytes.deep_view() =~= bytes@);
            Some(bytes)
        },
        None => built_in,
    }
}

/// The paths that begin with a prefix, in their order.
pub fn list(paths: &Vec<String>, prefix: &str) -> (found: Vec<String>)
    ensures
        found.deep_view() == paths.deep_view().filter(|path: Seq<char>| has_prefix(path, prefix@)),
{
    let copy = clone_list(paths);
    retain_where(
        copy,
        |path: &String| -> (b: bool)
            ensures
                b == has_prefix(path@, prefix@)
            { starts_with(path.as_str(), prefix) },
        Ghost(|path: Seq<char>| has_prefix(path, prefix@)),
    )
}

} // verus!
