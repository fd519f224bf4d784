//! Output and extraction paths: a prefixed file name placed in the directory
//! of a reference path.
use std::path::Path;
use vstd::prelude::*;

use crate::random::{all_alphanumeric, random_alphanumeric, with_suffix};

verus! {

/// Number of random characters in a generated stand-in file name.
pub const RANDOM_NAME_LEN: usize = 5;

/// The last component of the path `p`, as `Path::file_name` finds it under
/// the target platform's path syntax, where that component has a text form.
pub uninterp spec fn path_file_name(p: Seq<char>) -> Option<Seq<char>>;

/// The path `p` with its last component replaced by `name`, as
/// `Path::with_file_name` builds it under the target platform's path syntax,
/// where the result has a text form.
pub uninterp spec fn path_with_file_name(p: Seq<char>, name: Seq<char>) -> Option<Seq<char>>;

/// The text of an optional string.
pub open spec fn opt_text(o: Option<String>) -> Option<Seq<char>> {
    match o {
        Some(s) => Some(s@),
        None => None,
    }
}

/// `name` is a generated stand-in name: `prefix` followed by
/// `RANDOM_NAME_LEN` ASCII letters or digits.
pub open spec fn is_generated_name(prefix: Seq<char>, name: Seq<char>) -> bool {
    &&& name.len() == prefix.len() + RANDOM_NAME_LEN
    &&& name.subrange(0, prefix.len() as int) == prefix
    &&& all_alphanumeric(name.subrange(prefix.len() as int, name.len() as int))
}

/// `name` is the bare file name of `target`: its last component, or a
/// generated stand-in name where `target` has none.
pub open spec fn is_bare_name(target: Seq<char>, prefix: Seq<char>, name: Seq<char>) -> bool {
    match path_file_name(target) {
        Some(n) => name == n,
        None => is_generated_name(prefix, name),
    }
}

/// `full` is `prefix` followed by the bare file name of `target`.
pub open spec fn is_prefixed_name(target: Seq<char>, prefix: Seq<char>, full: Seq<char>) -> bool {
    &&& full.len() >= prefix.len()
    &&& full.subrange(0, prefix.len() as int) == prefix
    &&& is_bare_name(target, prefix, full.subrange(prefix.len() as int, full.len() as int))
}

/// The file name `base` placed in the directory of `reference`; `base` alone
/// where that path has no text form.
pub open spec fn placed_beside(reference: Seq<char>, base: Seq<char>) -> Seq<char> {
    match path_with_file_name(reference, base) {
        Some(p) => p,
        None => base,
    }
}

/// `out` is a path that the resolver may give for `reference`, `target` and
/// `prefix`: the prefixed bare name of `target`, in `reference`'s directory.
pub open spec fn resolves_to(
    reference: Seq<char>,
    target: Seq<char>,
    prefix: Seq<char>,
    out: Seq<char>,
) -> bool {
    exists|full: Seq<char>|
        is_prefixed_name(target, prefix, full) && out == #[trigger] placed_beside(reference, full)
}

/// Relies on `Path::file_name` (and `OsStr::to_str`): the last component of
/// the path, which depends on the path's text and the target platform's
/// path syntax alone.
#[verifier::external_body]
fn file_name_of(p: &str) -> (r: Option<String>)
    ensures
        opt_text(r) == path_file_name(p@),
{
    Path::new(p).file_name().and_then(|n| n.to_str()).map(|n| n.to_string())
}

/// Relies on `Path::with_file_name` (and `Path::to_str`): the path with its
/// last component replaced, which depends on the two texts and the target
/// platform's path syntax alone.
#[verifier::external_body]
fn with_file_name_of(p: &str, name: &str) -> (r: Option<String>)
    ensures
        opt_text(r) == path_with_file_name(p@, name@),
{
    Path::new(p).with_file_name(name).to_str().map(|s| s.to_string())
}

/// A stand-in file name: `prefix` followed by random letters and digits.
pub fn generate_random_filename_with_prefix(prefix: String) -> (r: String)
    ensures
        is_generated_name(prefix@, r@),
{
    let ghost start = prefix@;
    let suffix = random_alphanumeric(RANDOM_NAME_LEN);
    let name = with_suffix(prefix, suffix.as_str());
    assert(name@.subrange(0, start.len() as int) =~= start);
    assert(name@.subrange(start.len() as int, name@.len() as int) =~= suffix@);
    name
}

/// The bare file name of `file_path`, with any directory dropped; a
/// generated stand-in name where the path has no last component.
pub fn get_filename_drop_path(file_path: &str, prefix: &String) -> (r: String)
    ensures
        is_bare_name(file_path@, prefix@, r@),
{
    match file_name_of(file_path) {
        Some(name) => name,
        None => generate_random_filename_with_prefix(prefix.clone()),
    }
}

/// Appends the bare file name of `file_name_str` to `prefix`, and places the
/// resulting name in the directory of `file_path_str`.
pub fn add_filename_prefix_preserve_path(
    file_path_str: &String,
    file_name_str: &String,
    prefix: &mut String,
) -> (r: String)
    ensures
        is_prefixed_name(file_name_str@, old(prefix)@, final(prefix)@),
        r@ == placed_beside(file_path_str@, final(prefix)@),
        resolves_to(file_path_str@, file_name_str@, old(prefix)@, r@),
{
    let ghost start = prefix@;
    let filename_only = get_filename_drop_path(file_name_str.as_str(), prefix);
    prefix.append(filename_only.as_str());
    assert(prefix@.subrange(0, start.len() as int) =~= start);
    assert(prefix@.subrange(start.len() as int, prefix@.len() as int) =~= filename_only@);
    match with_file_name_of(file_path_str.as_str(), prefix.as_str()) {
        Some(path) => path,
        None => prefix.clone(),
    }
}

} // verus!
