use vstd::prelude::*;

use crate::chars::{chars_eq, to_chars};
use crate::xtract::hint_has_extension;

verus! {

/// True when the read permission bit for the owning user is set in a unix
/// permission mode word.
pub fn mode_is_readable(mode: u32) -> (r: bool)
    ensures
        r == (mode & 0o400 != 0),
{
    mode & 0o400 != 0
}

/// The target a request falls back on when none is given: the current
/// directory's parent, as the tool has always taken it.
pub fn resolve_target_default(target: Option<String>) -> (r: String)
    ensures
        match target {
            Some(t) => r == t,
            None => r@ == ".."@,
        },
{
    match target {
        Some(t) => t,
        None => String::from_str(".."),
    }
}

/// Whether a missing target should be created as a directory: only when it
/// does not exist and its final component looks directory-like, carrying no
/// file extension.
pub fn should_create_target(target: &str, target_exists: bool) -> (r: bool)
    ensures
        r == (!target_exists && !hint_has_extension(target@)),
{
    if target_exists {
        return false;
    }
    let chars = to_chars(target);
    let name = crate::chars::file_name_chars(&chars);
    !crate::xtract::name_has_extension(&name)
}

/// Whether source and target name the same path, which a copy must refuse.
pub fn paths_conflict(source: &str, target: &str) -> (r: bool)
    ensures
        r == (source@ == target@),
{
    let a = to_chars(source);
    let b = to_chars(target);
    chars_eq(&a, &b)
}

} // verus!
