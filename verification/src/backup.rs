use vstd::prelude::*;

use crate::chars::{
    chars_to_string, ends_with, extend_chars, file_name_chars, file_name_spec, has_suffix,
    join_path, join_path_chars, last_index_of, last_index_of_exec, subrange_chars, to_chars,
};
use crate::cli::{Backup, BackupArgs};

verus! {

/// A path with its final component replaced, one trailing '/' being dropped
/// first: everything up to and including the then-last '/' is kept, the
/// rest becomes `name`; a path without '/' is replaced whole.
pub open spec fn with_file_name_spec(path: Seq<char>, name: Seq<char>) -> Seq<char> {
    let base = if path.len() > 0 && path[path.len() - 1] == '/' {
        path.subrange(0, path.len() - 1)
    } else {
        path
    };
    if last_index_of(base, '/') >= 0 {
        base.subrange(0, last_index_of(base, '/') + 1) + name
    } else {
        name
    }
}

/// Builds `with_file_name_spec` as characters.
pub(crate) fn with_file_name_chars(path: &Vec<char>, name: &Vec<char>) -> (r: Vec<char>)
    ensures
        r@ == with_file_name_spec(path@, name@),
{
    let n: usize = path.len();
    let base: Vec<char> = if n > 0 && path[n - 1] == '/' {
        subrange_chars(path, 0, n - 1)
    } else {
        subrange_chars(path, 0, n)
    };
    proof {
        assert(path@.subrange(0, n as int) =~= path@);
    }
    let _m: usize = base.len();
    match last_index_of_exec(&base, '/') {
        Some(i) => {
            let mut r = subrange_chars(&base, 0, i + 1);
            extend_chars(&mut r, name);
            r
        },
        None => {
            let mut r: Vec<char> = Vec::new();
            extend_chars(&mut r, name);
            proof {
                assert(r@ =~= name@);
            }
            r
        },
    }
}

/// The backup file's name: the source's file name, a dot, the timestamp,
/// and the backup suffix.
pub open spec fn backup_file_name_spec(source: Seq<char>, timestamp: Seq<char>) -> Seq<char> {
    file_name_spec(source) + seq!['.'] + timestamp + ".bak"@
}

/// Where a backup of `source` goes. A directory target receives the
/// timestamped backup name under it — as does a missing one, where
/// `join_when_missing` says so; any other target is renamed in place to a
/// `.bak` of itself, an already present `.bak` suffix being taken off
/// first, without a timestamp.
pub open spec fn backup_path_spec(
    source: Seq<char>,
    target: Seq<char>,
    timestamp: Seq<char>,
    target_exists: bool,
    target_is_dir: bool,
    join_when_missing: bool,
) -> Seq<char> {
    if (join_when_missing && !target_exists) || target_is_dir {
        join_path(target, backup_file_name_spec(source, timestamp))
    } else {
        let tf = file_name_spec(target);
        let stem = if has_suffix(tf, ".bak"@) {
            tf.subrange(0, tf.len() - 4)
        } else {
            tf
        };
        with_file_name_spec(target, stem + ".bak"@)
    }
}

/// Builds the backup path of `backup_path_spec`.
fn build_backup_path(
    source: &str,
    target: &str,
    timestamp: &str,
    target_exists: bool,
    target_is_dir: bool,
    join_when_missing: bool,
) -> (r: String)
    ensures
        r@ == backup_path_spec(
            source@,
            target@,
            timestamp@,
            target_exists,
            target_is_dir,
            join_when_missing,
        ),
{
    let target_chars = to_chars(target);
    if (join_when_missing && !target_exists) || target_is_dir {
        let source_chars = to_chars(source);
        let mut name = file_name_chars(&source_chars);
        name.push('.');
        let ts = to_chars(timestamp);
        extend_chars(&mut name, &ts);
        let bak = to_chars(".bak");
        extend_chars(&mut name, &bak);
        proof {
            assert(name@ =~= backup_file_name_spec(source@, timestamp@));
        }
        chars_to_string(&join_path_chars(&target_chars, &name))
    } else {
        let tf = file_name_chars(&target_chars);
        let has_bak: bool = ends_with(&tf, ".bak");
        proof {
            reveal_strlit(".bak");
        }
        let mut stem = if has_bak {
            subrange_chars(&tf, 0, tf.len() - 4)
        } else {
            subrange_chars(&tf, 0, tf.len())
        };
        proof {
            assert(tf@.subrange(0, tf@.len() as int) =~= tf@);
        }
        let bak = to_chars(".bak");
        extend_chars(&mut stem, &bak);
        chars_to_string(&with_file_name_chars(&target_chars, &stem))
    }
}

impl BackupArgs {
    /// The path this request backs up to, given the timestamp and what is
    /// known of the target on disk. Only a dry run, which creates no
    /// directories, treats a missing target as one to join under.
    pub fn backup_path(&self, timestamp: &str, target_exists: bool, target_is_dir: bool) -> (r:
        Option<String>)
        ensures
            match r {
                Some(s) => self.target is Some && s@ == backup_path_spec(
                    self.source@,
                    self.target->Some_0@,
                    timestamp@,
                    target_exists,
                    target_is_dir,
                    self.dry,
                ),
                None => self.target is None,
            },
    {
        match &self.target {
            Some(t) => Some(
                build_backup_path(
                    self.source.as_str(),
                    t.as_str(),
                    timestamp,
                    target_exists,
                    target_is_dir,
                    self.dry,
                ),
            ),
            None => None,
        }
    }
}

impl Backup {
    /// The path this request backs up to; this older request shape joins the
    /// timestamped backup name under the target whenever the target is
    /// missing or a directory, and renames only an existing non-directory
    /// target in place.
    pub fn backup_path(&self, timestamp: &str, target_exists: bool, target_is_dir: bool) -> (r:
        Option<String>)
        ensures
            match r {
                Some(s) => self.target is Some && s@ == backup_path_spec(
                    self.source@,
                    self.target->Some_0@,
                    timestamp@,
                    target_exists,
                    target_is_dir,
                    true,
                ),
                None => self.target is None,
            },
    {
        match &self.target {
            Some(t) => Some(
                build_backup_path(
                    self.source.as_str(),
                    t.as_str(),
                    timestamp,
                    target_exists,
                    target_is_dir,
                    true,
                ),
            ),
            None => None,
        }
    }
}

} // verus!
