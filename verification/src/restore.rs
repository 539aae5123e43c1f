use vstd::prelude::*;

use crate::backup::{with_file_name_chars, with_file_name_spec};
use crate::chars::{
    chars_to_string, ends_with, extend_chars, file_name_spec, has_suffix, join_path,
    join_path_chars, last_index_of_exec, subrange_chars, to_chars,
};
use crate::cli::{Restore, RestoreArgs};

verus! {

/// A decimal digit.
pub open spec fn is_digit(c: char) -> bool {
    '0' <= c && c <= '9'
}

/// The fixed timestamp shape a backup name carries: four digits, then
/// dash-separated pairs of digits, with one underscore between date and time.
pub open spec fn is_timestamp(s: Seq<char>) -> bool {
    s.len() == 19 && is_digit(s[0]) && is_digit(s[1]) && is_digit(s[2]) && is_digit(s[3]) && s[4]
        == '-' && is_digit(s[5]) && is_digit(s[6]) && s[7] == '-' && is_digit(s[8]) && is_digit(
        s[9],
    ) && s[10] == '_' && is_digit(s[11]) && is_digit(s[12]) && s[13] == '-' && is_digit(s[14])
        && is_digit(s[15]) && s[16] == '-' && is_digit(s[17]) && is_digit(s[18])
}

/// A backup name of the timestamped form: a stem, a dot, a timestamp, and
/// the backup suffix.
pub open spec fn has_timestamped_suffix(name: Seq<char>) -> bool {
    name.len() >= 24 && has_suffix(name, ".bak"@) && name[name.len() - 24] == '.' && is_timestamp(
        name.subrange(name.len() - 23, name.len() - 4),
    )
}

/// The name a backup restores to: the timestamped tail goes where it is
/// present, otherwise only the backup suffix does.
pub open spec fn restore_stem_spec(name: Seq<char>) -> Seq<char> {
    if has_timestamped_suffix(name) {
        name.subrange(0, name.len() - 24)
    } else {
        name.subrange(0, name.len() - 4)
    }
}

fn is_digit_exec(c: char) -> (r: bool)
    ensures
        r == is_digit(c),
{
    '0' <= c && c <= '9'
}

/// The restored file's name for a backup file name, or `None` when the name
/// does not end in the backup suffix and is no backup at all.
pub fn restore_target_name(file_name: &str) -> (r: Option<String>)
    ensures
        match r {
            Some(s) => has_suffix(file_name@, ".bak"@) && s@ == restore_stem_spec(file_name@),
            None => !has_suffix(file_name@, ".bak"@),
        },
{
    let v = to_chars(file_name);
    if !ends_with(&v, ".bak") {
        return None;
    }
    proof {
        reveal_strlit(".bak");
    }
    let n: usize = v.len();
    let timestamped: bool = n >= 24 && v[n - 24] == '.' && is_digit_exec(v[n - 23])
        && is_digit_exec(v[n - 22]) && is_digit_exec(v[n - 21]) && is_digit_exec(v[n - 20]) && v[n
        - 19] == '-' && is_digit_exec(v[n - 18]) && is_digit_exec(v[n - 17]) && v[n - 16] == '-'
        && is_digit_exec(v[n - 15]) && is_digit_exec(v[n - 14]) && v[n - 13] == '_'
        && is_digit_exec(v[n - 12]) && is_digit_exec(v[n - 11]) && v[n - 10] == '-'
        && is_digit_exec(v[n - 9]) && is_digit_exec(v[n - 8]) && v[n - 7] == '-' && is_digit_exec(
        v[n - 6],
    ) && is_digit_exec(v[n - 5]);
    proof {
        if n >= 24 {
            let ts = v@.subrange(n - 23, n - 4);
            assert(ts.len() == 19);
            assert forall|k: int| 0 <= k < 19 implies ts[k] == v@[n - 23 + k] by {}
            assert(timestamped == has_timestamped_suffix(file_name@));
        } else {
            assert(!has_timestamped_suffix(file_name@));
        }
    }
    let stem = if timestamped {
        subrange_chars(&v, 0, n - 24)
    } else {
        subrange_chars(&v, 0, n - 4)
    };
    Some(chars_to_string(&stem))
}

/// Where the restored file goes: under a directory target by its restored
/// name, otherwise in the target's place.
pub open spec fn restore_path_spec(
    target: Seq<char>,
    target_is_dir: bool,
    name: Seq<char>,
) -> Seq<char> {
    if target_is_dir {
        join_path(target, name)
    } else {
        with_file_name_spec(target, name)
    }
}

/// Builds the restore path of `restore_path_spec`.
pub fn restore_target_path(target: &str, target_is_dir: bool, name: &str) -> (r: String)
    ensures
        r@ == restore_path_spec(target@, target_is_dir, name@),
{
    let target_chars = to_chars(target);
    let name_chars = to_chars(name);
    if target_is_dir {
        chars_to_string(&join_path_chars(&target_chars, &name_chars))
    } else {
        chars_to_string(&with_file_name_chars(&target_chars, &name_chars))
    }
}

impl RestoreArgs {
    /// The full restore plan of this request: `None` when the source's file
    /// name is no backup name or no target was resolved.
    pub fn restore_plan(&self, target_is_dir: bool) -> (r: Option<String>)
        ensures
            match r {
                Some(s) => self.target is Some && has_suffix(
                    file_name_spec(self.source@),
                    ".bak"@,
                ) && s@ == restore_path_spec(
                    self.target->Some_0@,
                    target_is_dir,
                    restore_stem_spec(file_name_spec(self.source@)),
                ),
                None => self.target is None || !has_suffix(file_name_spec(self.source@), ".bak"@),
            },
    {
        let target = match &self.target {
            Some(t) => t,
            None => {
                return None;
            },
        };
        let source_chars = to_chars(self.source.as_str());
        let fname = crate::chars::file_name_chars(&source_chars);
        let fname_s = chars_to_string(&fname);
        match restore_target_name(fname_s.as_str()) {
            Some(name) => Some(restore_target_path(target.as_str(), target_is_dir, name.as_str())),
            None => None,
        }
    }
}

impl Restore {
    /// The full restore plan of this request, in the older request shape.
    pub fn restore_plan(&self, target_is_dir: bool) -> (r: Option<String>)
        ensures
            match r {
                Some(s) => self.target is Some && has_suffix(
                    file_name_spec(self.source@),
                    ".bak"@,
                ) && s@ == restore_path_spec(
                    self.target->Some_0@,
                    target_is_dir,
                    restore_stem_spec(file_name_spec(self.source@)),
                ),
                None => self.target is None || !has_suffix(file_name_spec(self.source@), ".bak"@),
            },
    {
        let target = match &self.target {
            Some(t) => t,
            None => {
                return None;
            },
        };
        let source_chars = to_chars(self.source.as_str());
        let fname = crate::chars::file_name_chars(&source_chars);
        let fname_s = chars_to_string(&fname);
        match restore_target_name(fname_s.as_str()) {
            Some(name) => Some(restore_target_path(target.as_str(), target_is_dir, name.as_str())),
            None => None,
        }
    }
}

} // verus!
