use vstd::prelude::*;

verus! {

/// One entry an extraction will write: a directory to create, or a file with
/// its contents and, where the source format exposes them, permission bits.
/// `note` carries informational text the format attached to the entry.
pub struct PlanEntry {
    pub path: String,
    pub is_dir: bool,
    pub data: Vec<u8>,
    pub mode: Option<u32>,
    pub note: Option<String>,
}

/// The mathematical value of a `PlanEntry`.
pub struct PlanEntrySpec {
    pub path: Seq<char>,
    pub is_dir: bool,
    pub data: Seq<u8>,
    pub mode: Option<u32>,
    pub note: Option<Seq<char>>,
}

impl View for PlanEntry {
    type V = PlanEntrySpec;

    open spec fn view(&self) -> PlanEntrySpec {
        PlanEntrySpec {
            path: self.path@,
            is_dir: self.is_dir,
            data: self.data@,
            mode: self.mode,
            note: match self.note {
                Some(s) => Some(s@),
                None => None,
            },
        }
    }
}

/// What an extraction run writes: the resolved root directory and the entries
/// placed under it, in the order they are written.
pub struct ExtractionPlan {
    pub dest_root: String,
    pub entries: Vec<PlanEntry>,
}

/// There is a `..` path segment: two dots delimited by the name's ends or '/'.
pub open spec fn has_parent_segment(s: Seq<char>) -> bool {
    exists|i: int|
        0 <= i && i + 2 <= s.len() && (i == 0 || s[i - 1] == '/') && (i + 2 == s.len() || s[i + 2]
            == '/') && #[trigger] s[i] == '.' && s[i + 1] == '.'
}

/// An entry name that stays inside the destination it is joined to: it is not
/// empty, not absolute, and steps through no parent segment.
pub open spec fn is_safe_name(s: Seq<char>) -> bool {
    s.len() > 0 && s[0] != '/' && !has_parent_segment(s)
}

/// The shared path-safety check every extractor applies to an entry name
/// before planning any write for it.
pub fn is_safe_entry_name(v: &Vec<char>) -> (r: bool)
    ensures
        r == is_safe_name(v@),
{
    let n: usize = v.len();
    if n == 0 {
        return false;
    }
    if v[0] == '/' {
        return false;
    }
    let mut i: usize = 0;
    while i < n
        invariant
            i <= n,
            n == v@.len(),
            forall|k: int|
                0 <= k < i ==> !(k + 2 <= n && (k == 0 || v@[k - 1] == '/') && (k + 2 == n
                    || v@[k + 2] == '/') && #[trigger] v@[k] == '.' && v@[k + 1] == '.'),
        decreases n - i,
    {
        if (i == 0 || v[i - 1] == '/') && i < n - 1 && v[i] == '.' && v[i + 1] == '.' && (i == n
            - 2 || v[i + 2] == '/') {
            proof {
                assert(has_parent_segment(v@));
            }
            return false;
        }
        i += 1;
    }
    proof {
        assert(!has_parent_segment(v@));
    }
    true
}

} // verus!
