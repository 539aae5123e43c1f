use vstd::prelude::*;

use crate::chars::{chars_to_string, subrange_chars, to_chars};

verus! {

/// ASCII whitespace, as the version text trimming understands it.
pub open spec fn is_space(c: char) -> bool {
    c == ' ' || c == '\t' || c == '\n' || c == '\r'
}

/// The first index of `s` that holds no whitespace, `s.len()` when all do.
pub open spec fn trim_start_idx(s: Seq<char>) -> int
    decreases s.len(),
{
    if s.len() == 0 {
        0
    } else if is_space(s[0]) {
        1 + trim_start_idx(s.subrange(1, s.len() as int))
    } else {
        0
    }
}

/// One past the last index of `s` that holds no whitespace, 0 when all do.
pub open spec fn trim_end_idx(s: Seq<char>) -> int
    decreases s.len(),
{
    if s.len() == 0 {
        0
    } else if is_space(s.last()) {
        trim_end_idx(s.drop_last())
    } else {
        s.len() as int
    }
}

/// `s` with leading and trailing ASCII whitespace taken off.
pub open spec fn trimmed(s: Seq<char>) -> Seq<char> {
    if trim_start_idx(s) <= trim_end_idx(s) {
        s.subrange(trim_start_idx(s), trim_end_idx(s))
    } else {
        Seq::<char>::empty()
    }
}

/// A trimmed version text with one leading 'v' marker taken off.
pub open spec fn version_text(raw: Seq<char>) -> Seq<char> {
    let t = trimmed(raw);
    if t.len() > 0 && t[0] == 'v' {
        t.subrange(1, t.len() as int)
    } else {
        t
    }
}

/// Whether version `a` orders strictly above version `b`; `None` where
/// either is no version at all.
pub uninterp spec fn version_newer(a: Seq<char>, b: Seq<char>) -> Option<bool>;

/// Relies on `version_compare::Version::from` and the `PartialOrd` of its
/// versions: both parse and compare as a function of the two texts alone.
#[verifier::external_body]
fn version_is_newer(a: &str, b: &str) -> (r: Option<bool>)
    ensures
        r == version_newer(a@, b@),
{
    match (version_compare::Version::from(a), version_compare::Version::from(b)) {
        (Some(x), Some(y)) => Some(x > y),
        _ => None,
    }
}

fn is_space_exec(c: char) -> (r: bool)
    ensures
        r == is_space(c),
{
    c == ' ' || c == '\t' || c == '\n' || c == '\r'
}

/// A prefix of whitespace pushes the start index past itself.
proof fn lemma_trim_start_aux(s: Seq<char>, i: int)
    requires
        0 <= i <= s.len(),
        forall|k: int| 0 <= k < i ==> is_space(#[trigger] s[k]),
    ensures
        i < s.len() && !is_space(s[i]) ==> trim_start_idx(s) == i,
        i == s.len() ==> trim_start_idx(s) == s.len(),
    decreases s.len(),
{
    if s.len() > 0 && i > 0 {
        assert(is_space(s[0]));
        let t = s.subrange(1, s.len() as int);
        assert forall|k: int| 0 <= k < i - 1 implies is_space(#[trigger] t[k]) by {
            assert(t[k] == s[k + 1]);
        }
        lemma_trim_start_aux(t, i - 1);
        if i < s.len() {
            assert(t[i - 1] == s[i]);
        }
    }
}

/// A suffix of whitespace pulls the end index before itself.
proof fn lemma_trim_end_aux(s: Seq<char>, i: int)
    requires
        0 <= i <= s.len(),
        forall|k: int| i <= k < s.len() ==> is_space(#[trigger] s[k]),
    ensures
        i > 0 && !is_space(s[i - 1]) ==> trim_end_idx(s) == i,
        i == 0 ==> trim_end_idx(s) == 0,
    decreases s.len(),
{
    if s.len() > 0 && i < s.len() {
        assert(is_space(s.last()));
        let t = s.drop_last();
        assert forall|k: int| i <= k < t.len() implies is_space(#[trigger] t[k]) by {
            assert(t[k] == s[k]);
        }
        lemma_trim_end_aux(t, i);
    }
}

/// Builds the trimmed, unprefixed version text of `version_text`.
pub fn parse_version_text(raw: &str) -> (r: String)
    ensures
        r@ == version_text(raw@),
{
    let v = to_chars(raw);
    let n: usize = v.len();
    let mut start: usize = 0;
    while start < n && is_space_exec(v[start])
        invariant
            start <= n,
            n == v@.len(),
            forall|k: int| 0 <= k < start ==> is_space(#[trigger] v@[k]),
        decreases n - start,
    {
        start += 1;
    }
    proof {
        lemma_trim_start_aux(v@, start as int);
    }
    let mut end: usize = n;
    while end > start && is_space_exec(v[end - 1])
        invariant
            start <= end <= n,
            n == v@.len(),
            forall|k: int| 0 <= k < start ==> is_space(#[trigger] v@[k]),
            forall|k: int| end <= k < n ==> is_space(#[trigger] v@[k]),
        decreases end,
    {
        end -= 1;
    }
    proof {
        if end > start {
            lemma_trim_end_aux(v@, end as int);
        } else {
            assert(start == end);
            lemma_trim_end_aux(v@, 0);
        }
        assert(trimmed(v@) =~= v@.subrange(start as int, end as int));
    }
    let t = subrange_chars(&v, start, end);
    if t.len() > 0 && t[0] == 'v' {
        let cut = subrange_chars(&t, 1, t.len());
        chars_to_string(&cut)
    } else {
        chars_to_string(&t)
    }
}

/// What an update check concludes.
pub enum UpdateStatus {
    /// The remote version orders above the running one.
    NewerAvailable,
    /// The running version is the remote one or newer.
    UpToDate,
    /// One of the two texts is no version.
    Unparseable,
}

/// Decides an update check from the running version and the raw remote
/// version text, which is trimmed and stripped of its 'v' marker first.
pub fn update_status(current: &str, remote_raw: &str) -> (r: UpdateStatus)
    ensures
        match version_newer(version_text(remote_raw@), current@) {
            Some(true) => r is NewerAvailable,
            Some(false) => r is UpToDate,
            None => r is Unparseable,
        },
{
    let remote = parse_version_text(remote_raw);
    match version_is_newer(remote.as_str(), current) {
        Some(true) => UpdateStatus::NewerAvailable,
        Some(false) => UpdateStatus::UpToDate,
        None => UpdateStatus::Unparseable,
    }
}

} // verus!
