use vstd::prelude::*;

use crate::chars::{chars_to_string, to_chars};

verus! {

/// A character a clean file name may hold: ASCII letters and digits,
/// underscore, dash and dot.
pub open spec fn is_allowed_char(c: char) -> bool {
    ('a' <= c && c <= 'z') || ('A' <= c && c <= 'Z') || ('0' <= c && c <= '9') || c == '_' || c
        == '-' || c == '.'
}

/// A name that needs no cleaning: non-empty and made of allowed characters.
pub open spec fn is_clean_name(s: Seq<char>) -> bool {
    s.len() > 0 && forall|i: int| 0 <= i < s.len() ==> is_allowed_char(#[trigger] s[i])
}

/// Every disallowed character replaced by an underscore.
pub open spec fn underscored(s: Seq<char>) -> Seq<char> {
    s.map_values(
        |c: char|
            if is_allowed_char(c) {
                c
            } else {
                '_'
            },
    )
}

/// Runs of underscores shrunk to one: an underscore directly after another
/// underscore is dropped.
pub open spec fn collapsed(s: Seq<char>) -> Seq<char>
    decreases s.len(),
{
    if s.len() == 0 {
        Seq::<char>::empty()
    } else if s.last() == '_' && s.len() >= 2 && s[s.len() - 2] == '_' {
        collapsed(s.drop_last())
    } else {
        collapsed(s.drop_last()).push(s.last())
    }
}

/// What cleaning a file name gives: a name that is already clean is left
/// alone; any other has its disallowed characters underscored and the
/// resulting underscore runs shrunk to one.
pub open spec fn clean_name_spec(s: Seq<char>) -> Seq<char> {
    if is_clean_name(s) {
        s
    } else {
        collapsed(underscored(s))
    }
}

fn is_allowed_char_exec(c: char) -> (r: bool)
    ensures
        r == is_allowed_char(c),
{
    ('a' <= c && c <= 'z') || ('A' <= c && c <= 'Z') || ('0' <= c && c <= '9') || c == '_' || c
        == '-' || c == '.'
}

/// Cleans one file name as `clean_name_spec` says.
pub fn clean_file_name(name: &str) -> (r: String)
    ensures
        r@ == clean_name_spec(name@),
{
    let v = to_chars(name);
    let n: usize = v.len();
    let mut clean: bool = n > 0;
    let mut i: usize = 0;
    while i < n
        invariant
            i <= n,
            n == v@.len(),
            clean == (n > 0 && forall|k: int| 0 <= k < i ==> is_allowed_char(#[trigger] v@[k])),
        decreases n - i,
    {
        if !is_allowed_char_exec(v[i]) {
            clean = false;
        }
        i += 1;
    }
    if clean {
        proof {
            assert(is_clean_name(name@));
        }
        return chars_to_string(&v);
    }
    let mut mapped: Vec<char> = Vec::new();
    let mut j: usize = 0;
    while j < n
        invariant
            j <= n,
            n == v@.len(),
            mapped@ == underscored(v@.subrange(0, j as int)),
        decreases n - j,
    {
        let c: char = v[j];
        if is_allowed_char_exec(c) {
            mapped.push(c);
        } else {
            mapped.push('_');
        }
        proof {
            assert(underscored(v@.subrange(0, j + 1 as int)) =~= underscored(
                v@.subrange(0, j as int),
            ).push(
                if is_allowed_char(v@[j as int]) {
                    v@[j as int]
                } else {
                    '_'
                },
            ));
        }
        j += 1;
    }
    proof {
        assert(v@.subrange(0, n as int) =~= v@);
    }
    let m: usize = mapped.len();
    let mut out: Vec<char> = Vec::new();
    let mut k: usize = 0;
    while k < m
        invariant
            k <= m,
            m == mapped@.len(),
            out@ == collapsed(mapped@.subrange(0, k as int)),
        decreases m - k,
    {
        let c: char = mapped[k];
        if !(c == '_' && k >= 1 && mapped[k - 1] == '_') {
            out.push(c);
        }
        proof {
            assert(mapped@.subrange(0, k + 1 as int).drop_last() =~= mapped@.subrange(
                0,
                k as int,
            ));
            assert(mapped@.subrange(0, k + 1 as int).last() == mapped@[k as int]);
        }
        k += 1;
    }
    proof {
        assert(mapped@.subrange(0, m as int) =~= mapped@);
    }
    chars_to_string(&out)
}

} // verus!
