use vstd::prelude::*;

verus! {

/// ASCII lowercasing of one character; anything outside 'A'..='Z' is unchanged.
pub open spec fn lower_char(c: char) -> char {
    if 'A' <= c && c <= 'Z' {
        (((c as u8) + 32) as char)
    } else {
        c
    }
}

/// ASCII lowercasing of a character sequence.
pub open spec fn lower_seq(s: Seq<char>) -> Seq<char> {
    s.map_values(|c: char| lower_char(c))
}

/// The index of the last occurrence of `c` in `s`, or -1 when absent.
pub open spec fn last_index_of(s: Seq<char>, c: char) -> int
    decreases s.len(),
{
    if s.len() == 0 {
        -1
    } else if s[s.len() - 1] == c {
        s.len() - 1
    } else {
        last_index_of(s.drop_last(), c)
    }
}

/// The index of the first occurrence of `c` in `s`, or -1 when absent.
pub open spec fn first_index_of(s: Seq<char>, c: char) -> int
    decreases s.len(),
{
    if s.len() == 0 {
        -1
    } else if s[0] == c {
        0
    } else if first_index_of(s.subrange(1, s.len() as int), c) == -1 {
        -1
    } else {
        1 + first_index_of(s.subrange(1, s.len() as int), c)
    }
}

pub proof fn lemma_last_index_of_range(s: Seq<char>, c: char)
    ensures
        last_index_of(s, c) >= 0 ==> last_index_of(s, c) < s.len() && s[last_index_of(s, c)] == c,
        last_index_of(s, c) == -1 ==> forall|i: int| 0 <= i < s.len() ==> s[i] != c,
        last_index_of(s, c) >= -1,
        forall|i: int| last_index_of(s, c) < i < s.len() ==> s[i] != c,
    decreases s.len(),
{
    if s.len() > 0 && s[s.len() - 1] != c {
        lemma_last_index_of_range(s.drop_last(), c);
        assert forall|i: int| last_index_of(s, c) < i < s.len() implies s[i] != c by {
            if i < s.len() - 1 {
                assert(s.drop_last()[i] == s[i]);
            }
        }
    }
}

pub proof fn lemma_first_index_of_range(s: Seq<char>, c: char)
    ensures
        first_index_of(s, c) >= 0 ==> first_index_of(s, c) < s.len() && s[first_index_of(s, c)]
            == c,
        first_index_of(s, c) == -1 ==> forall|i: int| 0 <= i < s.len() ==> s[i] != c,
        first_index_of(s, c) >= -1,
        forall|i: int| 0 <= i < first_index_of(s, c) ==> s[i] != c,
    decreases s.len(),
{
    if s.len() > 0 && s[0] != c {
        lemma_first_index_of_range(s.subrange(1, s.len() as int), c);
        assert forall|i: int| 0 <= i < s.len() && s[i] == c implies first_index_of(s, c) != -1 by {
            if i > 0 {
                assert(s.subrange(1, s.len() as int)[i - 1] == s[i]);
            }
        }
        assert forall|i: int| 0 <= i < first_index_of(s, c) implies s[i] != c by {
            if i > 0 {
                assert(s.subrange(1, s.len() as int)[i - 1] == s[i]);
            }
        }
    }
}

/// A last occurrence found by scanning right to left is `last_index_of`.
pub proof fn lemma_last_index_of_witness(s: Seq<char>, c: char, k: int)
    requires
        0 <= k < s.len(),
        s[k] == c,
        forall|j: int| k < j < s.len() ==> s[j] != c,
    ensures
        last_index_of(s, c) == k,
    decreases s.len(),
{
    if k < s.len() - 1 {
        assert(s.drop_last()[k] == s[k]);
        lemma_last_index_of_witness(s.drop_last(), c, k);
    }
}

/// The characters of `s`, one per vector element.
pub fn to_chars(s: &str) -> (v: Vec<char>)
    ensures
        v@ == s@,
{
    let n: usize = s.unicode_len();
    let mut v: Vec<char> = Vec::new();
    let mut i: usize = 0;
    while i < n
        invariant
            i <= n,
            n == s@.len(),
            v@ == s@.subrange(0, i as int),
        decreases n - i,
    {
        let c: char = s.get_char(i);
        v.push(c);
        proof {
            assert(s@.subrange(0, i + 1 as int) =~= s@.subrange(0, i as int).push(s@[i as int]));
        }
        i += 1;
    }
    proof {
        assert(s@.subrange(0, n as int) =~= s@);
    }
    v
}

/// ASCII lowercasing of every element.
pub fn lower_vec(v: &Vec<char>) -> (r: Vec<char>)
    ensures
        r@ == lower_seq(v@),
{
    let n: usize = v.len();
    let mut r: Vec<char> = Vec::new();
    let mut i: usize = 0;
    while i < n
        invariant
            i <= n,
            n == v@.len(),
            r@ == lower_seq(v@.subrange(0, i as int)),
        decreases n - i,
    {
        let c: char = v[i];
        if 'A' <= c && c <= 'Z' {
            r.push(((c as u8) + 32) as char);
        } else {
            r.push(c);
        }
        proof {
            assert(lower_seq(v@.subrange(0, i + 1 as int)) =~= lower_seq(
                v@.subrange(0, i as int),
            ).push(lower_char(v@[i as int])));
        }
        i += 1;
    }
    proof {
        assert(v@.subrange(0, n as int) =~= v@);
    }
    r
}

/// `s` ends with `suf` (the empty suffix is an end of everything).
pub open spec fn has_suffix(s: Seq<char>, suf: Seq<char>) -> bool {
    s.len() >= suf.len() && s.subrange(s.len() - suf.len(), s.len() as int) =~= suf
}

/// Whether the vector's characters end with the literal `suf`.
pub fn ends_with(v: &Vec<char>, suf: &str) -> (r: bool)
    ensures
        r == has_suffix(v@, suf@),
{
    let n: usize = v.len();
    let m: usize = suf.unicode_len();
    if n < m {
        proof {
            assert(!has_suffix(v@, suf@));
        }
        return false;
    }
    let mut i: usize = 0;
    while i < m
        invariant
            i <= m,
            m == suf@.len(),
            n == v@.len(),
            n >= m,
            forall|j: int| 0 <= j < i ==> v@[n - m + j] == suf@[j],
        decreases m - i,
    {
        let c: char = v[n - m + i];
        if c != suf.get_char(i) {
            proof {
                assert(v@.subrange(n - m, n as int)[i as int] != suf@[i as int]);
            }
            return false;
        }
        i += 1;
    }
    proof {
        assert(v@.subrange(n - m, n as int) =~= suf@);
    }
    true
}

/// The part of a path after its last '/', the whole path when it has none.
pub open spec fn file_name_spec(path: Seq<char>) -> Seq<char> {
    path.subrange(last_index_of(path, '/') + 1, path.len() as int)
}

/// The last-`c` based scan: Some(last index) or None.
pub fn last_index_of_exec(v: &Vec<char>, c: char) -> (r: Option<usize>)
    ensures
        match r {
            Some(i) => i < v@.len() && i == last_index_of(v@, c),
            None => last_index_of(v@, c) == -1,
        },
{
    let n: usize = v.len();
    let mut j: usize = n;
    while j > 0
        invariant
            j <= n,
            n == v@.len(),
            forall|k: int| j <= k < n ==> v@[k] != c,
        decreases j,
    {
        j -= 1;
        if v[j] == c {
            proof {
                lemma_last_index_of_witness(v@, c, j as int);
            }
            return Some(j);
        }
    }
    proof {
        lemma_last_index_of_range(v@, c);
        if last_index_of(v@, c) >= 0 {
            assert(v@[last_index_of(v@, c)] == c);
        }
    }
    None
}

/// The file-name part of a path held as characters.
pub fn file_name_chars(v: &Vec<char>) -> (r: Vec<char>)
    ensures
        r@ == file_name_spec(v@),
{
    let n: usize = v.len();
    let start: usize = match last_index_of_exec(v, '/') {
        Some(i) => i + 1,
        None => 0,
    };
    proof {
        lemma_last_index_of_range(v@, '/');
    }
    let mut r: Vec<char> = Vec::new();
    let mut i: usize = start;
    while i < n
        invariant
            start <= i <= n,
            n == v@.len(),
            r@ == v@.subrange(start as int, i as int),
        decreases n - i,
    {
        r.push(v[i]);
        proof {
            assert(v@.subrange(start as int, i + 1 as int) =~= v@.subrange(
                start as int,
                i as int,
            ).push(v@[i as int]));
        }
        i += 1;
    }
    r
}

/// Joining a directory path and a file name with '/', as path concatenation:
/// an empty directory leaves the name alone, a trailing '/' is not doubled.
pub open spec fn join_path(dir: Seq<char>, name: Seq<char>) -> Seq<char> {
    if dir.len() == 0 {
        name
    } else if dir[dir.len() - 1] == '/' {
        dir + name
    } else {
        dir + seq!['/'] + name
    }
}

/// A joined path keeps the directory as its prefix: whatever entry name is
/// joined under a destination, the result stays inside it textually.
pub proof fn lemma_join_path_keeps_root(dir: Seq<char>, name: Seq<char>)
    requires
        dir.len() > 0,
    ensures
        join_path(dir, name).len() >= dir.len(),
        join_path(dir, name).subrange(0, dir.len() as int) =~= dir,
{
}

/// Builds the joined path of `join_path` as characters.
pub fn join_path_chars(dir: &Vec<char>, name: &Vec<char>) -> (r: Vec<char>)
    ensures
        r@ == join_path(dir@, name@),
{
    let mut r: Vec<char> = Vec::new();
    let nd: usize = dir.len();
    let mut i: usize = 0;
    while i < nd
        invariant
            i <= nd,
            nd == dir@.len(),
            r@ == dir@.subrange(0, i as int),
        decreases nd - i,
    {
        r.push(dir[i]);
        proof {
            assert(dir@.subrange(0, i + 1 as int) =~= dir@.subrange(0, i as int).push(
                dir@[i as int],
            ));
        }
        i += 1;
    }
    proof {
        assert(dir@.subrange(0, nd as int) =~= dir@);
    }
    if nd > 0 && dir[nd - 1] != '/' {
        r.push('/');
    }
    let ghost mid: Seq<char> = r@;
    let nn: usize = name.len();
    let mut j: usize = 0;
    while j < nn
        invariant
            j <= nn,
            nn == name@.len(),
            r@ == mid + name@.subrange(0, j as int),
        decreases nn - j,
    {
        r.push(name[j]);
        proof {
            assert(mid + name@.subrange(0, j + 1 as int) =~= (mid + name@.subrange(
                0,
                j as int,
            )).push(name@[j as int]));
        }
        j += 1;
    }
    proof {
        assert(name@.subrange(0, nn as int) =~= name@);
        if nd == 0 {
            assert(mid + name@ =~= name@);
            assert(r@ =~= join_path(dir@, name@));
        } else if dir@[nd - 1] == '/' {
            assert(r@ =~= join_path(dir@, name@));
        } else {
            assert(mid =~= dir@ + seq!['/']);
            assert(r@ =~= join_path(dir@, name@));
        }
    }
    r
}

/// Appends all of `src` to `dst`.
pub fn extend_chars(dst: &mut Vec<char>, src: &Vec<char>)
    ensures
        final(dst)@ == old(dst)@ + src@,
{
    let ghost base = dst@;
    let n: usize = src.len();
    let mut i: usize = 0;
    proof {
        assert(base + src@.subrange(0, 0) =~= base);
    }
    while i < n
        invariant
            i <= n,
            n == src@.len(),
            dst@ == base + src@.subrange(0, i as int),
        decreases n - i,
    {
        dst.push(src[i]);
        proof {
            assert(base + src@.subrange(0, i + 1 as int) =~= (base + src@.subrange(
                0,
                i as int,
            )).push(src@[i as int]));
        }
        i += 1;
    }
    proof {
        assert(base + src@.subrange(0, n as int) =~= base + src@);
    }
}

/// Copies the half-open character range `from..to`.
pub fn subrange_chars(v: &Vec<char>, from: usize, to: usize) -> (r: Vec<char>)
    requires
        from <= to <= v@.len(),
    ensures
        r@ == v@.subrange(from as int, to as int),
{
    let mut r: Vec<char> = Vec::new();
    let mut i: usize = from;
    while i < to
        invariant
            from <= i <= to <= v@.len(),
            r@ == v@.subrange(from as int, i as int),
        decreases to - i,
    {
        r.push(v[i]);
        proof {
            assert(v@.subrange(from as int, i + 1 as int) =~= v@.subrange(from as int, i as int)
                .push(v@[i as int]));
        }
        i += 1;
    }
    r
}

/// Whether two character vectors hold the same characters.
pub fn chars_eq(a: &Vec<char>, b: &Vec<char>) -> (r: bool)
    ensures
        r == (a@ == b@),
{
    let n: usize = a.len();
    if n != b.len() {
        proof {
            assert(a@.len() != b@.len());
        }
        return false;
    }
    let mut i: usize = 0;
    while i < n
        invariant
            i <= n,
            n == a@.len() == b@.len(),
            forall|k: int| 0 <= k < i ==> a@[k] == b@[k],
        decreases n - i,
    {
        if a[i] != b[i] {
            return false;
        }
        i += 1;
    }
    proof {
        assert(a@ =~= b@);
    }
    true
}

/// Relies on `String`'s `FromIterator<char>`: collecting characters yields a
/// string of exactly those characters, in order.
#[verifier::external_body]
pub(crate) fn chars_to_string(v: &Vec<char>) -> (r: String)
    ensures
        r@ == v@,
{
    v.iter().copied().collect()
}

} // verus!
