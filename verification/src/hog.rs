use vstd::prelude::*;

use vstd::multiset::Multiset;

use crate::chars::chars_to_string;
use crate::cli::{Hog, HogArgs};

verus! {

broadcast use vstd::seq_lib::group_to_multiset_ensures, vstd::multiset::group_multiset_axioms;

/// The decimal digit character for `d` in 0..=9.
pub open spec fn digit_char(d: int) -> char {
    if d == 0 {
        '0'
    } else if d == 1 {
        '1'
    } else if d == 2 {
        '2'
    } else if d == 3 {
        '3'
    } else if d == 4 {
        '4'
    } else if d == 5 {
        '5'
    } else if d == 6 {
        '6'
    } else if d == 7 {
        '7'
    } else if d == 8 {
        '8'
    } else if d == 9 {
        '9'
    } else {
        '?'
    }
}

/// The decimal writing of `n`, without sign or padding.
pub open spec fn dec_str(n: nat) -> Seq<char>
    decreases n,
{
    if n < 10 {
        seq![digit_char(n as int)]
    } else {
        dec_str(n / 10).push(digit_char((n % 10) as int))
    }
}

fn digit_char_exec(d: u128) -> (c: char)
    requires
        d < 10,
    ensures
        c == digit_char(d as int),
{
    if d == 0 {
        '0'
    } else if d == 1 {
        '1'
    } else if d == 2 {
        '2'
    } else if d == 3 {
        '3'
    } else if d == 4 {
        '4'
    } else if d == 5 {
        '5'
    } else if d == 6 {
        '6'
    } else if d == 7 {
        '7'
    } else if d == 8 {
        '8'
    } else {
        '9'
    }
}

/// Writes `n` in decimal.
fn u128_to_dec(n: u128) -> (v: Vec<char>)
    ensures
        v@ == dec_str(n as nat),
    decreases n,
{
    if n < 10 {
        let mut v: Vec<char> = Vec::new();
        v.push(digit_char_exec(n));
        proof {
            assert(v@ =~= dec_str(n as nat));
        }
        v
    } else {
        let mut v = u128_to_dec(n / 10);
        v.push(digit_char_exec(n % 10));
        v
    }
}

/// `n` scaled to hundredths of the unit `div`, rounded to nearest with
/// ties going to the even hundredth, as float formatting rounds.
pub open spec fn scaled(n: int, div: int) -> int {
    let q = (n * 100) / div;
    let r = (n * 100) % div;
    if 2 * r > div || (2 * r == div && q % 2 == 1) {
        q + 1
    } else {
        q
    }
}

/// A two-decimal fixed-point writing of `n` units of `div`.
pub open spec fn fixed2(n: int, div: int) -> Seq<char> {
    dec_str((scaled(n, div) / 100) as nat) + seq!['.'] + seq![
        digit_char(scaled(n, div) % 100 / 10),
        digit_char(scaled(n, div) % 100 % 10),
    ]
}

/// A byte count as people read it: bytes below one KiB, otherwise two
/// decimals of the largest binary unit reached, capped at GiB.
pub open spec fn human_size_spec(n: nat) -> Seq<char> {
    if n < 1024 {
        dec_str(n) + " B"@
    } else if n < 1048576 {
        fixed2(n as int, 1024) + " KB"@
    } else if n < 1073741824 {
        fixed2(n as int, 1048576) + " MB"@
    } else {
        fixed2(n as int, 1073741824) + " GB"@
    }
}

/// Scales `n` to hundredths of `div`, rounding ties to even.
fn scale_half_even(n: u128, div: u128) -> (q: u128)
    requires
        1 <= div <= 0xffff_ffff_ffff_ffff,
        n <= 0xffff_ffff_ffff_ffff,
    ensures
        q as int == scaled(n as int, div as int),
{
    let t: u128 = n * 100;
    let q0: u128 = t / div;
    let r: u128 = t % div;
    proof {
        assert(q0 <= t);
        assert(r < div);
    }
    if 2 * r > div || (2 * r == div && q0 % 2 == 1) {
        q0 + 1
    } else {
        q0
    }
}

/// Writes the fixed-point part of `fixed2` for an already scaled `q`.
fn fixed2_chars(q: u128) -> (v: Vec<char>)
    ensures
        v@ == dec_str((q / 100) as nat) + seq!['.'] + seq![
            digit_char(q as int % 100 / 10),
            digit_char(q as int % 100 % 10),
        ],
{
    let mut v = u128_to_dec(q / 100);
    v.push('.');
    v.push(digit_char_exec(q % 100 / 10));
    v.push(digit_char_exec(q % 100 % 10));
    proof {
        assert(v@ =~= dec_str((q / 100) as nat) + seq!['.'] + seq![
            digit_char(q as int % 100 / 10),
            digit_char(q as int % 100 % 10),
        ]);
    }
    v
}

/// Builds the human-readable size writing of `human_size_spec`.
pub(crate) fn human_size_chars(size: usize) -> (v: Vec<char>)
    ensures
        v@ == human_size_spec(size as nat),
{
    let n: u128 = size as u128;
    if size < 1024 {
        let mut v = u128_to_dec(n);
        v.push(' ');
        v.push('B');
        proof {
            reveal_strlit(" B");
            assert(" B"@ =~= seq![' ', 'B']);
            assert(v@ =~= dec_str(size as nat) + " B"@);
        }
        v
    } else if size < 1048576 {
        let q: u128 = scale_half_even(n, 1024);
        let mut v = fixed2_chars(q);
        v.push(' ');
        v.push('K');
        v.push('B');
        proof {
            reveal_strlit(" KB");
            assert(" KB"@ =~= seq![' ', 'K', 'B']);
            assert(q as int == scaled(size as int, 1024));
            assert(v@ =~= fixed2(size as int, 1024) + " KB"@);
        }
        v
    } else if size < 1073741824 {
        let q: u128 = scale_half_even(n, 1048576);
        let mut v = fixed2_chars(q);
        v.push(' ');
        v.push('M');
        v.push('B');
        proof {
            reveal_strlit(" MB");
            assert(" MB"@ =~= seq![' ', 'M', 'B']);
            assert(q as int == scaled(size as int, 1048576));
            assert(v@ =~= fixed2(size as int, 1048576) + " MB"@);
        }
        v
    } else {
        let q: u128 = scale_half_even(n, 1073741824);
        let mut v = fixed2_chars(q);
        v.push(' ');
        v.push('G');
        v.push('B');
        proof {
            reveal_strlit(" GB");
            assert(" GB"@ =~= seq![' ', 'G', 'B']);
            assert(q as int == scaled(size as int, 1073741824));
            assert(v@ =~= fixed2(size as int, 1073741824) + " GB"@);
        }
        v
    }
}

/// Entry sizes never grow from one position to the next.
pub open spec fn sorted_desc(s: Seq<(String, usize)>) -> bool {
    forall|i: int, j: int| 0 <= i < j < s.len() ==> #[trigger] s[i].1 >= #[trigger] s[j].1
}

/// Orders directory entries by size, largest first. The result holds exactly
/// the given entries.
pub fn sort_by_size_desc(items: Vec<(String, usize)>) -> (r: Vec<(String, usize)>)
    ensures
        sorted_desc(r@),
        r@.to_multiset() == items@.to_multiset(),
{
    let mut rest = items;
    let mut out: Vec<(String, usize)> = Vec::new();
    while rest.len() > 0
        invariant
            sorted_desc(out@),
            out@.to_multiset().add(rest@.to_multiset()) =~= items@.to_multiset(),
            forall|i: int, j: int|
                0 <= i < out@.len() && 0 <= j < rest@.len() ==> #[trigger] out@[i].1
                    >= #[trigger] rest@[j].1,
        decreases rest@.len(),
    {
        let mut best: usize = 0;
        let mut j: usize = 1;
        while j < rest.len()
            invariant
                best < j,
                1 <= j <= rest@.len(),
                forall|k: int| 0 <= k < j ==> rest@[best as int].1 >= #[trigger] rest@[k].1,
            decreases rest@.len() - j,
        {
            if rest[j].1 > rest[best].1 {
                best = j;
            }
            j += 1;
        }
        let ghost out_old = out@;
        let ghost rest_old = rest@;
        let picked = rest.remove(best);
        out.push(picked);
        proof {
            assert(rest_old[best as int] == picked);
            assert(rest_old.contains(picked));
            vstd::seq_lib::to_multiset_remove(rest_old, best as int);
            assert(rest@.to_multiset() =~= rest_old.to_multiset().remove(picked));
            assert(out@ == out_old.push(picked));
            vstd::seq_lib::to_multiset_build(out_old, picked);
            assert(out@.to_multiset() =~= out_old.to_multiset().insert(picked));
            assert(rest_old.to_multiset().count(picked) > 0);
            assert(out@.to_multiset().add(rest@.to_multiset()) =~= out_old.to_multiset().add(
                rest_old.to_multiset(),
            ));
        }
    }
    proof {
        assert(rest@.to_multiset() =~= Multiset::<(String, usize)>::empty());
        assert(out@.to_multiset() =~= items@.to_multiset());
    }
    out
}

/// The size writing a report uses: human-readable or plain decimal.
pub open spec fn size_text(n: nat, human: bool) -> Seq<char> {
    if human {
        human_size_spec(n)
    } else {
        dec_str(n)
    }
}

/// One report line: the entry path, a separator, and its size.
pub open spec fn line_spec(item: (String, usize), human: bool) -> Seq<char> {
    item.0@ + ": "@ + size_text(item.1 as nat, human)
}

/// The sizes of the entries, added up.
pub open spec fn sum_sizes(s: Seq<(String, usize)>) -> int
    decreases s.len(),
{
    if s.len() == 0 {
        0int
    } else {
        s[0].1 + sum_sizes(s.drop_first())
    }
}

pub proof fn lemma_sum_sizes_nonneg(s: Seq<(String, usize)>)
    ensures
        sum_sizes(s) >= 0,
    decreases s.len(),
{
    if s.len() > 0 {
        lemma_sum_sizes_nonneg(s.drop_first());
    }
}

/// Writes one size as the report shows it.
fn size_string(n: usize, human: bool) -> (r: String)
    ensures
        r@ == size_text(n as nat, human),
{
    if human {
        let v = human_size_chars(n);
        chars_to_string(&v)
    } else {
        let v = u128_to_dec(n as u128);
        chars_to_string(&v)
    }
}

impl HogArgs {
    /// The human-readable writing of a byte count.
    pub fn human_size(&self, size: usize) -> (r: String)
        ensures
            r@ == human_size_spec(size as nat),
    {
        let v = human_size_chars(size);
        chars_to_string(&v)
    }

    /// The report lines for already ordered entries: one line per entry, at
    /// most one more than the configured limit.
    pub fn report_lines(&self, items: Vec<(String, usize)>) -> (r: Vec<String>)
        ensures
            r@.len() == if items@.len() <= self.limit + 1 {
                items@.len() as int
            } else {
                self.limit + 1
            },
            forall|i: int|
                0 <= i < r@.len() ==> r@[i]@ == line_spec(items@[i], self.human_readable),
    {
        let ghost orig = items@;
        let take: usize = if items.len() > self.limit {
            self.limit + 1
        } else {
            items.len()
        };
        let mut rest = items;
        let mut out: Vec<String> = Vec::new();
        let ghost mut i: int = 0;
        while out.len() < take
            invariant
                0 <= i,
                out@.len() == i,
                i <= take,
                take <= orig.len(),
                i + rest@.len() == orig.len(),
                rest@ == orig.subrange(i as int, orig.len() as int),
                forall|k: int|
                    0 <= k < out@.len() ==> out@[k]@ == line_spec(orig[k], self.human_readable),
            decreases take - i,
        {
            let item = rest.remove(0);
            proof {
                assert(item == orig[i as int]);
                assert(orig.subrange(i as int, orig.len() as int).remove(0) =~= orig.subrange(
                    i + 1 as int,
                    orig.len() as int,
                ));
            }
            let stext = size_string(item.1, self.human_readable);
            let line = item.0.concat(": ").concat(stext.as_str());
            out.push(line);
            proof {
                i = i + 1;
            }
        }
        out
    }

    /// The report's heading line with the total of all entry sizes.
    pub fn total_line(&self, items: &Vec<(String, usize)>) -> (r: String)
        requires
            sum_sizes(items@) <= usize::MAX,
        ensures
            r@ == "Total size: "@ + size_text(sum_sizes(items@) as nat, self.human_readable),
    {
        let n: usize = items.len();
        let mut total: usize = 0;
        let mut i: usize = 0;
        proof {
            assert(items@.subrange(0, n as int) =~= items@);
        }
        while i < n
            invariant
                i <= n,
                n == items@.len(),
                sum_sizes(items@) <= usize::MAX,
                total == sum_sizes(items@.subrange(0, i as int)) == sum_sizes(items@)
                    - sum_sizes(items@.subrange(i as int, n as int)),
            decreases n - i,
        {
            proof {
                assert(items@.subrange(i as int, n as int).drop_first() =~= items@.subrange(
                    i + 1 as int,
                    n as int,
                ));
                assert(items@.subrange(i as int, n as int)[0] == items@[i as int]);
                lemma_sum_sizes_nonneg(items@.subrange(i + 1 as int, n as int));
                lemma_sum_sizes_push(items@.subrange(0, i as int), items@[i as int]);
                assert(items@.subrange(0, i + 1 as int) =~= items@.subrange(0, i as int).push(
                    items@[i as int],
                ));
            }
            total = total + items[i].1;
            i += 1;
        }
        proof {
            assert(items@.subrange(0, n as int) =~= items@);
        }
        let stext = size_string(total, self.human_readable);
        String::from_str("Total size: ").concat(stext.as_str())
    }
}

/// Adding one entry at the end adds its size.
pub proof fn lemma_sum_sizes_push(s: Seq<(String, usize)>, e: (String, usize))
    ensures
        sum_sizes(s.push(e)) == sum_sizes(s) + e.1,
    decreases s.len(),
{
    if s.len() == 0 {
        assert(s.push(e)[0] == e);
        assert(s.push(e).drop_first() =~= Seq::<(String, usize)>::empty());
        assert(sum_sizes(s.push(e).drop_first()) == 0);
        assert(sum_sizes(s.push(e)) == e.1 + sum_sizes(s.push(e).drop_first()));
        assert(sum_sizes(s) == 0);
    } else {
        assert(s.push(e)[0] == s[0]);
        assert(s.push(e).drop_first() =~= s.drop_first().push(e));
        lemma_sum_sizes_push(s.drop_first(), e);
    }
}

impl Hog {
    /// The human-readable writing of a byte count.
    pub fn human_size(&self, size: usize) -> (r: String)
        ensures
            r@ == human_size_spec(size as nat),
    {
        let v = human_size_chars(size);
        chars_to_string(&v)
    }
}

} // verus!
