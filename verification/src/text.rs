//! Characters, whitespace, and the two ways a line is cut along whitespace:
//! trimming its ends and splitting it into words.

use crate::text::laws::lemma_words_from_shape;
use vstd::prelude::*;

pub mod laws;

verus! {

/// Whether `c` is a whitespace character: one of the code points that carry
/// the Unicode property `White_Space`.
pub open spec fn is_space(c: char) -> bool {
    let n = c as u32;
    ||| 0x09 <= n <= 0x0D
    ||| n == 0x20
    ||| n == 0x85
    ||| n == 0xA0
    ||| n == 0x1680
    ||| 0x2000 <= n <= 0x200A
    ||| n == 0x2028
    ||| n == 0x2029
    ||| n == 0x202F
    ||| n == 0x205F
    ||| n == 0x3000
}

/// How many whitespace characters stand in a row in `s` from index `i` on.
pub open spec fn space_run(s: Seq<char>, i: int) -> nat
    decreases s.len() - i,
{
    if 0 <= i < s.len() && is_space(s[i]) {
        1 + space_run(s, i + 1)
    } else {
        0
    }
}

/// How many characters other than whitespace stand in a row in `s` from
/// index `i` on.
pub open spec fn word_run(s: Seq<char>, i: int) -> nat
    decreases s.len() - i,
{
    if 0 <= i < s.len() && !is_space(s[i]) {
        1 + word_run(s, i + 1)
    } else {
        0
    }
}

/// How many whitespace characters stand in a row in `s` just before index
/// `j`, counted backwards.
pub open spec fn space_run_back(s: Seq<char>, j: int) -> nat
    decreases j,
{
    if 0 < j <= s.len() && is_space(s[j - 1]) {
        1 + space_run_back(s, j - 1)
    } else {
        0
    }
}

/// Whether `s` holds nothing but whitespace.
pub open spec fn is_blank(s: Seq<char>) -> bool {
    forall|k: int| 0 <= k < s.len() ==> is_space(#[trigger] s[k])
}

/// `s` without the whitespace at its two ends.
pub open spec fn trimmed(s: Seq<char>) -> Seq<char> {
    let a = space_run(s, 0) as int;
    let b = s.len() - space_run_back(s, s.len() as int);
    if a < b {
        s.subrange(a, b)
    } else {
        Seq::empty()
    }
}

/// Whether `t` can be a word: it is not empty and holds no whitespace.
pub open spec fn is_word(t: Seq<char>) -> bool {
    t.len() > 0 && forall|k: int| 0 <= k < t.len() ==> !is_space(#[trigger] t[k])
}

/// The words of `s` that begin at index `i` or later, in order. A word is a
/// longest run of characters other than whitespace.
pub open spec fn words_from(s: Seq<char>, i: int) -> Seq<Seq<char>>
    decreases s.len() - i,
{
    let a = i + space_run(s, i);
    let b = a + word_run(s, a);
    if 0 <= i && a < b <= s.len() {
        seq![s.subrange(a, b)] + words_from(s, b)
    } else {
        Seq::empty()
    }
}

/// The words of `s`, in order: what is left of it when every run of
/// whitespace is taken as one gap, and the gaps at the two ends as none.
pub open spec fn words(s: Seq<char>) -> Seq<Seq<char>> {
    words_from(s, 0)
}

/// The text in which the words `ws` stand in order, with `gaps[k]` before
/// word `k` and the last gap behind the last word.
pub open spec fn spaced(gaps: Seq<Seq<char>>, ws: Seq<Seq<char>>) -> Seq<char>
    recommends
        gaps.len() == ws.len() + 1,
    decreases ws.len(),
{
    if ws.len() == 0 {
        gaps[0]
    } else {
        gaps[0] + ws[0] + spaced(gaps.drop_first(), ws.drop_first())
    }
}

/// Tells whether `c` is a whitespace character.
pub fn is_whitespace(c: char) -> (r: bool)
    ensures
        r == is_space(c),
{
    let n: u32 = c as u32;
    (0x09 <= n && n <= 0x0D) || n == 0x20 || n == 0x85 || n == 0xA0 || n == 0x1680 || (0x2000 <= n
        && n <= 0x200A) || n == 0x2028 || n == 0x2029 || n == 0x202F || n == 0x205F || n == 0x3000
}

/// The characters of `s`, one by one.
pub fn to_chars(s: &str) -> (v: Vec<char>)
    ensures
        v@ == s@,
{
    let mut v: Vec<char> = Vec::new();
    for c in it: s.chars()
        invariant
            v@ == it.seq().take(it.index() as int),
            it.seq() == s@,
    {
        v.push(c);
    }
    v
}

/// Cuts the whitespace off both ends of `s`.
pub fn trim(s: &str) -> (r: &str)
    ensures
        r@ == trimmed(s@),
{
    let v = to_chars(s);
    let n: usize = v.len();
    let mut a: usize = 0;
    while a < n && is_whitespace(v[a])
        invariant
            v@ == s@,
            n == v.len(),
            a <= n,
            a + space_run(s@, a as int) == space_run(s@, 0),
        decreases n - a,
    {
        a += 1;
    }
    let mut b: usize = n;
    while b > a && is_whitespace(v[b - 1])
        invariant
            v@ == s@,
            n == v.len(),
            a <= b <= n,
            (n - b) + space_run_back(s@, b as int) == space_run_back(s@, n as int),
        decreases b,
    {
        b -= 1;
    }
    s.substring_char(a, b)
}

/// Splits `s` into its words. However much whitespace `s` holds, no word is
/// empty.
pub fn split_words(s: &str) -> (out: Vec<String>)
    ensures
        out.deep_view() == words(s@),
        forall|k: int| 0 <= k < out.len() ==> is_word(#[trigger] out[k]@),
{
    let v = to_chars(s);
    let n: usize = v.len();
    let mut out: Vec<String> = Vec::new();
    let mut i: usize = 0;
    loop
        invariant
            v@ == s@,
            n == v.len(),
            i <= n,
            out.deep_view() + words_from(s@, i as int) == words(s@),
        ensures
            out.deep_view() == words(s@),
        decreases n - i,
    {
        let mut a: usize = i;
        while a < n && is_whitespace(v[a])
            invariant
                v@ == s@,
                n == v.len(),
                i <= a <= n,
                a + space_run(s@, a as int) == i + space_run(s@, i as int),
            decreases n - a,
        {
            a += 1;
        }
        if a >= n {
            break ;
        }
        let mut b: usize = a + 1;
        while b < n && !is_whitespace(v[b])
            invariant
                v@ == s@,
                n == v.len(),
                a < b <= n,
                b + word_run(s@, b as int) == a + word_run(s@, a as int),
            decreases n - b,
        {
            b += 1;
        }
        let word = s.substring_char(a, b).to_owned();
        out.push(word);
        i = b;
    }
    proof {
        lemma_words_from_shape(s@, 0);
        assert forall|k: int| 0 <= k < out.len() implies is_word(#[trigger] out[k]@) by {
            assert(out[k]@ == out.deep_view()[k]);
        }
    }
    out
}

/// Tells whether `a` and `b` hold the same characters.
pub fn same_text(a: &str, b: &str) -> (r: bool)
    ensures
        r == (a@ == b@),
{
    let x = to_chars(a);
    let y = to_chars(b);
    if x.len() != y.len() {
        return false;
    }
    let mut i: usize = 0;
    while i < x.len()
        invariant
            x@ == a@,
            y@ == b@,
            x.len() == y.len(),
            i <= x.len(),
            forall|k: int| 0 <= k < i ==> x[k] == y[k],
        decreases x.len() - i,
    {
        if x[i] != y[i] {
            return false;
        }
        i += 1;
    }
    assert(a@ =~= b@);
    true
}

} // verus!
