//! What holds of whitespace runs, of trimming and of words.

use crate::text::{
    is_blank, is_space, is_word, space_run, space_run_back, spaced, trimmed, word_run, words,
    words_from,
};
use vstd::prelude::*;

verus! {

/// A run of whitespace ends inside `s`, holds whitespace only, and stops at
/// the end of `s` or at a character that is not whitespace.
pub proof fn lemma_space_run(s: Seq<char>, i: int)
    requires
        0 <= i <= s.len(),
    ensures
        i + space_run(s, i) <= s.len(),
        forall|k: int| i <= k < i + space_run(s, i) ==> is_space(#[trigger] s[k]),
        i + space_run(s, i) < s.len() ==> !is_space(s[i + space_run(s, i)]),
    decreases s.len() - i,
{
    if i < s.len() && is_space(s[i]) {
        lemma_space_run(s, i + 1);
    }
}

/// A run of other characters ends inside `s`, holds no whitespace, and stops
/// at the end of `s` or at a whitespace character.
pub proof fn lemma_word_run(s: Seq<char>, i: int)
    requires
        0 <= i <= s.len(),
    ensures
        i + word_run(s, i) <= s.len(),
        forall|k: int| i <= k < i + word_run(s, i) ==> !is_space(#[trigger] s[k]),
        i + word_run(s, i) < s.len() ==> is_space(s[i + word_run(s, i)]),
    decreases s.len() - i,
{
    if i < s.len() && !is_space(s[i]) {
        lemma_word_run(s, i + 1);
    }
}

/// A backward run of whitespace begins inside `s`, holds whitespace only, and
/// stops at the start of `s` or behind a character that is not whitespace.
pub proof fn lemma_space_run_back(s: Seq<char>, j: int)
    requires
        0 <= j <= s.len(),
    ensures
        0 <= j - space_run_back(s, j),
        forall|k: int| j - space_run_back(s, j) <= k < j ==> is_space(#[trigger] s[k]),
        0 < j - space_run_back(s, j) ==> !is_space(s[j - space_run_back(s, j) - 1]),
    decreases j,
{
    if 0 < j && is_space(s[j - 1]) {
        lemma_space_run_back(s, j - 1);
    }
}

/// A blank text followed by a character other than whitespace, or by nothing,
/// is one whole run of whitespace.
proof fn lemma_space_run_is(s: Seq<char>, i: int, j: int)
    requires
        0 <= i <= j <= s.len(),
        forall|k: int| i <= k < j ==> is_space(#[trigger] s[k]),
        j < s.len() ==> !is_space(s[j]),
    ensures
        i + space_run(s, i) == j,
    decreases j - i,
{
    if i < j {
        lemma_space_run_is(s, i + 1, j);
    }
}

/// A text without whitespace followed by a whitespace character, or by
/// nothing, is one whole run of other characters.
proof fn lemma_word_run_is(s: Seq<char>, i: int, j: int)
    requires
        0 <= i <= j <= s.len(),
        forall|k: int| i <= k < j ==> !is_space(#[trigger] s[k]),
        j < s.len() ==> is_space(s[j]),
    ensures
        i + word_run(s, i) == j,
    decreases j - i,
{
    if i < j {
        lemma_word_run_is(s, i + 1, j);
    }
}

/// A run of whitespace in `t` is the same run in `pre + t`.
proof fn lemma_space_run_shift(pre: Seq<char>, t: Seq<char>, i: int)
    requires
        0 <= i,
    ensures
        space_run(pre + t, pre.len() + i) == space_run(t, i),
    decreases t.len() - i,
{
    if i < t.len() {
        if is_space(t[i]) {
            lemma_space_run_shift(pre, t, i + 1);
        }
    }
}

/// A run of other characters in `t` is the same run in `pre + t`.
proof fn lemma_word_run_shift(pre: Seq<char>, t: Seq<char>, i: int)
    requires
        0 <= i,
    ensures
        word_run(pre + t, pre.len() + i) == word_run(t, i),
    decreases t.len() - i,
{
    if i < t.len() {
        if !is_space(t[i]) {
            lemma_word_run_shift(pre, t, i + 1);
        }
    }
}

/// The words of `t` from index `i` on are the words of `pre + t` from the
/// same place on.
proof fn lemma_words_from_shift(pre: Seq<char>, t: Seq<char>, i: int)
    requires
        0 <= i,
    ensures
        words_from(pre + t, pre.len() + i) == words_from(t, i),
    decreases t.len() - i,
{
    let a = i + space_run(t, i);
    let b = a + word_run(t, a);
    lemma_space_run_shift(pre, t, i);
    lemma_word_run_shift(pre, t, a);
    if a < b <= t.len() {
        lemma_words_from_shift(pre, t, b);
        assert((pre + t).subrange(pre.len() + a, pre.len() + b) =~= t.subrange(a, b));
    }
}

/// Trimming cuts whitespace only, from the two ends only, and all of it:
/// `trimmed(s)` is `s` from index `cut.0` up to index `cut.1`, what stands
/// before and behind is blank, and what is left neither begins nor ends with
/// whitespace. Nothing is left if and only if `s` is blank.
pub proof fn lemma_trimmed(s: Seq<char>) -> (cut: (int, int))
    ensures
        0 <= cut.0 <= cut.1 <= s.len(),
        trimmed(s) == s.subrange(cut.0, cut.1),
        is_blank(s.subrange(0, cut.0)),
        is_blank(s.subrange(cut.1, s.len() as int)),
        trimmed(s).len() > 0 ==> !is_space(trimmed(s).first()) && !is_space(trimmed(s).last()),
        trimmed(s).len() == 0 <==> is_blank(s),
{
    let a = space_run(s, 0) as int;
    let b = s.len() - space_run_back(s, s.len() as int);
    lemma_space_run(s, 0);
    lemma_space_run_back(s, s.len() as int);
    if a < b {
        (a, b)
    } else {
        // The run from the front and the run from the back meet: were there a
        // character other than whitespace, it would stand at `a` and before `b`.
        assert(is_blank(s)) by {
            assert forall|k: int| 0 <= k < s.len() implies is_space(#[trigger] s[k]) by {}
        }
        (a, a)
    }
}

/// A text that neither begins nor ends with whitespace is left whole by
/// trimming.
pub proof fn lemma_trimmed_whole(s: Seq<char>)
    requires
        s.len() > 0 ==> !is_space(s.first()) && !is_space(s.last()),
    ensures
        trimmed(s) == s,
{
    assert(trimmed(s) =~= s);
}

/// Every word found in `s` from index `i` on is a word in shape: not empty,
/// and free of whitespace.
pub proof fn lemma_words_from_shape(s: Seq<char>, i: int)
    ensures
        forall|k: int| 0 <= k < words_from(s, i).len() ==> is_word(#[trigger] words_from(s, i)[k]),
    decreases s.len() - i,
{
    let a = i + space_run(s, i);
    let b = a + word_run(s, a);
    if 0 <= i && a < b <= s.len() {
        lemma_word_run(s, a);
        lemma_words_from_shape(s, b);
        assert forall|k: int| 0 <= k < words_from(s, i).len() implies is_word(
            #[trigger] words_from(s, i)[k],
        ) by {
            if k > 0 {
                assert(words_from(s, i)[k] == words_from(s, b)[k - 1]);
            }
        }
    }
}

/// Runs of whitespace collapse: however long the gaps between the words and
/// at the two ends are, and whichever whitespace characters they hold, the
/// words of the text are the words that were put into it. Only a gap between
/// two words must not be empty.
pub proof fn lemma_whitespace_runs_collapse(gaps: Seq<Seq<char>>, ws: Seq<Seq<char>>)
    requires
        gaps.len() == ws.len() + 1,
        forall|k: int| 0 <= k < gaps.len() ==> is_blank(#[trigger] gaps[k]),
        forall|k: int| 0 < k < ws.len() ==> (#[trigger] gaps[k]).len() > 0,
        forall|k: int| 0 <= k < ws.len() ==> is_word(#[trigger] ws[k]),
    ensures
        words(spaced(gaps, ws)) == ws,
    decreases ws.len(),
{
    let text = spaced(gaps, ws);
    if ws.len() == 0 {
        // The text is the one gap, and blank.
        lemma_space_run_is(text, 0, text.len() as int);
    } else {
        let gap = gaps[0];
        let word = ws[0];
        let rest = spaced(gaps.drop_first(), ws.drop_first());
        let a = gap.len() as int;
        let b = a + word.len();
        // The text is the first gap, the first word, and the rest, which is
        // empty or begins with whitespace: so the first word found is `word`.
        assert(text =~= (gap + word) + rest);
        assert(rest.len() > 0 ==> is_space(rest[0])) by {
            assert(is_blank(gaps.drop_first()[0]));
        }
        lemma_space_run_is(text, 0, a);
        lemma_word_run_is(text, a, b);
        assert(text.subrange(a, b) =~= word);
        // The words behind it are the words of the rest.
        lemma_words_from_shift(gap + word, rest, 0);
        lemma_whitespace_runs_collapse(gaps.drop_first(), ws.drop_first());
    }
}

} // verus!
