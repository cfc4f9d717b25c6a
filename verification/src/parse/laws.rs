//! What holds of the pieces of a line and of the pipeline parsed from it.

use crate::parse::{
    is_piece, joined, line_text, parsed, piece_run, pieces, pieces_from, separator, separator_at,
    stage_text, stage_tokens,
};
use crate::text::laws::{
    lemma_trimmed, lemma_trimmed_whole, lemma_whitespace_runs_collapse, lemma_word_run,
    lemma_words_from_shape,
};
use crate::text::{is_blank, is_space, is_word, spaced, trimmed, words};
use vstd::prelude::*;

verus! {

/// A piece ends inside `s`, no separator begins in it, and it stops at the
/// end of `s` or where a separator begins.
pub proof fn lemma_piece_run(s: Seq<char>, i: int)
    requires
        0 <= i <= s.len(),
    ensures
        i + piece_run(s, i) <= s.len(),
        forall|k: int| i <= k < i + piece_run(s, i) ==> !separator_at(s, k),
        i + piece_run(s, i) < s.len() ==> separator_at(s, i + piece_run(s, i)),
    decreases s.len() - i,
{
    if i < s.len() && !separator_at(s, i) {
        lemma_piece_run(s, i + 1);
    }
}

/// A stretch of `s` in which no separator begins, up to the end of `s` or to
/// a separator, is one whole piece.
proof fn lemma_piece_run_is(s: Seq<char>, i: int, j: int)
    requires
        0 <= i <= j <= s.len(),
        forall|k: int| i <= k < j ==> !#[trigger] separator_at(s, k),
        j < s.len() ==> separator_at(s, j),
    ensures
        i + piece_run(s, i) == j,
    decreases j - i,
{
    if i < j {
        lemma_piece_run_is(s, i + 1, j);
    }
}

/// Cutting yields at least one piece.
pub proof fn lemma_pieces_from_len(s: Seq<char>, i: int)
    ensures
        pieces_from(s, i).len() >= 1,
    decreases s.len() - i,
{
    let j = i + piece_run(s, i);
    if 0 <= i && separator_at(s, j) {
        lemma_pieces_from_len(s, j + 3);
    }
}

/// A separator stands in `pre + t` behind `pre` exactly where it stands in `t`.
proof fn lemma_separator_at_shift(pre: Seq<char>, t: Seq<char>, k: int)
    requires
        0 <= k,
    ensures
        separator_at(pre + t, pre.len() + k) == separator_at(t, k),
{
}

/// The pieces of `t` from index `i` on are the pieces of `pre + t` from the
/// same place on.
proof fn lemma_pieces_from_shift(pre: Seq<char>, t: Seq<char>, i: int)
    requires
        0 <= i <= t.len(),
    ensures
        pieces_from(pre + t, pre.len() + i) == pieces_from(t, i),
    decreases t.len() - i,
{
    let s = pre + t;
    let n = pre.len() as int;
    let j = i + piece_run(t, i);
    lemma_piece_run(t, i);
    assert forall|k: int| n + i <= k <= n + j implies #[trigger] separator_at(s, k)
        == separator_at(t, k - n) by {
        lemma_separator_at_shift(pre, t, k - n);
    }
    lemma_piece_run_is(s, n + i, n + j);
    if separator_at(t, j) {
        lemma_pieces_from_shift(pre, t, j + 3);
        assert(s.subrange(n + i, n + j) =~= t.subrange(i, j));
    }
}

/// Cutting loses nothing and cuts at the leftmost separator each time: the
/// pieces of `s` from index `i` on, joined again, are `s` from `i` on, and no
/// separator begins in any of them.
pub proof fn lemma_pieces_from(s: Seq<char>, i: int)
    requires
        0 <= i <= s.len(),
    ensures
        joined(pieces_from(s, i)) == s.skip(i),
        forall|k: int|
            0 <= k < pieces_from(s, i).len() ==> is_piece(
                #[trigger] pieces_from(s, i)[k],
                k == pieces_from(s, i).len() - 1,
            ),
    decreases s.len() - i,
{
    let j = i + piece_run(s, i);
    lemma_piece_run(s, i);
    if separator_at(s, j) {
        let piece = s.subrange(i, j);
        lemma_pieces_from_len(s, j + 3);
        lemma_pieces_from(s, j + 3);
        assert(pieces_from(s, i).drop_first() =~= pieces_from(s, j + 3));
        // A separator that began in the piece, be it one that runs into the
        // separator behind the piece, would begin in `s` before `j`.
        assert forall|m: int| 0 <= m < piece.len() implies !#[trigger] separator_at(
            piece + separator(),
            m,
        ) by {
            assert(!separator_at(s, i + m));
        }
    } else {
        let piece = s.subrange(i, s.len() as int);
        assert forall|m: int| 0 <= m < piece.len() implies !#[trigger] separator_at(piece, m) by {
            assert(!separator_at(s, i + m));
        }
    }
}

/// Cutting undoes joining: where `parts` could have come from a cut (no
/// separator begins in any of them), the pieces of the joined text are
/// `parts` again. So `"a | b | c"` has the three pieces `a`, `b` and `c`.
pub proof fn lemma_pieces_of_joined(parts: Seq<Seq<char>>)
    requires
        parts.len() >= 1,
        forall|k: int|
            0 <= k < parts.len() ==> is_piece(#[trigger] parts[k], k == parts.len() - 1),
    ensures
        pieces(joined(parts)) == parts,
    decreases parts.len(),
{
    let text = joined(parts);
    let piece = parts[0];
    let n = piece.len() as int;
    if parts.len() == 1 {
        lemma_piece_run_is(text, 0, n);
        assert(text.subrange(0, n) =~= piece);
    } else {
        let rest = parts.drop_first();
        let head = piece + separator();
        // No separator begins in the first part, and one stands right behind it.
        assert forall|k: int| 0 <= k < n implies !#[trigger] separator_at(text, k) by {
            assert(!separator_at(head, k));
        }
        lemma_piece_run_is(text, 0, n);
        assert(text.subrange(0, n) =~= piece);
        // The pieces behind it are the pieces of what was joined behind it.
        lemma_pieces_of_joined(rest);
        lemma_pieces_from_shift(head, joined(rest), 0);
    }
}

/// The words of a text that begins with a character other than whitespace:
/// there is at least one.
proof fn lemma_words_of_text(s: Seq<char>)
    requires
        s.len() > 0,
        !is_space(s[0]),
    ensures
        words(s).len() > 0,
{
    lemma_word_run(s, 0);
}

/// Every token of every stage of a parsed line is a word: it is not empty and
/// holds no whitespace, however much whitespace the line holds.
pub proof fn lemma_parsed_tokens(line: Seq<char>)
    ensures
        forall|i: int, k: int|
            0 <= i < parsed(line).len() && 0 <= k < parsed(line)[i].len() ==> is_word(
                #[trigger] parsed(line)[i][k],
            ),
{
    assert forall|i: int, k: int|
        0 <= i < parsed(line).len() && 0 <= k < parsed(line)[i].len() implies is_word(
        #[trigger] parsed(line)[i][k],
    ) by {
        let piece = pieces(trimmed(line))[i];
        lemma_words_from_shape(trimmed(piece), 0);
    }
}

/// A line holds no stage if and only if it is blank.
pub proof fn lemma_blank_line(line: Seq<char>)
    ensures
        parsed(line).len() == 0 <==> is_blank(line),
{
    lemma_trimmed(line);
    lemma_pieces_from_len(trimmed(line), 0);
}

/// The first stage of a parsed line names a program: an empty stage can
/// stand only behind a separator.
pub proof fn lemma_first_stage(line: Seq<char>)
    ensures
        parsed(line).len() > 0 ==> parsed(line)[0].len() > 0,
{
    let t = trimmed(line);
    if t.len() > 0 {
        // `t` begins with a character other than whitespace. No separator
        // begins there, so the first piece holds that character, and a word.
        lemma_trimmed(line);
        lemma_piece_run(t, 0);
        let piece = pieces(t)[0];
        lemma_trimmed(piece);
        lemma_words_of_text(trimmed(piece));
    }
}

/// The gaps around the tokens of a stage text: `first` before the first
/// token, one space between each two tokens, nothing behind the last.
spec fn single_gaps(first: Seq<char>, n: nat) -> Seq<Seq<char>> {
    Seq::new(
        n + 1,
        |k: int|
            if k == 0 {
                first
            } else if k < n {
                seq![' ']
            } else {
                Seq::empty()
            },
    )
}

/// The text of a stage is its tokens with those gaps around them.
proof fn lemma_stage_text_spaced(first: Seq<char>, tokens: Seq<Seq<char>>)
    requires
        tokens.len() == 0 ==> first.len() == 0,
    ensures
        spaced(single_gaps(first, tokens.len()), tokens) == first + stage_text(tokens),
    decreases tokens.len(),
{
    let n = tokens.len();
    if n > 0 {
        let next: Seq<char> = if n == 1 {
            Seq::empty()
        } else {
            seq![' ']
        };
        assert(single_gaps(first, n).drop_first() =~= single_gaps(next, (n - 1) as nat));
        lemma_stage_text_spaced(next, tokens.drop_first());
    }
}

/// Where the text of a stage is not empty, it begins with the first
/// character of its first token and ends with the last of its last.
proof fn lemma_stage_text_ends(tokens: Seq<Seq<char>>)
    requires
        tokens.len() > 0,
        forall|k: int| 0 <= k < tokens.len() ==> is_word(#[trigger] tokens[k]),
    ensures
        stage_text(tokens).len() > 0,
        stage_text(tokens).first() == tokens.first().first(),
        stage_text(tokens).last() == tokens.last().last(),
    decreases tokens.len(),
{
    if tokens.len() > 1 {
        lemma_stage_text_ends(tokens.drop_first());
    }
}

/// Reading the text of a stage gives its tokens back.
pub proof fn lemma_stage_text_tokens(tokens: Seq<Seq<char>>)
    requires
        forall|k: int| 0 <= k < tokens.len() ==> is_word(#[trigger] tokens[k]),
    ensures
        stage_tokens(stage_text(tokens)) == tokens,
{
    // The text has no whitespace at its ends, so trimming leaves it whole;
    // and it is the tokens with single spaces as the gaps between them.
    if tokens.len() > 0 {
        lemma_stage_text_ends(tokens);
    }
    lemma_trimmed_whole(stage_text(tokens));
    lemma_stage_text_spaced(Seq::empty(), tokens);
    lemma_whitespace_runs_collapse(single_gaps(Seq::empty(), tokens.len()), tokens);
}

/// No separator begins in the text of a stage, whatever follows it, unless a
/// token behind the first is a pipe by itself.
proof fn lemma_stage_text_uncut(tokens: Seq<Seq<char>>, tail: Seq<char>, m: int)
    requires
        forall|k: int| 0 <= k < tokens.len() ==> is_word(#[trigger] tokens[k]),
        forall|k: int| 0 < k < tokens.len() ==> #[trigger] tokens[k] != seq!['|'],
        0 <= m < stage_text(tokens).len(),
    ensures
        !separator_at(stage_text(tokens) + tail, m),
    decreases tokens.len(),
{
    if tokens.len() > 1 {
        let head = tokens[0];
        let rest = tokens.drop_first();
        let pre = head + seq![' '];
        if m == head.len() {
            // Behind this space stands the second token, a word that is not a
            // pipe by itself: where it begins with a pipe, no space follows.
            let second = tokens[1];
            lemma_stage_text_ends(rest);
            if second.len() == 1 {
                assert(second =~= seq![second[0]]);
            } else {
                assert(stage_text(rest)[1] == second[1]);
            }
        } else if m > head.len() {
            // A separator further on would begin in the text of the other tokens.
            lemma_stage_text_uncut(rest, tail, m - pre.len());
            lemma_separator_at_shift(pre, stage_text(rest) + tail, m - pre.len());
        }
    }
}

/// Where the parts are not empty at the two ends of the line, the joined
/// text begins as the first part does and ends as the last.
proof fn lemma_joined_ends(parts: Seq<Seq<char>>)
    requires
        parts.len() > 0,
    ensures
        parts.first().len() > 0 ==> joined(parts).len() > 0 && joined(parts).first()
            == parts.first().first(),
        parts.last().len() > 0 ==> joined(parts).len() > 0 && joined(parts).last()
            == parts.last().last(),
    decreases parts.len(),
{
    if parts.len() > 1 {
        lemma_joined_ends(parts.drop_first());
    }
}

/// Parsing undoes writing out: the line on which stages stand, with one
/// space between the tokens and the separator between the stages, parses
/// into those stages again. So `"a | b | c"` is the three stages `a`, `b`
/// and `c`. The stages at the two ends must not be empty, every token must
/// be a word, and no token but the first of a stage may be a pipe by itself.
pub proof fn lemma_parsed_line_text(stages: Seq<Seq<Seq<char>>>)
    requires
        stages.len() > 0,
        stages.first().len() > 0,
        stages.last().len() > 0,
        forall|i: int, k: int|
            0 <= i < stages.len() && 0 <= k < stages[i].len() ==> is_word(#[trigger] stages[i][k]),
        forall|i: int, k: int|
            0 <= i < stages.len() && 0 < k < stages[i].len() ==> #[trigger] stages[i][k] != seq![
                '|',
            ],
    ensures
        parsed(line_text(stages)) == stages,
{
    let parts = stages.map_values(|tokens: Seq<Seq<char>>| stage_text(tokens));
    let text = line_text(stages);
    // The stage texts are the pieces of the line.
    assert forall|i: int| 0 <= i < parts.len() implies is_piece(
        #[trigger] parts[i],
        i == parts.len() - 1,
    ) by {
        let tail = if i == parts.len() - 1 {
            Seq::empty()
        } else {
            separator()
        };
        assert(parts[i] + Seq::<char>::empty() =~= parts[i]);
        assert forall|m: int| 0 <= m < parts[i].len() implies !#[trigger] separator_at(
            parts[i] + tail,
            m,
        ) by {
            lemma_stage_text_uncut(stages[i], tail, m);
        }
    }
    lemma_pieces_of_joined(parts);
    // The line has no whitespace at its ends, so trimming leaves it whole.
    lemma_stage_text_ends(stages.first());
    lemma_stage_text_ends(stages.last());
    lemma_joined_ends(parts);
    lemma_trimmed_whole(text);
    // Each piece reads as the stage it was written from.
    assert forall|i: int| 0 <= i < stages.len() implies stage_tokens(parts[i]) == stages[i] by {
        lemma_stage_text_tokens(stages[i]);
    }
}

} // verus!
