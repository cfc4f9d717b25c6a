//! The line parser: from one line of input to a pipeline of stages.

use crate::parse::laws::{lemma_blank_line, lemma_first_stage, lemma_parsed_tokens};
use crate::text::{is_blank, is_word, split_words, to_chars, trim, trimmed, words};
use vstd::prelude::*;

pub mod laws;

verus! {

/// The token that separates two stages of a pipeline: a space, a pipe, a space.
pub open spec fn separator() -> Seq<char> {
    seq![' ', '|', ' ']
}

/// Whether the separator stands in `s` at index `i`.
pub open spec fn separator_at(s: Seq<char>, i: int) -> bool {
    &&& 0 <= i
    &&& i + 3 <= s.len()
    &&& s[i] == ' '
    &&& s[i + 1] == '|'
    &&& s[i + 2] == ' '
}

/// How many characters of `s` stand between index `i` and the first separator
/// that begins at `i` or later (the end of `s`, where there is none).
pub open spec fn piece_run(s: Seq<char>, i: int) -> nat
    decreases s.len() - i,
{
    if 0 <= i < s.len() && !separator_at(s, i) {
        1 + piece_run(s, i + 1)
    } else {
        0
    }
}

/// The pieces into which the separators cut `s` from index `i` on. Separators
/// are found from left to right and do not overlap; a piece may be empty.
pub open spec fn pieces_from(s: Seq<char>, i: int) -> Seq<Seq<char>>
    decreases s.len() - i,
{
    let j = i + piece_run(s, i);
    if 0 <= i && separator_at(s, j) {
        seq![s.subrange(i, j)] + pieces_from(s, j + 3)
    } else {
        seq![s.subrange(i, s.len() as int)]
    }
}

/// The pieces into which the separators cut `s`: always at least one.
pub open spec fn pieces(s: Seq<char>) -> Seq<Seq<char>> {
    pieces_from(s, 0)
}

/// `parts` put together again, with the separator between each two.
pub open spec fn joined(parts: Seq<Seq<char>>) -> Seq<char>
    decreases parts.len(),
{
    if parts.len() == 0 {
        Seq::empty()
    } else if parts.len() == 1 {
        parts[0]
    } else {
        parts[0] + separator() + joined(parts.drop_first())
    }
}

/// Whether no separator begins in `text` before index `n`.
pub open spec fn uncut(text: Seq<char>, n: int) -> bool {
    forall|k: int| 0 <= k < n ==> !#[trigger] separator_at(text, k)
}

/// Whether `piece` can stand between two cuts: no separator begins in it,
/// not even one that the separator behind it would complete. `last` tells
/// that no separator follows.
pub open spec fn is_piece(piece: Seq<char>, last: bool) -> bool {
    if last {
        uncut(piece, piece.len() as int)
    } else {
        uncut(piece + separator(), piece.len() as int)
    }
}

/// The tokens of one stage, read from the text between two separators: that
/// text is trimmed and then split into its words.
pub open spec fn stage_tokens(piece: Seq<char>) -> Seq<Seq<char>> {
    words(trimmed(piece))
}

/// The arguments among the tokens of a stage: all but the first.
pub open spec fn arguments(tokens: Seq<Seq<char>>) -> Seq<Seq<char>> {
    if tokens.len() > 0 {
        tokens.skip(1)
    } else {
        Seq::empty()
    }
}

/// The pipeline that a line stands for, each stage as its tokens. A line of
/// whitespace alone holds no stage.
pub open spec fn parsed(line: Seq<char>) -> Seq<Seq<Seq<char>>> {
    let t = trimmed(line);
    if t.len() == 0 {
        Seq::empty()
    } else {
        pieces(t).map_values(|piece: Seq<char>| stage_tokens(piece))
    }
}

/// The text of a stage: its tokens with one space between each two.
pub open spec fn stage_text(tokens: Seq<Seq<char>>) -> Seq<char>
    decreases tokens.len(),
{
    if tokens.len() == 0 {
        Seq::empty()
    } else if tokens.len() == 1 {
        tokens[0]
    } else {
        tokens[0] + seq![' '] + stage_text(tokens.drop_first())
    }
}

/// The line on which `stages` stand: the text of each stage, with the
/// separator between each two.
pub open spec fn line_text(stages: Seq<Seq<Seq<char>>>) -> Seq<char> {
    joined(stages.map_values(|tokens: Seq<Seq<char>>| stage_text(tokens)))
}

/// One program invocation of a pipeline: the program's name and its
/// arguments, as the tokens of the stage. A stage without tokens names no
/// program.
#[derive(Debug)]
pub struct Stage {
    tokens: Vec<String>,
}

impl View for Stage {
    type V = Seq<Seq<char>>;

    closed spec fn view(&self) -> Seq<Seq<char>> {
        self.tokens.deep_view()
    }
}

impl Stage {
    /// No token of a stage is empty or holds whitespace.
    #[verifier::type_invariant]
    spec fn well_formed(self) -> bool {
        forall|k: int| 0 <= k < self.tokens.len() ==> is_word(#[trigger] self.tokens[k]@)
    }

    /// Reads a stage from the text between two separators.
    pub fn parse(piece: &str) -> (stage: Stage)
        ensures
            stage@ == stage_tokens(piece@),
    {
        let tokens = split_words(trim(piece));
        Stage { tokens }
    }

    /// The tokens of the stage: the program's name first, then its arguments.
    pub fn tokens(&self) -> (tokens: &Vec<String>)
        ensures
            tokens.deep_view() == self@,
            forall|k: int| 0 <= k < self@.len() ==> is_word(#[trigger] self@[k]),
    {
        proof {
            use_type_invariant(self);
        }
        &self.tokens
    }

    /// The name of the program, where the stage has one: its first token. A
    /// name is never empty.
    pub fn program(&self) -> (name: Option<&str>)
        ensures
            self@.len() == 0 ==> name is None,
            self@.len() > 0 ==> name is Some && name.unwrap()@ == self@[0],
            name matches Some(text) ==> text@.len() > 0,
    {
        let tokens = self.tokens();
        if tokens.len() == 0 {
            None
        } else {
            Some(tokens[0].as_str())
        }
    }

    /// The arguments of the program, in order: the tokens after the first.
    pub fn args(&self) -> (args: Vec<String>)
        ensures
            args.deep_view() == arguments(self@),
    {
        let tokens = self.tokens();
        let mut args: Vec<String> = Vec::new();
        if tokens.len() == 0 {
            return args;
        }
        let mut k: usize = 1;
        while k < tokens.len()
            invariant
                1 <= k <= tokens.len(),
                args.len() == k - 1,
                forall|j: int| 0 <= j < args.len() ==> (#[trigger] args[j])@ == tokens[j + 1]@,
            decreases tokens.len() - k,
        {
            args.push(tokens[k].clone());
            k += 1;
        }
        args
    }

    /// Whether the stage has no token, and so no program.
    pub fn is_empty(&self) -> (r: bool)
        ensures
            r == (self@.len() == 0),
    {
        self.tokens.len() == 0
    }
}

/// An ordered chain of stages: the output of each one feeds the next.
#[derive(Debug)]
pub struct Pipeline {
    stages: Vec<Stage>,
}

impl View for Pipeline {
    type V = Seq<Seq<Seq<char>>>;

    closed spec fn view(&self) -> Seq<Seq<Seq<char>>> {
        Seq::new(self.stages.len() as nat, |i: int| self.stages[i]@)
    }
}

impl Pipeline {
    /// The number of stages.
    pub fn len(&self) -> (n: usize)
        ensures
            n == self@.len(),
    {
        self.stages.len()
    }

    /// Whether the pipeline has no stage: running it does nothing.
    pub fn is_empty(&self) -> (r: bool)
        ensures
            r == (self@.len() == 0),
    {
        self.stages.len() == 0
    }

    /// The stage at position `i`, counted from 0, where there is one.
    pub fn get(&self, i: usize) -> (r: Option<&Stage>)
        ensures
            i < self@.len() ==> r is Some && r.unwrap()@ == self@[i as int],
            i >= self@.len() ==> r is None,
    {
        if i < self.stages.len() {
            Some(&self.stages[i])
        } else {
            None
        }
    }
}

/// Cuts `s` at its separators.
pub fn split_pieces<'a>(s: &'a str) -> (out: Vec<&'a str>)
    ensures
        out.deep_view() == pieces(s@),
{
    let v = to_chars(s);
    let n: usize = v.len();
    let mut out: Vec<&'a str> = Vec::new();
    let mut start: usize = 0;
    let mut j: usize = 0;
    while j < n
        invariant
            v@ == s@,
            n == v.len(),
            start <= j <= n,
            j + piece_run(s@, j as int) == start + piece_run(s@, start as int),
            out.deep_view() + pieces_from(s@, start as int) == pieces(s@),
        decreases n - j,
    {
        if n - j >= 3 && v[j] == ' ' && v[j + 1] == '|' && v[j + 2] == ' ' {
            let piece = s.substring_char(start, j);
            out.push(piece);
            start = j + 3;
            j = start;
        } else {
            j += 1;
        }
    }
    let piece = s.substring_char(start, n);
    out.push(piece);
    out
}

/// Parses one line of input into its pipeline.
pub fn parse_line(line: &str) -> (pipeline: Pipeline)
    ensures
        pipeline@ == parsed(line@),
        pipeline@.len() == 0 <==> is_blank(line@),
        pipeline@.len() > 0 ==> pipeline@[0].len() > 0,
        forall|i: int, k: int|
            0 <= i < pipeline@.len() && 0 <= k < pipeline@[i].len() ==> is_word(
                #[trigger] pipeline@[i][k],
            ),
{
    proof {
        lemma_blank_line(line@);
        lemma_first_stage(line@);
        lemma_parsed_tokens(line@);
    }
    let mut stages: Vec<Stage> = Vec::new();
    let t = trim(line);
    if t.is_empty() {
        let pipeline = Pipeline { stages };
        return pipeline;
    }
    let found = split_pieces(t);
    let mut i: usize = 0;
    while i < found.len()
        invariant
            i <= found.len(),
            found.deep_view() == pieces(t@),
            stages.len() == i,
            forall|k: int| 0 <= k < i ==> (#[trigger] stages[k])@ == stage_tokens(pieces(t@)[k]),
        decreases found.len() - i,
    {
        let stage = Stage::parse(found[i]);
        stages.push(stage);
        i += 1;
    }
    let pipeline = Pipeline { stages };
    pipeline
}

} // verus!
