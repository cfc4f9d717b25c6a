use minishell::parse::{parse_line, split_pieces, Pipeline, Stage};

fn tokens_of(pipeline: &Pipeline) -> Vec<Vec<String>> {
    let mut all = Vec::new();
    let mut i = 0;
    while let Some(stage) = pipeline.get(i) {
        all.push(stage.tokens().clone());
        i += 1;
    }
    assert_eq!(i, pipeline.len());
    all
}

fn strings(words: &[&str]) -> Vec<String> {
    words.iter().map(|w| w.to_string()).collect()
}

fn parsed(line: &str) -> Vec<Vec<String>> {
    tokens_of(&parse_line(line))
}

#[test]
fn three_stages_in_order() {
    assert_eq!(
        parsed("a | b | c"),
        vec![strings(&["a"]), strings(&["b"]), strings(&["c"])]
    );
}

#[test]
fn one_stage_without_separator() {
    assert_eq!(parsed("a"), vec![strings(&["a"])]);
    assert_eq!(parse_line("a").len(), 1);
}

#[test]
fn empty_line_has_no_stage() {
    let pipeline = parse_line("");
    assert!(pipeline.is_empty());
    assert_eq!(pipeline.len(), 0);
    assert!(pipeline.get(0).is_none());
}

#[test]
fn whitespace_line_has_no_stage() {
    assert!(parse_line("   ").is_empty());
    assert!(parse_line(" \t \r\n").is_empty());
    assert!(parse_line("\u{00A0}\u{3000}\u{2003}").is_empty());
}

#[test]
fn whitespace_runs_collapse() {
    let pipeline = parse_line("echo  hello   world");
    assert_eq!(pipeline.len(), 1);
    let stage = pipeline.get(0).unwrap();
    assert_eq!(stage.program(), Some("echo"));
    assert_eq!(stage.args(), strings(&["hello", "world"]));
    assert_eq!(stage.tokens(), &strings(&["echo", "hello", "world"]));
}

#[test]
fn line_is_trimmed_before_it_is_split() {
    assert_eq!(parsed("  ls -l  \n"), vec![strings(&["ls", "-l"])]);
    // After trimming, the pipe at the end has no space behind it.
    assert_eq!(parsed("a | "), vec![strings(&["a", "|"])]);
    // After trimming, the pipe at the start has no space before it.
    assert_eq!(parsed(" | a"), vec![strings(&["|", "a"])]);
}

#[test]
fn pipe_without_both_spaces_is_text() {
    assert_eq!(parsed("a|b"), vec![strings(&["a|b"])]);
    assert_eq!(parsed("a |b"), vec![strings(&["a", "|b"])]);
    assert_eq!(parsed("a| b"), vec![strings(&["a|", "b"])]);
    assert_eq!(parsed("a\t|\tb"), vec![strings(&["a", "|", "b"])]);
}

#[test]
fn separator_inside_wider_gaps_still_separates() {
    assert_eq!(parsed("a  |  b"), vec![strings(&["a"]), strings(&["b"])]);
}

#[test]
fn doubled_separator_gives_an_empty_stage() {
    let pipeline = parse_line("a |  | b");
    assert_eq!(pipeline.len(), 3);
    assert!(!pipeline.get(0).unwrap().is_empty());
    assert!(pipeline.get(1).unwrap().is_empty());
    assert_eq!(pipeline.get(1).unwrap().program(), None);
    assert_eq!(pipeline.get(1).unwrap().args(), Vec::<String>::new());
    assert_eq!(pipeline.get(2).unwrap().program(), Some("b"));
}

#[test]
fn separators_do_not_overlap() {
    // The space after the first pipe belongs to the first separator.
    assert_eq!(parsed("a | | b"), vec![strings(&["a"]), strings(&["|", "b"])]);
}

#[test]
fn tokens_are_not_unquoted() {
    assert_eq!(
        parsed("echo \"a b\" 'c' $HOME *.rs"),
        vec![strings(&["echo", "\"a", "b\"", "'c'", "$HOME", "*.rs"])]
    );
}

#[test]
fn unicode_whitespace_separates_tokens() {
    assert_eq!(
        parsed("echo\u{00A0}h\u{00E9}\u{3000}\u{4E16}\u{754C}"),
        vec![strings(&["echo", "h\u{00E9}", "\u{4E16}\u{754C}"])]
    );
}

#[test]
fn stage_reads_program_and_arguments() {
    let stage = Stage::parse("  grep   -n  main ");
    assert_eq!(stage.program(), Some("grep"));
    assert_eq!(stage.args(), strings(&["-n", "main"]));
    assert!(!stage.is_empty());
    let empty = Stage::parse(" \t ");
    assert!(empty.is_empty());
    assert_eq!(empty.program(), None);
    assert!(empty.tokens().is_empty());
}

#[test]
fn pieces_keep_empty_ends() {
    assert_eq!(split_pieces("a | b"), vec!["a", "b"]);
    assert_eq!(split_pieces("a | "), vec!["a", ""]);
    assert_eq!(split_pieces(" | a"), vec!["", "a"]);
    assert_eq!(split_pieces(" | "), vec!["", ""]);
    assert_eq!(split_pieces(""), vec![""]);
    assert_eq!(split_pieces(" | | "), vec!["", "| "]);
    assert_eq!(split_pieces("x |  | y"), vec!["x", "", "y"]);
    assert_eq!(split_pieces("no separator here |"), vec!["no separator here |"]);
}

#[test]
fn pieces_agree_with_std_split() {
    let lines = [
        "a | b | c",
        " |  |  | ",
        "| | |",
        "  |  |  ",
        "x | y |z | w",
        "\u{00E9} | \u{4E16} | ",
        " | ",
        "  ",
    ];
    for line in lines {
        let want: Vec<&str> = line.split(" | ").collect();
        assert_eq!(split_pieces(line), want);
    }
}

#[test]
fn first_stage_of_a_pipeline_has_a_program() {
    let lines = ["a |  | ", "x", " y | ", "| | |", " |  | z"];
    for line in lines {
        let pipeline = parse_line(line);
        assert!(pipeline.len() > 0);
        assert!(pipeline.get(0).unwrap().program().is_some());
    }
}

#[test]
fn pieces_join_back_to_the_line() {
    let lines = ["", "a", "a | b", " |  | ", "a | | b", "x |y| z | ", "\u{4E16} | \u{754C}"];
    for line in lines {
        assert_eq!(split_pieces(line).join(" | "), line);
    }
}

#[test]
fn no_piece_holds_a_separator() {
    let lines = ["a | b | c", " |  |  | ", "a | | b | | c", " | | | | "];
    for line in lines {
        for piece in split_pieces(line) {
            assert!(!piece.contains(" | "));
        }
    }
}

#[test]
fn written_out_stages_parse_back() {
    let pipelines: Vec<Vec<Vec<&str>>> = vec![
        vec![vec!["a"], vec!["b"], vec!["c"]],
        vec![vec!["ls", "-l", "/tmp"], vec![], vec!["wc"]],
        vec![vec!["|", "x"], vec!["|"], vec!["a|b", "||"]],
        vec![vec!["cd"]],
    ];
    for stages in pipelines {
        let texts: Vec<String> = stages.iter().map(|tokens| tokens.join(" ")).collect();
        let line = texts.join(" | ");
        let want: Vec<Vec<String>> = stages.iter().map(|tokens| strings(tokens)).collect();
        assert_eq!(parsed(&line), want, "{:?}", line);
    }
}
