use phosphorus::rtr::ast::{tokenise, CommentType};
use phosphorus::shared::position::Position;
use phosphorus::shared::range::Range;
use phosphorus::shared::token::{is_delimiter, Token, TokenType};

fn kinds(src: &str) -> Vec<String> {
    tokenise(src).iter().map(|t| t.to_text()).collect()
}

#[test]
fn tokenise_splits_text_and_delimiters() {
    let tokens = tokenise("ab(c)");
    assert_eq!(tokens.len(), 4);
    assert!(tokens[0].token_type == TokenType::Text(String::from("ab")));
    assert!(tokens[1].token_type == TokenType::OpenParen);
    assert!(tokens[2].token_type == TokenType::Text(String::from("c")));
    assert!(tokens[3].token_type == TokenType::CloseParen);
}

#[test]
fn tokenise_empty_text_gives_no_token() {
    assert_eq!(tokenise("").len(), 0);
}

#[test]
fn tokenise_tracks_positions() {
    let tokens = tokenise("ab c\nde");
    assert_eq!(tokens.len(), 5);
    assert_eq!(
        tokens[0].range,
        Range { start: Position { ln: 1, col: 1, i: 0 }, end: Position { ln: 1, col: 3, i: 2 } }
    );
    assert_eq!(
        tokens[1].range,
        Range { start: Position { ln: 1, col: 3, i: 2 }, end: Position { ln: 1, col: 4, i: 3 } }
    );
    assert_eq!(
        tokens[2].range,
        Range { start: Position { ln: 1, col: 4, i: 3 }, end: Position { ln: 1, col: 5, i: 4 } }
    );
    assert!(tokens[3].token_type == TokenType::Newline);
    assert_eq!(
        tokens[3].range,
        Range { start: Position { ln: 1, col: 5, i: 4 }, end: Position { ln: 2, col: 1, i: 5 } }
    );
    assert_eq!(
        tokens[4].range,
        Range { start: Position { ln: 2, col: 1, i: 5 }, end: Position { ln: 2, col: 3, i: 7 } }
    );
}

#[test]
fn tokenise_skips_multi_line_comments() {
    assert_eq!(kinds("a/* b\n c */d"), vec!["a", "d"]);
    let tokens = tokenise("a/* b\n c */d");
    assert_eq!(tokens[1].range.start, Position { ln: 2, col: 6, i: 11 });
}

#[test]
fn tokenise_skips_single_line_comments_and_keeps_the_newline() {
    assert_eq!(kinds("a // note\nb"), vec!["a", " ", "\n", "b"]);
}

#[test]
fn tokenise_closes_a_text_run_where_a_comment_opens() {
    assert_eq!(kinds("ab/*x*/cd"), vec!["ab", "cd"]);
}

#[test]
fn tokenise_reads_a_lone_slash_as_a_token() {
    assert_eq!(kinds("a/b"), vec!["a", "/", "b"]);
    assert_eq!(kinds("/"), vec!["/"]);
}

#[test]
fn tokenise_closes_a_comment_at_slash_star_slash() {
    assert_eq!(kinds("/*/a"), vec!["a"]);
}

#[test]
fn tokenise_quotes_are_tokens_of_their_own() {
    let tokens = tokenise("'a\"`");
    assert!(tokens[0].token_type == TokenType::Quote);
    assert!(tokens[1].token_type == TokenType::Text(String::from("a")));
    assert!(tokens[2].token_type == TokenType::DoubleQuote);
    assert!(tokens[3].token_type == TokenType::BackQuote);
}

#[test]
fn tokenise_comparison_operators_are_delimiters() {
    assert_eq!(kinds("a<b>c|d"), vec!["a", "<", "b", ">", "c", "|", "d"]);
}

#[test]
fn tokenise_keeps_unknown_characters_in_text_runs() {
    assert_eq!(kinds("a@b$ é"), vec!["a@b$", " ", "é"]);
}

#[test]
fn no_token_is_empty_and_tokens_follow_one_another() {
    let src = "onload {\n  log(\"a b\", 12%) // done\n}\n/* tail */ x";
    let tokens = tokenise(src);
    let mut last = 0;
    for t in tokens.iter() {
        assert!(t.range.start.i < t.range.end.i);
        assert!(last <= t.range.start.i);
        last = t.range.end.i;
    }
    assert!(last <= src.chars().count());
}

#[test]
fn retokenising_the_text_of_a_token_gives_the_token() {
    let src = "onload {\n  x = -1 + f(\"a\\n b\", 12%) ?? `é` // done\n}\n/* tail */ y<=z";
    let tokens = tokenise(src);
    assert!(tokens.len() > 30);
    for t in tokens.iter() {
        let text = t.range.get_text(src);
        assert_eq!(text, t.to_text());
        let again = tokenise(&text);
        assert_eq!(again.len(), 1);
        assert!(again[0].token_type == t.token_type);
    }
}

#[test]
fn get_text_gives_the_spanned_characters() {
    let range = Range {
        start: Position { ln: 1, col: 2, i: 1 },
        end: Position { ln: 1, col: 4, i: 3 },
    };
    assert_eq!(range.get_text("héllo"), "él");
}

#[test]
fn position_moves_by_columns() {
    let p = Position { ln: 3, col: 4, i: 10 };
    assert_eq!(p + 2, Position { ln: 3, col: 6, i: 12 });
    assert_eq!(p - 3, Position { ln: 3, col: 1, i: 7 });
    assert_eq!(p.advance('a'), Position { ln: 3, col: 5, i: 11 });
    assert_eq!(p.advance('\n'), Position { ln: 4, col: 1, i: 11 });
    assert_eq!(Position::start(), Position { ln: 1, col: 1, i: 0 });
    let far = Position { ln: usize::MAX, col: usize::MAX, i: 7 };
    assert_eq!(far.advance('a'), Position { ln: usize::MAX, col: usize::MAX, i: 8 });
    assert_eq!(far.advance('\n'), Position { ln: usize::MAX, col: 1, i: 8 });
}

#[test]
fn the_delimiter_table_holds_29_characters() {
    let all = "()[]{}<>,;:.#+-*/%^!?\\|='\"` \n";
    assert_eq!(all.chars().count(), 29);
    for c in all.chars() {
        assert!(is_delimiter(c));
        let t = TokenType::of_char(c);
        assert_eq!(t.delimiter(), Some(c));
        assert_eq!(t.to_text(), c.to_string());
    }
    assert!(!is_delimiter('a'));
    assert!(!is_delimiter('_'));
    assert!(!is_delimiter('\t'));
}

#[test]
fn token_comparisons() {
    let t = Token {
        token_type: TokenType::Text(String::from("abc")),
        range: Range { start: Position::start(), end: Position::start() + 3 },
    };
    assert!(t.is_text("abc"));
    assert!(!t.is_text("abd"));
    assert!(t.is(&TokenType::Text(String::from("abc"))));
    assert!(!t.is(&TokenType::Comma));
    assert!(TokenType::EOF == TokenType::EOF);
    assert!(TokenType::EOF != TokenType::Comma);
    assert!(TokenType::Plus != TokenType::Minus);
    assert_eq!(TokenType::EOF.to_text(), "");
    assert!(t.clone().token_type == t.token_type);
}

#[test]
fn comment_modes_are_distinct() {
    assert_ne!(CommentType::Outside, CommentType::Multiline);
    assert_ne!(CommentType::Multiline, CommentType::Singleline);
}
