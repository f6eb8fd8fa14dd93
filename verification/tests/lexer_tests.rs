use flash::lexer::lexer;
use flash::utils::{LexerError, Token};

fn w(s: &str) -> Token {
    Token::Word(s.to_string())
}

#[test]
fn lexes_simple_command() {
    let toks = lexer("echo hello\n".to_string()).unwrap();
    assert_eq!(toks, vec![w("echo"), w("hello"), Token::EOF]);
}

#[test]
fn extra_spaces_change_nothing() {
    let once = lexer("echo hello ; ls\n".to_string()).unwrap();
    let padded = lexer("echo    hello   ;     ls\n".to_string()).unwrap();
    assert_eq!(once, padded);
}

#[test]
fn leading_and_trailing_whitespace_is_trimmed() {
    let toks = lexer("   echo hi \t \n".to_string()).unwrap();
    assert_eq!(toks, vec![w("echo"), w("hi"), Token::EOF]);
}

#[test]
fn empty_line_is_just_the_end_marker() {
    assert_eq!(lexer(String::new()).unwrap(), vec![Token::EOF]);
    assert_eq!(lexer("   \n".to_string()).unwrap(), vec![Token::EOF]);
}

#[test]
fn double_quotes_make_one_literal() {
    let toks = lexer("echo \"a b\"\n".to_string()).unwrap();
    assert_eq!(
        toks,
        vec![w("echo"), Token::StringLiteral("a b".to_string()), Token::EOF]
    );
}

#[test]
fn operators_inside_quotes_are_text() {
    let toks = lexer("echo \"a | b > c\"\n".to_string()).unwrap();
    assert_eq!(
        toks,
        vec![w("echo"), Token::StringLiteral("a | b > c".to_string()), Token::EOF]
    );
}

#[test]
fn escapes_translate_n_and_t() {
    let toks = lexer("echo a\\nb\\tc\\\\d\n".to_string()).unwrap();
    assert_eq!(toks, vec![w("echo"), w("a\nb\tc\\d"), Token::EOF]);
}

#[test]
fn escaped_space_at_idle_is_dropped() {
    let toks = lexer("\\ echo\n".to_string()).unwrap();
    assert_eq!(toks, vec![w("echo"), Token::EOF]);
}

#[test]
fn single_and_double_operators() {
    let toks = lexer("a > b >> c < d | e & f && g || h ; i\n".to_string()).unwrap();
    assert_eq!(
        toks,
        vec![
            w("a"),
            Token::RedirectOut,
            w("b"),
            Token::RedirectAppend,
            w("c"),
            Token::RedirectIn,
            w("d"),
            Token::PIPE,
            w("e"),
            Token::Background,
            w("f"),
            Token::AndIf,
            w("g"),
            Token::OrIf,
            w("h"),
            Token::Semicolon,
            w("i"),
            Token::EOF,
        ]
    );
}

#[test]
fn operator_flushes_pending_word() {
    let toks = lexer("ab> cd\n".to_string()).unwrap();
    assert_eq!(toks, vec![w("ab"), Token::RedirectOut, w("cd"), Token::EOF]);
}

#[test]
fn trailing_operator_is_accepted() {
    let toks = lexer("sleep 1 &\n".to_string()).unwrap();
    assert_eq!(toks, vec![w("sleep"), w("1"), Token::Background, Token::EOF]);
}

#[test]
fn escaped_space_joins_a_word() {
    let toks = lexer("echo a\\ b\n".to_string()).unwrap();
    assert_eq!(toks, vec![w("echo"), w("a b"), Token::EOF]);
}

#[test]
fn only_the_space_character_separates_words() {
    // A tab between the line's ends is an ordinary character.
    let toks = lexer("a\tb\n".to_string()).unwrap();
    assert_eq!(toks, vec![w("a\tb"), Token::EOF]);
}

#[test]
fn unterminated_literal_is_an_error() {
    assert_eq!(
        lexer("echo \"oops\n".to_string()),
        Err(LexerError::UnterminatedStringLiteral)
    );
}

#[test]
fn quote_inside_word_is_an_error() {
    assert_eq!(
        lexer("ab\"cd\"\n".to_string()),
        Err(LexerError::UnexpectedCharacter('"'))
    );
}

#[test]
fn escape_at_end_of_line_is_an_error() {
    assert_eq!(
        lexer("echo ab\\".to_string()),
        Err(LexerError::IncompleteEscapeSequence)
    );
}

#[test]
fn text_right_after_operator_is_an_error() {
    assert_eq!(
        lexer("a >b\n".to_string()),
        Err(LexerError::UnexpectedCharacter('b'))
    );
    assert_eq!(
        lexer("a ><\n".to_string()),
        Err(LexerError::UnexpectedCharacter('<'))
    );
}

#[test]
fn quote_right_after_operator_opens_a_literal() {
    let toks = lexer("a >\"file name\"\n".to_string()).unwrap();
    assert_eq!(
        toks,
        vec![w("a"), Token::RedirectOut, Token::StringLiteral("file name".to_string()), Token::EOF]
    );
}
