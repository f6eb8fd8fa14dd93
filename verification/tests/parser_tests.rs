use flash::lexer::lexer;
use flash::parser::{parse, Parser};
use flash::utils::{Command, ConditionalType, RedirectionType, SimpleCommand, Token, WordSource};

fn parse_line(line: &str) -> Result<Command, ()> {
    parse(lexer(line.to_string()).unwrap())
}

fn simple(args: &[&str]) -> Command {
    Command::Simple(SimpleCommand {
        command: args[0].to_string(),
        arguments: args.iter().map(|a| a.to_string()).collect(),
    })
}

#[test]
fn parses_simple_command_with_arguments() {
    let cmd = parse_line("echo hello world\n").unwrap();
    assert_eq!(cmd, simple(&["echo", "hello", "world"]));
}

#[test]
fn command_word_stands_first_in_arguments() {
    match parse_line("ls\n").unwrap() {
        Command::Simple(sc) => {
            assert_eq!(sc.command, "ls");
            assert_eq!(sc.arguments, vec!["ls".to_string()]);
        }
        other => panic!("expected a simple command, got {:?}", other),
    }
}

#[test]
fn quoted_words_become_arguments() {
    let cmd = parse_line("echo \"a b\"\n").unwrap();
    assert_eq!(cmd, simple(&["echo", "a b"]));
}

#[test]
fn pipes_lean_left() {
    let cmd = parse_line("a | b | c\n").unwrap();
    assert_eq!(
        cmd,
        Command::Pipe {
            left: Box::new(Command::Pipe {
                left: Box::new(simple(&["a"])),
                right: Box::new(simple(&["b"])),
            }),
            right: Box::new(simple(&["c"])),
        }
    );
}

#[test]
fn redirections_stack_outermost_last() {
    let cmd = parse_line("a < x > y\n").unwrap();
    assert_eq!(
        cmd,
        Command::Redirect {
            child_command: Box::new(Command::Redirect {
                child_command: Box::new(simple(&["a"])),
                redirect_type: RedirectionType::In,
                target_file: "x".to_string(),
            }),
            redirect_type: RedirectionType::Out,
            target_file: "y".to_string(),
        }
    );
}

#[test]
fn append_redirection_is_recognised() {
    let cmd = parse_line("a >> log\n").unwrap();
    assert_eq!(
        cmd,
        Command::Redirect {
            child_command: Box::new(simple(&["a"])),
            redirect_type: RedirectionType::Append,
            target_file: "log".to_string(),
        }
    );
}

#[test]
fn sequences_and_conditionals_lean_left() {
    let cmd = parse_line("a ; b && c\n").unwrap();
    assert_eq!(
        cmd,
        Command::Conditional {
            left: Box::new(Command::Sequence {
                first: Box::new(simple(&["a"])),
                second: Box::new(simple(&["b"])),
            }),
            right: Box::new(simple(&["c"])),
            operator: ConditionalType::And,
        }
    );
}

#[test]
fn or_else_is_recognised() {
    let cmd = parse_line("a || b\n").unwrap();
    assert_eq!(
        cmd,
        Command::Conditional {
            left: Box::new(simple(&["a"])),
            right: Box::new(simple(&["b"])),
            operator: ConditionalType::Or,
        }
    );
}

#[test]
fn trailing_ampersand_wraps_in_background() {
    let cmd = parse_line("sleep 1 &\n").unwrap();
    assert_eq!(
        cmd,
        Command::Background { child_command: Box::new(simple(&["sleep", "1"])) }
    );
}

#[test]
fn pipeline_of_redirects_parses() {
    let cmd = parse_line("a < x | b > y\n").unwrap();
    assert_eq!(
        cmd,
        Command::Pipe {
            left: Box::new(Command::Redirect {
                child_command: Box::new(simple(&["a"])),
                redirect_type: RedirectionType::In,
                target_file: "x".to_string(),
            }),
            right: Box::new(Command::Redirect {
                child_command: Box::new(simple(&["b"])),
                redirect_type: RedirectionType::Out,
                target_file: "y".to_string(),
            }),
        }
    );
}

#[test]
fn missing_command_is_an_error() {
    assert!(parse_line("| a\n").is_err());
    assert!(parse_line("> x\n").is_err());
    assert!(parse_line("\n").is_err());
}

#[test]
fn missing_operand_is_an_error() {
    assert!(parse_line("a |\n").is_err());
    assert!(parse_line("a ;\n").is_err());
    assert!(parse_line("a &&\n").is_err());
    assert!(parse_line("a ||\n").is_err());
}

#[test]
fn missing_redirection_target_is_an_error() {
    assert!(parse_line("a >\n").is_err());
    assert!(parse_line("a < | b\n").is_err());
}

#[test]
fn word_after_redirection_target_is_an_error() {
    assert!(parse_line("a < f g\n").is_err());
}

#[test]
fn cursor_peek_advance_and_predicates() {
    let mut p = Parser {
        tokens: vec![
            Token::Word("x".to_string()),
            Token::PIPE,
            Token::RedirectAppend,
            Token::EOF,
        ],
        position: 0,
    };
    assert_eq!(p.peek(), &Token::Word("x".to_string()));
    assert!(!p.is_pipe());
    let got = p.consume_word_or_literal();
    assert_eq!(got, Some(("x".to_string(), WordSource::Unquoted)));
    assert!(p.is_pipe());
    assert_eq!(p.advance(), Token::PIPE);
    assert!(p.is_redirection());
    assert_eq!(p.advance(), Token::RedirectAppend);
    assert_eq!(p.peek(), &Token::EOF);
    assert_eq!(p.advance(), Token::EOF);
    assert_eq!(p.peek(), &Token::EOF);
    assert_eq!(p.consume_word_or_literal(), None);
}
