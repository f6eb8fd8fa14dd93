//! The lexer: turns one typed line into a token sequence ending in
//! `EOF`, or reports a lexical error.
//!
//! The mathematical model is `lex_go`, a four-state machine over the
//! line's characters; `lexer` is proved to return exactly what the
//! model says on every input.

use vstd::prelude::*;

use crate::utils::{LexerError, LexerState, Token, TokenV};
use crate::utils::{chars_of, string_of_chars};

verus! {

/// The whitespace characters the lexer strips from the ends of a line.
pub open spec fn is_space(c: char) -> bool {
    c == ' ' || c == '\t' || c == '\n' || c == '\r'
}

/// What a backslash escape stands for: `n` the newline, `t` the tab,
/// anything else itself.
pub open spec fn translate_escape(c: char) -> char {
    if c == 'n' {
        '\n'
    } else if c == 't' {
        '\t'
    } else {
        c
    }
}

/// The token for a doubled operator character.
pub open spec fn op2_token(c: char) -> TokenV {
    if c == '>' {
        TokenV::RedirectAppend
    } else if c == '&' {
        TokenV::AndIf
    } else {
        TokenV::OrIf
    }
}

/// The token for a single operator character.
pub open spec fn op1_token(c: char) -> TokenV {
    if c == '>' {
        TokenV::RedirectOut
    } else if c == '&' {
        TokenV::Background
    } else if c == '|' {
        TokenV::PIPE
    } else if c == '<' {
        TokenV::RedirectIn
    } else {
        TokenV::Semicolon
    }
}

/// Prepends a token to a lexing result that is still in flight.
pub open spec fn emit(t: TokenV, r: Result<Seq<TokenV>, LexerError>) -> Result<
    Seq<TokenV>,
    LexerError,
> {
    match r {
        Ok(ts) => Ok(seq![t] + ts),
        Err(e) => Err(e),
    }
}

/// The lexer's state machine, one rule per input character and state:
/// spaces separate words, double quotes delimit literals, a backslash
/// escapes the next character, `>` `&` `|` double into `>>` `&&` `||`,
/// and `<` `;` stand alone. At the end of the line a pending word is
/// flushed, an open literal is an error, and a final `EOF` token closes
/// the sequence.
pub open spec fn lex_go(st: LexerState, cur: Seq<char>, cs: Seq<char>) -> Result<
    Seq<TokenV>,
    LexerError,
>
    decreases cs.len(),
{
    if cs.len() == 0 {
        match st {
            LexerState::Idle => Ok(seq![TokenV::EOF]),
            LexerState::ReadingWord => Ok(seq![TokenV::Word(cur), TokenV::EOF]),
            LexerState::ReadingLiteral => Err(LexerError::UnterminatedStringLiteral),
            LexerState::ReadingOtherTokens => Ok(seq![TokenV::EOF]),
        }
    } else {
        let c = cs[0];
        let rest = cs.drop_first();
        if c == ' ' {
            match st {
                LexerState::Idle => lex_go(LexerState::Idle, cur, rest),
                LexerState::ReadingLiteral => lex_go(LexerState::ReadingLiteral, cur.push(' '), rest),
                LexerState::ReadingWord => emit(
                    TokenV::Word(cur),
                    lex_go(LexerState::Idle, Seq::empty(), rest),
                ),
                LexerState::ReadingOtherTokens => lex_go(LexerState::Idle, cur, rest),
            }
        } else if c == '"' {
            match st {
                LexerState::Idle => lex_go(LexerState::ReadingLiteral, cur, rest),
                LexerState::ReadingLiteral => emit(
                    TokenV::StringLiteral(cur),
                    lex_go(LexerState::Idle, Seq::empty(), rest),
                ),
                LexerState::ReadingWord => Err(LexerError::UnexpectedCharacter('"')),
                LexerState::ReadingOtherTokens => lex_go(LexerState::ReadingLiteral, cur, rest),
            }
        } else if c == '\\' {
            match st {
                LexerState::Idle => {
                    if rest.len() == 0 {
                        Err(LexerError::IncompleteEscapeSequence)
                    } else if is_space(rest[0]) {
                        lex_go(LexerState::Idle, cur, rest.drop_first())
                    } else {
                        lex_go(
                            LexerState::ReadingWord,
                            cur.push(translate_escape(rest[0])),
                            rest.drop_first(),
                        )
                    }
                },
                LexerState::ReadingLiteral => {
                    if rest.len() == 0 {
                        Err(LexerError::IncompleteEscapeSequence)
                    } else {
                        lex_go(
                            LexerState::ReadingLiteral,
                            cur.push(translate_escape(rest[0])),
                            rest.drop_first(),
                        )
                    }
                },
                LexerState::ReadingWord => {
                    if rest.len() == 0 {
                        Err(LexerError::IncompleteEscapeSequence)
                    } else {
                        lex_go(
                            LexerState::ReadingWord,
                            cur.push(translate_escape(rest[0])),
                            rest.drop_first(),
                        )
                    }
                },
                LexerState::ReadingOtherTokens => Err(LexerError::UnexpectedCharacter('\\')),
            }
        } else if c == '>' || c == '&' || c == '|' {
            match st {
                LexerState::Idle => {
                    if rest.len() > 0 && rest[0] == c {
                        emit(
                            op2_token(c),
                            lex_go(LexerState::ReadingOtherTokens, cur, rest.drop_first()),
                        )
                    } else {
                        emit(op1_token(c), lex_go(LexerState::ReadingOtherTokens, cur, rest))
                    }
                },
                LexerState::ReadingWord => {
                    if rest.len() > 0 && rest[0] == c {
                        emit(
                            TokenV::Word(cur),
                            emit(
                                op2_token(c),
                                lex_go(
                                    LexerState::ReadingOtherTokens,
                                    Seq::empty(),
                                    rest.drop_first(),
                                ),
                            ),
                        )
                    } else {
                        emit(
                            TokenV::Word(cur),
                            emit(
                                op1_token(c),
                                lex_go(LexerState::ReadingOtherTokens, Seq::empty(), rest),
                            ),
                        )
                    }
                },
                LexerState::ReadingLiteral => lex_go(LexerState::ReadingLiteral, cur.push(c), rest),
                LexerState::ReadingOtherTokens => Err(LexerError::UnexpectedCharacter(c)),
            }
        } else if c == '<' || c == ';' {
            match st {
                LexerState::Idle => emit(
                    op1_token(c),
                    lex_go(LexerState::ReadingOtherTokens, cur, rest),
                ),
                LexerState::ReadingWord => emit(
                    TokenV::Word(cur),
                    emit(op1_token(c), lex_go(LexerState::ReadingOtherTokens, Seq::empty(), rest)),
                ),
                LexerState::ReadingLiteral => lex_go(LexerState::ReadingLiteral, cur.push(c), rest),
                LexerState::ReadingOtherTokens => Err(LexerError::UnexpectedCharacter(c)),
            }
        } else {
            match st {
                LexerState::Idle => lex_go(LexerState::ReadingWord, cur.push(c), rest),
                LexerState::ReadingWord => lex_go(LexerState::ReadingWord, cur.push(c), rest),
                LexerState::ReadingLiteral => lex_go(LexerState::ReadingLiteral, cur.push(c), rest),
                LexerState::ReadingOtherTokens => Err(LexerError::UnexpectedCharacter(c)),
            }
        }
    }
}

/// The line's characters with leading whitespace removed.
pub open spec fn trim_front(cs: Seq<char>) -> Seq<char>
    decreases cs.len(),
{
    if cs.len() > 0 && is_space(cs[0]) {
        trim_front(cs.drop_first())
    } else {
        cs
    }
}

/// The line's characters with trailing whitespace removed.
pub open spec fn trim_back(cs: Seq<char>) -> Seq<char>
    decreases cs.len(),
{
    if cs.len() > 0 && is_space(cs[cs.len() - 1]) {
        trim_back(cs.drop_last())
    } else {
        cs
    }
}

/// The line's characters with whitespace removed from both ends.
pub open spec fn trim_spec(cs: Seq<char>) -> Seq<char> {
    trim_back(trim_front(cs))
}

/// What lexing a whole line yields: the machine run on the trimmed
/// line, from the idle state with an empty accumulator.
pub open spec fn lex_line(cs: Seq<char>) -> Result<Seq<TokenV>, LexerError> {
    lex_go(LexerState::Idle, Seq::empty(), trim_spec(cs))
}

/// The models of a sequence of tokens.
pub open spec fn toks_view(ts: Seq<Token>) -> Seq<TokenV> {
    ts.map_values(|t: Token| t@)
}

/// The state and accumulator the machine stands in after consuming a
/// prefix of a line; `None` if the prefix errors, or ends where the
/// machine would look ahead (a pending escape, or an operator that
/// could still double) — no clean boundary, so nothing to say there.
pub open spec fn lex_after(st: LexerState, cur: Seq<char>, cs: Seq<char>) -> Option<
    (LexerState, Seq<char>),
>
    decreases cs.len(),
{
    if cs.len() == 0 {
        Some((st, cur))
    } else {
        let c = cs[0];
        let rest = cs.drop_first();
        if c == ' ' {
            match st {
                LexerState::Idle => lex_after(LexerState::Idle, cur, rest),
                LexerState::ReadingLiteral => lex_after(
                    LexerState::ReadingLiteral,
                    cur.push(' '),
                    rest,
                ),
                LexerState::ReadingWord => lex_after(LexerState::Idle, Seq::empty(), rest),
                LexerState::ReadingOtherTokens => lex_after(LexerState::Idle, cur, rest),
            }
        } else if c == '"' {
            match st {
                LexerState::Idle => lex_after(LexerState::ReadingLiteral, cur, rest),
                LexerState::ReadingLiteral => lex_after(LexerState::Idle, Seq::empty(), rest),
                LexerState::ReadingWord => None,
                LexerState::ReadingOtherTokens => lex_after(LexerState::ReadingLiteral, cur, rest),
            }
        } else if c == '\\' {
            if rest.len() == 0 {
                None
            } else {
                match st {
                    LexerState::Idle => {
                        if is_space(rest[0]) {
                            lex_after(LexerState::Idle, cur, rest.drop_first())
                        } else {
                            lex_after(
                                LexerState::ReadingWord,
                                cur.push(translate_escape(rest[0])),
                                rest.drop_first(),
                            )
                        }
                    },
                    LexerState::ReadingLiteral => lex_after(
                        LexerState::ReadingLiteral,
                        cur.push(translate_escape(rest[0])),
                        rest.drop_first(),
                    ),
                    LexerState::ReadingWord => lex_after(
                        LexerState::ReadingWord,
                        cur.push(translate_escape(rest[0])),
                        rest.drop_first(),
                    ),
                    LexerState::ReadingOtherTokens => None,
                }
            }
        } else if c == '>' || c == '&' || c == '|' {
            match st {
                LexerState::Idle => {
                    if rest.len() == 0 {
                        None
                    } else if rest[0] == c {
                        lex_after(LexerState::ReadingOtherTokens, cur, rest.drop_first())
                    } else {
                        lex_after(LexerState::ReadingOtherTokens, cur, rest)
                    }
                },
                LexerState::ReadingWord => {
                    if rest.len() == 0 {
                        None
                    } else if rest[0] == c {
                        lex_after(LexerState::ReadingOtherTokens, Seq::empty(), rest.drop_first())
                    } else {
                        lex_after(LexerState::ReadingOtherTokens, Seq::empty(), rest)
                    }
                },
                LexerState::ReadingLiteral => lex_after(
                    LexerState::ReadingLiteral,
                    cur.push(c),
                    rest,
                ),
                LexerState::ReadingOtherTokens => None,
            }
        } else if c == '<' || c == ';' {
            match st {
                LexerState::Idle => lex_after(LexerState::ReadingOtherTokens, cur, rest),
                LexerState::ReadingWord => lex_after(
                    LexerState::ReadingOtherTokens,
                    Seq::empty(),
                    rest,
                ),
                LexerState::ReadingLiteral => lex_after(
                    LexerState::ReadingLiteral,
                    cur.push(c),
                    rest,
                ),
                LexerState::ReadingOtherTokens => None,
            }
        } else {
            match st {
                LexerState::Idle => lex_after(LexerState::ReadingWord, cur.push(c), rest),
                LexerState::ReadingWord => lex_after(LexerState::ReadingWord, cur.push(c), rest),
                LexerState::ReadingLiteral => lex_after(
                    LexerState::ReadingLiteral,
                    cur.push(c),
                    rest,
                ),
                LexerState::ReadingOtherTokens => None,
            }
        }
    }
}

/// Lexing is a congruence across a cleanly consumed prefix: two
/// continuations that lex alike from the state the prefix reaches
/// give the whole lines the same result. The continuations begin with
/// a space so that the boundary cannot complete a doubled operator.
pub proof fn lemma_lex_congruence(
    st: LexerState,
    cur: Seq<char>,
    u: Seq<char>,
    w1: Seq<char>,
    w2: Seq<char>,
)
    requires
        lex_after(st, cur, u) is Some,
        ({
            let (st2, cur2) = lex_after(st, cur, u).unwrap();
            lex_go(st2, cur2, w1) == lex_go(st2, cur2, w2)
        }),
        w1.len() > 0 && w1[0] == ' ',
        w2.len() > 0 && w2[0] == ' ',
    ensures
        lex_go(st, cur, u + w1) == lex_go(st, cur, u + w2),
    decreases u.len(),
{
    if u.len() == 0 {
        assert(u + w1 =~= w1);
        assert(u + w2 =~= w2);
    } else {
        let c = u[0];
        let ru = u.drop_first();
        assert((u + w1)[0] == c);
        assert((u + w2)[0] == c);
        assert((u + w1).drop_first() =~= ru + w1);
        assert((u + w2).drop_first() =~= ru + w2);
        if ru.len() > 0 {
            assert((ru + w1)[0] == ru[0]);
            assert((ru + w2)[0] == ru[0]);
            assert((ru + w1).drop_first() =~= ru.drop_first() + w1);
            assert((ru + w2).drop_first() =~= ru.drop_first() + w2);
        } else {
            assert(ru + w1 =~= w1);
            assert(ru + w2 =~= w2);
        }
        if c == ' ' {
            match st {
                LexerState::Idle => lemma_lex_congruence(LexerState::Idle, cur, ru, w1, w2),
                LexerState::ReadingLiteral => lemma_lex_congruence(
                    LexerState::ReadingLiteral,
                    cur.push(' '),
                    ru,
                    w1,
                    w2,
                ),
                LexerState::ReadingWord => lemma_lex_congruence(
                    LexerState::Idle,
                    Seq::empty(),
                    ru,
                    w1,
                    w2,
                ),
                LexerState::ReadingOtherTokens => lemma_lex_congruence(
                    LexerState::Idle,
                    cur,
                    ru,
                    w1,
                    w2,
                ),
            }
        } else if c == '"' {
            match st {
                LexerState::Idle => lemma_lex_congruence(
                    LexerState::ReadingLiteral,
                    cur,
                    ru,
                    w1,
                    w2,
                ),
                LexerState::ReadingLiteral => lemma_lex_congruence(
                    LexerState::Idle,
                    Seq::empty(),
                    ru,
                    w1,
                    w2,
                ),
                LexerState::ReadingWord => {},
                LexerState::ReadingOtherTokens => lemma_lex_congruence(
                    LexerState::ReadingLiteral,
                    cur,
                    ru,
                    w1,
                    w2,
                ),
            }
        } else if c == '\\' {
            // A pending escape at the boundary has no clean state, so
            // the prefix always holds the escaped character too.
            if ru.len() > 0 {
                match st {
                    LexerState::Idle => {
                        if is_space(ru[0]) {
                            lemma_lex_congruence(LexerState::Idle, cur, ru.drop_first(), w1, w2);
                        } else {
                            lemma_lex_congruence(
                                LexerState::ReadingWord,
                                cur.push(translate_escape(ru[0])),
                                ru.drop_first(),
                                w1,
                                w2,
                            );
                        }
                    },
                    LexerState::ReadingLiteral => lemma_lex_congruence(
                        LexerState::ReadingLiteral,
                        cur.push(translate_escape(ru[0])),
                        ru.drop_first(),
                        w1,
                        w2,
                    ),
                    LexerState::ReadingWord => lemma_lex_congruence(
                        LexerState::ReadingWord,
                        cur.push(translate_escape(ru[0])),
                        ru.drop_first(),
                        w1,
                        w2,
                    ),
                    LexerState::ReadingOtherTokens => {},
                }
            }
        } else if c == '>' || c == '&' || c == '|' {
            // An operator as the last prefix character could still
            // double, so the prefix always decides the lookahead.
            match st {
                LexerState::Idle => {
                    if ru.len() > 0 {
                        if ru[0] == c {
                            lemma_lex_congruence(
                                LexerState::ReadingOtherTokens,
                                cur,
                                ru.drop_first(),
                                w1,
                                w2,
                            );
                        } else {
                            lemma_lex_congruence(LexerState::ReadingOtherTokens, cur, ru, w1, w2);
                        }
                    }
                },
                LexerState::ReadingWord => {
                    if ru.len() > 0 {
                        if ru[0] == c {
                            lemma_lex_congruence(
                                LexerState::ReadingOtherTokens,
                                Seq::empty(),
                                ru.drop_first(),
                                w1,
                                w2,
                            );
                        } else {
                            lemma_lex_congruence(
                                LexerState::ReadingOtherTokens,
                                Seq::empty(),
                                ru,
                                w1,
                                w2,
                            );
                        }
                    }
                },
                LexerState::ReadingLiteral => lemma_lex_congruence(
                    LexerState::ReadingLiteral,
                    cur.push(c),
                    ru,
                    w1,
                    w2,
                ),
                LexerState::ReadingOtherTokens => {},
            }
        } else if c == '<' || c == ';' {
            match st {
                LexerState::Idle => lemma_lex_congruence(
                    LexerState::ReadingOtherTokens,
                    cur,
                    ru,
                    w1,
                    w2,
                ),
                LexerState::ReadingWord => lemma_lex_congruence(
                    LexerState::ReadingOtherTokens,
                    Seq::empty(),
                    ru,
                    w1,
                    w2,
                ),
                LexerState::ReadingLiteral => lemma_lex_congruence(
                    LexerState::ReadingLiteral,
                    cur.push(c),
                    ru,
                    w1,
                    w2,
                ),
                LexerState::ReadingOtherTokens => {},
            }
        } else {
            match st {
                LexerState::Idle => lemma_lex_congruence(
                    LexerState::ReadingWord,
                    cur.push(c),
                    ru,
                    w1,
                    w2,
                ),
                LexerState::ReadingWord => lemma_lex_congruence(
                    LexerState::ReadingWord,
                    cur.push(c),
                    ru,
                    w1,
                    w2,
                ),
                LexerState::ReadingLiteral => lemma_lex_congruence(
                    LexerState::ReadingLiteral,
                    cur.push(c),
                    ru,
                    w1,
                    w2,
                ),
                LexerState::ReadingOtherTokens => {},
            }
        }
    }
}

/// Law: whitespace between tokens is idempotent. Wherever the lexer
/// stands between tokens — any state but the inside of a string
/// literal — a run of spaces separates exactly as a single space does,
/// so inserting further spaces at a separation point never changes the
/// token sequence (nor the error) of the line.
pub proof fn lemma_space_idempotent(st: LexerState, cur: Seq<char>, cs: Seq<char>)
    requires
        st != LexerState::ReadingLiteral,
    ensures
        lex_go(st, cur, seq![' '] + (seq![' '] + cs)) == lex_go(st, cur, seq![' '] + cs),
{
    let one = seq![' '] + cs;
    let two = seq![' '] + one;
    assert(two[0] == ' ');
    assert(one[0] == ' ');
    assert(two.drop_first() =~= one);
    assert(one.drop_first() =~= cs);
    match st {
        LexerState::Idle => {
            assert(lex_go(st, cur, two) == lex_go(LexerState::Idle, cur, one));
        },
        LexerState::ReadingWord => {
            assert(lex_go(st, cur, two) == emit(
                TokenV::Word(cur),
                lex_go(LexerState::Idle, Seq::empty(), one),
            ));
            assert(lex_go(LexerState::Idle, Seq::empty(), one) == lex_go(
                LexerState::Idle,
                Seq::empty(),
                cs,
            ));
            assert(lex_go(st, cur, one) == emit(
                TokenV::Word(cur),
                lex_go(LexerState::Idle, Seq::empty(), cs),
            ));
        },
        LexerState::ReadingOtherTokens => {
            assert(lex_go(st, cur, two) == lex_go(LexerState::Idle, cur, one));
            assert(lex_go(LexerState::Idle, cur, one) == lex_go(LexerState::Idle, cur, cs));
            assert(lex_go(st, cur, one) == lex_go(LexerState::Idle, cur, cs));
        },
        LexerState::ReadingLiteral => {},
    }
}

/// Every token sequence the lexer accepts is non-empty and ends in
/// the `EOF` end marker — the shape the parser's contract asks for.
pub proof fn lemma_lex_go_ends_eof(st: LexerState, cur: Seq<char>, cs: Seq<char>)
    ensures
        match lex_go(st, cur, cs) {
            Ok(ts) => ts.len() >= 1 && ts.last() == TokenV::EOF,
            Err(_) => true,
        },
    decreases cs.len(),
{
    if cs.len() == 0 {
    } else {
        let c = cs[0];
        let rest = cs.drop_first();
        if c == ' ' {
            match st {
                LexerState::Idle => lemma_lex_go_ends_eof(LexerState::Idle, cur, rest),
                LexerState::ReadingLiteral => lemma_lex_go_ends_eof(
                    LexerState::ReadingLiteral,
                    cur.push(' '),
                    rest,
                ),
                LexerState::ReadingWord => lemma_lex_go_ends_eof(
                    LexerState::Idle,
                    Seq::empty(),
                    rest,
                ),
                LexerState::ReadingOtherTokens => lemma_lex_go_ends_eof(
                    LexerState::Idle,
                    cur,
                    rest,
                ),
            }
        } else if c == '"' {
            match st {
                LexerState::Idle => lemma_lex_go_ends_eof(LexerState::ReadingLiteral, cur, rest),
                LexerState::ReadingLiteral => lemma_lex_go_ends_eof(
                    LexerState::Idle,
                    Seq::empty(),
                    rest,
                ),
                LexerState::ReadingWord => {},
                LexerState::ReadingOtherTokens => lemma_lex_go_ends_eof(
                    LexerState::ReadingLiteral,
                    cur,
                    rest,
                ),
            }
        } else if c == '\\' {
            if rest.len() > 0 {
                match st {
                    LexerState::Idle => {
                        if is_space(rest[0]) {
                            lemma_lex_go_ends_eof(LexerState::Idle, cur, rest.drop_first());
                        } else {
                            lemma_lex_go_ends_eof(
                                LexerState::ReadingWord,
                                cur.push(translate_escape(rest[0])),
                                rest.drop_first(),
                            );
                        }
                    },
                    LexerState::ReadingLiteral => lemma_lex_go_ends_eof(
                        LexerState::ReadingLiteral,
                        cur.push(translate_escape(rest[0])),
                        rest.drop_first(),
                    ),
                    LexerState::ReadingWord => lemma_lex_go_ends_eof(
                        LexerState::ReadingWord,
                        cur.push(translate_escape(rest[0])),
                        rest.drop_first(),
                    ),
                    LexerState::ReadingOtherTokens => {},
                }
            }
        } else if c == '>' || c == '&' || c == '|' {
            match st {
                LexerState::Idle | LexerState::ReadingWord => {
                    if rest.len() > 0 && rest[0] == c {
                        lemma_lex_go_ends_eof(
                            LexerState::ReadingOtherTokens,
                            if st == LexerState::Idle {
                                cur
                            } else {
                                Seq::empty()
                            },
                            rest.drop_first(),
                        );
                    } else {
                        lemma_lex_go_ends_eof(
                            LexerState::ReadingOtherTokens,
                            if st == LexerState::Idle {
                                cur
                            } else {
                                Seq::empty()
                            },
                            rest,
                        );
                    }
                },
                LexerState::ReadingLiteral => lemma_lex_go_ends_eof(
                    LexerState::ReadingLiteral,
                    cur.push(c),
                    rest,
                ),
                LexerState::ReadingOtherTokens => {},
            }
        } else if c == '<' || c == ';' {
            match st {
                LexerState::Idle | LexerState::ReadingWord => {
                    lemma_lex_go_ends_eof(
                        LexerState::ReadingOtherTokens,
                        if st == LexerState::Idle {
                            cur
                        } else {
                            Seq::empty()
                        },
                        rest,
                    );
                },
                LexerState::ReadingLiteral => lemma_lex_go_ends_eof(
                    LexerState::ReadingLiteral,
                    cur.push(c),
                    rest,
                ),
                LexerState::ReadingOtherTokens => {},
            }
        } else {
            match st {
                LexerState::Idle => lemma_lex_go_ends_eof(
                    LexerState::ReadingWord,
                    cur.push(c),
                    rest,
                ),
                LexerState::ReadingWord => lemma_lex_go_ends_eof(
                    LexerState::ReadingWord,
                    cur.push(c),
                    rest,
                ),
                LexerState::ReadingLiteral => lemma_lex_go_ends_eof(
                    LexerState::ReadingLiteral,
                    cur.push(c),
                    rest,
                ),
                LexerState::ReadingOtherTokens => {},
            }
        }
    }
}

/// Law: whitespace between tokens is idempotent, at line level. Take
/// any line that separates its tokens with a space at some point —
/// any clean prefix boundary outside a string literal — and insert
/// one more space there: the lexer's output does not change.
pub proof fn lemma_line_space_idempotent(u: Seq<char>, v: Seq<char>)
    requires
        lex_after(LexerState::Idle, Seq::empty(), u) is Some,
        lex_after(LexerState::Idle, Seq::empty(), u).unwrap().0 != LexerState::ReadingLiteral,
    ensures
        lex_go(LexerState::Idle, Seq::empty(), u + (seq![' '] + (seq![' '] + v))) == lex_go(
            LexerState::Idle,
            Seq::empty(),
            u + (seq![' '] + v),
        ),
{
    let (st2, cur2) = lex_after(LexerState::Idle, Seq::empty(), u).unwrap();
    lemma_space_idempotent(st2, cur2, v);
    assert((seq![' '] + (seq![' '] + v))[0] == ' ');
    assert((seq![' '] + v)[0] == ' ');
    lemma_lex_congruence(
        LexerState::Idle,
        Seq::empty(),
        u,
        seq![' '] + (seq![' '] + v),
        seq![' '] + v,
    );
}

proof fn lemma_toks_view_push(ts: Seq<Token>, t: Token)
    ensures
        toks_view(ts.push(t)) == toks_view(ts).push(t@),
{
    assert(toks_view(ts.push(t)) =~= toks_view(ts).push(t@));
}

proof fn lemma_emit_assoc(pre: Seq<TokenV>, t: TokenV, ts: Seq<TokenV>)
    ensures
        pre + (seq![t] + ts) == pre.push(t) + ts,
{
    assert(pre + (seq![t] + ts) =~= pre.push(t) + ts);
}

/// Moves one emitted token from the machine's remaining output to the
/// tokens already collected, keeping the whole-line result the same.
proof fn lemma_step_emit(
    goal: Result<Seq<TokenV>, LexerError>,
    pre: Seq<TokenV>,
    t: TokenV,
    r: Result<Seq<TokenV>, LexerError>,
)
    requires
        match emit(t, r) {
            Ok(ts) => goal == Ok::<Seq<TokenV>, LexerError>(pre + ts),
            Err(e) => goal == Err::<Seq<TokenV>, LexerError>(e),
        },
    ensures
        match r {
            Ok(ts) => goal == Ok::<Seq<TokenV>, LexerError>(pre.push(t) + ts),
            Err(e) => goal == Err::<Seq<TokenV>, LexerError>(e),
        },
{
    match r {
        Ok(ts) => {
            lemma_emit_assoc(pre, t, ts);
        },
        Err(e) => {},
    }
}

proof fn lemma_trim_front_skip(cs: Seq<char>, k: int)
    requires
        0 <= k <= cs.len(),
        forall|j: int| 0 <= j < k ==> is_space(cs[j]),
    ensures
        trim_front(cs) == trim_front(cs.subrange(k, cs.len() as int)),
    decreases k,
{
    if k > 0 {
        assert(is_space(cs[0]));
        assert(cs.drop_first() =~= cs.subrange(1, cs.len() as int));
        lemma_trim_front_skip(cs.drop_first(), k - 1);
        assert(cs.drop_first().subrange(k - 1, cs.drop_first().len() as int) =~= cs.subrange(
            k,
            cs.len() as int,
        ));
    } else {
        assert(cs.subrange(0, cs.len() as int) =~= cs);
    }
}

proof fn lemma_trim_back_skip(cs: Seq<char>, e: int)
    requires
        0 <= e <= cs.len(),
        forall|j: int| e <= j < cs.len() ==> is_space(cs[j]),
    ensures
        trim_back(cs) == trim_back(cs.subrange(0, e)),
    decreases cs.len() - e,
{
    if e < cs.len() {
        assert(is_space(cs[cs.len() - 1]));
        assert(cs.drop_last() =~= cs.subrange(0, cs.len() - 1));
        lemma_trim_back_skip(cs.drop_last(), e);
        assert(cs.drop_last().subrange(0, e) =~= cs.subrange(0, e));
    } else {
        assert(cs.subrange(0, cs.len() as int) =~= cs);
    }
}

fn is_space_char(c: char) -> (r: bool)
    ensures
        r == is_space(c),
{
    c == ' ' || c == '\t' || c == '\n' || c == '\r'
}

fn translate_escape_char(c: char) -> (r: char)
    ensures
        r == translate_escape(c),
{
    if c == 'n' {
        '\n'
    } else if c == 't' {
        '\t'
    } else {
        c
    }
}

/// Turns one input line into its token sequence, terminated by `EOF`,
/// or reports the first lexical error, exactly as the state machine
/// `lex_go` prescribes on the whitespace-trimmed line.
pub fn lexer(input: String) -> (r: Result<Vec<Token>, LexerError>)
    ensures
        match r {
            Ok(ts) => lex_line(input@) == Ok::<Seq<TokenV>, LexerError>(toks_view(ts@))
                && ts@.len() >= 1 && toks_view(ts@).last() == TokenV::EOF,
            Err(e) => lex_line(input@) == Err::<Seq<TokenV>, LexerError>(e),
        },
{
    let v = chars_of(input.as_str());
    let n = v.len();

    // Trim whitespace off both ends.
    let mut start: usize = 0;
    while start < n && is_space_char(v[start])
        invariant
            n == v@.len(),
            start <= n,
            forall|j: int| 0 <= j < start ==> is_space(v@[j]),
        decreases n - start,
    {
        start = start + 1;
    }
    let mut end: usize = n;
    while end > start && is_space_char(v[end - 1])
        invariant
            n == v@.len(),
            start <= end <= n,
            forall|j: int| end <= j < n ==> is_space(v@[j]),
        decreases end,
    {
        end = end - 1;
    }
    proof {
        lemma_trim_front_skip(v@, start as int);
        assert(trim_front(v@.subrange(start as int, n as int)) == v@.subrange(
            start as int,
            n as int,
        ));
        let f = v@.subrange(start as int, n as int);
        lemma_trim_back_skip(f, end - start);
        assert(f.subrange(0, end - start) =~= v@.subrange(start as int, end as int));
        assert(trim_back(f.subrange(0, end - start)) == f.subrange(0, end - start));
        assert(trim_spec(input@) == v@.subrange(start as int, end as int));
    }

    let ghost goal = lex_line(input@);
    let mut st = LexerState::Idle;
    let mut cur: Vec<char> = Vec::new();
    let mut tokens: Vec<Token> = Vec::new();
    let mut i: usize = start;

    proof {
        assert(toks_view(tokens@) =~= Seq::<TokenV>::empty());
        if let Ok(ts) = lex_go(st, cur@, v@.subrange(i as int, end as int)) {
            assert(Seq::<TokenV>::empty() + ts =~= ts);
        }
    }

    while i < end
        invariant
            n == v@.len(),
            start <= i <= end <= n,
            goal == lex_line(input@),
            match lex_go(st, cur@, v@.subrange(i as int, end as int)) {
                Ok(ts) => goal == Ok::<Seq<TokenV>, LexerError>(toks_view(tokens@) + ts),
                Err(e) => goal == Err::<Seq<TokenV>, LexerError>(e),
            },
        decreases end - i,
    {
        let ghost rem = v@.subrange(i as int, end as int);
        let ghost rest = rem.drop_first();
        proof {
            assert(rem[0] == v@[i as int]);
            assert(rest =~= v@.subrange(i as int + 1, end as int));
        }
        let c = v[i];
        if c == ' ' {
            match st {
                LexerState::Idle => {
                    i = i + 1;
                },
                LexerState::ReadingLiteral => {
                    cur.push(' ');
                    i = i + 1;
                },
                LexerState::ReadingWord => {
                    let word = string_of_chars(&cur);
                    let ghost tv = TokenV::Word(cur@);
                    proof {
                        lemma_step_emit(
                            goal,
                            toks_view(tokens@),
                            tv,
                            lex_go(LexerState::Idle, Seq::empty(), rest),
                        );
                        lemma_toks_view_push(tokens@, Token::Word(word));
                    }
                    tokens.push(Token::Word(word));
                    cur = Vec::new();
                    st = LexerState::Idle;
                    i = i + 1;
                },
                LexerState::ReadingOtherTokens => {
                    st = LexerState::Idle;
                    i = i + 1;
                },
            }
        } else if c == '"' {
            match st {
                LexerState::Idle => {
                    st = LexerState::ReadingLiteral;
                    i = i + 1;
                },
                LexerState::ReadingLiteral => {
                    let lit = string_of_chars(&cur);
                    let ghost tv = TokenV::StringLiteral(cur@);
                    proof {
                        lemma_step_emit(
                            goal,
                            toks_view(tokens@),
                            tv,
                            lex_go(LexerState::Idle, Seq::empty(), rest),
                        );
                        lemma_toks_view_push(tokens@, Token::StringLiteral(lit));
                    }
                    tokens.push(Token::StringLiteral(lit));
                    cur = Vec::new();
                    st = LexerState::Idle;
                    i = i + 1;
                },
                LexerState::ReadingWord => {
                    return Err(LexerError::UnexpectedCharacter('"'));
                },
                LexerState::ReadingOtherTokens => {
                    st = LexerState::ReadingLiteral;
                    i = i + 1;
                },
            }
        } else if c == '\\' {
            match st {
                LexerState::ReadingLiteral | LexerState::ReadingWord => {
                    if i + 1 >= end {
                        proof {
                            assert(rest.len() == 0);
                        }
                        return Err(LexerError::IncompleteEscapeSequence);
                    }
                    proof {
                        assert(rest[0] == v@[i as int + 1]);
                        assert(rest.drop_first() =~= v@.subrange(i as int + 2, end as int));
                    }
                    let t = translate_escape_char(v[i + 1]);
                    cur.push(t);
                    i = i + 2;
                },
                LexerState::Idle => {
                    if i + 1 >= end {
                        proof {
                            assert(rest.len() == 0);
                        }
                        return Err(LexerError::IncompleteEscapeSequence);
                    }
                    proof {
                        assert(rest[0] == v@[i as int + 1]);
                        assert(rest.drop_first() =~= v@.subrange(i as int + 2, end as int));
                    }
                    if is_space_char(v[i + 1]) {
                        i = i + 2;
                    } else {
                        let t = translate_escape_char(v[i + 1]);
                        cur.push(t);
                        st = LexerState::ReadingWord;
                        i = i + 2;
                    }
                },
                LexerState::ReadingOtherTokens => {
                    return Err(LexerError::UnexpectedCharacter('\\'));
                },
            }
        } else if c == '>' || c == '&' || c == '|' {
            match st {
                LexerState::Idle | LexerState::ReadingWord => {
                    if let LexerState::ReadingWord = st {
                        let word = string_of_chars(&cur);
                        let ghost tv = TokenV::Word(cur@);
                        proof {
                            let inner = if rest.len() > 0 && rest[0] == c {
                                emit(
                                    op2_token(c),
                                    lex_go(
                                        LexerState::ReadingOtherTokens,
                                        Seq::empty(),
                                        rest.drop_first(),
                                    ),
                                )
                            } else {
                                emit(
                                    op1_token(c),
                                    lex_go(LexerState::ReadingOtherTokens, Seq::empty(), rest),
                                )
                            };
                            lemma_step_emit(goal, toks_view(tokens@), tv, inner);
                            lemma_toks_view_push(tokens@, Token::Word(word));
                        }
                        tokens.push(Token::Word(word));
                        cur = Vec::new();
                    }
                    let doubled = i + 1 < end && v[i + 1] == c;
                    proof {
                        if i + 1 < end {
                            assert(rest[0] == v@[i as int + 1]);
                        }
                        assert(doubled == (rest.len() > 0 && rest[0] == c));
                    }
                    if doubled {
                        proof {
                            assert(rest.drop_first() =~= v@.subrange(i as int + 2, end as int));
                        }
                        let tok = if c == '>' {
                            Token::RedirectAppend
                        } else if c == '&' {
                            Token::AndIf
                        } else {
                            Token::OrIf
                        };
                        proof {
                            lemma_step_emit(
                                goal,
                                toks_view(tokens@),
                                op2_token(c),
                                lex_go(LexerState::ReadingOtherTokens, cur@, rest.drop_first()),
                            );
                            lemma_toks_view_push(tokens@, tok);
                        }
                        tokens.push(tok);
                        st = LexerState::ReadingOtherTokens;
                        i = i + 2;
                    } else {
                        let tok = if c == '>' {
                            Token::RedirectOut
                        } else if c == '&' {
                            Token::Background
                        } else {
                            Token::PIPE
                        };
                        proof {
                            lemma_step_emit(
                                goal,
                                toks_view(tokens@),
                                op1_token(c),
                                lex_go(LexerState::ReadingOtherTokens, cur@, rest),
                            );
                            lemma_toks_view_push(tokens@, tok);
                        }
                        tokens.push(tok);
                        st = LexerState::ReadingOtherTokens;
                        i = i + 1;
                    }
                },
                LexerState::ReadingLiteral => {
                    cur.push(c);
                    i = i + 1;
                },
                LexerState::ReadingOtherTokens => {
                    return Err(LexerError::UnexpectedCharacter(c));
                },
            }
        } else if c == '<' || c == ';' {
            match st {
                LexerState::Idle | LexerState::ReadingWord => {
                    if let LexerState::ReadingWord = st {
                        let word = string_of_chars(&cur);
                        let ghost tv = TokenV::Word(cur@);
                        proof {
                            let inner = emit(
                                op1_token(c),
                                lex_go(LexerState::ReadingOtherTokens, Seq::empty(), rest),
                            );
                            lemma_step_emit(goal, toks_view(tokens@), tv, inner);
                            lemma_toks_view_push(tokens@, Token::Word(word));
                        }
                        tokens.push(Token::Word(word));
                        cur = Vec::new();
                    }
                    let tok = if c == '<' {
                        Token::RedirectIn
                    } else {
                        Token::Semicolon
                    };
                    proof {
                        lemma_step_emit(
                            goal,
                            toks_view(tokens@),
                            op1_token(c),
                            lex_go(LexerState::ReadingOtherTokens, cur@, rest),
                        );
                        lemma_toks_view_push(tokens@, tok);
                    }
                    tokens.push(tok);
                    st = LexerState::ReadingOtherTokens;
                    i = i + 1;
                },
                LexerState::ReadingLiteral => {
                    cur.push(c);
                    i = i + 1;
                },
                LexerState::ReadingOtherTokens => {
                    return Err(LexerError::UnexpectedCharacter(c));
                },
            }
        } else {
            match st {
                LexerState::Idle => {
                    cur.push(c);
                    st = LexerState::ReadingWord;
                    i = i + 1;
                },
                LexerState::ReadingWord | LexerState::ReadingLiteral => {
                    cur.push(c);
                    i = i + 1;
                },
                LexerState::ReadingOtherTokens => {
                    return Err(LexerError::UnexpectedCharacter(c));
                },
            }
        }
    }

    proof {
        assert(v@.subrange(i as int, end as int) =~= Seq::<char>::empty());
    }
    match st {
        LexerState::ReadingWord => {
            let word = string_of_chars(&cur);
            proof {
                lemma_toks_view_push(tokens@, Token::Word(word));
                lemma_toks_view_push(tokens@.push(Token::Word(word)), Token::EOF);
                assert(toks_view(tokens@) + seq![TokenV::Word(cur@), TokenV::EOF] =~= toks_view(
                    tokens@,
                ).push(TokenV::Word(cur@)).push(TokenV::EOF));
            }
            tokens.push(Token::Word(word));
            tokens.push(Token::EOF);
            Ok(tokens)
        },
        LexerState::ReadingLiteral => Err(LexerError::UnterminatedStringLiteral),
        LexerState::Idle | LexerState::ReadingOtherTokens => {
            proof {
                lemma_toks_view_push(tokens@, Token::EOF);
                assert(toks_view(tokens@) + seq![TokenV::EOF] =~= toks_view(tokens@).push(
                    TokenV::EOF,
                ));
            }
            tokens.push(Token::EOF);
            Ok(tokens)
        },
    }
}

} // verus!

