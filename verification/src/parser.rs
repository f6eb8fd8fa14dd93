//! The parser: recursive descent over four precedence levels,
//! lowest to highest:
//!
//! ```text
//! sequence  ::= pipe ( (';' | '&&' | '||') pipe | '&' )*
//! pipe      ::= redirect ( '|' redirect )*
//! redirect  ::= simple ( ('<'|'>'|'>>') word )*
//! simple    ::= word word*
//! word      ::= Word | StringLiteral
//! ```
//!
//! The mathematical model is the family of `*_spec` functions below;
//! `parse` is proved to return the model's tree exactly when the model
//! accepts the token sequence, and an error exactly when it does not.

use vstd::prelude::*;

use crate::utils::{Command, CommandV, ConditionalType, RedirectionType, SimpleCommand,
    SimpleCommandV, Token, TokenV, WordSource};
use crate::lexer::toks_view;

verus! {

/// The text a word-shaped token carries; `None` for punctuation.
pub open spec fn word_of(t: TokenV) -> Option<Seq<char>> {
    match t {
        TokenV::Word(w) => Some(w),
        TokenV::StringLiteral(w) => Some(w),
        _ => None,
    }
}

/// Where a word-shaped token came from.
pub open spec fn word_source(t: TokenV) -> WordSource {
    match t {
        TokenV::StringLiteral(_) => WordSource::Quoted,
        _ => WordSource::Unquoted,
    }
}

/// Whether a token is one of the three redirection operators.
pub open spec fn is_redir(t: TokenV) -> bool {
    t == TokenV::RedirectIn || t == TokenV::RedirectOut || t == TokenV::RedirectAppend
}

/// Which redirection a redirection operator denotes.
pub open spec fn redir_type(t: TokenV) -> RedirectionType {
    match t {
        TokenV::RedirectIn => RedirectionType::In,
        TokenV::RedirectAppend => RedirectionType::Append,
        _ => RedirectionType::Out,
    }
}

/// `word*`: the run of word-shaped tokens from `p` on, appended to the
/// arguments collected so far, with the position after the run.
pub open spec fn parse_args_spec(ts: Seq<TokenV>, p: int, acc: Seq<Seq<char>>) -> (
    Seq<Seq<char>>,
    int,
)
    decreases ts.len() - p,
    when p <= ts.len()
{
    if p < 0 || p >= ts.len() {
        (acc, p)
    } else {
        match word_of(ts[p]) {
            Some(w) => parse_args_spec(ts, p + 1, acc.push(w)),
            None => (acc, p),
        }
    }
}

/// `simple ::= word word*`: a command word and its arguments, the
/// command itself standing first in the argument list.
pub open spec fn parse_simple_spec(ts: Seq<TokenV>, p: int) -> Option<(CommandV, int)> {
    if p < 0 || p >= ts.len() {
        None
    } else {
        match word_of(ts[p]) {
            None => None,
            Some(w) => {
                let (args, p2) = parse_args_spec(ts, p + 1, seq![w]);
                Some(
                    (
                        CommandV::Simple(SimpleCommandV { command: w, arguments: args }),
                        p2,
                    ),
                )
            },
        }
    }
}

/// `( REDIR word )*`: each redirection wraps the tree built so far in a
/// `Redirect` node, outermost applied last.
pub open spec fn parse_redirect_more(ts: Seq<TokenV>, p: int, c: CommandV) -> Option<
    (CommandV, int),
>
    decreases ts.len() - p,
    when p <= ts.len()
{
    if 0 <= p && p < ts.len() && is_redir(ts[p]) {
        if p + 1 < ts.len() {
            match word_of(ts[p + 1]) {
                None => None,
                Some(w) => parse_redirect_more(
                    ts,
                    p + 2,
                    CommandV::Redirect {
                        child_command: Box::new(c),
                        redirect_type: redir_type(ts[p]),
                        target_file: w,
                    },
                ),
            }
        } else {
            None
        }
    } else {
        Some((c, p))
    }
}

/// `redirect ::= simple ( REDIR word )*`.
pub open spec fn parse_redirect_spec(ts: Seq<TokenV>, p: int) -> Option<(CommandV, int)> {
    match parse_simple_spec(ts, p) {
        None => None,
        Some((c, p1)) => parse_redirect_more(ts, p1, c),
    }
}

/// Position bounds of the argument run.
pub proof fn lemma_args_bounds(ts: Seq<TokenV>, p: int, acc: Seq<Seq<char>>)
    requires
        0 <= p <= ts.len(),
    ensures
        p <= parse_args_spec(ts, p, acc).1 <= ts.len(),
    decreases ts.len() - p,
{
    if p < ts.len() && word_of(ts[p]) is Some {
        lemma_args_bounds(ts, p + 1, acc.push(word_of(ts[p]).unwrap()));
    }
}

/// Position bounds of the simple-command parse: it consumes at least
/// its command word.
pub proof fn lemma_simple_bounds(ts: Seq<TokenV>, p: int)
    requires
        0 <= p <= ts.len(),
    ensures
        match parse_simple_spec(ts, p) {
            Some((c, p2)) => p < p2 <= ts.len(),
            None => true,
        },
{
    if p < ts.len() && word_of(ts[p]) is Some {
        lemma_args_bounds(ts, p + 1, seq![word_of(ts[p]).unwrap()]);
    }
}

/// Position bounds of the redirection run.
pub proof fn lemma_redirect_more_bounds(ts: Seq<TokenV>, p: int, c: CommandV)
    requires
        0 <= p <= ts.len(),
    ensures
        match parse_redirect_more(ts, p, c) {
            Some((c2, p2)) => p <= p2 <= ts.len(),
            None => true,
        },
    decreases ts.len() - p,
{
    if 0 <= p && p < ts.len() && is_redir(ts[p]) && p + 1 < ts.len() && word_of(ts[p + 1]) is Some {
        lemma_redirect_more_bounds(
            ts,
            p + 2,
            CommandV::Redirect {
                child_command: Box::new(c),
                redirect_type: redir_type(ts[p]),
                target_file: word_of(ts[p + 1]).unwrap(),
            },
        );
    }
}

/// Position bounds of the redirect parse: it consumes at least one token.
pub proof fn lemma_redirect_bounds(ts: Seq<TokenV>, p: int)
    requires
        0 <= p <= ts.len(),
    ensures
        match parse_redirect_spec(ts, p) {
            Some((c, p2)) => p < p2 <= ts.len(),
            None => true,
        },
{
    lemma_simple_bounds(ts, p);
    if let Some((c, p1)) = parse_simple_spec(ts, p) {
        lemma_redirect_more_bounds(ts, p1, c);
    }
}

/// `( '|' redirect )*`: each stage extends a left-leaning `Pipe` chain.
pub open spec fn parse_pipe_more(ts: Seq<TokenV>, p: int, c: CommandV) -> Option<(CommandV, int)>
    decreases ts.len() - p,
    when 0 <= p <= ts.len()
    via parse_pipe_more_decreases
{
    if p < ts.len() && ts[p] == TokenV::PIPE {
        match parse_redirect_spec(ts, p + 1) {
            None => None,
            Some((r, p2)) => parse_pipe_more(
                ts,
                p2,
                CommandV::Pipe { left: Box::new(c), right: Box::new(r) },
            ),
        }
    } else {
        Some((c, p))
    }
}

#[via_fn]
proof fn parse_pipe_more_decreases(ts: Seq<TokenV>, p: int, c: CommandV) {
    if p < ts.len() && ts[p] == TokenV::PIPE {
        lemma_redirect_bounds(ts, p + 1);
    }
}

/// `pipe ::= redirect ( '|' redirect )*`.
pub open spec fn parse_pipe_spec(ts: Seq<TokenV>, p: int) -> Option<(CommandV, int)> {
    match parse_redirect_spec(ts, p) {
        None => None,
        Some((c, p1)) => parse_pipe_more(ts, p1, c),
    }
}

/// Position bounds of the pipe run.
pub proof fn lemma_pipe_more_bounds(ts: Seq<TokenV>, p: int, c: CommandV)
    requires
        0 <= p <= ts.len(),
    ensures
        match parse_pipe_more(ts, p, c) {
            Some((c2, p2)) => p <= p2 <= ts.len(),
            None => true,
        },
    decreases ts.len() - p,
{
    if p < ts.len() && ts[p] == TokenV::PIPE {
        lemma_redirect_bounds(ts, p + 1);
        if let Some((r, p2)) = parse_redirect_spec(ts, p + 1) {
            lemma_pipe_more_bounds(
                ts,
                p2,
                CommandV::Pipe { left: Box::new(c), right: Box::new(r) },
            );
        }
    }
}

/// Position bounds of the pipe parse: it consumes at least one token.
pub proof fn lemma_pipe_bounds(ts: Seq<TokenV>, p: int)
    requires
        0 <= p <= ts.len(),
    ensures
        match parse_pipe_spec(ts, p) {
            Some((c, p2)) => p < p2 <= ts.len(),
            None => true,
        },
{
    lemma_redirect_bounds(ts, p);
    if let Some((c, p1)) = parse_redirect_spec(ts, p) {
        lemma_pipe_more_bounds(ts, p1, c);
    }
}

/// `( (';' | '&&' | '||') pipe | '&' )*`: `;` `&&` `||` left-associate,
/// a trailing `&` wraps the tree built so far in `Background`.
pub open spec fn parse_seq_more(ts: Seq<TokenV>, p: int, c: CommandV) -> Option<(CommandV, int)>
    decreases ts.len() - p,
    when 0 <= p <= ts.len()
    via parse_seq_more_decreases
{
    if p < ts.len() && ts[p] == TokenV::Semicolon {
        match parse_pipe_spec(ts, p + 1) {
            None => None,
            Some((r, p2)) => parse_seq_more(
                ts,
                p2,
                CommandV::Sequence { first: Box::new(c), second: Box::new(r) },
            ),
        }
    } else if p < ts.len() && ts[p] == TokenV::Background {
        parse_seq_more(ts, p + 1, CommandV::Background { child_command: Box::new(c) })
    } else if p < ts.len() && ts[p] == TokenV::AndIf {
        match parse_pipe_spec(ts, p + 1) {
            None => None,
            Some((r, p2)) => parse_seq_more(
                ts,
                p2,
                CommandV::Conditional {
                    left: Box::new(c),
                    right: Box::new(r),
                    operator: ConditionalType::And,
                },
            ),
        }
    } else if p < ts.len() && ts[p] == TokenV::OrIf {
        match parse_pipe_spec(ts, p + 1) {
            None => None,
            Some((r, p2)) => parse_seq_more(
                ts,
                p2,
                CommandV::Conditional {
                    left: Box::new(c),
                    right: Box::new(r),
                    operator: ConditionalType::Or,
                },
            ),
        }
    } else {
        Some((c, p))
    }
}

#[via_fn]
proof fn parse_seq_more_decreases(ts: Seq<TokenV>, p: int, c: CommandV) {
    if p < ts.len() && (ts[p] == TokenV::Semicolon || ts[p] == TokenV::AndIf || ts[p]
        == TokenV::OrIf) {
        lemma_pipe_bounds(ts, p + 1);
    }
}

/// `sequence ::= pipe ( (';' | '&&' | '||') pipe | '&' )*`.
pub open spec fn parse_sequence_spec(ts: Seq<TokenV>, p: int) -> Option<(CommandV, int)> {
    match parse_pipe_spec(ts, p) {
        None => None,
        Some((c, p1)) => parse_seq_more(ts, p1, c),
    }
}

/// What parsing a whole token sequence yields: the sequence-level tree,
/// accepted only if the parser then stands on the `EOF` end marker,
/// which it never consumes.
pub open spec fn parse_spec(ts: Seq<TokenV>) -> Option<CommandV> {
    match parse_sequence_spec(ts, 0) {
        None => None,
        Some((c, p)) => {
            if 0 <= p < ts.len() && ts[p] == TokenV::EOF {
                Some(c)
            } else {
                None
            }
        },
    }
}

// What follows is the grammar itself, transcribed as a recognizer: each
// production consumes tokens and reports only where it stopped, building
// nothing. `lemma_parser_totality` below proves that the parser accepts
// exactly the token sequences this grammar derives.

/// `word*`: the position after the run of word-shaped tokens from `p`.
pub open spec fn skip_words(ts: Seq<TokenV>, p: int) -> int
    decreases ts.len() - p,
    when p <= ts.len()
{
    if 0 <= p < ts.len() && word_of(ts[p]) is Some {
        skip_words(ts, p + 1)
    } else {
        p
    }
}

/// `simple ::= word word*`.
pub open spec fn accept_simple(ts: Seq<TokenV>, p: int) -> Option<int> {
    if 0 <= p < ts.len() && word_of(ts[p]) is Some {
        Some(skip_words(ts, p + 1))
    } else {
        None
    }
}

/// `( REDIR word )*`.
pub open spec fn accept_redirs(ts: Seq<TokenV>, p: int) -> Option<int>
    decreases ts.len() - p,
    when p <= ts.len()
{
    if 0 <= p < ts.len() && is_redir(ts[p]) {
        if p + 1 < ts.len() && word_of(ts[p + 1]) is Some {
            accept_redirs(ts, p + 2)
        } else {
            None
        }
    } else {
        Some(p)
    }
}

/// `redirect ::= simple ( REDIR word )*`.
pub open spec fn accept_redirect(ts: Seq<TokenV>, p: int) -> Option<int> {
    match accept_simple(ts, p) {
        None => None,
        Some(p1) => accept_redirs(ts, p1),
    }
}

proof fn lemma_skip_words_equiv(ts: Seq<TokenV>, p: int, acc: Seq<Seq<char>>)
    requires
        0 <= p <= ts.len(),
    ensures
        skip_words(ts, p) == parse_args_spec(ts, p, acc).1,
        p <= skip_words(ts, p) <= ts.len(),
    decreases ts.len() - p,
{
    if p < ts.len() && word_of(ts[p]) is Some {
        lemma_skip_words_equiv(ts, p + 1, acc.push(word_of(ts[p]).unwrap()));
    }
}

proof fn lemma_accept_simple_equiv(ts: Seq<TokenV>, p: int)
    requires
        0 <= p <= ts.len(),
    ensures
        match (accept_simple(ts, p), parse_simple_spec(ts, p)) {
            (Some(q), Some((c, q2))) => q == q2,
            (None, None) => true,
            _ => false,
        },
{
    if p < ts.len() && word_of(ts[p]) is Some {
        lemma_skip_words_equiv(ts, p + 1, seq![word_of(ts[p]).unwrap()]);
    }
}

proof fn lemma_accept_redirs_equiv(ts: Seq<TokenV>, p: int, c: CommandV)
    requires
        0 <= p <= ts.len(),
    ensures
        match (accept_redirs(ts, p), parse_redirect_more(ts, p, c)) {
            (Some(q), Some((c2, q2))) => q == q2,
            (None, None) => true,
            _ => false,
        },
    decreases ts.len() - p,
{
    if 0 <= p && p < ts.len() && is_redir(ts[p]) && p + 1 < ts.len() && word_of(ts[p + 1]) is Some {
        lemma_accept_redirs_equiv(
            ts,
            p + 2,
            CommandV::Redirect {
                child_command: Box::new(c),
                redirect_type: redir_type(ts[p]),
                target_file: word_of(ts[p + 1]).unwrap(),
            },
        );
    }
}

proof fn lemma_accept_redirect_equiv(ts: Seq<TokenV>, p: int)
    requires
        0 <= p <= ts.len(),
    ensures
        match (accept_redirect(ts, p), parse_redirect_spec(ts, p)) {
            (Some(q), Some((c, q2))) => q == q2,
            (None, None) => true,
            _ => false,
        },
{
    lemma_accept_simple_equiv(ts, p);
    lemma_simple_bounds(ts, p);
    if let Some((c, p1)) = parse_simple_spec(ts, p) {
        lemma_accept_redirs_equiv(ts, p1, c);
    }
}

/// `( '|' redirect )*`.
pub open spec fn accept_pipe_more(ts: Seq<TokenV>, p: int) -> Option<int>
    decreases ts.len() - p,
    when 0 <= p <= ts.len()
    via accept_pipe_more_decreases
{
    if p < ts.len() && ts[p] == TokenV::PIPE {
        match accept_redirect(ts, p + 1) {
            None => None,
            Some(p2) => accept_pipe_more(ts, p2),
        }
    } else {
        Some(p)
    }
}

#[via_fn]
proof fn accept_pipe_more_decreases(ts: Seq<TokenV>, p: int) {
    if p < ts.len() && ts[p] == TokenV::PIPE {
        lemma_accept_redirect_equiv(ts, p + 1);
        lemma_redirect_bounds(ts, p + 1);
    }
}

/// `pipe ::= redirect ( '|' redirect )*`.
pub open spec fn accept_pipe(ts: Seq<TokenV>, p: int) -> Option<int> {
    match accept_redirect(ts, p) {
        None => None,
        Some(p1) => accept_pipe_more(ts, p1),
    }
}

proof fn lemma_accept_pipe_more_equiv(ts: Seq<TokenV>, p: int, c: CommandV)
    requires
        0 <= p <= ts.len(),
    ensures
        match (accept_pipe_more(ts, p), parse_pipe_more(ts, p, c)) {
            (Some(q), Some((c2, q2))) => q == q2,
            (None, None) => true,
            _ => false,
        },
    decreases ts.len() - p,
{
    if p < ts.len() && ts[p] == TokenV::PIPE {
        lemma_accept_redirect_equiv(ts, p + 1);
        lemma_redirect_bounds(ts, p + 1);
        if let Some((r, p2)) = parse_redirect_spec(ts, p + 1) {
            lemma_accept_pipe_more_equiv(
                ts,
                p2,
                CommandV::Pipe { left: Box::new(c), right: Box::new(r) },
            );
        }
    }
}

proof fn lemma_accept_pipe_equiv(ts: Seq<TokenV>, p: int)
    requires
        0 <= p <= ts.len(),
    ensures
        match (accept_pipe(ts, p), parse_pipe_spec(ts, p)) {
            (Some(q), Some((c, q2))) => q == q2,
            (None, None) => true,
            _ => false,
        },
{
    lemma_accept_redirect_equiv(ts, p);
    lemma_redirect_bounds(ts, p);
    if let Some((c, p1)) = parse_redirect_spec(ts, p) {
        lemma_accept_pipe_more_equiv(ts, p1, c);
    }
}

/// `( (';' | '&&' | '||') pipe | '&' )*`.
pub open spec fn accept_seq_more(ts: Seq<TokenV>, p: int) -> Option<int>
    decreases ts.len() - p,
    when 0 <= p <= ts.len()
    via accept_seq_more_decreases
{
    if p < ts.len() && (ts[p] == TokenV::Semicolon || ts[p] == TokenV::AndIf || ts[p]
        == TokenV::OrIf) {
        match accept_pipe(ts, p + 1) {
            None => None,
            Some(p2) => accept_seq_more(ts, p2),
        }
    } else if p < ts.len() && ts[p] == TokenV::Background {
        accept_seq_more(ts, p + 1)
    } else {
        Some(p)
    }
}

#[via_fn]
proof fn accept_seq_more_decreases(ts: Seq<TokenV>, p: int) {
    if p < ts.len() && (ts[p] == TokenV::Semicolon || ts[p] == TokenV::AndIf || ts[p]
        == TokenV::OrIf) {
        lemma_accept_pipe_equiv(ts, p + 1);
        lemma_pipe_bounds(ts, p + 1);
    }
}

/// `sequence ::= pipe ( (';' | '&&' | '||') pipe | '&' )*`.
pub open spec fn accept_sequence(ts: Seq<TokenV>, p: int) -> Option<int> {
    match accept_pipe(ts, p) {
        None => None,
        Some(p1) => accept_seq_more(ts, p1),
    }
}

/// Whether a token sequence is derived by the grammar: one `sequence`,
/// after which the `EOF` end marker stands.
pub open spec fn grammar_accepts(ts: Seq<TokenV>) -> bool {
    match accept_sequence(ts, 0) {
        None => false,
        Some(p) => 0 <= p < ts.len() && ts[p] == TokenV::EOF,
    }
}

proof fn lemma_accept_seq_more_equiv(ts: Seq<TokenV>, p: int, c: CommandV)
    requires
        0 <= p <= ts.len(),
    ensures
        match (accept_seq_more(ts, p), parse_seq_more(ts, p, c)) {
            (Some(q), Some((c2, q2))) => q == q2,
            (None, None) => true,
            _ => false,
        },
    decreases ts.len() - p,
{
    if p < ts.len() && ts[p] == TokenV::Semicolon {
        lemma_accept_pipe_equiv(ts, p + 1);
        lemma_pipe_bounds(ts, p + 1);
        if let Some((r, p2)) = parse_pipe_spec(ts, p + 1) {
            lemma_accept_seq_more_equiv(
                ts,
                p2,
                CommandV::Sequence { first: Box::new(c), second: Box::new(r) },
            );
        }
    } else if p < ts.len() && ts[p] == TokenV::Background {
        lemma_accept_seq_more_equiv(
            ts,
            p + 1,
            CommandV::Background { child_command: Box::new(c) },
        );
    } else if p < ts.len() && ts[p] == TokenV::AndIf {
        lemma_accept_pipe_equiv(ts, p + 1);
        lemma_pipe_bounds(ts, p + 1);
        if let Some((r, p2)) = parse_pipe_spec(ts, p + 1) {
            lemma_accept_seq_more_equiv(
                ts,
                p2,
                CommandV::Conditional {
                    left: Box::new(c),
                    right: Box::new(r),
                    operator: ConditionalType::And,
                },
            );
        }
    } else if p < ts.len() && ts[p] == TokenV::OrIf {
        lemma_accept_pipe_equiv(ts, p + 1);
        lemma_pipe_bounds(ts, p + 1);
        if let Some((r, p2)) = parse_pipe_spec(ts, p + 1) {
            lemma_accept_seq_more_equiv(
                ts,
                p2,
                CommandV::Conditional {
                    left: Box::new(c),
                    right: Box::new(r),
                    operator: ConditionalType::Or,
                },
            );
        }
    }
}

/// Law: the parser is total on clean tokens. A token sequence derived
/// by the grammar parses to exactly one command tree — the one
/// `parse_spec` names, which the executable parser is proved to
/// return — and every other sequence yields a parser error.
pub proof fn lemma_parser_totality(ts: Seq<TokenV>)
    ensures
        grammar_accepts(ts) <==> parse_spec(ts) is Some,
{
    lemma_accept_pipe_equiv(ts, 0);
    lemma_pipe_bounds(ts, 0);
    if let Some((c, p1)) = parse_pipe_spec(ts, 0) {
        lemma_accept_seq_more_equiv(ts, p1, c);
    }
}

/// The token cursor: the token sequence of one line and the position
/// of the next token to consume.
pub struct Parser {
    pub tokens: Vec<Token>,
    pub position: usize,
}

impl Parser {
    /// The models of the tokens held.
    pub open spec fn toks(&self) -> Seq<TokenV> {
        toks_view(self.tokens@)
    }

    /// A usable cursor: at least the `EOF` end marker is present, it
    /// stands last, and the position has not run past the end.
    pub open spec fn wf(&self) -> bool {
        &&& self.tokens@.len() >= 1
        &&& self.toks().last() == TokenV::EOF
        &&& self.position < self.tokens@.len()
    }

    /// The next token, not consumed.
    pub fn peek(&self) -> (t: &Token)
        requires
            self.wf(),
        ensures
            t@ == self.toks()[self.position as int],
    {
        &self.tokens[self.position]
    }

    /// Whether the cursor stands on the end marker's slot.
    fn at_end(&self) -> (r: bool)
        requires
            self.tokens@.len() >= 1,
        ensures
            r == (self.position == self.tokens@.len() - 1),
    {
        self.position == self.tokens.len() - 1
    }

    /// Returns the next token and moves on, except at the end marker,
    /// which is never consumed.
    pub fn advance(&mut self) -> (t: Token)
        requires
            old(self).wf(),
        ensures
            final(self).wf(),
            final(self).tokens == old(self).tokens,
            t@ == old(self).toks()[old(self).position as int],
            old(self).position == old(self).tokens@.len() - 1 ==> final(self).position == old(
                self,
            ).position,
            old(self).position < old(self).tokens@.len() - 1 ==> final(self).position == old(
                self,
            ).position + 1,
    {
        let token = self.tokens[self.position].clone();
        if !self.at_end() {
            let n = self.tokens.len();
            proof {
                assert(self.position < n - 1);
            }
            self.position = self.position + 1;
        }
        token
    }

    /// Consumes a word-shaped token and reports its text and source;
    /// leaves punctuation alone.
    pub fn consume_word_or_literal(&mut self) -> (r: Option<(String, WordSource)>)
        requires
            old(self).wf(),
        ensures
            final(self).wf(),
            final(self).tokens == old(self).tokens,
            match r {
                Some((w, src)) => {
                    &&& word_of(old(self).toks()[old(self).position as int]) == Some(w@)
                    &&& src == word_source(old(self).toks()[old(self).position as int])
                    &&& final(self).position == old(self).position + 1
                },
                None => {
                    &&& word_of(old(self).toks()[old(self).position as int]) is None
                    &&& final(self).position == old(self).position
                },
            },
    {
        proof {
            // A word-shaped token is never the end marker, which stands
            // last, so consuming one always moves the cursor.
            assert(self.toks().last() == self.toks()[self.toks().len() - 1]);
        }
        let token = self.peek().clone();
        match token {
            Token::Word(word) => {
                self.advance();
                Some((word, WordSource::Unquoted))
            },
            Token::StringLiteral(literal) => {
                self.advance();
                Some((literal, WordSource::Quoted))
            },
            _ => None,
        }
    }

    /// Whether the next token is a redirection operator.
    pub fn is_redirection(&self) -> (r: bool)
        requires
            self.wf(),
        ensures
            r == is_redir(self.toks()[self.position as int]),
    {
        let peeked = self.peek();
        match peeked {
            Token::RedirectIn => true,
            Token::RedirectOut => true,
            Token::RedirectAppend => true,
            _ => false,
        }
    }

    /// Whether the next token is the pipe operator.
    pub fn is_pipe(&self) -> (r: bool)
        requires
            self.wf(),
        ensures
            r == (self.toks()[self.position as int] == TokenV::PIPE),
    {
        let peeked = self.peek();
        match peeked {
            Token::PIPE => true,
            _ => false,
        }
    }
}

/// `simple ::= word word*`.
pub fn parse_simple_command(parser: &mut Parser) -> (r: Result<Command, ()>)
    requires
        old(parser).wf(),
    ensures
        final(parser).wf(),
        final(parser).tokens == old(parser).tokens,
        match r {
            Ok(c) => parse_simple_spec(old(parser).toks(), old(parser).position as int) == Some(
                (c@, final(parser).position as int),
            ),
            Err(_) => {
                &&& parse_simple_spec(old(parser).toks(), old(parser).position as int) is None
                &&& final(parser).position == old(parser).position
            },
        },
{
    let ghost ts = parser.toks();
    let ghost p0 = parser.position as int;
    let simple_command = match parser.consume_word_or_literal() {
        Some((cmd, _)) => cmd,
        None => { return Err(()); },
    };

    let mut arguments = vec![simple_command.clone()];
    proof {
        assert(arguments@.map_values(|s: String| s@) =~= seq![simple_command@]);
    }

    loop
        invariant
            parser.wf(),
            parser.tokens == old(parser).tokens,
            ts == parser.toks(),
            p0 + 1 <= parser.position as int <= ts.len(),
            parse_args_spec(ts, parser.position as int, arguments@.map_values(|s: String| s@))
                == parse_args_spec(ts, p0 + 1, seq![simple_command@]),
        ensures
            parser.wf(),
            parser.tokens == old(parser).tokens,
            p0 + 1 <= parser.position as int <= ts.len(),
            parse_args_spec(ts, parser.position as int, arguments@.map_values(|s: String| s@))
                == parse_args_spec(ts, p0 + 1, seq![simple_command@]),
            word_of(ts[parser.position as int]) is None,
        decreases ts.len() - parser.position as int,
    {
        let ghost pos_before = parser.position as int;
        let ghost args_before = arguments@.map_values(|s: String| s@);
        match parser.consume_word_or_literal() {
            Some((arg, _)) => {
                proof {
                    assert(args_before.push(arg@) =~= arguments@.push(arg).map_values(
                        |s: String| s@,
                    ));
                }
                arguments.push(arg);
            },
            None => { break; },
        }
    }

    proof {
        assert(parse_args_spec(ts, parser.position as int, arguments@.map_values(|s: String| s@))
            == (arguments@.map_values(|s: String| s@), parser.position as int));
    }
    Ok(Command::Simple(SimpleCommand { command: simple_command, arguments }))
}

/// `redirect ::= simple ( REDIR word )*`.
pub fn parse_redirect(parser: &mut Parser) -> (r: Result<Command, ()>)
    requires
        old(parser).wf(),
    ensures
        final(parser).wf(),
        final(parser).tokens == old(parser).tokens,
        match r {
            Ok(c) => parse_redirect_spec(old(parser).toks(), old(parser).position as int) == Some(
                (c@, final(parser).position as int),
            ),
            Err(_) => parse_redirect_spec(old(parser).toks(), old(parser).position as int) is None,
        },
{
    let ghost ts = parser.toks();
    let ghost p0 = parser.position as int;
    let mut child_command = match parse_simple_command(parser) {
        Ok(c) => c,
        Err(_) => { return Err(()); },
    };

    while parser.is_redirection()
        invariant
            parser.wf(),
            parser.tokens == old(parser).tokens,
            ts == parser.toks(),
            ts == old(parser).toks(),
            p0 == old(parser).position as int,
            parser.position as int <= ts.len() - 1,
            parse_redirect_more(ts, parser.position as int, child_command@)
                == parse_redirect_spec(ts, p0),
        decreases ts.len() - parser.position as int,
    {
        let ghost p_l = parser.position as int;
        proof {
            assert(ts.last() == ts[ts.len() - 1]);
        }
        let redirect_type = match parser.peek() {
            Token::RedirectIn => RedirectionType::In,
            Token::RedirectAppend => RedirectionType::Append,
            _ => RedirectionType::Out,
        };
        parser.advance();

        let filename = match parser.consume_word_or_literal() {
            Some((w, _)) => w,
            None => {
                proof {
                    assert(parse_redirect_more(ts, p_l, child_command@) is None);
                }
                return Err(());
            },
        };

        child_command = Command::Redirect {
            child_command: Box::new(child_command),
            redirect_type,
            target_file: filename,
        };
    }

    Ok(child_command)
}

/// `pipe ::= redirect ( '|' redirect )*`.
pub fn parse_pipe(parser: &mut Parser) -> (r: Result<Command, ()>)
    requires
        old(parser).wf(),
    ensures
        final(parser).wf(),
        final(parser).tokens == old(parser).tokens,
        match r {
            Ok(c) => parse_pipe_spec(old(parser).toks(), old(parser).position as int) == Some(
                (c@, final(parser).position as int),
            ),
            Err(_) => parse_pipe_spec(old(parser).toks(), old(parser).position as int) is None,
        },
{
    let ghost ts = parser.toks();
    let ghost p0 = parser.position as int;
    let mut left = match parse_redirect(parser) {
        Ok(c) => c,
        Err(_) => { return Err(()); },
    };

    while parser.is_pipe()
        invariant
            parser.wf(),
            parser.tokens == old(parser).tokens,
            ts == parser.toks(),
            ts == old(parser).toks(),
            p0 == old(parser).position as int,
            parser.position as int <= ts.len() - 1,
            parse_pipe_more(ts, parser.position as int, left@) == parse_pipe_spec(ts, p0),
        decreases ts.len() - parser.position as int,
    {
        let ghost p_l = parser.position as int;
        proof {
            assert(ts.last() == ts[ts.len() - 1]);
        }
        parser.advance();

        let ghost p_here = parser.position as int;
        let right = match parse_redirect(parser) {
            Ok(c) => c,
            Err(_) => {
                proof {
                    assert(parse_pipe_more(ts, p_l, left@) is None);
                }
                return Err(());
            },
        };
        proof {
            lemma_redirect_bounds(ts, p_here);
        }

        left = Command::Pipe { left: Box::new(left), right: Box::new(right) };
    }

    Ok(left)
}

/// `sequence ::= pipe ( (';' | '&&' | '||') pipe | '&' )*`.
pub fn parse_sequence(parser: &mut Parser) -> (r: Result<Command, ()>)
    requires
        old(parser).wf(),
    ensures
        final(parser).wf(),
        final(parser).tokens == old(parser).tokens,
        match r {
            Ok(c) => parse_sequence_spec(old(parser).toks(), old(parser).position as int) == Some(
                (c@, final(parser).position as int),
            ),
            Err(_) => parse_sequence_spec(old(parser).toks(), old(parser).position as int) is None,
        },
{
    let ghost ts = parser.toks();
    let ghost p0 = parser.position as int;
    let mut command = match parse_pipe(parser) {
        Ok(c) => c,
        Err(_) => { return Err(()); },
    };

    loop
        invariant
            parser.wf(),
            parser.tokens == old(parser).tokens,
            ts == parser.toks(),
            ts == old(parser).toks(),
            p0 == old(parser).position as int,
            parser.position as int <= ts.len() - 1,
            parse_seq_more(ts, parser.position as int, command@) == parse_sequence_spec(ts, p0),
        ensures
            parser.wf(),
            parser.tokens == old(parser).tokens,
            parser.position as int <= ts.len() - 1,
            parse_sequence_spec(ts, p0) == Some((command@, parser.position as int)),
        decreases ts.len() - parser.position as int,
    {
        let ghost p_l = parser.position as int;
        proof {
            assert(ts.last() == ts[ts.len() - 1]);
        }
        let next = parser.peek();
        match next {
            Token::Semicolon => {
                parser.advance();
                let ghost p_here = parser.position as int;
                let right = match parse_pipe(parser) {
                    Ok(c) => c,
                    Err(_) => {
                        proof {
                            assert(parse_seq_more(ts, p_l, command@) is None);
                        }
                        return Err(());
                    },
                };
                proof {
                    lemma_pipe_bounds(ts, p_here);
                }
                command = Command::Sequence { first: Box::new(command), second: Box::new(right) };
            },
            Token::Background => {
                parser.advance();
                command = Command::Background { child_command: Box::new(command) };
            },
            Token::AndIf => {
                parser.advance();
                let ghost p_here = parser.position as int;
                let right = match parse_pipe(parser) {
                    Ok(c) => c,
                    Err(_) => {
                        proof {
                            assert(parse_seq_more(ts, p_l, command@) is None);
                        }
                        return Err(());
                    },
                };
                proof {
                    lemma_pipe_bounds(ts, p_here);
                }
                command = Command::Conditional {
                    left: Box::new(command),
                    right: Box::new(right),
                    operator: ConditionalType::And,
                };
            },
            Token::OrIf => {
                parser.advance();
                let ghost p_here = parser.position as int;
                let right = match parse_pipe(parser) {
                    Ok(c) => c,
                    Err(_) => {
                        proof {
                            assert(parse_seq_more(ts, p_l, command@) is None);
                        }
                        return Err(());
                    },
                };
                proof {
                    lemma_pipe_bounds(ts, p_here);
                }
                command = Command::Conditional {
                    left: Box::new(command),
                    right: Box::new(right),
                    operator: ConditionalType::Or,
                };
            },
            _ => { break; },
        }
    }

    Ok(command)
}

/// Parses one line's token sequence into a single command tree, or
/// reports that the sequence does not match the grammar. The `EOF` end
/// marker must stand last and is never consumed; the tree is accepted
/// only once the whole sequence up to the marker is derived.
pub fn parse(tokens: Vec<Token>) -> (r: Result<Command, ()>)
    requires
        tokens@.len() >= 1,
        toks_view(tokens@).last() == TokenV::EOF,
    ensures
        match r {
            Ok(c) => parse_spec(toks_view(tokens@)) == Some(c@),
            Err(_) => parse_spec(toks_view(tokens@)) is None,
        },
{
    let ghost ts = toks_view(tokens@);
    let mut parser = Parser { tokens, position: 0 };
    let command = match parse_sequence(&mut parser) {
        Ok(c) => c,
        Err(_) => { return Err(()); },
    };
    let ended = match parser.peek() {
        Token::EOF => true,
        _ => false,
    };
    if ended {
        Ok(command)
    } else {
        Err(())
    }
}

} // verus!
