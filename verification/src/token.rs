//! The instruction stream: tokens, their source positions, and the
//! tokenizer that turns source text into a stream.

use vstd::prelude::*;
use vstd::string::StrSliceExecFns;

verus! {

/// Whether a loop delimiter opens or closes a loop.
#[derive(PartialEq, Eq, Structural, Debug, Clone, Copy)]
pub enum BracketState {
    Open,
    Closed,
}

/// One instruction of the tape machine.
///
/// `ValMod(n)` adds `n` to the current cell, `PosMod(n)` adds `n` to
/// the tape pointer (wrapping around the tape), `Bracket` delimits a
/// repeat-while-nonzero loop, `Output` and `Input` transfer one byte,
/// and `Clear` and `Copy(offset)` are the results of the peephole
/// idiom rewrites: `Clear` zeroes the current cell, `Copy(offset)`
/// adds the current cell's value into the cell `offset` away.
#[derive(PartialEq, Eq, Structural, Debug, Clone, Copy)]
pub enum TokenKind {
    ValMod(isize),
    PosMod(isize),
    Bracket(BracketState),
    Comment,
    Output,
    Input,
    Clear,
    Copy(isize),
}

impl TokenKind {
    /// The instruction a single source character denotes; any
    /// unrecognized character is a `Comment`.
    pub fn from(input: char) -> (kind: TokenKind)
        ensures
            kind == kind_of_char(input),
    {
        match input {
            '+' => TokenKind::ValMod(1),
            '-' => TokenKind::ValMod(-1),
            '>' => TokenKind::PosMod(1),
            '<' => TokenKind::PosMod(-1),
            '[' => TokenKind::Bracket(BracketState::Open),
            ']' => TokenKind::Bracket(BracketState::Closed),
            '.' => TokenKind::Output,
            ',' => TokenKind::Input,
            _ => TokenKind::Comment,
        }
    }
}

/// The instruction a source character maps to.
pub open spec fn kind_of_char(c: char) -> TokenKind {
    if c == '+' {
        TokenKind::ValMod(1isize)
    } else if c == '-' {
        TokenKind::ValMod(-1isize)
    } else if c == '>' {
        TokenKind::PosMod(1isize)
    } else if c == '<' {
        TokenKind::PosMod(-1isize)
    } else if c == '[' {
        TokenKind::Bracket(BracketState::Open)
    } else if c == ']' {
        TokenKind::Bracket(BracketState::Closed)
    } else if c == '.' {
        TokenKind::Output
    } else if c == ',' {
        TokenKind::Input
    } else {
        TokenKind::Comment
    }
}

/// A position in the source text: 1-based line and column.
#[derive(PartialEq, Eq, Structural, Debug, Clone, Copy)]
pub struct CodePos {
    pub line: usize,
    pub col: usize,
}

/// One instruction together with the source position it came from.
#[derive(PartialEq, Eq, Structural, Debug, Clone, Copy)]
pub struct Token {
    pub kind: TokenKind,
    pub code_pos: CodePos,
}

/// The token stream that a source text denotes, together with the
/// line and column tracking that the tokenizer performs.
///
/// Each kept token's position is its 1-based line and column in the
/// source text: a newline increments the line counter and restarts
/// the column, and every other character — kept or dropped as a
/// comment — advances the column, so dropped characters do not
/// disturb the kept tokens' source positions.
pub open spec fn tokens_of(s: Seq<char>, line: nat, col: nat) -> Seq<Token>
    decreases s.len(),
{
    if s.len() == 0 {
        Seq::empty()
    } else if s[0] == '\n' {
        tokens_of(s.skip(1), (line + 1) as nat, 1nat)
    } else {
        let kind = kind_of_char(s[0]);
        if kind == TokenKind::Comment {
            tokens_of(s.skip(1), line, (col + 1) as nat)
        } else {
            seq![
                Token {
                    kind,
                    code_pos: CodePos { line: line as usize, col: col as usize },
                },
            ] + tokens_of(s.skip(1), line, (col + 1) as nat)
        }
    }
}

/// Translates source text to a token stream, dropping unrecognized
/// characters (comments) without disturbing the kept tokens'
/// source positions: each token carries the 1-based line and column
/// at which its character stands in the text.
pub fn tokenize(input: &str) -> (tokens: Vec<Token>)
    requires
        input@.len() + 1 < usize::MAX,
    ensures
        tokens@ == tokens_of(input@, 1nat, 1nat),
{
    let mut tokens: Vec<Token> = Vec::new();
    let n = input.unicode_len();

    let mut line: usize = 1;
    let mut col: usize = 1;
    let mut i: usize = 0;
    proof {
        assert(input@.skip(0) =~= input@);
        assert(tokens@ + tokens_of(input@, 1nat, 1nat) =~= tokens_of(input@, 1nat, 1nat));
    }
    while i < n
        invariant
            input@.len() + 1 < usize::MAX,
            n == input@.len(),
            i <= n,
            1 <= line,
            1 <= col,
            line + col <= i + 2,
            tokens_of(input@, 1nat, 1nat) == tokens@ + tokens_of(
                input@.skip(i as int),
                line as nat,
                col as nat,
            ),
        decreases n - i,
    {
        let ghost prev = tokens@;
        let ghost l0 = line as nat;
        let ghost c0 = col as nat;
        let command = input.get_char(i);
        proof {
            assert(input@.skip(i as int)[0] == command);
            assert(input@.skip(i as int).skip(1) =~= input@.skip(i + 1));
        }
        if command == '\n' {
            line = line + 1;
            col = 1;
            proof {
                assert(tokens_of(input@.skip(i as int), l0, c0) == tokens_of(
                    input@.skip(i + 1),
                    (l0 + 1) as nat,
                    1nat,
                ));
            }
        } else {
            let kind = TokenKind::from(command);
            if !matches!(kind, TokenKind::Comment) {
                let code_pos = CodePos { line, col };
                tokens.push(Token { kind, code_pos });
                proof {
                    let t = Token {
                        kind,
                        code_pos: CodePos { line: l0 as usize, col: c0 as usize },
                    };
                    assert(tokens_of(input@.skip(i as int), l0, c0) == seq![t] + tokens_of(
                        input@.skip(i + 1),
                        l0,
                        (c0 + 1) as nat,
                    ));
                    assert(tokens@ =~= prev + seq![t]);
                    assert(tokens@ + tokens_of(input@.skip(i + 1), l0, (c0 + 1) as nat) =~= prev
                        + tokens_of(input@.skip(i as int), l0, c0));
                }
            } else {
                proof {
                    assert(tokens_of(input@.skip(i as int), l0, c0) == tokens_of(
                        input@.skip(i + 1),
                        l0,
                        (c0 + 1) as nat,
                    ));
                }
            }
            col = col + 1;
        }
        i = i + 1;
    }
    proof {
        assert(input@.skip(n as int) =~= Seq::<char>::empty());
        assert(tokens@ + tokens_of(input@.skip(n as int), line as nat, col as nat) =~= tokens@);
    }
    tokens
}

} // verus!
