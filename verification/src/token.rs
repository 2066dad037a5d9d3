//! Tokenization: reduce a raw source string to the ordered sequence of
//! recognized instructions, dropping every other character.

use vstd::prelude::*;

verus! {

/// The eight instructions of the language, indexed by their position in the
/// token sequence.
#[derive(Clone, Copy, Debug, PartialEq, Eq, Structural)]
pub enum Token {
    MoveRight,
    MoveLeft,
    Increment,
    Decrement,
    Output,
    Input,
    JumpIfZero,
    JumpIfNonZero,
}

/// The instruction a character stands for, or `None` for any character that
/// is not one of the eight recognized symbols.
pub open spec fn token_of(c: char) -> Option<Token> {
    if c == '>' {
        Some(Token::MoveRight)
    } else if c == '<' {
        Some(Token::MoveLeft)
    } else if c == '+' {
        Some(Token::Increment)
    } else if c == '-' {
        Some(Token::Decrement)
    } else if c == '.' {
        Some(Token::Output)
    } else if c == ',' {
        Some(Token::Input)
    } else if c == '[' {
        Some(Token::JumpIfZero)
    } else if c == ']' {
        Some(Token::JumpIfNonZero)
    } else {
        None
    }
}

/// The token sequence of a source string: each recognized character in order,
/// every other character dropped.
pub open spec fn tokens_of(s: Seq<char>) -> Seq<Token>
    decreases s.len(),
{
    if s.len() == 0 {
        Seq::empty()
    } else {
        tokens_of(s.drop_last()) + match token_of(s.last()) {
            Some(t) => seq![t],
            None => Seq::<Token>::empty(),
        }
    }
}

/// How many characters of a source string are recognized instructions.
pub open spec fn instruction_count(s: Seq<char>) -> nat
    decreases s.len(),
{
    if s.len() == 0 {
        0
    } else {
        instruction_count(s.drop_last()) + if token_of(s.last()) is Some {
            1nat
        } else {
            0nat
        }
    }
}

/// The tokenizer keeps exactly the recognized characters: its output length
/// equals the number of recognized characters in the source.
pub proof fn lemma_token_count(s: Seq<char>)
    ensures
        tokens_of(s).len() == instruction_count(s),
    decreases s.len(),
{
    if s.len() > 0 {
        lemma_token_count(s.drop_last());
    }
}

/// Scan the source left to right and keep each recognized instruction
/// character, in order; everything else (comments, whitespace) is dropped.
/// Never fails: any string, including the empty one, yields a token sequence.
pub fn tokenize(source: &str) -> (tokens: Vec<Token>)
    ensures
        tokens@ == tokens_of(source@),
{
    let n = source.unicode_len();
    let mut tokens: Vec<Token> = Vec::new();
    let mut i: usize = 0;
    while i < n
        invariant
            i <= n,
            n == source@.len(),
            tokens@ == tokens_of(source@.subrange(0, i as int)),
        decreases n - i,
    {
        let c = source.get_char(i);
        let t: Option<Token> = if c == '>' {
            Some(Token::MoveRight)
        } else if c == '<' {
            Some(Token::MoveLeft)
        } else if c == '+' {
            Some(Token::Increment)
        } else if c == '-' {
            Some(Token::Decrement)
        } else if c == '.' {
            Some(Token::Output)
        } else if c == ',' {
            Some(Token::Input)
        } else if c == '[' {
            Some(Token::JumpIfZero)
        } else if c == ']' {
            Some(Token::JumpIfNonZero)
        } else {
            None
        };
        match t {
            Some(tok) => tokens.push(tok),
            None => {},
        }
        proof {
            let pre = source@.subrange(0, i as int);
            let ext = source@.subrange(0, i + 1);
            assert(ext.drop_last() =~= pre);
            assert(ext.last() == source@[i as int]);
        }
        i = i + 1;
    }
    proof {
        assert(source@.subrange(0, n as int) =~= source@);
    }
    tokens
}

} // verus!
