//! A program: the token sequence of a source string together with its
//! precomputed jump table, immutable after construction.

use vstd::prelude::*;
use crate::BfError;
use crate::brackets::{balanced, jump_table_wf, match_brackets};
use crate::token::{Token, tokenize, tokens_of};

verus! {

/// An executable program. Construction either yields a well-formed jump
/// table or fails with `UnbalancedBrackets`; no instruction of a malformed
/// source ever runs.
pub struct Program {
    tokens: Vec<Token>,
    jumps: Vec<Option<usize>>,
}

impl Program {
    /// The ordered sequence of instructions.
    pub closed spec fn token_seq(&self) -> Seq<Token> {
        self.tokens@
    }

    /// The jump table: for each bracket position, its partner's position.
    pub closed spec fn jump_seq(&self) -> Seq<Option<usize>> {
        self.jumps@
    }

    /// Every bracket token has exactly one partner, and the table is
    /// symmetric.
    pub open spec fn wf(&self) -> bool {
        jump_table_wf(self.token_seq(), self.jump_seq())
    }

    /// Build a program from a source string: tokenize, then pair the
    /// brackets. Succeeds exactly when the brackets of the source are
    /// balanced and properly nested.
    pub fn new(source: &str) -> (r: Result<Program, BfError>)
        ensures
            match r {
                Ok(p) => {
                    &&& p.wf()
                    &&& p.token_seq() == tokens_of(source@)
                    &&& balanced(tokens_of(source@))
                },
                Err(e) => {
                    &&& e == BfError::UnbalancedBrackets
                    &&& !balanced(tokens_of(source@))
                },
            },
    {
        let tokens = tokenize(source);
        match match_brackets(&tokens) {
            Ok(jumps) => Ok(Program { tokens, jumps }),
            Err(e) => Err(e),
        }
    }

    /// The number of instructions.
    pub fn token_count(&self) -> (n: usize)
        ensures
            n == self.token_seq().len(),
    {
        self.tokens.len()
    }

    /// The instruction at a position.
    pub fn token_at(&self, i: usize) -> (t: Token)
        requires
            i < self.token_seq().len(),
        ensures
            t == self.token_seq()[i as int],
    {
        self.tokens[i]
    }

    /// The jump table entry at a position: the matching bracket's position
    /// for a bracket token, `None` for any other token.
    pub fn jump_target(&self, i: usize) -> (j: Option<usize>)
        requires
            self.wf(),
            i < self.token_seq().len(),
        ensures
            j == self.jump_seq()[i as int],
    {
        self.jumps[i]
    }
}

} // verus!
