//! Bracket matching: a single left-to-right pass over the token sequence
//! that pairs each `JumpIfZero` with its matching `JumpIfNonZero`, or fails
//! with `UnbalancedBrackets`.

use vstd::prelude::*;
use crate::BfError;
use crate::token::Token;

verus! {

/// How many `JumpIfZero` (opening bracket) tokens a sequence holds.
pub open spec fn open_count(s: Seq<Token>) -> nat
    decreases s.len(),
{
    if s.len() == 0 {
        0
    } else {
        open_count(s.drop_last()) + if s.last() == Token::JumpIfZero {
            1nat
        } else {
            0nat
        }
    }
}

/// How many `JumpIfNonZero` (closing bracket) tokens a sequence holds.
pub open spec fn close_count(s: Seq<Token>) -> nat
    decreases s.len(),
{
    if s.len() == 0 {
        0
    } else {
        close_count(s.drop_last()) + if s.last() == Token::JumpIfNonZero {
            1nat
        } else {
            0nat
        }
    }
}

/// The standard bracket-matching condition, independent of the other tokens
/// interleaved between the brackets: opening and closing brackets are equal
/// in number, and no prefix closes more brackets than it has opened.
pub open spec fn balanced(s: Seq<Token>) -> bool {
    &&& open_count(s) == close_count(s)
    &&& forall|k: int|
        0 <= k <= s.len() ==> close_count(s.subrange(0, k)) <= open_count(s.subrange(0, k))
}

/// A well-formed jump table for a token sequence: one entry for each bracket
/// token and none for any other, symmetric, pairing each opening bracket with
/// a closing bracket strictly to its right.
pub open spec fn jump_table_wf(tokens: Seq<Token>, jumps: Seq<Option<usize>>) -> bool {
    &&& jumps.len() == tokens.len()
    &&& forall|i: int|
        0 <= i < tokens.len() ==> (#[trigger] jumps[i] is Some <==> (tokens[i] == Token::JumpIfZero
            || tokens[i] == Token::JumpIfNonZero))
    &&& forall|i: int|
        0 <= i < tokens.len() && #[trigger] jumps[i] is Some ==> {
            let j = jumps[i]->Some_0 as int;
            &&& 0 <= j < tokens.len()
            &&& jumps[j] == Some(i as usize)
            &&& (tokens[i] == Token::JumpIfZero ==> tokens[j] == Token::JumpIfNonZero && i < j)
            &&& (tokens[i] == Token::JumpIfNonZero ==> tokens[j] == Token::JumpIfZero && j < i)
        }
}

/// Extending a prefix by one token adds that token's contribution to the
/// bracket counts.
proof fn lemma_prefix_extend(s: Seq<Token>, k: int)
    requires
        0 <= k < s.len(),
    ensures
        open_count(s.subrange(0, k + 1)) == open_count(s.subrange(0, k)) + if s[k]
            == Token::JumpIfZero {
            1nat
        } else {
            0nat
        },
        close_count(s.subrange(0, k + 1)) == close_count(s.subrange(0, k)) + if s[k]
            == Token::JumpIfNonZero {
            1nat
        } else {
            0nat
        },
{
    assert(s.subrange(0, k + 1).drop_last() =~= s.subrange(0, k));
    assert(s.subrange(0, k + 1).last() == s[k]);
}

/// Scan the tokens once, left to right, keeping an ordered stack of the
/// opening brackets not yet closed. A closing bracket pairs with the most
/// recently opened bracket; both directions are recorded. Fails with
/// `UnbalancedBrackets` exactly when the brackets are not balanced: on a
/// closing bracket with no open partner, or on an opening bracket still
/// unclosed at the end of the scan.
pub fn match_brackets(tokens: &Vec<Token>) -> (r: Result<Vec<Option<usize>>, BfError>)
    ensures
        match r {
            Ok(jumps) => jump_table_wf(tokens@, jumps@) && balanced(tokens@),
            Err(e) => e == BfError::UnbalancedBrackets && !balanced(tokens@),
        },
{
    let n = tokens.len();
    let mut jumps: Vec<Option<usize>> = Vec::new();
    let mut k: usize = 0;
    while k < n
        invariant
            k <= n,
            jumps@.len() == k,
            forall|p: int| 0 <= p < k ==> jumps@[p] is None,
        decreases n - k,
    {
        jumps.push(None);
        k = k + 1;
    }
    let mut stack: Vec<usize> = Vec::new();
    let mut i: usize = 0;
    while i < n
        invariant
            i <= n,
            n == tokens@.len(),
            jumps@.len() == n,
            // the stack holds the still-open brackets, in increasing order
            forall|a: int, b: int| 0 <= a < b < stack@.len() ==> stack@[a] < stack@[b],
            forall|a: int|
                0 <= a < stack@.len() ==> {
                    &&& #[trigger] stack@[a] < i
                    &&& tokens@[stack@[a] as int] == Token::JumpIfZero
                    &&& jumps@[stack@[a] as int] is None
                },
            // bracket counts: open minus closed equals the stack height
            open_count(tokens@.subrange(0, i as int)) == close_count(
                tokens@.subrange(0, i as int),
            ) + stack@.len(),
            forall|p: int|
                0 <= p <= i ==> close_count(tokens@.subrange(0, p)) <= open_count(
                    tokens@.subrange(0, p),
                ),
            // entries so far: matched pairs behind us, nothing at or past i
            forall|p: int| i <= p < n ==> jumps@[p] is None,
            forall|p: int|
                0 <= p < i && tokens@[p] == Token::JumpIfZero && #[trigger] jumps@[p] is None
                    ==> stack@.contains(p as usize),
            forall|p: int|
                0 <= p < i && tokens@[p] == Token::JumpIfNonZero ==> #[trigger] jumps@[p] is Some,
            forall|p: int|
                0 <= p < i && tokens@[p] != Token::JumpIfZero && tokens@[p] != Token::JumpIfNonZero
                    ==> #[trigger] jumps@[p] is None,
            forall|p: int|
                0 <= p < i && #[trigger] jumps@[p] is Some ==> {
                    let q = jumps@[p]->Some_0 as int;
                    &&& 0 <= q < i
                    &&& jumps@[q] == Some(p as usize)
                    &&& (tokens@[p] == Token::JumpIfZero ==> tokens@[q] == Token::JumpIfNonZero
                        && p < q)
                    &&& (tokens@[p] == Token::JumpIfNonZero ==> tokens@[q] == Token::JumpIfZero
                        && q < p)
                },
        decreases n - i,
    {
        let t = tokens[i];
        proof {
            lemma_prefix_extend(tokens@, i as int);
        }
        if t == Token::JumpIfZero {
            let ghost old_stack = stack@;
            stack.push(i);
            proof {
                assert forall|p: int|
                    0 <= p < i + 1 && tokens@[p] == Token::JumpIfZero && #[trigger] jumps@[p]
                        is None implies stack@.contains(p as usize) by {
                    if p == i as int {
                        assert(stack@[stack@.len() - 1] == p as usize);
                    } else {
                        let a = choose|a: int|
                            0 <= a < old_stack.len() && old_stack[a] == p as usize;
                        assert(stack@[a] == p as usize);
                    }
                }
            }
        } else if t == Token::JumpIfNonZero {
            let ghost old_stack = stack@;
            let popped = stack.pop();
            match popped {
                Some(j) => {
                    let ghost old_jumps = jumps@;
                    jumps.set(i, Some(j));
                    jumps.set(j, Some(i));
                    proof {
                        let last = old_stack.len() - 1;
                        assert(old_stack[last] == j);
                        assert(forall|a: int|
                            0 <= a < stack@.len() ==> #[trigger] stack@[a] == old_stack[a]);
                        assert(forall|a: int|
                            0 <= a < stack@.len() ==> #[trigger] old_stack[a] < old_stack[last]);
                        assert forall|p: int|
                            0 <= p < i + 1 && #[trigger] jumps@[p] is Some implies {
                            let q = jumps@[p]->Some_0 as int;
                            &&& 0 <= q < i + 1
                            &&& jumps@[q] == Some(p as usize)
                            &&& (tokens@[p] == Token::JumpIfZero ==> tokens@[q]
                                == Token::JumpIfNonZero && p < q)
                            &&& (tokens@[p] == Token::JumpIfNonZero ==> tokens@[q]
                                == Token::JumpIfZero && q < p)
                        } by {
                            if p == i as int || p == j as int {
                            } else {
                                assert(old_jumps[p] is Some);
                                let q = old_jumps[p]->Some_0 as int;
                                assert(q != i as int && q != j as int);
                            }
                        }
                        assert forall|p: int|
                            0 <= p < i + 1 && tokens@[p] == Token::JumpIfZero && #[trigger] jumps@[p]
                                is None implies stack@.contains(p as usize) by {
                            assert(p != i as int && p != j as int);
                            assert(old_jumps[p] is None);
                            assert(old_stack.contains(p as usize));
                            let a = choose|a: int|
                                0 <= a < old_stack.len() && old_stack[a] == p as usize;
                            assert(a != last);
                            assert(stack@[a] == p as usize);
                        }
                    }
                },
                None => {
                    proof {
                        if balanced(tokens@) {
                            assert(close_count(tokens@.subrange(0, i + 1)) <= open_count(
                                tokens@.subrange(0, i + 1),
                            ));
                        }
                    }
                    return Err(BfError::UnbalancedBrackets);
                },
            }
        }
        i = i + 1;
    }
    if stack.len() > 0 {
        proof {
            assert(tokens@.subrange(0, n as int) =~= tokens@);
        }
        return Err(BfError::UnbalancedBrackets);
    }
    proof {
        assert(tokens@.subrange(0, n as int) =~= tokens@);
    }
    Ok(jumps)
}

} // verus!
