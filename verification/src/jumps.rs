//! The jump resolver: a linear scan with an explicit stack of
//! pending `LoopOpen` indices that produces the loop-pair table used
//! by the interpreter, or the structural error a malformed stream
//! deserves.

use std::collections::HashMap;
use vstd::prelude::*;
use crate::balance::bal;
use crate::balance::balanced;
use crate::balance::balanced_between;
use crate::balance::is_close;
use crate::balance::is_open;
use crate::balance::lemma_bal_split;
use crate::balance::lemma_match_after_balanced;
use crate::balance::match_of;
use crate::balance::no_dip;
use crate::error::Error;
use crate::token::BracketState;
use crate::token::Token;
use crate::token::TokenKind;

verus! {

broadcast use vstd::std_specs::hash::group_hash_axioms;

/// The still-open bracket at stack slot `t` is followed by a
/// balanced segment reaching to the next still-open bracket (or to
/// the scan position for the topmost one).
pub open spec fn seg_ok(s: Seq<Token>, st: Seq<usize>, t: int, j: int) -> bool {
    balanced_between(
        s,
        st[t] + 1,
        if t + 1 < st.len() {
            st[t + 1] as int
        } else {
            j
        },
    )
}

/// Builds the jump table: a map from each `LoopOpen` index to its
/// matching `LoopClose` index.
///
/// Succeeds exactly on balanced streams, mapping every opening
/// bracket.  Fails with `UnmatchedCloseBracket` exactly when some
/// prefix of the stream closes more loops than it opens (the scan's
/// stack runs empty on a `]`), and with `UnmatchedOpenBracket`
/// exactly when no prefix does but brackets remain open at the end
/// of the stream.
pub fn generate_jumping_map(tokens: &Vec<Token>) -> (r: Result<HashMap<usize, usize>, Error>)
    ensures
        match r {
            Ok(m) => {
                &&& balanced(tokens@)
                &&& forall|k: usize|
                    m@.contains_key(k) ==> k < tokens@.len() && is_open(tokens@[k as int])
                        && match_of(tokens@, k as int) == Some(m@[k] as int)
                &&& forall|k: usize|
                    k < tokens@.len() && is_open(tokens@[k as int]) ==> #[trigger] m@.contains_key(
                        k,
                    )
            },
            Err(e) => {
                &&& !balanced(tokens@)
                &&& (e == Error::UnmatchedCloseBracket <==> exists|k: int|
                    0 <= k <= tokens@.len() && bal(tokens@, 0, k) < 0)
                &&& (e == Error::UnmatchedOpenBracket <==> no_dip(
                    tokens@,
                    0,
                    tokens@.len() as int,
                ) && bal(tokens@, 0, tokens@.len() as int) > 0)
                &&& (e == Error::UnmatchedOpenBracket || e == Error::UnmatchedCloseBracket)
            },
        },
{
    let ghost s = tokens@;
    let n = tokens.len();
    let mut map: HashMap<usize, usize> = HashMap::new();
    let mut stack: Vec<usize> = Vec::new();
    let mut j: usize = 0;
    while j < n
        invariant
            n == s.len(),
            s == tokens@,
            j <= n,
            stack@.len() <= j,
            forall|t: int|
                0 <= t < stack@.len() ==> stack@[t] < j && is_open(s[#[trigger] stack@[t] as int]),
            forall|t: int| 0 <= t < stack@.len() - 1 ==> #[trigger] stack@[t] < stack@[t + 1],
            bal(s, 0, j as int) == stack@.len(),
            forall|k: int| 0 <= k <= j ==> #[trigger] bal(s, 0, k) >= 0,
            forall|t: int| 0 <= t < stack@.len() ==> #[trigger] seg_ok(s, stack@, t, j as int),
            forall|k: usize|
                #[trigger] map@.contains_key(k) ==> k < j && is_open(s[k as int]) && match_of(
                    s,
                    k as int,
                ) == Some(map@[k] as int),
            forall|k: usize|
                k < j && is_open(s[k as int]) ==> #[trigger] map@.contains_key(k)
                    || stack@.contains(k),
        decreases n - j,
    {
        let t = tokens[j];
        proof {
            assert(bal(s, 0, j + 1) == bal(s, 0, j as int) + crate::balance::depth_change(
                s[j as int],
            ));
        }
        match t.kind {
            TokenKind::Bracket(BracketState::Open) => {
                let ghost old_stack = stack@;
                stack.push(j);
                proof {
                    assert forall|t2: int| 0 <= t2 < stack@.len() implies #[trigger] seg_ok(
                        s,
                        stack@,
                        t2,
                        j + 1,
                    ) by {
                        if t2 < old_stack.len() {
                            assert(seg_ok(s, old_stack, t2, j as int));
                            assert(stack@[t2] == old_stack[t2]);
                        } else {
                            assert(bal(s, j + 1, j + 1) == 0);
                        }
                    }
                    assert forall|k: usize| k < j + 1 && is_open(s[k as int]) implies #[trigger] map@.contains_key(
                        k,
                    ) || stack@.contains(k) by {
                        if k == j {
                            assert(stack@[stack@.len() - 1] == j);
                        } else if old_stack.contains(k) {
                            let idx = choose|idx: int|
                                0 <= idx < old_stack.len() && old_stack[idx] == k;
                            assert(stack@[idx] == k);
                        }
                    }
                }
            },
            TokenKind::Bracket(BracketState::Closed) => {
                if stack.len() == 0 {
                    proof {
                        assert(bal(s, 0, j + 1) < 0);
                        assert(!balanced(s)) by {
                            assert(!no_dip(s, 0, s.len() as int));
                        }
                    }
                    return Err(Error::UnmatchedCloseBracket);
                }
                let ghost old_stack = stack@;
                let opened = stack.pop().unwrap();
                map.insert(opened, j);
                proof {
                    let top = old_stack.len() - 1;
                    assert(seg_ok(s, old_stack, top, j as int));
                    assert(balanced_between(s, old_stack[top] + 1, j as int));
                    lemma_match_after_balanced(s, old_stack[top] as int, j as int);
                    // The segment behind the new top absorbs the closed loop.
                    assert forall|t2: int| 0 <= t2 < stack@.len() implies #[trigger] seg_ok(
                        s,
                        stack@,
                        t2,
                        j + 1,
                    ) by {
                        assert(stack@ == old_stack.drop_last());
                        assert(stack@[t2] == old_stack[t2]);
                        if t2 < stack@.len() - 1 {
                            assert(seg_ok(s, old_stack, t2, j as int));
                        } else {
                            // new top: its old segment ran to the popped open.
                            let a = old_stack[t2] as int;
                            let b = old_stack[t2 + 1] as int;
                            assert(seg_ok(s, old_stack, t2, j as int));
                            assert(balanced_between(s, a + 1, b));
                            assert(balanced_between(s, b + 1, j as int));
                            assert(bal(s, a + 1, b + 1) == 1) by {
                                lemma_bal_split(s, a + 1, b, b + 1);
                            }
                            assert(bal(s, a + 1, j as int) == 1) by {
                                lemma_bal_split(s, a + 1, b + 1, j as int);
                            }
                            assert(bal(s, a + 1, j + 1) == 0) by {
                                lemma_bal_split(s, a + 1, j as int, j + 1);
                            }
                            assert forall|k: int| a + 1 <= k <= j + 1 implies #[trigger] bal(
                                s,
                                a + 1,
                                k,
                            ) >= 0 by {
                                if k <= b {
                                    assert(bal(s, a + 1, k) >= 0);
                                } else if k <= j {
                                    lemma_bal_split(s, a + 1, b + 1, k);
                                    assert(bal(s, b + 1, k) >= 0);
                                } else {
                                    assert(bal(s, a + 1, j + 1) == 0);
                                }
                            }
                        }
                    }
                    assert forall|k: usize| k < j + 1 && is_open(s[k as int]) implies #[trigger] map@.contains_key(
                        k,
                    ) || stack@.contains(k) by {
                        if k != j && !map@.contains_key(k) && old_stack.contains(k) {
                            let idx = choose|idx: int|
                                0 <= idx < old_stack.len() && old_stack[idx] == k;
                            if idx == old_stack.len() - 1 {
                                assert(k == opened);
                                assert(map@.contains_key(k));
                            } else {
                                assert(stack@[idx] == k);
                            }
                        }
                    }
                }
            },
            _ => {
                proof {
                    if stack@.len() > 0 {
                        let top = stack@.len() - 1;
                        assert(seg_ok(s, stack@, top, j as int));
                        let a = stack@[top] as int;
                        assert(bal(s, a + 1, j + 1) == bal(s, a + 1, j as int)) by {
                            lemma_bal_split(s, a + 1, j as int, j + 1);
                        }
                        assert forall|t2: int| 0 <= t2 < stack@.len() implies #[trigger] seg_ok(
                            s,
                            stack@,
                            t2,
                            j + 1,
                        ) by {
                            if t2 < stack@.len() - 1 {
                                assert(seg_ok(s, stack@, t2, j as int));
                            } else {
                                assert forall|k: int| a + 1 <= k <= j + 1 implies #[trigger] bal(
                                    s,
                                    a + 1,
                                    k,
                                ) >= 0 by {
                                    assert(seg_ok(s, stack@, top, j as int));
                                }
                            }
                        }
                    }
                }
            },
        }
        j = j + 1;
    }
    if stack.len() > 0 {
        proof {
            assert(bal(s, 0, s.len() as int) > 0);
        }
        return Err(Error::UnmatchedOpenBracket);
    }
    proof {
        assert(bal(s, 0, s.len() as int) == 0);
        assert(balanced(s));
    }
    Ok(map)
}

} // verus!
