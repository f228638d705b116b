//! The peephole optimizer: three ordered passes over the instruction
//! stream.
//!
//! 1. Run coalescing: adjacent `ValMod` or adjacent `PosMod` tokens
//!    merge by summing their deltas.
//! 2. Zero-clear idiom: the exact triple `[` `-` `]` becomes `Clear`.
//! 3. Multiply/copy-loop idiom: a loop that decrements the current
//!    cell once and increments other cells once each, returning to
//!    its starting cell, becomes one `Copy` per target plus a
//!    trailing `Clear`.

use vstd::prelude::*;
use crate::token::BracketState;
use crate::token::CodePos;
use crate::token::Token;
use crate::token::TokenKind;

verus! {

/// The delta a `ValMod`, `PosMod` or `Copy` token carries.
pub open spec fn val_of(t: Token) -> int {
    match t.kind {
        TokenKind::ValMod(v) => v as int,
        TokenKind::PosMod(v) => v as int,
        TokenKind::Copy(v) => v as int,
        _ => 0,
    }
}

/// Whether two adjacent tokens belong to the same coalescable run.
pub open spec fn same_class(a: Token, b: Token) -> bool {
    ||| (a.kind is ValMod && b.kind is ValMod)
    ||| (a.kind is PosMod && b.kind is PosMod)
}

pub open spec fn fits_isize(v: int) -> bool {
    isize::MIN <= v <= isize::MAX
}

/// Whether two adjacent tokens merge: same run class, and the summed
/// delta representable.
pub open spec fn can_merge(a: Token, b: Token) -> bool {
    same_class(a, b) && fits_isize(val_of(a) + val_of(b))
}

/// The single token a mergeable pair becomes; it keeps the first
/// token's source position.
pub open spec fn merge2(a: Token, b: Token) -> Token {
    let sum = (val_of(a) + val_of(b)) as isize;
    Token {
        kind: if a.kind is ValMod {
            TokenKind::ValMod(sum)
        } else {
            TokenKind::PosMod(sum)
        },
        code_pos: a.code_pos,
    }
}

/// Run coalescing: each maximal run of same-class `ValMod` (or
/// `PosMod`) tokens becomes one token carrying the run's sum, except
/// that a merge whose sum would not be representable is not taken.
pub open spec fn coalesce(s: Seq<Token>) -> Seq<Token>
    decreases s.len(),
{
    if s.len() == 0 {
        s
    } else {
        let rest = coalesce(s.skip(1));
        if rest.len() > 0 && can_merge(s[0], rest[0]) {
            seq![merge2(s[0], rest[0])] + rest.skip(1)
        } else {
            seq![s[0]] + rest
        }
    }
}

/// The run-coalescing pass (first optimizer pass).
pub fn coalesce_runs(input: Vec<Token>) -> (r: Vec<Token>)
    ensures
        r@ == coalesce(input@),
{
    let n = input.len();
    // `rev` holds the coalescing of the unprocessed suffix, reversed.
    let mut rev: Vec<Token> = Vec::new();
    let mut i = n;
    proof {
        assert(input@.skip(n as int) =~= Seq::<Token>::empty());
        assert(rev@.reverse() =~= coalesce(input@.skip(n as int)));
    }
    while i > 0
        invariant
            i <= n,
            n == input@.len(),
            rev@.reverse() == coalesce(input@.skip(i as int)),
        decreases i,
    {
        let t = input[i - 1];
        let ghost rest = coalesce(input@.skip(i as int));
        proof {
            assert(input@.skip(i - 1)[0] == t);
            assert(input@.skip(i - 1).skip(1) =~= input@.skip(i as int));
        }
        let mergeable = if rev.len() > 0 {
            let head = rev[rev.len() - 1];
            proof {
                assert(head == rev@.reverse()[0]);
            }
            match (t.kind, head.kind) {
                (TokenKind::ValMod(a), TokenKind::ValMod(b)) => a.checked_add(b).is_some(),
                (TokenKind::PosMod(a), TokenKind::PosMod(b)) => a.checked_add(b).is_some(),
                _ => false,
            }
        } else {
            false
        };
        if mergeable {
            let head = rev[rev.len() - 1];
            let sum = match (t.kind, head.kind) {
                (TokenKind::ValMod(a), TokenKind::ValMod(b)) => a + b,
                (TokenKind::PosMod(a), TokenKind::PosMod(b)) => a + b,
                _ => 0,
            };
            let kind = match t.kind {
                TokenKind::ValMod(_) => TokenKind::ValMod(sum),
                _ => TokenKind::PosMod(sum),
            };
            let merged = Token { kind, code_pos: t.code_pos };
            let _ = rev.pop();
            rev.push(merged);
            proof {
                assert(merged == merge2(t, rest[0]));
                assert(rev@.reverse() =~= seq![merge2(t, rest[0])] + rest.skip(1));
            }
        } else {
            rev.push(t);
            proof {
                assert(rev@.reverse() =~= seq![t] + rest);
            }
        }
        i = i - 1;
    }
    // Undo the reversal.
    let m = rev.len();
    let mut out: Vec<Token> = Vec::new();
    let mut j: usize = 0;
    while j < m
        invariant
            j <= m,
            m == rev@.len(),
            out@ == rev@.reverse().take(j as int),
        decreases m - j,
    {
        out.push(rev[m - 1 - j]);
        proof {
            assert(out@ =~= rev@.reverse().take(j + 1));
        }
        j = j + 1;
    }
    proof {
        assert(out@ =~= rev@.reverse());
        assert(input@.skip(0) =~= input@);
    }
    out
}

/// Whether a zero-clear idiom (`[` `-` `]`) stands at the front of
/// the stream.
pub open spec fn clear_triple_at_front(s: Seq<Token>) -> bool {
    &&& s.len() >= 3
    &&& s[0].kind == TokenKind::Bracket(BracketState::Open)
    &&& s[1].kind == TokenKind::ValMod(-1isize)
    &&& s[2].kind == TokenKind::Bracket(BracketState::Closed)
}

/// Zero-clear rewriting: each (leftmost-first) occurrence of the
/// exact triple `[` `-` `]` becomes a single `Clear` carrying the
/// opening bracket's source position.
pub open spec fn clear_pass(s: Seq<Token>) -> Seq<Token>
    decreases s.len(),
{
    if clear_triple_at_front(s) {
        seq![Token { kind: TokenKind::Clear, code_pos: s[0].code_pos }] + clear_pass(s.skip(3))
    } else if s.len() == 0 {
        s
    } else {
        seq![s[0]] + clear_pass(s.skip(1))
    }
}

/// The zero-clear idiom pass (second optimizer pass).
pub fn zero_clear_pass(input: Vec<Token>) -> (r: Vec<Token>)
    ensures
        r@ == clear_pass(input@),
{
    let n = input.len();
    let mut out: Vec<Token> = Vec::new();
    let mut i: usize = 0;
    proof {
        assert(input@.skip(0) =~= input@);
        assert(out@ + clear_pass(input@) =~= clear_pass(input@));
    }
    while i < n
        invariant
            i <= n,
            n == input@.len(),
            clear_pass(input@) == out@ + clear_pass(input@.skip(i as int)),
        decreases n - i,
    {
        let ghost prev = out@;
        let ghost rem = input@.skip(i as int);
        proof {
            assert forall|k: int| 0 <= k < rem.len() implies rem[k] == input@[i + k] by {}
        }
        let is_triple = n - i > 2 && input[i].kind == TokenKind::Bracket(BracketState::Open)
            && input[i + 1].kind == TokenKind::ValMod(-1) && input[i + 2].kind
            == TokenKind::Bracket(BracketState::Closed);
        if is_triple {
            out.push(Token { kind: TokenKind::Clear, code_pos: input[i].code_pos });
            proof {
                assert(clear_triple_at_front(rem));
                assert(rem.skip(3) =~= input@.skip(i + 3));
                assert(out@ + clear_pass(input@.skip(i + 3)) =~= prev + clear_pass(rem));
            }
            i = i + 3;
        } else {
            out.push(input[i]);
            proof {
                assert(!clear_triple_at_front(rem));
                assert(rem.skip(1) =~= input@.skip(i + 1));
                assert(out@ + clear_pass(input@.skip(i + 1)) =~= prev + clear_pass(rem));
            }
            i = i + 1;
        }
    }
    proof {
        assert(input@.skip(n as int) =~= Seq::<Token>::empty());
        assert(out@ + clear_pass(input@.skip(n as int)) =~= out@);
    }
    out
}

/// Scanner for the body of a candidate multiply/copy loop, after the
/// opening bracket and the optional decrement.  It expects an
/// alternation `PosMod(d), ValMod(1), PosMod(d), ValMod(1), ...`
/// ending with a `PosMod(d)` followed by the closing bracket, with
/// the position deltas summing to zero.  On success it yields the
/// number of tokens consumed and the accumulated target offsets, in
/// the order their increments appear; a running sum that would not be
/// representable aborts the match.
pub open spec fn copy_scan(rem: Seq<Token>, off: int) -> Option<(int, Seq<isize>)>
    decreases rem.len(),
{
    if rem.len() < 2 {
        None
    } else if !(rem[0].kind is PosMod) {
        None
    } else if !fits_isize(off + val_of(rem[0])) {
        None
    } else {
        let off2 = off + val_of(rem[0]);
        if rem[1].kind == TokenKind::ValMod(1isize) {
            match copy_scan(rem.skip(2), off2) {
                Some(r) => Some((r.0 + 2, seq![off2 as isize] + r.1)),
                None => None,
            }
        } else if rem[1].kind == TokenKind::Bracket(BracketState::Closed) && off2 == 0 {
            Some((2, Seq::empty()))
        } else {
            None
        }
    }
}

/// Attempted match of a whole multiply/copy loop whose opening
/// bracket stands at the front of `s`: the bracket, an optional
/// single decrement, then the scanned body.  On success it yields the
/// total number of tokens consumed, the target offsets, and whether
/// the decrement was present (which adds a trailing `Clear` to the
/// rewrite).  A loop that would rewrite to nothing at all (no
/// decrement and no increment) is not taken: the rewrite always
/// leaves at least one token.
pub open spec fn copy_match(s: Seq<Token>) -> Option<(int, Seq<isize>, bool)> {
    let t = s.skip(1);
    let clear = t.len() > 0 && t[0].kind == TokenKind::ValMod(-1isize);
    let rem = if clear {
        t.skip(1)
    } else {
        t
    };
    match copy_scan(rem, 0) {
        Some(r) => {
            if clear || r.1.len() > 0 {
                Some(
                    (
                        1 + (if clear {
                            1int
                        } else {
                            0int
                        }) + r.0,
                        r.1,
                        clear,
                    ),
                )
            } else {
                None
            }
        },
        None => None,
    }
}

/// The `Copy` tokens a successful match rewrites to, one per target
/// offset, all carrying the opening bracket's source position.
pub open spec fn copies(offs: Seq<isize>, pos: CodePos) -> Seq<Token> {
    offs.map_values(|o: isize| Token { kind: TokenKind::Copy(o), code_pos: pos })
}

/// Multiply/copy-loop rewriting: each matched loop becomes one `Copy`
/// per target plus, if the loop decrements its own cell, a trailing
/// `Clear`.  A failed match consumes nothing; scanning resumes at the
/// next token.
pub open spec fn copy_pass(s: Seq<Token>) -> Seq<Token>
    decreases s.len(),
{
    if s.len() == 0 {
        s
    } else if s[0].kind == TokenKind::Bracket(BracketState::Open) {
        match copy_match(s) {
            Some(m) => {
                if 1 <= m.0 <= s.len() {
                    copies(m.1, s[0].code_pos) + (if m.2 {
                        seq![Token { kind: TokenKind::Clear, code_pos: s[0].code_pos }]
                    } else {
                        Seq::empty()
                    }) + copy_pass(s.skip(m.0))
                } else {
                    seq![s[0]] + copy_pass(s.skip(1))
                }
            },
            None => seq![s[0]] + copy_pass(s.skip(1)),
        }
    } else {
        seq![s[0]] + copy_pass(s.skip(1))
    }
}

/// Attempts to match a multiply/copy loop whose opening bracket is at
/// index `i`; mirrors [`copy_match`] on the stream's suffix.
fn try_copy_match(input: &Vec<Token>, i: usize) -> (r: (bool, usize, Vec<isize>, bool))
    requires
        i < input@.len(),
        input@[i as int].kind == TokenKind::Bracket(BracketState::Open),
    ensures
        match copy_match(input@.skip(i as int)) {
            Some(m) => r.0 && r.1 == m.0 && r.2@ == m.1 && r.3 == m.2 && 3 <= m.0 <= input@.len()
                - i,
            None => !r.0,
        },
{
    let n = input.len();
    let ghost s = input@.skip(i as int);
    let clear = i + 1 < n && input[i + 1].kind == TokenKind::ValMod(-1);
    let start = if clear {
        i + 2
    } else {
        i + 1
    };
    proof {
        assert(s.skip(1) =~= input@.skip(i + 1));
        if clear {
            assert(s.skip(1).skip(1) =~= input@.skip(i + 2));
        }
    }
    let mut j = start;
    let mut off: isize = 0;
    let mut offsets: Vec<isize> = Vec::new();
    loop
        invariant
            i < n,
            i + 1 <= start <= i + 2,
            start <= j <= n,
            n == input@.len(),
            s == input@.skip(i as int),
            start == if clear {
                i + 2int
            } else {
                i + 1int
            },
            (match copy_scan(input@.skip(start as int), 0) {
                Some(rr) => copy_match(s) == (if clear || rr.1.len() > 0 {
                    Some(
                        (
                            1 + (if clear {
                                1int
                            } else {
                                0int
                            }) + rr.0,
                            rr.1,
                            clear,
                        ),
                    )
                } else {
                    None::<(int, Seq<isize>, bool)>
                }),
                None => copy_match(s) is None,
            }),
            (match copy_scan(input@.skip(j as int), off as int) {
                Some(rr) => copy_scan(input@.skip(start as int), 0) == Some(
                    ((j - start) + rr.0, offsets@ + rr.1),
                ),
                None => copy_scan(input@.skip(start as int), 0) is None,
            }),
        decreases n - j,
    {
        let ghost rem = input@.skip(j as int);
        let ghost off0 = off as int;
        if n - j < 2 {
            proof {
                assert(copy_scan(rem, off0) is None);
            }
            return (false, 0, Vec::new(), false);
        }
        let t0 = input[j];
        proof {
            assert(rem[0] == input@[j as int]);
            assert(rem[1] == input@[j + 1]);
        }
        let d = match t0.kind {
            TokenKind::PosMod(v) => v,
            _ => {
                proof {
                    assert(copy_scan(rem, off0) is None);
                }
                return (false, 0, Vec::new(), false);
            },
        };
        let o2 = match off.checked_add(d) {
            Some(o2) => o2,
            None => {
                proof {
                    assert(!fits_isize(off0 + val_of(rem[0])));
                    assert(copy_scan(rem, off0) is None);
                }
                return (false, 0, Vec::new(), false);
            },
        };
        off = o2;
        let t1 = input[j + 1];
        if t1.kind == TokenKind::ValMod(1) {
            offsets.push(off);
            proof {
                assert(rem.skip(2) =~= input@.skip(j + 2));
                match copy_scan(input@.skip(j + 2), off as int) {
                    Some(rr2) => {
                        assert(copy_scan(rem, off0) == Some(
                            (rr2.0 + 2, seq![off] + rr2.1),
                        ));
                        assert(offsets@ + rr2.1 =~= offsets@.drop_last() + (seq![off] + rr2.1));
                    },
                    None => {
                        assert(copy_scan(rem, off0) is None);
                    },
                }
            }
            j = j + 2;
        } else if t1.kind == TokenKind::Bracket(BracketState::Closed) && off == 0 {
            proof {
                assert(copy_scan(rem, off0) == Some((2int, Seq::<isize>::empty())));
                assert(offsets@ + Seq::<isize>::empty() =~= offsets@);
            }
            if clear || offsets.len() > 0 {
                return (true, j + 2 - i, offsets, clear);
            } else {
                return (false, 0, Vec::new(), false);
            }
        } else {
            proof {
                assert(copy_scan(rem, off0) is None);
            }
            return (false, 0, Vec::new(), false);
        }
    }
}

/// The multiply/copy-loop idiom pass (third optimizer pass).
pub fn multiply_copy_pass(input: Vec<Token>) -> (r: Vec<Token>)
    ensures
        r@ == copy_pass(input@),
{
    let n = input.len();
    let mut out: Vec<Token> = Vec::new();
    let mut i: usize = 0;
    proof {
        assert(input@.skip(0) =~= input@);
        assert(out@ + copy_pass(input@) =~= copy_pass(input@));
    }
    while i < n
        invariant
            i <= n,
            n == input@.len(),
            copy_pass(input@) == out@ + copy_pass(input@.skip(i as int)),
        decreases n - i,
    {
        let ghost prev = out@;
        let ghost rem = input@.skip(i as int);
        proof {
            assert(rem[0] == input@[i as int]);
        }
        if input[i].kind == TokenKind::Bracket(BracketState::Open) {
            let (matched, consumed, offsets, clear) = try_copy_match(&input, i);
            if matched {
                let pos = input[i].code_pos;
                let ghost offs = offsets@;
                let m = offsets.len();
                let mut k: usize = 0;
                proof {
                    assert(copies(offs.take(0), pos) =~= Seq::<Token>::empty());
                    assert(out@ =~= prev + copies(offs.take(0), pos));
                }
                while k < m
                    invariant
                        k <= m,
                        m == offsets@.len(),
                        offsets@ == offs,
                        out@ == prev + copies(offs.take(k as int), pos),
                    decreases m - k,
                {
                    out.push(Token { kind: TokenKind::Copy(offsets[k]), code_pos: pos });
                    proof {
                        assert(out@ =~= prev + copies(offs.take(k + 1), pos));
                    }
                    k = k + 1;
                }
                proof {
                    assert(offs.take(m as int) =~= offs);
                }
                if clear {
                    out.push(Token { kind: TokenKind::Clear, code_pos: pos });
                }
                proof {
                    assert(rem.skip(consumed as int) =~= input@.skip(i + consumed));
                    assert(out@ + copy_pass(input@.skip(i + consumed)) =~= prev + copy_pass(rem));
                }
                i = i + consumed;
            } else {
                out.push(input[i]);
                proof {
                    assert(rem.skip(1) =~= input@.skip(i + 1));
                    assert(out@ + copy_pass(input@.skip(i + 1)) =~= prev + copy_pass(rem));
                }
                i = i + 1;
            }
        } else {
            out.push(input[i]);
            proof {
                assert(rem.skip(1) =~= input@.skip(i + 1));
                assert(out@ + copy_pass(input@.skip(i + 1)) =~= prev + copy_pass(rem));
            }
            i = i + 1;
        }
    }
    proof {
        assert(input@.skip(n as int) =~= Seq::<Token>::empty());
        assert(out@ + copy_pass(input@.skip(n as int)) =~= out@);
    }
    out
}

/// Optimizes the instruction stream: run coalescing, then zero-clear
/// rewriting, then multiply/copy-loop rewriting, in that order.
pub fn optimize(input: Vec<Token>) -> (r: Vec<Token>)
    ensures
        r@ == copy_pass(clear_pass(coalesce(input@))),
{
    let a = coalesce_runs(input);
    let b = zero_clear_pass(a);
    multiply_copy_pass(b)
}

} // verus!
