//! Laws of the optimizer and the execution engine, stated over the
//! same specification functions the executable code is proved
//! against.

use vstd::prelude::*;
use vstd::arithmetic::div_mod::lemma_add_mod_noop;
use vstd::arithmetic::div_mod::lemma_mod_equivalence;
use vstd::arithmetic::div_mod::lemma_mod_twice;
use vstd::arithmetic::div_mod::lemma_small_mod;
use crate::balance::is_open;
use crate::optimize::clear_pass;
use crate::optimize::clear_triple_at_front;
use crate::optimize::copies;
use crate::optimize::copy_match;
use crate::optimize::copy_pass;
use crate::optimize::copy_scan;
use crate::optimize::fits_isize;
use crate::optimize::val_of;
use crate::semantics::TAPE_LEN;
use crate::semantics::VmState;
use crate::semantics::lemma_step_wf;
use crate::semantics::run;
use crate::semantics::step_token;
use crate::semantics::wf_state;
use crate::token::Token;
use crate::token::TokenKind;

verus! {

/// The summed delta of a window of position moves.
pub open spec fn pos_sum(s: Seq<Token>, lo: int, hi: int) -> int
    decreases hi - lo,
{
    if lo >= hi {
        0
    } else {
        val_of(s[lo]) + pos_sum(s, lo + 1, hi)
    }
}

/// Every token in the window is a position move.
pub open spec fn all_posmod(s: Seq<Token>, lo: int, hi: int) -> bool {
    forall|k: int| lo <= k < hi ==> (#[trigger] s[k]).kind is PosMod
}

/// Running a window of position moves lands the pointer at the sum
/// of the deltas, modulo the tape length, and changes nothing else.
proof fn lemma_run_posmods(s: Seq<Token>, lo: int, hi: int, st: VmState, fuel: nat)
    requires
        wf_state(st),
        0 <= lo <= hi <= s.len(),
        all_posmod(s, lo, hi),
    ensures
        run(s, lo, hi, st, fuel) == Some(
            VmState { ptr: (st.ptr + pos_sum(s, lo, hi)) % (TAPE_LEN as int), ..st },
        ),
    decreases hi - lo,
{
    let m = TAPE_LEN as int;
    if lo >= hi {
        lemma_small_mod(st.ptr as nat, TAPE_LEN as nat);
        assert(VmState { ptr: st.ptr % m, ..st } == st);
    } else {
        let v = val_of(s[lo]);
        let st2 = step_token(s[lo], st);
        assert(st2 == VmState { ptr: (st.ptr + v) % m, ..st });
        lemma_run_posmods(s, lo + 1, hi, st2, fuel);
        let rest = pos_sum(s, lo + 1, hi);
        // ((p + v) % m + rest) % m == (p + v + rest) % m
        lemma_add_mod_noop((st.ptr + v) % m, rest, m);
        lemma_mod_twice(st.ptr + v, m);
        lemma_add_mod_noop(st.ptr + v, rest, m);
        assert((st2.ptr + rest) % m == (st.ptr + pos_sum(s, lo, hi)) % m);
    }
}

/// Law: pointer arithmetic wraps.  A stream of position moves whose
/// deltas sum to any multiple of the tape length (30000, forward or
/// backward) returns the machine to exactly the state it started in.
pub proof fn lemma_pointer_wrap_roundtrip(s: Seq<Token>, st: VmState, fuel: nat)
    requires
        wf_state(st),
        all_posmod(s, 0, s.len() as int),
        pos_sum(s, 0, s.len() as int) % (TAPE_LEN as int) == 0,
    ensures
        run(s, 0, s.len() as int, st, fuel) == Some(st),
{
    let m = TAPE_LEN as int;
    let total = pos_sum(s, 0, s.len() as int);
    lemma_run_posmods(s, 0, s.len() as int, st, fuel);
    lemma_add_mod_noop(st.ptr, total, m);
    lemma_small_mod(st.ptr as nat, TAPE_LEN as nat);
    lemma_mod_twice(st.ptr, m);
    assert((st.ptr + total) % m == st.ptr);
    assert(VmState { ptr: (st.ptr + total) % m, ..st } == st);
}

/// One merged token has the same effect as the two tokens it stands
/// for.
proof fn lemma_merge_sound(a: Token, b: Token, st: VmState)
    requires
        wf_state(st),
        crate::optimize::can_merge(a, b),
    ensures
        step_token(crate::optimize::merge2(a, b), st) == step_token(b, step_token(a, st)),
{
    let va = val_of(a);
    let vb = val_of(b);
    let p = st.ptr;
    if a.kind is ValMod {
        let c = st.tape[p];
        let t1 = st.tape.update(p, crate::semantics::wrap_cell(c, va));
        assert(t1[p] == crate::semantics::wrap_cell(c, va));
        lemma_add_mod_noop(c + va, vb, 256);
        lemma_mod_twice(c + va, 256);
        lemma_add_mod_noop((c + va) % 256, vb, 256);
        assert(crate::semantics::wrap_cell(crate::semantics::wrap_cell(c, va), vb)
            == crate::semantics::wrap_cell(c, va + vb));
        assert(t1.update(p, crate::semantics::wrap_cell(c, va + vb)) =~= st.tape.update(
            p,
            crate::semantics::wrap_cell(c, va + vb),
        ));
    } else {
        let m = TAPE_LEN as int;
        lemma_add_mod_noop(p + va, vb, m);
        lemma_mod_twice(p + va, m);
        lemma_add_mod_noop((p + va) % m, vb, m);
        assert(((p + va) % m + vb) % m == (p + (va + vb)) % m);
    }
}

/// Coalescing never merges across a token outside the two
/// coalescable classes: such a token splits the stream into halves
/// that coalesce independently.
proof fn lemma_coalesce_barrier(a: Seq<Token>, x: Token, b: Seq<Token>)
    requires
        !(x.kind is ValMod),
        !(x.kind is PosMod),
    ensures
        crate::optimize::coalesce(a + seq![x] + b) == crate::optimize::coalesce(a) + seq![x]
            + crate::optimize::coalesce(b),
    decreases a.len(),
{
    let s = a + seq![x] + b;
    if a.len() == 0 {
        assert(s =~= seq![x] + b);
        assert(s[0] == x);
        assert(s.skip(1) =~= b);
        assert(crate::optimize::coalesce(s) =~= crate::optimize::coalesce(a) + seq![x]
            + crate::optimize::coalesce(b));
    } else {
        assert(s[0] == a[0]);
        assert(s.skip(1) =~= a.skip(1) + seq![x] + b);
        lemma_coalesce_barrier(a.skip(1), x, b);
        let resta = crate::optimize::coalesce(a.skip(1));
        let rest = crate::optimize::coalesce(s.skip(1));
        assert(rest == resta + seq![x] + crate::optimize::coalesce(b));
        if resta.len() == 0 {
            assert(a.skip(1).len() == 0) by {
                if a.skip(1).len() > 0 {
                    assert(resta.len() > 0);
                }
            }
            assert(rest[0] == x);
            assert(crate::optimize::coalesce(a) =~= seq![a[0]]);
            assert(crate::optimize::coalesce(s) =~= crate::optimize::coalesce(a) + seq![x]
                + crate::optimize::coalesce(b));
        } else {
            assert(rest[0] == resta[0]);
            if crate::optimize::can_merge(a[0], resta[0]) {
                let m2 = crate::optimize::merge2(a[0], resta[0]);
                assert(rest.skip(1) =~= resta.skip(1) + seq![x] + crate::optimize::coalesce(b));
                assert(crate::optimize::coalesce(a) == seq![m2] + resta.skip(1));
                assert(crate::optimize::coalesce(s) =~= crate::optimize::coalesce(a) + seq![x]
                    + crate::optimize::coalesce(b));
            } else {
                assert(crate::optimize::coalesce(a) == seq![a[0]] + resta);
                assert(crate::optimize::coalesce(s) =~= crate::optimize::coalesce(a) + seq![x]
                    + crate::optimize::coalesce(b));
            }
        }
    }
}

/// Law: run coalescing preserves semantics.  On any well-nested
/// stream, from any well-formed state, the coalesced stream runs to
/// exactly the same outcome as the stream it came from: same tape,
/// same pointer, same input consumed, same output, and the same
/// verdict when the fuel runs out.  Coalescing also keeps the stream
/// well-nested.
#[verifier::rlimit(100)]
pub proof fn lemma_coalesce_preserves_semantics(t: Seq<Token>, st: VmState, fuel: nat)
    requires
        wf_state(st),
        crate::balance::balanced(t),
    ensures
        crate::balance::balanced(crate::optimize::coalesce(t)),
        run(
            crate::optimize::coalesce(t),
            0,
            crate::optimize::coalesce(t).len() as int,
            st,
            fuel,
        ) == run(t, 0, t.len() as int, st, fuel),
    decreases fuel, t.len(), 1int,
{
    let u = crate::optimize::coalesce(t);
    let n = t.len() as int;
    if t.len() == 0 {
        assert(crate::balance::bal(u, 0, 0) == 0);
    } else if is_open(t[0]) {
        let ct = crate::balance::lemma_open_has_match(t, 0, n);
        let body = t.subrange(1, ct);
        let rest = t.subrange(ct + 1, n);
        crate::balance::lemma_balanced_sub(t, 1, ct);
        crate::balance::lemma_balanced_sub(t, ct + 1, n);
        assert(t.skip(1) =~= body + seq![t[ct]] + rest);
        assert(u =~= seq![t[0]] + crate::optimize::coalesce(t.skip(1)));
        lemma_coalesce_barrier(body, t[ct], rest);
        let cb = crate::optimize::coalesce(body);
        let cr = crate::optimize::coalesce(rest);
        assert(u =~= seq![t[0]] + cb + seq![t[ct]] + cr);
        // The two halves stay balanced.
        lemma_coalesce_preserves_semantics(body, st, fuel);
        lemma_coalesce_preserves_semantics(rest, st, fuel);
        crate::balance::lemma_balanced_loop_assemble(t[0], cb, t[ct], cr);
        let cu = 1 + cb.len() as int;
        assert(crate::balance::balanced(u));
        assert(crate::balance::match_of(u, 0) == Some(cu));
        assert(u[0] == t[0]);
        assert(u.subrange(1, cu) =~= cb);
        assert(u[cu] == t[ct]);
        lemma_coalesce_loop(body, t, ct, u, cu, st, fuel);
        match crate::semantics::run_loop(t, 0, ct, st, fuel) {
            Some(st2) => {
                crate::semantics::lemma_run_loop_wf(t, 0, ct, st, fuel);
                lemma_coalesce_preserves_semantics(rest, st2, fuel);
                crate::semantics::lemma_run_sub(t, ct + 1, n, st2, fuel);
                crate::semantics::lemma_run_sub(u, cu + 1, u.len() as int, st2, fuel);
                assert(u.subrange(cu + 1, u.len() as int) =~= cr);
                assert(run(u, 0, u.len() as int, st, fuel) == run(t, 0, n, st, fuel));
            },
            None => {
                assert(run(u, 0, u.len() as int, st, fuel) == run(t, 0, n, st, fuel));
            },
        }
    } else if crate::balance::is_close(t[0]) {
        assert(crate::balance::bal(t, 0, 0) == 0);
        assert(crate::balance::bal(t, 0, 1) == -1);
        assert(false);
    } else {
        crate::balance::lemma_balanced_shrink_front(t, 0, n);
        crate::balance::lemma_balanced_sub(t, 1, n);
        assert(t.subrange(1, n) =~= t.skip(1));
        let st1 = step_token(t[0], st);
        lemma_step_wf(t[0], st);
        lemma_coalesce_preserves_semantics(t.skip(1), st1, fuel);
        let ctail = crate::optimize::coalesce(t.skip(1));
        crate::semantics::lemma_run_sub(t, 1, n, st1, fuel);
        if ctail.len() > 0 && crate::optimize::can_merge(t[0], ctail[0]) {
            let h = ctail[0];
            let m2 = crate::optimize::merge2(t[0], h);
            assert(u == seq![m2] + ctail.skip(1));
            assert(crate::balance::depth_change(h) == 0);
            assert(crate::balance::depth_change(m2) == 0);
            crate::balance::lemma_balanced_shrink_front(ctail, 0, ctail.len() as int);
            crate::balance::lemma_balanced_sub(ctail, 1, ctail.len() as int);
            assert(ctail.subrange(1, ctail.len() as int) =~= ctail.skip(1));
            crate::balance::lemma_balanced_cons(m2, ctail.skip(1));
            assert(crate::balance::balanced(u));
            lemma_merge_sound(t[0], h, st);
            lemma_step_wf(h, st1);
            // the coalesced stream takes one merged step where the
            // uncoalesced stream takes two
            assert(u[0] == m2);
            assert(u.subrange(1, u.len() as int) =~= ctail.skip(1));
            crate::semantics::lemma_run_sub(u, 1, u.len() as int, step_token(m2, st), fuel);
            assert(ctail[0] == h);
            assert(ctail.subrange(1, ctail.len() as int) =~= ctail.skip(1));
            crate::semantics::lemma_run_sub(ctail, 1, ctail.len() as int, step_token(h, st1), fuel);
            assert(step_token(h, st1) == step_token(m2, st));
            assert(run(u, 0, u.len() as int, st, fuel) == run(t, 0, n, st, fuel));
        } else {
            assert(u == seq![t[0]] + ctail);
            assert(crate::balance::depth_change(t[0]) == 0);
            crate::balance::lemma_balanced_cons(t[0], ctail);
            assert(u[0] == t[0]);
            assert(u.subrange(1, u.len() as int) =~= ctail);
            crate::semantics::lemma_run_sub(u, 1, u.len() as int, st1, fuel);
            assert(run(u, 0, u.len() as int, st, fuel) == run(t, 0, n, st, fuel));
        }
    }
}

/// Iterating a loop is blind to the coalescing of its body.
proof fn lemma_coalesce_loop(
    body: Seq<Token>,
    t: Seq<Token>,
    ct: int,
    u: Seq<Token>,
    cu: int,
    st: VmState,
    fuel: nat,
)
    requires
        wf_state(st),
        crate::balance::balanced(body),
        body == t.subrange(1, ct),
        crate::optimize::coalesce(body) == u.subrange(1, cu),
        0 < ct < t.len(),
        0 < cu < u.len(),
        ct == 1 + body.len(),
        cu == 1 + crate::optimize::coalesce(body).len(),
    ensures
        crate::semantics::run_loop(t, 0, ct, st, fuel) == crate::semantics::run_loop(
            u,
            0,
            cu,
            st,
            fuel,
        ),
    decreases fuel, body.len() + 2, 0int,
{
    if st.tape[st.ptr] != 0 && fuel > 0 && 0 <= st.ptr < st.tape.len() {
        crate::semantics::lemma_run_sub(t, 1, ct, st, fuel);
        crate::semantics::lemma_run_sub(u, 1, cu, st, fuel);
        lemma_coalesce_preserves_semantics(body, st, fuel);
        match run(t, 1, ct, st, fuel) {
            Some(st2) => {
                crate::semantics::lemma_run_wf(t, 1, ct, st, fuel);
                lemma_coalesce_loop(body, t, ct, u, cu, st2, (fuel - 1) as nat);
            },
            None => {},
        }
    }
}

/// No zero-clear triple stands anywhere in the stream.
pub open spec fn clear_triple_free(t: Seq<Token>) -> bool {
    forall|k: int| 0 <= k <= t.len() ==> !clear_triple_at_front(#[trigger] t.skip(k))
}

/// The zero-clear pass leaves no triple behind.
proof fn lemma_clear_pass_triple_free(s: Seq<Token>)
    ensures
        clear_triple_free(clear_pass(s)),
    decreases s.len(),
{
    let t = clear_pass(s);
    if clear_triple_at_front(s) {
        lemma_clear_pass_triple_free(s.skip(3));
        let x = clear_pass(s.skip(3));
        assert forall|k: int| 0 <= k <= t.len() implies !clear_triple_at_front(
            #[trigger] t.skip(k),
        ) by {
            if k == 0 {
                assert(t.skip(0) =~= t);
                assert(t[0].kind == TokenKind::Clear);
            } else {
                assert(t.skip(k) =~= x.skip(k - 1));
            }
        }
    } else if s.len() == 0 {
        assert forall|k: int| 0 <= k <= t.len() implies !clear_triple_at_front(
            #[trigger] t.skip(k),
        ) by {
            assert(t.skip(k).len() == 0);
        }
    } else {
        lemma_clear_pass_triple_free(s.skip(1));
        let x = clear_pass(s.skip(1));
        assert forall|k: int| 0 <= k <= t.len() implies !clear_triple_at_front(
            #[trigger] t.skip(k),
        ) by {
            if k == 0 {
                assert(t.skip(0) =~= t);
                if t.len() >= 3 && t[0].kind == TokenKind::Bracket(
                    crate::token::BracketState::Open,
                ) {
                    // t = s[0] :: x; examine the front of x.
                    assert(t[1] == x[0] && t[2] == x[1]);
                    if clear_triple_at_front(s.skip(1)) {
                        assert(x[0].kind == TokenKind::Clear);
                    } else {
                        assert(s.skip(1).len() > 0);
                        assert(x[0] == s[1]);
                        if x[0].kind == TokenKind::ValMod(-1isize) {
                            // the whole-stream front was no triple, so
                            // either the stream ends or s[2] is no close
                            assert(s.len() >= 2);
                            if s.len() == 2 {
                                assert(s.skip(1).skip(1).len() == 0);
                                assert(clear_pass(s.skip(1).skip(1)).len() == 0);
                                assert(x.len() == 1);
                                assert(t.len() == 2);
                            } else {
                                assert(s[2].kind != TokenKind::Bracket(
                                    crate::token::BracketState::Closed,
                                ));
                                assert(s.skip(1).skip(1) =~= s.skip(2));
                                let y = clear_pass(s.skip(2));
                                assert(x[1] == y[0]);
                                if clear_triple_at_front(s.skip(2)) {
                                    assert(y[0].kind == TokenKind::Clear);
                                } else {
                                    assert(s.skip(2).len() > 0);
                                    assert(y[0] == s[2]);
                                }
                            }
                        }
                    }
                }
            } else {
                assert(t.skip(k) =~= x.skip(k - 1));
            }
        }
    }
}

/// A stream with no triple passes through the zero-clear pass
/// unchanged.
proof fn lemma_clear_pass_fixed(t: Seq<Token>)
    requires
        clear_triple_free(t),
    ensures
        clear_pass(t) == t,
    decreases t.len(),
{
    if t.len() > 0 {
        assert(t.skip(0) =~= t);
        assert(!clear_triple_at_front(t));
        assert forall|k: int| 0 <= k <= t.skip(1).len() implies !clear_triple_at_front(
            #[trigger] t.skip(1).skip(k),
        ) by {
            assert(t.skip(1).skip(k) =~= t.skip(k + 1));
        }
        lemma_clear_pass_fixed(t.skip(1));
        assert(clear_pass(t) =~= t);
    }
}

/// Law: the zero-clear pass is idempotent.  Reapplying it to its own
/// output is a no-op.
pub proof fn lemma_zero_clear_idempotent(s: Seq<Token>)
    ensures
        clear_pass(clear_pass(s)) == clear_pass(s),
{
    lemma_clear_pass_triple_free(s);
    lemma_clear_pass_fixed(clear_pass(s));
}

/// A single-target copy loop (`[` `-` `>`..`+` `<`.. `]` after
/// coalescing) moves one unit per iteration, ending exactly at the
/// state where the target took the source's value and the source is
/// zeroed.
proof fn lemma_copy_loop_drains(s: Seq<Token>, d: isize, st: VmState, fuel: nat)
    requires
        wf_state(st),
        s.len() >= 6,
        s[0].kind == TokenKind::Bracket(crate::token::BracketState::Open),
        s[1].kind == TokenKind::ValMod(-1isize),
        s[2].kind == TokenKind::PosMod(d),
        s[3].kind == TokenKind::ValMod(1isize),
        s[4].kind == TokenKind::PosMod((0 - d as int) as isize),
        s[5].kind == TokenKind::Bracket(crate::token::BracketState::Closed),
        fits_isize(0 - d as int),
        (d as int) % (TAPE_LEN as int) != 0,
        fuel >= st.tape[st.ptr],
    ensures
        crate::semantics::run_loop(s, 0, 5, st, fuel) == Some(
            VmState {
                tape: st.tape.update(
                    crate::semantics::wrap_ptr(st.ptr, d as int),
                    crate::semantics::wrap_cell(
                        st.tape[crate::semantics::wrap_ptr(st.ptr, d as int)],
                        st.tape[st.ptr] as int,
                    ),
                ).update(st.ptr, 0u8),
                ..st
            },
        ),
    decreases st.tape[st.ptr],
{
    let m = TAPE_LEN as int;
    let p = st.ptr;
    let c = st.tape[p];
    let q = crate::semantics::wrap_ptr(p, d as int);
    assert(0 <= q < m);
    assert(q != p) by {
        lemma_mod_equivalence(p + d, p, m);
        lemma_small_mod(p as nat, TAPE_LEN as nat);
        if q == p {
            assert((p + d - p) % m == 0);
        }
    }
    let tq = st.tape[q];
    if c == 0 {
        assert(crate::semantics::wrap_cell(tq, 0) == tq);
        assert(st.tape.update(q, tq).update(p, 0u8) =~= st.tape);
        assert(VmState { tape: st.tape.update(q, tq).update(p, 0u8), ..st } == st);
    } else {
        // one iteration of the body: decrement, move, increment,
        // move back
        let st1 = step_token(s[1], st);
        assert(st1.tape[p] == c - 1);
        assert(st1.tape[q] == tq);
        let st2 = step_token(s[2], st1);
        assert(st2.ptr == q);
        let st3 = step_token(s[3], st2);
        assert(st3.tape[q] == crate::semantics::wrap_cell(tq, 1));
        assert(st3.tape[p] == c - 1);
        let st4 = step_token(s[4], st3);
        assert(st4.ptr == p) by {
            lemma_add_mod_noop(p + d, 0 - d as int, m);
            lemma_mod_twice(p + d, m);
            lemma_add_mod_noop((p + d) % m, 0 - d as int, m);
            lemma_small_mod(p as nat, TAPE_LEN as nat);
        }
        assert(run(s, 5, 5, st4, fuel) == Some(st4));
        assert(run(s, 4, 5, st3, fuel) == Some(st4));
        assert(run(s, 3, 5, st2, fuel) == Some(st4));
        assert(run(s, 2, 5, st1, fuel) == Some(st4));
        assert(run(s, 1, 5, st, fuel) == Some(st4));
        assert(wf_state(st4));
        assert(st4.tape[p] == c - 1);
        assert(st4.tape[q] == crate::semantics::wrap_cell(tq, 1));
        lemma_copy_loop_drains(s, d, st4, (fuel - 1) as nat);
        // fold the per-iteration increment into one addition
        assert(crate::semantics::wrap_cell(crate::semantics::wrap_cell(tq, 1), c - 1)
            == crate::semantics::wrap_cell(tq, c as int)) by {
            lemma_add_mod_noop(tq + 1, c - 1, 256);
            lemma_mod_twice(tq + 1, 256);
            lemma_add_mod_noop((tq + 1) % 256, c - 1, 256);
        }
        assert(st4.tape.update(q, crate::semantics::wrap_cell(tq, c as int)).update(p, 0u8)
            =~= st.tape.update(q, crate::semantics::wrap_cell(tq, c as int)).update(p, 0u8));
    }
}

/// The multiply/copy rewrite is sound for its single-target
/// fragment: the loop `[` `-` `>`.. `+` `<`.. `]` (one increment, a
/// target offset that does not wrap onto the source cell, fuel
/// covering the source cell's value) runs to exactly the state that
/// `Copy` then `Clear` produce.  A target offset that is a multiple
/// of the tape length falls back onto the source cell: there the
/// loop never terminates while the rewrite does, so such offsets
/// are excluded.
pub proof fn lemma_copy_idiom_sound(
    s: Seq<Token>,
    d: isize,
    cp: Token,
    cl: Token,
    st: VmState,
    fuel: nat,
)
    requires
        wf_state(st),
        s.len() == 6,
        s[0].kind == TokenKind::Bracket(crate::token::BracketState::Open),
        s[1].kind == TokenKind::ValMod(-1isize),
        s[2].kind == TokenKind::PosMod(d),
        s[3].kind == TokenKind::ValMod(1isize),
        s[4].kind == TokenKind::PosMod((0 - d as int) as isize),
        s[5].kind == TokenKind::Bracket(crate::token::BracketState::Closed),
        fits_isize(0 - d as int),
        (d as int) % (TAPE_LEN as int) != 0,
        cp.kind == TokenKind::Copy(d),
        cl.kind == TokenKind::Clear,
        fuel >= st.tape[st.ptr],
    ensures
        run(s, 0, 6, st, fuel) == Some(step_token(cl, step_token(cp, st))),
{
    assert(crate::balance::match_of(s, 0) == Some(5int)) by {
        assert(crate::balance::find_close(s, 1, 1) == crate::balance::find_close(s, 2, 1));
        assert(crate::balance::find_close(s, 2, 1) == crate::balance::find_close(s, 3, 1));
        assert(crate::balance::find_close(s, 3, 1) == crate::balance::find_close(s, 4, 1));
        assert(crate::balance::find_close(s, 4, 1) == crate::balance::find_close(s, 5, 1));
        assert(crate::balance::find_close(s, 5, 1) == Some(5int));
    }
    lemma_copy_loop_drains(s, d, st, fuel);
    let q = crate::semantics::wrap_ptr(st.ptr, d as int);
    let done = VmState {
        tape: st.tape.update(
            q,
            crate::semantics::wrap_cell(st.tape[q], st.tape[st.ptr] as int),
        ).update(st.ptr, 0u8),
        ..st
    };
    assert(run(s, 6, 6, done, fuel) == Some(done));
    assert(step_token(cl, step_token(cp, st)) == done) by {
        let mid = step_token(cp, st);
        assert(mid.tape == st.tape.update(
            q,
            crate::semantics::wrap_cell(st.tape[q], st.tape[st.ptr] as int),
        ));
        assert(mid.ptr == st.ptr);
    }
}

/// A decrement-only loop drains the current cell by one per
/// iteration, ending exactly at the state with that cell zeroed.
proof fn lemma_drain_loop(s: Seq<Token>, st: VmState, fuel: nat)
    requires
        wf_state(st),
        s.len() >= 3,
        clear_triple_at_front(s),
        fuel >= st.tape[st.ptr],
    ensures
        crate::semantics::run_loop(s, 0, 2, st, fuel) == Some(
            VmState { tape: st.tape.update(st.ptr, 0u8), ..st },
        ),
    decreases st.tape[st.ptr],
{
    let p = st.ptr;
    let c = st.tape[p];
    if c == 0 {
        assert(st.tape.update(p, 0u8) =~= st.tape);
        assert(VmState { tape: st.tape.update(p, 0u8), ..st } == st);
    } else {
        let st2 = step_token(s[1], st);
        assert(run(s, 2, 2, st2, fuel) == Some(st2));
        assert(run(s, 1, 2, st, fuel) == Some(st2));
        assert(st2.tape[p] == crate::semantics::wrap_cell(c, -1));
        assert(crate::semantics::wrap_cell(c, -1) == c - 1);
        lemma_drain_loop(s, st2, (fuel - 1) as nat);
        assert(st2.tape.update(p, 0u8) =~= st.tape.update(p, 0u8));
    }
}

/// The zero-clear rewrite is sound for its fragment: the triple
/// `[` `-` `]`, run from any well-formed state with fuel covering
/// the current cell's value, finishes in exactly the state a single
/// `Clear` produces.  (With less fuel the triple's run reports fuel
/// exhaustion; the rewritten `Clear` costs none.)
pub proof fn lemma_zero_clear_idiom_sound(s: Seq<Token>, t: Token, st: VmState, fuel: nat)
    requires
        wf_state(st),
        s.len() == 3,
        clear_triple_at_front(s),
        t.kind == TokenKind::Clear,
        fuel >= st.tape[st.ptr],
    ensures
        run(s, 0, 3, st, fuel) == Some(step_token(t, st)),
{
    assert(crate::balance::match_of(s, 0) == Some(2int)) by {
        assert(!crate::balance::is_close(s[1]) && !crate::balance::is_open(s[1]));
        assert(crate::balance::find_close(s, 1, 1) == crate::balance::find_close(s, 2, 1));
        assert(crate::balance::find_close(s, 2, 1) == Some(2int));
    }
    lemma_drain_loop(s, st, fuel);
    let cleared = VmState { tape: st.tape.update(st.ptr, 0u8), ..st };
    assert(run(s, 3, 3, cleared, fuel) == Some(cleared));
    assert(step_token(t, st) == cleared);
}

/// A successful body scan consumes at least the final delta and
/// close, and no more than the stream offers.
proof fn lemma_copy_scan_bounds(t: Seq<Token>, off: int)
    ensures
        match copy_scan(t, off) {
            Some(r) => 2 <= r.0 <= t.len(),
            None => true,
        },
    decreases t.len(),
{
    if t.len() >= 2 && t[0].kind is PosMod {
        lemma_copy_scan_bounds(t.skip(2), off + val_of(t[0]));
    }
}

/// What the multiply/copy pass puts first: an untouched stream keeps
/// its first token; a rewritten loop starts with a `Copy` or a
/// `Clear`.
proof fn lemma_copy_pass_front(t: Seq<Token>)
    requires
        t.len() > 0,
    ensures
        copy_pass(t).len() > 0,
        !is_open(t[0]) ==> copy_pass(t)[0] == t[0],
        copy_pass(t)[0] == t[0] || copy_pass(t)[0].kind is Copy || copy_pass(t)[0].kind
            == TokenKind::Clear,
{
    if is_open(t[0]) {
        match copy_match(t) {
            Some(m) => {
                if 1 <= m.0 <= t.len() {
                    let a = copies(m.1, t[0].code_pos);
                    if m.1.len() > 0 {
                        assert(copy_pass(t)[0] == a[0]);
                        assert(a[0].kind is Copy);
                    } else {
                        assert(m.2);
                        assert(copy_pass(t)[0].kind == TokenKind::Clear);
                    }
                }
            },
            None => {},
        }
    }
}

/// The body scanner sees the same outcome through the multiply/copy
/// pass: everything a successful scan consumes is left verbatim, and
/// a failed scan stays failed, because a rewritten inner loop starts
/// with a token the scanner rejects.
proof fn lemma_copy_scan_pass(t: Seq<Token>, off: int)
    ensures
        copy_scan(copy_pass(t), off) == copy_scan(t, off),
    decreases t.len(),
{
    let u = copy_pass(t);
    if t.len() == 0 {
        assert(u.len() == 0);
    } else if t.len() == 1 {
        lemma_copy_pass_front(t);
        if is_open(t[0]) {
            assert(copy_match(t) is None);
            assert(u =~= seq![t[0]] + copy_pass(t.skip(1)));
        }
        assert(copy_pass(t.skip(1)).len() == 0);
        assert(u.len() == 1);
    } else if !(t[0].kind is PosMod) {
        lemma_copy_pass_front(t);
        assert(!(u[0].kind is PosMod));
    } else {
        // t[0] is a position move and is kept verbatim.
        let t1 = t.skip(1);
        assert(u =~= seq![t[0]] + copy_pass(t1));
        lemma_copy_pass_front(t1);
        assert(u[1] == copy_pass(t1)[0]);
        if !crate::optimize::fits_isize(off + val_of(t[0])) {
        } else {
            let off2 = off + val_of(t[0]);
            if t[1].kind == TokenKind::ValMod(1isize) {
                assert(copy_pass(t1) =~= seq![t[1]] + copy_pass(t1.skip(1)));
                assert(t1.skip(1) =~= t.skip(2));
                assert(u.skip(2) =~= copy_pass(t.skip(2)));
                lemma_copy_scan_pass(t.skip(2), off2);
            } else if t[1].kind == TokenKind::Bracket(crate::token::BracketState::Closed) {
                assert(u[1] == t[1]);
            } else {
                // the scanner rejects whatever stands here, rewritten
                // or not
                if is_open(t[1]) {
                    assert(u[1] == t[1] || u[1].kind is Copy || u[1].kind == TokenKind::Clear);
                    assert(!(u[1].kind == TokenKind::ValMod(1isize)));
                    assert(!(u[1].kind == TokenKind::Bracket(crate::token::BracketState::Closed)));
                } else {
                    assert(u[1] == t[1]);
                }
            }
        }
    }
}

/// The multiply/copy pass walks over a prefix with no opening
/// bracket without touching it.
proof fn lemma_copy_pass_prefix(u: Seq<Token>, x: Seq<Token>)
    requires
        forall|k: int| 0 <= k < u.len() ==> !is_open(#[trigger] u[k]),
    ensures
        copy_pass(u + x) == u + copy_pass(x),
    decreases u.len(),
{
    if u.len() == 0 {
        assert(u + x =~= x);
        assert(u + copy_pass(x) =~= copy_pass(x));
    } else {
        let s = u + x;
        assert(s[0] == u[0]);
        assert(s.skip(1) =~= u.skip(1) + x);
        lemma_copy_pass_prefix(u.skip(1), x);
        assert(copy_pass(s) =~= u + copy_pass(x));
    }
}

/// A whole-loop match sees the same outcome through the multiply/
/// copy pass of everything after the opening bracket.
proof fn lemma_copy_match_pass(a: Token, tail: Seq<Token>)
    ensures
        copy_match(seq![a] + copy_pass(tail)) == copy_match(seq![a] + tail),
{
    let s_in = seq![a] + tail;
    let s_out = seq![a] + copy_pass(tail);
    assert(s_in.skip(1) =~= tail);
    assert(s_out.skip(1) =~= copy_pass(tail));
    let clear_in = tail.len() > 0 && tail[0].kind == TokenKind::ValMod(-1isize);
    if tail.len() > 0 {
        lemma_copy_pass_front(tail);
    }
    let clear_out = copy_pass(tail).len() > 0 && copy_pass(tail)[0].kind == TokenKind::ValMod(
        -1isize,
    );
    assert(clear_in == clear_out);
    if clear_in {
        assert(copy_pass(tail) =~= seq![tail[0]] + copy_pass(tail.skip(1)));
        assert(copy_pass(tail).skip(1) =~= copy_pass(tail.skip(1)));
        lemma_copy_scan_pass(tail.skip(1), 0);
    } else {
        lemma_copy_scan_pass(tail, 0);
    }
}

/// The multiply/copy pass never creates a zero-clear triple: a
/// rewrite leaves at least one `Copy` or `Clear` token where the
/// loop stood, and such a token completes no triple.
proof fn lemma_copy_pass_preserves_triple_free(t: Seq<Token>)
    requires
        clear_triple_free(t),
    ensures
        clear_triple_free(copy_pass(t)),
    decreases t.len(),
{
    let out = copy_pass(t);
    if t.len() == 0 {
        assert forall|k: int| 0 <= k <= out.len() implies !clear_triple_at_front(
            #[trigger] out.skip(k),
        ) by {
            assert(out.skip(k).len() == 0);
        }
    } else if is_open(t[0]) {
        match copy_match(t) {
            Some(m) => {
                lemma_copy_scan_bounds(
                    if t.skip(1).len() > 0 && t.skip(1)[0].kind == TokenKind::ValMod(-1isize) {
                        t.skip(1).skip(1)
                    } else {
                        t.skip(1)
                    },
                    0,
                );
                assert(1 <= m.0 <= t.len());
                let rest = t.skip(m.0);
                let a = copies(m.1, t[0].code_pos) + (if m.2 {
                    seq![Token { kind: TokenKind::Clear, code_pos: t[0].code_pos }]
                } else {
                    Seq::<Token>::empty()
                });
                assert(out =~= a + copy_pass(rest));
                assert forall|k: int| 0 <= k <= rest.len() implies !clear_triple_at_front(
                    #[trigger] rest.skip(k),
                ) by {
                    assert(rest.skip(k) =~= t.skip(m.0 + k));
                }
                lemma_copy_pass_preserves_triple_free(rest);
                let x = copy_pass(rest);
                assert forall|k: int| 0 <= k <= out.len() implies !clear_triple_at_front(
                    #[trigger] out.skip(k),
                ) by {
                    if k < a.len() {
                        assert(out.skip(k)[0] == a[k]);
                        if k < m.1.len() {
                            assert(a[k] == copies(m.1, t[0].code_pos)[k]);
                            assert(a[k].kind is Copy);
                        } else {
                            assert(a[k].kind == TokenKind::Clear);
                        }
                    } else {
                        assert(out.skip(k) =~= x.skip(k - a.len()));
                    }
                }
            },
            None => {
                let tail = t.skip(1);
                assert(out =~= seq![t[0]] + copy_pass(tail));
                assert forall|k: int| 0 <= k <= tail.len() implies !clear_triple_at_front(
                    #[trigger] tail.skip(k),
                ) by {
                    assert(tail.skip(k) =~= t.skip(1 + k));
                }
                lemma_copy_pass_preserves_triple_free(tail);
                let x = copy_pass(tail);
                assert forall|k: int| 0 <= k <= out.len() implies !clear_triple_at_front(
                    #[trigger] out.skip(k),
                ) by {
                    if k == 0 {
                        assert(out.skip(0) =~= out);
                        if out.len() >= 3 {
                            assert(out[1] == x[0] && out[2] == x[1]);
                            assert(tail.len() > 0) by {
                                if tail.len() == 0 {
                                    assert(x.len() == 0);
                                }
                            }
                            lemma_copy_pass_front(tail);
                            if x[0].kind == TokenKind::ValMod(-1isize) {
                                assert(tail[0].kind == TokenKind::ValMod(-1isize));
                                assert(x =~= seq![tail[0]] + copy_pass(tail.skip(1)));
                                assert(x[1] == copy_pass(tail.skip(1))[0]);
                                assert(tail.skip(1).len() > 0) by {
                                    if tail.skip(1).len() == 0 {
                                        assert(copy_pass(tail.skip(1)).len() == 0);
                                    }
                                }
                                lemma_copy_pass_front(tail.skip(1));
                                // the source had no triple here, so the
                                // close cannot follow
                                assert(t.skip(0) =~= t);
                                assert(!clear_triple_at_front(t));
                                assert(t[1] == tail[0] && t[2] == tail.skip(1)[0]);
                                assert(tail.skip(1)[0].kind != TokenKind::Bracket(
                                    crate::token::BracketState::Closed,
                                ));
                            }
                        }
                    } else {
                        assert(out.skip(k) =~= x.skip(k - 1));
                    }
                }
            },
        }
    } else {
        let tail = t.skip(1);
        assert(out =~= seq![t[0]] + copy_pass(tail));
        assert forall|k: int| 0 <= k <= tail.len() implies !clear_triple_at_front(
            #[trigger] tail.skip(k),
        ) by {
            assert(tail.skip(k) =~= t.skip(1 + k));
        }
        lemma_copy_pass_preserves_triple_free(tail);
        let x = copy_pass(tail);
        assert forall|k: int| 0 <= k <= out.len() implies !clear_triple_at_front(
            #[trigger] out.skip(k),
        ) by {
            if k == 0 {
                assert(out.skip(0) =~= out);
                assert(out[0] == t[0]);
            } else {
                assert(out.skip(k) =~= x.skip(k - 1));
            }
        }
    }
}

/// Law: the zero-clear rewriting is complete after the whole
/// optimizer has run.  The optimizer's output — run coalescing, then
/// zero-clear rewriting, then multiply/copy rewriting — contains no
/// zero-clear triple, so reapplying the zero-clear pass to it is a
/// no-op.
pub proof fn lemma_optimizer_zero_clear_stable(s: Seq<Token>)
    ensures
        clear_pass(copy_pass(clear_pass(crate::optimize::coalesce(s)))) == copy_pass(
            clear_pass(crate::optimize::coalesce(s)),
        ),
{
    lemma_clear_pass_triple_free(crate::optimize::coalesce(s));
    lemma_copy_pass_preserves_triple_free(clear_pass(crate::optimize::coalesce(s)));
    lemma_clear_pass_fixed(copy_pass(clear_pass(crate::optimize::coalesce(s))));
}

/// Law: the multiply/copy pass is idempotent.  Reapplying it to its
/// own output is a no-op.
pub proof fn lemma_multiply_copy_idempotent(s: Seq<Token>)
    ensures
        copy_pass(copy_pass(s)) == copy_pass(s),
    decreases s.len(),
{
    if s.len() == 0 {
    } else if is_open(s[0]) {
        match copy_match(s) {
            Some(m) => {
                lemma_copy_scan_bounds(
                    if s.skip(1).len() > 0 && s.skip(1)[0].kind == TokenKind::ValMod(-1isize) {
                        s.skip(1).skip(1)
                    } else {
                        s.skip(1)
                    },
                    0,
                );
                assert(1 <= m.0 <= s.len());
                let rest = s.skip(m.0);
                let a = copies(m.1, s[0].code_pos) + (if m.2 {
                    seq![Token { kind: TokenKind::Clear, code_pos: s[0].code_pos }]
                } else {
                    Seq::<Token>::empty()
                });
                assert(copy_pass(s) =~= a + copy_pass(rest));
                assert forall|k: int| 0 <= k < a.len() implies !is_open(#[trigger] a[k]) by {
                    if k < m.1.len() {
                        assert(a[k] == copies(m.1, s[0].code_pos)[k]);
                        assert(a[k].kind is Copy);
                    } else {
                        assert(a[k].kind == TokenKind::Clear);
                    }
                }
                lemma_copy_pass_prefix(a, copy_pass(rest));
                lemma_multiply_copy_idempotent(rest);
            },
            None => {
                let tail = s.skip(1);
                let out = copy_pass(s);
                assert(out =~= seq![s[0]] + copy_pass(tail));
                lemma_copy_match_pass(s[0], tail);
                assert(seq![s[0]] + tail =~= s);
                assert(copy_match(out) is None);
                assert(out.skip(1) =~= copy_pass(tail));
                lemma_multiply_copy_idempotent(tail);
                assert(copy_pass(out) =~= seq![s[0]] + copy_pass(copy_pass(tail)));
                assert(copy_pass(out) =~= out);
            },
        }
    } else {
        let tail = s.skip(1);
        let out = copy_pass(s);
        assert(out =~= seq![s[0]] + copy_pass(tail));
        lemma_copy_pass_front(s);
        assert(out[0] == s[0]);
        assert(out.skip(1) =~= copy_pass(tail));
        lemma_multiply_copy_idempotent(tail);
        assert(copy_pass(out) =~= seq![s[0]] + copy_pass(copy_pass(tail)));
        assert(copy_pass(out) =~= out);
    }
}

} // verus!
