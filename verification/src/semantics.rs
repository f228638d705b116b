//! The meaning of an instruction stream: a small structured
//! semantics over a machine state with a fixed 30000-cell tape, a
//! wrapping pointer, an input byte stream and an output byte stream.
//!
//! The semantics is fuel-bounded: `fuel` bounds how many times any
//! single loop may iterate, and running out of fuel yields `None`
//! rather than a state.  Every terminating execution is captured by
//! a large enough fuel, and the optimizer-preservation laws hold
//! fuel-for-fuel because only loop iterations consume fuel.

use vstd::prelude::*;
use crate::balance::is_close;
use crate::balance::is_open;
use crate::balance::find_close;
use crate::balance::match_of;
use crate::token::Token;
use crate::token::TokenKind;

verus! {

/// Number of cells on the tape.
pub const TAPE_LEN: usize = 30000;

/// The state of a run: tape contents, pointer, bytes not yet read,
/// bytes written so far.
pub ghost struct VmState {
    pub tape: Seq<u8>,
    pub ptr: int,
    pub input: Seq<u8>,
    pub output: Seq<u8>,
}

/// A state the machine can actually be in.
pub open spec fn wf_state(st: VmState) -> bool {
    st.tape.len() == TAPE_LEN && 0 <= st.ptr < TAPE_LEN
}

/// A cell update wraps modulo 256.
pub open spec fn wrap_cell(c: u8, v: int) -> u8 {
    ((c + v) % 256) as u8
}

/// The pointer wraps modulo the tape length.
pub open spec fn wrap_ptr(p: int, d: int) -> int {
    (p + d) % (TAPE_LEN as int)
}

/// The byte a read delivers and the input that remains; at end of
/// input a read delivers zero and consumes nothing.
pub open spec fn read_byte(input: Seq<u8>) -> (u8, Seq<u8>) {
    if input.len() > 0 {
        (input[0], input.skip(1))
    } else {
        (0u8, input)
    }
}

/// The effect of one straight-line (non-bracket) token.
///
/// Two policies the design leaves open are fixed here: a read at
/// end of input stores zero, and a `Copy` target offset wraps
/// around the tape just as the pointer itself does.
pub open spec fn step_token(t: Token, st: VmState) -> VmState {
    match t.kind {
        TokenKind::ValMod(v) => VmState {
            tape: st.tape.update(st.ptr, wrap_cell(st.tape[st.ptr], v as int)),
            ..st
        },
        TokenKind::PosMod(v) => VmState { ptr: wrap_ptr(st.ptr, v as int), ..st },
        TokenKind::Output => VmState { output: st.output.push(st.tape[st.ptr]), ..st },
        TokenKind::Input => {
            let (b, rest) = read_byte(st.input);
            VmState { tape: st.tape.update(st.ptr, b), input: rest, ..st }
        },
        TokenKind::Clear => VmState { tape: st.tape.update(st.ptr, 0u8), ..st },
        TokenKind::Copy(d) => {
            let target = wrap_ptr(st.ptr, d as int);
            VmState {
                tape: st.tape.update(target, wrap_cell(st.tape[target], st.tape[st.ptr] as int)),
                ..st
            }
        },
        _ => st,
    }
}

/// Runs the window `s[lo..hi]` to completion.  `None` means the run
/// did not finish: a loop ran out of fuel, or the window was not
/// well-nested (an unmatched bracket, which balanced windows never
/// exhibit).
pub open spec fn run(s: Seq<Token>, lo: int, hi: int, st: VmState, fuel: nat) -> Option<VmState>
    decreases fuel, hi - lo, 0int,
{
    if lo >= hi {
        Some(st)
    } else {
        let t = s[lo];
        if is_open(t) {
            match match_of(s, lo) {
                Some(c) => {
                    if lo < c < hi {
                        match run_loop(s, lo, c, st, fuel) {
                            Some(st2) => run(s, c + 1, hi, st2, fuel),
                            None => None,
                        }
                    } else {
                        None
                    }
                },
                None => None,
            }
        } else if is_close(t) {
            None
        } else {
            run(s, lo + 1, hi, step_token(t, st), fuel)
        }
    }
}

/// Iterates the loop whose opening bracket is at `lo` and closing
/// bracket at `c`: while the current cell is non-zero, runs the body
/// once more.  Each iteration costs one fuel.
pub open spec fn run_loop(s: Seq<Token>, lo: int, c: int, st: VmState, fuel: nat) -> Option<
    VmState,
>
    decreases fuel, c - lo, 1int,
{
    if c <= lo {
        None
    } else if !(0 <= st.ptr < st.tape.len()) {
        None
    } else if st.tape[st.ptr] == 0 {
        Some(st)
    } else if fuel == 0 {
        None
    } else {
        match run(s, lo + 1, c, st, fuel) {
            Some(st2) => run_loop(s, lo, c, st2, (fuel - 1) as nat),
            None => None,
        }
    }
}

/// Each straight-line step keeps the machine well-formed.
pub proof fn lemma_step_wf(t: Token, st: VmState)
    requires
        wf_state(st),
    ensures
        wf_state(step_token(t, st)),
{
    let m = TAPE_LEN as int;
    match t.kind {
        TokenKind::PosMod(v) => {
            assert(0 <= (st.ptr + v) % m < m);
        },
        _ => {},
    }
}

/// A finished run leaves the machine well-formed.
pub proof fn lemma_run_wf(s: Seq<Token>, lo: int, hi: int, st: VmState, fuel: nat)
    requires
        wf_state(st),
        0 <= lo <= hi <= s.len(),
    ensures
        match run(s, lo, hi, st, fuel) {
            Some(st2) => wf_state(st2),
            None => true,
        },
    decreases fuel, hi - lo, 1int,
{
    if lo < hi {
        let t = s[lo];
        if is_open(t) {
            match match_of(s, lo) {
                Some(c) => {
                    if lo < c < hi {
                        lemma_run_loop_wf(s, lo, c, st, fuel);
                        match run_loop(s, lo, c, st, fuel) {
                            Some(st2) => {
                                lemma_run_wf(s, c + 1, hi, st2, fuel);
                            },
                            None => {},
                        }
                    }
                },
                None => {},
            }
        } else if is_close(t) {
        } else {
            lemma_step_wf(t, st);
            lemma_run_wf(s, lo + 1, hi, step_token(t, st), fuel);
        }
    }
}

/// Each finished loop leaves the machine well-formed.
pub proof fn lemma_run_loop_wf(s: Seq<Token>, lo: int, c: int, st: VmState, fuel: nat)
    requires
        wf_state(st),
        0 <= lo,
        c < s.len(),
    ensures
        match run_loop(s, lo, c, st, fuel) {
            Some(st2) => wf_state(st2),
            None => true,
        },
    decreases fuel, c - lo, 2int,
{
    if lo < c && st.tape[st.ptr] != 0 && fuel > 0 {
        lemma_run_wf(s, lo + 1, c, st, fuel);
        match run(s, lo + 1, c, st, fuel) {
            Some(st2) => {
                lemma_run_loop_wf(s, lo, c, st2, (fuel - 1) as nat);
            },
            None => {},
        }
    }
}

/// Running a window is the same as running the window cut out as a
/// stream of its own.
pub proof fn lemma_run_sub(s: Seq<Token>, lo: int, hi: int, st: VmState, fuel: nat)
    requires
        0 <= lo <= hi <= s.len(),
    ensures
        run(s, lo, hi, st, fuel) == run(s.subrange(lo, hi), 0, hi - lo, st, fuel),
    decreases fuel, hi - lo, 1int,
{
    let sub = s.subrange(lo, hi);
    if lo < hi {
        let t = s[lo];
        assert(sub[0] == t);
        if is_open(t) {
            crate::balance::lemma_find_close_sub(s, lo, hi, lo + 1, 1);
            match find_close(sub, 1, 1) {
                Some(cp) => {
                    let c = cp + lo;
                    crate::balance::lemma_find_close_at_least(sub, 1, 1);
                    assert(match_of(sub, 0) == Some(cp));
                    assert(match_of(s, lo) == Some(c));
                    lemma_run_loop_sub(s, lo, c, hi, st, fuel);
                    match run_loop(s, lo, c, st, fuel) {
                        Some(st2) => {
                            lemma_run_sub(s, c + 1, hi, st2, fuel);
                            lemma_run_sub(sub, cp + 1, hi - lo, st2, fuel);
                            assert(s.subrange(c + 1, hi) =~= sub.subrange(cp + 1, hi - lo));
                        },
                        None => {},
                    }
                },
                None => {
                    assert(match_of(sub, 0) is None);
                    match match_of(s, lo) {
                        Some(c) => {
                            assert(c >= hi);
                        },
                        None => {},
                    }
                },
            }
        } else if is_close(t) {
        } else {
            lemma_run_sub(s, lo + 1, hi, step_token(t, st), fuel);
            lemma_run_sub(sub, 1, hi - lo, step_token(t, st), fuel);
            assert(s.subrange(lo + 1, hi) =~= sub.subrange(1, hi - lo));
        }
    }
}

/// Iterating a loop inside a window is the same as iterating it in
/// the window cut out as a stream of its own.
proof fn lemma_run_loop_sub(s: Seq<Token>, lo: int, c: int, hi: int, st: VmState, fuel: nat)
    requires
        0 <= lo < c < hi <= s.len(),
    ensures
        run_loop(s, lo, c, st, fuel) == run_loop(s.subrange(lo, hi), 0, c - lo, st, fuel),
    decreases fuel, c - lo, 2int,
{
    let sub = s.subrange(lo, hi);
    if 0 <= st.ptr < st.tape.len() && st.tape[st.ptr] != 0 && fuel > 0 {
        lemma_run_sub(s, lo + 1, c, st, fuel);
        lemma_run_sub(sub, 1, c - lo, st, fuel);
        assert(s.subrange(lo + 1, c) =~= sub.subrange(1, c - lo));
        match run(s, lo + 1, c, st, fuel) {
            Some(st2) => {
                lemma_run_loop_sub(s, lo, c, hi, st2, (fuel - 1) as nat);
            },
            None => {},
        }
    }
}

/// The initial state of a run: a zeroed tape, the pointer at cell
/// zero, the whole input ahead, nothing written.
pub open spec fn init_state(input: Seq<u8>) -> VmState {
    VmState { tape: Seq::new(TAPE_LEN as nat, |i: int| 0u8), ptr: 0, input, output: Seq::empty() }
}

/// One whole-program run.
pub open spec fn run_program(s: Seq<Token>, input: Seq<u8>, fuel: nat) -> Option<VmState> {
    run(s, 0, s.len() as int, init_state(input), fuel)
}

} // verus!
