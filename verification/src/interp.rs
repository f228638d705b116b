//! The interpreted execution engine: a cursor walks the instruction
//! stream against a fixed 30000-cell tape, using the jump table for
//! loop entry and an implicit per-loop recursion in place of the
//! runtime loop stack.
//!
//! Input policy: a read takes the next byte of the supplied input;
//! at end of input it stores zero, matching the native backend's
//! read callback.

use std::collections::HashMap;
use vstd::prelude::*;
use vstd::arithmetic::div_mod::lemma_fundamental_div_mod;
use vstd::arithmetic::div_mod::lemma_mod_bound;
use vstd::arithmetic::div_mod::lemma_mod_multiples_vanish;
use vstd::arithmetic::div_mod::lemma_small_mod;
use crate::balance::balanced;
use crate::balance::balanced_between;
use crate::balance::is_open;
use crate::balance::lemma_balanced_shrink_front;
use crate::balance::lemma_open_has_match;
use crate::balance::match_of;
use crate::error::Error;
use crate::jumps::generate_jumping_map;
use crate::semantics::TAPE_LEN;
use crate::semantics::VmState;
use crate::semantics::init_state;
use crate::semantics::run;
use crate::semantics::run_loop;
use crate::semantics::run_program;
use crate::semantics::step_token;
use crate::semantics::wrap_cell;
use crate::semantics::wrap_ptr;
use crate::token::Token;
use crate::token::TokenKind;

verus! {

broadcast use vstd::std_specs::hash::group_hash_axioms;

/// What a finished run leaves behind: the bytes written, the final
/// tape, and the final pointer.
pub struct RunOutcome {
    pub output: Vec<u8>,
    pub tape: Vec<u8>,
    pub pointer: usize,
}

/// Adds a possibly negative delta to `base` modulo `m`.
#[verifier::loop_isolation(false)]
pub(crate) fn wrap_add(base: usize, d: isize, m: usize) -> (r: usize)
    requires
        0 < m,
        base < m,
        m + m <= usize::MAX,
    ensures
        r < m,
        r as int == (base + d) % (m as int),
{
    proof {
        lemma_mod_bound(base + d, m as int);
    }
    if d >= 0 {
        let dd = (d as usize) % m;
        proof {
            lemma_fundamental_div_mod(d as int, m as int);
            lemma_mod_multiples_vanish((d as int) / (m as int), base + dd, m as int);
            assert((base + d) % (m as int) == (base + dd) % (m as int));
        }
        let s = base + dd;
        if s >= m {
            proof {
                lemma_mod_multiples_vanish(1, s - m, m as int);
                lemma_small_mod((s - m) as nat, m as nat);
            }
            s - m
        } else {
            proof {
                lemma_small_mod(s as nat, m as nat);
            }
            s
        }
    } else {
        // The magnitude of `d`, computed without overflowing at the
        // lower bound of `isize`.
        let mag = ((-(d + 1)) as usize) + 1;
        let dd = mag % m;
        proof {
            assert(mag == -(d as int));
            lemma_fundamental_div_mod(mag as int, m as int);
            let q = (mag as int) / (m as int);
            lemma_mod_multiples_vanish(-q, base - dd, m as int);
            lemma_mod_multiples_vanish(1, base - dd, m as int);
            assert((m as int) * (-q) == -((m as int) * q)) by (nonlinear_arith);
            assert(base + d == (m as int) * (-q) + (base - dd)) by {
                assert(mag as int == (m as int) * q + dd);
                assert((m as int) * (-q) == -((m as int) * q));
            }
            assert(base + m - dd == (m as int) * 1 + (base - dd));
            assert((base + d) % (m as int) == (base + m - dd) % (m as int));
        }
        let s = base + m - dd;
        if s >= m {
            proof {
                lemma_mod_multiples_vanish(1, s - m, m as int);
                lemma_small_mod((s - m) as nat, m as nat);
            }
            s - m
        } else {
            proof {
                lemma_small_mod(s as nat, m as nat);
            }
            s
        }
    }
}

/// The mutable part of a run.
struct Machine {
    tape: Vec<u8>,
    pointer: usize,
    in_pos: usize,
    output: Vec<u8>,
}

/// The abstract state a machine is in, given the full input stream.
spec fn mview(m: Machine, input: Seq<u8>) -> VmState {
    VmState {
        tape: m.tape@,
        ptr: m.pointer as int,
        input: input.skip(m.in_pos as int),
        output: m.output@,
    }
}

spec fn m_wf(m: Machine, input: Seq<u8>) -> bool {
    m.tape@.len() == TAPE_LEN && m.pointer < TAPE_LEN && m.in_pos <= input.len()
}

/// The jump table is sound for the stream: every opening bracket is
/// mapped to its matching close.
pub open spec fn jt_good(s: Seq<Token>, m: Map<usize, usize>) -> bool {
    forall|k: usize|
        k < s.len() && is_open(s[k as int]) ==> #[trigger] m.contains_key(k) && match_of(
            s,
            k as int,
        ) == Some(m[k] as int)
}

/// Runs the window `tokens[lo..hi]`, which must be well-nested, with
/// `fuel` bounding the iterations of each loop.  Returns false
/// exactly when the fuel ran out.
#[verifier::loop_isolation(false)]
fn exec_range(
    tokens: &Vec<Token>,
    jt: &HashMap<usize, usize>,
    lo: usize,
    hi: usize,
    mach: &mut Machine,
    input: &Vec<u8>,
    fuel: u64,
) -> (ok: bool)
    requires
        jt_good(tokens@, jt@),
        lo <= hi <= tokens@.len(),
        balanced_between(tokens@, lo as int, hi as int),
        m_wf(*old(mach), input@),
    ensures
        m_wf(*final(mach), input@),
        match run(tokens@, lo as int, hi as int, mview(*old(mach), input@), fuel as nat) {
            Some(st2) => ok && mview(*final(mach), input@) == st2,
            None => !ok,
        },
    decreases fuel, hi - lo,
{
    let ghost s = tokens@;
    let ghost st0 = mview(*mach, input@);
    let mut i = lo;
    while i < hi
        invariant
            lo <= i <= hi,
            m_wf(*mach, input@),
            balanced_between(s, i as int, hi as int),
            run(s, lo as int, hi as int, st0, fuel as nat) == run(
                s,
                i as int,
                hi as int,
                mview(*mach, input@),
                fuel as nat,
            ),
        decreases hi - i,
    {
        let ghost prev = mview(*mach, input@);
        let t = tokens[i];
        match t.kind {
            TokenKind::Bracket(crate::token::BracketState::Open) => {
                let ghost c_spec = lemma_open_has_match(s, i as int, hi as int);
                let c = match jt.get(&i) {
                    Some(c_ref) => *c_ref,
                    None => {
                        proof {
                            assert(jt@.contains_key(i));
                            assert(false);
                        }
                        return false;
                    },
                };
                proof {
                    assert(jt@[i] == c);
                    assert(c_spec == c as int);
                }
                let ghost entry = mview(*mach, input@);
                let mut g: u64 = fuel;
                while mach.tape[mach.pointer] != 0
                    invariant
                        g <= fuel,
                        m_wf(*mach, input@),
                        run_loop(s, i as int, c as int, entry, fuel as nat) == run_loop(
                            s,
                            i as int,
                            c as int,
                            mview(*mach, input@),
                            g as nat,
                        ),
                    decreases g,
                {
                    let ghost at = mview(*mach, input@);
                    if g == 0 {
                        proof {
                            assert(run_loop(s, i as int, c as int, at, 0nat) is None);
                            assert(run(s, i as int, hi as int, prev, fuel as nat) is None);
                        }
                        return false;
                    }
                    let ok = exec_range(tokens, jt, i + 1, c, mach, input, g);
                    if !ok {
                        proof {
                            assert(run(s, i + 1, c as int, at, g as nat) is None);
                            assert(run_loop(s, i as int, c as int, at, g as nat) is None);
                            assert(run(s, i as int, hi as int, prev, fuel as nat) is None);
                        }
                        return false;
                    }
                    proof {
                        let stb = mview(*mach, input@);
                        assert(run(s, i + 1, c as int, at, g as nat) == Some(stb));
                        assert(run_loop(s, i as int, c as int, at, g as nat) == run_loop(
                            s,
                            i as int,
                            c as int,
                            stb,
                            (g - 1) as nat,
                        ));
                    }
                    g = g - 1;
                }
                proof {
                    let cur = mview(*mach, input@);
                    assert(run_loop(s, i as int, c as int, cur, g as nat) == Some(cur));
                    assert(run_loop(s, i as int, c as int, entry, fuel as nat) == Some(cur));
                    assert(run(s, i as int, hi as int, entry, fuel as nat) == run(
                        s,
                        c + 1,
                        hi as int,
                        cur,
                        fuel as nat,
                    ));
                }
                i = c + 1;
            },
            TokenKind::Bracket(crate::token::BracketState::Closed) => {
                proof {
                    assert(crate::balance::bal(s, i as int, i as int) == 0);
                    assert(crate::balance::bal(s, i as int, i + 1) == -1);
                    assert(false);
                }
                return false;
            },
            TokenKind::ValMod(v) => {
                let cur = mach.tape[mach.pointer];
                let nv = wrap_add(cur as usize, v, 256) as u8;
                mach.tape[mach.pointer] = nv;
                proof {
                    assert(nv == wrap_cell(cur, v as int));
                    assert(mview(*mach, input@) == step_token(t, prev));
                    lemma_balanced_shrink_front(s, i as int, hi as int);
                }
                i = i + 1;
            },
            TokenKind::PosMod(v) => {
                mach.pointer = wrap_add(mach.pointer, v, TAPE_LEN);
                proof {
                    assert(mview(*mach, input@) == step_token(t, prev));
                    lemma_balanced_shrink_front(s, i as int, hi as int);
                }
                i = i + 1;
            },
            TokenKind::Output => {
                let b = mach.tape[mach.pointer];
                mach.output.push(b);
                proof {
                    assert(mview(*mach, input@) == step_token(t, prev));
                    lemma_balanced_shrink_front(s, i as int, hi as int);
                }
                i = i + 1;
            },
            TokenKind::Input => {
                if mach.in_pos < input.len() {
                    let b = input[mach.in_pos];
                    mach.tape[mach.pointer] = b;
                    mach.in_pos = mach.in_pos + 1;
                    proof {
                        assert(prev.input[0] == b);
                        assert(prev.input.skip(1) =~= input@.skip(mach.in_pos as int));
                        assert(mview(*mach, input@) == step_token(t, prev));
                        lemma_balanced_shrink_front(s, i as int, hi as int);
                    }
                } else {
                    mach.tape[mach.pointer] = 0;
                    proof {
                        assert(prev.input.len() == 0);
                        assert(mview(*mach, input@) == step_token(t, prev));
                        lemma_balanced_shrink_front(s, i as int, hi as int);
                    }
                }
                i = i + 1;
            },
            TokenKind::Clear => {
                mach.tape[mach.pointer] = 0;
                proof {
                    assert(mview(*mach, input@) == step_token(t, prev));
                    lemma_balanced_shrink_front(s, i as int, hi as int);
                }
                i = i + 1;
            },
            TokenKind::Copy(v) => {
                let target = wrap_add(mach.pointer, v, TAPE_LEN);
                let a = mach.tape[target];
                let b = mach.tape[mach.pointer];
                let nv = wrap_add(a as usize, b as isize, 256) as u8;
                mach.tape[target] = nv;
                proof {
                    assert(target as int == wrap_ptr(prev.ptr, v as int));
                    assert(nv == wrap_cell(a, b as int));
                    assert(mview(*mach, input@) == step_token(t, prev));
                    lemma_balanced_shrink_front(s, i as int, hi as int);
                }
                i = i + 1;
            },
            TokenKind::Comment => {
                proof {
                    assert(mview(*mach, input@) == step_token(t, prev));
                    lemma_balanced_shrink_front(s, i as int, hi as int);
                }
                i = i + 1;
            },
        }
    }
    true
}

/// A tape of 30000 zeroed cells.
#[verifier::loop_isolation(false)]
fn zeroed_tape() -> (t: Vec<u8>)
    ensures
        t@ == Seq::new(TAPE_LEN as nat, |i: int| 0u8),
{
    let mut t: Vec<u8> = Vec::new();
    let mut k: usize = 0;
    while k < TAPE_LEN
        invariant
            k <= TAPE_LEN,
            t@ == Seq::new(k as nat, |i: int| 0u8),
        decreases TAPE_LEN - k,
    {
        t.push(0);
        proof {
            assert(t@ =~= Seq::new((k + 1) as nat, |i: int| 0u8));
        }
        k = k + 1;
    }
    t
}

/// Runs an instruction stream against a fresh zeroed tape, reading
/// from `input`, with `fuel` bounding the iterations of each loop.
///
/// Fails with the resolver's structural error on an unbalanced
/// stream, before any execution; fails with `OutOfFuel` when the
/// budget does not cover the run.
pub fn interpret_fueled(tokens: &Vec<Token>, input: &Vec<u8>, fuel: u64) -> (r: Result<
    RunOutcome,
    Error,
>)
    ensures
        match r {
            Ok(o) => balanced(tokens@) && match run_program(tokens@, input@, fuel as nat) {
                Some(st) => st.tape == o.tape@ && st.ptr == o.pointer as int && st.output
                    == o.output@,
                None => false,
            },
            Err(e) => match e {
                Error::OutOfFuel => balanced(tokens@) && run_program(
                    tokens@,
                    input@,
                    fuel as nat,
                ) is None,
                Error::UnmatchedOpenBracket | Error::UnmatchedCloseBracket => !balanced(tokens@),
                _ => false,
            },
        },
{
    let jt = match generate_jumping_map(tokens) {
        Ok(jt) => jt,
        Err(e) => {
            return Err(e);
        },
    };
    let mut mach = Machine { tape: zeroed_tape(), pointer: 0, in_pos: 0, output: Vec::new() };
    proof {
        assert(input@.skip(0) =~= input@);
        assert(mview(mach, input@) == init_state(input@));
    }
    let n = tokens.len();
    let ok = exec_range(tokens, &jt, 0, n, &mut mach, input, fuel);
    if ok {
        Ok(RunOutcome { output: mach.output, tape: mach.tape, pointer: mach.pointer })
    } else {
        Err(Error::OutOfFuel)
    }
}

/// Runs an instruction stream to completion, retrying with a doubled
/// loop budget whenever the budget runs out, up to the largest
/// budget the machine can express.  When it returns success, the
/// result is that of the structured semantics under some sufficient
/// fuel; `OutOfFuel` escapes only for programs whose loops iterate
/// beyond that largest budget.
#[verifier::loop_isolation(false)]
pub fn interpret(tokens: &Vec<Token>, input: &Vec<u8>) -> (r: Result<RunOutcome, Error>)
    ensures
        match r {
            Ok(o) => balanced(tokens@) && exists|f: nat|
                match #[trigger] run_program(tokens@, input@, f) {
                    Some(st) => st.tape == o.tape@ && st.ptr == o.pointer as int && st.output
                        == o.output@,
                    None => false,
                },
            Err(e) => match e {
                Error::OutOfFuel => balanced(tokens@) && run_program(
                    tokens@,
                    input@,
                    u64::MAX as nat,
                ) is None,
                Error::UnmatchedOpenBracket | Error::UnmatchedCloseBracket => !balanced(tokens@),
                _ => false,
            },
        },
{
    let mut fuel: u64 = 16;
    loop
        invariant
            fuel >= 1,
        decreases u64::MAX - fuel,
    {
        match interpret_fueled(tokens, input, fuel) {
            Ok(o) => {
                proof {
                    let f0 = fuel as nat;
                    assert(run_program(tokens@, input@, f0) is Some);
                }
                return Ok(o);
            },
            Err(Error::OutOfFuel) => {
                if fuel == u64::MAX {
                    return Err(Error::OutOfFuel);
                }
                fuel = if fuel > u64::MAX / 2 {
                    u64::MAX
                } else {
                    fuel * 2
                };
            },
            Err(e) => {
                return Err(e);
            },
        }
    }
}

} // verus!
