//! The source emitter: a pure function from an instruction stream to
//! one self-contained textual program in a C-like host language,
//! with a fixed prologue (a zero-initialized 30000-byte array and a
//! pointer at its base) and a fixed epilogue (return success).

use vstd::prelude::*;
use vstd::string::StrSliceExecFns;
use vstd::string::StringExecFns;
use crate::token::BracketState;
use crate::token::Token;
use crate::token::TokenKind;

verus! {

/// The decimal digit character for `n` in 0..9.
pub open spec fn dec_digit(n: int) -> char {
    if n == 0 {
        '0'
    } else if n == 1 {
        '1'
    } else if n == 2 {
        '2'
    } else if n == 3 {
        '3'
    } else if n == 4 {
        '4'
    } else if n == 5 {
        '5'
    } else if n == 6 {
        '6'
    } else if n == 7 {
        '7'
    } else if n == 8 {
        '8'
    } else {
        '9'
    }
}

/// The decimal digits of a non-negative number, most significant
/// first.
pub open spec fn dec_str(n: int) -> Seq<char>
    decreases n,
{
    if n < 10 {
        seq![dec_digit(n)]
    } else {
        dec_str(n / 10).push(dec_digit(n % 10))
    }
}

/// The decimal rendering of an integer, with a leading minus sign
/// when negative.
pub open spec fn int_str(v: int) -> Seq<char> {
    if v < 0 {
        seq!['-'] + dec_str(-v)
    } else {
        dec_str(v)
    }
}

/// The text one token becomes.
pub open spec fn c_fragment(t: Token) -> Seq<char> {
    match t.kind {
        TokenKind::Output => ("putchar(*ptr);")@,
        TokenKind::Input => ("*ptr = getchar();")@,
        TokenKind::Clear => ("*ptr = 0;")@,
        TokenKind::ValMod(v) => ("*ptr += ")@ + int_str(v as int) + (";")@,
        TokenKind::PosMod(v) => ("ptr += ")@ + int_str(v as int) + (";")@,
        TokenKind::Bracket(BracketState::Open) => ("while (*ptr) {")@,
        TokenKind::Bracket(BracketState::Closed) => ("}")@,
        TokenKind::Copy(v) => ("{char *tptr = array;tptr = ptr;tptr+=")@ + int_str(v as int) + (
        ";*tptr += *ptr;}")@,
        TokenKind::Comment => Seq::empty(),
    }
}

/// The concatenated text of a whole stream.
pub open spec fn c_body(s: Seq<Token>) -> Seq<char>
    decreases s.len(),
{
    if s.len() == 0 {
        Seq::empty()
    } else {
        c_fragment(s[0]) + c_body(s.skip(1))
    }
}

/// The full program text: prologue, body, epilogue.
pub open spec fn c_code(s: Seq<Token>) -> Seq<char> {
    ("#include <stdio.h>\nint main(){char array[30000] = {0}; char *ptr = array;")@ + c_body(s) + (
    "return 0;}")@
}

/// One decimal digit as text.
fn digit_str(d: usize) -> (r: &'static str)
    requires
        d < 10,
    ensures
        r@ == seq![dec_digit(d as int)],
{
    let r: &'static str = match d {
        0 => "0",
        1 => "1",
        2 => "2",
        3 => "3",
        4 => "4",
        5 => "5",
        6 => "6",
        7 => "7",
        8 => "8",
        _ => "9",
    };
    proof {
        reveal_strlit("0");
        reveal_strlit("1");
        reveal_strlit("2");
        reveal_strlit("3");
        reveal_strlit("4");
        reveal_strlit("5");
        reveal_strlit("6");
        reveal_strlit("7");
        reveal_strlit("8");
        reveal_strlit("9");
        assert(r@ =~= seq![dec_digit(d as int)]);
    }
    r
}

/// The decimal digits of `n`, most significant first.
fn digits(n: usize) -> (r: String)
    ensures
        r@ == dec_str(n as int),
    decreases n,
{
    if n < 10 {
        String::from_str(digit_str(n))
    } else {
        let mut r = digits(n / 10);
        r.append(digit_str(n % 10));
        proof {
            assert(dec_str((n / 10) as int).push(dec_digit((n % 10) as int)) =~= dec_str(
                (n / 10) as int,
            ) + seq![dec_digit((n % 10) as int)]);
        }
        r
    }
}

/// The decimal rendering of a signed delta.
fn int_string(v: isize) -> (r: String)
    ensures
        r@ == int_str(v as int),
{
    if v < 0 {
        let mag = ((-(v + 1)) as usize) + 1;
        let mut r = String::from_str("-");
        r.append(digits(mag).as_str());
        proof {
            reveal_strlit("-");
            assert(("-")@ =~= seq!['-']);
        }
        r
    } else {
        digits(v as usize)
    }
}

/// Translates an instruction stream to one self-contained textual
/// program.  Deterministic: the same stream yields the same text,
/// here stated exactly by [`c_code`].
#[verifier::loop_isolation(false)]
pub fn c_translate(tokens: Vec<Token>) -> (r: String)
    ensures
        r@ == c_code(tokens@),
{
    let ghost s = tokens@;
    let mut result = String::from_str(
        "#include <stdio.h>\nint main(){char array[30000] = {0}; char *ptr = array;",
    );
    let ghost prologue = result@;
    let n = tokens.len();
    let mut i: usize = 0;
    proof {
        assert(s.skip(0) =~= s);
    }
    while i < n
        invariant
            i <= n,
            n == s.len(),
            prologue + c_body(s) == result@ + c_body(s.skip(i as int)),
        decreases n - i,
    {
        let ghost prev = result@;
        let t = tokens[i];
        proof {
            assert(s.skip(i as int)[0] == s[i as int]);
            assert(s.skip(i as int).skip(1) =~= s.skip(i + 1));
        }
        match t.kind {
            TokenKind::Output => result.append("putchar(*ptr);"),
            TokenKind::Input => result.append("*ptr = getchar();"),
            TokenKind::Clear => result.append("*ptr = 0;"),
            TokenKind::ValMod(v) => {
                result.append("*ptr += ");
                result.append(int_string(v).as_str());
                result.append(";");
            },
            TokenKind::PosMod(v) => {
                result.append("ptr += ");
                result.append(int_string(v).as_str());
                result.append(";");
            },
            TokenKind::Bracket(BracketState::Open) => result.append("while (*ptr) {"),
            TokenKind::Bracket(BracketState::Closed) => result.append("}"),
            TokenKind::Copy(v) => {
                result.append("{char *tptr = array;tptr = ptr;tptr+=");
                result.append(int_string(v).as_str());
                result.append(";*tptr += *ptr;}");
            },
            TokenKind::Comment => {},
        }
        proof {
            assert(result@ =~= prev + c_fragment(s[i as int]));
            assert(result@ + c_body(s.skip(i + 1)) =~= prev + c_body(s.skip(i as int)));
        }
        i = i + 1;
    }
    proof {
        assert(s.skip(n as int) =~= Seq::<Token>::empty());
        assert(result@ + c_body(s.skip(n as int)) =~= result@);
    }
    result.append("return 0;}");
    proof {
        assert(result@ =~= c_code(s));
    }
    result
}

} // verus!
