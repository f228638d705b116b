//! Bracket balance and loop matching, the structural invariant of an
//! instruction stream: every `[` has exactly one matching `]` at
//! equal nesting depth.

use vstd::prelude::*;
use crate::token::BracketState;
use crate::token::Token;
use crate::token::TokenKind;

verus! {

pub open spec fn is_open(t: Token) -> bool {
    t.kind == TokenKind::Bracket(BracketState::Open)
}

pub open spec fn is_close(t: Token) -> bool {
    t.kind == TokenKind::Bracket(BracketState::Closed)
}

/// How one token changes the loop nesting depth.
pub open spec fn depth_change(t: Token) -> int {
    if is_open(t) {
        1
    } else if is_close(t) {
        -1
    } else {
        0
    }
}

/// Opening minus closing brackets in `s[lo..hi]`.
pub open spec fn bal(s: Seq<Token>, lo: int, hi: int) -> int
    decreases hi - lo,
{
    if lo >= hi {
        0
    } else {
        bal(s, lo, hi - 1) + depth_change(s[hi - 1])
    }
}

/// No prefix of `s[lo..hi]` closes more brackets than it opens.
pub open spec fn no_dip(s: Seq<Token>, lo: int, hi: int) -> bool {
    forall|k: int| lo <= k <= hi ==> bal(s, lo, k) >= 0
}

/// The segment `s[lo..hi]` is a well-nested bracket sequence.
pub open spec fn balanced_between(s: Seq<Token>, lo: int, hi: int) -> bool {
    bal(s, lo, hi) == 0 && no_dip(s, lo, hi)
}

/// The whole stream is well-nested: every `LoopOpen` has exactly one
/// matching `LoopClose` at equal nesting depth.
pub open spec fn balanced(s: Seq<Token>) -> bool {
    balanced_between(s, 0, s.len() as int)
}

/// The first index at or after `j` where the running depth `d`
/// returns to zero on a closing bracket; the matching close of an
/// open bracket at `i` is `find_close(s, i + 1, 1)`.
pub open spec fn find_close(s: Seq<Token>, j: int, d: int) -> Option<int>
    decreases s.len() - j,
{
    if j < 0 || j >= s.len() {
        None
    } else if is_close(s[j]) {
        if d == 1 {
            Some(j)
        } else {
            find_close(s, j + 1, d - 1)
        }
    } else if is_open(s[j]) {
        find_close(s, j + 1, d + 1)
    } else {
        find_close(s, j + 1, d)
    }
}

/// The index of the closing bracket matching an opening bracket at
/// index `i`.
pub open spec fn match_of(s: Seq<Token>, i: int) -> Option<int> {
    find_close(s, i + 1, 1)
}

/// Balance adds over adjacent segments.
pub proof fn lemma_bal_split(s: Seq<Token>, lo: int, mid: int, hi: int)
    requires
        lo <= mid <= hi,
    ensures
        bal(s, lo, hi) == bal(s, lo, mid) + bal(s, mid, hi),
    decreases hi - mid,
{
    if mid < hi {
        lemma_bal_split(s, lo, mid, hi - 1);
    }
}

/// The close-finding scan passes unchanged over any stretch on which
/// the running depth stays at least one.
pub proof fn lemma_find_close_skip(s: Seq<Token>, j: int, k: int, d: int)
    requires
        0 <= j <= k <= s.len(),
        d >= 1,
        forall|m: int| j <= m <= k ==> d + bal(s, j, m) >= 1,
    ensures
        find_close(s, j, d) == find_close(s, k, d + bal(s, j, k)),
    decreases k - j,
{
    if j < k {
        assert(bal(s, j, j) == 0);
        assert(bal(s, j, j + 1) == depth_change(s[j]));
        let d2 = d + bal(s, j, j + 1);
        assert(d2 >= 1);
        assert forall|m: int| j + 1 <= m <= k implies d2 + #[trigger] bal(s, j + 1, m) >= 1 by {
            lemma_bal_split(s, j, j + 1, m);
        }
        lemma_find_close_skip(s, j + 1, k, d2);
        lemma_bal_split(s, j, j + 1, k);
        if is_close(s[j]) {
            assert(d >= 2);
            assert(find_close(s, j, d) == find_close(s, j + 1, d - 1));
        }
    } else {
        assert(bal(s, j, k) == 0);
    }
}

/// A closing bracket right after a balanced segment matches the
/// opening bracket right before that segment.
pub proof fn lemma_match_after_balanced(s: Seq<Token>, t: int, j: int)
    requires
        0 <= t,
        t + 1 <= j < s.len(),
        balanced_between(s, t + 1, j),
        is_close(s[j]),
    ensures
        match_of(s, t) == Some(j),
{
    assert forall|m: int| t + 1 <= m <= j implies 1 + #[trigger] bal(s, t + 1, m) >= 1 by {}
    lemma_find_close_skip(s, t + 1, j, 1);
    assert(find_close(s, j, 1) == Some(j));
}

/// The close-finding scan never answers behind its starting point.
pub proof fn lemma_find_close_at_least(s: Seq<Token>, j: int, d: int)
    ensures
        match find_close(s, j, d) {
            Some(c) => j <= c < s.len(),
            None => true,
        },
    decreases s.len() - j,
{
    if 0 <= j < s.len() {
        if is_close(s[j]) {
            if d != 1 {
                lemma_find_close_at_least(s, j + 1, d - 1);
            }
        } else if is_open(s[j]) {
            lemma_find_close_at_least(s, j + 1, d + 1);
        } else {
            lemma_find_close_at_least(s, j + 1, d);
        }
    }
}

/// The close-finding scan inside a window agrees with the scan over
/// the window cut out as a sequence of its own, as far as the window
/// reaches.
pub proof fn lemma_find_close_sub(s: Seq<Token>, lo: int, hi: int, j: int, d: int)
    requires
        0 <= lo <= j <= hi <= s.len(),
    ensures
        match find_close(s.subrange(lo, hi), j - lo, d) {
            Some(c) => find_close(s, j, d) == Some(c + lo),
            None => match find_close(s, j, d) {
                Some(c) => c >= hi,
                None => true,
            },
        },
    decreases hi - j,
{
    let sub = s.subrange(lo, hi);
    if j == hi {
        lemma_find_close_at_least(s, j, d);
    } else {
        assert(sub[j - lo] == s[j]);
        if is_close(s[j]) {
            if d != 1 {
                lemma_find_close_sub(s, lo, hi, j + 1, d - 1);
            }
        } else if is_open(s[j]) {
            lemma_find_close_sub(s, lo, hi, j + 1, d + 1);
        } else {
            lemma_find_close_sub(s, lo, hi, j + 1, d);
        }
    }
}

/// Balance inside a window agrees with balance over the window cut
/// out as a sequence of its own.
pub proof fn lemma_bal_sub(s: Seq<Token>, lo: int, hi: int, a: int, b: int)
    requires
        0 <= lo <= a <= b <= hi <= s.len(),
    ensures
        bal(s, a, b) == bal(s.subrange(lo, hi), a - lo, b - lo),
    decreases b - a,
{
    if a < b {
        lemma_bal_sub(s, lo, hi, a, b - 1);
        assert(s.subrange(lo, hi)[b - 1 - lo] == s[b - 1]);
    }
}

/// Dropping a non-bracket token from the front of a balanced window
/// leaves it balanced.
pub proof fn lemma_balanced_shrink_front(s: Seq<Token>, lo: int, hi: int)
    requires
        0 <= lo < hi <= s.len(),
        balanced_between(s, lo, hi),
        depth_change(s[lo]) == 0,
    ensures
        balanced_between(s, lo + 1, hi),
{
    assert(bal(s, lo, lo) == 0);
    assert(bal(s, lo, lo + 1) == 0);
    lemma_bal_split(s, lo, lo + 1, hi);
    assert forall|k: int| lo + 1 <= k <= hi implies #[trigger] bal(s, lo + 1, k) >= 0 by {
        lemma_bal_split(s, lo, lo + 1, k);
        assert(bal(s, lo, k) >= 0);
    }
}

/// A window is well-nested exactly when the window cut out as a
/// sequence of its own is.
pub proof fn lemma_balanced_sub(s: Seq<Token>, lo: int, hi: int)
    requires
        0 <= lo <= hi <= s.len(),
    ensures
        balanced_between(s, lo, hi) <==> balanced(s.subrange(lo, hi)),
{
    let sub = s.subrange(lo, hi);
    lemma_bal_sub(s, lo, hi, lo, hi);
    if balanced_between(s, lo, hi) {
        assert forall|k: int| 0 <= k <= sub.len() implies #[trigger] bal(sub, 0, k) >= 0 by {
            lemma_bal_sub(s, lo, hi, lo, k + lo);
            assert(bal(s, lo, k + lo) >= 0);
        }
    }
    if balanced(sub) {
        assert forall|k: int| lo <= k <= hi implies #[trigger] bal(s, lo, k) >= 0 by {
            lemma_bal_sub(s, lo, hi, lo, k);
            assert(bal(sub, 0, k - lo) >= 0);
        }
    }
}

/// Prepending a non-bracket token keeps a stream well-nested.
pub proof fn lemma_balanced_cons(x: Token, y: Seq<Token>)
    requires
        depth_change(x) == 0,
        balanced(y),
    ensures
        balanced(seq![x] + y),
{
    let u = seq![x] + y;
    assert(u.subrange(1, u.len() as int) =~= y);
    lemma_balanced_sub(u, 1, u.len() as int);
    assert(bal(u, 0, 0) == 0);
    assert(bal(u, 0, 1) == 0);
    assert forall|k: int| 0 <= k <= u.len() implies #[trigger] bal(u, 0, k) >= 0 by {
        if k >= 1 {
            lemma_bal_split(u, 0, 1, k);
        }
    }
    lemma_bal_split(u, 0, 1, u.len() as int);
}

/// A loop wrapped around a well-nested body, followed by a
/// well-nested remainder, is well-nested, and the wrapping brackets
/// match.
pub proof fn lemma_balanced_loop_assemble(o: Token, body: Seq<Token>, cl: Token, rest: Seq<Token>)
    requires
        is_open(o),
        is_close(cl),
        balanced(body),
        balanced(rest),
    ensures
        balanced(seq![o] + body + seq![cl] + rest),
        match_of(seq![o] + body + seq![cl] + rest, 0) == Some(1 + body.len() as int),
{
    let u = seq![o] + body + seq![cl] + rest;
    let c = 1 + body.len() as int;
    assert(u.len() == 2 + body.len() + rest.len());
    assert(u[0] == o);
    assert(u[c] == cl);
    assert(u.subrange(1, c) =~= body);
    assert(u.subrange(c + 1, u.len() as int) =~= rest);
    lemma_balanced_sub(u, 1, c);
    lemma_balanced_sub(u, c + 1, u.len() as int);
    lemma_match_after_balanced(u, 0, c);
    assert(bal(u, 0, 0) == 0);
    assert(bal(u, 0, 1) == 1);
    assert(bal(u, 0, c) == 1) by {
        lemma_bal_split(u, 0, 1, c);
    }
    assert(bal(u, 0, c + 1) == 0);
    assert(bal(u, 0, u.len() as int) == 0) by {
        lemma_bal_split(u, 0, c + 1, u.len() as int);
    }
    assert forall|k: int| 0 <= k <= u.len() implies #[trigger] bal(u, 0, k) >= 0 by {
        if 1 <= k <= c {
            lemma_bal_split(u, 0, 1, k);
            assert(bal(u, 1, k) >= 0);
        } else if k > c + 1 {
            lemma_bal_split(u, 0, c + 1, k);
            assert(bal(u, c + 1, k) >= 0);
        }
    }
}

/// Walks forward from `k` to the first point where the balance
/// relative to `lo` returns to zero; used to locate matching closes
/// inside balanced segments.
proof fn lemma_first_zero(s: Seq<Token>, lo: int, k: int, hi: int) -> (c: int)
    requires
        lo <= k <= hi <= s.len(),
        bal(s, lo, k) >= 1,
        bal(s, lo, hi) == 0,
        forall|m: int| lo <= m <= hi ==> bal(s, lo, m) >= 0,
    ensures
        k < c <= hi,
        bal(s, lo, c) == 0,
        forall|m: int| k <= m < c ==> bal(s, lo, m) >= 1,
    decreases hi - k,
{
    assert(k < hi);
    if bal(s, lo, k + 1) == 0 {
        k + 1
    } else {
        let c = lemma_first_zero(s, lo, k + 1, hi);
        c
    }
}

/// Inside a balanced window, an opening bracket has a matching close
/// strictly inside the window; the loop body and the remainder of the
/// window are balanced in turn.
pub proof fn lemma_open_has_match(s: Seq<Token>, lo: int, hi: int) -> (c: int)
    requires
        0 <= lo < hi <= s.len(),
        balanced_between(s, lo, hi),
        is_open(s[lo]),
    ensures
        match_of(s, lo) == Some(c),
        lo < c < hi,
        is_close(s[c]),
        balanced_between(s, lo + 1, c),
        balanced_between(s, c + 1, hi),
{
    assert forall|m: int| lo <= m <= hi implies #[trigger] bal(s, lo, m) >= 0 by {}
    assert(bal(s, lo, lo) == 0);
    assert(bal(s, lo, lo + 1) == 1);
    let z = lemma_first_zero(s, lo, lo + 1, hi);
    let c = z - 1;
    assert(bal(s, lo, z) == bal(s, lo, c) + depth_change(s[c]));
    assert(bal(s, lo, c) >= 1);
    assert(depth_change(s[c]) <= -1);
    assert(is_close(s[c]) && bal(s, lo, c) == 1);
    // The scan from lo + 1 reaches c with depth still 1.
    assert forall|m: int| lo + 1 <= m <= c implies 1 + #[trigger] bal(s, lo + 1, m) >= 1 by {
        lemma_bal_split(s, lo, lo + 1, m);
    }
    lemma_find_close_skip(s, lo + 1, c, 1);
    lemma_bal_split(s, lo, lo + 1, c);
    assert(find_close(s, c, 1) == Some(c));
    // The loop body s[lo+1..c] is balanced.
    assert(bal(s, lo + 1, c) == 0);
    assert forall|m: int| lo + 1 <= m <= c implies #[trigger] bal(s, lo + 1, m) >= 0 by {
        lemma_bal_split(s, lo, lo + 1, m);
    }
    // The remainder s[z..hi] is balanced.
    lemma_bal_split(s, lo, z, hi);
    assert(bal(s, z, hi) == 0);
    assert forall|m: int| z <= m <= hi implies #[trigger] bal(s, z, m) >= 0 by {
        lemma_bal_split(s, lo, z, m);
    }
    c
}

} // verus!
