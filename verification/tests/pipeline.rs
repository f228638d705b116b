use rsbflib::BracketState;
use rsbflib::CodePos;
use rsbflib::Token;
use rsbflib::TokenKind;
use rsbflib::c_translate;
use rsbflib::optimize;
use rsbflib::optimize::coalesce_runs;
use rsbflib::optimize::multiply_copy_pass;
use rsbflib::optimize::zero_clear_pass;
use rsbflib::tokenize;

fn kinds(tokens: &[Token]) -> Vec<TokenKind> {
    tokens.iter().map(|t| t.kind).collect()
}

fn at(kind: TokenKind) -> Token {
    Token {
        kind,
        code_pos: CodePos { line: 1, col: 1 },
    }
}

#[test]
fn tokenize_keeps_commands_and_drops_comments() {
    let tokens = tokenize("a+b-c>d<e[f]g.h,i");
    assert_eq!(
        kinds(&tokens),
        vec![
            TokenKind::ValMod(1),
            TokenKind::ValMod(-1),
            TokenKind::PosMod(1),
            TokenKind::PosMod(-1),
            TokenKind::Bracket(BracketState::Open),
            TokenKind::Bracket(BracketState::Closed),
            TokenKind::Output,
            TokenKind::Input,
        ]
    );
}

#[test]
fn tokenize_tracks_lines_and_columns() {
    let tokens = tokenize("+\n-");
    assert_eq!(tokens.len(), 2);
    assert_eq!((tokens[0].code_pos.line, tokens[0].code_pos.col), (1, 1));
    assert_eq!((tokens[1].code_pos.line, tokens[1].code_pos.col), (2, 1));
}

#[test]
fn tokenize_empty_source() {
    assert!(tokenize("").is_empty());
}

#[test]
fn tokenize_columns_count_dropped_characters() {
    // Comment characters occupy source columns like any other.
    let tokens = tokenize("a+");
    assert_eq!(tokens.len(), 1);
    assert_eq!((tokens[0].code_pos.line, tokens[0].code_pos.col), (1, 2));

    let tokens = tokenize("+x\nyy-");
    assert_eq!(tokens.len(), 2);
    assert_eq!((tokens[0].code_pos.line, tokens[0].code_pos.col), (1, 1));
    assert_eq!((tokens[1].code_pos.line, tokens[1].code_pos.col), (2, 3));
}

#[test]
fn coalesce_merges_runs() {
    // Scenario: >>>+++<<<. coalesces to PosMod(3), ValMod(3),
    // PosMod(-3), Output.
    let tokens = optimize(tokenize(">>>+++<<<."));
    assert_eq!(
        kinds(&tokens),
        vec![
            TokenKind::PosMod(3),
            TokenKind::ValMod(3),
            TokenKind::PosMod(-3),
            TokenKind::Output,
        ]
    );
}

#[test]
fn coalesce_sums_opposite_signs_to_zero() {
    let tokens = coalesce_runs(tokenize("+-"));
    assert_eq!(kinds(&tokens), vec![TokenKind::ValMod(0)]);
}

#[test]
fn coalesce_keeps_first_position() {
    let tokens = coalesce_runs(tokenize("++"));
    assert_eq!(tokens.len(), 1);
    assert_eq!((tokens[0].code_pos.line, tokens[0].code_pos.col), (1, 1));
}

#[test]
fn zero_clear_rewrites_triple() {
    let tokens = optimize(tokenize("[-]"));
    assert_eq!(kinds(&tokens), vec![TokenKind::Clear]);
}

#[test]
fn zero_clear_pass_is_idempotent_on_example() {
    let once = zero_clear_pass(tokenize("[-][-]+[-]"));
    let twice = zero_clear_pass(once.clone());
    assert_eq!(kinds(&once), kinds(&twice));
    assert_eq!(once, twice);
}

#[test]
fn copy_loop_rewrites_to_copies_and_clear() {
    // Scenario: [->+>+<<] rewrites to Copy(1), Copy(2), Clear.
    let tokens = optimize(tokenize("[->+>+<<]"));
    assert_eq!(
        kinds(&tokens),
        vec![TokenKind::Copy(1), TokenKind::Copy(2), TokenKind::Clear]
    );
}

#[test]
fn copy_loop_without_decrement_keeps_no_clear() {
    let tokens = multiply_copy_pass(tokenize("[>+<]"));
    assert_eq!(kinds(&tokens), vec![TokenKind::Copy(1)]);
}

#[test]
fn copy_pass_is_idempotent_on_example() {
    let once = multiply_copy_pass(coalesce_runs(tokenize("[->+<][->>+<<]")));
    let twice = multiply_copy_pass(once.clone());
    assert_eq!(once, twice);
}

#[test]
fn copy_pass_leaves_degenerate_loop_alone() {
    // A loop that neither decrements nor increments anything is not
    // rewritten.
    let tokens = multiply_copy_pass(coalesce_runs(tokenize("[><]")));
    assert_eq!(
        kinds(&tokens),
        vec![
            TokenKind::Bracket(BracketState::Open),
            TokenKind::PosMod(0),
            TokenKind::Bracket(BracketState::Closed),
        ]
    );
}

#[test]
fn copy_pass_aborts_on_double_increment() {
    let tokens = multiply_copy_pass(coalesce_runs(tokenize("[->++<]")));
    assert_eq!(
        kinds(&tokens),
        vec![
            TokenKind::Bracket(BracketState::Open),
            TokenKind::ValMod(-1),
            TokenKind::PosMod(1),
            TokenKind::ValMod(2),
            TokenKind::PosMod(-1),
            TokenKind::Bracket(BracketState::Closed),
        ]
    );
}

#[test]
fn optimizer_output_is_zero_clear_stable() {
    // The full optimizer's output holds no zero-clear triple, so
    // reapplying the zero-clear pass changes nothing.
    let once = optimize(tokenize("[-]+[->+<][-]x[-][->>+<<]+"));
    let again = zero_clear_pass(once.clone());
    assert_eq!(once, again);
}

#[test]
fn translate_emits_prologue_body_epilogue() {
    let text = c_translate(optimize(tokenize("+++.")));
    assert_eq!(
        text,
        "#include <stdio.h>\nint main(){char array[30000] = {0}; \
         char *ptr = array;*ptr += 3;putchar(*ptr);return 0;}"
    );
}

#[test]
fn translate_emits_negative_deltas() {
    let text = c_translate(optimize(tokenize("--<<")));
    assert!(text.contains("*ptr += -2;"));
    assert!(text.contains("ptr += -2;"));
}

#[test]
fn translate_emits_loops_and_io() {
    let text = c_translate(tokenize("[.,]"));
    assert!(text.contains("while (*ptr) {putchar(*ptr);*ptr = getchar();}"));
}

#[test]
fn translate_emits_copy_and_clear() {
    let text = c_translate(optimize(tokenize("[->+<]")));
    assert!(text.contains("{char *tptr = array;tptr = ptr;tptr+=1;*tptr += *ptr;}"));
    assert!(text.contains("*ptr = 0;"));
}

#[test]
fn translate_multi_digit_deltas() {
    let text = c_translate(optimize(tokenize(&"+".repeat(123))));
    assert!(text.contains("*ptr += 123;"));
}

#[test]
fn translate_empty_stream() {
    let text = c_translate(Vec::new());
    assert_eq!(
        text,
        "#include <stdio.h>\nint main(){char array[30000] = {0}; \
         char *ptr = array;return 0;}"
    );
}

#[test]
fn optimize_handles_empty_and_tiny_streams() {
    assert!(optimize(Vec::new()).is_empty());
    assert_eq!(kinds(&optimize(tokenize("+"))), vec![TokenKind::ValMod(1)]);
    assert_eq!(
        kinds(&optimize(vec![at(TokenKind::Output)])),
        vec![TokenKind::Output]
    );
}
