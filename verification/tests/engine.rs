use rsbflib::CodePos;
use rsbflib::Error;
use rsbflib::Token;
use rsbflib::TokenKind;
use rsbflib::codegen::compile;
use rsbflib::generate_jumping_map;
use rsbflib::interpret;
use rsbflib::interpret_fueled;
use rsbflib::optimize;
use rsbflib::tokenize;

fn at(kind: TokenKind) -> Token {
    Token {
        kind,
        code_pos: CodePos { line: 1, col: 1 },
    }
}

fn run(src: &str, input: &[u8]) -> rsbflib::RunOutcome {
    interpret(&optimize(tokenize(src)), &input.to_vec()).expect("program should run")
}

#[test]
fn resolver_pairs_nested_loops() {
    let map = generate_jumping_map(&tokenize("[[]]")).expect("balanced");
    assert_eq!(map.get(&0), Some(&3));
    assert_eq!(map.get(&1), Some(&2));
    assert_eq!(map.len(), 2);
}

#[test]
fn resolver_rejects_lone_close() {
    // Scenario: `]` alone is an unmatched closing bracket.
    let r = generate_jumping_map(&tokenize("]"));
    assert_eq!(r.unwrap_err(), Error::UnmatchedCloseBracket);
}

#[test]
fn resolver_rejects_lone_open() {
    // Scenario: `[` alone is an unmatched opening bracket.
    let r = generate_jumping_map(&tokenize("["));
    assert_eq!(r.unwrap_err(), Error::UnmatchedOpenBracket);
}

#[test]
fn resolver_reports_first_underflow() {
    let r = generate_jumping_map(&tokenize("[]]["));
    assert_eq!(r.unwrap_err(), Error::UnmatchedCloseBracket);
}

#[test]
fn interpret_outputs_cell_value() {
    // Scenario: +++. outputs one byte equal to 3.
    let out = run("+++.", &[]);
    assert_eq!(out.output, vec![3]);
}

#[test]
fn interpret_clear_zeroes_cell() {
    // Scenario: [-] on a cell holding 5 leaves it 0 (after the
    // optimizer turned it into a Clear).
    let mut tokens = vec![at(TokenKind::ValMod(5))];
    tokens.extend(optimize(tokenize("[-]")));
    assert_eq!(tokens[1].kind, TokenKind::Clear);
    let out = interpret(&tokens, &Vec::new()).expect("runs");
    assert_eq!(out.tape[0], 0);
}

#[test]
fn interpret_coalesced_moves_print_origin() {
    // Scenario: >>>+++<<<. prints 0, the origin cell being untouched.
    let out = run(">>>+++<<<.", &[]);
    assert_eq!(out.output, vec![0]);
    assert_eq!(out.tape[3], 3);
    assert_eq!(out.pointer, 0);
}

#[test]
fn interpret_copy_loop_distributes_value() {
    // Scenario: [->+>+<<] with the current cell at 7 copies 7 into
    // the two next cells and clears the source.
    let mut tokens = vec![at(TokenKind::ValMod(7))];
    tokens.extend(optimize(tokenize("[->+>+<<]")));
    let out = interpret(&tokens, &Vec::new()).expect("runs");
    assert_eq!(out.tape[0], 0);
    assert_eq!(out.tape[1], 7);
    assert_eq!(out.tape[2], 7);
}

#[test]
fn interpret_real_loop_multiplies() {
    // 3 * 4 by repeated addition, without the copy-loop shape.
    let out = run("+++[>++++<-]>.", &[]);
    assert_eq!(out.output, vec![12]);
}

#[test]
fn interpret_pointer_wraps_forward() {
    // A move of exactly the tape length returns to the start.
    let src = format!("{}+.", ">".repeat(30000));
    let out = run(&src, &[]);
    assert_eq!(out.output, vec![1]);
    assert_eq!(out.pointer, 0);
    assert_eq!(out.tape[0], 1);
}

#[test]
fn interpret_pointer_wraps_backward() {
    let out = run("<+", &[]);
    assert_eq!(out.pointer, 29999);
    assert_eq!(out.tape[29999], 1);
}

#[test]
fn interpret_cell_wraps_modulo_256() {
    let src = format!("{}.", "+".repeat(257));
    let out = run(&src, &[]);
    assert_eq!(out.output, vec![1]);
}

#[test]
fn interpret_reads_input_bytes() {
    let out = run(",>,<.>.", &[65, 66]);
    assert_eq!(out.output, vec![65, 66]);
}

#[test]
fn interpret_reads_zero_at_end_of_input() {
    let out = run(",.", &[]);
    assert_eq!(out.output, vec![0]);
}

#[test]
fn interpret_rejects_unbalanced_stream() {
    let r = interpret(&tokenize("[+"), &Vec::new());
    assert_eq!(r.err(), Some(Error::UnmatchedOpenBracket));
    let r2 = interpret(&tokenize("+]"), &Vec::new());
    assert_eq!(r2.err(), Some(Error::UnmatchedCloseBracket));
}

#[test]
fn interpret_fueled_runs_out_on_endless_loop() {
    let r = interpret_fueled(&tokenize("+[]"), &Vec::new(), 100);
    assert_eq!(r.err(), Some(Error::OutOfFuel));
}

#[test]
fn interpret_fueled_enough_fuel_succeeds() {
    let out = interpret_fueled(&optimize(tokenize("+++[-].")), &Vec::new(), 8).expect("runs");
    assert_eq!(out.output, vec![0]);
}

#[test]
fn compile_produces_code_for_balanced_stream() {
    let code = compile(&optimize(tokenize("+++[>++++<-]>.")), 0x1000, 0x2000).expect("compiles");
    assert!(!code.is_empty());
}

#[test]
fn compile_handles_every_token_kind() {
    let code = compile(&optimize(tokenize("+-><[.,]<[->+<]")), 0x1000, 0x2000).expect("compiles");
    assert!(!code.is_empty());
}

#[test]
fn compile_rejects_unbalanced_stream() {
    // Scenario: the generator fails on unmatched brackets with its
    // structural error, producing nothing.
    assert_eq!(
        compile(&tokenize("["), 0, 0).unwrap_err(),
        Error::UnbalancedBrackets
    );
    assert_eq!(
        compile(&tokenize("]"), 0, 0).unwrap_err(),
        Error::UnbalancedBrackets
    );
}

#[test]
fn copy_target_wraps_around_tape() {
    // A copy loop sitting one cell before the tape's end targets a
    // cell past the boundary; the offset wraps around.
    let out = run("<+++[->>+<<]", &[]);
    assert_eq!(out.pointer, 29999);
    assert_eq!(out.tape[29999], 0);
    assert_eq!(out.tape[1], 3);
}

#[test]
fn coalescing_preserves_run_results() {
    let src = "++>++++[<+>-]<[->>+<<]>>.";
    let raw = tokenize(src);
    let coalesced = rsbflib::optimize::coalesce_runs(raw.clone());
    let a = interpret(&raw, &Vec::new()).expect("raw runs");
    let b = interpret(&coalesced, &Vec::new()).expect("coalesced runs");
    assert_eq!(a.output, b.output);
    assert_eq!(a.tape, b.tape);
    assert_eq!(a.pointer, b.pointer);
    assert_eq!(a.output, vec![6]);
}

#[test]
fn hello_world_program_prints() {
    let src = "++++++++[>++++[>++>+++>+++>+<<<<-]>+>+>->>+[<]<-]>>.>\
               ---.+++++++..+++.>>.<-.<.+++.------.--------.>>+.>++.";
    let out = run(src, &[]);
    assert_eq!(out.output, b"Hello World!\n".to_vec());
}
