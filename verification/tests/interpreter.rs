use brainfuck::BfError;
use brainfuck::engine::{run, RunOutcome, State, TAPE_LENGTH};
use brainfuck::program::Program;
use brainfuck::token::{tokenize, Token};

fn run_source(source: &str, input: Vec<u8>, max_steps: u64) -> RunOutcome {
    let prog = Program::new(source).expect("program should build");
    let mut st = State::default();
    run(&prog, &mut st, &input, max_steps)
}

#[test]
fn tokenize_keeps_recognized_characters_in_order() {
    let tokens = tokenize("a+b- [x]>.<,z");
    assert_eq!(
        tokens,
        vec![
            Token::Increment,
            Token::Decrement,
            Token::JumpIfZero,
            Token::JumpIfNonZero,
            Token::MoveRight,
            Token::Output,
            Token::MoveLeft,
            Token::Input,
        ]
    );
}

#[test]
fn tokenize_count_matches_recognized_characters() {
    let source = "comment > more + words < here - [ ] . ,";
    let expected = source
        .chars()
        .filter(|c| "><+-.,[]".contains(*c))
        .count();
    assert_eq!(tokenize(source).len(), expected);
}

#[test]
fn tokenize_empty_source_is_empty() {
    assert!(tokenize("").is_empty());
    assert!(tokenize("no instructions at all").is_empty());
}

#[test]
fn match_brackets_pairs_nested_brackets() {
    let tokens = tokenize("[[]]");
    let jumps = brainfuck::brackets::match_brackets(&tokens).expect("balanced");
    assert_eq!(jumps, vec![Some(3), Some(2), Some(1), Some(0)]);
}

#[test]
fn match_brackets_table_is_symmetric() {
    let tokens = tokenize("++[>[-]<[[]]]");
    let jumps = brainfuck::brackets::match_brackets(&tokens).expect("balanced");
    assert_eq!(jumps.len(), tokens.len());
    for (i, entry) in jumps.iter().enumerate() {
        match entry {
            Some(j) => {
                assert_eq!(jumps[*j], Some(i));
                assert!(tokens[i] == Token::JumpIfZero || tokens[i] == Token::JumpIfNonZero);
            }
            None => {
                assert!(tokens[i] != Token::JumpIfZero && tokens[i] != Token::JumpIfNonZero);
            }
        }
    }
}

#[test]
fn match_brackets_rejects_interleaved_imbalance() {
    let tokens = tokenize("+[->][");
    assert_eq!(
        brainfuck::brackets::match_brackets(&tokens),
        Err(BfError::UnbalancedBrackets)
    );
}

#[test]
fn lone_open_bracket_fails_construction() {
    assert!(matches!(Program::new("["), Err(BfError::UnbalancedBrackets)));
}

#[test]
fn lone_close_bracket_fails_construction() {
    assert!(matches!(Program::new("]"), Err(BfError::UnbalancedBrackets)));
}

#[test]
fn empty_loop_gets_the_minimal_jump_table() {
    let prog = Program::new("[]").expect("balanced");
    assert_eq!(prog.token_count(), 2);
    assert_eq!(prog.jump_target(0), Some(1));
    assert_eq!(prog.jump_target(1), Some(0));
}

#[test]
fn default_state_is_fresh() {
    let st = State::default();
    assert_eq!(st.memory.len(), TAPE_LENGTH);
    assert!(st.memory.iter().all(|cell| *cell == 0));
    assert_eq!(st.instruction_pointer, 0);
    assert_eq!(st.data_pointer, 0);
    assert!(st.running);
}

#[test]
fn empty_program_halts_immediately() {
    assert_eq!(run_source("", vec![], 10), RunOutcome::Halted(vec![]));
}

#[test]
fn increment_wraps_to_zero_after_256_steps() {
    let source = format!("{}.", "+".repeat(256));
    assert_eq!(run_source(&source, vec![], 1_000), RunOutcome::Halted(vec![0]));
}

#[test]
fn decrement_wraps_zero_to_255() {
    assert_eq!(run_source("-.", vec![], 10), RunOutcome::Halted(vec![255]));
}

#[test]
fn increment_then_output() {
    assert_eq!(run_source("+++.", vec![], 10), RunOutcome::Halted(vec![3]));
}

#[test]
fn move_left_at_zero_fails_with_tape_underflow() {
    let prog = Program::new("<").expect("balanced");
    let mut st = State::default();
    let outcome = run(&prog, &mut st, &vec![], 10);
    assert_eq!(outcome, RunOutcome::Failed(BfError::TapeUnderflow));
    // the failing move touched nothing
    assert!(st.memory.iter().all(|cell| *cell == 0));
    assert_eq!(st.data_pointer, 0);
    assert!(!st.running);
}

#[test]
fn move_right_at_last_cell_fails_with_tape_overflow() {
    let source = ">".repeat(TAPE_LENGTH);
    assert_eq!(
        run_source(&source, vec![], TAPE_LENGTH as u64 + 10),
        RunOutcome::Failed(BfError::TapeOverflow)
    );
}

#[test]
fn move_right_to_last_cell_is_still_in_bounds() {
    let source = ">".repeat(TAPE_LENGTH - 1);
    let prog = Program::new(&source).expect("balanced");
    let mut st = State::default();
    assert_eq!(run(&prog, &mut st, &vec![], TAPE_LENGTH as u64), RunOutcome::Halted(vec![]));
    assert_eq!(st.data_pointer, TAPE_LENGTH - 1);
}

#[test]
fn hello_fragment_outputs_h_first() {
    let source = "++++++++[>++++[>++>+++>+++>+<<<<-]>+>+>->>+[<]<-]>>.>---.+++++++..+++.";
    match run_source(source, vec![], 10_000_000) {
        RunOutcome::Halted(out) => {
            assert!(!out.is_empty());
            assert_eq!(out[0], b'H');
        }
        other => panic!("expected a halt, got {:?}", other),
    }
}

#[test]
fn input_byte_is_echoed() {
    assert_eq!(run_source(",.", vec![65], 10), RunOutcome::Halted(vec![65]));
}

#[test]
fn end_of_input_reads_zero() {
    assert_eq!(run_source(",.", vec![], 10), RunOutcome::Halted(vec![0]));
}

#[test]
fn input_exhausts_then_reads_zero() {
    assert_eq!(run_source(",.,.", vec![7], 10), RunOutcome::Halted(vec![7, 0]));
}

#[test]
fn infinite_loop_runs_out_of_fuel() {
    assert_eq!(run_source("+[]", vec![], 1_000), RunOutcome::OutOfFuel);
}

#[test]
fn identical_runs_produce_identical_output() {
    let source = "++++++++[>++++[>++>+++>+++>+<<<<-]>+>+>->>+[<]<-]>>.>---.+++++++..+++.";
    let prog = Program::new(source).expect("balanced");
    let mut st1 = State::default();
    let mut st2 = State::default();
    let first = run(&prog, &mut st1, &vec![], 10_000_000);
    let second = run(&prog, &mut st2, &vec![], 10_000_000);
    assert_eq!(first, second);
    assert!(matches!(first, RunOutcome::Halted(_)));
}

#[test]
fn identical_runs_with_input_produce_identical_output() {
    let prog = Program::new(",+.,-.").expect("balanced");
    let mut st1 = State::default();
    let mut st2 = State::default();
    let input = vec![10, 20];
    let first = run(&prog, &mut st1, &input, 100);
    let second = run(&prog, &mut st2, &input, 100);
    assert_eq!(first, second);
    assert_eq!(first, RunOutcome::Halted(vec![11, 19]));
}

#[test]
fn custom_tape_length_is_respected() {
    let prog = Program::new(">>").expect("balanced");
    let mut st = State::new(2);
    assert_eq!(run(&prog, &mut st, &vec![], 10), RunOutcome::Failed(BfError::TapeOverflow));
    let mut st2 = State::new(3);
    assert_eq!(run(&prog, &mut st2, &vec![], 10), RunOutcome::Halted(vec![]));
}

#[test]
fn loop_body_skipped_when_cell_is_zero() {
    // the loop body would underflow the tape if it ever ran
    assert_eq!(run_source("[<]+.", vec![], 100), RunOutcome::Halted(vec![1]));
}
