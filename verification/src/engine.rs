//! The execution engine: a byte tape, a data pointer and an instruction
//! pointer, driven one instruction at a time until the program halts or a
//! fatal error stops it.

use vstd::prelude::*;
use crate::BfError;
use crate::program::Program;
use crate::token::Token;

verus! {

/// The canonical tape length: 30,000 byte cells, all starting at zero.
pub const TAPE_LENGTH: usize = 30000;

/// The mutable state of one run: the tape, the two pointers, and whether
/// the engine is still running. Created fresh per run and discarded at halt.
pub struct State {
    pub memory: Vec<u8>,
    pub instruction_pointer: usize,
    pub data_pointer: usize,
    pub running: bool,
}

/// A cell value after one increment, wrapping modulo 256.
pub open spec fn inc_cell(v: u8) -> u8 {
    (((v as int) + 1) % 256) as u8
}

/// A cell value after one decrement, wrapping modulo 256.
pub open spec fn dec_cell(v: u8) -> u8 {
    (((v as int) - 1) % 256) as u8
}

impl State {
    /// The tape is nonempty and the data pointer is on it.
    pub open spec fn wf(&self) -> bool {
        self.data_pointer < self.memory.len()
    }

    /// A fresh state over a tape of the given length: all cells zero, both
    /// pointers at zero, running.
    pub fn new(tape_length: usize) -> (st: State)
        requires
            tape_length > 0,
        ensures
            st.wf(),
            st.memory@.len() == tape_length,
            forall|k: int| 0 <= k < tape_length ==> st.memory@[k] == 0u8,
            st.instruction_pointer == 0,
            st.data_pointer == 0,
            st.running,
    {
        let mut memory: Vec<u8> = Vec::new();
        let mut k: usize = 0;
        while k < tape_length
            invariant
                k <= tape_length,
                memory@.len() == k,
                forall|j: int| 0 <= j < k ==> memory@[j] == 0u8,
            decreases tape_length - k,
        {
            memory.push(0u8);
            k = k + 1;
        }
        State { memory, instruction_pointer: 0, data_pointer: 0, running: true }
    }
}

impl Default for State {
    /// A fresh state over the canonical 30,000-cell tape.
    fn default() -> (st: State)
        ensures
            st.wf(),
            st.memory@.len() == TAPE_LENGTH,
            forall|k: int| 0 <= k < TAPE_LENGTH ==> st.memory@[k] == 0u8,
            st.instruction_pointer == 0,
            st.data_pointer == 0,
            st.running,
    {
        State::new(TAPE_LENGTH)
    }
}

/// What one instruction does to the tape and the pointers, and the byte it
/// emits, if any.
pub ghost struct StepEffect {
    pub memory: Seq<u8>,
    pub data_pointer: int,
    pub instruction_pointer: int,
    pub output: Option<u8>,
}

/// The transition of one instruction, per the instruction table: pointer
/// moves are bounds-checked, cell arithmetic wraps modulo 256, a taken jump
/// lands one past the partner bracket, and every non-failing instruction
/// otherwise advances the instruction pointer by one. `input` is the byte
/// read for an `Input` instruction, `None` meaning end of input, which
/// writes zero to the cell.
pub open spec fn spec_step(
    tokens: Seq<Token>,
    jumps: Seq<Option<usize>>,
    memory: Seq<u8>,
    dp: int,
    ip: int,
    input: Option<u8>,
) -> Result<StepEffect, BfError>
    recommends
        0 <= ip < tokens.len(),
        0 <= dp < memory.len(),
{
    match tokens[ip] {
        Token::MoveRight => if dp + 1 < memory.len() {
            Ok(
                StepEffect {
                    memory,
                    data_pointer: dp + 1,
                    instruction_pointer: ip + 1,
                    output: None,
                },
            )
        } else {
            Err(BfError::TapeOverflow)
        },
        Token::MoveLeft => if dp == 0 {
            Err(BfError::TapeUnderflow)
        } else {
            Ok(
                StepEffect {
                    memory,
                    data_pointer: dp - 1,
                    instruction_pointer: ip + 1,
                    output: None,
                },
            )
        },
        Token::Increment => Ok(
            StepEffect {
                memory: memory.update(dp, inc_cell(memory[dp])),
                data_pointer: dp,
                instruction_pointer: ip + 1,
                output: None,
            },
        ),
        Token::Decrement => Ok(
            StepEffect {
                memory: memory.update(dp, dec_cell(memory[dp])),
                data_pointer: dp,
                instruction_pointer: ip + 1,
                output: None,
            },
        ),
        Token::Output => Ok(
            StepEffect {
                memory,
                data_pointer: dp,
                instruction_pointer: ip + 1,
                output: Some(memory[dp]),
            },
        ),
        Token::Input => Ok(
            StepEffect {
                memory: memory.update(
                    dp,
                    match input {
                        Some(b) => b,
                        None => 0u8,
                    },
                ),
                data_pointer: dp,
                instruction_pointer: ip + 1,
                output: None,
            },
        ),
        Token::JumpIfZero => Ok(
            StepEffect {
                memory,
                data_pointer: dp,
                instruction_pointer: if memory[dp] == 0 {
                    match jumps[ip] {
                        Some(j) => j + 1,
                        None => ip + 1,
                    }
                } else {
                    ip + 1
                },
                output: None,
            },
        ),
        Token::JumpIfNonZero => Ok(
            StepEffect {
                memory,
                data_pointer: dp,
                instruction_pointer: if memory[dp] != 0 {
                    match jumps[ip] {
                        Some(j) => j + 1,
                        None => ip + 1,
                    }
                } else {
                    ip + 1
                },
                output: None,
            },
        ),
    }
}

/// Execute the single instruction under the instruction pointer. On success
/// the returned byte, if any, is what `Output` emitted; the state advances
/// exactly as `spec_step` says, and `running` records whether the
/// instruction pointer is still inside the program. On a bounds failure the
/// run stops: the tape and both pointers are untouched and `running` is
/// cleared.
///
/// In particular, `MoveLeft` at data pointer zero fails with
/// `TapeUnderflow`, `MoveRight` at the last cell fails with `TapeOverflow`,
/// and `Increment`/`Decrement` wrap the cell modulo 256, never failing.
pub fn step(prog: &Program, st: &mut State, input: Option<u8>) -> (r: Result<Option<u8>, BfError>)
    requires
        prog.wf(),
        old(st).wf(),
        old(st).running,
        old(st).instruction_pointer < prog.token_seq().len(),
    ensures
        final(st).wf(),
        final(st).memory@.len() == old(st).memory@.len(),
        ({
            let eff = spec_step(
                prog.token_seq(),
                prog.jump_seq(),
                old(st).memory@,
                old(st).data_pointer as int,
                old(st).instruction_pointer as int,
                input,
            );
            match eff {
                Ok(e) => {
                    &&& r == Ok::<Option<u8>, BfError>(e.output)
                    &&& final(st).memory@ == e.memory
                    &&& final(st).data_pointer == e.data_pointer
                    &&& final(st).instruction_pointer == e.instruction_pointer
                    &&& final(st).running == (e.instruction_pointer < prog.token_seq().len())
                },
                Err(er) => {
                    &&& r == Err::<Option<u8>, BfError>(er)
                    &&& final(st).memory@ == old(st).memory@
                    &&& final(st).data_pointer == old(st).data_pointer
                    &&& final(st).instruction_pointer == old(st).instruction_pointer
                    &&& !final(st).running
                },
            }
        }),
        // pointer moves out of bounds are typed failures, not wraps or clamps
        ({
            let t = prog.token_seq()[old(st).instruction_pointer as int];
            t == Token::MoveLeft && old(st).data_pointer == 0 ==> r == Err::<
                Option<u8>,
                BfError,
            >(BfError::TapeUnderflow) && final(st).memory@ == old(st).memory@
        }),
        ({
            let t = prog.token_seq()[old(st).instruction_pointer as int];
            t == Token::MoveRight && old(st).data_pointer + 1 >= old(st).memory@.len() ==> r
                == Err::<Option<u8>, BfError>(BfError::TapeOverflow) && final(st).memory@ == old(
                st,
            ).memory@
        }),
        // cell arithmetic wraps modulo 256 and never fails
        ({
            let t = prog.token_seq()[old(st).instruction_pointer as int];
            let dp = old(st).data_pointer as int;
            t == Token::Increment ==> final(st).memory@ == old(st).memory@.update(
                dp,
                inc_cell(old(st).memory@[dp]),
            ) && r is Ok
        }),
        ({
            let t = prog.token_seq()[old(st).instruction_pointer as int];
            let dp = old(st).data_pointer as int;
            t == Token::Decrement ==> final(st).memory@ == old(st).memory@.update(
                dp,
                dec_cell(old(st).memory@[dp]),
            ) && r is Ok
        }),
{
    let n = prog.token_count();
    let m = st.memory.len();
    let ip = st.instruction_pointer;
    let dp = st.data_pointer;
    let t = prog.token_at(ip);
    let mut out: Option<u8> = None;
    let mut next_ip: usize = ip + 1;
    match t {
        Token::MoveRight => {
            if dp + 1 < m {
                st.data_pointer = dp + 1;
            } else {
                st.running = false;
                return Err(BfError::TapeOverflow);
            }
        },
        Token::MoveLeft => {
            if dp == 0 {
                st.running = false;
                return Err(BfError::TapeUnderflow);
            } else {
                st.data_pointer = dp - 1;
            }
        },
        Token::Increment => {
            let v = st.memory[dp];
            let w: u8 = if v == 255 {
                0
            } else {
                v + 1
            };
            st.memory.set(dp, w);
            proof {
                assert(w == inc_cell(v));
            }
        },
        Token::Decrement => {
            let v = st.memory[dp];
            let w: u8 = if v == 0 {
                255
            } else {
                v - 1
            };
            st.memory.set(dp, w);
            proof {
                assert(w == dec_cell(v));
            }
        },
        Token::Output => {
            out = Some(st.memory[dp]);
        },
        Token::Input => {
            let b: u8 = match input {
                Some(b) => b,
                None => 0,
            };
            st.memory.set(dp, b);
        },
        Token::JumpIfZero => {
            if st.memory[dp] == 0 {
                match prog.jump_target(ip) {
                    Some(j) => {
                        next_ip = j + 1;
                    },
                    None => {
                        proof {
                            assert(false);
                        }
                    },
                }
            }
        },
        Token::JumpIfNonZero => {
            if st.memory[dp] != 0 {
                match prog.jump_target(ip) {
                    Some(j) => {
                        next_ip = j + 1;
                    },
                    None => {
                        proof {
                            assert(false);
                        }
                    },
                }
            }
        },
    }
    st.instruction_pointer = next_ip;
    st.running = next_ip < n;
    Ok(out)
}

/// A whole machine configuration mid-run: the tape and pointers, how many
/// input bytes have been consumed, and every byte emitted so far.
pub ghost struct Config {
    pub memory: Seq<u8>,
    pub data_pointer: int,
    pub instruction_pointer: int,
    pub input_pos: int,
    pub output: Seq<u8>,
}

impl State {
    /// The configuration this state forms with a given input position and
    /// output history.
    pub open spec fn config(&self, input_pos: int, output: Seq<u8>) -> Config {
        Config {
            memory: self.memory@,
            data_pointer: self.data_pointer as int,
            instruction_pointer: self.instruction_pointer as int,
            input_pos,
            output,
        }
    }
}

/// The byte an `Input` instruction reads at a position of the input
/// sequence: `None` once the input is exhausted.
pub open spec fn next_input_byte(input: Seq<u8>, pos: int) -> Option<u8> {
    if 0 <= pos < input.len() {
        Some(input[pos])
    } else {
        None
    }
}

/// One instruction applied to a whole configuration: the instruction's
/// effect on tape and pointers, plus the input and output bookkeeping.
pub open spec fn spec_step_config(
    tokens: Seq<Token>,
    jumps: Seq<Option<usize>>,
    input: Seq<u8>,
    c: Config,
) -> Result<Config, BfError>
    recommends
        0 <= c.instruction_pointer < tokens.len(),
{
    let inb = if tokens[c.instruction_pointer] == Token::Input {
        next_input_byte(input, c.input_pos)
    } else {
        None
    };
    match spec_step(tokens, jumps, c.memory, c.data_pointer, c.instruction_pointer, inb) {
        Ok(e) => Ok(
            Config {
                memory: e.memory,
                data_pointer: e.data_pointer,
                instruction_pointer: e.instruction_pointer,
                input_pos: if tokens[c.instruction_pointer] == Token::Input && 0 <= c.input_pos
                    < input.len() {
                    c.input_pos + 1
                } else {
                    c.input_pos
                },
                output: match e.output {
                    Some(b) => c.output.push(b),
                    None => c.output,
                },
            },
        ),
        Err(er) => Err(er),
    }
}

/// Run a configuration for at most `fuel` instructions. `Some(Ok(c))` is a
/// natural halt (the instruction pointer reached the end of the program)
/// with final configuration `c`; `Some(Err(e))` is a fatal error; `None`
/// means the fuel ran out first.
pub open spec fn spec_run(
    tokens: Seq<Token>,
    jumps: Seq<Option<usize>>,
    input: Seq<u8>,
    c: Config,
    fuel: nat,
) -> Option<Result<Config, BfError>>
    decreases fuel,
{
    if c.instruction_pointer >= tokens.len() {
        Some(Ok(c))
    } else if fuel == 0 {
        None
    } else {
        match spec_step_config(tokens, jumps, input, c) {
            Ok(c2) => spec_run(tokens, jumps, input, c2, (fuel - 1) as nat),
            Err(e) => Some(Err(e)),
        }
    }
}

/// What a bounded run produced: a natural halt with the emitted bytes, a
/// fatal error, or no verdict within the step bound.
#[derive(Debug, PartialEq, Eq)]
pub enum RunOutcome {
    Halted(Vec<u8>),
    Failed(BfError),
    OutOfFuel,
}

/// Run the program against an in-memory input sequence for at most
/// `max_steps` instructions, collecting every emitted byte. The outcome is
/// exactly what `spec_run` says of the starting configuration: the same
/// program, input and step bound always give the same bytes.
pub fn run(prog: &Program, st: &mut State, input: &Vec<u8>, max_steps: u64) -> (r: RunOutcome)
    requires
        prog.wf(),
        old(st).wf(),
        old(st).running,
    ensures
        final(st).wf(),
        ({
            let res = spec_run(
                prog.token_seq(),
                prog.jump_seq(),
                input@,
                old(st).config(0, Seq::empty()),
                max_steps as nat,
            );
            match r {
                RunOutcome::Halted(out) => {
                    &&& res is Some
                    &&& res->0 is Ok
                    &&& res->0->Ok_0.output == out@
                    &&& final(st).memory@ == res->0->Ok_0.memory
                    &&& final(st).data_pointer == res->0->Ok_0.data_pointer
                    &&& final(st).instruction_pointer == res->0->Ok_0.instruction_pointer
                    &&& !final(st).running
                },
                RunOutcome::Failed(e) => res == Some(Result::<Config, BfError>::Err(e)),
                RunOutcome::OutOfFuel => res is None,
            }
        }),
{
    let ghost tokens = prog.token_seq();
    let ghost jumps = prog.jump_seq();
    let ghost init: Config = old(st).config(0, Seq::empty());
    let n = prog.token_count();
    let mut out: Vec<u8> = Vec::new();
    let mut in_pos: usize = 0;
    let mut fuel_left: u64 = max_steps;
    let ghost mut cur: Config = init;
    #[verifier::loop_isolation(false)]
    while st.running
        invariant
            prog.wf(),
            st.wf(),
            n == tokens.len(),
            tokens == prog.token_seq(),
            jumps == prog.jump_seq(),
            in_pos <= input@.len(),
            cur.memory == st.memory@,
            cur.data_pointer == st.data_pointer as int,
            cur.instruction_pointer == st.instruction_pointer as int,
            cur.input_pos == in_pos as int,
            cur.output == out@,
            !st.running ==> st.instruction_pointer >= n,
            spec_run(tokens, jumps, input@, init, max_steps as nat) == spec_run(
                tokens,
                jumps,
                input@,
                cur,
                fuel_left as nat,
            ),
        decreases fuel_left, (if st.running { 1int } else { 0int }),
    {
        if st.instruction_pointer >= n {
            st.running = false;
        } else if fuel_left == 0 {
            return RunOutcome::OutOfFuel;
        } else {
            let ghost prev: Config = cur;
            let t = prog.token_at(st.instruction_pointer);
            let inb: Option<u8> = if t == Token::Input {
                if in_pos < input.len() {
                    let b = input[in_pos];
                    in_pos = in_pos + 1;
                    Some(b)
                } else {
                    None
                }
            } else {
                None
            };
            proof {
                if t == Token::Input {
                    assert(inb == next_input_byte(input@, prev.input_pos));
                }
            }
            let res = step(prog, st, inb);
            fuel_left = fuel_left - 1;
            match res {
                Ok(emitted) => {
                    match emitted {
                        Some(b) => out.push(b),
                        None => {},
                    }
                    proof {
                        let stepped = spec_step_config(tokens, jumps, input@, prev);
                        assert(stepped is Ok);
                        cur = stepped->Ok_0;
                    }
                },
                Err(e) => {
                    proof {
                        assert(spec_step_config(tokens, jumps, input@, prev) == Result::<
                            Config,
                            BfError,
                        >::Err(e));
                    }
                    return RunOutcome::Failed(e);
                },
            }
        }
    }
    RunOutcome::Halted(out)
}

/// More fuel never changes a verdict already reached: a run that halts or
/// fails within one bound reaches the same end under any larger bound.
pub proof fn lemma_spec_run_monotonic(
    tokens: Seq<Token>,
    jumps: Seq<Option<usize>>,
    input: Seq<u8>,
    c: Config,
    f1: nat,
    f2: nat,
)
    requires
        f1 <= f2,
        spec_run(tokens, jumps, input, c, f1) is Some,
    ensures
        spec_run(tokens, jumps, input, c, f2) == spec_run(tokens, jumps, input, c, f1),
    decreases f1,
{
    if c.instruction_pointer >= tokens.len() {
    } else {
        match spec_step_config(tokens, jumps, input, c) {
            Ok(c2) => {
                lemma_spec_run_monotonic(tokens, jumps, input, c2, (f1 - 1) as nat, (f2 - 1) as nat);
            },
            Err(e) => {},
        }
    }
}

/// Execution is deterministic: any two step bounds under which a run of the
/// same program on the same input from the same configuration reaches a
/// verdict reach the same verdict — the same final tape, pointers and
/// output bytes, or the same error.
pub proof fn lemma_run_deterministic(
    tokens: Seq<Token>,
    jumps: Seq<Option<usize>>,
    input: Seq<u8>,
    c: Config,
    f1: nat,
    f2: nat,
)
    requires
        spec_run(tokens, jumps, input, c, f1) is Some,
        spec_run(tokens, jumps, input, c, f2) is Some,
    ensures
        spec_run(tokens, jumps, input, c, f1) == spec_run(tokens, jumps, input, c, f2),
{
    if f1 <= f2 {
        lemma_spec_run_monotonic(tokens, jumps, input, c, f1, f2);
    } else {
        lemma_spec_run_monotonic(tokens, jumps, input, c, f2, f1);
    }
}

/// Running the same program twice, from two fresh states over tapes of the
/// same length and with identical input sequences, reaches the same
/// verdict whenever both runs reach one — in particular byte-identical
/// output.
pub proof fn lemma_fresh_runs_agree(
    tokens: Seq<Token>,
    jumps: Seq<Option<usize>>,
    input: Seq<u8>,
    st1: State,
    st2: State,
    f1: nat,
    f2: nat,
)
    requires
        st1.memory@.len() == st2.memory@.len(),
        forall|k: int| 0 <= k < st1.memory@.len() ==> st1.memory@[k] == 0u8,
        forall|k: int| 0 <= k < st2.memory@.len() ==> st2.memory@[k] == 0u8,
        st1.instruction_pointer == 0 && st2.instruction_pointer == 0,
        st1.data_pointer == 0 && st2.data_pointer == 0,
        spec_run(tokens, jumps, input, st1.config(0, Seq::empty()), f1) is Some,
        spec_run(tokens, jumps, input, st2.config(0, Seq::empty()), f2) is Some,
    ensures
        spec_run(tokens, jumps, input, st1.config(0, Seq::empty()), f1) == spec_run(
            tokens,
            jumps,
            input,
            st2.config(0, Seq::empty()),
            f2,
        ),
{
    assert(st1.memory@ =~= st2.memory@);
    assert(st1.config(0, Seq::empty()) == st2.config(0, Seq::empty()));
    lemma_run_deterministic(tokens, jumps, input, st1.config(0, Seq::empty()), f1, f2);
}

} // verus!
