//! The execution engine: the positional transform that drives horizontal
//! movement, the per-step instruction semantics, and the main loop.

use vstd::prelude::*;

use crate::grid::{points_tokens, Grid, GridTrait, Point};
use crate::token::Token;

verus! {

/// The positional transform on an odd column index: `(x + 1) / 2 - 1`.
pub open spec fn spec_divide(x: int) -> int {
    (x + 1) / 2 - 1
}

/// The positional transform on an even column index: `(x + 1) * 3`.
pub open spec fn spec_multiply(x: int) -> int {
    (x + 1) * 3
}

/// The positional transform: the next column for most symbols. It echoes the
/// Collatz conjecture's odd/even branching, but is a bespoke rule on the
/// column index, not numeric Collatz iteration on the register value.
pub open spec fn spec_step_position(x: int) -> int {
    if x % 2 == 1 {
        spec_divide(x)
    } else {
        spec_multiply(x)
    }
}

/// Halve the successor of the column index, rounding down past one.
pub fn divide(x: usize) -> (r: usize)
    requires
        x >= 1,
    ensures
        r as int == spec_divide(x as int),
{
    // equal to (x + 1) / 2 - 1, computed without overflowing at the top of
    // the range
    (x - 1) / 2
}

/// Triple the successor of the column index.
pub fn multiply(x: usize) -> (r: usize)
    requires
        spec_multiply(x as int) <= usize::MAX,
    ensures
        r as int == spec_multiply(x as int),
{
    (x + 1) * 3
}

/// The positional transform on any column index: the odd branch halves, the
/// even branch triples.
pub fn collatz_sequence(x: usize) -> (r: usize)
    requires
        x % 2 == 0 ==> spec_multiply(x as int) <= usize::MAX,
    ensures
        r as int == spec_step_position(x as int),
{
    if x % 2 == 1 {
        divide(x)
    } else {
        multiply(x)
    }
}

/// Increment a register value, wrapping at the top of the 32-bit range.
pub open spec fn wrap_inc(v: u32) -> u32 {
    if v == u32::MAX {
        0u32
    } else {
        (v + 1) as u32
    }
}

/// Decrement a register value, wrapping below zero.
pub open spec fn wrap_dec(v: u32) -> u32 {
    if v == 0 {
        u32::MAX
    } else {
        (v - 1) as u32
    }
}

/// Whether a step at column `x`, on symbol `t`, with register value `v`,
/// takes the tripling branch of the positional transform: `Multiply` on a
/// zero value does so regardless of parity, every other case exactly on an
/// even column.
pub open spec fn uses_multiply(x: int, t: Token, v: u32) -> bool {
    (t == Token::Multiply && v == 0) || x % 2 == 0
}

/// The new instruction-pointer position for one step: `Multiply` on a zero
/// value takes the direct tripling step, `Down` and `Up` move vertically,
/// and every symbol but a zero-value `Multiply` moves the column by the
/// positional transform.
pub open spec fn spec_next_position(x: int, y: int, t: Token, v: u32) -> (int, int) {
    if t == Token::Multiply {
        (if v == 0 {
            spec_multiply(x)
        } else {
            spec_step_position(x)
        }, y)
    } else if t == Token::Down {
        (spec_step_position(x), y + 1)
    } else if t == Token::Up {
        (spec_step_position(x), y - 1)
    } else {
        (spec_step_position(x), y)
    }
}

/// The new register value for one step: `Add` and `Subtract` wrap, `Left`
/// takes the externally supplied input value, every other symbol leaves the
/// value unchanged (`Right` emits it, unchanged).
pub open spec fn spec_next_value(t: Token, v: u32, input: Option<u32>) -> u32 {
    if t == Token::Add {
        wrap_inc(v)
    } else if t == Token::Subtract {
        wrap_dec(v)
    } else if t == Token::Left {
        match input {
            Some(i) => i,
            None => v,
        }
    } else {
        v
    }
}

/// Compute the `((x, y), value)` a step at `(x, y)` on `point` produces.
///
/// A `Left` symbol consumes the supplied `input` value; a `Right` symbol
/// leaves the value unchanged, and the caller emits it. No other symbol
/// touches `input`.
pub fn get_point_instructions(x: usize, y: usize, point: &Point, value: u32, input: Option<u32>) -> (r:
    ((usize, usize), u32))
    requires
        point.token == Token::Up ==> y >= 1,
        point.token == Token::Down ==> y < usize::MAX,
        uses_multiply(x as int, point.token, value) ==> spec_multiply(x as int) <= usize::MAX,
        point.token == Token::Left ==> input is Some,
    ensures
        (r.0.0 as int, r.0.1 as int) == spec_next_position(x as int, y as int, point.token, value),
        r.1 == spec_next_value(point.token, value, input),
{
    let position: (usize, usize) = match point.token {
        Token::Multiply => (
            if value == 0 {
                multiply(x)
            } else {
                collatz_sequence(x)
            },
            y,
        ),
        Token::Down => (collatz_sequence(x), y + 1),
        Token::Up => (collatz_sequence(x), y - 1),
        _ => (collatz_sequence(x), y),
    };
    let value: u32 = match point.token {
        Token::Add => if value == u32::MAX {
            0
        } else {
            value + 1
        },
        Token::Subtract => if value == 0 {
            u32::MAX
        } else {
            value - 1
        },
        Token::Left => match input {
            Some(i) => i,
            None => value,
        },
        _ => value,
    };
    (position, value)
}

/// A fatal runtime fault: execution stops immediately and is not retried.
#[derive(Clone, Copy, Debug, PartialEq, Eq, Structural)]
pub enum RuntimeFault {
    /// `Up` executed on row zero.
    MovedAboveGrid,
    /// The positional transform would exceed the machine's column range.
    PositionOverflow,
    /// The step counter would exceed its 32-bit range.
    StepOverflow,
    /// A `Left` symbol executed with no input value available.
    InputExhausted,
}

/// The engine state that lives outside the grid: the instruction pointer,
/// the loop flag, the register value carried into the next step, and the
/// step counter. The register pointer lives on the grid itself.
#[derive(Clone, Copy, Debug)]
pub struct Engine {
    /// Instruction-pointer column.
    pub x: usize,
    /// Instruction-pointer row.
    pub y: usize,
    /// Whether execution stands between a `LoopOpen` and a `LoopClose`.
    pub looping: bool,
    /// The register value read after the previous step.
    pub pending: u32,
    /// How many steps have executed.
    pub steps: u32,
}

/// The immutable part of a grid: its dimensions and stored symbols.
pub struct Board {
    pub rows: int,
    pub columns: int,
    pub symbols: Seq<Token>,
}

/// The symbol addressed by `(x, y)` on a board, for `0 <= y < rows`:
/// positions at or beyond the right edge read as `Null`.
pub open spec fn board_symbol(b: Board, x: int, y: int) -> Token {
    if x >= b.columns {
        Token::Null
    } else {
        b.symbols[x + y * b.columns]
    }
}

impl Grid {
    /// The immutable part of this grid.
    pub open spec fn board(self) -> Board {
        Board { rows: self.rows as int, columns: self.columns as int, symbols: self.symbols() }
    }
}

/// The whole mutable machine state: both cursors, the loop flag, the carried
/// register value, the step counter and the registers.
#[verifier::ext_equal]
pub struct MachineState {
    pub ip_x: int,
    pub ip_y: int,
    pub rp_x: int,
    pub rp_y: int,
    pub looping: bool,
    pub pending: u32,
    pub steps: int,
    pub regs: Seq<u32>,
}

/// The machine state that a grid and an engine together hold.
pub open spec fn machine_of(g: Grid, e: Engine) -> MachineState {
    MachineState {
        ip_x: e.x as int,
        ip_y: e.y as int,
        rp_x: g.x as int,
        rp_y: g.y as int,
        looping: e.looping,
        pending: e.pending,
        steps: e.steps as int,
        regs: g.data@,
    }
}

/// The machine state execution starts from: both cursors at the origin, the
/// loop flag off, no steps taken, and the carried value read from register
/// zero (zero on an empty grid).
pub open spec fn start_state(g: Grid) -> MachineState {
    MachineState {
        ip_x: 0,
        ip_y: 0,
        rp_x: 0,
        rp_y: 0,
        looping: false,
        pending: if g.columns > 0 {
            g.data@[0]
        } else {
            0u32
        },
        steps: 0,
        regs: g.data@,
    }
}

/// What one step does: terminate, fault, or move to a next state while
/// possibly emitting one output value.
pub enum StepSpec {
    Halt,
    Fault { fault: RuntimeFault },
    Next { state: MachineState, output: Option<u32> },
}

/// One step of the machine. The instruction pointer leaving the bottom of
/// the grid is the sole termination condition. A step first reads the
/// current symbol, updates the loop flag, computes the new position and
/// register value, writes the register under the register pointer, then
/// either sweeps the register pointer one column right (while looping, with
/// columns remaining) or re-synchronizes it to the instruction pointer, and
/// finally reads the register under the new register pointer as the value
/// carried into the next step.
pub open spec fn spec_step(b: Board, s: MachineState, input: Option<u32>) -> StepSpec {
    if s.ip_y >= b.rows {
        StepSpec::Halt
    } else {
        let t = board_symbol(b, s.ip_x, s.ip_y);
        if s.steps >= u32::MAX {
            StepSpec::Fault { fault: RuntimeFault::StepOverflow }
        } else if t == Token::Left && input is None {
            StepSpec::Fault { fault: RuntimeFault::InputExhausted }
        } else if t == Token::Up && s.ip_y == 0 {
            StepSpec::Fault { fault: RuntimeFault::MovedAboveGrid }
        } else if uses_multiply(s.ip_x, t, s.pending) && spec_multiply(s.ip_x) > usize::MAX {
            StepSpec::Fault { fault: RuntimeFault::PositionOverflow }
        } else {
            let np = spec_next_position(s.ip_x, s.ip_y, t, s.pending);
            let nv = spec_next_value(t, s.pending, input);
            let looping = if t == Token::OpenSquareBracket {
                true
            } else if t == Token::ClosedSquareBracket {
                false
            } else {
                s.looping
            };
            let regs = if 0 <= s.rp_x < b.columns {
                s.regs.update(s.rp_x, nv)
            } else {
                s.regs
            };
            let rp = if looping && b.columns > 0 && s.rp_x < b.columns - 1 {
                (s.rp_x + 1, s.rp_y)
            } else {
                np
            };
            let pending = if 0 <= rp.0 < b.columns {
                regs[rp.0]
            } else {
                s.pending
            };
            StepSpec::Next {
                state: MachineState {
                    ip_x: np.0,
                    ip_y: np.1,
                    rp_x: rp.0,
                    rp_y: rp.1,
                    looping,
                    pending,
                    steps: s.steps + 1,
                    regs,
                },
                output: if t == Token::Right {
                    Some(s.pending)
                } else {
                    None
                },
            }
        }
    }
}

/// Whether the machine's next step reads an input value: it stands on a
/// `Left` symbol.
pub open spec fn run_consumes(b: Board, s: MachineState) -> bool {
    s.ip_y < b.rows && board_symbol(b, s.ip_x, s.ip_y) == Token::Left
}

proof fn lemma_multiply_overflow(x: usize)
    ensures
        (x >= usize::MAX / 3) == (spec_multiply(x as int) > usize::MAX),
{
    let m = usize::MAX as int;
    assert(m == 3 * (m / 3) + m % 3 && 0 <= m % 3 < 3) by (nonlinear_arith);
}

/// What one exec step reports: the run ended, one step executed (with at
/// most one output value to emit), or a fatal fault.
#[derive(Clone, Copy, Debug)]
pub enum StepResult {
    Halted,
    Stepped { output: Option<u32> },
    Faulted { fault: RuntimeFault },
}

/// Whether the next step of the machine reads one input value, which the
/// caller of [`step`] must then supply.
pub fn needs_input(grid: &Grid, eng: &Engine) -> (r: bool)
    requires
        grid.wf(),
    ensures
        r == run_consumes(grid.board(), machine_of(*grid, *eng)),
{
    if eng.y < grid.rows {
        match grid.get(eng.x, eng.y) {
            Some(p) => matches!(p.token, Token::Left),
            None => false,
        }
    } else {
        false
    }
}

/// Reset both cursors to the origin and hand back the engine state that
/// execution starts from.
pub fn start_engine(grid: &mut Grid) -> (e: Engine)
    requires
        old(grid).wf(),
    ensures
        final(grid).wf(),
        final(grid).board() == old(grid).board(),
        final(grid).data@ == old(grid).data@,
        machine_of(*final(grid), e) == start_state(*old(grid)),
{
    grid.x = 0;
    grid.y = 0;
    let pending: u32 = match grid.get_value() {
        Some(v) => v,
        None => 0,
    };
    let e = Engine { x: 0, y: 0, looping: false, pending, steps: 0 };
    proof {
        assert(machine_of(*grid, e) =~= start_state(*old(grid)));
    }
    e
}

/// Execute one step: exactly the transition [`spec_step`] describes, on the
/// machine state the grid and engine hold. On a halt or a fault nothing is
/// mutated.
pub fn step(grid: &mut Grid, eng: &mut Engine, input: Option<u32>) -> (r: StepResult)
    requires
        old(grid).wf(),
    ensures
        final(grid).wf(),
        final(grid).board() == old(grid).board(),
        ({
            let b = old(grid).board();
            match spec_step(b, machine_of(*old(grid), *old(eng)), input) {
                StepSpec::Halt => {
                    &&& r matches StepResult::Halted
                    &&& *final(grid) == *old(grid)
                    &&& *final(eng) == *old(eng)
                },
                StepSpec::Fault { fault } => {
                    &&& r matches StepResult::Faulted { fault: f } && f == fault
                    &&& *final(grid) == *old(grid)
                    &&& *final(eng) == *old(eng)
                },
                StepSpec::Next { state, output } => {
                    &&& r matches StepResult::Stepped { output: o } && o == output
                    &&& machine_of(*final(grid), *final(eng)) == state
                },
            }
        }),
{
    if eng.y >= grid.rows {
        return StepResult::Halted;
    }
    let point: Point = match grid.get(eng.x, eng.y) {
        Some(p) => p,
        None => {
            proof {
                assert(false);
            }
            Point { token: Token::Null }
        },
    };
    let t = point.token;
    if eng.steps == u32::MAX {
        return StepResult::Faulted { fault: RuntimeFault::StepOverflow };
    }
    if matches!(t, Token::Left) && input.is_none() {
        return StepResult::Faulted { fault: RuntimeFault::InputExhausted };
    }
    if matches!(t, Token::Up) && eng.y == 0 {
        return StepResult::Faulted { fault: RuntimeFault::MovedAboveGrid };
    }
    let um: bool = (matches!(t, Token::Multiply) && eng.pending == 0) || eng.x % 2 == 0;
    proof {
        lemma_multiply_overflow(eng.x);
    }
    if um && eng.x >= usize::MAX / 3 {
        return StepResult::Faulted { fault: RuntimeFault::PositionOverflow };
    }
    let v0: u32 = eng.pending;
    let (position, nv) = get_point_instructions(eng.x, eng.y, &point, v0, input);
    let (nx, ny) = position;
    if matches!(t, Token::OpenSquareBracket) {
        eng.looping = true;
    } else if matches!(t, Token::ClosedSquareBracket) {
        eng.looping = false;
    }
    grid.set_value(nv);
    if eng.looping && grid.columns > 0 && grid.x < grid.columns - 1 {
        grid.x = grid.x + 1;
    } else {
        grid.x = nx;
        grid.y = ny;
    }
    match grid.get_value() {
        Some(v) => {
            eng.pending = v;
        },
        None => {},
    }
    eng.x = nx;
    eng.y = ny;
    eng.steps = eng.steps + 1;
    let out: Option<u32> = if matches!(t, Token::Right) {
        Some(v0)
    } else {
        None
    };
    proof {
        assert(points_tokens(grid.tokens@).len() == grid.tokens@.len());
        assert(points_tokens(old(grid).tokens@).len() == old(grid).tokens@.len());
        match spec_step(old(grid).board(), machine_of(*old(grid), *old(eng)), input) {
            StepSpec::Next { state, output } => {
                assert(machine_of(*grid, *eng) =~= state);
            },
            _ => {},
        }
    }
    StepResult::Stepped { output: out }
}

/// What a bounded run of the machine reaches: still running when the step
/// budget ran out, halted, or faulted; with the outputs emitted so far and
/// the count of inputs consumed.
pub enum RunSpec {
    Running { state: MachineState, outputs: Seq<u32>, used: int },
    Halted { state: MachineState, outputs: Seq<u32>, used: int },
    Faulted { state: MachineState, fault: RuntimeFault, outputs: Seq<u32>, used: int },
}

/// The input value the machine's next step is offered: the next unconsumed
/// element of `inputs` when the step reads input and one remains.
pub open spec fn run_input(b: Board, s: MachineState, inputs: Seq<u32>, used: int) -> Option<u32> {
    if run_consumes(b, s) && 0 <= used < inputs.len() {
        Some(inputs[used])
    } else {
        None
    }
}

/// Run the machine for at most `fuel` steps from state `s`, feeding it the
/// unconsumed remainder of `inputs` and accumulating emitted outputs.
pub open spec fn spec_run(
    b: Board,
    s: MachineState,
    inputs: Seq<u32>,
    used: int,
    outputs: Seq<u32>,
    fuel: nat,
) -> RunSpec
    decreases fuel,
{
    if fuel == 0 {
        RunSpec::Running { state: s, outputs, used }
    } else {
        match spec_step(b, s, run_input(b, s, inputs, used)) {
            StepSpec::Halt => RunSpec::Halted { state: s, outputs, used },
            StepSpec::Fault { fault } => RunSpec::Faulted { state: s, fault, outputs, used },
            StepSpec::Next { state, output } => spec_run(
                b,
                state,
                inputs,
                if run_consumes(b, s) {
                    used + 1
                } else {
                    used
                },
                match output {
                    Some(v) => outputs.push(v),
                    None => outputs,
                },
                (fuel - 1) as nat,
            ),
        }
    }
}

/// Extending a run's step budget by one either leaves a finished run as it
/// is or applies one more step at the running frontier.
pub proof fn lemma_spec_run_unfold_last(
    b: Board,
    s: MachineState,
    inputs: Seq<u32>,
    used: int,
    outputs: Seq<u32>,
    fuel: nat,
)
    ensures
        ({
            let r = spec_run(b, s, inputs, used, outputs, fuel);
            let r1 = spec_run(b, s, inputs, used, outputs, (fuel + 1) as nat);
            match r {
                RunSpec::Running { state, outputs: o1, used: u1 } => r1 == match spec_step(
                    b,
                    state,
                    run_input(b, state, inputs, u1),
                ) {
                    StepSpec::Halt => RunSpec::Halted { state, outputs: o1, used: u1 },
                    StepSpec::Fault { fault } => RunSpec::Faulted {
                        state,
                        fault,
                        outputs: o1,
                        used: u1,
                    },
                    StepSpec::Next { state: s2, output } => RunSpec::Running {
                        state: s2,
                        outputs: match output {
                            Some(v) => o1.push(v),
                            None => o1,
                        },
                        used: if run_consumes(b, state) {
                            u1 + 1
                        } else {
                            u1
                        },
                    },
                },
                RunSpec::Halted { .. } => r1 == r,
                RunSpec::Faulted { .. } => r1 == r,
            }
        }),
    decreases fuel,
{
    reveal_with_fuel(spec_run, 2);
    if fuel > 0 {
        match spec_step(b, s, run_input(b, s, inputs, used)) {
            StepSpec::Next { state, output } => {
                lemma_spec_run_unfold_last(
                    b,
                    state,
                    inputs,
                    if run_consumes(b, s) {
                        used + 1
                    } else {
                        used
                    },
                    match output {
                        Some(v) => outputs.push(v),
                        None => outputs,
                    },
                    (fuel - 1) as nat,
                );
            },
            _ => {},
        }
    }
}

/// A run that has halted or faulted within some step budget reaches the
/// same outcome under any larger budget: the machine is deterministic, so
/// the one outcome a budget witnesses is the outcome of the run.
pub proof fn lemma_run_outcome_stable(
    b: Board,
    s: MachineState,
    inputs: Seq<u32>,
    used: int,
    outputs: Seq<u32>,
    fuel1: nat,
    fuel2: nat,
)
    requires
        fuel1 <= fuel2,
        !(spec_run(b, s, inputs, used, outputs, fuel1) is Running),
    ensures
        spec_run(b, s, inputs, used, outputs, fuel2) == spec_run(b, s, inputs, used, outputs, fuel1),
    decreases fuel2 - fuel1,
{
    if fuel1 < fuel2 {
        lemma_run_outcome_stable(b, s, inputs, used, outputs, fuel1, (fuel2 - 1) as nat);
        lemma_spec_run_unfold_last(b, s, inputs, used, outputs, (fuel2 - 1) as nat);
    }
}

/// Interpret a grid from the origin, reading input values from `inputs` in
/// order, until the instruction pointer leaves the bottom of the grid or a
/// fatal fault occurs. On termination the step count and the emitted output
/// values are returned; rendering them (as characters or as decimal text)
/// is the caller's concern.
#[verifier::loop_isolation(false)]
pub fn interpret(grid: &mut Grid, inputs: &Vec<u32>) -> (r: Result<(u32, Vec<u32>), RuntimeFault>)
    requires
        old(grid).wf(),
    ensures
        final(grid).wf(),
        final(grid).board() == old(grid).board(),
        ({
            let b = old(grid).board();
            let s0 = start_state(*old(grid));
            match r {
                Ok(p) => spec_run(b, s0, inputs@, 0, Seq::<u32>::empty(), (p.0 + 1) as nat)
                    matches RunSpec::Halted { state, outputs, used } && outputs == p.1@
                    && state.steps == p.0 as int && state.regs == final(grid).data@
                    && state.rp_x == final(grid).x as int && state.rp_y == final(grid).y as int,
                Err(f) => exists|n: nat|
                    {
                        let run = #[trigger] spec_run(b, s0, inputs@, 0, Seq::<u32>::empty(), n);
                        &&& run matches RunSpec::Faulted { fault, .. }
                        &&& fault == f
                    },
            }
        }),
{
    let ghost b = grid.board();
    let ghost s0 = start_state(*grid);
    let mut eng = start_engine(grid);
    let mut outs: Vec<u32> = Vec::new();
    let mut idx: usize = 0;
    proof {
        assert(spec_run(b, s0, inputs@, 0, Seq::<u32>::empty(), 0) == (RunSpec::Running {
            state: machine_of(*grid, eng),
            outputs: outs@,
            used: idx as int,
        }));
    }
    loop
        invariant
            grid.wf(),
            grid.board() == b,
            idx <= inputs.len(),
            spec_run(b, s0, inputs@, 0, Seq::<u32>::empty(), eng.steps as nat) == (RunSpec::Running {
                state: machine_of(*grid, eng),
                outputs: outs@,
                used: idx as int,
            }),
        decreases u32::MAX - eng.steps,
    {
        let is_left: bool = needs_input(grid, &eng);
        let ghost idx0 = idx;
        let input: Option<u32> = if is_left && idx < inputs.len() {
            let v = inputs[idx];
            idx = idx + 1;
            Some(v)
        } else {
            None
        };
        proof {
            lemma_spec_run_unfold_last(b, s0, inputs@, 0, Seq::<u32>::empty(), eng.steps as nat);
            assert(run_input(b, machine_of(*grid, eng), inputs@, idx0 as int) == input);
        }
        match step(grid, &mut eng, input) {
            StepResult::Halted => {
                return Ok((eng.steps, outs));
            },
            StepResult::Faulted { fault } => {
                proof {
                    assert({
                        let run = spec_run(
                            b,
                            s0,
                            inputs@,
                            0,
                            Seq::<u32>::empty(),
                            (eng.steps + 1) as nat,
                        );
                        &&& run matches RunSpec::Faulted { fault: f2, .. }
                        &&& f2 == fault
                    });
                }
                return Err(fault);
            },
            StepResult::Stepped { output } => {
                if let Some(v) = output {
                    outs.push(v);
                }
            },
        }
    }
}

} // verus!
