use vstd::prelude::*;

verus! {

/// One operation on the accumulator.
#[derive(Clone, Copy, Debug, PartialEq, Eq, Structural)]
pub enum Op {
    Increment,
    Decrement,
    Double,
    Halve,
}

/// Why a program could not be compiled and loaded.
#[derive(Clone, Copy, Debug, PartialEq, Eq, Structural)]
pub enum JitError {
    /// The program holds a character that is neither an opcode nor a blank.
    UnknownChar(char),
    /// The program holds no opcode at all.
    EmptyProgram,
    /// Executable memory could not be obtained from the system.
    AllocationFailed,
}

/// Halving with truncation toward zero, as a signed native division does.
pub open spec fn trunc_half(a: i64) -> i64 {
    if a >= 0 {
        (a / 2) as i64
    } else {
        (-((-a) / 2)) as i64
    }
}

/// The effect of one opcode on a 64-bit two's-complement accumulator.
pub open spec fn step(acc: i64, op: Op) -> i64 {
    match op {
        Op::Increment => vstd::wrapping::i64_specs::wrapping_add(acc, 1),
        Op::Decrement => vstd::wrapping::i64_specs::wrapping_sub(acc, 1),
        Op::Double => vstd::wrapping::i64_specs::wrapping_mul(acc, 2),
        Op::Halve => trunc_half(acc),
    }
}

/// The accumulator after running `ops` in order, starting from zero.
pub open spec fn interpret(ops: Seq<Op>) -> i64
    decreases ops.len(),
{
    if ops.len() == 0 {
        0
    } else {
        step(interpret(ops.drop_last()), ops.last())
    }
}

/// Applies one opcode to the accumulator.
pub fn apply(acc: i64, op: Op) -> (r: i64)
    ensures
        r == step(acc, op),
{
    match op {
        Op::Increment => acc.wrapping_add(1),
        Op::Decrement => acc.wrapping_sub(1),
        Op::Double => acc.wrapping_mul(2),
        Op::Halve => {
            if acc >= 0 {
                acc / 2
            } else {
                // -acc may not fit, so halve -(acc + 1) and round up.
                let m: i64 = -(acc + 1);
                let h: i64 = m / 2 + m % 2;
                -h
            }
        },
    }
}

/// Interprets a sequence of opcodes directly, starting from zero.
pub fn evaluate(ops: &Vec<Op>) -> (r: i64)
    ensures
        r == interpret(ops@),
{
    let mut acc: i64 = 0;
    let mut i: usize = 0;
    while i < ops.len()
        invariant
            i <= ops.len(),
            acc == interpret(ops@.take(i as int)),
        decreases ops.len() - i,
    {
        assert(ops@.take(i as int + 1).drop_last() =~= ops@.take(i as int));
        acc = apply(acc, ops[i]);
        i = i + 1;
    }
    assert(ops@.take(ops.len() as int) =~= ops@);
    acc
}

} // verus!
