use vstd::prelude::*;
use crate::opcode::{Op, JitError};
use crate::lexer::{tokenize, is_program, ops_of, tokenize_spec};

verus! {

/// `xor %rcx, %rcx`: the accumulator, kept in rcx, starts at zero.
pub open spec fn prologue() -> Seq<u8> {
    seq![0x48u8, 0x31, 0xc9]
}

/// `mov %rcx, %rax; ret`: hand the accumulator back in the return register.
pub open spec fn epilogue() -> Seq<u8> {
    seq![0x48u8, 0x89, 0xc8, 0xc3]
}

/// The fixed instruction template of each opcode.
pub open spec fn template(op: Op) -> Seq<u8> {
    match op {
        // inc %rcx
        Op::Increment => seq![0x48u8, 0xff, 0xc1],
        // dec %rcx
        Op::Decrement => seq![0x48u8, 0xff, 0xc9],
        // imul $2, %rcx
        Op::Double => seq![0x48u8, 0x6b, 0xc9, 0x02],
        // mov %rcx, %rax; mov $2, %r8; cqto; idivq %r8; mov %rax, %rcx
        Op::Halve => seq![
            0x48u8, 0x89, 0xc8, 0x49, 0xc7, 0xc0, 0x02, 0x00, 0x00, 0x00, 0x48, 0x99, 0x49, 0xf7,
            0xf8, 0x48, 0x89, 0xc1,
        ],
    }
}

/// The templates of `ops`, back to back.
pub open spec fn body(ops: Seq<Op>) -> Seq<u8>
    decreases ops.len(),
{
    if ops.len() == 0 {
        seq![]
    } else {
        body(ops.drop_last()) + template(ops.last())
    }
}

/// The whole function emitted for `ops`.
pub open spec fn code_of(ops: Seq<Op>) -> Seq<u8> {
    prologue() + body(ops) + epilogue()
}

fn append(buf: &mut Vec<u8>, bytes: &[u8])
    ensures
        final(buf)@ == old(buf)@ + bytes@,
{
    let mut i: usize = 0;
    while i < bytes.len()
        invariant
            i <= bytes@.len(),
            buf@ == old(buf)@ + bytes@.take(i as int),
        decreases bytes.len() - i,
    {
        buf.push(bytes[i]);
        i = i + 1;
        assert(buf@ =~= old(buf)@ + bytes@.take(i as int));
    }
    assert(bytes@.take(bytes@.len() as int) =~= bytes@);
}

/// Emits the instruction template of one opcode.
pub fn emit(buf: &mut Vec<u8>, op: Op)
    ensures
        final(buf)@ == old(buf)@ + template(op),
{
    match op {
        Op::Increment => {
            let t: [u8; 3] = [0x48, 0xff, 0xc1];
            append(buf, t.as_slice());
            assert(t@ =~= template(op));
        },
        Op::Decrement => {
            let t: [u8; 3] = [0x48, 0xff, 0xc9];
            append(buf, t.as_slice());
            assert(t@ =~= template(op));
        },
        Op::Double => {
            let t: [u8; 4] = [0x48, 0x6b, 0xc9, 0x02];
            append(buf, t.as_slice());
            assert(t@ =~= template(op));
        },
        Op::Halve => {
            let t: [u8; 18] = [
                0x48, 0x89, 0xc8, 0x49, 0xc7, 0xc0, 0x02, 0x00, 0x00, 0x00, 0x48, 0x99, 0x49,
                0xf7, 0xf8, 0x48, 0x89, 0xc1,
            ];
            append(buf, t.as_slice());
            assert(t@ =~= template(op));
        },
    }
}

/// Emits a complete function `int64_t f(void)` computing the accumulator after `ops`.
pub fn compile(ops: &Vec<Op>) -> (code: Vec<u8>)
    ensures
        code@ == code_of(ops@),
{
    let mut code: Vec<u8> = Vec::new();
    let p: [u8; 3] = [0x48, 0x31, 0xc9];
    append(&mut code, p.as_slice());
    assert(p@ =~= prologue());
    assert(code@ =~= prologue() + body(ops@.take(0)));
    let mut i: usize = 0;
    while i < ops.len()
        invariant
            i <= ops.len(),
            code@ == prologue() + body(ops@.take(i as int)),
        decreases ops.len() - i,
    {
        assert(ops@.take(i as int + 1).drop_last() =~= ops@.take(i as int));
        emit(&mut code, ops[i]);
        i = i + 1;
    }
    assert(ops@.take(ops.len() as int) =~= ops@);
    let e: [u8; 4] = [0x48, 0x89, 0xc8, 0xc3];
    append(&mut code, e.as_slice());
    assert(e@ =~= epilogue());
    code
}

/// Compiles a program text to machine code, or says why it is not a program.
pub fn jit(program: &str) -> (r: Result<Vec<u8>, JitError>)
    ensures
        r is Ok <==> is_program(program@),
        r matches Ok(code) ==> code@ == code_of(ops_of(program@)),
        r matches Err(e) ==> tokenize_spec(program@, Err(e)),
{
    match tokenize(program) {
        Ok(ops) => Ok(compile(&ops)),
        Err(e) => Err(e),
    }
}

} // verus!
