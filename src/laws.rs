//! What holds of the compiler as a whole.
use vstd::prelude::*;
use crate::opcode::{Op, step, interpret, trunc_half};
use crate::lexer::{ops_of, is_program, is_blank, all_accepted, op_of};
use crate::codegen::{template, body, code_of, prologue, epilogue};
use crate::machine::{Regs, run, sext32, tdiv, abs};
use vstd::arithmetic::power2::{pow2, lemma_pow2_unfold, lemma_pow2_pos};

verus! {

proof fn lemma_body_append(a: Seq<Op>, b: Seq<Op>)
    ensures
        body(a + b) == body(a) + body(b),
    decreases b.len(),
{
    if b.len() == 0 {
        assert(a + b =~= a);
        assert(body(a) + body(b) =~= body(a));
    } else {
        lemma_body_append(a, b.drop_last());
        assert((a + b).drop_last() =~= a + b.drop_last());
        assert(body(a) + body(b.drop_last()) + template(b.last()) =~= body(a) + body(b));
    }
}

proof fn lemma_body_single(op: Op)
    ensures
        body(seq![op]) == template(op),
{
    let single = seq![op];
    assert(single.drop_last() =~= Seq::<Op>::empty());
    assert(body(Seq::<Op>::empty()) =~= Seq::<u8>::empty());
    assert(single.last() == op);
    assert(body(single) =~= template(op));
}

/// The code of `ops` splits around the template of `ops[k]`.
proof fn lemma_code_split(ops: Seq<Op>, k: int)
    requires
        0 <= k < ops.len(),
    ensures
        code_of(ops) == prologue() + body(ops.take(k)) + template(ops[k]) + (body(ops.skip(k + 1)) + epilogue()),
{
    let single = seq![ops[k]];
    assert(ops =~= ops.take(k) + single + ops.skip(k + 1));
    lemma_body_append(ops.take(k) + single, ops.skip(k + 1));
    lemma_body_append(ops.take(k), single);
    lemma_body_single(ops[k]);
    assert(code_of(ops) =~= prologue() + body(ops.take(k)) + template(ops[k]) + (body(ops.skip(k + 1)) + epilogue()));
}

/// Running one opcode's template moves the accumulator by that opcode.
proof fn lemma_template(code: Seq<u8>, pc: int, op: Op, st: Regs) -> (next: Regs)
    requires
        0 <= pc,
        pc + template(op).len() <= code.len(),
        code.subrange(pc, pc + template(op).len()) == template(op),
    ensures
        next.rcx == step(st.rcx, op),
        run(code, pc, st) == run(code, pc + template(op).len(), next),
{
    let t = template(op);
    assert forall|j: int| 0 <= j < t.len() implies code[pc + j] == #[trigger] t[j] by {
        assert(code.subrange(pc, pc + t.len())[j] == code[pc + j]);
    }
    match op {
        Op::Increment | Op::Decrement => {
            assert(code[pc] == t[0] && code[pc + 1] == t[1] && code[pc + 2] == t[2]);
            let next = if op is Increment {
                Regs { rcx: vstd::wrapping::i64_specs::wrapping_add(st.rcx, 1), ..st }
            } else {
                Regs { rcx: vstd::wrapping::i64_specs::wrapping_sub(st.rcx, 1), ..st }
            };
            next
        },
        Op::Double => {
            assert(code[pc] == t[0] && code[pc + 1] == t[1] && code[pc + 2] == t[2] && code[pc + 3] == t[3]);
            Regs { rcx: vstd::wrapping::i64_specs::wrapping_mul(st.rcx, 2), ..st }
        },
        Op::Halve => {
            assert(code[pc] == t[0] && code[pc + 1] == t[1] && code[pc + 2] == t[2]);
            assert(code[pc + 3] == t[3] && code[pc + 4] == t[4] && code[pc + 5] == t[5]);
            assert(code[pc + 6] == t[6] && code[pc + 7] == t[7] && code[pc + 8] == t[8]);
            assert(code[pc + 9] == t[9] && code[pc + 10] == t[10] && code[pc + 11] == t[11]);
            assert(code[pc + 12] == t[12] && code[pc + 13] == t[13] && code[pc + 14] == t[14]);
            assert(code[pc + 15] == t[15] && code[pc + 16] == t[16] && code[pc + 17] == t[17]);
            assert(sext32(2, 0, 0, 0) == 2);
            let a = st.rcx;
            let s1 = Regs { rax: a, ..st };
            let s2 = Regs { r8: 2, ..s1 };
            let s3 = Regs { rdx: if a < 0 { -1i64 } else { 0i64 }, ..s2 };
            let d = crate::machine::wide_dividend(s3);
            assert(d == a as int);
            let q = tdiv(d, 2);
            assert(q == trunc_half(a) as int);
            let s4 = Regs { rax: q as i64, rdx: crate::machine::trem(d, 2) as i64, ..s3 };
            let s5 = Regs { rcx: q as i64, ..s4 };
            assert(run(code, pc + 3, s1) == run(code, pc + 10, s2));
            assert(run(code, pc + 10, s2) == run(code, pc + 12, s3));
            assert(run(code, pc + 12, s3) == run(code, pc + 15, s4));
            assert(run(code, pc + 15, s4) == run(code, pc + 18, s5));
            s5
        },
    }
}

proof fn lemma_run_from(ops: Seq<Op>, k: int, st: Regs)
    requires
        0 <= k <= ops.len(),
        st.rcx == interpret(ops.take(k)),
    ensures
        run(code_of(ops), (prologue().len() + body(ops.take(k)).len()) as int, st) == Some(interpret(ops)),
    decreases ops.len() - k,
{
    let code = code_of(ops);
    let pc: int = (prologue().len() + body(ops.take(k)).len()) as int;
    if k == ops.len() {
        assert(ops.take(k) =~= ops);
        assert(code[pc] == 0x48 && code[pc + 1] == 0x89 && code[pc + 2] == 0xc8 && code[pc + 3] == 0xc3);
        let s1 = Regs { rax: st.rcx, ..st };
        assert(run(code, pc, st) == run(code, pc + 3, s1));
    } else {
        lemma_code_split(ops, k);
        let t = template(ops[k]);
        assert(code.subrange(pc, pc + t.len()) =~= t);
        let next = lemma_template(code, pc, ops[k], st);
        assert(ops.take(k + 1).drop_last() =~= ops.take(k));
        lemma_body_append(ops.take(k), seq![ops[k]]);
        assert(ops.take(k) + seq![ops[k]] =~= ops.take(k + 1));
        lemma_body_single(ops[k]);
        lemma_run_from(ops, k + 1, next);
    }
}

/// Whatever the registers hold on entry, the code emitted for `ops` returns
/// the accumulator that direct interpretation of `ops` from zero gives.
pub proof fn lemma_code_computes_interpretation(ops: Seq<Op>, st: Regs)
    ensures
        run(code_of(ops), 0, st) == Some(interpret(ops)),
{
    let code = code_of(ops);
    assert(code[0] == 0x48 && code[1] == 0x31 && code[2] == 0xc9);
    let s1 = Regs { rcx: 0, ..st };
    assert(run(code, 0, st) == run(code, 3, s1));
    assert(ops.take(0) =~= Seq::<Op>::empty());
    lemma_run_from(ops, 0, s1);
}

/// Every program compiles to code that, run from any register state, returns
/// what interpreting its opcodes from an accumulator of zero gives.
pub proof fn lemma_program_computes_interpretation(s: Seq<char>, st: Regs)
    requires
        is_program(s),
    ensures
        run(code_of(ops_of(s)), 0, st) == Some(interpret(ops_of(s))),
{
    lemma_code_computes_interpretation(ops_of(s), st);
}

/// Two compilations of one program agree: whatever state each run starts in,
/// the emitted code returns the same value.
pub proof fn lemma_compilation_reproducible(s: Seq<char>, first: Regs, second: Regs)
    requires
        is_program(s),
    ensures
        run(code_of(ops_of(s)), 0, first) == run(code_of(ops_of(s)), 0, second),
{
    lemma_code_computes_interpretation(ops_of(s), first);
    lemma_code_computes_interpretation(ops_of(s), second);
}

proof fn lemma_ops_append(a: Seq<char>, b: Seq<char>)
    ensures
        ops_of(a + b) == ops_of(a) + ops_of(b),
    decreases b.len(),
{
    if b.len() == 0 {
        assert(a + b =~= a);
        assert(ops_of(a) + ops_of(b) =~= ops_of(a));
    } else {
        lemma_ops_append(a, b.drop_last());
        assert((a + b).drop_last() =~= a + b.drop_last());
        assert((a + b).last() == b.last());
        match op_of(b.last()) {
            Some(o) => {
                assert(ops_of(a) + ops_of(b.drop_last()).push(o) =~= (ops_of(a) + ops_of(b.drop_last())).push(o));
            },
            None => {},
        }
    }
}

/// Inserting a blank anywhere in a program changes neither its opcodes nor
/// whether it is accepted, so it compiles to the same code.
pub proof fn lemma_blank_insensitive(s: Seq<char>, i: int, c: char)
    requires
        0 <= i <= s.len(),
        is_blank(c),
    ensures
        ops_of(s.insert(i, c)) == ops_of(s),
        all_accepted(s.insert(i, c)) == all_accepted(s),
        is_program(s.insert(i, c)) == is_program(s),
        code_of(ops_of(s.insert(i, c))) == code_of(ops_of(s)),
{
    let t = s.insert(i, c);
    let blank = seq![c];
    assert(t =~= s.take(i) + blank + s.skip(i));
    assert(s =~= s.take(i) + s.skip(i));
    lemma_ops_append(s.take(i) + blank, s.skip(i));
    lemma_ops_append(s.take(i), blank);
    lemma_ops_append(s.take(i), s.skip(i));
    assert(blank.drop_last() =~= Seq::<char>::empty());
    assert(ops_of(Seq::<char>::empty()) =~= Seq::<Op>::empty());
    assert(blank.last() == c);
    assert(ops_of(blank) =~= Seq::<Op>::empty());
    assert(ops_of(s.take(i)) + ops_of(blank) =~= ops_of(s.take(i)));
    if all_accepted(s) {
        assert forall|j: int| 0 <= j < t.len() implies crate::lexer::is_accepted(#[trigger] t[j]) by {
            if j > i {
                assert(t[j] == s[j - 1]);
            } else if j < i {
                assert(t[j] == s[j]);
            }
        }
    }
    if all_accepted(t) {
        assert forall|j: int| 0 <= j < s.len() implies crate::lexer::is_accepted(#[trigger] s[j]) by {
            if j >= i {
                assert(t[j + 1] == s[j]);
            } else {
                assert(t[j] == s[j]);
            }
        }
    }
}

/// `k` doublings in a row.
pub open spec fn doublings(k: nat) -> Seq<Op> {
    Seq::new(k, |_i: int| Op::Double)
}

/// Doubling `k` times multiplies the accumulator by `2^k` exactly, as long as
/// that product fits in 64 bits.
pub proof fn lemma_doublings_multiply(ops: Seq<Op>, k: nat)
    requires
        i64::MIN <= interpret(ops) * pow2(k) <= i64::MAX,
    ensures
        interpret(ops + doublings(k)) == interpret(ops) * pow2(k),
    decreases k,
{
    let v = interpret(ops) as int;
    if k == 0 {
        assert(ops + doublings(0) =~= ops);
        assert(pow2(0) == 1) by {
            vstd::arithmetic::power2::lemma2_to64();
        }
    } else {
        let j = (k - 1) as nat;
        lemma_pow2_unfold(k);
        lemma_pow2_pos(j);
        let p = pow2(j) as int;
        assert(v * pow2(k) == 2 * (v * p)) by (nonlinear_arith)
            requires
                pow2(k) == 2 * p,
        ;
        assert(i64::MIN <= v * p <= i64::MAX);
        lemma_doublings_multiply(ops, j);
        assert((ops + doublings(k)).drop_last() =~= ops + doublings(j));
        assert((ops + doublings(k)).last() == Op::Double);
    }
}

/// A decrement then a doubling is signed arithmetic: `2 * (a - 1)` whenever it fits.
pub proof fn lemma_decrement_then_double(a: i64)
    requires
        i64::MIN <= 2 * (a - 1) <= i64::MAX,
    ensures
        step(step(a, Op::Decrement), Op::Double) == 2 * (a - 1),
{
}

/// Halving truncates toward zero: twice the result differs from the value by
/// its remainder, which is zero or one step toward zero (never away from it).
pub proof fn lemma_halve_truncates_toward_zero(a: i64)
    ensures
        a >= 0 ==> a - 2 * step(a, Op::Halve) == a % 2,
        a < 0 ==> a - 2 * step(a, Op::Halve) == -((-a) % 2),
        abs(2 * step(a, Op::Halve)) <= abs(a as int),
{
}

} // verus!
